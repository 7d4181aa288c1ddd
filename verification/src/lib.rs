//! Decoder for rasterized stylized text: a fixed visual encoding in which
//! each glyph is a block of binary pixels at a known downsampling scale,
//! glyphs and lines are separated by blank pixel runs, and the whole picture
//! is framed by a fixed-width border.
//!
//! The pipeline runs strictly forward: binarization of the grayscale raster,
//! border stripping, line segmentation, glyph segmentation, glyph
//! normalization, and pattern lookup against a fixed symbol table.

pub mod glyph;
pub mod grid;
pub mod laws;
pub mod segment;
pub mod symbol;
