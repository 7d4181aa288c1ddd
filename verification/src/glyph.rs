//! The canonical glyph form: a flat pixel sequence in row-major scan order
//! together with an explicit width, produced by transposing a raw glyph's
//! column list. This is the comparable form the symbol table is keyed on.

use vstd::prelude::*;
use vstd::arithmetic::div_mod::lemma_fundamental_div_mod_converse;

use crate::grid::{DecodeError, Pixel};

verus! {

/// A normalized glyph: `pixels` holds, for each row from top to bottom, the
/// pixel of every column from left to right; `width` is the column count.
/// The height is implicit: `pixels.len() / width`.
#[derive(Clone, Debug, PartialEq, Eq)]
pub struct Glyph {
    pub pixels: Vec<Pixel>,
    pub width: usize,
}

impl Glyph {
    /// The normalized-form invariant: a positive width that divides the
    /// pixel count evenly.
    pub open spec fn wf(&self) -> bool {
        self.width > 0 && self.pixels@.len() % (self.width as nat) == 0
    }
}

/// All columns of a raw glyph have the same height.
pub open spec fn cols_rect(cols: Seq<Seq<Pixel>>) -> bool {
    forall|i: int| 0 <= i < cols.len() ==> #[trigger] cols[i].len() == cols[0].len()
}

/// The row-major flattening of a column-major raw glyph: entry `y * w + x`
/// is the pixel of column `x` at row `y`.
pub open spec fn normalize_pixels(cols: Seq<Seq<Pixel>>) -> Seq<Pixel> {
    let w = cols.len() as int;
    let h = cols[0].len() as int;
    Seq::new((w * h) as nat, |k: int| cols[k % w][k / w])
}

impl Glyph {
    /// Transposes a non-empty list of equal-height columns into the
    /// canonical row-major flat form.
    pub(crate) fn normalize(cols: Vec<Vec<Pixel>>) -> (g: Glyph)
        requires
            cols@.len() > 0,
            cols_rect(crate::grid::grid_view(cols@)),
        ensures
            g.width == cols@.len(),
            g.pixels@ == normalize_pixels(crate::grid::grid_view(cols@)),
            g.pixels@.len() == cols@.len() * cols@[0]@.len(),
            g.wf(),
    {
        let w = cols.len();
        let h = cols[0].len();
        let ghost gcols = crate::grid::grid_view(cols@);
        proof {
            assert(gcols.len() == w);
            assert(gcols[0].len() == h);
        }
        let mut pixels: Vec<Pixel> = Vec::new();
        let mut y: usize = 0;
        while y < h
            invariant
                y <= h,
                w == cols@.len(),
                gcols == crate::grid::grid_view(cols@),
                gcols.len() == w,
                cols_rect(gcols),
                h == gcols[0].len(),
                w > 0,
                pixels@.len() == y * w,
                forall|k: int| 0 <= k < y * w ==> #[trigger] pixels@[k] == gcols[k % (w as int)][k / (w as int)],
            decreases h - y,
        {
            let mut x: usize = 0;
            while x < w
                invariant
                    x <= w,
                    y < h,
                    w == cols@.len(),
                    gcols == crate::grid::grid_view(cols@),
                    gcols.len() == w,
                    cols_rect(gcols),
                    h == gcols[0].len(),
                    w > 0,
                    pixels@.len() == y * w + x,
                    forall|k: int| 0 <= k < y * w + x ==> #[trigger] pixels@[k] == gcols[k % (w as int)][k / (w as int)],
                decreases w - x,
            {
                assert(gcols[x as int].len() == h);
                assert(y * w + x < w * h) by (nonlinear_arith)
                    requires
                        0 <= x < w,
                        0 <= y < h,
                ;
                pixels.push(cols[x][y]);
                proof {
                    let k = y * w + x;
                    lemma_fundamental_div_mod_converse(k as int, w as int, y as int, x as int);
                    assert(pixels@[k as int] == gcols[k as int % (w as int)][k as int / (w as int)]);
                }
                x = x + 1;
            }
            proof {
                assert(y * w + w == (y + 1) * w) by (nonlinear_arith);
            }
            y = y + 1;
        }
        proof {
            assert(pixels@ =~= normalize_pixels(gcols));
            assert(h * w == w * h) by (nonlinear_arith);
            assert(pixels@.len() % (w as nat) == 0) by {
                lemma_fundamental_div_mod_converse((w * h) as int, w as int, h as int, 0);
            }
        }
        Glyph { pixels, width: w }
    }

    /// Builds the canonical form of a raw glyph, or reports the shape
    /// violation of a glyph with no columns at all.
    pub fn from_columns(cols: Vec<Vec<Pixel>>) -> (r: Result<Glyph, DecodeError>)
        requires
            cols_rect(crate::grid::grid_view(cols@)),
        ensures
            cols@.len() == 0 ==> (r matches Err(e) && e == DecodeError::Shape),
            cols@.len() > 0 ==> (r matches Ok(g)
                && g.width == cols@.len()
                && g.pixels@ == normalize_pixels(crate::grid::grid_view(cols@))
                && g.pixels@.len() == cols@.len() * cols@[0]@.len()
                && g.wf()),
    {
        if cols.len() == 0 {
            Err(DecodeError::Shape)
        } else {
            Ok(Glyph::normalize(cols))
        }
    }
}

} // verus!
