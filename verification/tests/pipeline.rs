use glyph_decode::grid::{is_blank, parse, print, print_pixels, remove_border, DecodeError, Image, Pixel, BORDER, SCALE};
use glyph_decode::segment::decode;
use glyph_decode::symbol::{symbol_table, Symbol};

fn upscale(cells: &Vec<Vec<Pixel>>, scale: usize) -> (usize, usize, Vec<u8>) {
    let height = cells.len() * scale;
    let width = cells[0].len() * scale;
    let mut data = Vec::new();
    for y in 0..height {
        for x in 0..width {
            let v = match cells[y / scale][x / scale] {
                Pixel::On => 255u8,
                Pixel::Off => 0u8,
            };
            data.push(v);
        }
    }
    (width, height, data)
}

#[test]
fn constants_match_format() {
    assert_eq!(SCALE, 4);
    assert_eq!(BORDER, 2);
}

#[test]
fn blank_row_detection() {
    assert!(is_blank(&vec![Pixel::Off, Pixel::Off]));
    assert!(!is_blank(&vec![Pixel::Off, Pixel::On]));
    assert!(is_blank(&vec![]));
}

#[test]
fn border_too_few_rows_is_shape_error() {
    let mut grid = vec![vec![Pixel::On; 8], vec![Pixel::On; 8], vec![Pixel::On; 8]];
    let before = grid.clone();
    assert_eq!(remove_border(&mut grid), Err(DecodeError::Shape));
    assert_eq!(grid, before);
}

#[test]
fn border_too_few_columns_is_shape_error() {
    let mut grid = vec![vec![Pixel::On; 3]; 5];
    assert_eq!(remove_border(&mut grid), Err(DecodeError::Shape));
}

#[test]
fn border_stripping_keeps_center() {
    let mut grid = vec![vec![Pixel::Off; 5]; 5];
    grid[2][2] = Pixel::On;
    assert_eq!(remove_border(&mut grid), Ok(()));
    assert_eq!(grid, vec![vec![Pixel::On]]);
}

#[test]
fn border_stripping_exactly_four_rows_leaves_nothing() {
    let mut grid = vec![vec![Pixel::On; 2]; 4];
    assert_eq!(remove_border(&mut grid), Ok(()));
    assert_eq!(grid.len(), 0);
}

#[test]
fn gray_sample_is_format_error() {
    let mut data = vec![0u8; 16];
    data[0] = 128;
    assert!(matches!(parse(4, 4, &data), Err(DecodeError::Format)));
}

#[test]
fn tiny_image_is_shape_error() {
    let data = vec![0u8; 16];
    assert!(matches!(parse(4, 4, &data), Err(DecodeError::Shape)));
}

#[test]
fn parse_strips_border() {
    // 5 x 5 cells: an all-off border of thickness 2 around one on cell.
    let mut cells = vec![vec![Pixel::Off; 5]; 5];
    cells[2][2] = Pixel::On;
    let (w, h, data) = upscale(&cells, 4);
    let img = parse(w, h, &data).unwrap();
    assert_eq!(img.pixels, vec![vec![Pixel::On]]);
}

#[test]
fn end_to_end_two_lines() {
    // Content after border stripping: the width-2 patterns of digits 0 and
    // 1, stacked as two lines separated by one blank row.
    let content = vec![
        vec![Pixel::Off, Pixel::On],
        vec![Pixel::On, Pixel::Off],
        vec![Pixel::Off, Pixel::Off],
        vec![Pixel::Off, Pixel::On],
        vec![Pixel::On, Pixel::On],
    ];
    let mut cells = vec![vec![Pixel::Off; 6]; 9];
    for (r, row) in content.iter().enumerate() {
        for (c, p) in row.iter().enumerate() {
            cells[r + 2][c + 2] = *p;
        }
    }
    let (w, h, data) = upscale(&cells, 4);
    let img = parse(w, h, &data).unwrap();
    assert_eq!(img.pixels, content);
    let out = decode(img);
    assert_eq!(out, vec![vec![Symbol::Num(0)], vec![Symbol::Num(1)]]);
}

#[test]
fn end_to_end_every_table_symbol() {
    // One line per table entry, each holding the glyph twice with a
    // two-column separator; rows are padded with blanks on the right.
    let table = symbol_table();
    let mut content: Vec<Vec<Pixel>> = Vec::new();
    let mut expected: Vec<Vec<Symbol>> = Vec::new();
    let total_w = 4 + 2 + 4;
    for (width, pixels, sym) in &table {
        let h = pixels.len() / width;
        for y in 0..h {
            let glyph_row = &pixels[y * width..(y + 1) * width];
            let mut row = Vec::new();
            row.extend_from_slice(glyph_row);
            row.push(Pixel::Off);
            row.push(Pixel::Off);
            row.extend_from_slice(glyph_row);
            while row.len() < total_w {
                row.push(Pixel::Off);
            }
            content.push(row);
        }
        content.push(vec![Pixel::Off; total_w]);
        expected.push(vec![sym.clone(), sym.clone()]);
    }
    let mut cells = vec![vec![Pixel::Off; total_w + 4]; content.len() + 4];
    for (r, row) in content.iter().enumerate() {
        for (c, p) in row.iter().enumerate() {
            cells[r + 2][c + 2] = *p;
        }
    }
    let (w, h, data) = upscale(&cells, 4);
    let img = parse(w, h, &data).unwrap();
    let out = decode(img);
    assert_eq!(out, expected);
}

#[test]
fn render_uses_hash_for_on() {
    let img = Image {
        pixels: vec![vec![Pixel::On, Pixel::Off], vec![Pixel::Off, Pixel::On]],
    };
    assert_eq!(print(&img), "# \n #\n");
    assert_eq!(print_pixels(&img.pixels), "# \n #\n");
}

#[test]
fn render_empty_grid_is_empty() {
    assert_eq!(print_pixels(&vec![]), "");
}
