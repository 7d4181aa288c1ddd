use glyph_decode::grid::{Image, Pixel};
use glyph_decode::segment::{decode, parse_line};
use glyph_decode::symbol::Symbol;

#[test]
fn blank_rows_split_into_two_lines() {
    // Rows: blank, A, A, blank, blank, B, blank — exactly two lines.
    let pixels = vec![
        vec![Pixel::Off],
        vec![Pixel::On],
        vec![Pixel::On],
        vec![Pixel::Off],
        vec![Pixel::Off],
        vec![Pixel::On],
        vec![Pixel::Off],
    ];
    let out = decode(Image { pixels });
    assert_eq!(out.len(), 2);
    // First line: the two on rows form one width-1 glyph of height 2.
    assert_eq!(out[0], vec![Symbol::Num(1)]);
    // Second line: a single on row, a width-1 glyph of height 1.
    assert_eq!(out[1].len(), 1);
    match &out[1][0] {
        Symbol::Unknown(g) => {
            assert_eq!(g.width, 1);
            assert_eq!(g.pixels, vec![Pixel::On]);
        },
        other => panic!("expected an unknown glyph, got {:?}", other),
    }
}

#[test]
fn all_blank_grid_has_no_lines() {
    let pixels = vec![vec![Pixel::Off; 3]; 4];
    let out = decode(Image { pixels });
    assert_eq!(out.len(), 0);
}

#[test]
fn single_internal_gap_is_one_glyph() {
    // Columns: stroke, blank, stroke — one glyph of width 3, the middle
    // column reconstructed as all off.
    let line = vec![
        vec![Pixel::On, Pixel::Off, Pixel::On],
        vec![Pixel::On, Pixel::Off, Pixel::On],
    ];
    let out = parse_line(line);
    assert_eq!(out.len(), 1);
    match &out[0] {
        Symbol::Unknown(g) => {
            assert_eq!(g.width, 3);
            assert_eq!(
                g.pixels,
                vec![Pixel::On, Pixel::Off, Pixel::On, Pixel::On, Pixel::Off, Pixel::On],
            );
        },
        other => panic!("expected an unknown glyph, got {:?}", other),
    }
}

#[test]
fn two_blank_columns_are_a_separator() {
    // Columns: stroke, blank, blank, stroke — two glyphs of width 1.
    let line = vec![
        vec![Pixel::On, Pixel::Off, Pixel::Off, Pixel::On],
        vec![Pixel::On, Pixel::Off, Pixel::Off, Pixel::On],
    ];
    let out = parse_line(line);
    assert_eq!(out, vec![Symbol::Num(1), Symbol::Num(1)]);
}

#[test]
fn leading_and_trailing_blanks_are_dropped() {
    let line = vec![
        vec![Pixel::Off, Pixel::On, Pixel::Off],
        vec![Pixel::Off, Pixel::On, Pixel::Off],
    ];
    let out = parse_line(line);
    assert_eq!(out, vec![Symbol::Num(1)]);
}

#[test]
fn empty_width_line_has_no_glyphs() {
    let line: Vec<Vec<Pixel>> = vec![vec![]];
    let out = parse_line(line);
    assert_eq!(out.len(), 0);
}
