use glyph_decode::glyph::Glyph;
use glyph_decode::grid::{DecodeError, Pixel};
use glyph_decode::symbol::{decode_glyph, symbol_table, Symbol};

const O: Pixel = Pixel::Off;
const I: Pixel = Pixel::On;

fn glyph(width: usize, pixels: Vec<Pixel>) -> Glyph {
    Glyph { pixels, width }
}

#[test]
fn every_table_pattern_decodes_to_its_symbol() {
    let table = symbol_table();
    assert_eq!(table.len(), 11);
    for (width, pixels, expected) in table {
        let got = decode_glyph(&glyph(width, pixels));
        assert_eq!(got, expected);
    }
}

#[test]
fn listed_patterns_decode_as_in_the_table() {
    assert_eq!(decode_glyph(&glyph(1, vec![I, I])), Symbol::Num(1));
    assert_eq!(decode_glyph(&glyph(2, vec![O, I, I, O])), Symbol::Num(0));
    assert_eq!(decode_glyph(&glyph(2, vec![O, I, I, I])), Symbol::Num(1));
    assert_eq!(decode_glyph(&glyph(3, vec![O, I, I, I, O, I, I, O, O])), Symbol::Num(2));
    assert_eq!(decode_glyph(&glyph(3, vec![O, I, I, I, I, I, I, O, O])), Symbol::Num(3));
    assert_eq!(decode_glyph(&glyph(3, vec![O, I, I, I, O, O, I, I, O])), Symbol::Num(4));
    assert_eq!(decode_glyph(&glyph(3, vec![O, I, I, I, I, O, I, I, O])), Symbol::Num(5));
    assert_eq!(decode_glyph(&glyph(3, vec![O, I, I, I, O, I, I, I, O])), Symbol::Num(6));
    assert_eq!(decode_glyph(&glyph(3, vec![O, I, I, I, I, I, I, I, O])), Symbol::Num(7));
    assert_eq!(decode_glyph(&glyph(3, vec![O, I, I, I, O, O, I, O, I])), Symbol::Num(8));
    assert_eq!(decode_glyph(&glyph(4, vec![I, I, I, I])), Symbol::Ellipsis);
}

#[test]
fn unlisted_width3_glyph_is_unknown_unchanged() {
    let pixels = vec![O, O, O, O, O, O, O, O, O];
    let got = decode_glyph(&glyph(3, pixels.clone()));
    match got {
        Symbol::Unknown(g) => {
            assert_eq!(g.width, 3);
            assert_eq!(g.pixels, pixels);
        },
        other => panic!("expected an unknown glyph, got {:?}", other),
    }
}

#[test]
fn unlisted_width_is_unknown() {
    let got = decode_glyph(&glyph(5, vec![I, I, I, I, I]));
    assert!(matches!(got, Symbol::Unknown(_)));
}

#[test]
fn near_miss_of_a_pattern_is_unknown() {
    // The width-2 pattern of digit 0 at width 1 must not match.
    let got = decode_glyph(&glyph(1, vec![O, I, I, O]));
    assert!(matches!(got, Symbol::Unknown(_)));
}

#[test]
fn normalization_transposes_columns() {
    let cols = vec![vec![I, O], vec![O, I]];
    let g = Glyph::from_columns(cols).unwrap();
    assert_eq!(g.width, 2);
    assert_eq!(g.pixels, vec![I, O, O, I]);
}

#[test]
fn normalized_length_is_width_times_height() {
    let cols = vec![vec![I, O, I], vec![O, I, O]];
    let g = Glyph::from_columns(cols).unwrap();
    assert_eq!(g.pixels.len(), g.width * 3);
}

#[test]
fn normalization_of_height_one_glyph_is_identity() {
    // A normalized glyph read back as a single-row glyph of height 1
    // comes out unchanged.
    let pixels = vec![O, I, I, O];
    let cols: Vec<Vec<Pixel>> = pixels.iter().map(|p| vec![*p]).collect();
    let g = Glyph::from_columns(cols).unwrap();
    assert_eq!(g.width, pixels.len());
    assert_eq!(g.pixels, pixels);
}

#[test]
fn zero_columns_is_shape_error() {
    assert_eq!(Glyph::from_columns(vec![]), Err(DecodeError::Shape));
}
