//! Classification of normalized glyphs: a fixed table keyed on
//! `(width, pixels)` maps each known shape to a digit or the ellipsis
//! marker; everything else becomes `Unknown`, a value and never an error.

use vstd::prelude::*;

use crate::glyph::Glyph;
use crate::grid::Pixel;

verus! {

/// One recognized unit of text: a digit, the ellipsis marker, or an
/// unrecognized shape carried along unchanged for inspection.
#[derive(Clone, Debug, PartialEq, Eq)]
pub enum Symbol {
    Num(u8),
    Ellipsis,
    Unknown(Glyph),
}

/// Width-1 pattern of digit one.
pub open spec fn pat_one_narrow() -> Seq<Pixel> {
    seq![Pixel::On, Pixel::On]
}

/// Width-2 pattern of digit zero.
pub open spec fn pat_zero() -> Seq<Pixel> {
    seq![Pixel::Off, Pixel::On, Pixel::On, Pixel::Off]
}

/// Width-2 pattern of digit one.
pub open spec fn pat_one() -> Seq<Pixel> {
    seq![Pixel::Off, Pixel::On, Pixel::On, Pixel::On]
}

/// Width-3 pattern of digit two.
pub open spec fn pat_two() -> Seq<Pixel> {
    seq![Pixel::Off, Pixel::On, Pixel::On, Pixel::On, Pixel::Off, Pixel::On, Pixel::On, Pixel::Off, Pixel::Off]
}

/// Width-3 pattern of digit three.
pub open spec fn pat_three() -> Seq<Pixel> {
    seq![Pixel::Off, Pixel::On, Pixel::On, Pixel::On, Pixel::On, Pixel::On, Pixel::On, Pixel::Off, Pixel::Off]
}

/// Width-3 pattern of digit four.
pub open spec fn pat_four() -> Seq<Pixel> {
    seq![Pixel::Off, Pixel::On, Pixel::On, Pixel::On, Pixel::Off, Pixel::Off, Pixel::On, Pixel::On, Pixel::Off]
}

/// Width-3 pattern of digit five.
pub open spec fn pat_five() -> Seq<Pixel> {
    seq![Pixel::Off, Pixel::On, Pixel::On, Pixel::On, Pixel::On, Pixel::Off, Pixel::On, Pixel::On, Pixel::Off]
}

/// Width-3 pattern of digit six.
pub open spec fn pat_six() -> Seq<Pixel> {
    seq![Pixel::Off, Pixel::On, Pixel::On, Pixel::On, Pixel::Off, Pixel::On, Pixel::On, Pixel::On, Pixel::Off]
}

/// Width-3 pattern of digit seven.
pub open spec fn pat_seven() -> Seq<Pixel> {
    seq![Pixel::Off, Pixel::On, Pixel::On, Pixel::On, Pixel::On, Pixel::On, Pixel::On, Pixel::On, Pixel::Off]
}

/// Width-3 pattern of digit eight.
pub open spec fn pat_eight() -> Seq<Pixel> {
    seq![Pixel::Off, Pixel::On, Pixel::On, Pixel::On, Pixel::Off, Pixel::Off, Pixel::On, Pixel::Off, Pixel::On]
}

/// Width-4 pattern of the ellipsis marker.
pub open spec fn pat_ellipsis() -> Seq<Pixel> {
    seq![Pixel::On, Pixel::On, Pixel::On, Pixel::On]
}

/// The symbol listed in the fixed table for a `(width, pixels)` pair, or
/// `None` where the table has no entry for it.
pub open spec fn lookup(width: int, pixels: Seq<Pixel>) -> Option<Symbol> {
    if width == 1 && pixels == pat_one_narrow() {
        Some(Symbol::Num(1))
    } else if width == 2 && pixels == pat_zero() {
        Some(Symbol::Num(0))
    } else if width == 2 && pixels == pat_one() {
        Some(Symbol::Num(1))
    } else if width == 3 && pixels == pat_two() {
        Some(Symbol::Num(2))
    } else if width == 3 && pixels == pat_three() {
        Some(Symbol::Num(3))
    } else if width == 3 && pixels == pat_four() {
        Some(Symbol::Num(4))
    } else if width == 3 && pixels == pat_five() {
        Some(Symbol::Num(5))
    } else if width == 3 && pixels == pat_six() {
        Some(Symbol::Num(6))
    } else if width == 3 && pixels == pat_seven() {
        Some(Symbol::Num(7))
    } else if width == 3 && pixels == pat_eight() {
        Some(Symbol::Num(8))
    } else if width == 4 && pixels == pat_ellipsis() {
        Some(Symbol::Ellipsis)
    } else {
        None
    }
}

/// The relation `decode_glyph` establishes between a glyph and its symbol:
/// the table's entry where there is one, and otherwise `Unknown` carrying
/// the glyph's content unchanged.
pub open spec fn symbol_for(width: int, pixels: Seq<Pixel>, s: Symbol) -> bool {
    match lookup(width, pixels) {
        Some(t) => s == t,
        None => s matches Symbol::Unknown(u) && u.width == width && u.pixels@ == pixels,
    }
}

/// The fixed symbol table as plain data, in the order `lookup` reads it:
/// one entry per recognized shape, keyed on width and row-major pixels.
pub fn symbol_table() -> (t: Vec<(usize, Vec<Pixel>, Symbol)>)
    ensures
        t@.len() == 11,
        t@[0].0 == 1 && t@[0].1@ == pat_one_narrow() && t@[0].2 == Symbol::Num(1),
        t@[1].0 == 2 && t@[1].1@ == pat_zero() && t@[1].2 == Symbol::Num(0),
        t@[2].0 == 2 && t@[2].1@ == pat_one() && t@[2].2 == Symbol::Num(1),
        t@[3].0 == 3 && t@[3].1@ == pat_two() && t@[3].2 == Symbol::Num(2),
        t@[4].0 == 3 && t@[4].1@ == pat_three() && t@[4].2 == Symbol::Num(3),
        t@[5].0 == 3 && t@[5].1@ == pat_four() && t@[5].2 == Symbol::Num(4),
        t@[6].0 == 3 && t@[6].1@ == pat_five() && t@[6].2 == Symbol::Num(5),
        t@[7].0 == 3 && t@[7].1@ == pat_six() && t@[7].2 == Symbol::Num(6),
        t@[8].0 == 3 && t@[8].1@ == pat_seven() && t@[8].2 == Symbol::Num(7),
        t@[9].0 == 3 && t@[9].1@ == pat_eight() && t@[9].2 == Symbol::Num(8),
        t@[10].0 == 4 && t@[10].1@ == pat_ellipsis() && t@[10].2 == Symbol::Ellipsis,
{
    let mut t: Vec<(usize, Vec<Pixel>, Symbol)> = Vec::new();
    t.push((1, vec![Pixel::On, Pixel::On], Symbol::Num(1)));
    t.push((2, vec![Pixel::Off, Pixel::On, Pixel::On, Pixel::Off], Symbol::Num(0)));
    t.push((2, vec![Pixel::Off, Pixel::On, Pixel::On, Pixel::On], Symbol::Num(1)));
    t.push((3, vec![Pixel::Off, Pixel::On, Pixel::On, Pixel::On, Pixel::Off, Pixel::On, Pixel::On, Pixel::Off, Pixel::Off], Symbol::Num(2)));
    t.push((3, vec![Pixel::Off, Pixel::On, Pixel::On, Pixel::On, Pixel::On, Pixel::On, Pixel::On, Pixel::Off, Pixel::Off], Symbol::Num(3)));
    t.push((3, vec![Pixel::Off, Pixel::On, Pixel::On, Pixel::On, Pixel::Off, Pixel::Off, Pixel::On, Pixel::On, Pixel::Off], Symbol::Num(4)));
    t.push((3, vec![Pixel::Off, Pixel::On, Pixel::On, Pixel::On, Pixel::On, Pixel::Off, Pixel::On, Pixel::On, Pixel::Off], Symbol::Num(5)));
    t.push((3, vec![Pixel::Off, Pixel::On, Pixel::On, Pixel::On, Pixel::Off, Pixel::On, Pixel::On, Pixel::On, Pixel::Off], Symbol::Num(6)));
    t.push((3, vec![Pixel::Off, Pixel::On, Pixel::On, Pixel::On, Pixel::On, Pixel::On, Pixel::On, Pixel::On, Pixel::Off], Symbol::Num(7)));
    t.push((3, vec![Pixel::Off, Pixel::On, Pixel::On, Pixel::On, Pixel::Off, Pixel::Off, Pixel::On, Pixel::Off, Pixel::On], Symbol::Num(8)));
    t.push((4, vec![Pixel::On, Pixel::On, Pixel::On, Pixel::On], Symbol::Ellipsis));
    t
}

/// Element-by-element equality of two pixel rows.
fn pixels_eq(a: &Vec<Pixel>, b: &Vec<Pixel>) -> (r: bool)
    ensures
        r == (a@ == b@),
{
    if a.len() != b.len() {
        return false;
    }
    let mut i: usize = 0;
    while i < a.len()
        invariant
            i <= a@.len(),
            a@.len() == b@.len(),
            forall|j: int| 0 <= j < i ==> a@[j] == b@[j],
        decreases a@.len() - i,
    {
        if a[i] != b[i] {
            assert(a@ != b@);
            return false;
        }
        i = i + 1;
    }
    assert(a@ =~= b@);
    true
}

/// Classifies a normalized glyph by exact match against the fixed table;
/// a shape the table does not list becomes `Unknown` with the glyph's
/// content unchanged.
#[verifier::loop_isolation(false)]
pub fn decode_glyph(glyph: &Glyph) -> (r: Symbol)
    ensures
        symbol_for(glyph.width as int, glyph.pixels@, r),
{
    let table = symbol_table();
    let mut i: usize = 0;
    while i < table.len()
        invariant
            i <= table@.len(),
            forall|k: int| 0 <= k < i ==> !(glyph.width == #[trigger] table@[k].0
                && glyph.pixels@ == table@[k].1@),
        decreases table@.len() - i,
    {
        if glyph.width == table[i].0 && pixels_eq(&glyph.pixels, &table[i].1) {
            let hit = match &table[i].2 {
                Symbol::Num(n) => Symbol::Num(*n),
                Symbol::Ellipsis => Symbol::Ellipsis,
                Symbol::Unknown(_) => {
                    proof {
                        assert(false);
                    }
                    vstd::pervasive::unreached()
                },
            };
            assert(lookup(glyph.width as int, glyph.pixels@) == Some(hit));
            return hit;
        }
        i = i + 1;
    }
    assert(lookup(glyph.width as int, glyph.pixels@) is None);
    Symbol::Unknown(Glyph { pixels: crate::grid::copy_row(&glyph.pixels), width: glyph.width })
}

} // verus!
