//! General properties of the pipeline, each stated over the spec functions
//! the executable contracts use and proved once for all inputs.

use vstd::prelude::*;
use vstd::arithmetic::div_mod::lemma_fundamental_div_mod_converse;

use crate::glyph::normalize_pixels;
use crate::grid::{row_blank, Pixel};
use crate::segment::{col_blank, col_of, glyph_groups, line_groups, off_col, scan_groups, split_from};
use crate::symbol::lookup;

verus! {

/// Normalization is idempotent: a normalized pixel sequence, read back as a
/// raw glyph of height one (each pixel its own single-entry column), comes
/// out of normalization unchanged, with one column per pixel.
pub proof fn lemma_normalize_idempotent(p: Seq<Pixel>)
    requires
        p.len() > 0,
    ensures
        ({
            let cols = Seq::new(p.len(), |k: int| seq![p[k]]);
            cols.len() == p.len() && normalize_pixels(cols) == p
        }),
{
    let cols = Seq::new(p.len(), |k: int| seq![p[k]]);
    let w = cols.len() as int;
    assert(cols[0].len() == 1);
    assert(w * 1 == w);
    assert forall|k: int| 0 <= k < w implies normalize_pixels(cols)[k] == p[k] by {
        lemma_fundamental_div_mod_converse(k, w, 0, k);
        assert(cols[k % w] == seq![p[k]]);
        assert(cols[k % w][k / w] == p[k]);
    }
    assert(normalize_pixels(cols) =~= p);
}

/// Splitting at blank rows: a grid of a blank row, two copies of a
/// non-blank row, two blank rows, another non-blank row and a final blank
/// row yields exactly two lines, the pair and the single row; the blank
/// separators themselves are discarded and no empty line appears.
pub proof fn lemma_blank_row_split(a: Seq<Pixel>, b: Seq<Pixel>, blank: Seq<Pixel>)
    requires
        !row_blank(a),
        !row_blank(b),
        row_blank(blank),
    ensures
        line_groups(seq![blank, a, a, blank, blank, b, blank]) == seq![seq![a, a], seq![b]],
{
    let rows = seq![blank, a, a, blank, blank, b, blank];
    let e = Seq::<Seq<Pixel>>::empty();
    assert(rows[0] == blank && rows[1] == a && rows[2] == a && rows[3] == blank && rows[4]
        == blank && rows[5] == b && rows[6] == blank);
    assert(split_from(rows, 0, e) == split_from(rows, 1, e));
    assert(split_from(rows, 1, e) == split_from(rows, 2, e.push(a)));
    assert(split_from(rows, 2, e.push(a)) == split_from(rows, 3, e.push(a).push(a)));
    assert(split_from(rows, 3, e.push(a).push(a)) == seq![e.push(a).push(a)] + split_from(
        rows,
        4,
        e,
    ));
    assert(split_from(rows, 4, e) == split_from(rows, 5, e));
    assert(split_from(rows, 5, e) == split_from(rows, 6, e.push(b)));
    assert(split_from(rows, 6, e.push(b)) == seq![e.push(b)] + split_from(rows, 7, e));
    assert(split_from(rows, 7, e) == Seq::<Seq<Seq<Pixel>>>::empty());
    assert(e.push(a).push(a) =~= seq![a, a]);
    assert(e.push(b) =~= seq![b]);
    assert(line_groups(rows) =~= seq![seq![a, a], seq![b]]);
}

/// Tolerance of a single internal gap: a line of three columns whose middle
/// column is the only blank one segments into one glyph of width three, the
/// gap re-inserted as a fully-off column.
pub proof fn lemma_single_gap_one_glyph(rows: Seq<Seq<Pixel>>)
    requires
        rows.len() > 0,
        forall|j: int| 0 <= j < rows.len() ==> (#[trigger] rows[j]).len() == 3,
        !col_blank(rows, 0),
        col_blank(rows, 1),
        !col_blank(rows, 2),
    ensures
        glyph_groups(rows) == seq![seq![col_of(rows, 0), off_col(rows.len()), col_of(rows, 2)]],
{
    let e = Seq::<Seq<Pixel>>::empty();
    let c0 = col_of(rows, 0);
    let c2 = col_of(rows, 2);
    assert(rows[0].len() == 3);
    assert(scan_groups(rows, 0, true, e) == scan_groups(rows, 1, false, e.push(c0)));
    assert(scan_groups(rows, 1, false, e.push(c0)) == scan_groups(rows, 2, true, e.push(c0)));
    assert(scan_groups(rows, 2, true, e.push(c0)) == scan_groups(
        rows,
        3,
        false,
        e.push(c0).push(off_col(rows.len())).push(c2),
    ));
    assert(scan_groups(rows, 3, false, e.push(c0).push(off_col(rows.len())).push(c2)) == seq![
        e.push(c0).push(off_col(rows.len())).push(c2),
    ]);
    assert(e.push(c0).push(off_col(rows.len())).push(c2) =~= seq![c0, off_col(rows.len()), c2]);
    assert(glyph_groups(rows) =~= seq![seq![c0, off_col(rows.len()), c2]]);
}

/// A confirmed separator: a line of four columns whose two middle columns
/// are the only blank ones segments into two glyphs of one column each —
/// a run of two blank columns is always a true glyph boundary.
pub proof fn lemma_two_blanks_separate(rows: Seq<Seq<Pixel>>)
    requires
        rows.len() > 0,
        forall|j: int| 0 <= j < rows.len() ==> (#[trigger] rows[j]).len() == 4,
        !col_blank(rows, 0),
        col_blank(rows, 1),
        col_blank(rows, 2),
        !col_blank(rows, 3),
    ensures
        glyph_groups(rows) == seq![seq![col_of(rows, 0)], seq![col_of(rows, 3)]],
{
    let e = Seq::<Seq<Pixel>>::empty();
    let c0 = col_of(rows, 0);
    let c3 = col_of(rows, 3);
    assert(rows[0].len() == 4);
    assert(scan_groups(rows, 0, true, e) == scan_groups(rows, 1, false, e.push(c0)));
    assert(scan_groups(rows, 1, false, e.push(c0)) == scan_groups(rows, 2, true, e.push(c0)));
    assert(scan_groups(rows, 2, true, e.push(c0)) == seq![e.push(c0)] + scan_groups(
        rows,
        3,
        true,
        e,
    ));
    assert(scan_groups(rows, 3, true, e) == scan_groups(rows, 4, false, e.push(c3)));
    assert(scan_groups(rows, 4, false, e.push(c3)) == seq![e.push(c3)]);
    assert(e.push(c0) =~= seq![c0]);
    assert(e.push(c3) =~= seq![c3]);
    assert(glyph_groups(rows) =~= seq![seq![c0], seq![c3]]);
}

/// Completeness of the width-three table rows: a width-three pixel
/// sequence equal to none of the seven listed patterns has no table entry,
/// so classification yields `Unknown` with the content kept unchanged.
pub proof fn lemma_width3_not_listed_is_unknown(pixels: Seq<Pixel>)
    requires
        pixels != crate::symbol::pat_two(),
        pixels != crate::symbol::pat_three(),
        pixels != crate::symbol::pat_four(),
        pixels != crate::symbol::pat_five(),
        pixels != crate::symbol::pat_six(),
        pixels != crate::symbol::pat_seven(),
        pixels != crate::symbol::pat_eight(),
    ensures
        lookup(3, pixels) is None,
{
}

} // verus!
