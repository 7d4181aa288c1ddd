//! Segmentation: splitting the grid into lines at blank rows, and splitting
//! one line into glyphs with the blank-column state machine that tolerates a
//! single blank column inside a multi-stroke glyph.

use vstd::prelude::*;

use crate::glyph::{normalize_pixels, Glyph};
use crate::grid::{copy_row, grid_rect, grid_view, is_blank, row_blank, Image, Pixel};
use crate::symbol::{decode_glyph, symbol_for, Symbol};

verus! {

/// Column `i` of a row-major grid, read top to bottom.
pub open spec fn col_of(rows: Seq<Seq<Pixel>>, i: int) -> Seq<Pixel> {
    Seq::new(rows.len(), |j: int| rows[j][i])
}

/// Whether column `i` of the grid is entirely off.
pub open spec fn col_blank(rows: Seq<Seq<Pixel>>, i: int) -> bool {
    forall|j: int| 0 <= j < rows.len() ==> rows[j][i] == Pixel::Off
}

/// A fully-off column of height `h`: the synthetic column re-inserted in
/// place of a tolerated internal gap.
pub open spec fn off_col(h: nat) -> Seq<Pixel> {
    Seq::new(h, |j: int| Pixel::Off)
}

/// The glyph groups (each a left-to-right list of columns) that the column
/// scan emits from column `i` to the end of the line, started in the state
/// `saw_blank` with the partial group `cur`. A blank column after another
/// blank flushes the open group; a single blank column between strokes is
/// re-absorbed as a synthetic off column.
pub open spec fn scan_groups(
    rows: Seq<Seq<Pixel>>,
    i: int,
    saw_blank: bool,
    cur: Seq<Seq<Pixel>>,
) -> Seq<Seq<Seq<Pixel>>>
    decreases rows[0].len() - i,
{
    let w = rows[0].len() as int;
    if i >= w {
        if cur.len() > 0 {
            seq![cur]
        } else {
            Seq::<Seq<Seq<Pixel>>>::empty()
        }
    } else if col_blank(rows, i) {
        if saw_blank && cur.len() > 0 {
            seq![cur] + scan_groups(rows, i + 1, true, Seq::<Seq<Pixel>>::empty())
        } else {
            scan_groups(rows, i + 1, true, cur)
        }
    } else {
        let cur1 = if saw_blank && cur.len() > 0 {
            cur.push(off_col(rows.len()))
        } else {
            cur
        };
        scan_groups(rows, i + 1, false, cur1.push(col_of(rows, i)))
    }
}

/// The glyph groups of one line, scanned from its first column with the
/// sentinel blank-before-start state.
pub open spec fn glyph_groups(rows: Seq<Seq<Pixel>>) -> Seq<Seq<Seq<Pixel>>> {
    scan_groups(rows, 0, true, Seq::<Seq<Pixel>>::empty())
}

/// The relation `parse_line` establishes: one symbol per glyph group, each
/// classified from the group's normalized (width, row-major pixels) form.
pub open spec fn line_symbols(rows: Seq<Seq<Pixel>>, syms: Seq<Symbol>) -> bool {
    let groups = glyph_groups(rows);
    &&& syms.len() == groups.len()
    &&& forall|k: int|
        0 <= k < groups.len() ==> symbol_for(
            (#[trigger] groups[k]).len() as int,
            normalize_pixels(groups[k]),
            syms[k],
        )
}

/// An all-off column of the given height.
fn blank_column(h: usize) -> (c: Vec<Pixel>)
    ensures
        c@ == off_col(h as nat),
{
    let mut c: Vec<Pixel> = Vec::new();
    let mut j: usize = 0;
    while j < h
        invariant
            j <= h,
            c@.len() == j,
            forall|k: int| 0 <= k < j ==> c@[k] == Pixel::Off,
        decreases h - j,
    {
        c.push(Pixel::Off);
        j = j + 1;
    }
    proof {
        assert(c@ =~= off_col(h as nat));
    }
    c
}

/// Splits one line into glyphs by the two-state column scan and classifies
/// each: scanning left to right, a blank column confirmed by a second blank
/// (or the end of the line) separates glyphs, while a single blank column
/// inside active content is put back as a synthetic off column.
#[verifier::loop_isolation(false)]
pub fn parse_line(pixels: Vec<Vec<Pixel>>) -> (r: Vec<Symbol>)
    requires
        pixels@.len() > 0,
        grid_rect(grid_view(pixels@)),
    ensures
        line_symbols(grid_view(pixels@), r@),
{
    let ghost rows = grid_view(pixels@);
    let width = pixels[0].len();
    let height = pixels.len();
    proof {
        assert(rows[0].len() == width);
        assert(rows.len() == height);
    }
    let mut glyphs: Vec<Glyph> = Vec::new();
    let ghost mut done: Seq<Seq<Seq<Pixel>>> = Seq::empty();
    let mut current: Vec<Vec<Pixel>> = Vec::new();
    let mut saw_blank: bool = true;
    let mut i: usize = 0;
    proof {
        assert(grid_view(current@) =~= Seq::<Seq<Pixel>>::empty());
        assert(done + glyph_groups(rows) =~= glyph_groups(rows));
    }
    while i < width
        invariant
            i <= width,
            glyph_groups(rows) == done + scan_groups(
                rows,
                i as int,
                saw_blank,
                grid_view(current@),
            ),
            glyphs@.len() == done.len(),
            forall|k: int|
                0 <= k < done.len() ==> (#[trigger] done[k]).len() > 0
                    && glyphs@[k].width == done[k].len()
                    && glyphs@[k].pixels@ == normalize_pixels(done[k]),
            forall|j: int| 0 <= j < current@.len() ==> (#[trigger] current@[j])@.len() == height,
        decreases width - i,
    {
        let mut column: Vec<Pixel> = Vec::new();
        let mut j: usize = 0;
        while j < height
            invariant
                j <= height,
                column@.len() == j,
                forall|k: int| 0 <= k < j ==> column@[k] == rows[k][i as int],
            decreases height - j,
        {
            proof {
                assert(rows[j as int].len() == width);
            }
            column.push(pixels[j][i]);
            j = j + 1;
        }
        proof {
            assert(column@ =~= col_of(rows, i as int));
        }
        let ghost cur0 = grid_view(current@);
        if is_blank(&column) {
            proof {
                assert forall|j2: int| 0 <= j2 < rows.len() implies rows[j2][i as int]
                    == Pixel::Off by {
                    assert(column@[j2] == rows[j2][i as int]);
                }
                assert(col_blank(rows, i as int));
            }
            if saw_blank && current.len() > 0 {
                let g = Glyph::normalize(current);
                glyphs.push(g);
                proof {
                    assert(scan_groups(rows, i as int, saw_blank, cur0) == seq![cur0]
                        + scan_groups(rows, i as int + 1, true, Seq::<Seq<Pixel>>::empty()));
                    assert(done.push(cur0) + scan_groups(
                        rows,
                        i as int + 1,
                        true,
                        Seq::<Seq<Pixel>>::empty(),
                    ) =~= done + (seq![cur0] + scan_groups(
                        rows,
                        i as int + 1,
                        true,
                        Seq::<Seq<Pixel>>::empty(),
                    )));
                    done = done.push(cur0);
                }
                current = Vec::new();
                proof {
                    assert(grid_view(current@) =~= Seq::<Seq<Pixel>>::empty());
                }
            } else {
                proof {
                    assert(scan_groups(rows, i as int, saw_blank, cur0) == scan_groups(
                        rows,
                        i as int + 1,
                        true,
                        cur0,
                    ));
                }
            }
            saw_blank = true;
        } else {
            proof {
                let j2 = choose|j2: int| 0 <= j2 < column@.len() && column@[j2] != Pixel::Off;
                assert(rows[j2][i as int] != Pixel::Off);
                assert(!col_blank(rows, i as int));
            }
            let ghost cur1 = if saw_blank && cur0.len() > 0 {
                cur0.push(off_col(rows.len()))
            } else {
                cur0
            };
            if saw_blank && current.len() > 0 {
                current.push(blank_column(height));
                proof {
                    assert(grid_view(current@) =~= cur1);
                }
            }
            proof {
                assert(scan_groups(rows, i as int, saw_blank, cur0) == scan_groups(
                    rows,
                    i as int + 1,
                    false,
                    cur1.push(col_of(rows, i as int)),
                ));
            }
            current.push(column);
            proof {
                assert(grid_view(current@) =~= cur1.push(col_of(rows, i as int)));
            }
            saw_blank = false;
        }
        i = i + 1;
    }
    if current.len() > 0 {
        let ghost cur0 = grid_view(current@);
        proof {
            assert(scan_groups(rows, width as int, saw_blank, cur0) == seq![cur0]);
            assert(done.push(cur0) =~= done + seq![cur0]);
        }
        let g = Glyph::normalize(current);
        glyphs.push(g);
        proof {
            done = done.push(cur0);
        }
    } else {
        proof {
            assert(grid_view(current@) =~= Seq::<Seq<Pixel>>::empty());
            assert(scan_groups(rows, width as int, saw_blank, grid_view(current@))
                =~= Seq::<Seq<Seq<Pixel>>>::empty());
            assert(done + Seq::<Seq<Seq<Pixel>>>::empty() =~= done);
        }
    }
    proof {
        assert(glyph_groups(rows) == done);
    }
    let mut symbols: Vec<Symbol> = Vec::new();
    let mut k: usize = 0;
    while k < glyphs.len()
        invariant
            k <= glyphs@.len(),
            symbols@.len() == k,
            forall|k2: int|
                0 <= k2 < k ==> symbol_for(
                    (#[trigger] done[k2]).len() as int,
                    normalize_pixels(done[k2]),
                    symbols@[k2],
                ),
        decreases glyphs@.len() - k,
    {
        symbols.push(decode_glyph(&glyphs[k]));
        k = k + 1;
    }
    symbols
}

/// The groups of consecutive non-blank rows from row `i` to the end of the
/// grid, with the open partial group `cur`: blank separator rows are
/// discarded and never produce an empty group.
pub open spec fn split_from(
    rows: Seq<Seq<Pixel>>,
    i: int,
    cur: Seq<Seq<Pixel>>,
) -> Seq<Seq<Seq<Pixel>>>
    decreases rows.len() - i,
{
    if i >= rows.len() {
        if cur.len() > 0 {
            seq![cur]
        } else {
            Seq::<Seq<Seq<Pixel>>>::empty()
        }
    } else if row_blank(rows[i]) {
        if cur.len() > 0 {
            seq![cur] + split_from(rows, i + 1, Seq::<Seq<Pixel>>::empty())
        } else {
            split_from(rows, i + 1, Seq::<Seq<Pixel>>::empty())
        }
    } else {
        split_from(rows, i + 1, cur.push(rows[i]))
    }
}

/// The lines of a grid: maximal groups of consecutive non-blank rows, in
/// top-to-bottom order.
pub open spec fn line_groups(rows: Seq<Seq<Pixel>>) -> Seq<Seq<Seq<Pixel>>> {
    split_from(rows, 0, Seq::<Seq<Pixel>>::empty())
}

/// The relation `decode` establishes: one symbol row per line, each related
/// to its line's rows by `line_symbols`.
pub open spec fn decoded(rows: Seq<Seq<Pixel>>, out: Seq<Seq<Symbol>>) -> bool {
    let lines = line_groups(rows);
    &&& out.len() == lines.len()
    &&& forall|k: int| 0 <= k < lines.len() ==> line_symbols(#[trigger] lines[k], out[k])
}

/// The view of a vector of symbol rows.
pub open spec fn symbols_view(v: Seq<Vec<Symbol>>) -> Seq<Seq<Symbol>> {
    v.map_values(|l: Vec<Symbol>| l@)
}

/// Decodes a border-stripped grid: splits it into lines at blank rows and
/// reads each line's glyphs left to right, top line first.
#[verifier::loop_isolation(false)]
pub fn decode(image: Image) -> (r: Vec<Vec<Symbol>>)
    requires
        image.wf(),
    ensures
        decoded(image@, symbols_view(r@)),
{
    let ghost rows = image@;
    let pixels = image.pixels;
    let n = pixels.len();
    let mut out: Vec<Vec<Symbol>> = Vec::new();
    let ghost mut done: Seq<Seq<Seq<Pixel>>> = Seq::empty();
    let mut current: Vec<Vec<Pixel>> = Vec::new();
    let mut i: usize = 0;
    proof {
        assert(grid_view(current@) =~= Seq::<Seq<Pixel>>::empty());
        assert(done + line_groups(rows) =~= line_groups(rows));
    }
    while i < n
        invariant
            i <= n,
            line_groups(rows) == done + split_from(rows, i as int, grid_view(current@)),
            out@.len() == done.len(),
            forall|k: int|
                0 <= k < done.len() ==> line_symbols(#[trigger] done[k], out@[k]@),
            forall|j: int|
                0 <= j < current@.len() ==> (#[trigger] current@[j])@.len() == rows[0].len(),
        decreases n - i,
    {
        let ghost cur0 = grid_view(current@);
        if is_blank(&pixels[i]) {
            proof {
                assert(row_blank(rows[i as int]));
            }
            if current.len() > 0 {
                proof {
                    assert(split_from(rows, i as int, cur0) == seq![cur0] + split_from(
                        rows,
                        i as int + 1,
                        Seq::<Seq<Pixel>>::empty(),
                    ));
                    assert(done.push(cur0) + split_from(
                        rows,
                        i as int + 1,
                        Seq::<Seq<Pixel>>::empty(),
                    ) =~= done + (seq![cur0] + split_from(
                        rows,
                        i as int + 1,
                        Seq::<Seq<Pixel>>::empty(),
                    )));
                    assert(grid_rect(cur0));
                }
                let syms = parse_line(current);
                out.push(syms);
                proof {
                    done = done.push(cur0);
                }
                current = Vec::new();
                proof {
                    assert(grid_view(current@) =~= Seq::<Seq<Pixel>>::empty());
                }
            } else {
                proof {
                    assert(cur0 =~= Seq::<Seq<Pixel>>::empty());
                    assert(split_from(rows, i as int, cur0) == split_from(
                        rows,
                        i as int + 1,
                        Seq::<Seq<Pixel>>::empty(),
                    ));
                }
            }
        } else {
            proof {
                assert(!row_blank(rows[i as int]));
                assert(rows[i as int].len() == rows[0].len());
            }
            current.push(copy_row(&pixels[i]));
            proof {
                assert(grid_view(current@) =~= cur0.push(rows[i as int]));
            }
        }
        i = i + 1;
    }
    if current.len() > 0 {
        let ghost cur0 = grid_view(current@);
        proof {
            assert(split_from(rows, n as int, cur0) == seq![cur0]);
            assert(done.push(cur0) =~= done + seq![cur0]);
            assert(grid_rect(cur0));
        }
        let syms = parse_line(current);
        out.push(syms);
        proof {
            done = done.push(cur0);
        }
    } else {
        proof {
            assert(grid_view(current@) =~= Seq::<Seq<Pixel>>::empty());
            assert(split_from(rows, n as int, grid_view(current@))
                =~= Seq::<Seq<Seq<Pixel>>>::empty());
            assert(done + Seq::<Seq<Seq<Pixel>>>::empty() =~= done);
        }
    }
    proof {
        assert(line_groups(rows) == done);
        assert forall|k: int| 0 <= k < line_groups(rows).len() implies line_symbols(
            #[trigger] line_groups(rows)[k],
            symbols_view(out@)[k],
        ) by {
            assert(symbols_view(out@)[k] == out@[k]@);
        }
    }
    out
}

} // verus!
