//! The boolean grid that binarization produces and the pipeline consumes:
//! pixel and error types, the binarizer, the border stripper, and a plain
//! text rendering of a grid.

use vstd::prelude::*;
use vstd::arithmetic::div_mod::lemma_fundamental_div_mod;
use vstd::string::StringExecFns;

verus! {

/// A binarized picture element: every sample that survives binarization is
/// either fully on or fully off.
#[derive(Clone, Copy, PartialEq, Eq, Structural, Debug)]
pub enum Pixel {
    Off,
    On,
}

/// The fatal failure classes of the pipeline: a grayscale sample that is
/// neither pure black nor pure white, and a grid whose shape cannot carry
/// the fixed-width border.
#[derive(Clone, Copy, PartialEq, Eq, Structural, Debug)]
pub enum DecodeError {
    Format,
    Shape,
}

/// Number of source rows and columns that collapse into one grid cell.
pub const SCALE: usize = 4;

/// Thickness, in grid cells, of the frame removed from every edge.
pub const BORDER: usize = 2;

/// The mathematical view of a grid held as vectors: each row a sequence.
pub open spec fn grid_view(g: Seq<Vec<Pixel>>) -> Seq<Seq<Pixel>> {
    g.map_values(|r: Vec<Pixel>| r@)
}

/// All rows of the grid have the same length (the rectangular invariant).
pub open spec fn grid_rect(g: Seq<Seq<Pixel>>) -> bool {
    forall|i: int| 0 <= i < g.len() ==> #[trigger] g[i].len() == g[0].len()
}

/// A row whose every pixel is off.
pub open spec fn row_blank(row: Seq<Pixel>) -> bool {
    forall|i: int| 0 <= i < row.len() ==> row[i] == Pixel::Off
}

/// A rectangular boolean raster; the working representation between
/// binarization and line segmentation.
#[derive(Debug)]
pub struct Image {
    pub pixels: Vec<Vec<Pixel>>,
}

impl View for Image {
    type V = Seq<Seq<Pixel>>;

    open spec fn view(&self) -> Seq<Seq<Pixel>> {
        grid_view(self.pixels@)
    }
}

impl Image {
    /// The rectangular invariant, established by binarization and kept by
    /// border stripping.
    pub open spec fn wf(&self) -> bool {
        grid_rect(self@)
    }
}

/// Whether every pixel of the row is off.
pub fn is_blank(pixels: &Vec<Pixel>) -> (r: bool)
    ensures
        r == row_blank(pixels@),
{
    let mut i: usize = 0;
    while i < pixels.len()
        invariant
            i <= pixels@.len(),
            forall|j: int| 0 <= j < i ==> pixels@[j] == Pixel::Off,
        decreases pixels@.len() - i,
    {
        if pixels[i] != Pixel::Off {
            return false;
        }
        i = i + 1;
    }
    true
}

/// A fresh copy of a pixel row.
pub(crate) fn copy_row(v: &Vec<Pixel>) -> (r: Vec<Pixel>)
    ensures
        r@ == v@,
{
    let mut r: Vec<Pixel> = Vec::new();
    let mut i: usize = 0;
    while i < v.len()
        invariant
            i <= v@.len(),
            r@ == v@.take(i as int),
        decreases v@.len() - i,
    {
        r.push(v[i]);
        proof {
            assert(r@ =~= v@.take(i + 1));
        }
        i = i + 1;
    }
    proof {
        assert(v@.take(v@.len() as int) =~= v@);
    }
    r
}

/// One row with the border columns cut from both ends.
pub open spec fn strip_row(r: Seq<Pixel>) -> Seq<Pixel> {
    r.subrange(BORDER as int, r.len() - BORDER)
}

/// The grid with the border rows and columns cut from every edge.
pub open spec fn strip_rows(g: Seq<Seq<Pixel>>) -> Seq<Seq<Pixel>> {
    g.subrange(BORDER as int, g.len() - BORDER).map_values(|r: Seq<Pixel>| strip_row(r))
}

/// The shape precondition of border stripping: enough rows, and, where any
/// rows remain after row removal, enough columns.
pub open spec fn border_ok(g: Seq<Seq<Pixel>>) -> bool {
    g.len() >= 2 * BORDER && (g.len() == 2 * BORDER || g[0].len() >= 2 * BORDER)
}

/// Removes the first and last `BORDER` rows, then the first and last
/// `BORDER` columns of every remaining row: the source format frames its
/// content with a fixed-width border that is not part of the text.
pub fn remove_border(pixels: &mut Vec<Vec<Pixel>>) -> (r: Result<(), DecodeError>)
    requires
        grid_rect(grid_view(old(pixels)@)),
    ensures
        r matches Ok(()) <==> border_ok(grid_view(old(pixels)@)),
        r matches Ok(()) ==> grid_view(final(pixels)@) == strip_rows(grid_view(old(pixels)@)),
        r matches Err(e) ==> e == DecodeError::Shape && final(pixels)@ == old(pixels)@,
{
    let n = pixels.len();
    if n < 4 {
        return Err(DecodeError::Shape);
    }
    if n > 4 && pixels[0].len() < 4 {
        assert(!border_ok(grid_view(pixels@)));
        return Err(DecodeError::Shape);
    }
    assert(border_ok(grid_view(pixels@)));
    let mut out: Vec<Vec<Pixel>> = Vec::new();
    let mut i: usize = 2;
    while i + 2 < n
        invariant
            2 <= i && i + 2 <= n,
            n == pixels@.len(),
            pixels@ == old(pixels)@,
            grid_rect(grid_view(pixels@)),
            n > 4 ==> pixels@[0]@.len() >= 4,
            out@.len() == i - 2,
            forall|k: int| 0 <= k < i - 2 ==> #[trigger] out@[k]@ == strip_row(pixels@[k + 2]@),
        decreases n - i,
    {
        assert(grid_view(pixels@)[i as int].len() == grid_view(pixels@)[0].len());
        let row = &pixels[i];
        let w = row.len();
        assert(w >= 4);
        let mut nr: Vec<Pixel> = Vec::new();
        let mut j: usize = 2;
        while j + 2 < w
            invariant
                2 <= j && j + 2 <= w,
                w == row@.len(),
                nr@.len() == j - 2,
                forall|k: int| 0 <= k < j - 2 ==> #[trigger] nr@[k] == row@[k + 2],
            decreases w - j,
        {
            nr.push(row[j]);
            j = j + 1;
        }
        assert(nr@ =~= strip_row(pixels@[i as int]@));
        out.push(nr);
        i = i + 1;
    }
    *pixels = out;
    proof {
        assert(grid_view(pixels@) =~= strip_rows(grid_view(old(pixels)@)));
    }
    Ok(())
}

/// Cells per output axis: the source extent divided by the scale, any
/// partial trailing block contributing one more cell.
pub open spec fn out_dim(n: int, s: int) -> int {
    if n % s == 0 {
        n / s
    } else {
        n / s + 1
    }
}

/// The grayscale sample inspected for output cell `(r, c)`: the top-left
/// source pixel of the cell's block, in a row-major raster of width `w`.
pub open spec fn sample_at(data: Seq<u8>, w: int, s: int, r: int, c: int) -> u8 {
    data[r * s * w + c * s]
}

/// Every inspected sample is unambiguously black (0) or white (255).
pub open spec fn samples_ok(data: Seq<u8>, w: int, h: int, s: int) -> bool {
    forall|r: int, c: int|
        0 <= r < out_dim(h, s) && 0 <= c < out_dim(w, s) ==> (#[trigger] sample_at(
            data,
            w,
            s,
            r,
            c,
        ) == 0 || sample_at(data, w, s, r, c) == 255)
}

/// The pixel a binary sample maps to.
pub open spec fn bin_pixel(v: u8) -> Pixel {
    if v == 255 {
        Pixel::On
    } else {
        Pixel::Off
    }
}

/// The grid binarization produces: one cell per block, on exactly where
/// the inspected sample is white.
pub open spec fn bin_grid(data: Seq<u8>, w: int, h: int, s: int) -> Seq<Seq<Pixel>> {
    Seq::new(
        out_dim(h, s) as nat,
        |r: int| Seq::new(out_dim(w, s) as nat, |c: int| bin_pixel(sample_at(data, w, s, r, c))),
    )
}

/// Converts a grayscale raster into a boolean grid at the given
/// downsampling scale, inspecting the top-left sample of each block; a
/// sample that is neither pure black nor pure white is a format violation.
#[verifier::loop_isolation(false)]
pub fn binarize(width: usize, height: usize, data: &Vec<u8>, scale: usize) -> (r: Result<
    Vec<Vec<Pixel>>,
    DecodeError,
>)
    requires
        scale > 0,
        data@.len() == width * height,
    ensures
        r matches Ok(g) ==> grid_view(g@) == bin_grid(
            data@,
            width as int,
            height as int,
            scale as int,
        ) && samples_ok(data@, width as int, height as int, scale as int),
        r matches Err(e) ==> e == DecodeError::Format && !samples_ok(
            data@,
            width as int,
            height as int,
            scale as int,
        ),
{
    let n: usize = data.len();
    let qh: usize = height / scale;
    let rh: usize = height % scale;
    let qw: usize = width / scale;
    let rw: usize = width % scale;
    proof {
        lemma_fundamental_div_mod(height as int, scale as int);
        lemma_fundamental_div_mod(width as int, scale as int);
        assert((height as int) * (width as int) == (width as int) * (height as int))
            by (nonlinear_arith);
    }
    let mut out_h: usize = qh;
    if rh != 0 {
        proof {
            assert(qh + 1 <= height) by (nonlinear_arith)
                requires
                    height == scale * qh + rh,
                    1 <= rh,
                    scale >= 1,
                    qh >= 0,
            ;
        }
        out_h = qh + 1;
    }
    let mut out_w: usize = qw;
    if rw != 0 {
        proof {
            assert(qw + 1 <= width) by (nonlinear_arith)
                requires
                    width == scale * qw + rw,
                    1 <= rw,
                    scale >= 1,
                    qw >= 0,
            ;
        }
        out_w = qw + 1;
    }
    proof {
        assert(out_h == out_dim(height as int, scale as int));
        assert(out_w == out_dim(width as int, scale as int));
    }
    let ghost g = bin_grid(data@, width as int, height as int, scale as int);
    let mut out: Vec<Vec<Pixel>> = Vec::new();
    let mut r: usize = 0;
    while r < out_h
        invariant
            r <= out_h,
            out@.len() == r,
            forall|rr: int| 0 <= rr < r ==> #[trigger] out@[rr]@ == g[rr],
            forall|rr: int, cc: int|
                0 <= rr < r && 0 <= cc < out_w ==> (#[trigger] sample_at(
                    data@,
                    width as int,
                    scale as int,
                    rr,
                    cc,
                ) == 0 || sample_at(data@, width as int, scale as int, rr, cc) == 255),
        decreases out_h - r,
    {
        proof {
            assert(r * scale < height) by (nonlinear_arith)
                requires
                    height == scale * qh + rh,
                    0 <= rh < scale,
                    rh == 0 ==> out_h == qh,
                    rh != 0 ==> out_h == qh + 1,
                    0 <= r < out_h,
                    scale >= 1,
                    0 <= qh,
            ;
        }
        let rbase: usize = r * scale;
        proof {
            assert(rbase * width <= (height - 1) * width) by (nonlinear_arith)
                requires
                    0 <= rbase <= height - 1,
                    width >= 0,
            ;
            assert((height - 1) * width <= height * width) by (nonlinear_arith)
                requires
                    height >= 1,
                    width >= 0,
            ;
            assert(rbase * width <= n);
        }
        let rowbase: usize = rbase * width;
        let mut row: Vec<Pixel> = Vec::new();
        let mut c: usize = 0;
        while c < out_w
            invariant
                c <= out_w,
                row@.len() == c,
                rbase == r * scale,
                rowbase == rbase * width,
                rbase < height,
                rowbase <= (height - 1) * width,
                forall|cc: int| 0 <= cc < c ==> #[trigger] row@[cc] == g[r as int][cc],
                forall|cc: int|
                    0 <= cc < c ==> (#[trigger] sample_at(
                        data@,
                        width as int,
                        scale as int,
                        r as int,
                        cc,
                    ) == 0 || sample_at(data@, width as int, scale as int, r as int, cc) == 255),
            decreases out_w - c,
        {
            proof {
                assert(c * scale < width) by (nonlinear_arith)
                    requires
                        width == scale * qw + rw,
                        0 <= rw < scale,
                        rw == 0 ==> out_w == qw,
                        rw != 0 ==> out_w == qw + 1,
                        0 <= c < out_w,
                        scale >= 1,
                        0 <= qw,
                ;
                assert((height - 1) * width + (width - 1) < width * height) by (nonlinear_arith)
                    requires
                        width >= 1,
                        height >= 1,
                ;
                assert(rowbase + c * scale < n);
            }
            let idx: usize = rowbase + c * scale;
            let v: u8 = data[idx];
            proof {
                assert(idx == (r as int) * (scale as int) * (width as int) + (c as int) * (
                scale as int));
                assert(sample_at(data@, width as int, scale as int, r as int, c as int) == v);
            }
            if v == 0 {
                row.push(Pixel::Off);
            } else if v == 255 {
                row.push(Pixel::On);
            } else {
                proof {
                    assert(!samples_ok(data@, width as int, height as int, scale as int));
                }
                return Err(DecodeError::Format);
            }
            proof {
                assert(g[r as int][c as int] == bin_pixel(v));
            }
            c = c + 1;
        }
        proof {
            assert(row@ =~= g[r as int]);
        }
        out.push(row);
        r = r + 1;
    }
    proof {
        assert(grid_view(out@) =~= g);
        assert(samples_ok(data@, width as int, height as int, scale as int));
    }
    Ok(out)
}

/// Runs binarization at the fixed `SCALE` and strips the fixed border:
/// the whole front half of the pipeline, from raw grayscale raster to the
/// grid that line segmentation reads. Fails with `Format` on a sample that
/// is neither black nor white, and with `Shape` on a grid too small for
/// the border.
pub fn parse(width: usize, height: usize, data: &Vec<u8>) -> (r: Result<Image, DecodeError>)
    requires
        data@.len() == width * height,
    ensures
        r matches Ok(img) ==> samples_ok(data@, width as int, height as int, SCALE as int)
            && border_ok(bin_grid(data@, width as int, height as int, SCALE as int)) && img@
            == strip_rows(bin_grid(data@, width as int, height as int, SCALE as int)) && img.wf(),
        r matches Err(e) ==> (e == DecodeError::Format <==> !samples_ok(
            data@,
            width as int,
            height as int,
            SCALE as int,
        )),
        (r matches Err(e) && e == DecodeError::Shape) ==> !border_ok(
            bin_grid(data@, width as int, height as int, SCALE as int),
        ),
{
    let ghost g = bin_grid(data@, width as int, height as int, SCALE as int);
    match binarize(width, height, data, SCALE) {
        Err(e) => Err(e),
        Ok(mut pixels) => {
            proof {
                assert forall|i: int| 0 <= i < grid_view(pixels@).len() implies #[trigger] grid_view(
                    pixels@,
                )[i].len() == grid_view(pixels@)[0].len() by {
                    assert(grid_view(pixels@)[i] == g[i]);
                }
            }
            match remove_border(&mut pixels) {
                Err(e) => Err(e),
                Ok(()) => {
                    let img = Image { pixels };
                    proof {
                        assert(img@ == strip_rows(g));
                        assert forall|i: int| 0 <= i < img@.len() implies #[trigger] img@[i].len()
                            == img@[0].len() by {
                            assert(img@[i] == strip_rows(g)[i]);
                            assert(strip_rows(g)[i] == strip_row(
                                g.subrange(BORDER as int, g.len() - BORDER)[i],
                            ));
                            assert(img@[0] == strip_row(
                                g.subrange(BORDER as int, g.len() - BORDER)[0],
                            ));
                        }
                    }
                    Ok(img)
                },
            }
        },
    }
}

/// The character a pixel is drawn as.
pub open spec fn char_of(p: Pixel) -> char {
    if p is On {
        '#'
    } else {
        ' '
    }
}

/// One grid row drawn as characters.
pub open spec fn render_row(row: Seq<Pixel>) -> Seq<char> {
    row.map_values(|p: Pixel| char_of(p))
}

/// A whole grid drawn as text: each row's characters followed by a line
/// break, top row first.
pub open spec fn render_rows(g: Seq<Seq<Pixel>>) -> Seq<char>
    decreases g.len(),
{
    if g.len() == 0 {
        Seq::<char>::empty()
    } else {
        render_rows(g.drop_last()) + render_row(g.last()) + seq!['\n']
    }
}

/// Draws a grid as text, one character per pixel (`#` for on, space for
/// off) and one line per row.
#[verifier::loop_isolation(false)]
pub fn print_pixels(pixels: &Vec<Vec<Pixel>>) -> (r: String)
    ensures
        r@ == render_rows(grid_view(pixels@)),
{
    proof {
        reveal_strlit("#");
        reveal_strlit(" ");
        reveal_strlit("\n");
    }
    let ghost g = grid_view(pixels@);
    let mut out = String::new();
    let mut i: usize = 0;
    proof {
        assert(g.take(0) =~= Seq::<Seq<Pixel>>::empty());
    }
    while i < pixels.len()
        invariant
            i <= pixels@.len(),
            out@ == render_rows(g.take(i as int)),
        decreases pixels@.len() - i,
    {
        let row = &pixels[i];
        let mut j: usize = 0;
        proof {
            assert(render_row(row@.take(0)) =~= Seq::<char>::empty());
            assert(out@ + Seq::<char>::empty() =~= out@);
        }
        while j < row.len()
            invariant
                j <= row@.len(),
                out@ == render_rows(g.take(i as int)) + render_row(row@.take(j as int)),
            decreases row@.len() - j,
        {
            let ghost before = out@;
            if row[j] == Pixel::On {
                out.append("#");
                proof {
                    assert(out@ =~= before.push('#'));
                }
            } else {
                out.append(" ");
                proof {
                    assert(out@ =~= before.push(' '));
                }
            }
            proof {
                assert(render_row(row@.take(j + 1)) =~= render_row(row@.take(j as int)).push(
                    char_of(row@[j as int]),
                ));
                assert(out@ =~= render_rows(g.take(i as int)) + render_row(row@.take(j + 1)));
            }
            j = j + 1;
        }
        let ghost before = out@;
        out.append("\n");
        proof {
            assert(row@.take(row@.len() as int) =~= row@);
            assert(g.take(i + 1).drop_last() =~= g.take(i as int));
            assert(g.take(i + 1).last() == row@);
            assert(out@ =~= before.push('\n'));
            assert(out@ =~= render_rows(g.take(i + 1)));
        }
        i = i + 1;
    }
    proof {
        assert(g.take(g.len() as int) =~= g);
    }
    out
}

/// Draws an image as text, one line per grid row.
pub fn print(image: &Image) -> (r: String)
    ensures
        r@ == render_rows(image@),
{
    print_pixels(&image.pixels)
}

} // verus!
