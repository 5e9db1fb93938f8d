//! The raster image model: a plain RGBA pixel buffer with explicit width and
//! height, the only image representation the verified core reads or builds.
//! Tiles cut from an image are values of the same type.

use vstd::prelude::*;

verus! {

/// An immutable 2D grid of RGBA pixels, row-major, four bytes per pixel in
/// channel order red, green, blue, alpha. The buffer may be larger than the
/// grid needs; [`Image::wf`] only bounds it from below.
#[derive(Clone, Debug, PartialEq, Eq)]
pub struct Image {
    pub width: u32,
    pub height: u32,
    pub pixels: Vec<u8>,
}

impl Image {
    /// Well-formed: the buffer covers every pixel of the grid.
    pub open spec fn wf(&self) -> bool {
        &&& 4 * (self.width as int) * (self.height as int) <= usize::MAX as int
        &&& self.pixels@.len() >= 4 * (self.width as int) * (self.height as int)
    }

    /// Channel `c` of the pixel at column `x`, row `y`.
    pub open spec fn chan(&self, x: int, y: int, c: int) -> u8 {
        self.pixels@[(y * (self.width as int) + x) * 4 + c]
    }

    /// The opacity of the pixel at column `x`, row `y`.
    pub open spec fn alpha(&self, x: int, y: int) -> u8 {
        self.chan(x, y, 3)
    }

    /// Fully transparent: no pixel of the image is opaque at all.
    pub open spec fn is_blank(&self) -> bool {
        forall|x: int, y: int|
            0 <= x < self.width && 0 <= y < self.height ==> #[trigger] self.alpha(x, y) == 0
    }
}

/// The pixel index arithmetic stays inside the buffer: for a pixel position
/// within a `w` by `h` grid, the flat byte index lies below `4 * w * h`.
proof fn lemma_pixel_index(w: int, h: int, x: int, y: int, c: int)
    by (nonlinear_arith)
    requires
        0 <= x < w,
        0 <= y < h,
        0 <= c < 4,
    ensures
        0 <= y * w + x < w * h,
        0 <= (y * w + x) * 4 + c < 4 * w * h,
{
}

/// Flat indices grow row-major: every byte of a row before row `y` lies
/// below the start of row `y`.
proof fn lemma_row_index_below(e: int, xx: int, yy: int, cc: int, y: int)
    by (nonlinear_arith)
    requires
        0 <= xx < e,
        0 <= cc < 4,
        0 <= yy < y,
    ensures
        0 <= (yy * e + xx) * 4 + cc < (y * e) * 4,
{
}

/// Reads channel `c` of the pixel at column `x`, row `y`.
pub fn channel_at(img: &Image, x: u32, y: u32, c: u32) -> (v: u8)
    requires
        img.wf(),
        x < img.width,
        y < img.height,
        c < 4,
    ensures
        v == img.chan(x as int, y as int, c as int),
{
    proof {
        lemma_pixel_index(
            img.width as int,
            img.height as int,
            x as int,
            y as int,
            c as int,
        );
    }
    let idx: usize = (y as usize * img.width as usize + x as usize) * 4 + c as usize;
    img.pixels[idx]
}

/// `t` is the tile of edge length `edge` cut from `src` at grid position
/// (`row`, `col`): exactly edge-by-edge, with every channel of every pixel
/// equal to the corresponding source pixel of the rectangle that starts at
/// column `col * edge`, row `row * edge`.
pub open spec fn is_tile_of(t: Image, src: Image, edge: int, row: int, col: int) -> bool {
    &&& t.width == edge
    &&& t.height == edge
    &&& t.pixels@.len() == 4 * edge * edge
    &&& forall|x: int, y: int, c: int|
        0 <= x < edge && 0 <= y < edge && 0 <= c < 4 ==> #[trigger] t.chan(x, y, c) == src.chan(
            col * edge + x,
            row * edge + y,
            c,
        )
}

/// Copies one tile's pixel rectangle out of the source image as an
/// independent image. The rectangle must lie inside the source bounds.
pub fn extract_tile(img: &Image, edge: u32, row: u32, col: u32) -> (t: Image)
    requires
        img.wf(),
        edge > 0,
        (col as int + 1) * (edge as int) <= img.width as int,
        (row as int + 1) * (edge as int) <= img.height as int,
    ensures
        t.wf(),
        is_tile_of(t, *img, edge as int, row as int, col as int),
{
    let ghost e = edge as int;
    proof {
        assert(e <= img.width as int) by (nonlinear_arith)
            requires
                e > 0,
                0 <= col as int,
                (col as int + 1) * e <= img.width as int;
        assert(e <= img.height as int) by (nonlinear_arith)
            requires
                e > 0,
                0 <= row as int,
                (row as int + 1) * e <= img.height as int;
        assert(4 * e * e <= 4 * (img.width as int) * (img.height as int)) by (nonlinear_arith)
            requires
                e > 0,
                e <= img.width as int,
                e <= img.height as int;
    }
    let mut pixels: Vec<u8> = Vec::new();
    let mut y: u32 = 0;
    while y < edge
        invariant
            img.wf(),
            edge > 0,
            y <= edge,
            (col as int + 1) * e <= img.width as int,
            (row as int + 1) * e <= img.height as int,
            4 * e * e <= usize::MAX as int,
            e == edge as int,
            pixels@.len() == (y as int * e) * 4,
            forall|xx: int, yy: int, cc: int|
                0 <= xx < e && 0 <= yy < y as int && 0 <= cc < 4 ==> #[trigger] pixels@[(yy * e
                    + xx) * 4 + cc] == img.chan(col as int * e + xx, row as int * e + yy, cc),
        decreases edge - y,
    {
        let mut x: u32 = 0;
        while x < edge
            invariant
                img.wf(),
                edge > 0,
                y < edge,
                x <= edge,
                (col as int + 1) * e <= img.width as int,
                (row as int + 1) * e <= img.height as int,
                4 * e * e <= usize::MAX as int,
                e == edge as int,
                pixels@.len() == (y as int * e + x as int) * 4,
                forall|xx: int, yy: int, cc: int|
                    0 <= xx < e && 0 <= yy < y as int && 0 <= cc < 4 ==> #[trigger] pixels@[(yy * e
                        + xx) * 4 + cc] == img.chan(col as int * e + xx, row as int * e + yy, cc),
                forall|xx: int, cc: int|
                    0 <= xx < x as int && 0 <= cc < 4 ==> #[trigger] pixels@[(y as int * e + xx) * 4
                        + cc] == img.chan(col as int * e + xx, row as int * e + y as int, cc),
            decreases edge - x,
        {
            let mut c: u32 = 0;
            while c < 4
                invariant
                    img.wf(),
                    edge > 0,
                    y < edge,
                    x < edge,
                    c <= 4,
                    (col as int + 1) * e <= img.width as int,
                    (row as int + 1) * e <= img.height as int,
                    4 * e * e <= usize::MAX as int,
                    e == edge as int,
                    pixels@.len() == (y as int * e + x as int) * 4 + c as int,
                    forall|xx: int, yy: int, cc: int|
                        0 <= xx < e && 0 <= yy < y as int && 0 <= cc < 4 ==> #[trigger] pixels@[(yy
                            * e + xx) * 4 + cc] == img.chan(
                            col as int * e + xx,
                            row as int * e + yy,
                            cc,
                        ),
                    forall|xx: int, cc: int|
                        0 <= xx < x as int && 0 <= cc < 4 ==> #[trigger] pixels@[(y as int * e + xx)
                            * 4 + cc] == img.chan(
                            col as int * e + xx,
                            row as int * e + y as int,
                            cc,
                        ),
                    forall|cc: int|
                        0 <= cc < c as int ==> #[trigger] pixels@[(y as int * e + x as int) * 4
                            + cc] == img.chan(
                            col as int * e + x as int,
                            row as int * e + y as int,
                            cc,
                        ),
                decreases 4 - c,
            {
                proof {
                    assert((col as int) * e + (x as int) < (col as int + 1) * e)
                        by (nonlinear_arith)
                        requires
                            0 <= (x as int) && (x as int) < e;
                    assert((row as int) * e + (y as int) < (row as int + 1) * e)
                        by (nonlinear_arith)
                        requires
                            0 <= (y as int) && (y as int) < e;
                }
                let sx: u32 = col * edge + x;
                let sy: u32 = row * edge + y;
                let v = channel_at(img, sx, sy, c);
                let ghost before = pixels@;
                pixels.push(v);
                proof {
                    assert(pixels@[(y as int * e + x as int) * 4 + c as int] == v);
                    assert forall|xx: int, yy: int, cc: int|
                        0 <= xx < e && 0 <= yy < y as int && 0 <= cc < 4 implies #[trigger] pixels@[
                        (yy * e + xx) * 4 + cc] == img.chan(
                        col as int * e + xx,
                        row as int * e + yy,
                        cc,
                    ) by {
                        lemma_row_index_below(e, xx, yy, cc, y as int);
                        assert(pixels@[(yy * e + xx) * 4 + cc] == before[(yy * e + xx) * 4 + cc]);
                    }
                }
                c = c + 1;
            }
            x = x + 1;
        }
        proof {
            assert((y as int + 1) * e == y as int * e + e) by (nonlinear_arith);
        }
        y = y + 1;
    }
    proof {
        assert((e * e) * 4 == 4 * e * e) by (nonlinear_arith);
    }
    let t = Image { width: edge, height: edge, pixels };
    proof {
        assert forall|x: int, y: int, c: int|
            0 <= x < e && 0 <= y < e && 0 <= c < 4 implies #[trigger] t.chan(x, y, c) == img.chan(
            col as int * e + x,
            row as int * e + y,
            c,
        ) by {
            assert(t.chan(x, y, c) == t.pixels@[(y * e + x) * 4 + c]);
        }
    }
    t
}

/// Decides whether every pixel of the image is fully transparent.
pub fn image_blank(t: &Image) -> (b: bool)
    requires
        t.wf(),
    ensures
        b == t.is_blank(),
{
    let mut y: u32 = 0;
    while y < t.height
        invariant
            t.wf(),
            y <= t.height,
            forall|xx: int, yy: int|
                0 <= xx < t.width && 0 <= yy < y as int ==> #[trigger] t.alpha(xx, yy) == 0,
        decreases t.height - y,
    {
        let mut x: u32 = 0;
        while x < t.width
            invariant
                t.wf(),
                y < t.height,
                x <= t.width,
                forall|xx: int, yy: int|
                    0 <= xx < t.width && 0 <= yy < y as int ==> #[trigger] t.alpha(xx, yy) == 0,
                forall|xx: int|
                    0 <= xx < x as int ==> #[trigger] t.alpha(xx, y as int) == 0,
            decreases t.width - x,
        {
            if channel_at(t, x, y, 3) > 0 {
                proof {
                    assert(t.alpha(x as int, y as int) != 0);
                }
                return false;
            }
            x = x + 1;
        }
        y = y + 1;
    }
    true
}

} // verus!
