//! The tiling engine: cuts a source image into the full grid of
//! edge-by-edge tiles in row-major order, then trims blank tile rows.
//!
//! The trimming discipline is trailing-only: rows are scanned from the last
//! upward and removed while fully transparent; the scan stops at the first
//! row with any opaque pixel, so interior blank rows are preserved. The
//! discipline matters downstream because markers are assigned by traversal
//! order of the surviving tiles.

use vstd::prelude::*;
use vstd::arithmetic::div_mod::lemma_div_multiples_vanish;
use vstd::arithmetic::div_mod::lemma_fundamental_div_mod;
use vstd::arithmetic::div_mod::lemma_fundamental_div_mod_converse;
use vstd::arithmetic::div_mod::lemma_mod_pos_bound;
use crate::grid::compute_grid;
use crate::raster::Image;
use crate::raster::extract_tile;
use crate::raster::image_blank;
use crate::raster::is_tile_of;

verus! {

/// Edge length of every produced tile, in pixels.
pub const EMOJI_SIZE: u32 = 100;

/// The failure mode of the tiling engine.
#[derive(Clone, Copy, Debug, PartialEq, Eq, Structural)]
pub enum EmojifyError {
    /// A tile rectangle fell outside the source image bounds. The grid
    /// arithmetic rules this out, so verified callers never receive it; it
    /// exists to give the internal invariant violation a name.
    Extraction,
}

pub type EmojifyResult<T> = Result<T, EmojifyError>;

/// The tiling result: the grid's column count, the two truncation warnings,
/// and the surviving tiles in row-major order (row by row, left to right).
/// The flags report that trailing pixels beyond the last whole tile column
/// or row were silently dropped — a warning for the caller to surface, never
/// an error.
#[derive(Debug, PartialEq, Eq)]
pub struct Emojify {
    pub cols: u32,
    pub truncated_width: bool,
    pub truncated_height: bool,
    pub emojis: Vec<Image>,
}

impl Emojify {
    /// The number of surviving tile rows; zero for a degenerate grid.
    pub open spec fn spec_rows(&self) -> int {
        if self.cols == 0 {
            0
        } else {
            self.emojis@.len() as int / self.cols as int
        }
    }

    /// Number of tile rows left after trimming.
    pub fn rows(&self) -> (r: u32)
        requires
            self.spec_rows() <= u32::MAX as int,
        ensures
            r as int == self.spec_rows(),
    {
        if self.cols == 0 {
            0
        } else {
            (self.emojis.len() / (self.cols as usize)) as u32
        }
    }
}

/// Columns of the tile grid of `img` at edge length `edge`.
pub open spec fn spec_cols(img: Image, edge: int) -> int {
    img.width as int / edge
}

/// Rows of the tile grid of `img` at edge length `edge`, before trimming.
pub open spec fn spec_rows0(img: Image, edge: int) -> int {
    img.height as int / edge
}

/// Cuts the full grid of tiles out of the image: exactly `cols * rows`
/// tiles, in row-major order, tile `i` cut at grid position
/// `(i / cols, i % cols)`.
pub fn cut_tiles(image: &Image, edge: u32) -> (tiles: Vec<Image>)
    requires
        image.wf(),
        edge > 0,
    ensures
        tiles@.len() == spec_cols(*image, edge as int) * spec_rows0(*image, edge as int),
        forall|i: int|
            0 <= i < tiles@.len() ==> (#[trigger] tiles@[i]).wf() && is_tile_of(
                tiles@[i],
                *image,
                edge as int,
                i / spec_cols(*image, edge as int),
                i % spec_cols(*image, edge as int),
            ),
{
    let g = compute_grid(image.width, image.height, edge);
    let cols = g.cols;
    let rows = g.rows;
    let ghost ce = cols as int;
    let ghost re = rows as int;
    let ghost e = edge as int;
    proof {
        lemma_fundamental_div_mod(image.width as int, e);
        lemma_mod_pos_bound(image.width as int, e);
        lemma_fundamental_div_mod(image.height as int, e);
        lemma_mod_pos_bound(image.height as int, e);
    }
    let mut tiles: Vec<Image> = Vec::new();
    let mut row: u32 = 0;
    while row < rows
        invariant
            image.wf(),
            edge > 0,
            e == edge as int,
            ce == cols as int,
            re == rows as int,
            row <= rows,
            image.width as int == e * ce + image.width as int % e,
            0 <= image.width as int % e,
            image.height as int == e * re + image.height as int % e,
            0 <= image.height as int % e,
            tiles@.len() == row as int * ce,
            forall|i: int|
                0 <= i < tiles@.len() ==> (#[trigger] tiles@[i]).wf() && is_tile_of(
                    tiles@[i],
                    *image,
                    e,
                    i / ce,
                    i % ce,
                ),
        decreases rows - row,
    {
        let mut col: u32 = 0;
        while col < cols
            invariant
                image.wf(),
                edge > 0,
                e == edge as int,
                ce == cols as int,
                re == rows as int,
                row < rows,
                col <= cols,
                image.width as int == e * ce + image.width as int % e,
                0 <= image.width as int % e,
                image.height as int == e * re + image.height as int % e,
                0 <= image.height as int % e,
                tiles@.len() == row as int * ce + col as int,
                forall|i: int|
                    0 <= i < tiles@.len() ==> (#[trigger] tiles@[i]).wf() && is_tile_of(
                        tiles@[i],
                        *image,
                        e,
                        i / ce,
                        i % ce,
                    ),
            decreases cols - col,
        {
            proof {
                assert((col as int + 1) * e <= image.width as int) by (nonlinear_arith)
                    requires
                        col as int + 1 <= ce,
                        e > 0,
                        image.width as int == e * ce + image.width as int % e,
                        0 <= image.width as int % e;
                assert((row as int + 1) * e <= image.height as int) by (nonlinear_arith)
                    requires
                        row as int + 1 <= re,
                        e > 0,
                        image.height as int == e * re + image.height as int % e,
                        0 <= image.height as int % e;
            }
            let t = extract_tile(image, edge, row, col);
            tiles.push(t);
            proof {
                lemma_fundamental_div_mod_converse(
                    row as int * ce + col as int,
                    ce,
                    row as int,
                    col as int,
                );
            }
            col = col + 1;
        }
        proof {
            assert((row as int + 1) * ce == row as int * ce + ce) by (nonlinear_arith);
        }
        row = row + 1;
    }
    proof {
        assert(re * ce == ce * re) by (nonlinear_arith);
    }
    tiles
}

/// Tile row `row` of a row-major tile sequence is blank: every tile of the
/// row is fully transparent.
pub open spec fn spec_row_blank(tiles: Seq<Image>, cols: int, row: int) -> bool {
    forall|c: int| 0 <= c < cols ==> (#[trigger] tiles[row * cols + c]).is_blank()
}

/// How many tile rows survive trailing-only trimming: starting from the last
/// of `rows` rows, blank rows are dropped until the first non-blank row, and
/// everything from the first row up to there is kept.
pub open spec fn spec_kept_rows(tiles: Seq<Image>, cols: int, rows: int) -> int
    decreases rows,
{
    if rows <= 0 {
        0
    } else if spec_row_blank(tiles, cols, rows - 1) {
        spec_kept_rows(tiles, cols, rows - 1)
    } else {
        rows
    }
}

/// The kept row count never exceeds the row count it started from.
pub proof fn lemma_kept_rows_le(tiles: Seq<Image>, cols: int, rows: int)
    ensures
        0 <= spec_kept_rows(tiles, cols, rows) <= rows || rows < 0,
    decreases rows,
{
    if rows > 0 && spec_row_blank(tiles, cols, rows - 1) {
        lemma_kept_rows_le(tiles, cols, rows - 1);
    }
}

/// Below the kept row count there is no trailing blank row: if any rows are
/// kept, the last kept row is non-blank.
pub proof fn lemma_kept_rows_last_not_blank(tiles: Seq<Image>, cols: int, rows: int)
    ensures
        spec_kept_rows(tiles, cols, rows) > 0 ==> !spec_row_blank(
            tiles,
            cols,
            spec_kept_rows(tiles, cols, rows) - 1,
        ),
    decreases rows,
{
    if rows > 0 && spec_row_blank(tiles, cols, rows - 1) {
        lemma_kept_rows_last_not_blank(tiles, cols, rows - 1);
    }
}

/// Whether a row is blank depends only on that row's tiles: a prefix that
/// still contains the row sees the same answer.
proof fn lemma_row_blank_prefix(tiles: Seq<Image>, prefix: Seq<Image>, cols: int, row: int)
    requires
        cols >= 0,
        row >= 0,
        (row + 1) * cols <= prefix.len(),
        prefix.len() <= tiles.len(),
        forall|i: int| 0 <= i < prefix.len() ==> prefix[i] == tiles[i],
    ensures
        spec_row_blank(prefix, cols, row) <==> spec_row_blank(tiles, cols, row),
{
    if spec_row_blank(prefix, cols, row) {
        assert forall|c: int| 0 <= c < cols implies (#[trigger] tiles[row * cols + c]).is_blank() by {
            assert(0 <= row * cols + c && row * cols + c < (row + 1) * cols) by (nonlinear_arith)
                requires
                    0 <= c < cols,
                    0 <= row;
            assert(prefix[row * cols + c].is_blank());
        }
    }
    if spec_row_blank(tiles, cols, row) {
        assert forall|c: int| 0 <= c < cols implies (#[trigger] prefix[row * cols + c]).is_blank() by {
            assert(0 <= row * cols + c && row * cols + c < (row + 1) * cols) by (nonlinear_arith)
                requires
                    0 <= c < cols,
                    0 <= row;
            assert(prefix[row * cols + c] == tiles[row * cols + c]);
        }
    }
}

/// Decides whether tile row `row` of the sequence is blank.
fn row_blank_tiles(tiles: &Vec<Image>, cols: u32, row: u32) -> (b: bool)
    requires
        forall|i: int| 0 <= i < tiles@.len() ==> (#[trigger] tiles@[i]).wf(),
        (row as int + 1) * (cols as int) <= tiles@.len(),
    ensures
        b == spec_row_blank(tiles@, cols as int, row as int),
{
    let ghost ce = cols as int;
    let n = tiles.len();
    let mut c: u32 = 0;
    while c < cols
        invariant
            forall|i: int| 0 <= i < tiles@.len() ==> (#[trigger] tiles@[i]).wf(),
            (row as int + 1) * ce <= tiles@.len(),
            tiles@.len() == n as int,
            ce == cols as int,
            c <= cols,
            forall|cc: int|
                0 <= cc < c as int ==> (#[trigger] tiles@[row as int * ce + cc]).is_blank(),
        decreases cols - c,
    {
        proof {
            assert(0 <= (row as int) * ce && (row as int) * ce + (c as int) < ((row as int) + 1)
                * ce) by (nonlinear_arith)
                requires
                    0 <= (c as int) && (c as int) < ce,
                    0 <= row as int;
        }
        let idx: usize = row as usize * cols as usize + c as usize;
        if !image_blank(&tiles[idx]) {
            proof {
                assert(!tiles@[row as int * ce + c as int].is_blank());
            }
            return false;
        }
        c = c + 1;
    }
    true
}

/// Removes blank tile rows from the end of the sequence: scans from the last
/// row upward, drops each fully transparent row, and stops at the first row
/// with any opaque pixel. Interior blank rows are preserved. Returns the
/// surviving row count; the surviving tiles are exactly the original
/// sequence's leading rows, in unchanged order.
pub fn trim_blank_rows(tiles: &mut Vec<Image>, cols: u32, rows: u32) -> (kept: u32)
    requires
        old(tiles)@.len() == rows as int * cols as int,
        forall|i: int| 0 <= i < old(tiles)@.len() ==> (#[trigger] old(tiles)@[i]).wf(),
    ensures
        kept as int == spec_kept_rows(old(tiles)@, cols as int, rows as int),
        kept <= rows,
        final(tiles)@ == old(tiles)@.subrange(0, kept as int * cols as int),
{
    let ghost orig = tiles@;
    let ghost ce = cols as int;
    let mut r: u32 = rows;
    proof {
        assert(orig.subrange(0, r as int * ce) =~= orig);
    }
    while r > 0
        invariant_except_break
            r <= rows,
            ce == cols as int,
            orig.len() == rows as int * ce,
            forall|i: int| 0 <= i < orig.len() ==> (#[trigger] orig[i]).wf(),
            tiles@ == orig.subrange(0, r as int * ce),
            spec_kept_rows(orig, ce, rows as int) == spec_kept_rows(orig, ce, r as int),
        ensures
            r <= rows,
            ce == cols as int,
            tiles@ == orig.subrange(0, r as int * ce),
            r as int == spec_kept_rows(orig, ce, rows as int),
        decreases r,
    {
        proof {
            assert(0 <= ((r as int) - 1) * ce && ((r as int) - 1) * ce + ce == (r as int) * ce
                && (r as int) * ce <= (rows as int) * ce) by (nonlinear_arith)
                requires
                    0 < (r as int) && (r as int) <= rows as int,
                    ce >= 0;
            assert(tiles@.len() == r as int * ce);
            assert forall|i: int| 0 <= i < tiles@.len() implies (#[trigger] tiles@[i]).wf() by {
                assert(tiles@[i] == orig[i]);
            }
        }
        if row_blank_tiles(tiles, cols, r - 1) {
            proof {
                lemma_row_blank_prefix(orig, tiles@, ce, r as int - 1);
            }
            let cur_len = tiles.len();
            let new_len: usize = cur_len - (cols as usize);
            tiles.truncate(new_len);
            proof {
                assert(tiles@ =~= orig.subrange(0, (r as int - 1) * ce));
            }
            r = r - 1;
        } else {
            proof {
                lemma_row_blank_prefix(orig, tiles@, ce, r as int - 1);
                assert(spec_kept_rows(orig, ce, r as int) == r as int);
            }
            break;
        }
    }
    proof {
        if r == 0 {
            assert(spec_kept_rows(orig, ce, 0) == 0);
        }
    }
    r
}

/// Trimming is idempotent: trimming the sequence that trailing-only trimming
/// left behind removes nothing more, so running the discipline twice yields
/// the same result as running it once.
pub proof fn lemma_trim_idempotent(tiles: Seq<Image>, cols: int, rows: int)
    requires
        cols >= 0,
        rows >= 0,
        rows * cols <= tiles.len(),
    ensures
        spec_kept_rows(tiles, cols, rows) <= rows,
        spec_kept_rows(
            tiles.subrange(0, spec_kept_rows(tiles, cols, rows) * cols),
            cols,
            spec_kept_rows(tiles, cols, rows),
        ) == spec_kept_rows(tiles, cols, rows),
{
    let k = spec_kept_rows(tiles, cols, rows);
    lemma_kept_rows_le(tiles, cols, rows);
    lemma_kept_rows_last_not_blank(tiles, cols, rows);
    assert(k * cols <= rows * cols) by (nonlinear_arith)
        requires
            k <= rows,
            cols >= 0;
    let trimmed = tiles.subrange(0, k * cols);
    if k > 0 {
        lemma_row_blank_prefix(tiles, trimmed, cols, k - 1);
        assert((k - 1) * cols + cols == k * cols) by (nonlinear_arith);
        assert(spec_kept_rows(trimmed, cols, k) == k);
    }
}

/// A horizontal band of the source image is blank: within the grid's
/// `cols * edge` first columns, every pixel of rows `row * edge` up to
/// `(row + 1) * edge` is fully transparent. This is what "tile row `row` is
/// blank" means, said of the source image itself.
pub open spec fn band_blank(img: Image, edge: int, cols: int, row: int) -> bool {
    forall|x: int, y: int|
        0 <= x < cols * edge && row * edge <= y < (row + 1) * edge ==> #[trigger] img.alpha(x, y)
            == 0
}

/// How many tile rows of the image survive trailing-only trimming, said of
/// the source image's bands rather than of an extracted tile sequence.
pub open spec fn spec_kept_bands(img: Image, edge: int, cols: int, rows: int) -> int
    decreases rows,
{
    if rows <= 0 {
        0
    } else if band_blank(img, edge, cols, rows - 1) {
        spec_kept_bands(img, edge, cols, rows - 1)
    } else {
        rows
    }
}

/// A tile row of an extracted row-major tile sequence is blank exactly when
/// the matching band of the source image is blank.
proof fn lemma_row_blank_iff_band(
    tiles: Seq<Image>,
    img: Image,
    edge: int,
    cols: int,
    row: int,
)
    requires
        edge > 0,
        cols >= 0,
        row >= 0,
        forall|c: int|
            0 <= c < cols ==> is_tile_of(#[trigger] tiles[row * cols + c], img, edge, row, c),
    ensures
        spec_row_blank(tiles, cols, row) <==> band_blank(img, edge, cols, row),
{
    if spec_row_blank(tiles, cols, row) {
        assert forall|x: int, y: int|
            0 <= x < cols * edge && row * edge <= y < (row + 1) * edge implies #[trigger] img.alpha(
            x,
            y,
        ) == 0 by {
            lemma_fundamental_div_mod(x, edge);
            lemma_mod_pos_bound(x, edge);
            let c = x / edge;
            let tx = x % edge;
            assert(c < cols) by (nonlinear_arith)
                requires
                    x < cols * edge,
                    x == edge * c + tx,
                    0 <= tx < edge,
                    edge > 0;
            assert(0 <= c) by (nonlinear_arith)
                requires
                    0 <= x,
                    x == edge * c + tx,
                    0 <= tx < edge,
                    edge > 0;
            let ty = y - row * edge;
            assert((row + 1) * edge == row * edge + edge) by (nonlinear_arith);
            let t = tiles[row * cols + c];
            assert(is_tile_of(t, img, edge, row, c));
            assert(t.is_blank());
            assert(t.alpha(tx, ty) == 0);
            assert(t.chan(tx, ty, 3) == img.chan(c * edge + tx, row * edge + ty, 3));
            assert(c * edge + tx == x) by (nonlinear_arith)
                requires
                    x == edge * c + tx;
        }
    }
    if band_blank(img, edge, cols, row) {
        assert forall|c: int| 0 <= c < cols implies (#[trigger] tiles[row * cols + c]).is_blank() by {
            let t = tiles[row * cols + c];
            assert(is_tile_of(t, img, edge, row, c));
            assert forall|tx: int, ty: int|
                0 <= tx < t.width && 0 <= ty < t.height implies #[trigger] t.alpha(tx, ty) == 0 by {
                assert(t.chan(tx, ty, 3) == img.chan(c * edge + tx, row * edge + ty, 3));
                assert(0 <= c * edge + tx && c * edge + tx < cols * edge) by (nonlinear_arith)
                    requires
                        0 <= c < cols,
                        0 <= tx < edge;
                assert((row + 1) * edge == row * edge + edge) by (nonlinear_arith);
                assert(img.alpha(c * edge + tx, row * edge + ty) == 0);
            }
        }
    }
}

/// Trailing-only trimming sees the same blank rows whether it looks at the
/// extracted tiles or at the source image's bands.
proof fn lemma_kept_rows_eq_bands(
    tiles: Seq<Image>,
    img: Image,
    edge: int,
    cols: int,
    rows: int,
)
    requires
        edge > 0,
        cols >= 0,
        rows >= 0,
        forall|i: int|
            0 <= i < rows * cols ==> is_tile_of(#[trigger] tiles[i], img, edge, i / cols, i % cols),
    ensures
        spec_kept_rows(tiles, cols, rows) == spec_kept_bands(img, edge, cols, rows),
    decreases rows,
{
    if rows > 0 {
        assert forall|c: int|
            0 <= c < cols implies is_tile_of(
            #[trigger] tiles[(rows - 1) * cols + c],
            img,
            edge,
            rows - 1,
            c,
        ) by {
            let i = (rows - 1) * cols + c;
            assert(0 <= (rows - 1) * cols + c && (rows - 1) * cols + c < rows * cols)
                by (nonlinear_arith)
                requires
                    0 <= c < cols,
                    rows >= 1;
            lemma_fundamental_div_mod_converse(i, cols, rows - 1, c);
            assert(is_tile_of(tiles[i], img, edge, i / cols, i % cols));
        }
        lemma_row_blank_iff_band(tiles, img, edge, cols, rows - 1);
        if spec_row_blank(tiles, cols, rows - 1) {
            assert((rows - 1) * cols <= rows * cols) by (nonlinear_arith)
                requires
                    cols >= 0;
            lemma_kept_rows_eq_bands(tiles, img, edge, cols, rows - 1);
        }
    }
}

/// With no whole tile column, every band is vacuously blank and nothing is
/// kept.
proof fn lemma_kept_bands_no_cols(img: Image, edge: int, rows: int)
    requires
        rows >= 0,
    ensures
        spec_kept_bands(img, edge, 0, rows) == 0,
    decreases rows,
{
    if rows > 0 {
        assert(band_blank(img, edge, 0, rows - 1));
        lemma_kept_bands_no_cols(img, edge, rows - 1);
    }
}

/// What a successful tiling guarantees: the column count of the grid, the
/// truncation warnings, every surviving tile cut from its row-major grid
/// position, and exactly the rows that trailing-only trimming keeps.
pub open spec fn transform_ok(img: Image, e: Emojify) -> bool {
    let edge = EMOJI_SIZE as int;
    let cols = spec_cols(img, edge);
    let kept = spec_kept_bands(img, edge, cols, spec_rows0(img, edge));
    &&& e.cols as int == cols
    &&& e.truncated_width <==> img.width as int % edge != 0
    &&& e.truncated_height <==> img.height as int % edge != 0
    &&& e.emojis@.len() == kept * cols
    &&& e.spec_rows() == kept
    &&& forall|i: int|
        0 <= i < e.emojis@.len() ==> (#[trigger] e.emojis@[i]).wf() && is_tile_of(
            e.emojis@[i],
            img,
            edge,
            i / cols,
            i % cols,
        )
}

/// Cuts the image into the full grid of `EMOJI_SIZE` tiles, trims trailing
/// blank tile rows, and returns the column count with the surviving tiles in
/// row-major order. Pixels beyond the last whole tile column or row are
/// silently discarded, and the result's truncation flags warn the caller
/// when that happened. A degenerate grid yields an empty tile sequence. The
/// extraction error is never returned: the grid arithmetic keeps every tile
/// rectangle inside the image.
pub fn transform(image: &Image) -> (r: EmojifyResult<Emojify>)
    requires
        image.wf(),
    ensures
        r matches Ok(e) && transform_ok(*image, e),
{
    let ghost e = EMOJI_SIZE as int;
    let ghost cols_g = spec_cols(*image, e);
    let ghost rows_g = spec_rows0(*image, e);
    let g = compute_grid(image.width, image.height, EMOJI_SIZE);
    let mut tiles = cut_tiles(image, EMOJI_SIZE);
    let ghost tiles0 = tiles@;
    proof {
        assert(rows_g * cols_g == cols_g * rows_g) by (nonlinear_arith);
    }
    let kept = trim_blank_rows(&mut tiles, g.cols, g.rows);
    proof {
        lemma_kept_rows_eq_bands(tiles0, *image, e, cols_g, rows_g);
        if cols_g == 0 {
            lemma_kept_bands_no_cols(*image, e, rows_g);
        } else {
            assert(kept as int * cols_g == cols_g * (kept as int)) by (nonlinear_arith);
            lemma_div_multiples_vanish(kept as int, cols_g);
        }
        assert(kept as int * cols_g <= rows_g * cols_g) by (nonlinear_arith)
            requires
                kept as int <= rows_g,
                cols_g >= 0;
        assert forall|i: int|
            0 <= i < tiles@.len() implies (#[trigger] tiles@[i]).wf() && is_tile_of(
            tiles@[i],
            *image,
            e,
            i / cols_g,
            i % cols_g,
        ) by {
            assert(tiles@[i] == tiles0[i]);
        }
    }
    Ok(Emojify {
        cols: g.cols,
        truncated_width: g.truncated_width,
        truncated_height: g.truncated_height,
        emojis: tiles,
    })
}

} // verus!
