//! The tile grid computer: how many whole tiles of a fixed edge length fit
//! into an image, and where each tile's pixel rectangle lies.

use vstd::prelude::*;
use vstd::arithmetic::div_mod::lemma_fundamental_div_mod;
use vstd::arithmetic::div_mod::lemma_fundamental_div_mod_converse;
use vstd::arithmetic::div_mod::lemma_mod_pos_bound;

verus! {

/// The integer grid of whole tiles cut from an image.
///
/// `cols` and `rows` count the whole tiles that fit horizontally and
/// vertically. The two flags report that trailing pixels were discarded
/// (width or height not a multiple of the edge length); they are a warning
/// for the caller, never an error.
#[derive(Clone, Copy, Debug, PartialEq, Eq, Structural)]
pub struct Grid {
    pub cols: u32,
    pub rows: u32,
    pub truncated_width: bool,
    pub truncated_height: bool,
}

/// Computes the tile grid for an image of the given dimensions: the number of
/// whole `edge`-sized tiles per axis, by integer division, and a flag per
/// axis saying whether trailing pixels are dropped. Degenerate grids (zero
/// columns or rows) are legal and simply yield no tiles downstream.
pub fn compute_grid(width: u32, height: u32, edge: u32) -> (g: Grid)
    requires
        edge > 0,
    ensures
        g.cols == width as int / edge as int,
        g.rows == height as int / edge as int,
        g.truncated_width <==> width as int % edge as int != 0,
        g.truncated_height <==> height as int % edge as int != 0,
{
    Grid {
        cols: width / edge,
        rows: height / edge,
        truncated_width: width % edge != 0,
        truncated_height: height % edge != 0,
    }
}

/// Every tile of the computed grid has its pixel rectangle inside the image
/// bounds: for a valid row-major tile index `i`, the rectangle starting at
/// column `(i % cols) * edge`, row `(i / cols) * edge` ends at or before the
/// image's right and bottom edges.
pub proof fn lemma_tile_rect_in_bounds(width: int, height: int, edge: int, i: int)
    requires
        0 <= width,
        0 <= height,
        edge > 0,
        0 <= i < (width / edge) * (height / edge),
    ensures
        0 <= (i % (width / edge)) * edge,
        ((i % (width / edge)) + 1) * edge <= width,
        0 <= (i / (width / edge)) * edge,
        ((i / (width / edge)) + 1) * edge <= height,
{
    let cols = width / edge;
    let rows = height / edge;
    lemma_fundamental_div_mod(width, edge);
    lemma_fundamental_div_mod(height, edge);
    lemma_mod_pos_bound(width, edge);
    lemma_mod_pos_bound(height, edge);
    assert(rows >= 0) by (nonlinear_arith)
        requires
            height == edge * rows + height % edge,
            0 <= height % edge,
            height % edge < edge,
            height >= 0,
            edge > 0;
    assert(cols > 0) by (nonlinear_arith)
        requires
            0 <= i < cols * rows,
            rows >= 0;
    lemma_mod_pos_bound(i, cols);
    lemma_fundamental_div_mod(i, cols);
    let col = i % cols;
    let row = i / cols;
    assert(row < rows) by (nonlinear_arith)
        requires
            i < cols * rows,
            i == cols * row + col,
            0 <= col < cols;
    assert(0 <= row) by (nonlinear_arith)
        requires
            i == cols * row + col,
            0 <= i,
            0 <= col < cols,
            cols > 0;
    assert(0 <= col * edge && (col + 1) * edge <= cols * edge) by (nonlinear_arith)
        requires
            0 <= col < cols,
            edge > 0;
    assert(cols * edge <= width) by (nonlinear_arith)
        requires
            width == edge * cols + width % edge,
            width % edge >= 0;
    assert(0 <= row * edge && (row + 1) * edge <= rows * edge) by (nonlinear_arith)
        requires
            0 <= row < rows,
            edge > 0;
    assert(rows * edge <= height) by (nonlinear_arith)
        requires
            height == edge * rows + height % edge,
            height % edge >= 0;
}

/// Row-major order: the tile after tile `i` sits directly to its right, one
/// edge length over in the same row, unless `i + 1` starts a new row, in
/// which case `i` closed its row and `i + 1` is that next row's first tile.
pub proof fn lemma_row_major_adjacent(cols: int, edge: int, i: int)
    requires
        cols > 0,
        edge >= 0,
        0 <= i,
    ensures
        (i + 1) % cols != 0 ==> (i + 1) / cols == i / cols && ((i + 1) % cols) * edge == (i % cols)
            * edge + edge,
        (i + 1) % cols == 0 ==> (i + 1) / cols == i / cols + 1 && i % cols == cols - 1,
{
    lemma_fundamental_div_mod(i, cols);
    lemma_mod_pos_bound(i, cols);
    let q = i / cols;
    let r = i % cols;
    if r == cols - 1 {
        assert(i + 1 == (q + 1) * cols + 0) by (nonlinear_arith)
            requires
                i == cols * q + r,
                r == cols - 1;
        lemma_fundamental_div_mod_converse(i + 1, cols, q + 1, 0);
    } else {
        assert(i + 1 == q * cols + (r + 1)) by (nonlinear_arith)
            requires
                i == cols * q + r;
        lemma_fundamental_div_mod_converse(i + 1, cols, q, r + 1);
        assert((r + 1) * edge == r * edge + edge) by (nonlinear_arith);
    }
}

} // verus!
