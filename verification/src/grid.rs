//! Row-major addressing of a rectangular grid of cells.

use vstd::prelude::*;
use crate::point::Point;

verus! {

/// Why a grid operation was refused.
#[derive(Clone, Copy, Debug, PartialEq, Eq, Structural)]
pub enum GridError {
    /// The requested dimensions do not describe a grid: one of them is not
    /// positive, or the cell count does not fit the machine's address range.
    ConfigError,
    /// A coordinate lies outside the grid's extent.
    OutOfBounds,
}

/// The dimensions a grid can have: both positive, with a cell count that a
/// `usize` can hold.
pub open spec fn valid_dimensions(width: int, height: int) -> bool {
    width > 0 && height > 0 && width * height <= usize::MAX
}

/// Whether `p` is a cell of a grid `width` wide and `height` high.
pub open spec fn in_extent(width: int, height: int, p: Point) -> bool {
    0 <= p.x < width && 0 <= p.y < height
}

/// Row-major position of cell `p` in a grid `width` wide.
pub open spec fn flat_index(width: int, p: Point) -> int {
    p.y * width + p.x
}

/// The index of a cell of the grid is smaller than the cell count.
pub proof fn lemma_flat_index_in_range(width: int, height: int, p: Point)
    requires
        in_extent(width, height, p),
    ensures
        0 <= flat_index(width, p) < width * height,
{
    assert(0 <= p.y * width && p.y * width + width <= height * width) by (nonlinear_arith)
        requires
            0 <= p.y < height,
            width > 0,
    ;
    assert(height * width == width * height) by (nonlinear_arith);
}

/// Two different cells of a grid never share an index.
pub proof fn lemma_flat_index_injective(width: int, height: int, p: Point, q: Point)
    requires
        in_extent(width, height, p),
        in_extent(width, height, q),
        p != q,
    ensures
        flat_index(width, p) != flat_index(width, q),
{
    if p.y != q.y {
        assert(p.y * width + p.x != q.y * width + q.x) by (nonlinear_arith)
            requires
                p.y != q.y,
                0 <= p.x < width,
                0 <= q.x < width,
        ;
    }
}

/// The number of cells of a `width` by `height` grid, or `ConfigError` when
/// the dimensions are not valid.
pub fn cell_count(width: i32, height: i32) -> (r: Result<usize, GridError>)
    ensures
        r is Ok <==> valid_dimensions(width as int, height as int),
        r is Ok ==> r->Ok_0 == width * height,
        r is Err ==> r == Err::<usize, GridError>(GridError::ConfigError),
{
    if width <= 0 || height <= 0 {
        return Err(GridError::ConfigError);
    }
    assert(0 < width * height <= 0x7fff_ffff * 0x7fff_ffff) by (nonlinear_arith)
        requires
            0 < width <= 0x7fff_ffff,
            0 < height <= 0x7fff_ffff,
    ;
    let cells: u64 = (width as u64) * (height as u64);
    if cells > usize::MAX as u64 {
        return Err(GridError::ConfigError);
    }
    Ok(cells as usize)
}

/// The row-major index of `p` in a `width` by `height` grid, or
/// `OutOfBounds` when `p` is not one of its cells.
pub fn cell_index(width: i32, height: i32, p: Point) -> (r: Result<usize, GridError>)
    requires
        valid_dimensions(width as int, height as int),
    ensures
        r is Ok <==> in_extent(width as int, height as int, p),
        r is Ok ==> r->Ok_0 == flat_index(width as int, p) && r->Ok_0 < width * height,
        r is Err ==> r == Err::<usize, GridError>(GridError::OutOfBounds),
{
    if p.x < 0 || p.x >= width || p.y < 0 || p.y >= height {
        return Err(GridError::OutOfBounds);
    }
    proof {
        lemma_flat_index_in_range(width as int, height as int, p);
    }
    let row: usize = p.y as usize;
    let stride: usize = width as usize;
    let col: usize = p.x as usize;
    assert(row * stride == p.y * width) by (nonlinear_arith)
        requires
            row == p.y,
            stride == width,
    ;
    Ok(row * stride + col)
}

/// A vector of `n` copies of `value`.
pub fn filled<T: Copy>(value: T, n: usize) -> (v: Vec<T>)
    ensures
        v@ == Seq::new(n as nat, |i: int| value),
{
    let mut v: Vec<T> = Vec::with_capacity(n);
    let mut i: usize = 0;
    while i < n
        invariant
            i <= n,
            v@ == Seq::new(i as nat, |j: int| value),
        decreases n - i,
    {
        v.push(value);
        i = i + 1;
        assert(v@ =~= Seq::new(i as nat, |j: int| value));
    }
    v
}

} // verus!
