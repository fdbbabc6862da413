//! Storage of the level grid: a two-dimensional tile array kept in ndarray's
//! `Array2`, behind trusted contracts. The contracts state what ndarray's own
//! source shows: a row-major layout built from a flat vector, a transpose
//! that swaps the two axes, and bounds-checked element reads.

use vstd::prelude::*;

use crate::tile::LevelTile;

verus! {

/// A two-dimensional array of tiles. The storage itself is ndarray's
/// `Array2`, which Verus does not read; everything known of a `TileArray`
/// comes from the contracts of the functions below.
#[verifier::external_body]
#[derive(Debug)]
pub struct TileArray {
    cells: ndarray::Array2<LevelTile>,
}

#[verifier::external_type_specification]
#[verifier::external_body]
pub struct ExShapeError(ndarray::ShapeError);

/// The tile that each index pair of the array resolves to.
pub uninterp spec fn array2_cells(a: TileArray) -> Map<(int, int), LevelTile>;

/// The array's two axis lengths.
pub uninterp spec fn array2_dim(a: TileArray) -> (int, int);

/// The array `a`, of shape `(rows, cols)`, holds the flat vector `v` in
/// row-major order.
pub open spec fn cells_are_rows(a: TileArray, rows: int, cols: int, v: Seq<LevelTile>) -> bool {
    forall|i: int, j: int|
        0 <= i < rows && 0 <= j < cols ==> #[trigger] array2_cells(a)[(i, j)] == v[i * cols + j]
}

/// The array `r` is the transpose of an array whose cells are `cells` and
/// whose shape is `(rows, cols)`.
pub open spec fn cells_transposed(r: TileArray, cells: Map<(int, int), LevelTile>, rows: int, cols: int) -> bool {
    forall|i: int, j: int|
        0 <= i < rows && 0 <= j < cols ==> #[trigger] array2_cells(r)[(j, i)] == cells[(i, j)]
}

/// Relies on ndarray's `Array2::from_shape_vec` with a plain `(rows, cols)`
/// shape: the standard (row-major) layout is used, so index pair `(i, j)`
/// resolves to `v[i * cols + j]`. It errors only when the shape does not
/// correspond to the number of elements or when the product of the non-zero
/// axis lengths, times the element size, would overflow `isize`; with each
/// axis at most `0x7fff_ffff` and one-byte elements, neither that product
/// (the element count when both axes are non-zero, else the one non-zero
/// axis) nor the byte count can overflow.
#[verifier::external_body]
pub(crate) fn array2_from_rows(rows: usize, cols: usize, v: Vec<LevelTile>) -> (r: Result<TileArray, ndarray::ShapeError>)
    ensures
        r.is_ok() ==> v@.len() == rows * cols,
        (v@.len() == rows * cols && rows * cols <= 0x7fff_ffff && rows <= 0x7fff_ffff && cols
            <= 0x7fff_ffff) ==> r.is_ok(),
        r matches Ok(a) ==> (array2_dim(a) == (rows as int, cols as int) && cells_are_rows(a, rows as int, cols as int, v@)),
{
    match ndarray::Array2::from_shape_vec((rows, cols), v) {
        Ok(cells) => Ok(TileArray { cells }),
        Err(e) => Err(e),
    }
}

/// Relies on ndarray's `ArrayBase::reversed_axes`: it reverses the order of
/// the two axes while retaining the same data, so the result's dimensions are
/// swapped and its index pair `(j, i)` resolves to the argument's `(i, j)`.
#[verifier::external_body]
pub(crate) fn array2_transpose(a: TileArray) -> (r: TileArray)
    ensures
        array2_dim(r) == (array2_dim(a).1, array2_dim(a).0),
        cells_transposed(r, array2_cells(a), array2_dim(a).0, array2_dim(a).1),
{
    TileArray { cells: a.cells.reversed_axes() }
}

/// Relies on ndarray's `Index` implementation for a `(usize, usize)` index
/// pair, which returns the element at that pair; the pair is in bounds, so
/// the read does not panic.
#[verifier::external_body]
pub(crate) fn array2_get(a: &TileArray, x: usize, y: usize) -> (r: LevelTile)
    requires
        0 <= x < array2_dim(*a).0,
        0 <= y < array2_dim(*a).1,
    ensures
        r == array2_cells(*a)[(x as int, y as int)],
{
    a.cells[(x, y)]
}

} // verus!
