//! Two-dimensional integer arrays, stored by `ndarray`.
//!
//! Nothing in this module is proved: each function states what the `ndarray`
//! operation it calls does to the cells of the array. Everything else in the
//! crate is verified against these statements.

use ndarray::{Array2, Axis};
use vstd::prelude::*;

verus! {

/// An `ndarray::Array2<i32>`. Its cells are visible to proofs only through
/// [`array_rows`].
#[verifier::external_body]
pub struct IntArray2 {
    cells: Array2<i32>,
}

/// The cells of an array, row by row: `array_rows(a)[r][c]` is the cell in
/// row `r` and column `c`.
pub uninterp spec fn array_rows(a: IntArray2) -> Seq<Seq<i32>>;

/// Every row has the same, positive number of cells, and there is at least one row.
pub open spec fn is_rect(rows: Seq<Seq<i32>>) -> bool {
    &&& rows.len() > 0
    &&& rows[0].len() > 0
    &&& forall|r: int| 0 <= r < rows.len() ==> (#[trigger] rows[r]).len() == rows[0].len()
}

/// Each cell multiplied by `k`.
pub open spec fn scaled_rows(k: i32, rows: Seq<Seq<i32>>) -> Seq<Seq<i32>> {
    Seq::new(rows.len(), |r: int| Seq::new(rows[r].len(), |c: int| (k * rows[r][c]) as i32))
}

/// Each cell increased by `k`.
pub open spec fn shifted_rows(rows: Seq<Seq<i32>>, k: i32) -> Seq<Seq<i32>> {
    Seq::new(rows.len(), |r: int| Seq::new(rows[r].len(), |c: int| (rows[r][c] + k) as i32))
}

/// The rows of `left`, each continued by the row of `right` at the same height.
pub open spec fn beside(left: Seq<Seq<i32>>, right: Seq<Seq<i32>>) -> Seq<Seq<i32>> {
    Seq::new(left.len(), |r: int| left[r] + right[r])
}

/// `ndarray::arr2` on a literal of two rows of two cells: the array holds
/// exactly these four cells, `a b` above `c d`.
#[verifier::external_body]
pub(crate) fn square(a: i32, b: i32, c: i32, d: i32) -> (m: IntArray2)
    ensures
        array_rows(m) == seq![seq![a, b], seq![c, d]],
{
    IntArray2 { cells: ndarray::arr2(&[[a, b], [c, d]]) }
}

/// `i32 * &Array2<i32>`: a new array of the same shape, each cell multiplied
/// by `k`. The product of every cell must fit in `i32`, as the operator
/// multiplies with `*`.
#[verifier::external_body]
pub(crate) fn scaled(k: i32, m: &IntArray2) -> (out: IntArray2)
    requires
        forall|r: int, c: int|
            0 <= r < array_rows(*m).len() && 0 <= c < array_rows(*m)[r].len() ==> i32::MIN <= k
                * #[trigger] array_rows(*m)[r][c] <= i32::MAX,
    ensures
        array_rows(out) == scaled_rows(k, array_rows(*m)),
{
    IntArray2 { cells: k * &m.cells }
}

/// `&Array2<i32> + i32`: a new array of the same shape, each cell increased
/// by `k`. The sum of every cell must fit in `i32`, as the operator adds with `+`.
#[verifier::external_body]
pub(crate) fn shifted(m: &IntArray2, k: i32) -> (out: IntArray2)
    requires
        forall|r: int, c: int|
            0 <= r < array_rows(*m).len() && 0 <= c < array_rows(*m)[r].len() ==> i32::MIN
                <= #[trigger] array_rows(*m)[r][c] + k <= i32::MAX,
    ensures
        array_rows(out) == shifted_rows(array_rows(*m), k),
{
    IntArray2 { cells: &m.cells + k }
}

/// `ndarray::concatenate` of two arrays. Along axis 0 the rows of `second`
/// follow those of `first`; along axis 1 each row of `first` is continued by
/// the row of `second` at the same height. The arrays must agree in the other
/// axis, and the result must hold no more than `isize::MAX` cells, or
/// `concatenate` reports an error.
#[verifier::external_body]
pub(crate) fn joined(axis: usize, first: &IntArray2, second: &IntArray2) -> (out: IntArray2)
    requires
        axis <= 1,
        is_rect(array_rows(*first)),
        is_rect(array_rows(*second)),
        axis == 0 ==> array_rows(*first)[0].len() == array_rows(*second)[0].len(),
        axis == 1 ==> array_rows(*first).len() == array_rows(*second).len(),
        axis == 0 ==> (array_rows(*first).len() + array_rows(*second).len()) * array_rows(
            *first,
        )[0].len() <= isize::MAX,
        axis == 1 ==> array_rows(*first).len() * (array_rows(*first)[0].len() + array_rows(
            *second,
        )[0].len()) <= isize::MAX,
    ensures
        axis == 0 ==> array_rows(out) == array_rows(*first) + array_rows(*second),
        axis == 1 ==> array_rows(out) == beside(array_rows(*first), array_rows(*second)),
{
    IntArray2 {
        cells: ndarray::concatenate(Axis(axis), &[first.cells.view(), second.cells.view()]).unwrap(),
    }
}

/// `Array2::nrows`: the number of rows.
#[verifier::external_body]
pub(crate) fn row_count(m: &IntArray2) -> (n: usize)
    ensures
        n == array_rows(*m).len(),
{
    m.cells.nrows()
}

/// Indexing with `[[row, col]]`: the cell at that place, which must lie
/// inside the array.
#[verifier::external_body]
pub(crate) fn cell(m: &IntArray2, row: usize, col: usize) -> (v: i32)
    requires
        row < array_rows(*m).len(),
        col < array_rows(*m)[row as int].len(),
    ensures
        v == array_rows(*m)[row as int][col as int],
{
    m.cells[[row, col]]
}

} // verus!
