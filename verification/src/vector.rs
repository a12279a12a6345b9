//! Component storage of vectors and matrices.
use vstd::prelude::*;

verus! {

/// `D` components of type `T`: the storage of every vector and, row after
/// row, of every matrix.
#[derive(Copy, Clone, Debug)]
pub struct TypedVec<T, const D: usize> {
    pub v: [T; D],
}

/// Matrix multiplication of `self` with a `T`, giving an `R`.
pub trait MatMul<T, R> {
    fn matmul(&self, other: T) -> R;
}

impl<T: Copy, const D: usize> TypedVec<T, D> {
    /// The components in order.
    pub open spec fn components(&self) -> Seq<T> {
        self.v@
    }

    /// Where the element in row `row` and column `col` of a matrix with
    /// `cols` columns stands among the components.
    pub open spec fn cell_index(cols: int, row: int, col: int) -> int {
        row * cols + col
    }

    /// The element in row `row` and column `col`, where `self` holds a
    /// matrix with `cols` columns.
    pub fn m(&self, cols: usize, row: usize, col: usize) -> (e: T)
        requires
            Self::cell_index(cols as int, row as int, col as int) < D,
        ensures
            e == self.components()[Self::cell_index(cols as int, row as int, col as int)],
    {
        assert(row * cols <= row * cols + col);
        self.v[row * cols + col]
    }

    /// Stores `to` in row `row` and column `col`, where `self` holds a matrix
    /// with `cols` columns.
    pub fn set_m(&mut self, cols: usize, row: usize, col: usize, to: T)
        requires
            Self::cell_index(cols as int, row as int, col as int) < D,
        ensures
            final(self).components() == old(self).components().update(
                Self::cell_index(cols as int, row as int, col as int),
                to,
            ),
    {
        assert(row * cols <= row * cols + col);
        self.v[row * cols + col] = to;
    }
}

} // verus!
