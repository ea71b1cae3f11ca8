//! Dense two-dimensional arrays over an abstract scalar type.
//!
//! A [`Matrix`] is stored row by row.  Its view is the sequence of its rows,
//! each a sequence of scalars, and well-formedness ties that view to the
//! declared row and column counts.  Operations that move data around
//! (transpose, copies) carry exact element-level contracts; operations that
//! combine scalars state the shape of their result, which is what the
//! pipeline's verified wiring rests on.

use crate::num::Num;
use vstd::prelude::*;

verus! {

/// A dense matrix with a fixed number of rows and columns.
pub struct Matrix<T> {
    rows: usize,
    cols: usize,
    data: Vec<Vec<T>>,
}

impl<T> View for Matrix<T> {
    type V = Seq<Seq<T>>;

    closed spec fn view(&self) -> Seq<Seq<T>> {
        self.data@.map_values(|r: Vec<T>| r@)
    }
}

impl<T> Matrix<T> {
    /// The declared number of rows.
    pub closed spec fn nrows(&self) -> int {
        self.rows as int
    }

    /// The declared number of columns.
    pub closed spec fn ncols(&self) -> int {
        self.cols as int
    }

    /// A matrix is well formed when its view matches its declared shape:
    /// one row sequence per declared row, each of the declared width.
    pub open spec fn wf(&self) -> bool {
        &&& self@.len() == self.nrows()
        &&& forall|i: int| 0 <= i < self@.len() ==> (#[trigger] self@[i]).len() == self.ncols()
    }

    /// The number of rows.
    pub fn num_rows(&self) -> (r: usize)
        ensures
            r == self.nrows(),
    {
        self.rows
    }

    /// The number of columns.
    pub fn num_cols(&self) -> (r: usize)
        ensures
            r == self.ncols(),
    {
        self.cols
    }

    /// Builds a matrix from its rows.  Every row must have the same width as
    /// the first, and there must be at least one row.
    pub fn from_rows(data: Vec<Vec<T>>) -> (m: Matrix<T>)
        requires
            data@.len() >= 1,
            forall|i: int|
                0 <= i < data@.len() ==> (#[trigger] data@[i])@.len() == data@[0]@.len(),
        ensures
            m.wf(),
            m.nrows() == data@.len(),
            m.ncols() == data@[0]@.len(),
            forall|i: int| 0 <= i < data@.len() ==> #[trigger] m@[i] == data@[i]@,
    {
        let rows = data.len();
        let cols = data[0].len();
        Matrix { rows, cols, data }
    }
}

impl<T: Copy> Matrix<T> {
    /// The element in row `i`, column `j`.
    pub fn get(&self, i: usize, j: usize) -> (r: T)
        requires
            self.wf(),
            i < self.nrows(),
            j < self.ncols(),
        ensures
            r == self@[i as int][j as int],
    {
        proof {
            assert(self@.len() == self.data@.len());
            assert(self@[i as int] == self.data@[i as int]@);
        }
        self.data[i][j]
    }

    /// A matrix of the given shape whose elements all hold `value`.
    pub fn filled(rows: usize, cols: usize, value: T) -> (m: Matrix<T>)
        ensures
            m.wf(),
            m.nrows() == rows,
            m.ncols() == cols,
            forall|i: int, j: int|
                0 <= i < rows && 0 <= j < cols ==> m@[i][j] == value,
    {
        let mut data: Vec<Vec<T>> = Vec::new();
        let mut i: usize = 0;
        while i < rows
            invariant
                i <= rows,
                data@.len() == i,
                forall|p: int| 0 <= p < i ==> (#[trigger] data@[p])@.len() == cols,
                forall|p: int, q: int|
                    0 <= p < i && 0 <= q < cols ==> data@[p]@[q] == value,
            decreases rows - i,
        {
            let mut row: Vec<T> = Vec::new();
            let mut j: usize = 0;
            while j < cols
                invariant
                    j <= cols,
                    row@.len() == j,
                    forall|q: int| 0 <= q < j ==> row@[q] == value,
                decreases cols - j,
            {
                row.push(value);
                j += 1;
            }
            data.push(row);
            i += 1;
        }
        Matrix { rows, cols, data }
    }

    /// An element-for-element copy of this matrix.
    pub fn duplicate(&self) -> (m: Matrix<T>)
        requires
            self.wf(),
        ensures
            m.wf(),
            m.nrows() == self.nrows(),
            m.ncols() == self.ncols(),
            m@ == self@,
    {
        let rows = self.rows;
        let cols = self.cols;
        let mut data: Vec<Vec<T>> = Vec::new();
        let mut i: usize = 0;
        while i < rows
            invariant
                self.wf(),
                rows == self.nrows(),
                cols == self.ncols(),
                i <= rows,
                data@.len() == i,
                forall|p: int| 0 <= p < i ==> (#[trigger] data@[p])@ == self@[p],
            decreases rows - i,
        {
            let mut row: Vec<T> = Vec::new();
            let mut j: usize = 0;
            while j < cols
                invariant
                    self.wf(),
                    rows == self.nrows(),
                    cols == self.ncols(),
                    i < rows,
                    j <= cols,
                    row@.len() == j,
                    forall|q: int| 0 <= q < j ==> row@[q] == self@[i as int][q],
                decreases cols - j,
            {
                row.push(self.get(i, j));
                j += 1;
            }
            proof {
                assert(row@ =~= self@[i as int]);
            }
            data.push(row);
            i += 1;
        }
        let m = Matrix { rows, cols, data };
        proof {
            assert(m@ =~= self@);
        }
        m
    }

    /// The transpose: the result holds at row `j`, column `i` what this
    /// matrix holds at row `i`, column `j`.
    pub fn transpose(&self) -> (m: Matrix<T>)
        requires
            self.wf(),
        ensures
            m.wf(),
            m.nrows() == self.ncols(),
            m.ncols() == self.nrows(),
            forall|i: int, j: int|
                0 <= i < self.nrows() && 0 <= j < self.ncols() ==> m@[j][i] == self@[i][j],
    {
        let rows = self.cols;
        let cols = self.rows;
        let mut data: Vec<Vec<T>> = Vec::new();
        let mut i: usize = 0;
        while i < rows
            invariant
                self.wf(),
                rows == self.ncols(),
                cols == self.nrows(),
                i <= rows,
                data@.len() == i,
                forall|p: int| 0 <= p < i ==> (#[trigger] data@[p])@.len() == cols,
                forall|p: int, q: int|
                    0 <= p < i && 0 <= q < cols ==> data@[p]@[q] == self@[q][p],
            decreases rows - i,
        {
            let mut row: Vec<T> = Vec::new();
            let mut j: usize = 0;
            while j < cols
                invariant
                    self.wf(),
                    rows == self.ncols(),
                    cols == self.nrows(),
                    i < rows,
                    j <= cols,
                    row@.len() == j,
                    forall|q: int| 0 <= q < j ==> row@[q] == self@[q][i as int],
                decreases cols - j,
            {
                row.push(self.get(j, i));
                j += 1;
            }
            data.push(row);
            i += 1;
        }
        Matrix { rows, cols, data }
    }
}

/// Entry (i, j) of the matrix product of `a` and `b`, accumulated over the
/// first `k` inner terms: a left fold seeded with `spec_zero`, exactly as the
/// executable product computes it (no algebraic laws of the scalar are
/// assumed, so the fold order and seed are part of the statement).
pub open spec fn mat_mul_entry<T: Num>(a: Matrix<T>, b: Matrix<T>, i: int, j: int, k: int) -> T
    decreases k,
{
    if k <= 0 {
        T::spec_zero()
    } else {
        mat_mul_entry(a, b, i, j, k - 1).spec_add(a@[i][k - 1].spec_mul(b@[k - 1][j]))
    }
}

/// Entry (i, j) of the product of `a` with the *transpose* of `b`,
/// accumulated over the first `k` inner terms, with the same fold order and
/// seed as `mat_mul_entry`.
pub open spec fn mat_mul_transpose_entry<T: Num>(
    a: Matrix<T>,
    b: Matrix<T>,
    i: int,
    j: int,
    k: int,
) -> T
    decreases k,
{
    if k <= 0 {
        T::spec_zero()
    } else {
        mat_mul_transpose_entry(a, b, i, j, k - 1).spec_add(a@[i][k - 1].spec_mul(b@[j][k - 1]))
    }
}

/// The product fold reads only the operands' entries: two products whose
/// operands hold the same entries agree, entry for entry.
pub proof fn lemma_mul_entry_congruent<T: Num>(
    a1: Matrix<T>,
    b1: Matrix<T>,
    a2: Matrix<T>,
    b2: Matrix<T>,
    i: int,
    j: int,
    k: int,
)
    requires
        a1@ == a2@,
        b1@ == b2@,
    ensures
        mat_mul_entry(a1, b1, i, j, k) == mat_mul_entry(a2, b2, i, j, k),
    decreases k,
{
    if k > 0 {
        lemma_mul_entry_congruent(a1, b1, a2, b2, i, j, k - 1);
    }
}

/// Multiplying by a transposed matrix, entry for entry: when `bt` holds `b`
/// transposed, the product entries of `a` with `bt` are the
/// transpose-product entries of `a` with `b`.
pub proof fn lemma_mul_entry_by_transpose<T: Num>(
    a: Matrix<T>,
    bt: Matrix<T>,
    b: Matrix<T>,
    i: int,
    j: int,
    k: int,
)
    requires
        forall|p: int, q: int|
            0 <= p < b.nrows() && 0 <= q < b.ncols() ==> #[trigger] bt@[q][p] == b@[p][q],
        0 <= j < b.nrows(),
        k <= b.ncols(),
    ensures
        mat_mul_entry(a, bt, i, j, k) == mat_mul_transpose_entry(a, b, i, j, k),
    decreases k,
{
    if k > 0 {
        lemma_mul_entry_by_transpose(a, bt, b, i, j, k - 1);
        assert(bt@[k - 1][j] == b@[j][k - 1]);
    }
}

impl<T: Num> Matrix<T> {
    /// The matrix product of `self` and `other`.  Requires the inner
    /// dimensions to agree; the result has this matrix's rows and the other's
    /// columns, and each entry is the fold `mat_mul_entry` over the full
    /// inner dimension.
    pub fn mul_mat(&self, other: &Matrix<T>) -> (m: Matrix<T>)
        requires
            self.wf(),
            other.wf(),
            self.ncols() == other.nrows(),
        ensures
            m.wf(),
            m.nrows() == self.nrows(),
            m.ncols() == other.ncols(),
            forall|i: int, j: int|
                0 <= i < self.nrows() && 0 <= j < other.ncols() ==> #[trigger] m@[i][j]
                    == mat_mul_entry(*self, *other, i, j, self.ncols()),
    {
        let rows = self.rows;
        let inner = self.cols;
        let cols = other.cols;
        let mut data: Vec<Vec<T>> = Vec::new();
        let mut i: usize = 0;
        while i < rows
            invariant
                self.wf(),
                other.wf(),
                rows == self.nrows(),
                inner == self.ncols(),
                inner == other.nrows(),
                cols == other.ncols(),
                i <= rows,
                data@.len() == i,
                forall|p: int| 0 <= p < i ==> (#[trigger] data@[p])@.len() == cols,
                forall|p: int, q: int|
                    0 <= p < i && 0 <= q < cols ==> data@[p]@[q] == mat_mul_entry(
                        *self,
                        *other,
                        p,
                        q,
                        self.ncols(),
                    ),
            decreases rows - i,
        {
            let mut row: Vec<T> = Vec::new();
            let mut j: usize = 0;
            while j < cols
                invariant
                    self.wf(),
                    other.wf(),
                    rows == self.nrows(),
                    inner == self.ncols(),
                    inner == other.nrows(),
                    cols == other.ncols(),
                    i < rows,
                    j <= cols,
                    row@.len() == j,
                    forall|q: int|
                        0 <= q < j ==> row@[q] == mat_mul_entry(
                            *self,
                            *other,
                            i as int,
                            q,
                            self.ncols(),
                        ),
                decreases cols - j,
            {
                let mut acc = T::zero();
                let mut k: usize = 0;
                while k < inner
                    invariant
                        self.wf(),
                        other.wf(),
                        rows == self.nrows(),
                        inner == self.ncols(),
                        inner == other.nrows(),
                        cols == other.ncols(),
                        i < rows,
                        j < cols,
                        k <= inner,
                        acc == mat_mul_entry(*self, *other, i as int, j as int, k as int),
                    decreases inner - k,
                {
                    acc = acc.add_val(self.get(i, k).mul_val(other.get(k, j)));
                    k += 1;
                }
                row.push(acc);
                j += 1;
            }
            data.push(row);
            i += 1;
        }
        Matrix { rows, cols, data }
    }

    /// The element-wise sum of two matrices of the same shape.
    pub fn add_mat(&self, other: &Matrix<T>) -> (m: Matrix<T>)
        requires
            self.wf(),
            other.wf(),
            self.nrows() == other.nrows(),
            self.ncols() == other.ncols(),
        ensures
            m.wf(),
            m.nrows() == self.nrows(),
            m.ncols() == self.ncols(),
            forall|i: int, j: int|
                0 <= i < self.nrows() && 0 <= j < self.ncols() ==> #[trigger] m@[i][j]
                    == self@[i][j].spec_add(other@[i][j]),
    {
        let rows = self.rows;
        let cols = self.cols;
        let mut data: Vec<Vec<T>> = Vec::new();
        let mut i: usize = 0;
        while i < rows
            invariant
                self.wf(),
                other.wf(),
                rows == self.nrows(),
                cols == self.ncols(),
                rows == other.nrows(),
                cols == other.ncols(),
                i <= rows,
                data@.len() == i,
                forall|p: int| 0 <= p < i ==> (#[trigger] data@[p])@.len() == cols,
                forall|p: int, q: int|
                    0 <= p < i && 0 <= q < cols ==> data@[p]@[q] == self@[p][q].spec_add(
                        other@[p][q],
                    ),
            decreases rows - i,
        {
            let mut row: Vec<T> = Vec::new();
            let mut j: usize = 0;
            while j < cols
                invariant
                    self.wf(),
                    other.wf(),
                    rows == self.nrows(),
                    cols == self.ncols(),
                    rows == other.nrows(),
                    cols == other.ncols(),
                    i < rows,
                    j <= cols,
                    row@.len() == j,
                    forall|q: int|
                        0 <= q < j ==> row@[q] == self@[i as int][q].spec_add(other@[i as int][q]),
                decreases cols - j,
            {
                row.push(self.get(i, j).add_val(other.get(i, j)));
                j += 1;
            }
            data.push(row);
            i += 1;
        }
        Matrix { rows, cols, data }
    }

    /// `self` minus `other` scaled by `factor`, element for element: the
    /// gradient-descent step applied to a parameter matrix.
    pub fn sub_scaled(&self, other: &Matrix<T>, factor: T) -> (m: Matrix<T>)
        requires
            self.wf(),
            other.wf(),
            self.nrows() == other.nrows(),
            self.ncols() == other.ncols(),
        ensures
            m.wf(),
            m.nrows() == self.nrows(),
            m.ncols() == self.ncols(),
            forall|i: int, j: int|
                0 <= i < self.nrows() && 0 <= j < self.ncols() ==> #[trigger] m@[i][j]
                    == self@[i][j].spec_sub(other@[i][j].spec_mul(factor)),
    {
        let rows = self.rows;
        let cols = self.cols;
        let mut data: Vec<Vec<T>> = Vec::new();
        let mut i: usize = 0;
        while i < rows
            invariant
                self.wf(),
                other.wf(),
                rows == self.nrows(),
                cols == self.ncols(),
                rows == other.nrows(),
                cols == other.ncols(),
                i <= rows,
                data@.len() == i,
                forall|p: int| 0 <= p < i ==> (#[trigger] data@[p])@.len() == cols,
                forall|p: int, q: int|
                    0 <= p < i && 0 <= q < cols ==> data@[p]@[q] == self@[p][q].spec_sub(
                        other@[p][q].spec_mul(factor),
                    ),
            decreases rows - i,
        {
            let mut row: Vec<T> = Vec::new();
            let mut j: usize = 0;
            while j < cols
                invariant
                    self.wf(),
                    other.wf(),
                    rows == self.nrows(),
                    cols == self.ncols(),
                    rows == other.nrows(),
                    cols == other.ncols(),
                    i < rows,
                    j <= cols,
                    row@.len() == j,
                    forall|q: int|
                        0 <= q < j ==> row@[q] == self@[i as int][q].spec_sub(
                            other@[i as int][q].spec_mul(factor),
                        ),
                decreases cols - j,
            {
                row.push(self.get(i, j).sub_val(other.get(i, j).mul_val(factor)));
                j += 1;
            }
            data.push(row);
            i += 1;
        }
        Matrix { rows, cols, data }
    }
}

} // verus!
