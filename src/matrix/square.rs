use vstd::prelude::*;

use super::dense::{Matrix, MatrixColumn, MatrixRepr, MatrixRow};
use super::model::{byte_valued, echelon, fold_rows, product, swap_rows_of};
use super::dim::Dim;
use super::item::MatrixItem;
use crate::util::error::Error;

verus! {

broadcast use Matrix::lemma_view_shape;

/// Product of the first `k` cells of the main diagonal, multiplied up from
/// one in order.
pub open spec fn diag_product<T: MatrixItem>(g: Seq<Seq<T>>, k: nat) -> T
    decreases k,
{
    if k == 0 {
        T::spec_one()
    } else {
        T::spec_mul(diag_product(g, (k - 1) as nat), g[k - 1][k - 1])
    }
}

/// A matrix whose row and column counts are both `size`.
pub struct SquareMatrix<T> {
    matrix: Matrix<T>,
    size: usize,
}

impl<T> View for SquareMatrix<T> {
    type V = Seq<Seq<T>>;

    closed spec fn view(&self) -> Seq<Seq<T>> {
        self.matrix@
    }
}

impl<T: MatrixItem> SquareMatrix<T> {
    /// The cells are stored in a well-formed matrix of `size` by `size`.
    pub closed spec fn wf(&self) -> bool {
        &&& self.matrix.wf()
        &&& self.matrix.shape() == (Dim { m: self.size, n: self.size })
    }

    /// The number of rows, which is also the number of columns.
    pub closed spec fn size_spec(&self) -> nat {
        self.size as nat
    }

    /// The model of a well-formed square matrix has `size` rows of `size`
    /// cells each.
    pub broadcast proof fn lemma_square_view_shape(&self)
        requires
            self.wf(),
        ensures
            #![trigger self@]
            self@.len() == self.size_spec(),
            forall|i: int| 0 <= i < self@.len() ==> (#[trigger] self@[i]).len() == self.size_spec(),
    {
    }

    /// A zero-filled matrix of `size` by `size`.
    pub fn new(size: usize) -> (r: Self)
        requires
            size * size <= usize::MAX,
        ensures
            r.wf(),
            r.size_spec() == size,
            forall|i: int, j: int|
                0 <= i < size && 0 <= j < size ==> #[trigger] r@[i][j] == T::spec_zero(),
    {
        SquareMatrix { matrix: Matrix::new(Dim { m: size, n: size }), size }
    }

    pub fn get_size(&self) -> (r: usize)
        ensures
            r == self.size_spec(),
    {
        self.size
    }

    /// The shape, `size` by `size`.
    pub fn get_dim(&self) -> (r: Dim)
        requires
            self.wf(),
        ensures
            r == (Dim { m: self.size_spec() as usize, n: self.size_spec() as usize }),
    {
        Dim { m: self.size, n: self.size }
    }

    /// The cells, row by row.
    pub fn get_data(&self) -> (r: &Vec<T>)
        requires
            self.wf(),
        ensures
            r@.len() == self.size_spec() * self.size_spec(),
            forall|i: int, j: int|
                0 <= i < self.size_spec() && 0 <= j < self.size_spec() ==> r@[i * self.size_spec()
                    + j] == #[trigger] self@[i][j],
    {
        self.matrix.get_data()
    }

    /// The cell at row `i`, column `j`.
    pub fn get(&self, i: usize, j: usize) -> (r: T)
        requires
            self.wf(),
            i < self.size_spec(),
            j < self.size_spec(),
        ensures
            r == self@[i as int][j as int],
    {
        self.matrix.get(i, j)
    }

    /// A copy of row `row_i`.
    pub fn row(&self, row_i: usize) -> (r: MatrixRow<T>)
        requires
            self.wf(),
            row_i < self.size_spec(),
        ensures
            r.0@ == self@[row_i as int],
    {
        self.matrix.row(row_i)
    }

    /// A copy of column `col_i`, top to bottom.
    pub fn col(&self, col_i: usize) -> (r: MatrixColumn<T>)
        requires
            self.wf(),
            col_i < self.size_spec(),
        ensures
            r.0@ == Seq::new(self.size_spec(), |i: int| self@[i][col_i as int]),
    {
        self.matrix.col(col_i)
    }

    /// Adds `k` times row `from_idx` into row `to_idx`.
    pub fn fold_row(&mut self, to_idx: usize, from_idx: usize, k: T)
        requires
            old(self).wf(),
            to_idx < old(self).size_spec(),
            from_idx < old(self).size_spec(),
            to_idx != from_idx,
        ensures
            final(self).wf(),
            final(self).size_spec() == old(self).size_spec(),
            final(self)@ == fold_rows(old(self)@, to_idx as int, from_idx as int, k),
    {
        self.matrix.fold_row(to_idx, from_idx, k);
    }

    /// Exchanges rows `lhs` and `rhs`.
    pub fn swap_rows(&mut self, lhs: usize, rhs: usize)
        requires
            old(self).wf(),
            lhs < old(self).size_spec(),
            rhs < old(self).size_spec(),
        ensures
            final(self).wf(),
            final(self).size_spec() == old(self).size_spec(),
            final(self)@ == swap_rows_of(old(self)@, lhs as int, rhs as int),
    {
        self.matrix.swap_rows(lhs, rhs);
    }

    /// Sets every cell to `value`.
    pub fn fill(&mut self, value: T)
        requires
            old(self).wf(),
        ensures
            final(self).wf(),
            final(self).size_spec() == old(self).size_spec(),
            forall|i: int, j: int|
                0 <= i < final(self).size_spec() && 0 <= j < final(self).size_spec()
                    ==> #[trigger] final(self)@[i][j] == value,
    {
        self.matrix.fill(value);
    }

    /// Sets every cell to a whole number drawn on its own from `[min, max)`.
    pub fn fill_random_in_range(&mut self, min: u8, max: u8)
        requires
            old(self).wf(),
            min < max,
        ensures
            final(self).wf(),
            final(self).size_spec() == old(self).size_spec(),
            forall|i: int, j: int|
                0 <= i < final(self).size_spec() && 0 <= j < final(self).size_spec()
                    ==> byte_valued(#[trigger] final(self)@[i][j], min, max),
    {
        self.matrix.fill_random_in_range(min, max);
    }

    /// Sets each cell `(i, j)` to `f(i, j)`, row by row.
    pub fn fill_fn<F: Fn(usize, usize) -> T>(&mut self, f: F)
        requires
            old(self).wf(),
            forall|i: usize, j: usize| f.requires((i, j)),
        ensures
            final(self).wf(),
            final(self).size_spec() == old(self).size_spec(),
            forall|i: usize, j: usize|
                i < final(self).size_spec() && j < final(self).size_spec() ==> f.ensures(
                    (i, j),
                    #[trigger] final(self)@[i as int][j as int],
                ),
    {
        self.matrix.fill_fn(f);
    }

    /// Row echelon form by forward elimination (see `Matrix::to_echelon_form`).
    pub fn to_echelon_form(self) -> (r: Self)
        requires
            self.wf(),
        ensures
            r.wf(),
            r.size_spec() == self.size_spec(),
            r@ == echelon(self@, self.size_spec() as int),
    {
        let size = self.size;
        SquareMatrix { matrix: self.matrix.to_echelon_form(), size }
    }

    /// The product `self * rhs`; two square matrices of one size always fit.
    pub fn multiply(&self, rhs: &Self) -> (r: Option<Matrix<T>>)
        requires
            self.wf(),
            rhs.wf(),
        ensures
            r is None <==> self.size_spec() != rhs.size_spec(),
            r matches Some(p) ==> {
                &&& p.wf()
                &&& p.shape() == Dim {
                    m: self.size_spec() as usize,
                    n: rhs.size_spec() as usize,
                }
                &&& p@ == product(
                    self@,
                    rhs@,
                    self.size_spec(),
                    self.size_spec(),
                    rhs.size_spec(),
                )
            },
    {
        if self.size != rhs.size {
            return None;
        }
        proof {
            self.matrix.lemma_wf_size();
        }
        self.matrix.multiply(&rhs.matrix)
    }

    /// The cells `(i, i)`, top left to bottom right.
    pub fn get_main_diagonal(&self) -> (r: Vec<T>)
        requires
            self.wf(),
        ensures
            r@ == Seq::new(self.size_spec(), |i: int| self@[i][i]),
    {
        let mut v: Vec<T> = Vec::with_capacity(self.size);
        let mut i: usize = 0;
        while i < self.size
            invariant
                self.wf(),
                i <= self.size,
                v@.len() == i,
                forall|x: int| 0 <= x < i ==> #[trigger] v@[x] == self@[x][x],
            decreases self.size - i,
        {
            v.push(self.matrix.get(i, i));
            i += 1;
        }
        assert(v@ =~= Seq::new(self.size_spec(), |i: int| self@[i][i]));
        v
    }

    /// The determinant, taken as the product of the main diagonal of the row
    /// echelon form. Row exchanges made during the reduction do not change
    /// the sign of the result: for a matrix that needs one, the value is the
    /// determinant up to sign.
    pub fn det(&self) -> (r: T)
        requires
            self.wf(),
        ensures
            r == diag_product(echelon(self@, self.size_spec() as int), self.size_spec()),
    {
        let reduced = SquareMatrix { matrix: self.matrix.duplicate(), size: self.size }.to_echelon_form();
        let diagonal = reduced.get_main_diagonal();
        let mut acc = T::one();
        let mut i: usize = 0;
        while i < diagonal.len()
            invariant
                diagonal@ == Seq::new(self.size_spec(), |i: int| reduced@[i][i]),
                i <= diagonal@.len(),
                acc == diag_product(reduced@, i as nat),
            decreases diagonal@.len() - i,
        {
            acc = T::mul(acc, diagonal[i]);
            i += 1;
        }
        acc
    }

    /// The same cells, seen as a general matrix of `size` by `size`.
    pub fn into_matrix(self) -> (r: Matrix<T>)
        requires
            self.wf(),
        ensures
            r.wf(),
            r.shape() == (Dim { m: self.size_spec() as usize, n: self.size_spec() as usize }),
            r@ == self@,
    {
        self.matrix
    }

    /// Narrows a general matrix to a square one; fails with
    /// `Error::ShapeMismatch` when its row and column counts differ.
    pub fn try_from_matrix(value: Matrix<T>) -> (r: Result<Self, Error>)
        requires
            value.wf(),
        ensures
            r is Ok <==> value.shape().m == value.shape().n,
            r matches Ok(s) ==> s.wf() && s.size_spec() == value.shape().m && s@ == value@,
            r matches Err(e) ==> e == Error::ShapeMismatch,
    {
        let dim = value.get_dim();
        if dim.is_square() {
            Ok(SquareMatrix { matrix: value, size: dim.m })
        } else {
            Err(Error::ShapeMismatch)
        }
    }

    /// Narrows a copy of a general matrix to a square one (see
    /// `try_from_matrix`).
    pub fn try_from_matrix_ref(value: &Matrix<T>) -> (r: Result<Self, Error>)
        requires
            value.wf(),
        ensures
            r is Ok <==> value.shape().m == value.shape().n,
            r matches Ok(s) ==> s.wf() && s.size_spec() == value.shape().m && s@ == value@,
            r matches Err(e) ==> e == Error::ShapeMismatch,
    {
        SquareMatrix::try_from_matrix(value.duplicate())
    }
}

impl<T: MatrixItem> MatrixRepr<T> for SquareMatrix<T> {
    fn get_data(&self) -> &Vec<T> {
        self.matrix.get_data()
    }

    fn get_dim(&self) -> Dim {
        Dim { m: self.size, n: self.size }
    }
}

} // verus!
