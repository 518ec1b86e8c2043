use vstd::prelude::*;

use super::dim::Dim;
use super::item::MatrixItem;
use super::model::{
    byte_valued, dot, echelon, echelon_from, eliminate_below, first_nonzero, fold_rows, grid_of,
    lemma_first_nonzero, pivot_count, pivots_from, product, swap_rows_of,
};
use crate::util::random::random_in_range;

verus! {

proof fn lemma_flat_index(i: int, j: int, m: int, n: int)
    requires
        0 <= i < m,
        0 <= j < n,
    ensures
        0 <= i * n,
        0 <= i * n + j < m * n,
{
    assert(0 <= i * n) by (nonlinear_arith)
        requires
            0 <= i,
            0 <= n,
    ;
    assert(i * n + j < m * n) by (nonlinear_arith)
        requires
            0 <= i < m,
            0 <= j < n,
    ;
}

proof fn lemma_flat_index_unique(i1: int, j1: int, i2: int, j2: int, n: int)
    requires
        0 <= j1 < n,
        0 <= j2 < n,
        i1 * n + j1 == i2 * n + j2,
    ensures
        i1 == i2,
        j1 == j2,
{
    assert(i1 == i2) by (nonlinear_arith)
        requires
            0 <= j1 < n,
            0 <= j2 < n,
            i1 * n + j1 == i2 * n + j2,
    ;
}

proof fn lemma_grid_update<T>(data: Seq<T>, m: nat, n: nat, i: int, j: int, v: T)
    requires
        data.len() == m * n,
        0 <= i < m,
        0 <= j < n,
    ensures
        0 <= i * n + j < data.len(),
        grid_of(data.update(i * n + j, v), m, n) == grid_of(data, m, n).update(
            i,
            grid_of(data, m, n)[i].update(j, v),
        ),
{
    lemma_flat_index(i, j, m as int, n as int);
    let a = grid_of(data.update(i * n + j, v), m, n);
    let b = grid_of(data, m, n).update(i, grid_of(data, m, n)[i].update(j, v));
    assert forall|r: int, c: int| 0 <= r < m && 0 <= c < n implies #[trigger] a[r][c] == b[r][c] by {
        lemma_flat_index(r, c, m as int, n as int);
        if r * n + c == i * n + j {
            lemma_flat_index_unique(r, c, i, j, n as int);
        }
    }
    assert(a =~~= b);
}

/// A copy of row `i` of a matrix.
pub struct MatrixRow<T>(pub Vec<T>);

/// A copy of column `j` of a matrix.
pub struct MatrixColumn<T>(pub Vec<T>);

impl<T: MatrixItem> MatrixRow<T> {
    /// Adds `k` times `row` into this row, cell by cell, over the cells that
    /// both rows have; `row` is left as it is.
    pub fn fold(&mut self, row: &MatrixRow<T>, k: T)
        ensures
            final(self).0@.len() == old(self).0@.len(),
            forall|c: int|
                0 <= c < old(self).0@.len() ==> #[trigger] final(self).0@[c] == if c < row.0@.len() {
                    T::spec_add(old(self).0@[c], T::spec_mul(k, row.0@[c]))
                } else {
                    old(self).0@[c]
                },
    {
        let len = if self.0.len() < row.0.len() {
            self.0.len()
        } else {
            row.0.len()
        };
        let mut c: usize = 0;
        while c < len
            invariant
                c <= len,
                len <= self.0@.len(),
                len <= row.0@.len(),
                len == old(self).0@.len() || len == row.0@.len(),
                self.0@.len() == old(self).0@.len(),
                forall|x: int|
                    0 <= x < self.0@.len() ==> #[trigger] self.0@[x] == if x < c {
                        T::spec_add(old(self).0@[x], T::spec_mul(k, row.0@[x]))
                    } else {
                        old(self).0@[x]
                    },
            decreases len - c,
        {
            let v = T::add(self.0[c], T::mul(k, row.0[c]));
            self.0.set(c, v);
            c += 1;
        }
    }
}

/// Read access to the cells and the shape of a matrix.
pub trait MatrixRepr<T> {
    /// The cells, row by row.
    fn get_data(&self) -> &Vec<T>;

    /// The shape.
    fn get_dim(&self) -> Dim;
}

/// A dense matrix of `m` rows and `n` columns, stored row by row in one buffer.
pub struct Matrix<T> {
    data: Vec<T>,
    dim: Dim,
}

impl<T> View for Matrix<T> {
    type V = Seq<Seq<T>>;

    closed spec fn view(&self) -> Seq<Seq<T>> {
        grid_of(self.data@, self.dim.m as nat, self.dim.n as nat)
    }
}

/// Builds a zero-filled buffer with one cell for each position of `dim`.
fn new_empty_matrix_data<T: MatrixItem>(dim: &Dim) -> (r: Vec<T>)
    requires
        dim.m * dim.n <= usize::MAX,
    ensures
        r@.len() == dim.m * dim.n,
        forall|k: int| 0 <= k < r@.len() ==> r@[k] == T::spec_zero(),
{
    let total = dim.m * dim.n;
    let mut data: Vec<T> = Vec::with_capacity(total);
    let mut k: usize = 0;
    while k < total
        invariant
            k <= total,
            total == dim.m * dim.n,
            data@.len() == k,
            forall|x: int| 0 <= x < data@.len() ==> data@[x] == T::spec_zero(),
        decreases total - k,
    {
        data.push(T::zero());
        k += 1;
    }
    data
}

impl<T: MatrixItem> Matrix<T> {
    /// The buffer holds exactly one cell for each position of the shape.
    pub closed spec fn wf(&self) -> bool {
        &&& self.data@.len() == self.dim.m * self.dim.n
        &&& self.dim.m * self.dim.n <= usize::MAX
    }

    /// The shape of the matrix.
    pub closed spec fn shape(&self) -> Dim {
        self.dim
    }

    /// The model has one row for each row of the shape, each as long as the
    /// shape has columns.
    pub broadcast proof fn lemma_view_shape(&self)
        ensures
            #![trigger self@]
            self@.len() == self.shape().m,
            forall|i: int| 0 <= i < self@.len() ==> (#[trigger] self@[i]).len() == self.shape().n,
    {
    }

    /// A well-formed matrix has no more cells than a buffer can index.
    pub proof fn lemma_wf_size(&self)
        requires
            self.wf(),
        ensures
            self.shape().m * self.shape().n <= usize::MAX,
    {
    }

    /// A zero-filled matrix of shape `dim`.
    pub fn new(dim: Dim) -> (r: Self)
        requires
            dim.m * dim.n <= usize::MAX,
        ensures
            r.wf(),
            r.shape() == dim,
            forall|i: int, j: int|
                0 <= i < dim.m && 0 <= j < dim.n ==> #[trigger] r@[i][j] == T::spec_zero(),
    {
        let data = new_empty_matrix_data(&dim);
        let r = Matrix { data, dim };
        proof {
            assert forall|i: int, j: int| 0 <= i < dim.m && 0 <= j < dim.n implies #[trigger] r@[i][j]
                == T::spec_zero() by {
                lemma_flat_index(i, j, dim.m as int, dim.n as int);
            }
        }
        r
    }

    /// The cell at row `i`, column `j`.
    pub fn get(&self, i: usize, j: usize) -> (r: T)
        requires
            self.wf(),
            i < self.shape().m,
            j < self.shape().n,
        ensures
            r == self@[i as int][j as int],
    {
        proof {
            lemma_flat_index(i as int, j as int, self.dim.m as int, self.dim.n as int);
        }
        self.data[i * self.dim.n + j]
    }

    fn set(&mut self, i: usize, j: usize, v: T)
        requires
            old(self).wf(),
            i < old(self).shape().m,
            j < old(self).shape().n,
        ensures
            final(self).wf(),
            final(self).shape() == old(self).shape(),
            final(self)@ == old(self)@.update(i as int, old(self)@[i as int].update(j as int, v)),
    {
        proof {
            lemma_grid_update(
                self.data@,
                self.dim.m as nat,
                self.dim.n as nat,
                i as int,
                j as int,
                v,
            );
        }
        let idx = i * self.dim.n + j;
        self.data.set(idx, v);
    }
}

impl<T: MatrixItem> Matrix<T> {
    /// Adds `k` times row `from_idx` into row `to_idx`; all other rows, and
    /// row `from_idx` itself, stay as they were.
    pub fn fold_row(&mut self, to_idx: usize, from_idx: usize, k: T)
        requires
            old(self).wf(),
            to_idx < old(self).shape().m,
            from_idx < old(self).shape().m,
            to_idx != from_idx,
        ensures
            final(self).wf(),
            final(self).shape() == old(self).shape(),
            final(self)@ == fold_rows(old(self)@, to_idx as int, from_idx as int, k),
    {
        let n = self.dim.n;
        let ghost g0 = self@;
        let mut c: usize = 0;
        while c < n
            invariant
                self.wf(),
                self.shape() == old(self).shape(),
                g0 == old(self)@,
                n == self.shape().n,
                to_idx < self.shape().m,
                from_idx < self.shape().m,
                to_idx != from_idx,
                c <= n,
                self@.len() == g0.len(),
                forall|r: int| 0 <= r < g0.len() && r != to_idx ==> #[trigger] self@[r] == g0[r],
                self@[to_idx as int].len() == n,
                forall|x: int|
                    0 <= x < n ==> #[trigger] self@[to_idx as int][x] == if x < c {
                        T::spec_add(g0[to_idx as int][x], T::spec_mul(k, g0[from_idx as int][x]))
                    } else {
                        g0[to_idx as int][x]
                    },
            decreases n - c,
        {
            let a = self.get(to_idx, c);
            let b = self.get(from_idx, c);
            let v = T::add(a, T::mul(k, b));
            self.set(to_idx, c, v);
            c += 1;
        }
        assert(self@ =~~= fold_rows(g0, to_idx as int, from_idx as int, k));
    }

    /// Exchanges rows `lhs` and `rhs`, cell by cell.
    pub fn swap_rows(&mut self, lhs: usize, rhs: usize)
        requires
            old(self).wf(),
            lhs < old(self).shape().m,
            rhs < old(self).shape().m,
        ensures
            final(self).wf(),
            final(self).shape() == old(self).shape(),
            final(self)@ == swap_rows_of(old(self)@, lhs as int, rhs as int),
    {
        let ghost g0 = self@;
        if lhs == rhs {
            assert(swap_rows_of(g0, lhs as int, rhs as int) =~~= g0);
            return;
        }
        let n = self.dim.n;
        let mut c: usize = 0;
        while c < n
            invariant
                self.wf(),
                self.shape() == old(self).shape(),
                g0 == old(self)@,
                n == self.shape().n,
                lhs < self.shape().m,
                rhs < self.shape().m,
                lhs != rhs,
                c <= n,
                self@.len() == g0.len(),
                forall|r: int|
                    0 <= r < g0.len() && r != lhs && r != rhs ==> #[trigger] self@[r] == g0[r],
                self@[lhs as int].len() == n,
                self@[rhs as int].len() == n,
                forall|x: int|
                    0 <= x < n ==> #[trigger] self@[lhs as int][x] == if x < c {
                        g0[rhs as int][x]
                    } else {
                        g0[lhs as int][x]
                    },
                forall|x: int|
                    0 <= x < n ==> #[trigger] self@[rhs as int][x] == if x < c {
                        g0[lhs as int][x]
                    } else {
                        g0[rhs as int][x]
                    },
            decreases n - c,
        {
            let a = self.get(lhs, c);
            let b = self.get(rhs, c);
            self.set(lhs, c, b);
            self.set(rhs, c, a);
            c += 1;
        }
        assert(self@ =~~= swap_rows_of(g0, lhs as int, rhs as int));
    }
}

impl<T: MatrixItem> Matrix<T> {
    /// Row echelon form by forward elimination, column by column from the
    /// left. In each column the first row with a non-zero cell, at or below
    /// the next pivot row, becomes the pivot (swapped up if need be), and
    /// every row below it gets the pivot row times minus its cell over the
    /// pivot. A column without such a row is skipped.
    pub fn to_echelon_form(self) -> (r: Self)
        requires
            self.wf(),
        ensures
            r.wf(),
            r.shape() == self.shape(),
            r@ == echelon(self@, self.shape().n as int),
    {
        let (reduced, _) = self.reduce();
        reduced
    }

    /// A reduced copy (as `to_echelon_form` gives it) together with the
    /// number of pivots the reduction found, which is the rank for cells
    /// whose arithmetic is exact.
    pub fn as_echelon_form(&self) -> (r: (Self, usize))
        requires
            self.wf(),
        ensures
            r.0.wf(),
            r.0.shape() == self.shape(),
            r.0@ == echelon(self@, self.shape().n as int),
            r.1 == pivot_count(self@, self.shape().n as int),
    {
        self.duplicate().reduce()
    }

    fn reduce(self) -> (r: (Self, usize))
        requires
            self.wf(),
        ensures
            r.0.wf(),
            r.0.shape() == self.shape(),
            r.0@ == echelon(self@, self.shape().n as int),
            r.1 == pivot_count(self@, self.shape().n as int),
    {
        let mut g = self;
        let m = g.dim.m;
        let n = g.dim.n;
        let mut p: usize = 0;
        let mut col: usize = 0;
        while col < n
            invariant
                g.wf(),
                g.shape() == self.shape(),
                m == g.shape().m,
                n == g.shape().n,
                col <= n,
                p <= m,
                echelon_from(g@, n as int, col as int, p as int) == echelon(
                    self@,
                    self.shape().n as int,
                ),
                pivots_from(g@, n as int, col as int, p as int) == pivot_count(
                    self@,
                    self.shape().n as int,
                ),
            decreases n - col,
        {
            let ghost before = g@;
            let mut j: usize = p;
            let mut pivot: Option<usize> = None;
            while j < m && pivot.is_none()
                invariant
                    g@ == before,
                    g.wf(),
                    g.shape() == self.shape(),
                    m == g.shape().m,
                    n == g.shape().n,
                    col < n,
                    p <= j <= m,
                    pivot is None ==> first_nonzero(before, col as int, p as int) == first_nonzero(
                        before,
                        col as int,
                        j as int,
                    ),
                    pivot matches Some(r) ==> first_nonzero(before, col as int, p as int) == Some(
                        r as int,
                    ),
                decreases m - j + if pivot is None {
                    1int
                } else {
                    0int
                },
            {
                if !g.get(j, col).is_zero() {
                    pivot = Some(j);
                } else {
                    j += 1;
                }
            }
            match pivot {
                None => {},
                Some(r) => {
                    proof {
                        lemma_first_nonzero(before, col as int, p as int);
                    }
                    if r != p {
                        g.swap_rows(r, p);
                    }
                    let ghost g1 = g@;
                    let pivot_el = g.get(p, col);
                    let mut j: usize = p + 1;
                    while j < m
                        invariant
                            g.wf(),
                            g.shape() == self.shape(),
                            m == g.shape().m,
                            n == g.shape().n,
                            col < n,
                            p < m,
                            p + 1 <= j <= m,
                            g1.len() == m,
                            g@[p as int] == g1[p as int],
                            pivot_el == g@[p as int][col as int],
                            !T::spec_is_zero(pivot_el),
                            eliminate_below(g@, p as int, col as int, j as int) == eliminate_below(
                                g1,
                                p as int,
                                col as int,
                                p + 1,
                            ),
                        decreases m - j,
                    {
                        let factor = T::div(g.get(j, col), pivot_el);
                        g.fold_row(j, p, T::neg(factor));
                        j += 1;
                    }
                    p += 1;
                },
            }
            col += 1;
        }
        (g, p)
    }
}

impl<T: MatrixItem> Matrix<T> {
    /// The shape of the matrix.
    pub fn get_dim(&self) -> (r: Dim)
        ensures
            r == self.shape(),
    {
        self.dim
    }

    /// The cells, row by row.
    pub fn get_data(&self) -> (r: &Vec<T>)
        ensures
            self.wf() ==> r@.len() == self.shape().m * self.shape().n,
            forall|i: int, j: int|
                0 <= i < self.shape().m && 0 <= j < self.shape().n ==> r@[i * self.shape().n + j]
                    == #[trigger] self@[i][j],
    {
        &self.data
    }

    /// A copy of row `row_i`.
    pub fn row(&self, row_i: usize) -> (r: MatrixRow<T>)
        requires
            self.wf(),
            row_i < self.shape().m,
        ensures
            r.0@ == self@[row_i as int],
    {
        let n = self.dim.n;
        let mut v: Vec<T> = Vec::with_capacity(n);
        let mut c: usize = 0;
        while c < n
            invariant
                self.wf(),
                n == self.shape().n,
                row_i < self.shape().m,
                c <= n,
                v@ == self@[row_i as int].subrange(0, c as int),
            decreases n - c,
        {
            v.push(self.get(row_i, c));
            c += 1;
            assert(v@ =~= self@[row_i as int].subrange(0, c as int));
        }
        assert(v@ =~= self@[row_i as int]);
        MatrixRow(v)
    }

    /// A copy of column `col_i`, top to bottom.
    pub fn col(&self, col_i: usize) -> (r: MatrixColumn<T>)
        requires
            self.wf(),
            col_i < self.shape().n,
        ensures
            r.0@ == Seq::new(self.shape().m as nat, |i: int| self@[i][col_i as int]),
    {
        let m = self.dim.m;
        let mut v: Vec<T> = Vec::with_capacity(m);
        let mut i: usize = 0;
        while i < m
            invariant
                self.wf(),
                m == self.shape().m,
                col_i < self.shape().n,
                i <= m,
                v@.len() == i,
                forall|x: int| 0 <= x < i ==> #[trigger] v@[x] == self@[x][col_i as int],
            decreases m - i,
        {
            v.push(self.get(i, col_i));
            i += 1;
        }
        assert(v@ =~= Seq::new(self.shape().m as nat, |i: int| self@[i][col_i as int]));
        MatrixColumn(v)
    }

    /// Sets every cell to `value`.
    pub fn fill(&mut self, value: T)
        requires
            old(self).wf(),
        ensures
            final(self).wf(),
            final(self).shape() == old(self).shape(),
            forall|i: int, j: int|
                0 <= i < final(self).shape().m && 0 <= j < final(self).shape().n
                    ==> #[trigger] final(self)@[i][j] == value,
    {
        let m = self.dim.m;
        let n = self.dim.n;
        let mut i: usize = 0;
        while i < m
            invariant
                self.wf(),
                self.shape() == old(self).shape(),
                m == self.shape().m,
                n == self.shape().n,
                i <= m,
                forall|r: int, c: int| 0 <= r < i && 0 <= c < n ==> #[trigger] self@[r][c] == value,
            decreases m - i,
        {
            let mut j: usize = 0;
            while j < n
                invariant
                    self.wf(),
                    self.shape() == old(self).shape(),
                    m == self.shape().m,
                    n == self.shape().n,
                    i < m,
                    j <= n,
                    forall|r: int, c: int|
                        0 <= r < i && 0 <= c < n ==> #[trigger] self@[r][c] == value,
                    forall|c: int| 0 <= c < j ==> #[trigger] self@[i as int][c] == value,
                decreases n - j,
            {
                self.set(i, j, value);
                j += 1;
            }
            i += 1;
        }
    }

    /// Sets every cell to a whole number drawn on its own from `[min, max)`.
    pub fn fill_random_in_range(&mut self, min: u8, max: u8)
        requires
            old(self).wf(),
            min < max,
        ensures
            final(self).wf(),
            final(self).shape() == old(self).shape(),
            forall|i: int, j: int|
                0 <= i < final(self).shape().m && 0 <= j < final(self).shape().n ==> byte_valued(
                    #[trigger] final(self)@[i][j],
                    min,
                    max,
                ),
    {
        let m = self.dim.m;
        let n = self.dim.n;
        let mut i: usize = 0;
        while i < m
            invariant
                self.wf(),
                self.shape() == old(self).shape(),
                m == self.shape().m,
                n == self.shape().n,
                min < max,
                i <= m,
                forall|r: int, c: int|
                    0 <= r < i && 0 <= c < n ==> byte_valued(#[trigger] self@[r][c], min, max),
            decreases m - i,
        {
            let mut j: usize = 0;
            while j < n
                invariant
                    self.wf(),
                    self.shape() == old(self).shape(),
                    m == self.shape().m,
                    n == self.shape().n,
                    min < max,
                    i < m,
                    j <= n,
                    forall|r: int, c: int|
                        0 <= r < i && 0 <= c < n ==> byte_valued(#[trigger] self@[r][c], min, max),
                    forall|c: int|
                        0 <= c < j ==> byte_valued(#[trigger] self@[i as int][c], min, max),
                decreases n - j,
            {
                let b = random_in_range(min, max);
                let v = T::from_byte(b);
                assert(byte_valued(v, min, max));
                self.set(i, j, v);
                j += 1;
            }
            i += 1;
        }
    }

    /// Sets each cell `(i, j)` to `f(i, j)`, row by row.
    pub fn fill_fn<F: Fn(usize, usize) -> T>(&mut self, f: F)
        requires
            old(self).wf(),
            forall|i: usize, j: usize| f.requires((i, j)),
        ensures
            final(self).wf(),
            final(self).shape() == old(self).shape(),
            forall|i: usize, j: usize|
                i < final(self).shape().m && j < final(self).shape().n ==> f.ensures(
                    (i, j),
                    #[trigger] final(self)@[i as int][j as int],
                ),
    {
        let m = self.dim.m;
        let n = self.dim.n;
        let mut i: usize = 0;
        while i < m
            invariant
                self.wf(),
                self.shape() == old(self).shape(),
                m == self.shape().m,
                n == self.shape().n,
                i <= m,
                forall|i: usize, j: usize| f.requires((i, j)),
                forall|r: usize, c: usize|
                    r < i && c < n ==> f.ensures((r, c), #[trigger] self@[r as int][c as int]),
            decreases m - i,
        {
            let mut j: usize = 0;
            while j < n
                invariant
                    self.wf(),
                    self.shape() == old(self).shape(),
                    m == self.shape().m,
                    n == self.shape().n,
                    i < m,
                    j <= n,
                    forall|i: usize, j: usize| f.requires((i, j)),
                    forall|r: usize, c: usize|
                        r < i && c < n ==> f.ensures((r, c), #[trigger] self@[r as int][c as int]),
                    forall|c: usize| c < j ==> f.ensures((i, c), #[trigger] self@[i as int][c as int]),
                decreases n - j,
            {
                let v = f(i, j);
                self.set(i, j, v);
                j += 1;
            }
            i += 1;
        }
    }

    /// A copy of the matrix.
    pub fn duplicate(&self) -> (r: Self)
        requires
            self.wf(),
        ensures
            r.wf(),
            r.shape() == self.shape(),
            r@ == self@,
    {
        let len = self.data.len();
        let mut data: Vec<T> = Vec::with_capacity(len);
        let mut k: usize = 0;
        while k < len
            invariant
                self.wf(),
                len == self.data@.len(),
                k <= len,
                data@ == self.data@.subrange(0, k as int),
            decreases len - k,
        {
            data.push(self.data[k]);
            k += 1;
            assert(data@ =~= self.data@.subrange(0, k as int));
        }
        assert(data@ =~= self.data@);
        Matrix { data, dim: self.dim }
    }

    /// The product `self * rhs`, or `None` when the column count of `self`
    /// differs from the row count of `rhs`.
    pub fn multiply(&self, rhs: &Matrix<T>) -> (r: Option<Matrix<T>>)
        requires
            self.wf(),
            rhs.wf(),
            self.shape().m * rhs.shape().n <= usize::MAX,
        ensures
            r is None <==> self.shape().n != rhs.shape().m,
            r matches Some(p) ==> {
                &&& p.wf()
                &&& p.shape() == Dim { m: self.shape().m, n: rhs.shape().n }
                &&& p@ == product(
                    self@,
                    rhs@,
                    self.shape().m as nat,
                    self.shape().n as nat,
                    rhs.shape().n as nat,
                )
            },
    {
        let m1 = self.dim.m;
        let n1 = self.dim.n;
        let m2 = rhs.dim.m;
        let n2 = rhs.dim.n;
        if n1 != m2 {
            return None;
        }
        let mut out = Matrix::new(Dim { m: m1, n: n2 });
        let mut i: usize = 0;
        while i < m1
            invariant
                self.wf(),
                rhs.wf(),
                out.wf(),
                out.shape() == (Dim { m: m1, n: n2 }),
                m1 == self.shape().m,
                n1 == self.shape().n,
                m2 == rhs.shape().m,
                n2 == rhs.shape().n,
                n1 == m2,
                i <= m1,
                forall|r: int, c: int|
                    0 <= r < i && 0 <= c < n2 ==> #[trigger] out@[r][c] == dot(
                        self@,
                        rhs@,
                        r,
                        c,
                        n1 as nat,
                    ),
            decreases m1 - i,
        {
            let mut j: usize = 0;
            while j < n2
                invariant
                    self.wf(),
                    rhs.wf(),
                    out.wf(),
                    out.shape() == (Dim { m: m1, n: n2 }),
                    m1 == self.shape().m,
                    n1 == self.shape().n,
                    m2 == rhs.shape().m,
                    n2 == rhs.shape().n,
                    n1 == m2,
                    i < m1,
                    j <= n2,
                    forall|r: int, c: int|
                        0 <= r < i && 0 <= c < n2 ==> #[trigger] out@[r][c] == dot(
                            self@,
                            rhs@,
                            r,
                            c,
                            n1 as nat,
                        ),
                    forall|c: int|
                        0 <= c < j ==> #[trigger] out@[i as int][c] == dot(
                            self@,
                            rhs@,
                            i as int,
                            c,
                            n1 as nat,
                        ),
                decreases n2 - j,
            {
                let mut acc = T::zero();
                let mut k: usize = 0;
                while k < n1
                    invariant
                        self.wf(),
                        rhs.wf(),
                        m1 == self.shape().m,
                        n1 == self.shape().n,
                        m2 == rhs.shape().m,
                        n2 == rhs.shape().n,
                        n1 == m2,
                        i < m1,
                        j < n2,
                        k <= n1,
                        acc == dot(self@, rhs@, i as int, j as int, k as nat),
                    decreases n1 - k,
                {
                    acc = T::add(acc, T::mul(self.get(i, k), rhs.get(k, j)));
                    k += 1;
                }
                out.set(i, j, acc);
                j += 1;
            }
            i += 1;
        }
        assert(out@ =~~= product(self@, rhs@, m1 as nat, n1 as nat, n2 as nat));
        Some(out)
    }
}

impl<T: MatrixItem> MatrixRepr<T> for Matrix<T> {
    fn get_data(&self) -> &Vec<T> {
        &self.data
    }

    fn get_dim(&self) -> Dim {
        self.dim
    }
}

} // verus!
