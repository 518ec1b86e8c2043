use vstd::prelude::*;

use super::item::MatrixItem;

verus! {

/// The cells of a row-major buffer, seen as `m` rows of `n` cells each.
pub open spec fn grid_of<T>(data: Seq<T>, m: nat, n: nat) -> Seq<Seq<T>> {
    Seq::new(m, |i: int| Seq::new(n, |j: int| data[i * n + j]))
}

/// Row `to` plus `k` times row `from`; every other row as it was.
pub open spec fn fold_rows<T: MatrixItem>(g: Seq<Seq<T>>, to: int, from: int, k: T) -> Seq<Seq<T>> {
    g.update(
        to,
        Seq::new(g[to].len(), |c: int| T::spec_add(g[to][c], T::spec_mul(k, g[from][c]))),
    )
}

/// Folding row `from` into row `to` changes row `to` alone: each of its
/// cells gains `k` times the cell of row `from` in the same column, and row
/// `from`, like every other row, keeps its cells.
pub proof fn lemma_fold_rows_frame<T: MatrixItem>(g: Seq<Seq<T>>, to: int, from: int, k: T)
    requires
        0 <= to < g.len(),
        0 <= from < g.len(),
        to != from,
    ensures
        fold_rows(g, to, from, k).len() == g.len(),
        fold_rows(g, to, from, k)[from] == g[from],
        forall|r: int| 0 <= r < g.len() && r != to ==> #[trigger] fold_rows(g, to, from, k)[r] == g[r],
        fold_rows(g, to, from, k)[to].len() == g[to].len(),
        forall|c: int|
            0 <= c < g[to].len() ==> #[trigger] fold_rows(g, to, from, k)[to][c] == T::spec_add(
                g[to][c],
                T::spec_mul(k, g[from][c]),
            ),
{
}

/// `v` is the cell value of some whole number in `[min, max)`.
pub open spec fn byte_valued<T: MatrixItem>(v: T, min: u8, max: u8) -> bool {
    exists|b: u8| min <= b < max && v == T::spec_from_byte(b)
}

/// Rows `a` and `b` exchanged.
pub open spec fn swap_rows_of<T>(g: Seq<Seq<T>>, a: int, b: int) -> Seq<Seq<T>> {
    g.update(a, g[b]).update(b, g[a])
}

/// The first row at or below `from` whose cell in column `col` is not zero.
pub open spec fn first_nonzero<T: MatrixItem>(g: Seq<Seq<T>>, col: int, from: int) -> Option<int>
    decreases g.len() - from,
{
    if from < 0 || from >= g.len() {
        None
    } else if !T::spec_is_zero(g[from][col]) {
        Some(from)
    } else {
        first_nonzero(g, col, from + 1)
    }
}

/// Clears column `col` under the pivot of row `p`, from row `j` down: each such
/// row gets the pivot row times minus its cell over the pivot.
pub open spec fn eliminate_below<T: MatrixItem>(g: Seq<Seq<T>>, p: int, col: int, j: int) -> Seq<Seq<T>>
    decreases g.len() - j,
{
    if j < 0 || j >= g.len() {
        g
    } else {
        let factor = T::spec_div(g[j][col], g[p][col]);
        eliminate_below(fold_rows(g, j, p, T::spec_neg(factor)), p, col, j + 1)
    }
}

/// Row reduction from column `col` on, with the next pivot going to row `p`.
pub open spec fn echelon_from<T: MatrixItem>(g: Seq<Seq<T>>, n: int, col: int, p: int) -> Seq<Seq<T>>
    decreases n - col,
{
    if col < 0 || col >= n {
        g
    } else {
        match first_nonzero(g, col, p) {
            None => echelon_from(g, n, col + 1, p),
            Some(r) => {
                let g1 = if r != p {
                    swap_rows_of(g, r, p)
                } else {
                    g
                };
                echelon_from(eliminate_below(g1, p, col, p + 1), n, col + 1, p + 1)
            },
        }
    }
}

/// The row echelon form that forward elimination gives on a grid of `n` columns.
pub open spec fn echelon<T: MatrixItem>(g: Seq<Seq<T>>, n: int) -> Seq<Seq<T>> {
    echelon_from(g, n, 0, 0)
}

/// The number of pivots that reduction from column `col` on finds, counted
/// on from `p`.
pub open spec fn pivots_from<T: MatrixItem>(g: Seq<Seq<T>>, n: int, col: int, p: int) -> int
    decreases n - col,
{
    if col < 0 || col >= n {
        p
    } else {
        match first_nonzero(g, col, p) {
            None => pivots_from(g, n, col + 1, p),
            Some(r) => {
                let g1 = if r != p {
                    swap_rows_of(g, r, p)
                } else {
                    g
                };
                pivots_from(eliminate_below(g1, p, col, p + 1), n, col + 1, p + 1)
            },
        }
    }
}

/// The number of pivots that forward elimination finds on a grid of `n`
/// columns.
pub open spec fn pivot_count<T: MatrixItem>(g: Seq<Seq<T>>, n: int) -> int {
    pivots_from(g, n, 0, 0)
}

/// Sum over `k` below `len` of `a[i][k] * b[k][j]`, added up from `k = 0`.
pub open spec fn dot<T: MatrixItem>(a: Seq<Seq<T>>, b: Seq<Seq<T>>, i: int, j: int, len: nat) -> T
    decreases len,
{
    if len == 0 {
        T::spec_zero()
    } else {
        T::spec_add(
            dot(a, b, i, j, (len - 1) as nat),
            T::spec_mul(a[i][len - 1], b[len - 1][j]),
        )
    }
}

/// The matrix product of `a` (`m` by `n`) and `b` (`n` by `p`).
pub open spec fn product<T: MatrixItem>(a: Seq<Seq<T>>, b: Seq<Seq<T>>, m: nat, n: nat, p: nat) -> Seq<Seq<T>> {
    Seq::new(m, |i: int| Seq::new(p, |j: int| dot(a, b, i, j, n)))
}

/// A row that the pivot search finds lies in range, at or below where the
/// search started, and has a non-zero cell in the column.
pub proof fn lemma_first_nonzero<T: MatrixItem>(g: Seq<Seq<T>>, col: int, from: int)
    ensures
        first_nonzero(g, col, from) matches Some(r) ==> 0 <= from <= r < g.len()
            && !T::spec_is_zero(g[r][col]),
    decreases g.len() - from,
{
    if 0 <= from < g.len() && T::spec_is_zero(g[from][col]) {
        lemma_first_nonzero(g, col, from + 1);
    }
}

} // verus!
