use vstd::prelude::*;

use super::model::{
    echelon, echelon_from, eliminate_below, first_nonzero, fold_rows, lemma_first_nonzero,
    swap_rows_of,
};
use super::item::MatrixItem;

verus! {

/// Every row of `g` has `n` cells.
pub open spec fn rows_have_len<T>(g: Seq<Seq<T>>, n: int) -> bool {
    forall|i: int| 0 <= i < g.len() ==> #[trigger] g[i].len() == n
}

/// The cell arithmetic eliminates without rounding: subtracting a row times
/// its own quotient clears the cell, folds between zero cells stay zero, and
/// folding by the quotient of a zero cell changes nothing. Rationals have
/// this; floating point (rounding) and integers (truncating division) do not.
pub open spec fn exact_elimination<T: MatrixItem>() -> bool {
    &&& forall|z: T, p: T, y: T, w: T|
        T::spec_is_zero(z) && !T::spec_is_zero(p) ==> #[trigger] T::spec_add(
            y,
            T::spec_mul(T::spec_neg(T::spec_div(z, p)), w),
        ) == y
    &&& forall|a: T, b: T, k: T|
        T::spec_is_zero(a) && T::spec_is_zero(b) ==> T::spec_is_zero(
            #[trigger] T::spec_add(a, T::spec_mul(k, b)),
        )
    &&& forall|x: T, p: T|
        !T::spec_is_zero(p) ==> T::spec_is_zero(
            #[trigger] T::spec_add(x, T::spec_mul(T::spec_neg(T::spec_div(x, p)), p)),
        )
}

/// `g` is already in the form that reduction from column `col`, with the
/// next pivot at row `p`, gives: in each column the pivot search stops at
/// the pivot row itself, and every cell below that pivot is zero.
pub open spec fn is_reduced_from<T: MatrixItem>(g: Seq<Seq<T>>, n: int, col: int, p: int) -> bool
    decreases n - col,
{
    if col < 0 || col >= n {
        true
    } else {
        match first_nonzero(g, col, p) {
            None => is_reduced_from(g, n, col + 1, p),
            Some(r) => {
                &&& r == p
                &&& forall|j: int| p < j < g.len() ==> T::spec_is_zero(#[trigger] g[j][col])
                &&& is_reduced_from(g, n, col + 1, p + 1)
            },
        }
    }
}

proof fn lemma_first_nonzero_none<T: MatrixItem>(g: Seq<Seq<T>>, col: int, from: int)
    requires
        0 <= from,
    ensures
        first_nonzero(g, col, from) is None <==> forall|j: int|
            from <= j < g.len() ==> T::spec_is_zero(#[trigger] g[j][col]),
    decreases g.len() - from,
{
    if from < g.len() {
        lemma_first_nonzero_none(g, col, from + 1);
        if T::spec_is_zero(g[from][col]) {
            assert forall|j: int| from <= j < g.len() && (forall|i: int|
                from + 1 <= i < g.len() ==> T::spec_is_zero(#[trigger] g[i][col])) implies T::spec_is_zero(
                g[j][col],
            ) by {
                if j > from {
                    assert(T::spec_is_zero(g[j][col]));
                }
            }
        }
    }
}

proof fn lemma_eliminate_below<T: MatrixItem>(
    g: Seq<Seq<T>>,
    n: int,
    p: int,
    col: int,
    j: int,
    p0: int,
    c: int,
)
    requires
        rows_have_len(g, n),
        0 <= col < n,
        0 <= p < g.len(),
        p < j,
        0 <= p0 <= p,
        0 <= c < n,
    ensures
        eliminate_below(g, p, col, j).len() == g.len(),
        rows_have_len(eliminate_below(g, p, col, j), n),
        forall|i: int| 0 <= i < j && i < g.len() ==> #[trigger] eliminate_below(g, p, col, j)[i] == g[i],
        exact_elimination::<T>() && !T::spec_is_zero(g[p][col]) ==> forall|i: int|
            j <= i < g.len() ==> T::spec_is_zero(#[trigger] eliminate_below(g, p, col, j)[i][col]),
        exact_elimination::<T>() && (forall|i: int|
            p0 <= i < g.len() ==> T::spec_is_zero(#[trigger] g[i][c])) ==> forall|i: int|
            p0 <= i < g.len() ==> T::spec_is_zero(#[trigger] eliminate_below(g, p, col, j)[i][c]),
    decreases g.len() - j,
{
    if j < g.len() {
        let factor = T::spec_div(g[j][col], g[p][col]);
        let g1 = fold_rows(g, j, p, T::spec_neg(factor));
        assert(g1[p] == g[p]);
        lemma_eliminate_below(g1, n, p, col, j + 1, p0, c);
        let r = eliminate_below(g, p, col, j);
        assert(r == eliminate_below(g1, p, col, j + 1));
        if exact_elimination::<T>() && !T::spec_is_zero(g[p][col]) {
            assert(T::spec_is_zero(g1[j][col]));
        }
        if exact_elimination::<T>() && (forall|i: int|
            p0 <= i < g.len() ==> T::spec_is_zero(#[trigger] g[i][c])) {
            assert(T::spec_is_zero(g[j][c]));
            assert(T::spec_is_zero(g[p][c]));
            assert(T::spec_is_zero(g1[j][c]));
            assert forall|i: int| p0 <= i < g1.len() implies T::spec_is_zero(#[trigger] g1[i][c]) by {
                if i != j {
                    assert(g1[i] == g[i]);
                }
            }
        }
    }
}

proof fn lemma_echelon_frame<T: MatrixItem>(g: Seq<Seq<T>>, n: int, col: int, p: int, p0: int, c: int)
    requires
        rows_have_len(g, n),
        0 <= col,
        0 <= p <= g.len(),
        0 <= p0 <= p,
        0 <= c < n,
    ensures
        echelon_from(g, n, col, p).len() == g.len(),
        rows_have_len(echelon_from(g, n, col, p), n),
        forall|i: int| 0 <= i < p ==> #[trigger] echelon_from(g, n, col, p)[i] == g[i],
        exact_elimination::<T>() && (forall|i: int|
            p0 <= i < g.len() ==> T::spec_is_zero(#[trigger] g[i][c])) ==> forall|i: int|
            p0 <= i < g.len() ==> T::spec_is_zero(#[trigger] echelon_from(g, n, col, p)[i][c]),
    decreases n - col,
{
    if col < n {
        lemma_first_nonzero(g, col, p);
        match first_nonzero(g, col, p) {
            None => {
                lemma_echelon_frame(g, n, col + 1, p, p0, c);
            },
            Some(r) => {
                let g1 = if r != p {
                    swap_rows_of(g, r, p)
                } else {
                    g
                };
                assert forall|i: int| 0 <= i < g1.len() implies #[trigger] g1[i].len() == n by {}
                lemma_eliminate_below(g1, n, p, col, p + 1, p0, c);
                let g2 = eliminate_below(g1, p, col, p + 1);
                lemma_echelon_frame(g2, n, col + 1, p + 1, p0, c);
                if exact_elimination::<T>() && (forall|i: int|
                    p0 <= i < g.len() ==> T::spec_is_zero(#[trigger] g[i][c])) {
                    assert forall|i: int| p0 <= i < g1.len() implies T::spec_is_zero(
                        #[trigger] g1[i][c],
                    ) by {
                        if r != p && i == r {
                            assert(g1[i] == g[p]);
                        } else if r != p && i == p {
                            assert(g1[i] == g[r]);
                        }
                    }
                }
            },
        }
    }
}

proof fn lemma_echelon_is_reduced<T: MatrixItem>(g: Seq<Seq<T>>, n: int, col: int, p: int)
    requires
        exact_elimination::<T>(),
        rows_have_len(g, n),
        0 <= col,
        0 <= p <= g.len(),
    ensures
        is_reduced_from(echelon_from(g, n, col, p), n, col, p),
    decreases n - col,
{
    if col < n {
        lemma_first_nonzero(g, col, p);
        lemma_echelon_frame(g, n, col, p, p, col);
        let e = echelon_from(g, n, col, p);
        match first_nonzero(g, col, p) {
            None => {
                lemma_echelon_is_reduced(g, n, col + 1, p);
                lemma_first_nonzero_none(g, col, p);
                lemma_first_nonzero_none(e, col, p);
            },
            Some(r) => {
                let g1 = if r != p {
                    swap_rows_of(g, r, p)
                } else {
                    g
                };
                assert forall|i: int| 0 <= i < g1.len() implies #[trigger] g1[i].len() == n by {}
                lemma_eliminate_below(g1, n, p, col, p + 1, p, col);
                let g2 = eliminate_below(g1, p, col, p + 1);
                lemma_echelon_frame(g2, n, col + 1, p + 1, p + 1, col);
                lemma_echelon_is_reduced(g2, n, col + 1, p + 1);
                assert(e == echelon_from(g2, n, col + 1, p + 1));
                assert(e[p] == g2[p]);
                assert(g2[p] == g1[p]);
                assert(!T::spec_is_zero(e[p][col]));
                assert(first_nonzero(e, col, p) == Some(p));
            },
        }
    }
}

proof fn lemma_eliminate_settled<T: MatrixItem>(g: Seq<Seq<T>>, n: int, p: int, col: int, j: int)
    requires
        exact_elimination::<T>(),
        rows_have_len(g, n),
        0 <= col < n,
        0 <= p < g.len(),
        p < j,
        !T::spec_is_zero(g[p][col]),
        forall|i: int| j <= i < g.len() ==> T::spec_is_zero(#[trigger] g[i][col]),
    ensures
        eliminate_below(g, p, col, j) == g,
    decreases g.len() - j,
{
    if j < g.len() {
        let factor = T::spec_div(g[j][col], g[p][col]);
        let g1 = fold_rows(g, j, p, T::spec_neg(factor));
        assert forall|c: int| 0 <= c < g[j].len() implies #[trigger] g1[j][c] == g[j][c] by {
            assert(T::spec_add(g[j][c], T::spec_mul(T::spec_neg(factor), g[p][c])) == g[j][c]);
        }
        assert(g1 =~~= g);
        lemma_eliminate_settled(g, n, p, col, j + 1);
    }
}

proof fn lemma_reduced_is_fixed<T: MatrixItem>(g: Seq<Seq<T>>, n: int, col: int, p: int)
    requires
        exact_elimination::<T>(),
        rows_have_len(g, n),
        0 <= col,
        0 <= p <= g.len(),
        is_reduced_from(g, n, col, p),
    ensures
        echelon_from(g, n, col, p) == g,
    decreases n - col,
{
    if col < n {
        lemma_first_nonzero(g, col, p);
        match first_nonzero(g, col, p) {
            None => {
                lemma_reduced_is_fixed(g, n, col + 1, p);
            },
            Some(r) => {
                lemma_eliminate_settled(g, n, p, col, p + 1);
                lemma_reduced_is_fixed(g, n, col + 1, p + 1);
            },
        }
    }
}

/// Reducing a matrix that is already in row echelon form changes nothing,
/// for cells whose arithmetic eliminates without rounding.
pub proof fn lemma_echelon_idempotent<T: MatrixItem>(g: Seq<Seq<T>>, n: int)
    requires
        exact_elimination::<T>(),
        n >= 0,
        rows_have_len(g, n),
    ensures
        echelon(echelon(g, n), n) == echelon(g, n),
{
    if n > 0 {
        lemma_echelon_is_reduced(g, n, 0, 0);
        lemma_echelon_frame(g, n, 0, 0, 0, 0);
        lemma_reduced_is_fixed(echelon(g, n), n, 0, 0);
    }
}

} // verus!
