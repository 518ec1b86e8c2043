use vstd::prelude::*;

verus! {

/// Shape of a matrix: `m` rows by `n` columns.
#[derive(PartialEq, Eq, Copy, Clone, Debug, Structural)]
pub struct Dim {
    pub m: usize,
    pub n: usize,
}

impl Dim {
    /// Number of rows.
    pub fn get_m(&self) -> (r: usize)
        ensures
            r == self.m,
    {
        self.m
    }

    /// Number of columns.
    pub fn get_n(&self) -> (r: usize)
        ensures
            r == self.n,
    {
        self.n
    }

    pub fn new(m: usize, n: usize) -> (r: Self)
        ensures
            r.m == m,
            r.n == n,
    {
        Dim { m, n }
    }

    pub fn is_square(&self) -> (r: bool)
        ensures
            r == (self.m == self.n),
    {
        self.m == self.n
    }

    /// Swaps the row and column counts, giving the shape of the transpose.
    pub fn flip(&mut self)
        ensures
            final(self).m == old(self).n,
            final(self).n == old(self).m,
    {
        let m = self.m;
        self.m = self.n;
        self.n = m;
    }
}

} // verus!
