use vstd::prelude::*;

verus! {

/// The arithmetic that the matrix algorithms perform on their cells.
///
/// Each operation is described by a spec function of the same meaning, so that
/// the algorithms' contracts can say exactly which values they compute.
pub trait MatrixItem: Copy + Sized {
    spec fn spec_zero() -> Self;

    spec fn spec_one() -> Self;

    spec fn spec_is_zero(a: Self) -> bool;

    spec fn spec_add(a: Self, b: Self) -> Self;

    spec fn spec_mul(a: Self, b: Self) -> Self;

    spec fn spec_div(a: Self, b: Self) -> Self;

    spec fn spec_neg(a: Self) -> Self;

    spec fn spec_from_byte(b: u8) -> Self;

    fn zero() -> (r: Self)
        ensures
            r == Self::spec_zero(),
    ;

    fn one() -> (r: Self)
        ensures
            r == Self::spec_one(),
    ;

    fn is_zero(&self) -> (r: bool)
        ensures
            r == Self::spec_is_zero(*self),
    ;

    fn add(a: Self, b: Self) -> (r: Self)
        ensures
            r == Self::spec_add(a, b),
    ;

    fn mul(a: Self, b: Self) -> (r: Self)
        ensures
            r == Self::spec_mul(a, b),
    ;

    fn div(a: Self, b: Self) -> (r: Self)
        requires
            !Self::spec_is_zero(b),
        ensures
            r == Self::spec_div(a, b),
    ;

    fn neg(a: Self) -> (r: Self)
        ensures
            r == Self::spec_neg(a),
    ;

    /// The cell value of a small whole number.
    fn from_byte(b: u8) -> (r: Self)
        ensures
            r == Self::spec_from_byte(b),
    ;
}

/// Integer cells: two's-complement arithmetic that wraps on overflow, and
/// division that rounds toward zero.
impl MatrixItem for i64 {
    open spec fn spec_zero() -> Self {
        0
    }

    open spec fn spec_one() -> Self {
        1
    }

    open spec fn spec_is_zero(a: Self) -> bool {
        a == 0
    }

    open spec fn spec_add(a: Self, b: Self) -> Self {
        a.wrapping_add(b)
    }

    open spec fn spec_mul(a: Self, b: Self) -> Self {
        a.wrapping_mul(b)
    }

    open spec fn spec_div(a: Self, b: Self) -> Self {
        match a.checked_div(b) {
            Some(q) => q,
            None => a,
        }
    }

    open spec fn spec_neg(a: Self) -> Self {
        0i64.wrapping_sub(a)
    }

    open spec fn spec_from_byte(b: u8) -> Self {
        b as i64
    }

    fn zero() -> (r: Self) {
        0
    }

    fn one() -> (r: Self) {
        1
    }

    fn is_zero(&self) -> (r: bool) {
        *self == 0
    }

    fn add(a: Self, b: Self) -> (r: Self) {
        a.wrapping_add(b)
    }

    fn mul(a: Self, b: Self) -> (r: Self) {
        a.wrapping_mul(b)
    }

    fn div(a: Self, b: Self) -> (r: Self) {
        match a.checked_div(b) {
            Some(q) => q,
            None => a,
        }
    }

    fn neg(a: Self) -> (r: Self) {
        0i64.wrapping_sub(a)
    }

    fn from_byte(b: u8) -> (r: Self) {
        b as i64
    }
}

} // verus!
