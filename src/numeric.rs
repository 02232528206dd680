//! Numeric coefficient types: a bounded range of integers with zero,
//! conversion from an index, addition and multiplication.
use vstd::prelude::*;

verus! {

/// A coefficient type. Each value stands for an integer in
/// `lowest() ..= highest()`; the operations are exact inside that range.
pub trait Numeric: Copy + Sized {
    /// The integer a value stands for.
    spec fn to_int(self) -> int;

    /// The smallest integer the type can hold.
    spec fn lowest() -> int;

    /// The largest integer the type can hold.
    spec fn highest() -> int;

    /// Every value, and zero, lies in the type's range.
    proof fn lemma_range(v: Self)
        ensures
            Self::lowest() <= v.to_int() <= Self::highest(),
            Self::lowest() <= 0 <= Self::highest(),
    ;

    /// The additive identity.
    fn zero() -> (r: Self)
        ensures
            r.to_int() == 0,
    ;

    /// The value standing for the index `n`, if the type can hold it.
    fn from_index(n: usize) -> (r: Option<Self>)
        ensures
            r is Some <==> n <= Self::highest(),
            r matches Some(v) ==> v.to_int() == n,
    ;

    /// Exact sum, where it is in range.
    fn plus(self, b: Self) -> (r: Self)
        requires
            Self::lowest() <= self.to_int() + b.to_int() <= Self::highest(),
        ensures
            r.to_int() == self.to_int() + b.to_int(),
    ;

    /// Exact product, where it is in range.
    fn times(self, b: Self) -> (r: Self)
        requires
            Self::lowest() <= self.to_int() * b.to_int() <= Self::highest(),
        ensures
            r.to_int() == self.to_int() * b.to_int(),
    ;
}

/// `v` lies in the range of `T`.
pub open spec fn in_range<T: Numeric>(v: int) -> bool {
    T::lowest() <= v <= T::highest()
}

/// The integers that a sequence of coefficients stands for.
pub open spec fn ints<T: Numeric>(s: Seq<T>) -> Seq<int> {
    s.map_values(|c: T| c.to_int())
}

/// Relies on num_traits' `Zero::zero` for `i32`, which is the literal `0`.
#[verifier::external_body]
fn zero_i32() -> (r: i32)
    ensures
        r == 0,
{
    <i32 as num_traits::Zero>::zero()
}

/// Relies on num_traits' `FromPrimitive::from_usize` for `i32`: `Some(n as i32)`
/// when `n <= i32::MAX`, else `None`.
#[verifier::external_body]
fn i32_from_usize(n: usize) -> (r: Option<i32>)
    ensures
        n <= i32::MAX ==> r == Some(n as i32),
        n > i32::MAX ==> r is None,
{
    <i32 as num_traits::FromPrimitive>::from_usize(n)
}

/// Relies on num_traits' `Zero::zero` for `i64`, which is the literal `0`.
#[verifier::external_body]
fn zero_i64() -> (r: i64)
    ensures
        r == 0,
{
    <i64 as num_traits::Zero>::zero()
}

/// Relies on num_traits' `FromPrimitive::from_usize` for `i64`: `Some(n as i64)`
/// when `n <= i64::MAX`, else `None`.
#[verifier::external_body]
fn i64_from_usize(n: usize) -> (r: Option<i64>)
    ensures
        n <= i64::MAX ==> r == Some(n as i64),
        n > i64::MAX ==> r is None,
{
    <i64 as num_traits::FromPrimitive>::from_usize(n)
}

impl Numeric for i32 {
    open spec fn to_int(self) -> int {
        self as int
    }

    open spec fn lowest() -> int {
        i32::MIN as int
    }

    open spec fn highest() -> int {
        i32::MAX as int
    }

    proof fn lemma_range(v: i32) {
    }

    fn zero() -> (r: i32) {
        zero_i32()
    }

    fn from_index(n: usize) -> (r: Option<i32>) {
        i32_from_usize(n)
    }

    fn plus(self, b: i32) -> (r: i32) {
        self + b
    }

    fn times(self, b: i32) -> (r: i32) {
        self * b
    }
}

impl Numeric for i64 {
    open spec fn to_int(self) -> int {
        self as int
    }

    open spec fn lowest() -> int {
        i64::MIN as int
    }

    open spec fn highest() -> int {
        i64::MAX as int
    }

    proof fn lemma_range(v: i64) {
    }

    fn zero() -> (r: i64) {
        zero_i64()
    }

    fn from_index(n: usize) -> (r: Option<i64>) {
        i64_from_usize(n)
    }

    fn plus(self, b: i64) -> (r: i64) {
        self + b
    }

    fn times(self, b: i64) -> (r: i64) {
        self * b
    }
}

} // verus!
