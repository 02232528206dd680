//! The two coefficient stores: a growable vector and a fixed-size array.
use crate::numeric::Numeric;
use crate::polynomial::{derivative_evaluable, evaluable, slope_of, value_of, Polynomial};
use vstd::prelude::*;

verus! {

/// A polynomial whose coefficients live in a growable vector, constant term first.
#[derive(Debug, Clone)]
pub struct VecPolynomial<T> {
    pub coefficients: Vec<T>,
}

/// A polynomial with exactly `N` coefficients in an array, constant term first.
#[derive(Debug, Clone)]
pub struct FixedPolynomial<T, const N: usize> {
    pub coefficients: [T; N],
}

impl<T> VecPolynomial<T> {
    /// Takes the coefficients as given, in order; any length, none included.
    pub fn new(coefficients: Vec<T>) -> (r: Self)
        ensures
            r.coefficients@ == coefficients@,
    {
        VecPolynomial { coefficients }
    }
}

impl<T, const N: usize> FixedPolynomial<T, N> {
    /// Takes exactly `N` coefficients as given, in order.
    pub fn new(coefficients: [T; N]) -> (r: Self)
        ensures
            r.coefficients@ == coefficients@,
    {
        FixedPolynomial { coefficients }
    }
}

impl<T: Numeric> Polynomial<T> for VecPolynomial<T> {
    open spec fn coeffs(&self) -> Seq<T> {
        self.coefficients@
    }

    fn coefficients(&self) -> (r: &[T]) {
        self.coefficients.as_slice()
    }
}

impl<T: Numeric, const N: usize> Polynomial<T> for FixedPolynomial<T, N> {
    open spec fn coeffs(&self) -> Seq<T> {
        self.coefficients@
    }

    fn coefficients(&self) -> (r: &[T]) {
        self.coefficients.as_slice()
    }
}

/// A vector store without coefficients has value zero and derivative zero at
/// every point; both evaluations are admitted everywhere.
pub proof fn lemma_empty_is_zero<T: Numeric>(p: VecPolynomial<T>, x: T)
    requires
        p.coefficients@.len() == 0,
    ensures
        evaluable(p.coeffs(), x),
        derivative_evaluable(p.coeffs(), x),
        value_of(p.coeffs(), x) == 0,
        slope_of(p.coeffs(), x) == 0,
{
    T::lemma_range(x);
}

/// A vector store and an array store holding the same coefficients agree:
/// each evaluation is admitted at the same points for both, and gives the
/// same value for both.
pub proof fn lemma_stores_agree<T: Numeric, const N: usize>(
    v: VecPolynomial<T>,
    f: FixedPolynomial<T, N>,
    x: T,
)
    requires
        v.coefficients@ == f.coefficients@,
    ensures
        evaluable(v.coeffs(), x) == evaluable(f.coeffs(), x),
        derivative_evaluable(v.coeffs(), x) == derivative_evaluable(f.coeffs(), x),
        value_of(v.coeffs(), x) == value_of(f.coeffs(), x),
        slope_of(v.coeffs(), x) == slope_of(f.coeffs(), x),
{
}

} // verus!
