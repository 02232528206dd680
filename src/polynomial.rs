//! The evaluation capability shared by every coefficient store.
use crate::model::{
    derivative, derivative_within, horner, horner_within, lemma_horner_at_zero,
    lemma_horner_is_power_sum, lemma_horner_value_at_zero, lemma_horner_within_suffix, power_sum,
};
use crate::numeric::{ints, Numeric};
use vstd::prelude::*;

verus! {

/// The value at `x` of the polynomial with coefficients `a`: the direct sum
/// of `a[i] * x^i`.
pub open spec fn value_of<T: Numeric>(a: Seq<T>, x: T) -> int {
    power_sum(ints(a), x.to_int())
}

/// The value at `x` of the derivative of the polynomial with coefficients `a`:
/// the direct sum of `i * a[i] * x^(i-1)` over `i >= 1`.
pub open spec fn slope_of<T: Numeric>(a: Seq<T>, x: T) -> int {
    power_sum(derivative(ints(a)), x.to_int())
}

/// Horner's scheme on `a` at `x` never leaves the range of `T`.
pub open spec fn evaluable<T: Numeric>(a: Seq<T>, x: T) -> bool {
    horner_within(ints(a), x.to_int(), T::lowest(), T::highest())
}

/// Horner's scheme on the derivative of `a` at `x`, with its index weights,
/// never leaves the range of `T`.
pub open spec fn derivative_evaluable<T: Numeric>(a: Seq<T>, x: T) -> bool {
    derivative_within(ints(a), x.to_int(), T::lowest(), T::highest())
}

/// A polynomial given by its coefficients, index `i` holding the coefficient
/// of `x^i`. Evaluation runs Horner's scheme in one pass with constant extra space.
pub trait Polynomial<T: Numeric> {
    /// The coefficients, constant term first.
    spec fn coeffs(&self) -> Seq<T>;

    /// A read-only view of the stored coefficients, constant term first.
    fn coefficients(&self) -> (r: &[T])
        ensures
            r@ == self.coeffs(),
    ;

    /// The value `a[0] + a[1] * x + ... + a[n-1] * x^(n-1)` at `x`;
    /// zero for no coefficients.
    fn evaluate(&self, x: T) -> (r: T)
        requires
            evaluable(self.coeffs(), x),
        ensures
            r.to_int() == value_of(self.coeffs(), x),
    {
        let a = self.coefficients();
        let ghost s = ints(a@);
        let ghost xi = x.to_int();
        let mut acc = T::zero();
        let mut k: usize = a.len();
        while k > 0
            invariant
                k <= a.len(),
                s == ints(a@),
                a@ == self.coeffs(),
                xi == x.to_int(),
                horner_within(s, xi, T::lowest(), T::highest()),
                acc.to_int() == horner(s.subrange(k as int, s.len() as int), xi),
            decreases k,
        {
            k = k - 1;
            proof {
                let t = s.subrange(k as int, s.len() as int);
                lemma_horner_within_suffix(s, xi, T::lowest(), T::highest(), k as int);
                assert(t.drop_first() =~= s.subrange(k + 1, s.len() as int));
                assert(t[0] == a[k as int].to_int());
                let h = horner(t.drop_first(), xi);
                assert(horner(t, xi) == t[0] + xi * h);
                assert(xi * h == h * xi) by (nonlinear_arith);
            }
            let m = acc.times(x);
            acc = m.plus(a[k]);
        }
        proof {
            assert(s.subrange(0, s.len() as int) =~= s);
            lemma_horner_is_power_sum(s, xi);
        }
        acc
    }

    /// The value of the derivative `a[1] + 2 * a[2] * x + ... + (n-1) * a[n-1] * x^(n-2)`
    /// at `x`; zero for fewer than two coefficients.
    fn evaluate_derivative(&self, x: T) -> (r: T)
        requires
            derivative_evaluable(self.coeffs(), x),
        ensures
            r.to_int() == slope_of(self.coeffs(), x),
    {
        let a = self.coefficients();
        let n = a.len();
        let ghost s = ints(a@);
        let ghost d = derivative(s);
        let ghost xi = x.to_int();
        let mut acc = T::zero();
        let mut k: usize = n;
        while k > 1
            invariant
                k <= n,
                n == a.len(),
                n > 0 ==> k >= 1,
                s == ints(a@),
                d == derivative(s),
                a@ == self.coeffs(),
                xi == x.to_int(),
                derivative_within(s, xi, T::lowest(), T::highest()),
                n > 0 ==> acc.to_int() == horner(d.subrange(k - 1, n - 1), xi),
                n == 0 ==> acc.to_int() == 0,
            decreases k,
        {
            k = k - 1;
            proof {
                let t = d.subrange(k - 1, n - 1);
                lemma_horner_within_suffix(d, xi, T::lowest(), T::highest(), k - 1);
                assert(t.drop_first() =~= d.subrange(k as int, n - 1));
                assert(d[k - 1] == k * s[k as int]);
                assert(t[0] == d[k - 1]);
                let h = horner(t.drop_first(), xi);
                assert(horner(t, xi) == t[0] + xi * h);
                assert(xi * h == h * xi) by (nonlinear_arith);
            }
            let w = T::from_index(k).unwrap();
            let term = w.times(a[k]);
            let m = acc.times(x);
            acc = m.plus(term);
        }
        proof {
            if n > 0 {
                assert(d.subrange(0, n - 1) =~= d);
            }
            lemma_horner_is_power_sum(d, xi);
        }
        acc
    }
}

/// A single coefficient `c` gives `c` at every point and a derivative of zero
/// at every point; both evaluations are admitted everywhere.
pub proof fn lemma_constant<T: Numeric, P: Polynomial<T>>(p: P, x: T)
    requires
        p.coeffs().len() == 1,
    ensures
        evaluable(p.coeffs(), x),
        derivative_evaluable(p.coeffs(), x),
        value_of(p.coeffs(), x) == p.coeffs()[0].to_int(),
        slope_of(p.coeffs(), x) == 0,
{
    let s = ints(p.coeffs());
    let xi = x.to_int();
    T::lemma_range(p.coeffs()[0]);
    assert(s.drop_first().len() == 0);
    assert(horner(s.drop_first(), xi) == 0);
    assert(horner(s.drop_first(), xi) * xi == 0);
    assert(horner(s, xi) == s[0]);
    assert(horner_within(s.drop_first(), xi, T::lowest(), T::highest()));
    lemma_horner_is_power_sum(s, xi);
    assert(derivative(s).len() == 0);
    assert(horner(derivative(s), xi) == 0);
    lemma_horner_is_power_sum(derivative(s), xi);
}

/// At zero the value is the constant term (zero for no coefficients), and is
/// always admitted; the derivative there is the coefficient of `x` (zero for
/// fewer than two coefficients).
pub proof fn lemma_at_zero<T: Numeric, P: Polynomial<T>>(p: P, z: T)
    requires
        z.to_int() == 0,
    ensures
        evaluable(p.coeffs(), z),
        value_of(p.coeffs(), z) == if p.coeffs().len() > 0 {
            p.coeffs()[0].to_int()
        } else {
            0
        },
        slope_of(p.coeffs(), z) == if p.coeffs().len() > 1 {
            p.coeffs()[1].to_int()
        } else {
            0
        },
{
    let a = p.coeffs();
    let s = ints(a);
    T::lemma_range(z);
    assert forall|i: int| 0 <= i < s.len() implies T::lowest() <= #[trigger] s[i] <= T::highest() by {
        T::lemma_range(a[i]);
    }
    lemma_horner_at_zero(s, T::lowest(), T::highest());
    lemma_horner_is_power_sum(s, 0);
    let d = derivative(s);
    if d.len() > 0 {
        assert(d[0] == s[1]);
    }
    lemma_horner_value_at_zero(d);
    lemma_horner_is_power_sum(d, 0);
}

} // verus!
