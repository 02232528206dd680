//! The mathematical model: coefficient sequences over `int`.
use vstd::arithmetic::power::pow;
use vstd::prelude::*;

verus! {

/// The direct sum `a[0] + a[1] * x + ... + a[n-1] * x^(n-1)`; zero when `a` is empty.
pub open spec fn power_sum(a: Seq<int>, x: int) -> int
    decreases a.len(),
{
    if a.len() == 0 {
        0
    } else {
        power_sum(a.drop_last(), x) + a.last() * pow(x, (a.len() - 1) as nat)
    }
}

/// Horner's nesting `a[0] + x * (a[1] + x * (... + x * a[n-1]))`; zero when `a` is empty.
pub open spec fn horner(a: Seq<int>, x: int) -> int
    decreases a.len(),
{
    if a.len() == 0 {
        0
    } else {
        a[0] + x * horner(a.drop_first(), x)
    }
}

/// The coefficients of the derivative: entry `i` is `(i + 1) * a[i + 1]`.
/// The constant term drops out, so the result is one shorter (empty for an empty `a`).
pub open spec fn derivative(a: Seq<int>) -> Seq<int> {
    if a.len() == 0 {
        Seq::empty()
    } else {
        Seq::new((a.len() - 1) as nat, |i: int| (i + 1) * a[i + 1])
    }
}

/// Every intermediate value of Horner's scheme on `a` at `x`, run from the
/// highest coefficient down, lies in `lo ..= hi`: each product of the
/// accumulator with `x`, and each new accumulator.
pub open spec fn horner_within(a: Seq<int>, x: int, lo: int, hi: int) -> bool
    decreases a.len(),
{
    a.len() == 0 || {
        &&& horner_within(a.drop_first(), x, lo, hi)
        &&& lo <= horner(a.drop_first(), x) * x <= hi
        &&& lo <= horner(a, x) <= hi
    }
}

/// Horner's scheme on the derivative of `a` at `x` stays in `lo ..= hi`:
/// every index of `a` lies in range, so does every derivative coefficient
/// `i * a[i]`, and so does every intermediate value on those coefficients.
pub open spec fn derivative_within(a: Seq<int>, x: int, lo: int, hi: int) -> bool {
    let d = derivative(a);
    &&& a.len() <= hi + 1
    &&& forall|i: int| 0 <= i < d.len() ==> lo <= #[trigger] d[i] <= hi
    &&& horner_within(d, x, lo, hi)
}

/// The bounds of Horner's scheme hold on every tail of the coefficients.
pub proof fn lemma_horner_within_suffix(a: Seq<int>, x: int, lo: int, hi: int, k: int)
    requires
        horner_within(a, x, lo, hi),
        0 <= k <= a.len(),
    ensures
        horner_within(a.subrange(k, a.len() as int), x, lo, hi),
    decreases k,
{
    if k == 0 {
        assert(a.subrange(0, a.len() as int) =~= a);
    } else {
        lemma_horner_within_suffix(a.drop_first(), x, lo, hi, k - 1);
        assert(a.drop_first().subrange(k - 1, a.len() - 1) =~= a.subrange(k, a.len() as int));
    }
}

/// At zero, Horner's nesting is the constant term (zero for an empty `a`).
pub proof fn lemma_horner_value_at_zero(a: Seq<int>)
    ensures
        horner(a, 0) == if a.len() > 0 {
            a[0]
        } else {
            0
        },
{
    if a.len() > 0 {
        assert(0 * horner(a.drop_first(), 0) == 0);
    }
}

/// At zero, Horner's scheme stays in `lo ..= hi` when every coefficient and zero do.
pub proof fn lemma_horner_at_zero(a: Seq<int>, lo: int, hi: int)
    requires
        lo <= 0 <= hi,
        forall|i: int| 0 <= i < a.len() ==> lo <= #[trigger] a[i] <= hi,
    ensures
        horner_within(a, 0, lo, hi),
    decreases a.len(),
{
    if a.len() > 0 {
        let rest = a.drop_first();
        assert forall|i: int| 0 <= i < rest.len() implies lo <= #[trigger] rest[i] <= hi by {
            assert(rest[i] == a[i + 1]);
        }
        lemma_horner_at_zero(rest, lo, hi);
        lemma_horner_value_at_zero(a);
        assert(horner(rest, 0) * 0 == 0);
    }
}

/// Splitting off the constant term of the direct sum.
pub proof fn lemma_power_sum_first(a: Seq<int>, x: int)
    requires
        a.len() > 0,
    ensures
        power_sum(a, x) == a[0] + x * power_sum(a.drop_first(), x),
    decreases a.len(),
{
    reveal(pow);
    let n = a.len();
    if n == 1 {
        assert(pow(x, 0) == 1);
        assert(power_sum(a.drop_last(), x) == 0);
        assert(power_sum(a.drop_first(), x) == 0);
    } else {
        let init = a.drop_last();
        let rest = a.drop_first();
        lemma_power_sum_first(init, x);
        assert(rest.drop_last() =~= init.drop_first());
        assert(rest.last() == a.last());
        assert(init[0] == a[0]);
        let p = pow(x, (n - 2) as nat);
        assert(pow(x, (n - 1) as nat) == x * p);
        let q = power_sum(init.drop_first(), x);
        let c = a.last();
        assert(power_sum(rest, x) == q + c * p);
        assert(x * (q + c * p) == x * q + c * (x * p)) by (nonlinear_arith);
    }
}

/// Horner's nesting equals the direct sum.
pub proof fn lemma_horner_is_power_sum(a: Seq<int>, x: int)
    ensures
        horner(a, x) == power_sum(a, x),
    decreases a.len(),
{
    if a.len() > 0 {
        lemma_horner_is_power_sum(a.drop_first(), x);
        lemma_power_sum_first(a, x);
    }
}

} // verus!
