use vstd::prelude::*;
use crate::arithmetic::computes;

verus! {

/// A term of a series, as the exact fraction `numerator / denominator`,
/// negated if `negative`.
#[derive(Clone, Copy, Debug, PartialEq, Eq, Structural)]
pub struct Term {
    pub negative: bool,
    pub numerator: u64,
    pub denominator: u64,
}

/// Term `k` of the Leibniz series for pi: `(-1)^k * 4 / (2k + 1)`.
pub open spec fn leibniz_term(k: nat) -> Term {
    Term { negative: k % 2 == 1, numerator: 4, denominator: (2 * k + 1) as u64 }
}

/// `sum` is a value that can come out of summing the first `n` terms of the
/// Leibniz series: start from `zero` and, for `k` from `0` up to `n - 1` in
/// this order, add the scalar for term `k` to the running sum.
pub open spec fn sums_leibniz<T, C: Fn(Term) -> T, A: Fn(T, T) -> T>(
    scalar: C,
    plus: A,
    zero: T,
    n: nat,
    sum: T,
) -> bool
    decreases n,
{
    if n == 0 {
        sum == zero
    } else {
        exists|before: T, term: T|
            {
                &&& sums_leibniz(scalar, plus, zero, (n - 1) as nat, before)
                &&& scalar.ensures((leibniz_term((n - 1) as nat),), term)
                &&& #[trigger] plus.ensures((before, term), sum)
            }
    }
}

/// Every result of `scalar` for a term of the series is the value of `value`
/// at that term.
pub open spec fn computes_terms<T, C: Fn(Term) -> T>(scalar: C, value: spec_fn(Term) -> T) -> bool {
    forall|k: nat, r: T| #[trigger] scalar.ensures((leibniz_term(k),), r) ==> r == value(leibniz_term(k))
}

/// The first `n` terms of the Leibniz series, each turned into a `T` by
/// `value` and added up from the left by `sum`, starting from `zero`.
pub open spec fn leibniz_partial_sum<T>(
    value: spec_fn(Term) -> T,
    sum: spec_fn(T, T) -> T,
    zero: T,
    n: nat,
) -> T
    decreases n,
{
    if n == 0 {
        zero
    } else {
        sum(leibniz_partial_sum(value, sum, zero, (n - 1) as nat), value(leibniz_term((n - 1) as nat)))
    }
}

/// Where `scalar` computes `value` and `plus` computes `sum`, summing the
/// first `n` terms gives the partial sum of the series.
pub proof fn lemma_sums_leibniz_partial_sum<T, C: Fn(Term) -> T, A: Fn(T, T) -> T>(
    scalar: C,
    plus: A,
    value: spec_fn(Term) -> T,
    sum: spec_fn(T, T) -> T,
    zero: T,
    n: nat,
    result: T,
)
    requires
        computes_terms(scalar, value),
        computes(plus, sum),
        sums_leibniz(scalar, plus, zero, n, result),
    ensures
        result == leibniz_partial_sum(value, sum, zero, n),
    decreases n,
{
    if n > 0 {
        let (before, term) = choose|before: T, term: T|
            {
                &&& sums_leibniz(scalar, plus, zero, (n - 1) as nat, before)
                &&& scalar.ensures((leibniz_term((n - 1) as nat),), term)
                &&& #[trigger] plus.ensures((before, term), result)
            };
        lemma_sums_leibniz_partial_sum(scalar, plus, value, sum, zero, (n - 1) as nat, before);
    }
}

/// Approximates pi by the first `iterations` terms of the Leibniz series
/// `4 - 4/3 + 4/5 - 4/7 + ...`.
///
/// The sum is formed in any type `T`: `scalar` turns a term into a `T`, and
/// `plus` adds two of them. The terms are added to `zero` in the order of the
/// series, so no term gives `zero` itself.
pub fn calculate_pi<T: Copy, C: Fn(Term) -> T, A: Fn(T, T) -> T>(
    iterations: u32,
    zero: T,
    scalar: C,
    plus: A,
) -> (pi: T)
    requires
        forall|k: nat| k < iterations ==> scalar.requires((#[trigger] leibniz_term(k),)),
        forall|x: T, y: T| plus.requires((x, y)),
    ensures
        sums_leibniz(scalar, plus, zero, iterations as nat, pi),
        iterations == 0 ==> pi == zero,
{
    let mut pi: T = zero;
    let mut negative: bool = false;
    let mut denominator: u64 = 1;
    let mut k: u32 = 0;
    while k < iterations
        invariant
            forall|k: nat| k < iterations ==> scalar.requires((#[trigger] leibniz_term(k),)),
            forall|x: T, y: T| plus.requires((x, y)),
            k <= iterations,
            negative == (k % 2 == 1),
            denominator == 2 * k + 1,
            sums_leibniz(scalar, plus, zero, k as nat, pi),
        decreases iterations - k,
    {
        assert(Term { negative, numerator: 4, denominator } == leibniz_term(k as nat));
        let term: T = scalar(Term { negative, numerator: 4, denominator });
        let next: T = plus(pi, term);
        assert(sums_leibniz(scalar, plus, zero, (k + 1) as nat, next)) by {
            assert(scalar.ensures((leibniz_term(k as nat),), term));
            assert(plus.ensures((pi, term), next));
        }
        pi = next;
        negative = !negative;
        denominator += 2;
        k += 1;
    }
    pi
}

} // verus!
