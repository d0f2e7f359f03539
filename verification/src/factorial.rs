use vstd::prelude::*;
use crate::error::{Invalid, MathError};

verus! {

/// The product `1 * 2 * ... * n`.
pub open spec fn fact(n: nat) -> nat
    decreases n,
{
    if n == 0 {
        1
    } else {
        n * fact((n - 1) as nat)
    }
}

/// `fact` never decreases.
pub proof fn lemma_fact_monotonic(i: nat, j: nat)
    requires
        i <= j,
    ensures
        1 <= fact(i) <= fact(j),
    decreases j,
{
    if i < j {
        lemma_fact_monotonic(i, (j - 1) as nat);
        assert(fact((j - 1) as nat) <= j * fact((j - 1) as nat)) by (nonlinear_arith)
            requires
                j >= 1,
        ;
    } else if i > 0 {
        lemma_fact_monotonic((i - 1) as nat, (i - 1) as nat);
        assert(1 <= i * fact((i - 1) as nat)) by (nonlinear_arith)
            requires
                i >= 1,
                fact((i - 1) as nat) >= 1,
        ;
    }
}

/// `20!` is the largest factorial that an unsigned 64-bit integer holds.
pub proof fn lemma_fact_threshold(n: nat)
    ensures
        fact(20) == 2432902008176640000,
        fact(n) <= u64::MAX <==> n <= 20,
{
    reveal_with_fuel(fact, 22);
    assert(fact(20) == 2432902008176640000);
    assert(fact(21) == 51090942171709440000);
    if n <= 20 {
        lemma_fact_monotonic(n, 20);
    } else {
        lemma_fact_monotonic(21, n);
    }
}

/// Computes `n!`.
///
/// A negative `n` is rejected; a factorial that an unsigned 64-bit integer
/// cannot hold (from `21!` on) is reported as an overflow.
pub fn factorial(n: i32) -> (r: Result<u64, MathError>)
    ensures
        n < 0 ==> r == Err::<u64, MathError>(MathError::InvalidArgument(Invalid::NegativeFactorial)),
        0 <= n <= 20 ==> r == Ok::<u64, MathError>(fact(n as nat) as u64) && fact(n as nat) <= u64::MAX,
        n > 20 ==> r == Err::<u64, MathError>(MathError::Overflow) && fact(n as nat) > u64::MAX,
{
    if n < 0 {
        return Err(MathError::InvalidArgument(Invalid::NegativeFactorial));
    }
    let last: u64 = n as u64;
    let mut result: u64 = 1;
    let mut i: u64 = 2;
    proof {
        reveal_with_fuel(fact, 2);
        lemma_fact_threshold(last as nat);
    }
    while i <= last
        invariant
            0 <= n == last,
            2 <= i,
            i <= last + 1 || (last < 2 && i == 2),
            result == fact((i - 1) as nat),
            fact(last as nat) <= u64::MAX <==> last <= 20,
        decreases last + 1 - i,
    {
        assert(fact(i as nat) == result * i) by (nonlinear_arith)
            requires
                fact(i as nat) == i * fact((i - 1) as nat),
                result == fact((i - 1) as nat),
        ;
        match result.checked_mul(i) {
            Some(product) => {
                result = product;
            },
            None => {
                proof {
                    lemma_fact_monotonic(i as nat, last as nat);
                }
                return Err(MathError::Overflow);
            },
        }
        i += 1;
    }
    assert(result == fact(last as nat)) by {
        reveal_with_fuel(fact, 2);
    }
    Ok(result)
}

} // verus!
