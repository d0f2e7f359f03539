use vstd::prelude::*;
use crate::error::{Invalid, MathError};

verus! {

/// Divides `a` by `b`, unless `b` is zero.
///
/// `is_zero` is the exact test for zero in the type `T`, and `quotient`
/// its division. The divisor is tested first, and `quotient` is applied only
/// to a divisor that the test let through.
pub fn divide<T: Copy, Z: Fn(T) -> bool, D: Fn(T, T) -> T>(
    a: T,
    b: T,
    is_zero: Z,
    quotient: D,
) -> (r: Result<T, MathError>)
    requires
        is_zero.requires((b,)),
        is_zero.ensures((b,), false) ==> quotient.requires((a, b)),
    ensures
        match r {
            Ok(q) => is_zero.ensures((b,), false) && quotient.ensures((a, b), q),
            Err(e) => e == MathError::DivisionByZero && is_zero.ensures((b,), true),
        },
        (forall|zero: bool| is_zero.ensures((b,), zero) ==> zero) ==> r == Err::<T, MathError>(
            MathError::DivisionByZero,
        ),
        (forall|zero: bool| is_zero.ensures((b,), zero) ==> !zero) ==> r is Ok,
{
    if is_zero(b) {
        Err(MathError::DivisionByZero)
    } else {
        Ok(quotient(a, b))
    }
}

/// Takes the square root of `x`, unless `x` is negative.
///
/// `is_negative` is the test `x < 0` in the type `T`, and `root` its
/// principal square root. The argument is tested first, and `root` is applied
/// only to an argument that the test let through.
pub fn safe_sqrt<T: Copy, N: Fn(T) -> bool, R: Fn(T) -> T>(x: T, is_negative: N, root: R) -> (r:
    Result<T, MathError>)
    requires
        is_negative.requires((x,)),
        is_negative.ensures((x,), false) ==> root.requires((x,)),
    ensures
        match r {
            Ok(y) => is_negative.ensures((x,), false) && root.ensures((x,), y),
            Err(e) => e == MathError::InvalidArgument(Invalid::NegativeSquareRoot)
                && is_negative.ensures((x,), true),
        },
        (forall|negative: bool| is_negative.ensures((x,), negative) ==> negative) ==> r == Err::<
            T,
            MathError,
        >(MathError::InvalidArgument(Invalid::NegativeSquareRoot)),
        (forall|negative: bool| is_negative.ensures((x,), negative) ==> !negative) ==> r is Ok,
{
    if is_negative(x) {
        Err(MathError::InvalidArgument(Invalid::NegativeSquareRoot))
    } else {
        Ok(root(x))
    }
}

} // verus!
