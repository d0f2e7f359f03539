use vstd::prelude::*;

verus! {

/// Every result of `op` is the value of `f` at its arguments.
pub open spec fn computes<T, F: Fn(T, T) -> T>(op: F, f: spec_fn(T, T) -> T) -> bool {
    forall|x: T, y: T, r: T| #[trigger] op.ensures((x, y), r) ==> r == f(x, y)
}

/// Applied to `unit` on the left, `op` gives back its right argument.
pub open spec fn is_left_unit<T, F: Fn(T, T) -> T>(op: F, unit: T) -> bool {
    forall|y: T, r: T| #[trigger] op.ensures((unit, y), r) ==> r == y
}

/// Applied to `unit` on the right, `op` gives back its left argument.
pub open spec fn is_right_unit<T, F: Fn(T, T) -> T>(op: F, unit: T) -> bool {
    forall|x: T, r: T| #[trigger] op.ensures((x, unit), r) ==> r == x
}

/// Applied to `zero` on the left, `op` gives `zero`.
pub open spec fn is_left_absorbing<T, F: Fn(T, T) -> T>(op: F, zero: T) -> bool {
    forall|y: T, r: T| #[trigger] op.ensures((zero, y), r) ==> r == zero
}

/// `op` has at most one result for each pair of arguments.
pub open spec fn is_single_valued<T, F: Fn(T, T) -> T>(op: F) -> bool {
    forall|x: T, y: T, r: T, s: T|
        #[trigger] op.ensures((x, y), r) && #[trigger] op.ensures((x, y), s) ==> r == s
}

} // verus!
