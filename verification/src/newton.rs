//! The Newton-Raphson refiner: from one seed point, iterate towards a
//! single root using the exact derivative extracted from a tracked
//! evaluation.

use vstd::prelude::*;
use crate::scalar::Scalar;
use crate::tracking::{Coerceable, Derivable, Evaluable};

verus! {

/// One Newton-Raphson step from `current`: lift `current` into tracking
/// mode with the derivative activated, evaluate `f` on it, and move to
/// `value - f(value) / f'(value)`, all in the implementor's arithmetic.
///
/// There is deliberately no guard against a zero or near-zero derivative:
/// whatever the quotient then yields flows on to the convergence check,
/// exactly as the arithmetic produces it.
pub open spec fn spec_newton_step<F: Evaluable<N>, N: Derivable<T> + Coerceable<T>, T: Scalar>(
    f: F,
    current: T,
) -> T {
    let x = N::spec_coerce_from(current).spec_execute_derivative();
    let z = f.spec_eval(x);
    x.spec_zeroth_derivative().spec_minus(
        z.spec_zeroth_derivative().spec_over(z.spec_first_derivative()),
    )
}

/// The outcome of refining from `current` with `fuel` further steps
/// allowed after the first: `Some(next)` as soon as a step moves by less
/// than `tolerance`, `None` once the budget is exhausted without
/// convergence.
pub open spec fn spec_newton<F: Evaluable<N>, N: Derivable<T> + Coerceable<T>, T: Scalar>(
    f: F,
    current: T,
    tolerance: T,
    fuel: nat,
) -> Option<T>
    decreases fuel,
{
    let next = spec_newton_step::<F, N, T>(f, current);
    if next.spec_minus(current).spec_abs().spec_lt(tolerance) {
        Some(next)
    } else if fuel == 0 {
        None
    } else {
        spec_newton::<F, N, T>(f, next, tolerance, (fuel - 1) as nat)
    }
}

/// Newton-Raphson refinement of the single root of `f` nearest to
/// `guess`, up to `patience` iterations.
///
/// Returns `Some(root)` as soon as two successive estimates differ by
/// less than `tolerance` in absolute value; returns `None` — a
/// recoverable "no root found", never a panic — once `patience`
/// iterations pass without convergence. The contract pins the result to
/// [`spec_newton`], the step-by-step mathematical description of the
/// iteration, so the outcome is a function of the inputs alone.
pub fn newton<F: Evaluable<N>, N: Derivable<T> + Coerceable<T> + Copy, T: Scalar>(
    f: &F,
    guess: T,
    patience: i32,
    tolerance: T,
) -> (r: Option<T>)
    requires
        0 < patience < i32::MAX,
    ensures
        r == spec_newton::<F, N, T>(*f, guess, tolerance, patience as nat),
{
    let mut current: T = guess;
    let mut count: i32 = 0;
    loop
        invariant
            0 <= count <= patience < i32::MAX,
            spec_newton::<F, N, T>(*f, guess, tolerance, patience as nat)
                == spec_newton::<F, N, T>(*f, current, tolerance, (patience - count) as nat),
        decreases patience - count,
    {
        count = count + 1;
        let x = N::coerce_from(current).execute_derivative();
        let z = f.eval(x);
        let next = x.zeroth_derivative().minus(
            z.zeroth_derivative().over(z.first_derivative()),
        );
        let diff = next.minus(current);
        if diff.abs_val().lt(tolerance) {
            return Some(next);
        }
        if count > patience {
            return None;
        }
        current = next;
    }
}

/// Refinement is deterministic: two runs of the refiner on identical
/// inputs yield the identical outcome, because the outcome is a function
/// of the inputs alone.
pub proof fn lemma_newton_deterministic<
    F: Evaluable<N>,
    N: Derivable<T> + Coerceable<T>,
    T: Scalar,
>(
    f: F,
    guess: T,
    patience: i32,
    tolerance: T,
    first: Option<T>,
    second: Option<T>,
)
    requires
        patience >= 0,
        first == spec_newton::<F, N, T>(f, guess, tolerance, patience as nat),
        second == spec_newton::<F, N, T>(f, guess, tolerance, patience as nat),
    ensures
        first == second,
{
}

} // verus!
