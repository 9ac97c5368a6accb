//! The derivative-tracking interfaces: a tracked value carries the Taylor
//! coefficients that result from evaluating an expression at a point, and
//! the user's function is an arbitrary evaluation on tracked values.

use vstd::pervasive::arbitrary;
use vstd::prelude::*;
use crate::scalar::Scalar;

verus! {

/// A value in derivative-tracking mode: alongside its plain value it
/// carries the first- and second-order Taylor coefficients of the
/// expression that produced it.
///
/// An implementor is expected to propagate the standard differentiation
/// rules (sum rule, product rule, chain rule) through its arithmetic, so
/// that the coefficients extracted after evaluating a function are that
/// function's exact derivatives at the point — forward-mode automatic
/// differentiation, not a finite-difference approximation. The pipeline
/// itself assumes only what the contracts below state: each method's
/// result is pinned to the implementor's spec-level counterpart, so every
/// extraction is a fixed function of the tracked value.
pub trait Derivable<T: Scalar>: Sized {
    /// The tracked value with derivative propagation activated.
    open spec fn spec_execute_derivative(&self) -> Self {
        arbitrary()
    }

    /// The zeroth Taylor coefficient: the plain value.
    open spec fn spec_zeroth_derivative(&self) -> T {
        arbitrary()
    }

    /// The first Taylor coefficient: the first derivative.
    open spec fn spec_first_derivative(&self) -> T {
        arbitrary()
    }

    /// The second Taylor coefficient: the second derivative.
    open spec fn spec_second_derivative(&self) -> T {
        arbitrary()
    }

    /// Marks the value so that subsequent arithmetic also propagates a
    /// unit first-derivative seed (and whatever further seed the
    /// implementor needs to recover the second derivative).
    fn execute_derivative(&self) -> (r: Self)
        ensures
            r == self.spec_execute_derivative(),
    ;

    fn zeroth_derivative(&self) -> (r: T)
        ensures
            r == self.spec_zeroth_derivative(),
    ;

    fn first_derivative(&self) -> (r: T)
        ensures
            r == self.spec_first_derivative(),
    ;

    fn second_derivative(&self) -> (r: T)
        ensures
            r == self.spec_second_derivative(),
    ;
}

/// Conversion between a plain scalar and its tracked representation.
pub trait Coerceable<T: Scalar>: Sized {
    /// The plain scalar that the tracked value projects back to.
    open spec fn spec_coerce_to(&self) -> T {
        arbitrary()
    }

    /// The tracked value standing for the plain scalar `value`.
    open spec fn spec_coerce_from(value: T) -> Self {
        arbitrary()
    }

    /// Projects back to a plain scalar, dropping derivative information.
    fn coerce_to(&self) -> (r: T)
        ensures
            r == self.spec_coerce_to(),
    ;

    /// Lifts a plain scalar into tracking mode at that point.
    fn coerce_from(value: T) -> (r: Self)
        ensures
            r == Self::spec_coerce_from(value),
    ;
}

/// The user-supplied function whose roots are sought, as an evaluation on
/// tracked values.
///
/// The contract pins each call's result to the implementor's spec-level
/// `spec_eval`: the function is pure and deterministic, with no hidden
/// state, so repeated evaluations at the same point agree — which is what
/// lets the search operations promise bit-identical outputs across runs.
pub trait Evaluable<N>: Sized {
    /// The value of the function at `x`.
    open spec fn spec_eval(&self, x: N) -> N {
        arbitrary()
    }

    /// Evaluates the function at `x`.
    fn eval(&self, x: N) -> (r: N)
        ensures
            r == self.spec_eval(x),
    ;
}

} // verus!
