//! The abstract scalar algebra that the root-finding pipeline is generic
//! over: the arithmetic, the comparisons and the distinguished values that
//! the scanner, the refiner and the orchestrator need from their numeric
//! type.

use vstd::pervasive::arbitrary;
use vstd::prelude::*;

verus! {

/// An abstract scalar: the numeric type `T` of sample points, function
/// values and tolerances.
///
/// Every executable operation is pinned by its contract to a spec-level
/// counterpart. The counterparts default to an unconstrained value, so an
/// implementor outside the verifier's reach may leave them alone; one
/// that verifies its arithmetic overrides them, since the operations'
/// contracts cannot be met against the defaults. Nothing further is
/// assumed of the algebra — in particular no field laws and no order
/// axioms, which a floating-point implementor could not honour anyway.
/// What the pipeline proves therefore holds of any implementation: each
/// operation's result is a fixed mathematical function of its operands,
/// and everything computed from scalars is in turn a function of the
/// inputs alone.
pub trait Scalar: Sized + Copy {
    /// The sum `self + other`.
    open spec fn spec_plus(&self, other: Self) -> Self {
        arbitrary()
    }

    /// The difference `self - other`.
    open spec fn spec_minus(&self, other: Self) -> Self {
        arbitrary()
    }

    /// The product `self * other`.
    open spec fn spec_times(&self, other: Self) -> Self {
        arbitrary()
    }

    /// The quotient `self / other`.
    open spec fn spec_over(&self, other: Self) -> Self {
        arbitrary()
    }

    /// The absolute value of `self`.
    open spec fn spec_abs(&self) -> Self {
        arbitrary()
    }

    /// The strict order `self < other`.
    open spec fn spec_lt(&self, other: Self) -> bool {
        arbitrary()
    }

    /// The numeric equality test `self == other` (for a floating-point
    /// implementor this need not coincide with structural equality).
    open spec fn spec_eq(&self, other: Self) -> bool {
        arbitrary()
    }

    /// The additive identity.
    open spec fn spec_zero() -> Self {
        arbitrary()
    }

    /// The implementor's smallest resolvable increment, such as a machine
    /// epsilon.
    open spec fn spec_epsilon() -> Self {
        arbitrary()
    }

    /// The scalar standing for the integer `v`.
    open spec fn spec_of_int(v: int) -> Self {
        arbitrary()
    }

    fn plus(self, other: Self) -> (r: Self)
        ensures
            r == self.spec_plus(other),
    ;

    fn minus(self, other: Self) -> (r: Self)
        ensures
            r == self.spec_minus(other),
    ;

    fn times(self, other: Self) -> (r: Self)
        ensures
            r == self.spec_times(other),
    ;

    fn over(self, other: Self) -> (r: Self)
        ensures
            r == self.spec_over(other),
    ;

    fn abs_val(self) -> (r: Self)
        ensures
            r == self.spec_abs(),
    ;

    fn lt(self, other: Self) -> (r: bool)
        ensures
            r == self.spec_lt(other),
    ;

    fn eq_val(self, other: Self) -> (r: bool)
        ensures
            r == self.spec_eq(other),
    ;

    fn zero() -> (r: Self)
        ensures
            r == Self::spec_zero(),
    ;

    fn epsilon() -> (r: Self)
        ensures
            r == Self::spec_epsilon(),
    ;

    fn of_i32(v: i32) -> (r: Self)
        ensures
            r == Self::spec_of_int(v as int),
    ;
}

} // verus!
