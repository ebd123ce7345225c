//! The ways in which an estimate can fail.

use vstd::prelude::*;

verus! {

/// Why no value was produced.
#[derive(Clone, Copy, Debug, PartialEq, Eq, Structural)]
pub enum EstimateError {
    /// The two circle centres and the current iterate lie on one line, so the
    /// Newton update has no denominator.
    SolverDegenerate,
    /// The iteration cap was reached while the residual was still above the
    /// tolerance.
    NonConvergence,
    /// The stations lie on one line, or a damping factor is outside `(0, 1]`.
    ConfigurationError,
    /// A value left the range that a [`crate::fixed::Fixed`] can hold.
    OutOfRange,
}

} // verus!
