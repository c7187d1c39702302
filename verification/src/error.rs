//! The ways a call into the network can fail.
//!
//! Every failure aborts the current call and reports its kind and, for
//! shape failures, the offending dimensions.  A feature with zero variance
//! is not detected here: standardization then divides by zero, and the
//! scalar's total division defines what comes out, so callers must
//! validate their data before training.

use vstd::prelude::*;

verus! {

#[derive(Debug, Clone, Copy, PartialEq, Eq, Structural)]
pub enum NetworkError {
    /// Fewer than two layer specifications were supplied.
    ConfigurationError { layers_supplied: usize },
    /// Two shapes that must agree do not.
    DimensionMismatch { expected: usize, found: usize },
    /// A call that needs caches or standardization parameters came
    /// before the call that populates them.
    UninitializedStateError,
}

} // verus!
