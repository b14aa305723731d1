use vstd::prelude::*;

verus! {

/// The error taxonomy of the training core.
///
/// `ArityMismatch`: an action batch's length disagrees with the number of
/// environment instances. `InsufficientData`: a sample asked for more
/// transitions than the buffer holds. `EnvironmentFailure`: an environment
/// reported an unrecoverable condition; it is propagated unchanged and
/// terminates the run. `NumericFailure`: a value computation failed (a
/// tensor operation error, or an accumulator that no longer fits its type);
/// it is not locally recovered.
#[derive(Debug, Clone, PartialEq, Eq)]
pub enum RlError {
    ArityMismatch,
    InsufficientData,
    EnvironmentFailure(String),
    NumericFailure(String),
}

} // verus!
