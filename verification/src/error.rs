use vstd::prelude::*;

verus! {

/// Why a reduction request was refused or failed.
#[derive(Clone, Copy, Debug, PartialEq, Eq, Structural)]
pub enum ReduceError {
    /// The interval had fewer than one subdivision.
    InvalidInterval,
    /// Fewer than one worker was requested.
    InvalidThreadCount,
    /// A worker terminated abnormally, so its partial sum was lost and the
    /// whole reduction must be re-invoked by the caller.
    WorkerFailure,
}

/// Checks the preconditions shared by every reducer: at least one
/// subdivision and at least one worker. A violation is reported before any
/// work is attempted, the interval check first.
pub fn validate_params(n: i64, num_threads: i64) -> (r: Result<(), ReduceError>)
    ensures
        r is Ok <==> n >= 1 && num_threads >= 1,
        n < 1 ==> r == Result::<(), ReduceError>::Err(ReduceError::InvalidInterval),
        n >= 1 && num_threads < 1 ==> r == Result::<(), ReduceError>::Err(
            ReduceError::InvalidThreadCount,
        ),
{
    if n < 1 {
        Err(ReduceError::InvalidInterval)
    } else if num_threads < 1 {
        Err(ReduceError::InvalidThreadCount)
    } else {
        Ok(())
    }
}

} // verus!
