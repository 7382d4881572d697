//! Settling the outcome of a request raced against a deadline.
//!
//! `tokio::time::timeout` yields `Err(Elapsed)` when the deadline passes
//! first, and otherwise the request's own result. The two layers are
//! flattened into one result whose error tells a missed deadline apart
//! from a failed request.

use vstd::prelude::*;
use tokio::time::error::Elapsed;

verus! {

/// `tokio::time::error::Elapsed`: the deadline passed before the future finished.
#[verifier::external_type_specification]
#[verifier::external_body]
pub struct ExElapsed(Elapsed);

/// Why a request under a deadline produced no value.
#[derive(Debug)]
pub enum TimeoutError<E> {
    /// The deadline passed first; the request was dropped.
    Elapsed,
    /// The request finished in time, with this error.
    Failed(E),
}

/// Flatten the result of a request raced against a deadline.
pub fn settle_timed<T, E>(outcome: Result<Result<T, E>, Elapsed>) -> (res: Result<
    T,
    TimeoutError<E>,
>)
    ensures
        match outcome {
            Ok(Ok(v)) => res == Ok::<T, TimeoutError<E>>(v),
            Ok(Err(e)) => res == Err::<T, TimeoutError<E>>(TimeoutError::Failed(e)),
            Err(_) => res == Err::<T, TimeoutError<E>>(TimeoutError::Elapsed),
        },
{
    match outcome {
        Ok(Ok(v)) => Ok(v),
        Ok(Err(e)) => Err(TimeoutError::Failed(e)),
        Err(_) => Err(TimeoutError::Elapsed),
    }
}

} // verus!
