//! What a request comes to: a refusal that changes nothing, or a new state
//! together with an answer.

use vstd::prelude::*;

verus! {

/// The answer given to the caller.
pub open spec fn answer<S, T, E>(outcome: Result<(S, T), E>) -> Result<T, E> {
    match outcome {
        Ok((_, t)) => Ok(t),
        Err(e) => Err(e),
    }
}

/// The state after the request.
pub open spec fn after<S, T, E>(before: S, outcome: Result<(S, T), E>) -> S {
    match outcome {
        Ok((s, _)) => s,
        Err(_) => before,
    }
}

} // verus!
