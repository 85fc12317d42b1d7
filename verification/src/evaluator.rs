//! Errors surfaced by a position evaluator.

use vstd::prelude::*;

verus! {

/// Errors surfaced by an evaluator. Every request must produce either a
/// result or an error; an evaluator never drops a request.
#[derive(Debug, PartialEq, Eq)]
pub enum EvalError {
    /// The evaluator is shutting down; the request was not processed.
    Shutdown,
    /// A backend/model failure with a human-readable reason.
    Backend(String),
    /// The request was malformed (e.g. empty candidate list, wrong policy len).
    Invalid(String),
    /// A wall-clock deadline passed before every requested game could start.
    /// No partial result is returned.
    DeadlineExceeded(String),
}

impl Clone for EvalError {
    fn clone(&self) -> (r: Self)
        ensures
            r == *self,
    {
        match self {
            EvalError::Shutdown => EvalError::Shutdown,
            EvalError::Backend(m) => EvalError::Backend(m.clone()),
            EvalError::Invalid(m) => EvalError::Invalid(m.clone()),
            EvalError::DeadlineExceeded(m) => EvalError::DeadlineExceeded(m.clone()),
        }
    }
}

} // verus!
