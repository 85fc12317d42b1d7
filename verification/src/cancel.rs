//! Cooperative cancellation.
//!
//! A token is shared between the code that requests cancellation (a signal
//! handler, a caller) and the loops that poll it. Its flag lives in shared
//! atomic memory, so no contract here states what a poll returns: another
//! holder of the token may set the flag at any moment.

use vstd::prelude::*;

use std::sync::atomic::AtomicBool;
use std::sync::Arc;

verus! {

/// A cloneable cancellation token.
#[derive(Clone)]
pub struct CancelToken(Arc<AtomicBool>);

impl CancelToken {
    /// A token that has not been cancelled.
    pub fn new() -> Self {
        Self(Arc::new(AtomicBool::new(false)))
    }

    /// Request cancellation (visible to every clone of this token).
    pub fn cancel(&self) {
        self.0.store(true, std::sync::atomic::Ordering::SeqCst);
    }

    /// Whether cancellation has been requested through any clone.
    pub fn is_cancelled(&self) -> bool {
        self.0.load(std::sync::atomic::Ordering::SeqCst)
    }
}

impl Default for CancelToken {
    fn default() -> Self {
        Self::new()
    }
}

} // verus!
