//! The errors that the pool reports to its callers.
use vstd::prelude::*;

verus! {

/// Why the pool refused a request.
#[derive(Clone, Copy, Debug, PartialEq, Eq, Structural)]
pub enum PoolError {
    /// A pool was asked for without a single worker.
    Configuration,
    /// A task was submitted after the queue had been closed.
    Dispatch,
}

} // verus!
