//! The answer of a computation that was asked for its progress.

use vstd::prelude::*;

verus! {

/// Either a value that has become available, or the statement that there is
/// none yet.
#[derive(Debug, PartialEq, Eq)]
pub enum Poll<T> {
    /// The value is here.
    Ready(T),
    /// Nothing yet: ask again after a wake.
    Pending,
}

impl<T> Poll<T> {
    /// Whether a value is here.
    pub fn is_ready(&self) -> (ready: bool)
        ensures
            ready == (*self is Ready),
    {
        match self {
            Poll::Ready(_) => true,
            Poll::Pending => false,
        }
    }

    /// Whether there is no value yet.
    pub fn is_pending(&self) -> (pending: bool)
        ensures
            pending == (*self is Pending),
    {
        match self {
            Poll::Ready(_) => false,
            Poll::Pending => true,
        }
    }
}

} // verus!
