//! Computations that the executors drive.

use vstd::prelude::*;
use crate::poll::Poll;

verus! {

/// A computation that can be asked whether it is done.
///
/// An operation that answers `Pending` has arranged for the executor that
/// drives it to be woken once progress is possible. After it has answered
/// `Ready` it is not asked again: the executors drop it at that point.
pub trait Operation: Sized {
    /// What the operation produces when it is done.
    type Output;

    /// Which answers one poll of `self` may give, and the state `next` that
    /// it leaves the operation in. An operation whose progress depends on
    /// the outside world allows every answer, and that is what an
    /// implementation states unless it says otherwise.
    open spec fn polls_to(&self, next: &Self, outcome: Poll<Self::Output>) -> bool {
        true
    }

    /// Asks the operation once.
    fn poll(&mut self) -> (outcome: Poll<Self::Output>)
        ensures
            old(self).polls_to(final(self), outcome),
    ;
}

/// A source of events that can be asked again and again: unlike an
/// operation it is never done, and each event is handed out once.
pub trait Notifier: Sized {
    /// What the source produces.
    type Event;

    /// Which answers one poll of `self` may give, and the state `next` that
    /// it leaves the source in. A source that depends on the outside world
    /// allows every answer, and that is what an implementation states
    /// unless it says otherwise.
    open spec fn yields(&self, next: &Self, outcome: Poll<Self::Event>) -> bool {
        true
    }

    /// Asks the source once.
    fn poll_next(&mut self) -> (outcome: Poll<Self::Event>)
        ensures
            old(self).yields(final(self), outcome),
    ;
}

/// An operation that is done at its first poll.
pub struct Immediate<T> {
    value: Option<T>,
}

impl<T> View for Immediate<T> {
    type V = Option<T>;

    closed spec fn view(&self) -> Option<T> {
        self.value
    }
}

impl<T> Immediate<T> {
    /// The operation that produces `value`.
    pub fn new(value: T) -> (operation: Self)
        ensures
            operation@ == Some(value),
    {
        Immediate { value: Some(value) }
    }
}

impl<T> Operation for Immediate<T> {
    type Output = T;

    /// The value is handed out by the first poll; every later poll finds
    /// nothing.
    open spec fn polls_to(&self, next: &Self, outcome: Poll<T>) -> bool {
        &&& next@ is None
        &&& outcome == match self@ {
            Some(value) => Poll::Ready(value),
            None => Poll::Pending,
        }
    }

    fn poll(&mut self) -> (outcome: Poll<T>) {
        match self.value.take() {
            Some(value) => Poll::Ready(value),
            None => Poll::Pending,
        }
    }
}

/// An operation as a source of events. Its output is its one event: the
/// operation is polled until it is done, and never after that.
pub struct Fuse<F: Operation> {
    operation: Option<F>,
}

impl<F: Operation> View for Fuse<F> {
    type V = Option<F>;

    closed spec fn view(&self) -> Option<F> {
        self.operation
    }
}

impl<F: Operation> Fuse<F> {
    /// The source whose one event is the output of `operation`.
    pub fn new(operation: F) -> (source: Self)
        ensures
            source@ == Some(operation),
    {
        Fuse { operation: Some(operation) }
    }

    /// Whether the operation is done and its output handed out.
    pub fn is_done(&self) -> (done: bool)
        ensures
            done == (self@ is None),
    {
        self.operation.is_none()
    }
}

impl<F: Operation> Notifier for Fuse<F> {
    type Event = F::Output;

    /// A source that still holds its operation polls it once and passes the
    /// answer on, keeping the operation only while it is not done. A source
    /// without an operation has no event, ever.
    open spec fn yields(&self, next: &Self, outcome: Poll<F::Output>) -> bool {
        match self@ {
            Some(operation) => exists|polled: F| #[trigger]
                operation.polls_to(&polled, outcome) && next@ == if outcome is Ready {
                    None
                } else {
                    Some(polled)
                },
            None => next@ is None && outcome is Pending,
        }
    }

    fn poll_next(&mut self) -> (outcome: Poll<F::Output>) {
        match self.operation.take() {
            Some(operation) => {
                let mut operation = operation;
                let outcome = operation.poll();
                if outcome.is_pending() {
                    self.operation = Some(operation);
                }
                outcome
            },
            None => Poll::Pending,
        }
    }
}

} // verus!
