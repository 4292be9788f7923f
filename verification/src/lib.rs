//! A minimal engine for driving suspending computations to completion.
//!
//! An [`Operation`] is a computation that can be asked whether it is done.
//! The cooperative [`Exec`] multiplexes a table of operations on one thread;
//! the [`threaded`] module holds the wake/park protocol and the result cell
//! of the thread-per-operation strategy; [`Join`] fans many [`Notifier`]s
//! into one control flow.

pub mod cooperative;
pub mod join;
pub mod operation;
pub mod poll;
pub mod threaded;

pub use cooperative::{spawn, Exec, JoinHandle, Task};
pub use join::{Cycle, Handler, Join, Joining, On, Retire, Selector, Whole};
pub use operation::{Fuse, Immediate, Notifier, Operation};
pub use poll::Poll;
