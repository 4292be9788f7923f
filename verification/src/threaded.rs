//! The thread-per-operation strategy, as far as it decides anything: the
//! ready flag that a wake sets and the parking worker consumes, the worker's
//! next move after each poll and each wait, and the cell through which a
//! worker hands its output to the holder of the join handle.
//!
//! The embedding owns the threads, the lock and the condition. It keeps an
//! [`Exec`] and a [`JoinCell`] behind its lock, so that every call below is
//! one indivisible step, and does what the returned values tell it to.

use vstd::prelude::*;
use crate::poll::Poll;

verus! {

/// What a worker does next.
pub enum Action<T> {
    /// Poll the operation again.
    Poll,
    /// Sleep on the condition until it is signalled, then report `Waited`.
    Wait,
    /// The operation is done: deliver this output.
    Finish(T),
}

/// What a worker has just seen.
pub enum Event<T> {
    /// A poll of the operation gave this answer.
    Polled(Poll<T>),
    /// A sleep on the condition has ended, for whatever reason.
    Waited,
}

/// One step of the protocol, as the flag sees it.
pub enum Signal {
    /// Somebody invoked the wake capability.
    Wake,
    /// The worker tried to consume the flag before sleeping.
    Park,
}

/// The flag after a wake, and whether the condition is to be signalled:
/// only the wake that raises the flag signals.
pub open spec fn woken(ready: bool) -> (bool, bool) {
    (true, !ready)
}

/// The flag after an attempt to park, and whether the worker goes on to
/// poll instead of sleeping: it does where the flag was up, and the flag is
/// consumed.
pub open spec fn parked(ready: bool) -> (bool, bool) {
    (false, ready)
}

/// The flag after a sequence of wakes and attempts to park, in order.
pub open spec fn flag_after(ready: bool, signals: Seq<Signal>) -> bool
    decreases signals.len(),
{
    if signals.len() == 0 {
        ready
    } else {
        let before = flag_after(ready, signals.drop_last());
        match signals.last() {
            Signal::Wake => woken(before).0,
            Signal::Park => parked(before).0,
        }
    }
}

/// What the worker does on `event` with the flag at `ready`, and the flag
/// afterwards. A finished operation leaves the flag alone; otherwise the
/// worker tries to park.
pub open spec fn stepped<T>(ready: bool, event: Event<T>) -> (bool, Action<T>) {
    match event {
        Event::Polled(Poll::Ready(output)) => (ready, Action::Finish(output)),
        _ => (
            parked(ready).0,
            if parked(ready).1 {
                Action::Poll
            } else {
                Action::Wait
            },
        ),
    }
}

/// The state of one worker's wake/park protocol: the ready flag, up exactly
/// when a poll is warranted.
pub struct Exec {
    state: bool,
}

impl View for Exec {
    type V = bool;

    closed spec fn view(&self) -> bool {
        self.state
    }
}

impl Exec {
    /// A fresh protocol state. The flag starts up: the first poll is always
    /// warranted.
    pub fn new() -> (exec: Self)
        ensures
            exec@ == true,
    {
        Self { state: true }
    }

    /// Records a wake. Returns whether the condition must be signalled,
    /// which is the case where the flag was down.
    pub fn wake(&mut self) -> (notify: bool)
        ensures
            (final(self)@, notify) == woken(old(self)@),
    {
        let notify = !self.state;
        self.state = true;
        notify
    }

    /// Tries to consume the flag. Returns whether the worker goes on to
    /// poll; where it does not, it has to sleep and try again.
    pub fn park(&mut self) -> (resumed: bool)
        ensures
            (final(self)@, resumed) == parked(old(self)@),
    {
        let resumed = self.state;
        self.state = false;
        resumed
    }

    /// Decides the worker's next move after `event`.
    pub fn step<T>(&mut self, event: Event<T>) -> (action: Action<T>)
        ensures
            (final(self)@, action) == stepped(old(self)@, event),
    {
        match event {
            Event::Polled(Poll::Ready(output)) => Action::Finish(output),
            _ => {
                if self.park() {
                    Action::Poll
                } else {
                    Action::Wait
                }
            },
        }
    }
}

/// A wake is never lost: whatever happened before, once a wake has been
/// recorded and no attempt to park has followed it, the next attempt to park
/// sends the worker back to polling. Further wakes in between change nothing.
pub proof fn lemma_wake_is_not_lost(ready: bool, signals: Seq<Signal>, last_wake: int)
    requires
        0 <= last_wake < signals.len(),
        signals[last_wake] is Wake,
        forall|j: int| last_wake < j < signals.len() ==> signals[j] is Wake,
    ensures
        flag_after(ready, signals) == true,
        parked(flag_after(ready, signals)).1 == true,
        stepped(flag_after(ready, signals), Event::<()>::Waited).1 == Action::<()>::Poll,
        stepped(flag_after(ready, signals), Event::<()>::Polled(Poll::Pending)).1 == Action::<()>::Poll,
{
    assert(signals.last() is Wake);
}

/// A worker that found the flag down and went to sleep is signalled by the
/// next wake, and its next attempt to park then succeeds.
pub proof fn lemma_sleeper_is_signalled(ready: bool)
    requires
        !parked(ready).1,
    ensures
        woken(parked(ready).0).1 == true,
        parked(woken(parked(ready).0).0).1 == true,
{
}

/// Waking twice before the flag is consumed is waking once: the flag is the
/// same, and the second wake signals nobody.
pub proof fn lemma_wake_is_idempotent(ready: bool)
    ensures
        woken(woken(ready).0).0 == woken(ready).0,
        woken(woken(ready).0).1 == false,
{
}

/// One attempt to park consumes the flag: without a new wake the next
/// attempt finds it down, however many wakes had raised it.
pub proof fn lemma_park_consumes_the_flag(ready: bool)
    ensures
        parked(parked(ready).0).1 == false,
{
}

/// What the cell through which a worker delivers its output holds.
pub struct JoinCellView<T, W> {
    /// The output, from the worker's completion until it is collected.
    pub output: Option<T>,
    /// The wake capability of the task that awaits the output, if it has
    /// asked in vain.
    pub waker: Option<W>,
}

/// The cell after the worker has delivered `output`, and the wake capability
/// that must now be invoked, if one was registered.
pub open spec fn completed<T, W>(cell: JoinCellView<T, W>, output: T) -> (JoinCellView<T, W>, Option<W>) {
    (JoinCellView { output: Some(output), waker: None }, cell.waker)
}

/// The cell after the join handle was polled with `waker`, and the answer:
/// an output that is there is handed out and the cell cleared of it;
/// otherwise `waker` is registered, replacing an earlier one.
pub open spec fn joined<T, W>(cell: JoinCellView<T, W>, waker: W) -> (JoinCellView<T, W>, Poll<T>) {
    match cell.output {
        Some(output) => (JoinCellView { output: None, waker: cell.waker }, Poll::Ready(output)),
        None => (JoinCellView { output: None, waker: Some(waker) }, Poll::Pending),
    }
}

/// The cell shared by a worker and the holder of its join handle.
pub struct JoinCell<T, W> {
    output: Option<T>,
    waker: Option<W>,
}

impl<T, W> View for JoinCell<T, W> {
    type V = JoinCellView<T, W>;

    closed spec fn view(&self) -> JoinCellView<T, W> {
        JoinCellView { output: self.output, waker: self.waker }
    }
}

impl<T, W> JoinCell<T, W> {
    /// A cell with no output and no registered wake capability.
    pub fn new() -> (cell: Self)
        ensures
            cell@ == (JoinCellView::<T, W> { output: None, waker: None }),
    {
        Self { output: None, waker: None }
    }

    /// The worker's last step: stores the output and hands back the wake
    /// capability to invoke, if the join handle had registered one.
    pub fn complete(&mut self, output: T) -> (registered: Option<W>)
        ensures
            (final(self)@, registered) == completed(old(self)@, output),
    {
        self.output = Some(output);
        self.waker.take()
    }

    /// The join handle's poll: takes the output if it is there, registers
    /// `waker` if it is not.
    pub fn poll(&mut self, waker: W) -> (outcome: Poll<T>)
        ensures
            (final(self)@, outcome) == joined(old(self)@, waker),
    {
        match self.output.take() {
            Some(output) => Poll::Ready(output),
            None => {
                self.waker = Some(waker);
                Poll::Pending
            },
        }
    }
}

/// The threaded join handle delivers an output exactly once: the poll after
/// the worker's completion yields that very output, and every poll after
/// that one yields nothing, whatever wake capabilities are passed.
pub proof fn lemma_output_is_delivered_once<T, W>(cell: JoinCellView<T, W>, output: T, first: W, later: Seq<W>)
    ensures
        joined(completed(cell, output).0, first).1 == Poll::Ready(output),
        forall|n: int| 0 <= n < later.len() ==> #[trigger] joined_again(joined(completed(cell, output).0, first).0, later, n) is Pending,
{
    let emptied = joined(completed(cell, output).0, first).0;
    assert forall|n: int| 0 <= n < later.len() implies #[trigger] joined_again(emptied, later, n) is Pending by {
        lemma_empty_cell_stays_empty(emptied, later, n);
    }
}

/// The answer of the poll with `wakers[n]`, after the polls with the wake
/// capabilities before it, starting from `cell`.
pub open spec fn joined_again<T, W>(cell: JoinCellView<T, W>, wakers: Seq<W>, n: int) -> Poll<T>
    recommends
        0 <= n < wakers.len(),
    decreases n,
{
    if n <= 0 {
        joined(cell, wakers[0]).1
    } else {
        joined_again(joined(cell, wakers[0]).0, wakers.skip(1), n - 1)
    }
}

proof fn lemma_empty_cell_stays_empty<T, W>(cell: JoinCellView<T, W>, wakers: Seq<W>, n: int)
    requires
        cell.output is None,
        0 <= n < wakers.len(),
    ensures
        joined_again(cell, wakers, n) is Pending,
    decreases n,
{
    if n > 0 {
        lemma_empty_cell_stays_empty(joined(cell, wakers[0]).0, wakers.skip(1), n - 1);
    }
}

} // verus!
