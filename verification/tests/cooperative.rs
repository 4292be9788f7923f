use pasts::{spawn, Exec, Immediate, Operation, Poll, Task};
use std::cell::RefCell;
use std::rc::Rc;

/// An operation that answers `Pending` a given number of times and then
/// produces its value.
struct Countdown {
    left: u32,
    value: &'static str,
}

impl Countdown {
    fn new(left: u32, value: &'static str) -> Self {
        Countdown { left, value }
    }
}

impl Operation for Countdown {
    type Output = &'static str;

    fn poll(&mut self) -> Poll<&'static str> {
        if self.left == 0 {
            Poll::Ready(self.value)
        } else {
            self.left -= 1;
            Poll::Pending
        }
    }
}

#[test]
fn task_take_leaves_the_slot_empty() {
    let mut slot: Task<Countdown> = Task::Output("kept");
    let taken = slot.take();
    assert!(matches!(taken, Task::Output("kept")));
    assert!(matches!(slot, Task::Empty));
    let again = slot.take();
    assert!(matches!(again, Task::Empty));
}

#[test]
fn task_settle_follows_the_answer() {
    let done = Task::settle(Countdown::new(0, "a"), Poll::Ready("out"));
    assert!(matches!(done, Task::Output("out")));
    let waiting = Task::settle(Countdown::new(3, "a"), Poll::Pending);
    assert!(matches!(waiting, Task::Future(Countdown { left: 3, value: "a" })));
}

#[test]
fn new_executor_has_no_slots() {
    let exec: Exec<Countdown> = Exec::new();
    assert_eq!(exec.len(), 0);
    assert_eq!(exec.find_handle(), 0);
}

#[test]
fn spawn_polls_once_and_delivers() {
    let mut exec: Exec<Countdown> = Exec::new();
    let mut join = spawn(&mut exec, || Countdown::new(1, "done"));
    assert_eq!(join.index(), 0);
    assert_eq!(join.poll(&mut exec), Poll::Pending);
    exec.wake();
    assert_eq!(join.poll(&mut exec), Poll::Ready("done"));
}

#[test]
fn spawn_runs_an_immediate_operation_to_its_end() {
    let mut exec: Exec<Immediate<u32>> = Exec::new();
    let mut join = spawn(&mut exec, || Immediate::new(7));
    assert_eq!(join.poll(&mut exec), Poll::Ready(7));
}

#[test]
fn polling_a_pending_operation_does_not_drop_it() {
    let mut exec: Exec<Countdown> = Exec::new();
    let mut join = spawn(&mut exec, || Countdown::new(2, "late"));
    assert_eq!(join.poll(&mut exec), Poll::Pending);
    assert_eq!(join.poll(&mut exec), Poll::Pending);
    exec.wake();
    assert_eq!(join.poll(&mut exec), Poll::Pending);
    exec.wake();
    assert_eq!(join.poll(&mut exec), Poll::Ready("late"));
}

#[test]
fn each_handle_yields_its_own_output_exactly_once() {
    let mut exec: Exec<Countdown> = Exec::new();
    let mut a = spawn(&mut exec, || Countdown::new(2, "a"));
    let mut b = spawn(&mut exec, || Countdown::new(0, "b"));
    let mut c = spawn(&mut exec, || Countdown::new(1, "c"));
    assert_eq!((a.index(), b.index(), c.index()), (0, 1, 2));
    // The sweeps of the three spawns have polled `a` three times already,
    // and `c` once.
    assert_eq!(b.poll(&mut exec), Poll::Ready("b"));
    assert_eq!(b.poll(&mut exec), Poll::Pending);
    assert_eq!(c.poll(&mut exec), Poll::Pending);
    exec.wake();
    assert_eq!(c.poll(&mut exec), Poll::Ready("c"));
    assert_eq!(c.poll(&mut exec), Poll::Pending);
    assert_eq!(a.poll(&mut exec), Poll::Ready("a"));
    assert_eq!(a.poll(&mut exec), Poll::Pending);
    exec.wake();
    assert_eq!(a.poll(&mut exec), Poll::Pending);
    assert_eq!(b.poll(&mut exec), Poll::Pending);
    assert_eq!(c.poll(&mut exec), Poll::Pending);
}

#[test]
fn sweep_keeps_an_output_that_was_not_collected() {
    let mut exec: Exec<Countdown> = Exec::new();
    let mut join = spawn(&mut exec, || Countdown::new(0, "kept"));
    exec.wake();
    exec.wake();
    assert_eq!(join.poll(&mut exec), Poll::Ready("kept"));
}

#[test]
fn freed_slot_is_reused_before_the_table_grows() {
    let mut exec: Exec<Countdown> = Exec::new();
    let mut a = spawn(&mut exec, || Countdown::new(0, "a"));
    let mut b = spawn(&mut exec, || Countdown::new(5, "b"));
    assert_eq!((a.index(), b.index()), (0, 1));
    assert_eq!(a.poll(&mut exec), Poll::Ready("a"));
    let mut c = spawn(&mut exec, || Countdown::new(0, "c"));
    assert_eq!(c.index(), 0);
    assert_eq!(exec.len(), 2);
    // `b` is still in its slot and still running.
    assert_eq!(b.poll(&mut exec), Poll::Pending);
    assert_eq!(c.poll(&mut exec), Poll::Ready("c"));
    for _ in 0..4 {
        exec.wake();
    }
    assert_eq!(b.poll(&mut exec), Poll::Ready("b"));
}

#[test]
fn spent_handle_never_takes_another_output() {
    let mut exec: Exec<Immediate<u32>> = Exec::new();
    let mut old = spawn(&mut exec, || Immediate::new(1));
    assert!(!old.is_spent());
    assert_eq!(old.poll(&mut exec), Poll::Ready(1));
    assert!(old.is_spent());
    // The next operation takes the freed slot and is done at once.
    let mut new = spawn(&mut exec, || Immediate::new(2));
    assert_eq!(new.index(), old.index());
    assert_eq!(exec.len(), 1);
    assert_eq!(old.poll(&mut exec), Poll::Pending);
    assert!(old.is_spent());
    assert!(!new.is_spent());
    assert_eq!(new.poll(&mut exec), Poll::Ready(2));
    assert_eq!(new.poll(&mut exec), Poll::Pending);
    assert_eq!(old.poll(&mut exec), Poll::Pending);
}

#[test]
fn handle_is_not_spent_by_a_poll_in_vain() {
    let mut exec: Exec<Countdown> = Exec::new();
    let mut join = spawn(&mut exec, || Countdown::new(1, "late"));
    assert_eq!(join.poll(&mut exec), Poll::Pending);
    assert!(!join.is_spent());
    exec.wake();
    assert_eq!(join.poll(&mut exec), Poll::Ready("late"));
    assert!(join.is_spent());
}

#[test]
fn first_free_slot_is_the_lowest() {
    let mut exec: Exec<Countdown> = Exec::new();
    let mut handles = Vec::new();
    for _ in 0..4 {
        handles.push(spawn(&mut exec, || Countdown::new(0, "x")));
    }
    assert_eq!(exec.find_handle(), 4);
    assert_eq!(handles[2].poll(&mut exec), Poll::Ready("x"));
    assert_eq!(exec.find_handle(), 2);
    assert_eq!(handles[1].poll(&mut exec), Poll::Ready("x"));
    assert_eq!(exec.find_handle(), 1);
    let d = spawn(&mut exec, || Countdown::new(9, "d"));
    assert_eq!(d.index(), 1);
    assert_eq!(exec.find_handle(), 2);
}

#[test]
fn execute_grows_the_table_by_free_slots() {
    let mut exec: Exec<Countdown> = Exec::new();
    exec.execute(3, Countdown::new(0, "far"));
    assert_eq!(exec.len(), 4);
    assert_eq!(exec.find_handle(), 0);
    assert_eq!(exec.collect(0), Poll::Pending);
    assert_eq!(exec.collect(3), Poll::Ready("far"));
    assert_eq!(exec.collect(3), Poll::Pending);
    assert_eq!(exec.len(), 4);
}

#[test]
fn execute_never_shrinks_the_table() {
    let mut exec: Exec<Countdown> = Exec::new();
    exec.execute(2, Countdown::new(0, "last"));
    exec.execute(0, Countdown::new(0, "first"));
    assert_eq!(exec.len(), 3);
    assert_eq!(exec.collect(2), Poll::Ready("last"));
    assert_eq!(exec.collect(0), Poll::Ready("first"));
}

#[test]
fn collect_beyond_the_table_yields_nothing() {
    let mut exec: Exec<Countdown> = Exec::new();
    assert_eq!(exec.collect(0), Poll::Pending);
    exec.execute(0, Countdown::new(0, "only"));
    assert_eq!(exec.collect(1), Poll::Pending);
    assert_eq!(exec.collect(u32::MAX), Poll::Pending);
    assert_eq!(exec.len(), 1);
    assert_eq!(exec.collect(0), Poll::Ready("only"));
}

#[test]
fn wake_polls_every_operation_once() {
    let mut exec: Exec<Countdown> = Exec::new();
    exec.execute(0, Countdown::new(3, "a"));
    exec.execute(1, Countdown::new(1, "b"));
    // After the two sweeps of `execute`: a has 1 left, b has 0 left.
    exec.wake();
    assert_eq!(exec.collect(0), Poll::Pending);
    assert_eq!(exec.collect(1), Poll::Ready("b"));
    exec.wake();
    assert_eq!(exec.collect(0), Poll::Ready("a"));
}

/// An operation that writes its name into a shared log at every poll, and
/// is done after a given number of polls in vain.
struct Logged {
    name: u32,
    left: u32,
    log: Rc<RefCell<Vec<u32>>>,
}

impl Operation for Logged {
    type Output = u32;

    fn poll(&mut self) -> Poll<u32> {
        self.log.borrow_mut().push(self.name);
        if self.left == 0 {
            Poll::Ready(self.name)
        } else {
            self.left -= 1;
            Poll::Pending
        }
    }
}

#[test]
fn one_wake_polls_each_waiting_operation_once_in_slot_order() {
    let log = Rc::new(RefCell::new(Vec::new()));
    let mut exec: Exec<Logged> = Exec::new();
    exec.execute(0, Logged { name: 0, left: 9, log: log.clone() });
    exec.execute(1, Logged { name: 1, left: 9, log: log.clone() });
    exec.execute(2, Logged { name: 2, left: 9, log: log.clone() });
    // Each `execute` ran one sweep over what the table held by then.
    assert_eq!(*log.borrow(), vec![0, 0, 1, 0, 1, 2]);
    log.borrow_mut().clear();
    exec.wake();
    assert_eq!(*log.borrow(), vec![0, 1, 2]);
    exec.wake();
    assert_eq!(*log.borrow(), vec![0, 1, 2, 0, 1, 2]);
}

#[test]
fn three_operations_done_in_one_sweep_complete_in_slot_order() {
    let log = Rc::new(RefCell::new(Vec::new()));
    let mut exec: Exec<Logged> = Exec::new();
    // After the three sweeps of `execute` each has exactly one poll to go.
    exec.execute(0, Logged { name: 10, left: 3, log: log.clone() });
    exec.execute(1, Logged { name: 11, left: 2, log: log.clone() });
    exec.execute(2, Logged { name: 12, left: 1, log: log.clone() });
    assert_eq!(exec.collect(0), Poll::Pending);
    assert_eq!(exec.collect(1), Poll::Pending);
    assert_eq!(exec.collect(2), Poll::Pending);
    log.borrow_mut().clear();
    exec.wake();
    assert_eq!(*log.borrow(), vec![10, 11, 12]);
    // A further sweep finds outputs only, and polls nothing.
    exec.wake();
    assert_eq!(*log.borrow(), vec![10, 11, 12]);
    assert_eq!(exec.collect(0), Poll::Ready(10));
    assert_eq!(exec.collect(1), Poll::Ready(11));
    assert_eq!(exec.collect(2), Poll::Ready(12));
}

#[test]
fn poll_answers_report_themselves() {
    assert!(Poll::Ready(1).is_ready());
    assert!(!Poll::Ready(1).is_pending());
    assert!(Poll::<u8>::Pending.is_pending());
    assert!(!Poll::<u8>::Pending.is_ready());
}
