//! The cooperative executor: one thread, a table of operation slots, and a
//! full sweep of the table on every wake.

use core::marker::PhantomData;
use vstd::prelude::*;
use crate::operation::Operation;
use crate::poll::Poll;

verus! {

/// One slot of the table: an operation, the output it left, or nothing.
pub enum Task<F: Operation> {
    /// An operation that is not done yet.
    Future(F),
    /// The output of an operation that is done, not yet collected.
    Output(F::Output),
    /// A free slot.
    Empty,
}

impl<F: Operation> Task<F> {
    /// Empties the slot and hands out what it held.
    pub fn take(&mut self) -> (taken: Self)
        ensures
            taken == *old(self),
            *final(self) == Task::<F>::Empty,
    {
        let mut output = Task::Empty;
        core::mem::swap(&mut output, self);
        output
    }

    /// What a slot holds once its operation, now in state `next`, has
    /// answered `outcome`.
    pub open spec fn settled(next: F, outcome: Poll<F::Output>) -> Self {
        match outcome {
            Poll::Ready(output) => Task::Output(output),
            Poll::Pending => Task::Future(next),
        }
    }

    /// Builds the slot for an operation that has just been polled: its
    /// output if it is done, the operation itself if it is not.
    pub fn settle(next: F, outcome: Poll<F::Output>) -> (slot: Self)
        ensures
            slot == Self::settled(next, outcome),
    {
        match outcome {
            Poll::Ready(output) => Task::Output(output),
            Poll::Pending => Task::Future(next),
        }
    }
}

/// How one sweep may change a slot: a free slot and a waiting output stay
/// as they are, an operation is polled once and the slot settles on what it
/// answered.
pub open spec fn swept_slot<F: Operation>(before: Task<F>, after: Task<F>) -> bool {
    match before {
        Task::Future(f) => exists|next: F, outcome: Poll<F::Output>|
            #[trigger] f.polls_to(&next, outcome) && after == Task::settled(next, outcome),
        _ => after == before,
    }
}

/// How one sweep may change a table: slot by slot, the length kept.
pub open spec fn swept<F: Operation>(before: Seq<Task<F>>, after: Seq<Task<F>>) -> bool {
    &&& after.len() == before.len()
    &&& forall|i: int| 0 <= i < before.len() ==> swept_slot(before[i], #[trigger] after[i])
}

/// Whether sweeping the one slot `position` may turn the table `earlier`
/// into `now`: that slot is swept, and nothing else changes.
pub open spec fn swept_at<F: Operation>(earlier: Seq<Task<F>>, now: Seq<Task<F>>, position: int) -> bool {
    &&& 0 <= position < earlier.len()
    &&& swept_slot(earlier[position], now[position])
    &&& now == earlier.update(position, now[position])
}

/// Whether a sweep may have got through the first `count` slots, in
/// ascending order from slot 0, and have turned the table `before` into
/// `now`: slot `count - 1` was swept on the table that the sweep of the
/// slots before it had left.
pub open spec fn swept_through<F: Operation>(before: Seq<Task<F>>, now: Seq<Task<F>>, count: nat) -> bool
    decreases count,
{
    if count == 0 {
        now == before
    } else {
        exists|earlier: Seq<Task<F>>|
            {
                &&& #[trigger] swept_at(earlier, now, count - 1)
                &&& swept_through(before, earlier, (count - 1) as nat)
            }
    }
}

/// Whether one whole sweep, slot after slot in ascending order, may turn the
/// table `before` into `after`.
pub open spec fn swept_in_order<F: Operation>(before: Seq<Task<F>>, after: Seq<Task<F>>) -> bool {
    swept_through(before, after, before.len())
}

/// What a poll of the handle for slot `index` gives on `table`: nothing once
/// the handle has delivered, and otherwise what waits in the slot.
pub open spec fn joined<F: Operation>(spent: bool, table: Seq<Task<F>>, index: int) -> Poll<F::Output> {
    if spent {
        Poll::Pending
    } else {
        collected(table, index)
    }
}

/// Whether a handle for slot `index` has delivered after it was polled on
/// each of `tables` in turn, having started as `spent` says.
pub open spec fn spent_after<F: Operation>(spent: bool, tables: Seq<Seq<Task<F>>>, index: int) -> bool
    decreases tables.len(),
{
    if tables.len() == 0 {
        spent
    } else {
        let before = spent_after(spent, tables.drop_last(), index);
        before || joined(before, tables.last(), index) is Ready
    }
}

/// Whether `index` is the slot that the next operation goes to: the first
/// free slot, or the end of the table where none is free.
pub open spec fn is_first_free<F: Operation>(table: Seq<Task<F>>, index: int) -> bool {
    &&& 0 <= index <= table.len()
    &&& forall|j: int| 0 <= j < index ==> !(#[trigger] table[j] is Empty)
    &&& index < table.len() ==> table[index] is Empty
}

/// What collecting from slot `index` of `table` gives: the output that waits
/// there, if one does.
pub open spec fn collected<F: Operation>(table: Seq<Task<F>>, index: int) -> Poll<F::Output> {
    if 0 <= index < table.len() {
        match table[index] {
            Task::Output(output) => Poll::Ready(output),
            _ => Poll::Pending,
        }
    } else {
        Poll::Pending
    }
}

/// The table with `f` stored at `index`, grown by free slots where `index`
/// lies beyond its end. No slot is ever removed.
pub open spec fn placed<F: Operation>(table: Seq<Task<F>>, index: int, f: F) -> Seq<Task<F>>
    recommends
        0 <= index,
{
    Seq::new(
        if index < table.len() { table.len() } else { (index + 1) as nat },
        |i: int|
            if i == index {
                Task::Future(f)
            } else if i < table.len() {
                table[i]
            } else {
                Task::Empty
            },
    )
}

/// The cooperative executor: a table of slots owned by one thread.
pub struct Exec<F: Operation> {
    tasks: Vec<Task<F>>,
}

impl<F: Operation> View for Exec<F> {
    type V = Seq<Task<F>>;

    closed spec fn view(&self) -> Seq<Task<F>> {
        self.tasks@
    }
}

impl<F: Operation> Exec<F> {
    /// Well-formedness: every index of the table, and its length, fit the
    /// handle type.
    pub open spec fn wf(&self) -> bool {
        self@.len() <= u32::MAX
    }

    /// An executor with an empty table.
    pub fn new() -> (exec: Self)
        ensures
            exec.wf(),
            exec@ == Seq::<Task<F>>::empty(),
    {
        Self { tasks: Vec::new() }
    }

    /// The number of slots, free ones included.
    pub fn len(&self) -> (len: usize)
        ensures
            len == self@.len(),
    {
        self.tasks.len()
    }

    /// One pass through the table: every operation in it is polled once, in
    /// ascending order of the slots. An operation that is done leaves its
    /// output in its slot; one that is not stays where it is.
    pub fn wake(&mut self)
        ensures
            swept(old(self)@, final(self)@),
            swept_in_order(old(self)@, final(self)@),
    {
        let tasks_len: usize = self.tasks.len();
        let mut task_id: usize = 0;
        while task_id < tasks_len
            invariant
                task_id <= tasks_len,
                tasks_len == old(self)@.len(),
                self.tasks@.len() == tasks_len,
                forall|i: int| 0 <= i < task_id ==> swept_slot(old(self)@[i], #[trigger] self.tasks@[i]),
                forall|i: int| task_id <= i < tasks_len ==> self.tasks@[i] == old(self)@[i],
                swept_through(old(self)@, self.tasks@, task_id as nat),
            decreases tasks_len - task_id,
        {
            let ghost earlier = self.tasks@;
            let task = self.tasks[task_id].take();
            match task {
                Task::Future(f) => {
                    let mut f = f;
                    let outcome = f.poll();
                    self.tasks[task_id] = Task::settle(f, outcome);
                },
                waiting => {
                    self.tasks[task_id] = waiting;
                },
            }
            task_id += 1;
            proof {
                assert(self.tasks@ =~= earlier.update(task_id - 1, self.tasks@[task_id - 1]));
                assert(swept_at(earlier, self.tasks@, (task_id as nat) - 1));
            }
        }
    }

    /// Takes the output out of slot `handle` if one waits there, and frees
    /// the slot; leaves every other slot, and a slot that holds no output,
    /// as it is.
    pub fn collect(&mut self, handle: u32) -> (outcome: Poll<F::Output>)
        ensures
            outcome == collected(old(self)@, handle as int),
            outcome is Ready ==> final(self)@ == old(self)@.update(handle as int, Task::Empty),
            outcome is Pending ==> final(self)@ == old(self)@,
    {
        if handle as usize >= self.tasks.len() {
            return Poll::Pending;
        }
        let task = self.tasks[handle as usize].take();
        match task {
            Task::Output(output) => {
                assert(self.tasks@ =~= old(self)@.update(handle as int, Task::Empty));
                Poll::Ready(output)
            },
            unfinished => {
                self.tasks[handle as usize] = unfinished;
                assert(self.tasks@ =~= old(self)@);
                Poll::Pending
            },
        }
    }

    /// Finds the slot for the next operation: the first free one, or the end
    /// of the table.
    pub fn find_handle(&self) -> (handle: u32)
        requires
            self.wf(),
        ensures
            is_first_free(self@, handle as int),
    {
        let mut id: usize = 0;
        while id < self.tasks.len()
            invariant
                id <= self.tasks@.len(),
                self.tasks@.len() <= u32::MAX,
                forall|j: int| 0 <= j < id ==> !(#[trigger] self.tasks@[j] is Empty),
            decreases self.tasks@.len() - id,
        {
            match &self.tasks[id] {
                Task::Empty => {
                    return id as u32;
                },
                _ => {},
            }
            id += 1;
        }
        self.tasks.len() as u32
    }

    /// Stores `f` in slot `handle`, growing the table by free slots where
    /// needed, and starts it: one sweep runs at once, so `f` is polled
    /// before this returns. The slot has to be free, or to lie beyond the
    /// end of the table: an operation that runs and an output that waits
    /// are never replaced, and the table never shrinks. The last value of
    /// the handle type is no slot, as the length of the table has to fit
    /// the type too.
    pub fn execute(&mut self, handle: u32, f: F)
        requires
            old(self).wf(),
            handle < u32::MAX,
            handle < old(self)@.len() ==> old(self)@[handle as int] is Empty,
        ensures
            final(self).wf(),
            swept(placed(old(self)@, handle as int, f), final(self)@),
            swept_in_order(placed(old(self)@, handle as int, f), final(self)@),
    {
        while self.tasks.len() <= handle as usize
            invariant
                handle < u32::MAX,
                self.tasks@.len() <= u32::MAX,
                self.tasks@.len() >= old(self)@.len(),
                self.tasks@.len() <= old(self)@.len() || self.tasks@.len() <= handle + 1,
                forall|i: int| 0 <= i < old(self)@.len() ==> self.tasks@[i] == old(self)@[i],
                forall|i: int| old(self)@.len() <= i < self.tasks@.len() ==> #[trigger] self.tasks@[i] is Empty,
            decreases handle + 1 - self.tasks@.len(),
        {
            self.tasks.push(Task::Empty);
        }
        self.tasks[handle as usize] = Task::Future(f);
        assert(self.tasks@ =~= placed(old(self)@, handle as int, f));
        self.wake();
    }
}

/// Starts the operation that `g` makes on `exec` and hands out the permission
/// to collect its output.
///
/// The operation goes to the first free slot, or to a new slot at the end of
/// the table where none is free, and is polled once before this returns.
pub fn spawn<F: Operation, G: Fn() -> F>(exec: &mut Exec<F>, g: G) -> (join: JoinHandle<F::Output>)
    requires
        old(exec).wf(),
        call_requires(g, ()),
        forall|index: int| is_first_free(old(exec)@, index) ==> index < u32::MAX,
    ensures
        final(exec).wf(),
        is_first_free(old(exec)@, join.slot() as int),
        !join.spent(),
        exists|f: F|
            {
                &&& #[trigger] call_ensures(g, (), f)
                &&& swept(placed(old(exec)@, join.slot() as int, f), final(exec)@)
                &&& swept_in_order(placed(old(exec)@, join.slot() as int, f), final(exec)@)
            },
{
    let handle: u32 = exec.find_handle();
    exec.execute(handle, g());
    JoinHandle { handle, spent: false, _phantom: PhantomData }
}

/// An owned permission to collect the output of a spawned operation.
///
/// The slot it names is this operation's from the spawn until the output is
/// collected. After that the slot is free, and a later spawn may take it:
/// the handle remembers that it has delivered, and never looks at the slot
/// again.
pub struct JoinHandle<T> {
    handle: u32,
    spent: bool,
    _phantom: PhantomData<T>,
}

impl<T> JoinHandle<T> {
    /// The index of the slot that the operation was stored in.
    pub closed spec fn slot(&self) -> u32 {
        self.handle
    }

    /// The index of the slot that the operation was stored in.
    pub fn index(&self) -> (index: u32)
        ensures
            index == self.slot(),
    {
        self.handle
    }

    /// Whether the handle has delivered its output.
    pub closed spec fn spent(&self) -> bool {
        self.spent
    }

    /// Whether the handle has delivered its output.
    pub fn is_spent(&self) -> (spent: bool)
        ensures
            spent == self.spent(),
    {
        self.spent
    }

    /// Collects the output if the operation is done: the output is handed
    /// out, the slot becomes free and the handle is spent. If the operation
    /// is not done the answer is `Pending` and the table is unchanged. A
    /// spent handle answers `Pending` whatever the table holds, and leaves
    /// it alone.
    pub fn poll<F: Operation<Output = T>>(&mut self, exec: &mut Exec<F>) -> (outcome: Poll<T>)
        ensures
            outcome == joined(old(self).spent(), old(exec)@, old(self).slot() as int),
            final(self).slot() == old(self).slot(),
            final(self).spent() == (old(self).spent() || outcome is Ready),
            outcome is Ready ==> final(exec)@ == old(exec)@.update(old(self).slot() as int, Task::Empty),
            outcome is Pending ==> final(exec)@ == old(exec)@,
    {
        if self.spent {
            return Poll::Pending;
        }
        let outcome = exec.collect(self.handle);
        if outcome.is_ready() {
            self.spent = true;
        }
        outcome
    }
}

/// A handle delivers at most once: after a poll that yielded an output,
/// every later poll yields nothing, whatever the table has come to hold in
/// between, a slot given to another operation included.
pub proof fn lemma_handle_delivers_at_most_once<F: Operation>(
    spent: bool,
    tables: Seq<Seq<Task<F>>>,
    index: int,
    first: int,
    later: int,
)
    requires
        0 <= first < later < tables.len(),
        joined(spent_after(spent, tables.take(first), index), tables[first], index) is Ready,
    ensures
        joined(spent_after(spent, tables.take(later), index), tables[later], index) is Pending,
{
    assert(tables.take(first + 1).drop_last() =~= tables.take(first));
    assert(tables.take(first + 1).last() == tables[first]);
    lemma_spent_handle_stays_spent(spent, tables, index, first + 1, later);
}

/// A handle that has delivered stays spent through every later poll.
pub proof fn lemma_spent_handle_stays_spent<F: Operation>(
    spent: bool,
    tables: Seq<Seq<Task<F>>>,
    index: int,
    from: int,
    to: int,
)
    requires
        0 <= from <= to <= tables.len(),
        spent_after(spent, tables.take(from), index),
    ensures
        spent_after(spent, tables.take(to), index),
    decreases to - from,
{
    if from < to {
        lemma_spent_handle_stays_spent(spent, tables, index, from, to - 1);
        assert(tables.take(to).drop_last() =~= tables.take(to - 1));
    }
}

/// A sweep in order changes the table as a sweep does, slot by slot: the
/// slots that it got through are swept, the others are as they were.
pub proof fn lemma_swept_through_is_slot_by_slot<F: Operation>(
    before: Seq<Task<F>>,
    now: Seq<Task<F>>,
    count: nat,
)
    requires
        swept_through(before, now, count),
    ensures
        now.len() == before.len(),
        count <= before.len(),
        forall|i: int| 0 <= i < count ==> swept_slot(before[i], #[trigger] now[i]),
        forall|i: int| count <= i < before.len() ==> #[trigger] now[i] == before[i],
    decreases count,
{
    if count > 0 {
        let earlier = choose|earlier: Seq<Task<F>>|
            {
                &&& #[trigger] swept_at(earlier, now, count - 1)
                &&& swept_through(before, earlier, (count - 1) as nat)
            };
        lemma_swept_through_is_slot_by_slot(before, earlier, (count - 1) as nat);
    }
}

/// An output leaves the table exactly once: the collection that yields it
/// frees the slot, so that the slot holds no output until a later spawn has
/// put another operation there and that operation is done. The other slots
/// are not touched.
pub proof fn lemma_output_is_collected_once<F: Operation>(table: Seq<Task<F>>, index: int)
    requires
        collected(table, index) is Ready,
    ensures
        table[index] == Task::<F>::Output(collected(table, index)->Ready_0),
        collected(table.update(index, Task::Empty), index) is Pending,
        forall|other: int| other != index ==> collected(table.update(index, Task::Empty), other) == collected(table, other),
{
}

/// The output that is collected is the operation's own: where a sweep found
/// an operation in a slot and an output is collected from that slot after
/// it, the operation gave that very output when the sweep polled it.
pub proof fn lemma_collected_output_is_exact<F: Operation>(
    before: Seq<Task<F>>,
    after: Seq<Task<F>>,
    index: int,
    f: F,
)
    requires
        0 <= index < before.len(),
        before[index] == Task::Future(f),
        swept(before, after),
        collected(after, index) is Ready,
    ensures
        exists|next: F| f.polls_to(&next, collected(after, index)),
{
    assert(swept_slot(before[index], after[index]));
    let (next, outcome) = choose|next: F, outcome: Poll<F::Output>| #[trigger]
        f.polls_to(&next, outcome) && after[index] == Task::settled(next, outcome);
    assert(f.polls_to(&next, collected(after, index)));
}

/// A sweep neither loses an output nor touches the free slots: an output that
/// waits in a slot is still there after any number of wakes, until it is
/// collected, and the slot that the next operation goes to is the same
/// before and after.
pub proof fn lemma_sweep_keeps_outputs_and_free_slots<F: Operation>(
    before: Seq<Task<F>>,
    after: Seq<Task<F>>,
    index: int,
)
    requires
        swept(before, after),
    ensures
        collected(before, index) is Ready ==> collected(after, index) == collected(before, index),
        is_first_free(before, index) <==> is_first_free(after, index),
{
    if 0 <= index < before.len() {
        assert(swept_slot(before[index], after[index]));
    }
    assert forall|j: int| 0 <= j < before.len() implies (#[trigger] before[j] is Empty <==> after[j] is Empty) by {
        assert(swept_slot(before[j], after[j]));
    }
}

/// A slot whose output was collected is used again before the table grows:
/// the next operation goes to that slot or to a free one before it, and the
/// table keeps its length.
pub proof fn lemma_freed_slot_is_reused<F: Operation>(table: Seq<Task<F>>, index: int, next: int, f: F)
    requires
        collected(table, index) is Ready,
        is_first_free(table.update(index, Task::Empty), next),
    ensures
        next <= index,
        (forall|j: int| 0 <= j < index ==> !(#[trigger] table[j] is Empty)) ==> next == index,
        placed(table.update(index, Task::Empty), next, f).len() == table.len(),
        placed(table.update(index, Task::Empty), next, f) == table.update(index, Task::Empty).update(
            next,
            Task::Future(f),
        ),
{
    let freed = table.update(index, Task::Empty);
    assert(freed[index] is Empty);
    if next > index {
        assert(!(freed[index] is Empty));
    }
    if forall|j: int| 0 <= j < index ==> !(#[trigger] table[j] is Empty) {
        if next < index {
            assert(freed[next] is Empty);
            assert(freed[next] == table[next]);
        }
    }
    assert(placed(freed, next, f) =~= freed.update(next, Task::Future(f)));
}

/// The slot for the next operation is determined by the table.
pub proof fn lemma_first_free_is_unique<F: Operation>(table: Seq<Task<F>>, one: int, other: int)
    requires
        is_first_free(table, one),
        is_first_free(table, other),
    ensures
        one == other,
{
    if one < other {
        assert(table[one] is Empty);
    }
    if other < one {
        assert(table[other] is Empty);
    }
}

} // verus!
