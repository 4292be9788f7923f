//! The fan-in combinator: many event sources, drawn from the caller's state,
//! polled in turn, each event routed through a handler.

use core::marker::PhantomData;
use vstd::prelude::*;
use crate::operation::{Notifier, Operation};
use crate::poll::Poll;

verus! {

/// Designates, in the caller's state, the collection of sources that a
/// handler listens to. The sources are addressed by their position in it.
pub trait Selector<S>: Sized {
    /// The kind of source that is selected.
    type Source: Notifier;

    /// Whether `picked` is the collection that the selector hands out of
    /// `state`. Nothing is stated unless an implementation says otherwise.
    open spec fn picks(&self, state: &S, picked: &Vec<Self::Source>) -> bool {
        true
    }

    /// Whether `after` is the state that `state` becomes once the collection
    /// handed out of it is given back holding `left`. Nothing is stated
    /// unless an implementation says otherwise.
    open spec fn restores(&self, state: &S, left: &Vec<Self::Source>, after: &S) -> bool {
        true
    }

    /// Hands out the collection.
    fn select<'a>(&self, state: &'a mut S) -> (sources: &'a mut Vec<Self::Source>)
        ensures
            self.picks(old(state), &*sources),
            self.restores(old(state), final(sources), final(state)),
    ;
}

/// Reacts to the events of the sources that a selector designates.
pub trait Handler<S, E>: Sized {
    /// The final result that the handler may produce.
    type Output;

    /// Whether the handler, called for `event` of the source at `index`, may
    /// turn the state `before` into `after` and give `answer`. Nothing is
    /// stated unless an implementation says otherwise.
    open spec fn handles(&self, before: &S, after: &S, index: usize, event: E, answer: Poll<Self::Output>) -> bool {
        true
    }

    /// Handles one event: `Ready` carries the final result, `Pending` means
    /// that the combinator goes on.
    fn handle(&self, state: &mut S, index: usize, event: E) -> (answer: Poll<Self::Output>)
        ensures
            self.handles(old(state), final(state), index, event, answer),
    ;
}

/// What became of one position in a polling cycle.
pub enum Visit<R> {
    /// There is no source at this position: the cycle is over.
    Done,
    /// The source had no event.
    Idle,
    /// The source had an event, the handler ran and gave this answer.
    Handled(Poll<R>),
}

/// Whether visiting position `index` may turn the state `before` into
/// `after` with the outcome `visit`.
///
/// The selector hands out the collection. Beyond its end the visit is
/// `Done`. Otherwise the source at `index`, and no other, is polled once and
/// the collection given back; an event goes to the handler at once, with the
/// same index, and the handler's answer is the visit's.
pub open spec fn visited<S, Sel: Selector<S>, H: Handler<S, <Sel::Source as Notifier>::Event>>(
    select: &Sel,
    handler: &H,
    before: S,
    after: S,
    index: usize,
    visit: Visit<H::Output>,
) -> bool {
    exists|picked: Vec<Sel::Source>| #[trigger]
        select.picks(&before, &picked) && if index >= picked@.len() {
            &&& visit is Done
            &&& select.restores(&before, &picked, &after)
        } else {
            exists|next: Sel::Source, outcome: Poll<<Sel::Source as Notifier>::Event>, left: Vec<Sel::Source>, mid: S|
                {
                    &&& #[trigger] picked@[index as int].yields(&next, outcome)
                    &&& left@ == picked@.update(index as int, next)
                    &&& #[trigger] select.restores(&before, &left, &mid)
                    &&& match outcome {
                        Poll::Pending => visit is Idle && after == mid,
                        Poll::Ready(event) => visit is Handled && handler.handles(
                            &mid,
                            &after,
                            index,
                            event,
                            visit->Handled_0,
                        ),
                    }
                }
        }
}

/// Visits one position of the collection that `select` designates in
/// `state`.
pub fn visit<S, Sel: Selector<S>, H: Handler<S, <Sel::Source as Notifier>::Event>>(
    select: &Sel,
    handler: &H,
    state: &mut S,
    index: usize,
) -> (visit: Visit<H::Output>)
    ensures
        visited(select, handler, *old(state), *final(state), index, visit),
        !(visit is Done) ==> index < usize::MAX,
{
    let sources = select.select(state);
    if index >= sources.len() {
        return Visit::Done;
    }
    let outcome = sources[index].poll_next();
    match outcome {
        Poll::Ready(event) => Visit::Handled(handler.handle(state, index, event)),
        Poll::Pending => Visit::Idle,
    }
}

/// Whether a cycle goes on to the next position after `visit`.
pub open spec fn goes_on<R>(visit: Visit<R>) -> bool {
    visit is Idle || visit == Visit::<R>::Handled(Poll::Pending)
}

/// Whether the first `count` positions may have been visited, in ascending
/// order from position 0, each visit letting the cycle go on, and have
/// turned the state `before` into `now`.
pub open spec fn progressed<S, Sel: Selector<S>, H: Handler<S, <Sel::Source as Notifier>::Event>>(
    select: &Sel,
    handler: &H,
    before: S,
    now: S,
    count: nat,
) -> bool
    decreases count,
{
    if count == 0 {
        now == before
    } else {
        exists|earlier: S, visit: Visit<H::Output>|
            {
                &&& #[trigger] visited(select, handler, earlier, now, (count - 1) as usize, visit)
                &&& count - 1 <= usize::MAX
                &&& goes_on(visit)
                &&& progressed(select, handler, before, earlier, (count - 1) as nat)
            }
    }
}

/// Whether one polling cycle may turn the state `before` into `after` and
/// give `answer`.
///
/// The positions are visited in ascending order from 0. The cycle ends with
/// the first visit that finds no source, and the answer is then `Pending`;
/// or with the first handler that gives a final result, which is then the
/// answer. No position after that one is visited.
pub open spec fn cycled<S, Sel: Selector<S>, H: Handler<S, <Sel::Source as Notifier>::Event>>(
    select: &Sel,
    handler: &H,
    before: S,
    after: S,
    answer: Poll<H::Output>,
) -> bool {
    exists|count: usize, earlier: S, last: Visit<H::Output>|
        {
            &&& progressed(select, handler, before, earlier, count as nat)
            &&& #[trigger] visited(select, handler, earlier, after, count, last)
            &&& match last {
                Visit::Done => answer is Pending,
                Visit::Idle => false,
                Visit::Handled(given) => given is Ready && answer == given,
            }
        }
}

/// Within one cycle the positions are visited in ascending order, each once
/// and none left out: a cycle that got past `count` positions reached every
/// position below `count` after exactly the positions before it, and went on
/// from there.
pub proof fn lemma_positions_are_visited_in_order<S, Sel: Selector<S>, H: Handler<S, <Sel::Source as Notifier>::Event>>(
    select: &Sel,
    handler: &H,
    before: S,
    now: S,
    count: nat,
    position: nat,
)
    requires
        progressed(select, handler, before, now, count),
        position < count,
    ensures
        position <= usize::MAX,
        exists|reached: S, left: S, visit: Visit<H::Output>|
            {
                &&& progressed(select, handler, before, reached, position)
                &&& #[trigger] visited(select, handler, reached, left, position as usize, visit)
                &&& goes_on(visit)
                &&& progressed(select, handler, before, left, position + 1)
            },
    decreases count,
{
    let (earlier, visit) = choose|earlier: S, visit: Visit<H::Output>|
        {
            &&& #[trigger] visited(select, handler, earlier, now, (count - 1) as usize, visit)
            &&& count - 1 <= usize::MAX
            &&& goes_on(visit)
            &&& progressed(select, handler, before, earlier, (count - 1) as nat)
        };
    if position + 1 < count {
        lemma_positions_are_visited_in_order(select, handler, before, earlier, (count - 1) as nat, position);
    }
}

/// Runs one polling cycle over the sources that `select` designates in
/// `state`.
pub fn cycle<S, Sel: Selector<S>, H: Handler<S, <Sel::Source as Notifier>::Event>>(
    select: &Sel,
    handler: &H,
    state: &mut S,
) -> (answer: Poll<H::Output>)
    ensures
        cycled(select, handler, *old(state), *final(state), answer),
{
    let mut index: usize = 0;
    loop
        invariant
            progressed(select, handler, *old(state), *state, index as nat),
        decreases usize::MAX - index,
    {
        let ghost earlier = *state;
        let visit = visit(select, handler, state, index);
        match visit {
            Visit::Done => {
                return Poll::Pending;
            },
            Visit::Handled(Poll::Ready(output)) => {
                return Poll::Ready(output);
            },
            _ => {},
        }
        index += 1;
        assert(visited(select, handler, earlier, *state, (index - 1) as usize, visit));
    }
}

/// A combinator that can be polled: each poll runs one polling cycle over
/// the caller's state. While every handler says that it goes on, the
/// combinator is running and answers `Pending`; the first final result of a
/// handler is the combinator's own, and ends it.
pub trait Cycle<S>: Sized {
    /// The final result.
    type Output;

    /// Whether one poll may turn the state `before` into `after` and give
    /// `answer`.
    spec fn cycles(&self, before: S, after: S, answer: Poll<Self::Output>) -> bool;

    /// Runs one polling cycle.
    fn poll(&self, state: &mut S) -> (answer: Poll<Self::Output>)
        ensures
            self.cycles(*old(state), *final(state), answer),
    ;

    /// Registers one more pair of a selector and a handler. It is tried
    /// after the pairs registered before it.
    fn on<Sel, H>(self, select: Sel, handler: H) -> (join: On<Self, Sel, H>) where
        Sel: Selector<S>,
        H: Handler<S, <Sel::Source as Notifier>::Event, Output = Self::Output>,

        ensures
            join == (On { earlier: self, select, handler }),
    {
        On { earlier: self, select, handler }
    }
}

/// The combinator with no pair registered yet, over a state of type `S` and
/// with final results of type `R`.
pub struct Join<S, R> {
    _state: PhantomData<S>,
    _output: PhantomData<R>,
}

impl<S, R> Join<S, R> {
    /// A combinator to register pairs on.
    pub fn new() -> Self {
        Join { _state: PhantomData, _output: PhantomData }
    }
}

impl<S, R> Cycle<S> for Join<S, R> {
    type Output = R;

    /// With no pair registered, nothing is visited and nothing ever ends
    /// the combinator.
    open spec fn cycles(&self, before: S, after: S, answer: Poll<R>) -> bool {
        after == before && answer is Pending
    }

    fn poll(&self, state: &mut S) -> (answer: Poll<R>) {
        Poll::Pending
    }
}

/// A combinator with one more pair registered.
pub struct On<P, Sel, H> {
    /// The pairs registered before this one.
    pub earlier: P,
    /// This pair's selector.
    pub select: Sel,
    /// This pair's handler.
    pub handler: H,
}

impl<S, P, Sel, H> Cycle<S> for On<P, Sel, H> where
    P: Cycle<S>,
    Sel: Selector<S>,
    H: Handler<S, <Sel::Source as Notifier>::Event, Output = P::Output>,
 {
    type Output = P::Output;

    /// The pairs are tried in the order of their registration: the earlier
    /// ones run their cycles first, and only if none of them ends the
    /// combinator does this pair run its own, on the state they left.
    open spec fn cycles(&self, before: S, after: S, answer: Poll<P::Output>) -> bool {
        exists|mid: S, first: Poll<P::Output>| #[trigger]
            self.earlier.cycles(before, mid, first) && match first {
                Poll::Ready(_) => after == mid && answer == first,
                Poll::Pending => cycled(&self.select, &self.handler, mid, after, answer),
            }
    }

    fn poll(&self, state: &mut S) -> (answer: Poll<P::Output>) {
        match self.earlier.poll(state) {
            Poll::Ready(output) => Poll::Ready(output),
            Poll::Pending => cycle(&self.select, &self.handler, state),
        }
    }
}

/// A combinator together with the state that it runs over, as an operation:
/// every poll runs one cycle, and the operation is done when a handler has
/// given a final result.
pub struct Joining<S, J> {
    /// The caller's state.
    pub state: S,
    /// The combinator.
    pub join: J,
}

impl<S, J: Cycle<S>> Joining<S, J> {
    /// The operation that runs `join` over `state`.
    pub fn new(state: S, join: J) -> (joining: Self)
        ensures
            joining == (Joining { state, join }),
    {
        Joining { state, join }
    }
}

impl<S, J: Cycle<S>> Operation for Joining<S, J> {
    type Output = J::Output;

    open spec fn polls_to(&self, next: &Self, outcome: Poll<J::Output>) -> bool {
        &&& next.join == self.join
        &&& self.join.cycles(self.state, next.state, outcome)
    }

    fn poll(&mut self) -> (outcome: Poll<J::Output>) {
        self.join.poll(&mut self.state)
    }
}

/// The selector for a state that is itself the collection of sources.
pub struct Whole;

impl<N: Notifier> Selector<Vec<N>> for Whole {
    type Source = N;

    open spec fn picks(&self, state: &Vec<N>, picked: &Vec<N>) -> bool {
        picked == state
    }

    open spec fn restores(&self, state: &Vec<N>, left: &Vec<N>, after: &Vec<N>) -> bool {
        after == left
    }

    fn select<'a>(&self, state: &'a mut Vec<N>) -> (sources: &'a mut Vec<N>) {
        state
    }
}

/// A collection after the removal of position `index` by swapping: the last
/// element has moved into the vacated position, and the collection is
/// shorter by one. The elements keep no other order.
pub open spec fn swap_removed<N>(sources: Seq<N>, index: int) -> Seq<N>
    recommends
        0 <= index < sources.len(),
{
    sources.update(index, sources.last()).drop_last()
}

/// The handler for sources that are dropped once they have had their event:
/// it removes the source by swapping, and ends the combinator, with the
/// event as the result, when it has removed the last one.
pub struct Retire;

impl<N, E> Handler<Vec<N>, E> for Retire {
    type Output = E;

    open spec fn handles(&self, before: &Vec<N>, after: &Vec<N>, index: usize, event: E, answer: Poll<E>) -> bool {
        &&& after@ == if index < before@.len() {
            swap_removed(before@, index as int)
        } else {
            before@
        }
        &&& answer == if after@.len() == 0 {
            Poll::Ready(event)
        } else {
            Poll::Pending
        }
    }

    fn handle(&self, state: &mut Vec<N>, index: usize, event: E) -> (answer: Poll<E>) {
        if index < state.len() {
            state.swap_remove(index);
        }
        if state.is_empty() {
            Poll::Ready(event)
        } else {
            Poll::Pending
        }
    }
}

/// Removal by swapping gives the vacated index to another source: after the
/// removal of a position that was not the last, that position holds what
/// used to be the last source, so that an index kept from before the removal
/// now names a different source. Every other position that is left holds
/// what it held.
pub proof fn lemma_swap_removal_readdresses<N>(sources: Seq<N>, index: int)
    requires
        0 <= index < sources.len(),
    ensures
        swap_removed(sources, index).len() == sources.len() - 1,
        index < sources.len() - 1 ==> swap_removed(sources, index)[index] == sources[sources.len() - 1],
        forall|i: int|
            0 <= i < sources.len() - 1 && i != index ==> #[trigger] swap_removed(sources, index)[i]
                == sources[i],
{
}

} // verus!
