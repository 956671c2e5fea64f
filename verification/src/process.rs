//! What it means for a state machine to run.

use vstd::prelude::*;

verus! {

/// A task that takes turns with the outside: in each state it wants one action performed, and
/// the event that comes of the action takes it to its next state.
pub trait Process: Sized {
    /// What can be told to the task.
    type Event;

    /// What the task can want.
    type Action;

    /// What the task wants in this state.
    spec fn wants(self) -> Self::Action;

    /// Whether `event` can come of what the task wants in this state.
    spec fn accepts(self, event: Self::Event) -> bool;

    /// The state after `event`.
    spec fn step(self, event: Self::Event) -> Self;
}

/// What can be said of a process over several events.
pub trait Runs: Process {
    /// The state after `events`.
    spec fn after(self, events: Seq<Self::Event>) -> Self;

    /// Whether each of `events` can come in the state that the ones before it lead to.
    spec fn runs(self, events: Seq<Self::Event>) -> bool;

    /// The state before event number `i` of `events`, or after all of them.
    spec fn state_at(self, events: Seq<Self::Event>, i: int) -> Self;
}

impl<P: Process> Runs for P {
    open spec fn after(self, events: Seq<P::Event>) -> P
        decreases events.len(),
    {
        if events.len() == 0 {
            self
        } else {
            self.after(events.drop_last()).step(events.last())
        }
    }

    open spec fn runs(self, events: Seq<P::Event>) -> bool
        decreases events.len(),
    {
        events.len() == 0 || (self.runs(events.drop_last()) && self.after(
            events.drop_last(),
        ).accepts(events.last()))
    }

    open spec fn state_at(self, events: Seq<P::Event>, i: int) -> P {
        self.after(events.take(i))
    }
}

/// In a run, each event is accepted where it comes and leads from one state to the next.
pub proof fn lemma_run_step<P: Process>(start: P, events: Seq<P::Event>, i: int)
    requires
        start.runs(events),
        0 <= i < events.len(),
    ensures
        start.state_at(events, i).accepts(events[i]),
        start.state_at(events, i + 1) == start.state_at(events, i).step(events[i]),
    decreases events.len(),
{
    let front = events.drop_last();
    if i == events.len() - 1 {
        assert(events.take(i) =~= front);
        assert(events.take(i + 1) =~= events);
    } else {
        lemma_run_step(start, front, i);
        assert(front.take(i) =~= events.take(i));
        assert(front.take(i + 1) =~= events.take(i + 1));
    }
}

/// A run starts in its first state and ends in its last.
pub proof fn lemma_run_ends<P: Process>(start: P, events: Seq<P::Event>)
    ensures
        start.state_at(events, 0) == start,
        start.state_at(events, events.len() as int) == start.after(events),
{
    assert(events.take(0) =~= Seq::empty());
    assert(events.take(events.len() as int) =~= events);
}

/// What holds at the start and is kept by every accepted event holds all along a run.
pub proof fn lemma_invariant<P: Process>(
    start: P,
    events: Seq<P::Event>,
    inv: spec_fn(P) -> bool,
    i: int,
)
    requires
        start.runs(events),
        0 <= i <= events.len(),
        inv(start),
        forall|p: P, e: P::Event| inv(p) && #[trigger] p.accepts(e) ==> inv(p.step(e)),
    ensures
        inv(start.state_at(events, i)),
    decreases i,
{
    lemma_run_ends(start, events);
    if i > 0 {
        lemma_invariant(start, events, inv, i - 1);
        lemma_run_step(start, events, i - 1);
    }
}

} // verus!
