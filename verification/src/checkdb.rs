//! Looking for days of which there is no data, and noting them.

use crate::calendar::Date;
use crate::process::{Process, Runs};
use vstd::prelude::*;

verus! {

/// Where the search stands.
#[derive(Clone, Copy, Debug, PartialEq, Eq, Structural)]
pub enum CheckDbPhase {
    /// The database is to be connected.
    Connect,
    /// The missing days are to be found.
    FindMissing,
    /// The missing days are to be noted in the database.
    InsertMissing,
    /// The missing day in turn is to be reported.
    Report,
    /// The search has failed.
    Failed,
    /// Nothing is left to do.
    Finished,
}

/// A search under way.
#[derive(Debug)]
pub struct CheckDbRun {
    /// Whether the database stays as it is.
    pub simulate: bool,
    /// The missing days.
    pub missing: Vec<Date>,
    /// The position of the day in turn.
    pub turn: usize,
    /// Why the search failed.
    pub fault: String,
    pub phase: CheckDbPhase,
}

/// What the search wants done. Its text is a `String`, or a sequence of characters in contracts.
#[derive(Debug)]
pub enum CheckDbAction<T> {
    /// Connect the database.
    Connect,
    /// Find the missing days.
    FindMissing,
    /// Note the missing days in the database.
    InsertMissing,
    /// Tell the user that `date` is missing.
    Report { date: Date },
    /// End, with an error if the search failed.
    Finish { error: Option<T> },
}

impl View for CheckDbAction<String> {
    type V = CheckDbAction<Seq<char>>;

    open spec fn view(&self) -> CheckDbAction<Seq<char>> {
        match *self {
            CheckDbAction::Connect => CheckDbAction::Connect,
            CheckDbAction::FindMissing => CheckDbAction::FindMissing,
            CheckDbAction::InsertMissing => CheckDbAction::InsertMissing,
            CheckDbAction::Report { date } => CheckDbAction::Report { date },
            CheckDbAction::Finish { error: Some(text) } => CheckDbAction::Finish {
                error: Some(text@),
            },
            CheckDbAction::Finish { error: None } => CheckDbAction::Finish { error: None },
        }
    }
}

/// What comes of an action of the search.
#[derive(Debug)]
pub enum CheckDbEvent {
    /// The database is connected, the days are noted or the day is reported.
    Done,
    /// The missing days.
    Missing { missing: Vec<Date> },
    /// The database could not be connected, asked or changed.
    Failed { error: String },
}

impl CheckDbRun {
    /// Whether the search can be in this state.
    pub open spec fn wf(self) -> bool {
        &&& self.phase is Report ==> self.turn < self.missing@.len()
        &&& self.phase is InsertMissing ==> !self.simulate
    }

    /// The state in which the day at `turn` is reported, or in which all are.
    pub open spec fn at_turn(self, turn: int) -> CheckDbRun {
        CheckDbRun {
            turn: turn as usize,
            phase: if turn < self.missing@.len() {
                CheckDbPhase::Report
            } else {
                CheckDbPhase::Finished
            },
            ..self
        }
    }
}

impl Process for CheckDbRun {
    type Event = CheckDbEvent;

    type Action = CheckDbAction<Seq<char>>;

    open spec fn wants(self) -> CheckDbAction<Seq<char>> {
        match self.phase {
            CheckDbPhase::Connect => CheckDbAction::Connect,
            CheckDbPhase::FindMissing => CheckDbAction::FindMissing,
            CheckDbPhase::InsertMissing => CheckDbAction::InsertMissing,
            CheckDbPhase::Report => CheckDbAction::Report {
                date: self.missing@[self.turn as int],
            },
            CheckDbPhase::Failed => CheckDbAction::Finish { error: Some(self.fault@) },
            CheckDbPhase::Finished => CheckDbAction::Finish { error: None },
        }
    }

    open spec fn accepts(self, event: CheckDbEvent) -> bool {
        match self.wants() {
            CheckDbAction::Connect => event is Done || event is Failed,
            CheckDbAction::FindMissing => event is Missing || event is Failed,
            CheckDbAction::InsertMissing => event is Done || event is Failed,
            CheckDbAction::Report { .. } => event is Done,
            CheckDbAction::Finish { .. } => false,
        }
    }

    open spec fn step(self, event: CheckDbEvent) -> CheckDbRun {
        match (self.phase, event) {
            (_, CheckDbEvent::Failed { error }) => CheckDbRun {
                fault: error,
                phase: CheckDbPhase::Failed,
                ..self
            },
            (CheckDbPhase::Connect, _) => CheckDbRun { phase: CheckDbPhase::FindMissing, ..self },
            (CheckDbPhase::FindMissing, CheckDbEvent::Missing { missing }) => {
                let found = CheckDbRun { missing, ..self };
                if self.simulate {
                    found.at_turn(0)
                } else {
                    CheckDbRun { phase: CheckDbPhase::InsertMissing, ..found }
                }
            },
            (CheckDbPhase::InsertMissing, _) => self.at_turn(0),
            (CheckDbPhase::Report, _) => self.at_turn(self.turn + 1),
            _ => self,
        }
    }
}

/// Check DB for missing entries
pub fn run_checkdb(simulate: bool) -> (run: CheckDbRun)
    ensures
        run.simulate == simulate,
        run.missing@.len() == 0,
        run.turn == 0,
        run.phase is Connect,
        run.wf(),
{
    CheckDbRun {
        simulate,
        missing: Vec::new(),
        turn: 0,
        fault: String::new(),
        phase: CheckDbPhase::Connect,
    }
}

impl CheckDbRun {
    /// Says what the search wants done.
    pub fn action(&self) -> (action: CheckDbAction<String>)
        requires
            self.wf(),
        ensures
            action@ == self.wants(),
    {
        match self.phase {
            CheckDbPhase::Connect => CheckDbAction::Connect,
            CheckDbPhase::FindMissing => CheckDbAction::FindMissing,
            CheckDbPhase::InsertMissing => CheckDbAction::InsertMissing,
            CheckDbPhase::Report => CheckDbAction::Report { date: self.missing[self.turn] },
            CheckDbPhase::Failed => CheckDbAction::Finish { error: Some(self.fault.clone()) },
            CheckDbPhase::Finished => CheckDbAction::Finish { error: None },
        }
    }

    fn set_turn(&mut self, turn: usize)
        ensures
            *final(self) == old(self).at_turn(turn as int),
            final(self).wf(),
    {
        self.turn = turn;
        self.phase = if turn < self.missing.len() {
            CheckDbPhase::Report
        } else {
            CheckDbPhase::Finished
        };
    }

    /// Goes on after `event`.
    pub fn resume(&mut self, event: CheckDbEvent)
        requires
            old(self).wf(),
            old(self).accepts(event),
        ensures
            *final(self) == old(self).step(event),
            final(self).wf(),
    {
        match (self.phase, event) {
            (_, CheckDbEvent::Failed { error }) => {
                self.fault = error;
                self.phase = CheckDbPhase::Failed;
            },
            (CheckDbPhase::Connect, _) => {
                self.phase = CheckDbPhase::FindMissing;
            },
            (CheckDbPhase::FindMissing, CheckDbEvent::Missing { missing }) => {
                self.missing = missing;
                if self.simulate {
                    self.set_turn(0);
                } else {
                    self.phase = CheckDbPhase::InsertMissing;
                }
            },
            (CheckDbPhase::InsertMissing, _) => {
                self.set_turn(0);
            },
            (CheckDbPhase::Report, _) => {
                assert(self.turn < self.missing.len());
                self.set_turn(self.turn + 1);
            },
            _ => {},
        }
    }
}

proof fn lemma_checkdb(start: CheckDbRun, events: Seq<CheckDbEvent>, i: int)
    requires
        start.phase is Connect,
        start.runs(events),
        0 <= i <= events.len(),
    ensures
        ({
            let run = start.state_at(events, i);
            let opening = if start.simulate {
                2int
            } else {
                3int
            };
            &&& run.wf()
            &&& run.simulate == start.simulate
            &&& match run.phase {
                CheckDbPhase::Connect => i == 0,
                CheckDbPhase::FindMissing => i == 1,
                CheckDbPhase::InsertMissing => i == 2 && events[1] == (CheckDbEvent::Missing {
                    missing: run.missing,
                }),
                CheckDbPhase::Report => {
                    &&& i == opening + run.turn
                    &&& events[1] == (CheckDbEvent::Missing { missing: run.missing })
                },
                CheckDbPhase::Failed => i >= 1 && events[i - 1] is Failed,
                CheckDbPhase::Finished => {
                    &&& i == opening + run.missing@.len()
                    &&& events[1] == (CheckDbEvent::Missing { missing: run.missing })
                },
            }
        }),
    decreases i,
{
    crate::process::lemma_run_ends(start, events);
    if i > 0 {
        lemma_checkdb(start, events, i - 1);
        crate::process::lemma_run_step(start, events, i - 1);
        let prior = start.state_at(events, i - 1);
        assert(prior.missing@.len() == prior.missing.len());
        let run = start.state_at(events, i);
        assert(run.missing@.len() == run.missing.len());
    }
}

/// In simulation mode the database is left unchanged.
pub proof fn law_simulation_leaves_database_unchanged(
    start: CheckDbRun,
    events: Seq<CheckDbEvent>,
    i: int,
)
    requires
        start.phase is Connect,
        start.simulate,
        start.runs(events),
        0 <= i <= events.len(),
    ensures
        !(start.state_at(events, i).wants() is InsertMissing),
{
    lemma_checkdb(start, events, i);
}

/// A search that ends without an error has noted the missing days in the database unless it was
/// a simulation, and has reported each of them, in their order and after noting them.
pub proof fn law_missing_days_are_noted_and_reported(
    start: CheckDbRun,
    events: Seq<CheckDbEvent>,
)
    requires
        start.phase is Connect,
        start.runs(events),
        start.after(events).wants() == (CheckDbAction::<Seq<char>>::Finish { error: None }),
    ensures
        events.len() >= 2,
        events[1] is Missing,
        ({
            let missing = events[1]->missing@;
            let opening = if start.simulate {
                2int
            } else {
                3int
            };
            &&& events.len() == opening + missing.len()
            &&& !start.simulate ==> start.state_at(events, 2).wants() is InsertMissing
            &&& forall|k: int|
                0 <= k < missing.len() ==> #[trigger] start.state_at(events, opening + k).wants()
                    == (CheckDbAction::<Seq<char>>::Report { date: missing[k] })
        }),
{
    let count = events.len() as int;
    crate::process::lemma_run_ends(start, events);
    lemma_checkdb(start, events, count);
    let missing = events[1]->missing@;
    let opening = if start.simulate {
        2int
    } else {
        3int
    };
    lemma_checkdb(start, events, 2);
    if !start.simulate {
        crate::process::lemma_run_step(start, events, 2);
    }
    assert forall|k: int| 0 <= k < missing.len() implies #[trigger] start.state_at(
        events,
        opening + k,
    ).wants() == (CheckDbAction::<Seq<char>>::Report { date: missing[k] }) by {
        lemma_checkdb(start, events, opening + k);
        crate::process::lemma_run_step(start, events, opening + k);
    }
}

/// A search takes whatever can come of what it wants, and nothing else.
pub proof fn law_search_takes_every_answer(run: CheckDbRun, event: CheckDbEvent)
    ensures
        run.accepts(event) <==> match event {
            CheckDbEvent::Done => run.wants() is Connect || run.wants() is InsertMissing
                || run.wants() is Report,
            CheckDbEvent::Missing { missing } => run.wants() is FindMissing,
            CheckDbEvent::Failed { error } => run.wants() is Connect || run.wants() is FindMissing
                || run.wants() is InsertMissing,
        },
{
}

/// What a search wants is what `action` hands out, part by part.
pub proof fn law_search_action_is_handed_out_whole(action: CheckDbAction<String>)
    ensures
        action is Connect ==> action@ is Connect,
        action is FindMissing ==> action@ is FindMissing,
        action is InsertMissing ==> action@ is InsertMissing,
        action matches CheckDbAction::Report { date } ==> action@ == (CheckDbAction::<
            Seq<char>,
        >::Report { date }),
        action matches CheckDbAction::Finish { error: None } ==> action@ == (CheckDbAction::<
            Seq<char>,
        >::Finish { error: None }),
        action matches CheckDbAction::Finish { error: Some(text) } ==> action@ == (
        CheckDbAction::Finish { error: Some(text@) }),
{
}

/// What a search does, event by event. It connects and finds the missing days, notes them unless
/// it is a simulation, reports each and ends without an error. The first failure ends it with
/// the error.
pub proof fn law_search_goes_step_by_step(start: CheckDbRun, events: Seq<CheckDbEvent>, i: int)
    requires
        start.phase is Connect,
        start.runs(events),
        0 <= i <= events.len(),
    ensures
        ({
            let wanted = start.state_at(events, i).wants();
            let opening = if start.simulate {
                2int
            } else {
                3int
            };
            if i == 0 {
                wanted is Connect
            } else if events[i - 1] is Failed {
                wanted == (CheckDbAction::Finish { error: Some(events[i - 1]->error@) })
            } else if i == 1 {
                wanted is FindMissing
            } else {
                &&& events[1] matches CheckDbEvent::Missing { missing }
                &&& if i < opening {
                    wanted is InsertMissing
                } else if i - opening < missing@.len() {
                    wanted == (CheckDbAction::<Seq<char>>::Report {
                        date: missing@[i - opening],
                    })
                } else {
                    &&& i - opening == missing@.len()
                    &&& wanted == (CheckDbAction::<Seq<char>>::Finish { error: None })
                }
            }
        }),
{
    crate::process::lemma_run_ends(start, events);
    lemma_checkdb(start, events, i);
    if i > 0 {
        lemma_checkdb(start, events, i - 1);
        crate::process::lemma_run_step(start, events, i - 1);
        let prior = start.state_at(events, i - 1);
        let run = start.state_at(events, i);
        assert(prior.missing@.len() == prior.missing.len());
        assert(run.missing@.len() == run.missing.len());
    }
}

} // verus!
