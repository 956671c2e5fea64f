//! Importing accounts and their memberships.

use crate::calendar::{Date, DateTime, Time};
use crate::process::{Process, Runs};
use crate::text::decimal;
use vstd::prelude::*;

verus! {

/// Tells the time that an imported entry gets if it has none of its own.
pub fn default_import_time() -> (time: DateTime)
    ensures
        time == (DateTime {
            date: Date { year: 1970, month: 1, day: 1 },
            time: Time { seconds: 1, nanos: 0 },
        }),
        time.valid(),
{
    DateTime {
        date: Date { year: 1970, month: 1, day: 1 },
        time: Time { seconds: 1, nanos: 0 },
    }
}

/// Where an import stands.
#[derive(Clone, Copy, Debug, PartialEq, Eq, Structural)]
pub enum ImportPhase {
    /// The next entry is to be read.
    Next,
    /// The entry is to be inserted.
    Insert,
    /// The import is to be made final.
    Commit,
    /// An entry could not be read.
    ParseFailed,
    /// An entry could not be inserted.
    InsertFailed,
    /// The import could not be made final.
    CommitFailed,
    /// All entries have been imported.
    Imported,
}

/// An import under way.
#[derive(Debug)]
pub struct ImportRun {
    /// Whether the database stays as it is.
    pub simulate: bool,
    /// How many accounts have been inserted.
    pub accounts: u64,
    /// How many of their memberships could be used.
    pub memberships_used: u64,
    /// How many memberships they had.
    pub memberships: u64,
    /// What went wrong.
    pub fault: String,
    pub phase: ImportPhase,
}

/// What an import wants done. Its text is a `String`, or a sequence of characters in contracts.
#[derive(Debug)]
pub enum ImportAction<T> {
    /// Read the next entry.
    ReadEntry,
    /// Insert the entry that was read.
    InsertAccount,
    /// Make final what was inserted.
    Commit,
    /// End with a message to the user.
    Finish { success: bool, message: T },
}

impl View for ImportAction<String> {
    type V = ImportAction<Seq<char>>;

    open spec fn view(&self) -> ImportAction<Seq<char>> {
        match *self {
            ImportAction::ReadEntry => ImportAction::ReadEntry,
            ImportAction::InsertAccount => ImportAction::InsertAccount,
            ImportAction::Commit => ImportAction::Commit,
            ImportAction::Finish { success, message } => ImportAction::Finish {
                success,
                message: message@,
            },
        }
    }
}

/// What comes of an action of an import.
#[derive(Debug)]
pub enum ImportEvent {
    /// An entry was read.
    Entry,
    /// There is no further entry.
    End,
    /// The entry was inserted. Of its `total` memberships, `used` could be used.
    Inserted { total: u64, used: u64 },
    /// What was inserted is final.
    Committed,
    /// The entry could not be read or inserted, or the import could not be made final.
    Failed { error: String },
}

/// The message on a simulated import.
pub open spec fn found_text(accounts: nat, used: nat, total: nat) -> Seq<char> {
    "Found "@ + crate::text::decimal_text(accounts) + " correct entries to import, "@
        + crate::text::decimal_text(used) + "/"@ + crate::text::decimal_text(total)
        + " memberships can be used"@
}

/// The message on an import.
pub open spec fn imported_text(accounts: nat, used: nat, total: nat) -> Seq<char> {
    "Imported "@ + crate::text::decimal_text(accounts) + " accounts & "@
        + crate::text::decimal_text(used) + "/"@ + crate::text::decimal_text(total)
        + " memberships"@
}

impl Process for ImportRun {
    type Event = ImportEvent;

    type Action = ImportAction<Seq<char>>;

    open spec fn wants(self) -> ImportAction<Seq<char>> {
        let accounts = self.accounts as nat;
        let used = self.memberships_used as nat;
        let total = self.memberships as nat;
        match self.phase {
            ImportPhase::Next => ImportAction::ReadEntry,
            ImportPhase::Insert => ImportAction::InsertAccount,
            ImportPhase::Commit => ImportAction::Commit,
            ImportPhase::ParseFailed => ImportAction::Finish {
                success: false,
                message: "Error at parsing entry: "@ + self.fault@,
            },
            ImportPhase::InsertFailed => ImportAction::Finish {
                success: false,
                message: "Error on import: "@ + self.fault@,
            },
            ImportPhase::CommitFailed => ImportAction::Finish {
                success: false,
                message: "Unable to commit import: "@ + self.fault@,
            },
            ImportPhase::Imported => ImportAction::Finish {
                success: true,
                message: if self.simulate {
                    found_text(accounts, used, total)
                } else {
                    imported_text(accounts, used, total)
                },
            },
        }
    }

    open spec fn accepts(self, event: ImportEvent) -> bool {
        match self.phase {
            ImportPhase::Next => event is Entry || event is End || event is Failed,
            ImportPhase::Insert => match event {
                ImportEvent::Inserted { total, used } => {
                    &&& self.accounts < u64::MAX
                    &&& self.memberships + total <= u64::MAX
                    &&& self.memberships_used + used <= u64::MAX
                },
                ImportEvent::Failed { error } => true,
                _ => false,
            },
            ImportPhase::Commit => event is Committed || event is Failed,
            _ => false,
        }
    }

    open spec fn step(self, event: ImportEvent) -> ImportRun {
        match (self.phase, event) {
            (ImportPhase::Next, ImportEvent::Entry) => ImportRun {
                phase: ImportPhase::Insert,
                ..self
            },
            (ImportPhase::Next, ImportEvent::End) => ImportRun {
                phase: if self.simulate {
                    ImportPhase::Imported
                } else {
                    ImportPhase::Commit
                },
                ..self
            },
            (ImportPhase::Next, ImportEvent::Failed { error }) => ImportRun {
                fault: error,
                phase: ImportPhase::ParseFailed,
                ..self
            },
            (ImportPhase::Insert, ImportEvent::Inserted { total, used }) => ImportRun {
                accounts: (self.accounts + 1) as u64,
                memberships: (self.memberships + total) as u64,
                memberships_used: (self.memberships_used + used) as u64,
                phase: ImportPhase::Next,
                ..self
            },
            (ImportPhase::Insert, ImportEvent::Failed { error }) => ImportRun {
                fault: error,
                phase: ImportPhase::InsertFailed,
                ..self
            },
            (ImportPhase::Commit, ImportEvent::Failed { error }) => ImportRun {
                fault: error,
                phase: ImportPhase::CommitFailed,
                ..self
            },
            (ImportPhase::Commit, _) => ImportRun { phase: ImportPhase::Imported, ..self },
            _ => self,
        }
    }
}

/// Starts an import.
pub fn run_import(simulate: bool) -> (run: ImportRun)
    ensures
        run.simulate == simulate,
        run.accounts == 0,
        run.memberships_used == 0,
        run.memberships == 0,
        run.phase is Next,
{
    ImportRun {
        simulate,
        accounts: 0,
        memberships_used: 0,
        memberships: 0,
        fault: String::new(),
        phase: ImportPhase::Next,
    }
}

fn failure(what: &str, error: &str) -> (action: ImportAction<String>)
    ensures
        action@ == (ImportAction::Finish { success: false, message: what@ + error@ }),
{
    let mut message = what.to_owned();
    message.append(error);
    ImportAction::Finish { success: false, message }
}

impl ImportRun {
    /// Says what the import wants done.
    pub fn action(&self) -> (action: ImportAction<String>)
        ensures
            action@ == self.wants(),
    {
        match self.phase {
            ImportPhase::Next => ImportAction::ReadEntry,
            ImportPhase::Insert => ImportAction::InsertAccount,
            ImportPhase::Commit => ImportAction::Commit,
            ImportPhase::ParseFailed => failure("Error at parsing entry: ", self.fault.as_str()),
            ImportPhase::InsertFailed => failure("Error on import: ", self.fault.as_str()),
            ImportPhase::CommitFailed => failure(
                "Unable to commit import: ",
                self.fault.as_str(),
            ),
            ImportPhase::Imported => {
                let mut message = if self.simulate {
                    "Found ".to_owned()
                } else {
                    "Imported ".to_owned()
                };
                message.append(decimal(self.accounts).as_str());
                if self.simulate {
                    message.append(" correct entries to import, ");
                } else {
                    message.append(" accounts & ");
                }
                message.append(decimal(self.memberships_used).as_str());
                message.append("/");
                message.append(decimal(self.memberships).as_str());
                if self.simulate {
                    message.append(" memberships can be used");
                } else {
                    message.append(" memberships");
                }
                ImportAction::Finish { success: true, message }
            },
        }
    }

    /// Tells whether `event` can come of what the import wants. An entry cannot have been
    /// inserted, where it would bring a count beyond what a `u64` holds.
    pub fn can_resume(&self, event: &ImportEvent) -> (can: bool)
        ensures
            can == self.accepts(*event),
    {
        match (self.phase, event) {
            (ImportPhase::Next, ImportEvent::Entry) => true,
            (ImportPhase::Next, ImportEvent::End) => true,
            (ImportPhase::Next, ImportEvent::Failed { .. }) => true,
            (ImportPhase::Insert, ImportEvent::Inserted { total, used }) => {
                self.accounts < u64::MAX && *total <= u64::MAX - self.memberships && *used
                    <= u64::MAX - self.memberships_used
            },
            (ImportPhase::Insert, ImportEvent::Failed { .. }) => true,
            (ImportPhase::Commit, ImportEvent::Committed) => true,
            (ImportPhase::Commit, ImportEvent::Failed { .. }) => true,
            _ => false,
        }
    }

    /// Goes on after `event`.
    pub fn resume(&mut self, event: ImportEvent)
        requires
            old(self).accepts(event),
        ensures
            *final(self) == old(self).step(event),
    {
        match (self.phase, event) {
            (ImportPhase::Next, ImportEvent::Entry) => {
                self.phase = ImportPhase::Insert;
            },
            (ImportPhase::Next, ImportEvent::End) => {
                self.phase = if self.simulate {
                    ImportPhase::Imported
                } else {
                    ImportPhase::Commit
                };
            },
            (ImportPhase::Next, ImportEvent::Failed { error }) => {
                self.fault = error;
                self.phase = ImportPhase::ParseFailed;
            },
            (ImportPhase::Insert, ImportEvent::Inserted { total, used }) => {
                self.accounts = self.accounts + 1;
                self.memberships = self.memberships + total;
                self.memberships_used = self.memberships_used + used;
                self.phase = ImportPhase::Next;
            },
            (ImportPhase::Insert, ImportEvent::Failed { error }) => {
                self.fault = error;
                self.phase = ImportPhase::InsertFailed;
            },
            (ImportPhase::Commit, ImportEvent::Failed { error }) => {
                self.fault = error;
                self.phase = ImportPhase::CommitFailed;
            },
            (ImportPhase::Commit, _) => {
                self.phase = ImportPhase::Imported;
            },
            _ => {},
        }
    }
}

/// How many accounts, memberships and usable memberships `events` have brought.
pub open spec fn tally(events: Seq<ImportEvent>) -> (nat, nat, nat)
    decreases events.len(),
{
    if events.len() == 0 {
        (0, 0, 0)
    } else {
        let (accounts, memberships, used) = tally(events.drop_last());
        match events.last() {
            ImportEvent::Inserted { total, used: more } => (
                accounts + 1,
                memberships + total as nat,
                used + more as nat,
            ),
            _ => (accounts, memberships, used),
        }
    }
}

proof fn lemma_import(start: ImportRun, events: Seq<ImportEvent>, i: int)
    requires
        start.phase is Next,
        start.accounts == 0,
        start.memberships == 0,
        start.memberships_used == 0,
        start.runs(events),
        0 <= i <= events.len(),
    ensures
        ({
            let run = start.state_at(events, i);
            &&& run.simulate == start.simulate
            &&& tally(events.take(i)) == (
                run.accounts as nat,
                run.memberships as nat,
                run.memberships_used as nat,
            )
            &&& run.phase is Commit ==> !start.simulate && i >= 1 && events[i - 1] is End
            &&& run.phase is Imported ==> if start.simulate {
                i >= 1 && events[i - 1] is End
            } else {
                &&& i >= 2 && events[i - 2] is End && events[i - 1] is Committed
                &&& start.state_at(events, i - 1).phase is Commit
            }
        }),
    decreases i,
{
    crate::process::lemma_run_ends(start, events);
    assert(events.take(0) =~= Seq::empty());
    if i > 0 {
        lemma_import(start, events, i - 1);
        crate::process::lemma_run_step(start, events, i - 1);
        assert(events.take(i).drop_last() =~= events.take(i - 1));
        assert(events.take(i).last() == events[i - 1]);
    }
}

/// In simulation mode the import is never made final, so the database is left unchanged.
pub proof fn law_simulated_import_is_not_committed(
    start: ImportRun,
    events: Seq<ImportEvent>,
    i: int,
)
    requires
        start.phase is Next,
        start.simulate,
        start.runs(events),
        0 <= i <= events.len(),
    ensures
        !(start.state_at(events, i).wants() is Commit),
{
    crate::process::lemma_invariant(
        start,
        events,
        |run: ImportRun| run.simulate && !(run.phase is Commit),
        i,
    );
}

/// An import is made final only once all entries have been read and inserted, and its message
/// of success comes only after that. What it counts is what was inserted.
pub proof fn law_import_counts_what_was_inserted(start: ImportRun, events: Seq<ImportEvent>)
    requires
        start.phase is Next,
        start.accounts == 0,
        start.memberships == 0,
        start.memberships_used == 0,
        start.runs(events),
    ensures
        start.after(events).wants() matches ImportAction::Finish { success: true, message } ==> {
            let (accounts, memberships, used) = tally(events);
            if start.simulate {
                &&& events.last() is End
                &&& message == found_text(accounts, used, memberships)
            } else {
                &&& events.len() >= 2
                &&& events[events.len() - 2] is End
                &&& start.state_at(events, events.len() - 1).wants() is Commit
                &&& events.last() is Committed
                &&& message == imported_text(accounts, used, memberships)
            }
        },
        start.after(events).wants() is Commit ==> events.last() is End,
{
    let count = events.len() as int;
    crate::process::lemma_run_ends(start, events);
    lemma_import(start, events, count);
    assert(events.take(count) =~= events);
}

/// An import takes whatever can come of what it wants, and nothing else. Only an insertion that
/// would bring a count beyond a `u64` is left out.
pub proof fn law_import_takes_every_answer(run: ImportRun, event: ImportEvent)
    ensures
        run.accepts(event) <==> match event {
            ImportEvent::Entry => run.wants() is ReadEntry,
            ImportEvent::End => run.wants() is ReadEntry,
            ImportEvent::Inserted { total, used } => {
                &&& run.wants() is InsertAccount
                &&& run.accounts + 1 <= u64::MAX
                &&& run.memberships + total <= u64::MAX
                &&& run.memberships_used + used <= u64::MAX
            },
            ImportEvent::Committed => run.wants() is Commit,
            ImportEvent::Failed { error } => run.wants() is ReadEntry || run.wants()
                is InsertAccount || run.wants() is Commit,
        },
{
}

/// What an import wants is what `action` hands out, part by part.
pub proof fn law_import_action_is_handed_out_whole(action: ImportAction<String>)
    ensures
        action is ReadEntry ==> action@ is ReadEntry,
        action is InsertAccount ==> action@ is InsertAccount,
        action is Commit ==> action@ is Commit,
        action matches ImportAction::Finish { success, message } ==> action@ == (
        ImportAction::Finish { success, message: message@ }),
{
}

proof fn lemma_import_steps(start: ImportRun, events: Seq<ImportEvent>, i: int)
    requires
        start.phase is Next,
        start.runs(events),
        0 <= i <= events.len(),
    ensures
        ({
            let phase = start.state_at(events, i).phase;
            &&& start.state_at(events, i).simulate == start.simulate
            &&& if i == 0 {
                phase is Next
            } else {
                match events[i - 1] {
                    ImportEvent::Entry => phase is Insert,
                    ImportEvent::End => if start.simulate {
                        phase is Imported
                    } else {
                        phase is Commit
                    },
                    ImportEvent::Inserted { total, used } => phase is Next,
                    ImportEvent::Committed => phase is Imported,
                    ImportEvent::Failed { error } => {
                        &&& start.state_at(events, i).fault == error
                        &&& if i >= 2 && events[i - 2] is Entry {
                            phase is InsertFailed
                        } else if i >= 2 && events[i - 2] is End {
                            phase is CommitFailed
                        } else {
                            phase is ParseFailed
                        }
                    },
                }
            }
        }),
    decreases i,
{
    crate::process::lemma_run_ends(start, events);
    if i > 0 {
        lemma_import_steps(start, events, i - 1);
        crate::process::lemma_run_step(start, events, i - 1);
    }
}

/// What an import does, event by event. Each entry is read and inserted. After the last one the
/// import is made final, unless it is a simulation, and ends with success and the counts. It
/// ends without success only after a failure, with the error and what it came from.
pub proof fn law_import_goes_step_by_step(start: ImportRun, events: Seq<ImportEvent>, i: int)
    requires
        start.phase is Next,
        start.accounts == 0,
        start.memberships == 0,
        start.memberships_used == 0,
        start.runs(events),
        0 <= i <= events.len(),
    ensures
        ({
            let wanted = start.state_at(events, i).wants();
            let (accounts, memberships, used) = tally(events.take(i));
            let counts = crate::text::decimal_text(used) + "/"@ + crate::text::decimal_text(
                memberships,
            );
            if i == 0 {
                wanted is ReadEntry
            } else {
                match events[i - 1] {
                    ImportEvent::Entry => wanted is InsertAccount,
                    ImportEvent::Inserted { total, used } => wanted is ReadEntry,
                    ImportEvent::End => if start.simulate {
                        wanted == (ImportAction::Finish {
                            success: true,
                            message: "Found "@ + crate::text::decimal_text(accounts)
                                + " correct entries to import, "@ + counts
                                + " memberships can be used"@,
                        })
                    } else {
                        wanted is Commit
                    },
                    ImportEvent::Committed => wanted == (ImportAction::Finish {
                        success: true,
                        message: "Imported "@ + crate::text::decimal_text(accounts)
                            + " accounts & "@ + counts + " memberships"@,
                    }),
                    ImportEvent::Failed { error } => wanted == (ImportAction::Finish {
                        success: false,
                        message: (if i >= 2 && events[i - 2] is Entry {
                            "Error on import: "@
                        } else if i >= 2 && events[i - 2] is End {
                            "Unable to commit import: "@
                        } else {
                            "Error at parsing entry: "@
                        }) + error@,
                    }),
                }
            }
        }),
{
    crate::process::lemma_run_ends(start, events);
    lemma_import(start, events, i);
    lemma_import_steps(start, events, i);
    let (accounts, memberships, used) = tally(events.take(i));
    let used_text = crate::text::decimal_text(used);
    let total_text = crate::text::decimal_text(memberships);
    let found = "Found "@ + crate::text::decimal_text(accounts) + " correct entries to import, "@;
    let imported = "Imported "@ + crate::text::decimal_text(accounts) + " accounts & "@;
    assert(found + (used_text + "/"@ + total_text) =~= found + used_text + "/"@ + total_text);
    assert(imported + (used_text + "/"@ + total_text) =~= imported + used_text + "/"@
        + total_text);
    if i > 0 && events[i - 1] is Committed {
        crate::process::lemma_run_step(start, events, i - 1);
        lemma_import_steps(start, events, i - 1);
    }
}

} // verus!
