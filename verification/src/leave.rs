//! Detecting members that have left, and closing their memberships.

use crate::calendar::{date_minus_days, Date, DateTime};
use crate::config::Config;
use crate::model::LeftMember;
use crate::process::{Process, Runs};
use crate::text::{decimal, signed_decimal};
use vstd::prelude::*;

verus! {

/// The setting that holds the leave message.
pub const LEAVE_MSG_KEY: &'static str = "auto_leave_message";

/// The setting that turns leave detection on or off.
pub const LEAVE_ENABLE_KEY: &'static str = "auto_leave_enable";

/// The leave message that a setting stands for.
pub open spec fn leave_message(
    setting: Result<Option<Seq<char>>, Seq<char>>,
    config: Config,
) -> Seq<char> {
    match setting {
        Ok(Some(stored)) => stored,
        _ => config.main.auto_leave_message_default@,
    }
}

/// Whether leaves are detected where a setting was read.
pub open spec fn leave_detection_enabled(
    setting: Result<Option<bool>, Seq<char>>,
    config: Config,
) -> bool {
    match setting {
        Ok(Some(stored)) => stored,
        _ => config.main.auto_leave_enabled,
    }
}

/// A text setting in contracts.
pub open spec fn setting_view(setting: Result<Option<String>, String>) -> Result<
    Option<Seq<char>>,
    Seq<char>,
> {
    match setting {
        Ok(Some(stored)) => Ok(Some(stored@)),
        Ok(None) => Ok(None),
        Err(error) => Err(error@),
    }
}

/// Read leave-message from DB or default to config value
pub fn get_leave_message(setting: Result<Option<String>, String>, config: &Config) -> (message:
    String)
    ensures
        message@ == leave_message(setting_view(setting), *config),
        setting matches Ok(Some(stored)) ==> message@ == stored@,
        setting matches Ok(None) ==> message@ == config.main.auto_leave_message_default@,
        setting is Err ==> message@ == config.main.auto_leave_message_default@,
{
    match setting {
        Ok(Some(v)) => v,
        Ok(None) => config.main.auto_leave_message_default.clone(),
        Err(_) => config.main.auto_leave_message_default.clone(),
    }
}

/// Read leave detection setting from DB
pub fn get_leave_detection_enabled(setting: Result<Option<bool>, String>, config: &Config) -> (
enabled: bool)
    ensures
        enabled == leave_detection_enabled(crate::text::text_result(setting), *config),
        setting matches Ok(Some(stored)) ==> enabled == stored,
        setting matches Ok(None) ==> enabled == config.main.auto_leave_enabled,
        setting is Err ==> enabled == config.main.auto_leave_enabled,
{
    match setting {
        Ok(Some(v)) => v,
        Ok(None) => config.main.auto_leave_enabled,
        Err(_) => config.main.auto_leave_enabled,
    }
}

/// Where a leave detection stands.
#[derive(Clone, Copy, Debug, PartialEq, Eq, Structural)]
pub enum LeavePhase {
    /// The database is to be connected.
    Connect,
    /// The dataset before the given one is to be found.
    FindOlder,
    /// That dataset could not be looked for, which has to be noted.
    OlderFailed,
    /// There is no such dataset, which has to be noted.
    OlderMissing,
    /// The members that have left since are to be found.
    FindLeft { previous: DateTime },
    /// Those members could not be looked for, which has to be noted.
    LeftFailed,
    /// The member in turn is to be dealt with.
    Visit { previous: DateTime },
    /// The leave of the member in turn has been entered, which has to be noted.
    Entered { previous: DateTime, trials: u64 },
    /// Nothing is left to do.
    Finished,
}

/// A leave detection under way.
#[derive(Debug)]
pub struct LeaveRun {
    /// The dataset to look back from.
    pub date: DateTime,
    /// The day before which datasets are too old.
    pub max_age: Date,
    /// The reason that leaves are entered with.
    pub cause: String,
    /// The members that have left.
    pub left: Vec<LeftMember>,
    /// The position of the member in turn.
    pub turn: usize,
    /// Why the members that have left could not be looked for.
    pub fault: String,
    pub phase: LeavePhase,
}

/// What a leave detection wants done. Its text is a `String`, or a sequence of characters in
/// contracts.
#[derive(Debug)]
pub enum LeaveAction<T> {
    /// Connect the database.
    Connect,
    /// Find the last dataset before `date` that is not older than `max_age`.
    FindOlder { date: DateTime, max_age: Date },
    /// Find the members that are in the dataset of `previous` and not in that of `date`.
    FindLeft { previous: DateTime, date: DateTime },
    /// End the membership `nr` of account `id` on `day`.
    InsertLeave { id: i32, nr: i32, day: Date, cause: T },
    /// Note `message` in the database. Where that fails, `fallback` says what was lost.
    LogMessage { message: T, fallback: T },
    /// End.
    Finish,
}

impl View for LeaveAction<String> {
    type V = LeaveAction<Seq<char>>;

    open spec fn view(&self) -> LeaveAction<Seq<char>> {
        match *self {
            LeaveAction::Connect => LeaveAction::Connect,
            LeaveAction::FindOlder { date, max_age } => LeaveAction::FindOlder { date, max_age },
            LeaveAction::FindLeft { previous, date } => LeaveAction::FindLeft { previous, date },
            LeaveAction::InsertLeave { id, nr, day, cause } => LeaveAction::InsertLeave {
                id,
                nr,
                day,
                cause: cause@,
            },
            LeaveAction::LogMessage { message, fallback } => LeaveAction::LogMessage {
                message: message@,
                fallback: fallback@,
            },
            LeaveAction::Finish => LeaveAction::Finish,
        }
    }
}

/// What comes of an action of a leave detection.
#[derive(Debug)]
pub enum LeaveEvent {
    /// The database is connected, or could not be.
    Connected { success: bool },
    /// The dataset that was looked for, if there is one.
    Older { previous: Option<DateTime> },
    /// The dataset could not be looked for.
    OlderFailed,
    /// The members that have left.
    Left { left: Vec<LeftMember> },
    /// The members that have left could not be looked for.
    LeftFailed { error: String },
    /// The leave was entered, and with it that many trials have ended.
    Inserted { trials: u64 },
    /// The leave could not be entered.
    InsertFailed,
    /// A message was noted or lost.
    Logged,
}

/// The note where the members that have left could not be looked for.
pub open spec fn left_failed_text(error: Seq<char>) -> Seq<char> {
    "Unable to query left members! "@ + error
}

/// The note on a leave that was entered.
pub open spec fn entered_text(m: LeftMember, nr: int, trials: nat) -> Seq<char> {
    "Detected leave for "@ + m.shown_name() + " "@ + crate::text::signed_text(m.id as int)
        + " nr:"@ + crate::text::signed_text(nr) + " terminated trials: "@
        + crate::text::decimal_text(trials)
}

/// The note on a member that has left and has no open membership.
pub open spec fn no_membership_text(m: LeftMember) -> Seq<char> {
    "No open membership for "@ + m.shown_name() + " "@ + crate::text::signed_text(m.id as int)
        + ", can't auto-leave!"@
}

/// What is done about a member that has left: its open membership ends on the day of the
/// dataset that it was last seen in, or it is noted that there is none.
pub open spec fn visit_action(
    m: LeftMember,
    previous: DateTime,
    cause: Seq<char>,
) -> LeaveAction<Seq<char>> {
    match m.membership_nr {
        Some(nr) => LeaveAction::InsertLeave { id: m.id, nr, day: previous.date, cause },
        None => LeaveAction::LogMessage {
            message: no_membership_text(m),
            fallback: "Unable to log message"@,
        },
    }
}

impl LeaveRun {
    /// Whether a leave detection can be in this state.
    pub open spec fn wf(self) -> bool {
        match self.phase {
            LeavePhase::Visit { previous } => self.turn < self.left@.len(),
            LeavePhase::Entered { previous, trials } => {
                self.turn < self.left@.len() && self.left@[self.turn as int].membership_nr is Some
            },
            _ => true,
        }
    }

    /// The state in which the member at `turn` is dealt with, or in which all are.
    pub open spec fn at_turn(self, turn: int, previous: DateTime) -> LeaveRun {
        LeaveRun {
            turn: turn as usize,
            phase: if turn < self.left@.len() {
                LeavePhase::Visit { previous }
            } else {
                LeavePhase::Finished
            },
            ..self
        }
    }
}

impl Process for LeaveRun {
    type Event = LeaveEvent;

    type Action = LeaveAction<Seq<char>>;

    open spec fn wants(self) -> LeaveAction<Seq<char>> {
        match self.phase {
            LeavePhase::Connect => LeaveAction::Connect,
            LeavePhase::FindOlder => LeaveAction::FindOlder {
                date: self.date,
                max_age: self.max_age,
            },
            LeavePhase::OlderFailed => LeaveAction::LogMessage {
                message: "Unable to get older dates, skipping leave detection"@,
                fallback: "unable to log get_next_older_date error"@,
            },
            LeavePhase::OlderMissing => LeaveAction::LogMessage {
                message: "No older entries to compare found, skipping leave detection"@,
                fallback: "unable to log get_next_older_date miss"@,
            },
            LeavePhase::FindLeft { previous } => LeaveAction::FindLeft {
                previous,
                date: self.date,
            },
            LeavePhase::LeftFailed => LeaveAction::LogMessage {
                message: left_failed_text(self.fault@),
                fallback: "unable to log message"@,
            },
            LeavePhase::Visit { previous } => visit_action(
                self.left@[self.turn as int],
                previous,
                self.cause@,
            ),
            LeavePhase::Entered { previous, trials } => LeaveAction::LogMessage {
                message: entered_text(
                    self.left@[self.turn as int],
                    self.left@[self.turn as int].membership_nr->0 as int,
                    trials as nat,
                ),
                fallback: "Unable to log member leave detection!"@,
            },
            LeavePhase::Finished => LeaveAction::Finish,
        }
    }

    open spec fn accepts(self, event: LeaveEvent) -> bool {
        match self.wants() {
            LeaveAction::Connect => event is Connected,
            LeaveAction::FindOlder { .. } => event is Older || event is OlderFailed,
            LeaveAction::FindLeft { .. } => event is Left || event is LeftFailed,
            LeaveAction::InsertLeave { .. } => event is Inserted || event is InsertFailed,
            LeaveAction::LogMessage { .. } => event is Logged,
            LeaveAction::Finish => false,
        }
    }

    open spec fn step(self, event: LeaveEvent) -> LeaveRun {
        match (self.phase, event) {
            (LeavePhase::Connect, LeaveEvent::Connected { success }) => LeaveRun {
                phase: if success {
                    LeavePhase::FindOlder
                } else {
                    LeavePhase::Finished
                },
                ..self
            },
            (LeavePhase::FindOlder, LeaveEvent::Older { previous: Some(previous) }) => LeaveRun {
                phase: LeavePhase::FindLeft { previous },
                ..self
            },
            (LeavePhase::FindOlder, LeaveEvent::Older { previous: None }) => LeaveRun {
                phase: LeavePhase::OlderMissing,
                ..self
            },
            (LeavePhase::FindOlder, _) => LeaveRun { phase: LeavePhase::OlderFailed, ..self },
            (LeavePhase::FindLeft { previous }, LeaveEvent::Left { left }) => {
                LeaveRun { left, ..self }.at_turn(0, previous)
            },
            (LeavePhase::FindLeft { previous }, LeaveEvent::LeftFailed { error }) => LeaveRun {
                fault: error,
                phase: LeavePhase::LeftFailed,
                ..self
            },
            (LeavePhase::Visit { previous }, LeaveEvent::Inserted { trials }) => LeaveRun {
                phase: LeavePhase::Entered { previous, trials },
                ..self
            },
            (LeavePhase::Visit { previous }, _) => self.at_turn(self.turn + 1, previous),
            (LeavePhase::Entered { previous, trials }, _) => self.at_turn(self.turn + 1, previous),
            _ => LeaveRun { phase: LeavePhase::Finished, ..self },
        }
    }
}

/// Detect leaves & process these
/// date: current date for which to look back
///
/// Datasets that are more than `auto_leave_max_age` days older than `date` do not count. The
/// day that many days back has to be one that can be held.
pub fn run_leave_detection(config: &Config, date: &DateTime, leave_cause: &str) -> (run: LeaveRun)
    requires
        date.date.valid(),
        crate::calendar::first_day_number() <= date.date.day_number()
            - config.main.auto_leave_max_age,
    ensures
        run.date == *date,
        run.max_age.valid(),
        run.max_age.day_number() == date.date.day_number() - config.main.auto_leave_max_age,
        run.cause@ == leave_cause@,
        run.left@.len() == 0,
        run.turn == 0,
        run.phase is Connect,
        run.wf(),
{
    let max_age: Option<Date> = date_minus_days(date.date, config.main.auto_leave_max_age);
    LeaveRun {
        date: *date,
        max_age: max_age.unwrap(),
        cause: leave_cause.to_owned(),
        left: Vec::new(),
        turn: 0,
        fault: String::new(),
        phase: LeavePhase::Connect,
    }
}

/// Tells whether a leave detection can look back from `date`: whether the day that the
/// configured number of days back leads to is one that can be held.
pub fn can_look_back(config: &Config, date: &DateTime) -> (can: bool)
    requires
        date.date.valid(),
    ensures
        can <==> crate::calendar::first_day_number() <= date.date.day_number()
            - config.main.auto_leave_max_age,
{
    date_minus_days(date.date, config.main.auto_leave_max_age).is_some()
}

fn note(message: &str, fallback: &str) -> (action: LeaveAction<String>)
    ensures
        action@ == (LeaveAction::LogMessage { message: message@, fallback: fallback@ }),
{
    LeaveAction::LogMessage { message: message.to_owned(), fallback: fallback.to_owned() }
}

fn visit(m: &LeftMember, previous: &DateTime, cause: &str) -> (action: LeaveAction<String>)
    ensures
        action@ == visit_action(*m, *previous, cause@),
{
    match m.membership_nr {
        Some(nr) => LeaveAction::InsertLeave {
            id: m.id,
            nr,
            day: previous.date,
            cause: cause.to_owned(),
        },
        None => {
            let mut message = "No open membership for ".to_owned();
            message.append(m.get_name());
            message.append(" ");
            message.append(signed_decimal(m.id).as_str());
            message.append(", can't auto-leave!");
            note(message.as_str(), "Unable to log message")
        },
    }
}

fn entered_message(m: &LeftMember, nr: i32, trials: u64) -> (message: String)
    ensures
        message@ == entered_text(*m, nr as int, trials as nat),
{
    let mut message = "Detected leave for ".to_owned();
    message.append(m.get_name());
    message.append(" ");
    message.append(signed_decimal(m.id).as_str());
    message.append(" nr:");
    message.append(signed_decimal(nr).as_str());
    message.append(" terminated trials: ");
    message.append(decimal(trials).as_str());
    message
}

impl LeaveRun {
    /// Says what the leave detection wants done.
    pub fn action(&self) -> (action: LeaveAction<String>)
        requires
            self.wf(),
        ensures
            action@ == self.wants(),
    {
        match self.phase {
            LeavePhase::Connect => LeaveAction::Connect,
            LeavePhase::FindOlder => LeaveAction::FindOlder {
                date: self.date,
                max_age: self.max_age,
            },
            LeavePhase::OlderFailed => note(
                "Unable to get older dates, skipping leave detection",
                "unable to log get_next_older_date error",
            ),
            LeavePhase::OlderMissing => note(
                "No older entries to compare found, skipping leave detection",
                "unable to log get_next_older_date miss",
            ),
            LeavePhase::FindLeft { previous } => LeaveAction::FindLeft {
                previous,
                date: self.date,
            },
            LeavePhase::LeftFailed => {
                let mut message = "Unable to query left members! ".to_owned();
                message.append(self.fault.as_str());
                note(message.as_str(), "unable to log message")
            },
            LeavePhase::Visit { previous } => visit(
                &self.left[self.turn],
                &previous,
                self.cause.as_str(),
            ),
            LeavePhase::Entered { previous: _, trials } => {
                let m = &self.left[self.turn];
                let message = entered_message(m, m.membership_nr.unwrap(), trials);
                note(message.as_str(), "Unable to log member leave detection!")
            },
            LeavePhase::Finished => LeaveAction::Finish,
        }
    }

    fn set_turn(&mut self, turn: usize, previous: DateTime)
        ensures
            *final(self) == old(self).at_turn(turn as int, previous),
            final(self).wf(),
    {
        self.turn = turn;
        self.phase = if turn < self.left.len() {
            LeavePhase::Visit { previous }
        } else {
            LeavePhase::Finished
        };
    }

    /// Goes on after `event`.
    pub fn resume(&mut self, event: LeaveEvent)
        requires
            old(self).wf(),
            old(self).accepts(event),
        ensures
            *final(self) == old(self).step(event),
            final(self).wf(),
    {
        match (self.phase, event) {
            (LeavePhase::Connect, LeaveEvent::Connected { success }) => {
                self.phase = if success {
                    LeavePhase::FindOlder
                } else {
                    LeavePhase::Finished
                };
            },
            (LeavePhase::FindOlder, LeaveEvent::Older { previous: Some(previous) }) => {
                self.phase = LeavePhase::FindLeft { previous };
            },
            (LeavePhase::FindOlder, LeaveEvent::Older { previous: None }) => {
                self.phase = LeavePhase::OlderMissing;
            },
            (LeavePhase::FindOlder, _) => {
                self.phase = LeavePhase::OlderFailed;
            },
            (LeavePhase::FindLeft { previous }, LeaveEvent::Left { left }) => {
                self.left = left;
                self.set_turn(0, previous);
            },
            (LeavePhase::FindLeft { .. }, LeaveEvent::LeftFailed { error }) => {
                self.fault = error;
                self.phase = LeavePhase::LeftFailed;
            },
            (LeavePhase::Visit { previous }, LeaveEvent::Inserted { trials }) => {
                self.phase = LeavePhase::Entered { previous, trials };
            },
            (LeavePhase::Visit { previous }, _) => {
                assert(self.turn < self.left.len());
                self.set_turn(self.turn + 1, previous);
            },
            (LeavePhase::Entered { previous, .. }, _) => {
                assert(self.turn < self.left.len());
                self.set_turn(self.turn + 1, previous);
            },
            _ => {
                self.phase = LeavePhase::Finished;
            },
        }
    }
}

/// Whether `run` is at the point where it deals with the member at position `k`.
pub open spec fn visits(run: LeaveRun, k: int) -> bool {
    run.phase is Visit && run.turn == k
}

/// Whether the member at position `k` is dealt with before event number `i`.
spec fn was_visited(start: LeaveRun, events: Seq<LeaveEvent>, i: int, k: int) -> bool {
    exists|j: int| 3 <= j < i && #[trigger] visits(start.state_at(events, j), k)
}

/// Whether event number `i` comes of what has to be done about member `m`, who left after the
/// dataset of `previous`. If that enters a leave, the note on it comes next.
pub open spec fn deals_with(
    start: LeaveRun,
    events: Seq<LeaveEvent>,
    i: int,
    m: LeftMember,
    previous: DateTime,
) -> bool {
    &&& start.state_at(events, i).wants() == visit_action(m, previous, start.cause@)
    &&& events[i] matches LeaveEvent::Inserted { trials } ==> start.state_at(events, i + 1).wants()
        == (LeaveAction::LogMessage {
        message: entered_text(m, m.membership_nr->0 as int, trials as nat),
        fallback: "Unable to log member leave detection!"@,
    })
}

/// How many members have been dealt with or are being noted.
spec fn members_done(run: LeaveRun) -> int {
    match run.phase {
        LeavePhase::Visit { previous } => run.turn as int,
        LeavePhase::Entered { previous, trials } => run.turn + 1,
        _ => run.left@.len() as int,
    }
}

proof fn lemma_wf(start: LeaveRun, events: Seq<LeaveEvent>, i: int)
    requires
        start.wf(),
        start.runs(events),
        0 <= i <= events.len(),
    ensures
        start.state_at(events, i).wf(),
{
    crate::process::lemma_invariant(start, events, |run: LeaveRun| run.wf(), i);
}

proof fn lemma_cause_is_kept(start: LeaveRun, events: Seq<LeaveEvent>, i: int)
    requires
        start.runs(events),
        0 <= i <= events.len(),
    ensures
        start.state_at(events, i).cause == start.cause,
{
    crate::process::lemma_invariant(
        start,
        events,
        |run: LeaveRun| run.cause == start.cause,
        i,
    );
}

/// How a leave detection gets to the members: it connects, finds the older dataset and then the
/// members that have left, in the first three events.
proof fn lemma_opening(start: LeaveRun, events: Seq<LeaveEvent>, i: int)
    requires
        start.phase is Connect,
        start.runs(events),
        0 <= i <= events.len(),
    ensures
        ({
            let run = start.state_at(events, i);
            match run.phase {
                LeavePhase::Connect => i == 0,
                LeavePhase::FindOlder => i == 1,
                LeavePhase::FindLeft { previous } => i == 2 && events[1] == (LeaveEvent::Older {
                    previous: Some(previous),
                }),
                LeavePhase::OlderFailed => i == 2,
                LeavePhase::OlderMissing => i == 2,
                LeavePhase::LeftFailed => i == 3,
                LeavePhase::Visit { previous } => {
                    &&& i >= 3
                    &&& events[1] == (LeaveEvent::Older { previous: Some(previous) })
                    &&& events[2] == (LeaveEvent::Left { left: run.left })
                },
                LeavePhase::Entered { previous, trials } => {
                    &&& i >= 3
                    &&& events[1] == (LeaveEvent::Older { previous: Some(previous) })
                    &&& events[2] == (LeaveEvent::Left { left: run.left })
                },
                LeavePhase::Finished => true,
            }
        }),
    decreases i,
{
    crate::process::lemma_run_ends(start, events);
    if i > 0 {
        lemma_opening(start, events, i - 1);
        crate::process::lemma_run_step(start, events, i - 1);
    }
}

proof fn lemma_visits(
    start: LeaveRun,
    events: Seq<LeaveEvent>,
    left: Vec<LeftMember>,
    i: int,
)
    requires
        start.phase is Connect,
        start.wf(),
        start.runs(events),
        3 <= i <= events.len(),
        events[2] == (LeaveEvent::Left { left }),
    ensures
        ({
            let run = start.state_at(events, i);
            &&& run.left == left
            &&& run.phase is Visit || run.phase is Entered || run.phase is Finished
            &&& i <= 3 + 2 * members_done(run)
            &&& run.phase is Entered ==> i + 1 <= 3 + 2 * members_done(run)
            &&& forall|k: int|
                0 <= k < members_done(run) ==> #[trigger] was_visited(start, events, i, k)
        }),
    decreases i,
{
    crate::process::lemma_run_step(start, events, i - 1);
    lemma_opening(start, events, i - 1);
    lemma_wf(start, events, i - 1);
    let prior = start.state_at(events, i - 1);
    let run = start.state_at(events, i);
    assert(left@.len() == left.len());
    if i > 3 {
        lemma_visits(start, events, left, i - 1);
        assert forall|k: int| 0 <= k < members_done(run) implies #[trigger] was_visited(
            start,
            events,
            i,
            k,
        ) by {
            if k < members_done(prior) {
                assert(was_visited(start, events, i - 1, k));
                let j = choose|j: int|
                    3 <= j < i - 1 && #[trigger] visits(start.state_at(events, j), k);
                assert(3 <= j < i && visits(start.state_at(events, j), k));
            } else {
                assert(visits(start.state_at(events, i - 1), k));
            }
        }
    }
}

/// A leave detection that has found the members that have left and comes to its end has dealt
/// with each of them: it has ended the open membership on the day of the older dataset, for the
/// given reason, or noted that there is none. A leave that was entered is noted next.
pub proof fn law_every_left_member_is_dealt_with(
    start: LeaveRun,
    events: Seq<LeaveEvent>,
    previous: DateTime,
    left: Vec<LeftMember>,
    k: int,
)
    requires
        start.phase is Connect,
        start.runs(events),
        start.after(events).wants() is Finish,
        events.len() >= 3,
        events[1] == (LeaveEvent::Older { previous: Some(previous) }),
        events[2] == (LeaveEvent::Left { left }),
        0 <= k < left@.len(),
    ensures
        exists|i: int|
            {
                &&& 3 <= i < events.len()
                &&& visits(start.state_at(events, i), k)
                &&& #[trigger] deals_with(start, events, i, left@[k], previous)
            },
{
    let count = events.len() as int;
    crate::process::lemma_run_ends(start, events);
    lemma_visits(start, events, left, count);
    assert(was_visited(start, events, count, k));
    let i = choose|i: int| 3 <= i < count && #[trigger] visits(start.state_at(events, i), k);
    lemma_visits(start, events, left, i);
    lemma_opening(start, events, i);
    lemma_cause_is_kept(start, events, i);
    crate::process::lemma_run_step(start, events, i);
    assert(deals_with(start, events, i, left@[k], previous));
}

proof fn lemma_turns(start: LeaveRun, events: Seq<LeaveEvent>, i: int, j: int)
    requires
        start.phase is Connect,
        start.wf(),
        start.runs(events),
        0 <= i < j <= events.len(),
        start.state_at(events, i).phase is Visit,
    ensures
        ({
            let run = start.state_at(events, j);
            let turn = start.state_at(events, i).turn;
            match run.phase {
                LeavePhase::Visit { previous } => turn < run.turn,
                LeavePhase::Entered { previous, trials } => turn <= run.turn,
                LeavePhase::Finished => true,
                _ => false,
            }
        }),
    decreases j,
{
    crate::process::lemma_run_step(start, events, j - 1);
    lemma_wf(start, events, j - 1);
    let prior = start.state_at(events, j - 1);
    assert(prior.left@.len() == prior.left.len());
    if i < j - 1 {
        lemma_turns(start, events, i, j - 1);
    }
}

/// The members that have left are dealt with in their order, none of them twice.
pub proof fn law_left_members_are_dealt_with_in_order(
    start: LeaveRun,
    events: Seq<LeaveEvent>,
    i: int,
    j: int,
    k: int,
    l: int,
)
    requires
        start.phase is Connect,
        start.runs(events),
        0 <= i < j <= events.len(),
        visits(start.state_at(events, i), k),
        visits(start.state_at(events, j), l),
    ensures
        k < l,
{
    lemma_turns(start, events, i, j);
}

/// No membership is ended unless the members that have left since an older dataset were found.
pub proof fn law_no_leave_without_comparison(
    start: LeaveRun,
    events: Seq<LeaveEvent>,
    i: int,
)
    requires
        start.phase is Connect,
        start.runs(events),
        0 <= i <= events.len(),
        start.state_at(events, i).wants() is InsertLeave,
    ensures
        i >= 3,
        events[1] matches LeaveEvent::Older { previous } && previous is Some,
        events[2] is Left,
{
    lemma_opening(start, events, i);
}

/// A leave detection comes to an end: there are at most two events for each member that has
/// left, beside the three that find them.
pub proof fn law_leave_detection_ends(
    start: LeaveRun,
    events: Seq<LeaveEvent>,
)
    requires
        start.phase is Connect,
        start.runs(events),
    ensures
        events.len() <= 4 || (events[2] matches LeaveEvent::Left { left } && events.len() <= 3 + 2
            * left@.len()),
{
    let count = events.len() as int;
    if count > 4 {
        lemma_opening(start, events, 2);
        lemma_opening(start, events, 3);
        lemma_opening(start, events, 4);
        crate::process::lemma_run_step(start, events, 2);
        crate::process::lemma_run_step(start, events, 3);
        crate::process::lemma_run_step(start, events, 4);
        lemma_visits(start, events, events[2]->left, count);
        lemma_wf(start, events, count);
    }
}

/// A setting of the database wins over the configuration, and the configuration holds where the
/// database has no setting or cannot be asked.
pub proof fn law_database_settings_win(config: Config, flag: bool, text: Seq<char>, e: Seq<char>)
    ensures
        leave_detection_enabled(Ok(Some(flag)), config) == flag,
        leave_detection_enabled(Ok(None), config) == config.main.auto_leave_enabled,
        leave_detection_enabled(Err(e), config) == config.main.auto_leave_enabled,
        leave_message(Ok(Some(text)), config) == text,
        leave_message(Ok(None), config) == config.main.auto_leave_message_default@,
        leave_message(Err(e), config) == config.main.auto_leave_message_default@,
{
}

/// A leave detection takes whatever can come of what it wants, and nothing else.
pub proof fn law_leave_detection_takes_every_answer(run: LeaveRun, event: LeaveEvent)
    ensures
        run.accepts(event) <==> match event {
            LeaveEvent::Connected { success } => run.wants() is Connect,
            LeaveEvent::Older { previous } => run.wants() is FindOlder,
            LeaveEvent::OlderFailed => run.wants() is FindOlder,
            LeaveEvent::Left { left } => run.wants() is FindLeft,
            LeaveEvent::LeftFailed { error } => run.wants() is FindLeft,
            LeaveEvent::Inserted { trials } => run.wants() is InsertLeave,
            LeaveEvent::InsertFailed => run.wants() is InsertLeave,
            LeaveEvent::Logged => run.wants() is LogMessage,
        },
{
}

/// What a leave detection wants is what `action` hands out, part by part.
pub proof fn law_leave_action_is_handed_out_whole(action: LeaveAction<String>)
    ensures
        action matches LeaveAction::Connect ==> action@ is Connect,
        action matches LeaveAction::FindOlder { date, max_age } ==> action@ == (LeaveAction::<
            Seq<char>,
        >::FindOlder { date, max_age }),
        action matches LeaveAction::FindLeft { previous, date } ==> action@ == (LeaveAction::<
            Seq<char>,
        >::FindLeft { previous, date }),
        action matches LeaveAction::InsertLeave { id, nr, day, cause } ==> action@ == (
        LeaveAction::InsertLeave { id, nr, day, cause: cause@ }),
        action matches LeaveAction::LogMessage { message, fallback } ==> action@ == (
        LeaveAction::LogMessage { message: message@, fallback: fallback@ }),
        action matches LeaveAction::Finish ==> action@ is Finish,
{
}

/// How a leave detection opens. Once the database is connected, the older dataset is looked for.
/// Where there is one, it is compared with the given one, whatever its day. Where there is none,
/// where it cannot be looked for and where the comparison fails, that is noted and nothing else
/// is done.
pub proof fn law_leave_detection_opens(start: LeaveRun, events: Seq<LeaveEvent>, i: int)
    requires
        start.phase is Connect,
        start.runs(events),
        0 <= i <= events.len(),
    ensures
        i == 0 ==> start.state_at(events, i).wants() is Connect,
        i == 1 ==> (events[0] matches LeaveEvent::Connected { success } && start.state_at(
            events,
            i,
        ).wants() == if success {
            LeaveAction::<Seq<char>>::FindOlder { date: start.date, max_age: start.max_age }
        } else {
            LeaveAction::Finish
        }),
        i == 2 ==> start.state_at(events, i).wants() == match events[1] {
            LeaveEvent::Older { previous: Some(previous) } => LeaveAction::FindLeft {
                previous,
                date: start.date,
            },
            LeaveEvent::Older { previous: None } => LeaveAction::LogMessage {
                message: "No older entries to compare found, skipping leave detection"@,
                fallback: "unable to log get_next_older_date miss"@,
            },
            _ => LeaveAction::LogMessage {
                message: "Unable to get older dates, skipping leave detection"@,
                fallback: "unable to log get_next_older_date error"@,
            },
        },
        i >= 2 ==> events[0] == (LeaveEvent::Connected { success: true }) && (events[1] is Older
            || events[1] is OlderFailed),
        i >= 3 && !(events[1] matches LeaveEvent::Older { previous: Some(_) }) ==> {
            &&& i == 3
            &&& start.state_at(events, i).wants() is Finish
        },
        i >= 3 && (events[1] matches LeaveEvent::Older { previous: Some(_) }) ==> events[2] is Left
            || events[2] is LeftFailed,
        i == 3 ==> (events[2] matches LeaveEvent::LeftFailed { error } ==> start.state_at(
            events,
            i,
        ).wants() == (LeaveAction::LogMessage {
            message: "Unable to query left members! "@ + error@,
            fallback: "unable to log message"@,
        })),
        i >= 4 && events[2] is LeftFailed ==> i == 4 && start.state_at(events, i).wants()
            is Finish,
    decreases i,
{
    crate::process::lemma_run_ends(start, events);
    if i > 0 {
        law_leave_detection_opens(start, events, i - 1);
        lemma_opening(start, events, i - 1);
        crate::process::lemma_run_step(start, events, i - 1);
    }
}

/// How many members have been dealt with by the events from number 3 to before number `i`: each
/// takes one event, and one more if a leave was entered.
pub open spec fn members_passed(events: Seq<LeaveEvent>, i: int) -> int
    decreases i,
{
    if i <= 3 {
        0
    } else {
        members_passed(events, i - 1) + if events[i - 1] is Inserted {
            0int
        } else {
            1int
        }
    }
}

proof fn lemma_passed(
    start: LeaveRun,
    events: Seq<LeaveEvent>,
    previous: DateTime,
    left: Vec<LeftMember>,
    i: int,
)
    requires
        start.phase is Connect,
        start.runs(events),
        3 <= i <= events.len(),
        events[1] == (LeaveEvent::Older { previous: Some(previous) }),
        events[2] == (LeaveEvent::Left { left }),
    ensures
        ({
            let run = start.state_at(events, i);
            let k = members_passed(events, i);
            &&& run.wf()
            &&& run.left == left
            &&& run.cause == start.cause
            &&& 0 <= k <= left@.len()
            &&& if i > 3 && events[i - 1] is Inserted {
                &&& run.phase == (LeavePhase::Entered { previous, trials: events[i - 1]->trials })
                &&& run.turn == k && k < left@.len()
                &&& left@[k].membership_nr is Some
            } else if k < left@.len() {
                run.phase == (LeavePhase::Visit { previous }) && run.turn == k
            } else {
                run.phase is Finished
            }
        }),
    decreases i,
{
    lemma_opening(start, events, i - 1);
    lemma_cause_is_kept(start, events, i);
    lemma_wf(start, events, i);
    crate::process::lemma_run_step(start, events, i - 1);
    assert(left@.len() == left.len());
    if i > 3 {
        lemma_passed(start, events, previous, left, i - 1);
    } else {
        lemma_opening(start, events, 2);
    }
}

/// What is done once the members that have left are known. They are taken one after the other.
/// The open membership of each is ended on the day of the older dataset with the given reason,
/// and once that is entered it is noted with the name, the account, the membership and the
/// number of trials. Of one without an open membership that is noted. After the last one the
/// leave detection ends.
pub proof fn law_left_members_one_by_one(
    start: LeaveRun,
    events: Seq<LeaveEvent>,
    previous: DateTime,
    left: Vec<LeftMember>,
    i: int,
)
    requires
        start.phase is Connect,
        start.runs(events),
        3 <= i <= events.len(),
        events[1] == (LeaveEvent::Older { previous: Some(previous) }),
        events[2] == (LeaveEvent::Left { left }),
    ensures
        ({
            let k = members_passed(events, i);
            let m = left@[k];
            let name = match m.name {
                Some(name) => name@,
                None => "<unnamed>"@,
            };
            let wanted = start.state_at(events, i).wants();
            if i > 3 && events[i - 1] is Inserted {
                &&& k < left@.len()
                &&& m.membership_nr matches Some(nr)
                &&& wanted == (LeaveAction::LogMessage {
                    message: "Detected leave for "@ + name + " "@ + crate::text::signed_text(
                        m.id as int,
                    ) + " nr:"@ + crate::text::signed_text(nr as int) + " terminated trials: "@
                        + crate::text::decimal_text(events[i - 1]->trials as nat),
                    fallback: "Unable to log member leave detection!"@,
                })
            } else if k >= left@.len() {
                wanted is Finish
            } else {
                wanted == match m.membership_nr {
                    Some(nr) => LeaveAction::InsertLeave {
                        id: m.id,
                        nr,
                        day: previous.date,
                        cause: start.cause@,
                    },
                    None => LeaveAction::LogMessage {
                        message: "No open membership for "@ + name + " "@
                            + crate::text::signed_text(m.id as int) + ", can't auto-leave!"@,
                        fallback: "Unable to log message"@,
                    },
                }
            }
        }),
{
    lemma_passed(start, events, previous, left, i);
}

} // verus!
