//! A complete crawl: members and clan are updated, with further attempts where that fails.

use crate::calendar::{DateTime, Time};
use crate::config::Config;
use crate::process::{Process, Runs};
use crate::text::{decimal, flag};
use vstd::prelude::*;

verus! {

/// The subject of the mail on a failed crawl.
pub const ERROR_MAIL_SUBJECT: &'static str = "Clantool error";

/// Where a crawl stands.
#[derive(Clone, Copy, Debug, PartialEq, Eq, Structural)]
pub enum UpdatePhase {
    /// The members are to be updated.
    Member,
    /// The clan is to be updated.
    Clan,
    /// The attempt failed, and the next one has to wait.
    Sleep,
    /// The next attempt starts from a new time.
    Clock,
    /// All attempts failed, which has to be noted.
    Missing,
    /// All attempts failed, which has to be mailed.
    Mail,
    /// Nothing is left to do.
    Finished,
}

/// A crawl under way.
#[derive(Clone, Copy, Debug)]
pub struct UpdateRun {
    /// How many attempts there are.
    pub retries: u32,
    /// How long to wait after the first attempt.
    pub retry_seconds: u32,
    /// Whether a mail goes out when all attempts failed.
    pub send_error_mail: bool,
    /// The number of this attempt, from 1.
    pub attempt: u32,
    /// Whether the members have been updated.
    pub member_success: bool,
    /// Whether the clan has been updated.
    pub clan_success: bool,
    /// The time that the data is stored under.
    pub time: DateTime,
    pub phase: UpdatePhase,
}

/// What a crawl wants done. Its text is a `String`, or a sequence of characters in contracts.
#[derive(Debug)]
pub enum UpdateAction<T> {
    /// Fetch the members and store them under `time`.
    UpdateMember { time: DateTime },
    /// Fetch the clan and store it under `time`.
    UpdateClan { time: DateTime },
    /// Wait.
    Sleep { seconds: u32 },
    /// Tell what time it is.
    ReadClock,
    /// Note that there is no complete dataset for `time`.
    WriteMissing { time: DateTime, missing_member: bool },
    /// Send a mail.
    SendMail { subject: T, message: T },
    /// End with the time of the dataset, if there is one.
    Finish { dataset: Option<DateTime> },
}

impl View for UpdateAction<String> {
    type V = UpdateAction<Seq<char>>;

    open spec fn view(&self) -> UpdateAction<Seq<char>> {
        match *self {
            UpdateAction::UpdateMember { time } => UpdateAction::UpdateMember { time },
            UpdateAction::UpdateClan { time } => UpdateAction::UpdateClan { time },
            UpdateAction::Sleep { seconds } => UpdateAction::Sleep { seconds },
            UpdateAction::ReadClock => UpdateAction::ReadClock,
            UpdateAction::WriteMissing { time, missing_member } => UpdateAction::WriteMissing {
                time,
                missing_member,
            },
            UpdateAction::SendMail { subject, message } => UpdateAction::SendMail {
                subject: subject@,
                message: message@,
            },
            UpdateAction::Finish { dataset } => UpdateAction::Finish { dataset },
        }
    }
}

/// What comes of an action of a crawl.
#[derive(Clone, Copy, Debug, PartialEq, Eq, Structural)]
pub enum UpdateEvent {
    /// An update succeeded or failed.
    Updated { success: bool },
    /// A wait, a note or a mail is over, whatever came of it.
    Resumed,
    /// The time that it is.
    Clock { now: DateTime },
}

/// The text of the mail after attempt number `attempt`, which was the last one.
pub open spec fn error_mail_text(
    attempt: nat,
    retry_seconds: nat,
    missing_member: bool,
    missing_clan: bool,
) -> Seq<char> {
    "Error at clantool update execution!\nRetried "@ + crate::text::decimal_text(attempt)
        + " times, waiting "@ + crate::text::decimal_text(retry_seconds * attempt)
        + " seconds max.\nMissing Member data: "@ + crate::text::flag_text(missing_member)
        + ". Missing clan data: "@ + crate::text::flag_text(missing_clan)
}

impl UpdateRun {
    /// A crawl that has not done anything yet.
    pub open spec fn fresh(config: Config, retry_time: Time, now: DateTime) -> UpdateRun {
        UpdateRun {
            retries: config.main.retries,
            retry_seconds: retry_time.seconds,
            send_error_mail: config.main.send_error_mail,
            attempt: 1,
            member_success: false,
            clan_success: false,
            time: now,
            phase: if config.main.retries == 0 {
                UpdatePhase::Finished
            } else {
                UpdatePhase::Member
            },
        }
    }

    /// Whether the waiting time that belongs to this attempt is a number of seconds that a
    /// `u32` holds.
    pub open spec fn wait_fits(self) -> bool {
        self.retry_seconds * self.attempt <= u32::MAX
    }

    /// Whether a crawl can be in this state.
    pub open spec fn wf(self) -> bool {
        let complete = self.member_success && self.clan_success;
        match self.phase {
            UpdatePhase::Member => 1 <= self.attempt <= self.retries && !self.member_success,
            UpdatePhase::Clan => 1 <= self.attempt <= self.retries && !self.clan_success,
            UpdatePhase::Sleep => {
                1 <= self.attempt < self.retries && !complete && self.wait_fits()
            },
            UpdatePhase::Clock => {
                &&& 1 <= self.attempt < self.retries
                &&& !self.member_success
                &&& !self.clan_success
            },
            UpdatePhase::Missing => {
                1 <= self.attempt == self.retries && !complete
            },
            UpdatePhase::Mail => {
                &&& 1 <= self.attempt == self.retries
                &&& !complete
                &&& self.wait_fits()
                &&& self.send_error_mail
            },
            UpdatePhase::Finished => {
                if self.retries == 0 {
                    self.attempt == 1 && !self.member_success && !self.clan_success
                } else {
                    &&& 1 <= self.attempt <= self.retries
                    &&& complete || self.attempt == self.retries
                }
            },
        }
    }

    /// The state after both halves of the attempt have been tried.
    pub open spec fn concluded(self) -> UpdateRun {
        UpdateRun {
            phase: if self.member_success && self.clan_success {
                UpdatePhase::Finished
            } else if self.attempt == self.retries {
                UpdatePhase::Missing
            } else {
                UpdatePhase::Sleep
            },
            ..self
        }
    }

    /// The state at the start of the next attempt, which leaves out what has succeeded.
    pub open spec fn next_attempt(self) -> UpdateRun {
        UpdateRun {
            attempt: (self.attempt + 1) as u32,
            phase: if self.member_success {
                UpdatePhase::Clan
            } else {
                UpdatePhase::Member
            },
            ..self
        }
    }
}

impl Process for UpdateRun {
    type Event = UpdateEvent;

    type Action = UpdateAction<Seq<char>>;

    open spec fn wants(self) -> UpdateAction<Seq<char>> {
        match self.phase {
            UpdatePhase::Member => UpdateAction::UpdateMember { time: self.time },
            UpdatePhase::Clan => UpdateAction::UpdateClan { time: self.time },
            UpdatePhase::Sleep => UpdateAction::Sleep {
                seconds: (self.retry_seconds * self.attempt) as u32,
            },
            UpdatePhase::Clock => UpdateAction::ReadClock,
            UpdatePhase::Missing => UpdateAction::WriteMissing {
                time: self.time,
                missing_member: !self.member_success,
            },
            UpdatePhase::Mail => UpdateAction::SendMail {
                subject: ERROR_MAIL_SUBJECT@,
                message: error_mail_text(
                    self.attempt as nat,
                    self.retry_seconds as nat,
                    !self.member_success,
                    !self.clan_success,
                ),
            },
            UpdatePhase::Finished => UpdateAction::Finish {
                dataset: if self.member_success && self.clan_success {
                    Some(self.time)
                } else {
                    None
                },
            },
        }
    }

    open spec fn accepts(self, event: UpdateEvent) -> bool {
        match (self.phase, event) {
            (UpdatePhase::Member, UpdateEvent::Updated { success }) => {
                self.clan_success && !success && self.attempt < self.retries
                    ==> self.wait_fits()
            },
            (UpdatePhase::Clan, UpdateEvent::Updated { success }) => {
                !(self.member_success && success) && self.attempt < self.retries
                    ==> self.wait_fits()
            },
            (UpdatePhase::Sleep, UpdateEvent::Resumed) => true,
            (UpdatePhase::Clock, UpdateEvent::Clock { now }) => true,
            (UpdatePhase::Missing, UpdateEvent::Resumed) => self.wait_fits(),
            (UpdatePhase::Mail, UpdateEvent::Resumed) => true,
            _ => false,
        }
    }

    open spec fn step(self, event: UpdateEvent) -> UpdateRun {
        match (self.phase, event) {
            (UpdatePhase::Member, UpdateEvent::Updated { success }) => {
                let tried = UpdateRun { member_success: success, ..self };
                if self.clan_success {
                    tried.concluded()
                } else {
                    UpdateRun { phase: UpdatePhase::Clan, ..tried }
                }
            },
            (UpdatePhase::Clan, UpdateEvent::Updated { success }) => {
                UpdateRun { clan_success: success, ..self }.concluded()
            },
            (UpdatePhase::Sleep, _) => {
                if !self.member_success && !self.clan_success {
                    UpdateRun { phase: UpdatePhase::Clock, ..self }
                } else {
                    self.next_attempt()
                }
            },
            (UpdatePhase::Clock, UpdateEvent::Clock { now }) => {
                UpdateRun { time: now, ..self }.next_attempt()
            },
            (UpdatePhase::Missing, _) => UpdateRun {
                phase: if self.send_error_mail {
                    UpdatePhase::Mail
                } else {
                    UpdatePhase::Finished
                },
                ..self
            },
            (UpdatePhase::Mail, _) => UpdateRun { phase: UpdatePhase::Finished, ..self },
            _ => self,
        }
    }
}

/// Starts a complete crawl at the time `now`. It makes up to `retries` attempts, and waits
/// after attempt number x for x times the time of day `retry_time`.
pub fn run_update(config: &Config, retry_time: &Time, now: DateTime) -> (run: UpdateRun)
    requires
        config.main.retries < u32::MAX,
    ensures
        run == UpdateRun::fresh(*config, *retry_time, now),
        run.wf(),
{
    UpdateRun {
        retries: config.main.retries,
        retry_seconds: retry_time.seconds,
        send_error_mail: config.main.send_error_mail,
        attempt: 1,
        member_success: false,
        clan_success: false,
        time: now,
        phase: if config.main.retries == 0 {
            UpdatePhase::Finished
        } else {
            UpdatePhase::Member
        },
    }
}

/// Writes the mail on a crawl of which all attempts failed.
fn error_mail(run: &UpdateRun) -> (message: String)
    requires
        run.wait_fits(),
    ensures
        message@ == error_mail_text(
            run.attempt as nat,
            run.retry_seconds as nat,
            !run.member_success,
            !run.clan_success,
        ),
{
    let mut message = "Error at clantool update execution!\nRetried ".to_owned();
    message.append(decimal(run.attempt as u64).as_str());
    message.append(" times, waiting ");
    message.append(decimal((run.retry_seconds * run.attempt) as u64).as_str());
    message.append(" seconds max.\nMissing Member data: ");
    message.append(flag(!run.member_success));
    message.append(". Missing clan data: ");
    message.append(flag(!run.clan_success));
    message
}

impl UpdateRun {
    /// Says what the crawl wants done.
    pub fn action(&self) -> (action: UpdateAction<String>)
        requires
            self.wf(),
        ensures
            action@ == self.wants(),
    {
        match self.phase {
            UpdatePhase::Member => UpdateAction::UpdateMember { time: self.time },
            UpdatePhase::Clan => UpdateAction::UpdateClan { time: self.time },
            UpdatePhase::Sleep => UpdateAction::Sleep {
                seconds: self.retry_seconds * self.attempt,
            },
            UpdatePhase::Clock => UpdateAction::ReadClock,
            UpdatePhase::Missing => UpdateAction::WriteMissing {
                time: self.time,
                missing_member: !self.member_success,
            },
            UpdatePhase::Mail => UpdateAction::SendMail {
                subject: ERROR_MAIL_SUBJECT.to_owned(),
                message: error_mail(self),
            },
            UpdatePhase::Finished => UpdateAction::Finish {
                dataset: if self.member_success && self.clan_success {
                    Some(self.time)
                } else {
                    None
                },
            },
        }
    }

    /// Tells whether `event` can come of what the crawl wants. Where the waiting time of an
    /// attempt is too long for a `u32`, the attempt cannot fail and be followed by another one,
    /// and the note on the last one cannot be followed by anything.
    pub fn can_resume(&self, event: &UpdateEvent) -> (can: bool)
        ensures
            can == self.accepts(*event),
    {
        let fits = self.retry_seconds.checked_mul(self.attempt).is_some();
        let last = self.attempt >= self.retries;
        match (self.phase, *event) {
            (UpdatePhase::Member, UpdateEvent::Updated { success }) => !self.clan_success
                || success || last || fits,
            (UpdatePhase::Clan, UpdateEvent::Updated { success }) => (self.member_success
                && success) || last || fits,
            (UpdatePhase::Sleep, UpdateEvent::Resumed) => true,
            (UpdatePhase::Clock, UpdateEvent::Clock { .. }) => true,
            (UpdatePhase::Missing, UpdateEvent::Resumed) => fits,
            (UpdatePhase::Mail, UpdateEvent::Resumed) => true,
            _ => false,
        }
    }

    fn conclude(&mut self)
        ensures
            *final(self) == old(self).concluded(),
    {
        self.phase = if self.member_success && self.clan_success {
            UpdatePhase::Finished
        } else if self.attempt == self.retries {
            UpdatePhase::Missing
        } else {
            UpdatePhase::Sleep
        };
    }

    fn begin_next_attempt(&mut self)
        requires
            old(self).attempt < u32::MAX,
        ensures
            *final(self) == old(self).next_attempt(),
    {
        self.attempt = self.attempt + 1;
        self.phase = if self.member_success {
            UpdatePhase::Clan
        } else {
            UpdatePhase::Member
        };
    }

    /// Goes on after `event`.
    pub fn resume(&mut self, event: UpdateEvent)
        requires
            old(self).wf(),
            old(self).accepts(event),
        ensures
            *final(self) == old(self).step(event),
            final(self).wf(),
    {
        match (self.phase, event) {
            (UpdatePhase::Member, UpdateEvent::Updated { success }) => {
                self.member_success = success;
                if self.clan_success {
                    self.conclude();
                } else {
                    self.phase = UpdatePhase::Clan;
                }
            },
            (UpdatePhase::Clan, UpdateEvent::Updated { success }) => {
                self.clan_success = success;
                self.conclude();
            },
            (UpdatePhase::Sleep, _) => {
                if !self.member_success && !self.clan_success {
                    self.phase = UpdatePhase::Clock;
                } else {
                    self.begin_next_attempt();
                }
            },
            (UpdatePhase::Clock, UpdateEvent::Clock { now }) => {
                self.time = now;
                self.begin_next_attempt();
            },
            (UpdatePhase::Missing, _) => {
                self.phase = if self.send_error_mail {
                    UpdatePhase::Mail
                } else {
                    UpdatePhase::Finished
                };
            },
            (UpdatePhase::Mail, _) => {
                self.phase = UpdatePhase::Finished;
            },
            _ => {},
        }
    }
}

/// Whether the members were stored under `time` by one of the first `count` events.
pub open spec fn member_stored(
    start: UpdateRun,
    events: Seq<UpdateEvent>,
    count: int,
    time: DateTime,
) -> bool {
    exists|i: int|
        0 <= i < count && events[i] == (UpdateEvent::Updated { success: true })
            && #[trigger] start.state_at(events, i).wants() == (
        UpdateAction::<Seq<char>>::UpdateMember { time })
}

/// Whether the clan was stored under `time` by one of the first `count` events.
pub open spec fn clan_stored(
    start: UpdateRun,
    events: Seq<UpdateEvent>,
    count: int,
    time: DateTime,
) -> bool {
    exists|i: int|
        0 <= i < count && events[i] == (UpdateEvent::Updated { success: true })
            && #[trigger] start.state_at(events, i).wants() == (
        UpdateAction::<Seq<char>>::UpdateClan { time })
}

/// What a crawl has done so far.
pub struct UpdateHistory {
    /// Whether each update of the members succeeded.
    pub member: Seq<bool>,
    /// Whether each update of the clan succeeded.
    pub clan: Seq<bool>,
    /// How many seconds each wait took.
    pub waits: Seq<int>,
    /// How often it was noted that the dataset is missing.
    pub notes: nat,
    /// How often a mail was sent.
    pub mails: nat,
}

impl UpdateHistory {
    /// What has been done once `event` has come of `action`.
    pub open spec fn with(self, action: UpdateAction<Seq<char>>, event: UpdateEvent) -> Self {
        let succeeded = event == (UpdateEvent::Updated { success: true });
        match action {
            UpdateAction::UpdateMember { time } => UpdateHistory {
                member: self.member.push(succeeded),
                ..self
            },
            UpdateAction::UpdateClan { time } => UpdateHistory {
                clan: self.clan.push(succeeded),
                ..self
            },
            UpdateAction::Sleep { seconds } => UpdateHistory {
                waits: self.waits.push(seconds as int),
                ..self
            },
            UpdateAction::WriteMissing { time, missing_member } => UpdateHistory {
                notes: self.notes + 1,
                ..self
            },
            UpdateAction::SendMail { subject, message } => UpdateHistory {
                mails: self.mails + 1,
                ..self
            },
            _ => self,
        }
    }

    /// The number of attempts, each of which tries at least one half.
    pub open spec fn attempts(self) -> nat {
        if self.member.len() >= self.clan.len() {
            self.member.len()
        } else {
            self.clan.len()
        }
    }
}

/// What has been done by the first `count` events.
pub open spec fn history(start: UpdateRun, events: Seq<UpdateEvent>, count: nat) -> UpdateHistory
    decreases count,
{
    if count == 0 {
        UpdateHistory {
            member: Seq::empty(),
            clan: Seq::empty(),
            waits: Seq::empty(),
            notes: 0,
            mails: 0,
        }
    } else {
        history(start, events, (count - 1) as nat).with(
            start.state_at(events, count - 1).wants(),
            events[count - 1],
        )
    }
}

/// Whether a half with these outcomes was tried exactly up to its first success, or else
/// `retries` times.
pub open spec fn tried_to_the_end(outcomes: Seq<bool>, retries: int) -> bool {
    &&& outcomes.len() <= retries
    &&& forall|k: int| 0 <= k < outcomes.len() - 1 ==> !#[trigger] outcomes[k]
    &&& outcomes.len() < retries ==> outcomes.len() >= 1 && outcomes.last()
}

proof fn lemma_wf(start: UpdateRun, events: Seq<UpdateEvent>, i: int)
    requires
        start.wf(),
        start.runs(events),
        0 <= i <= events.len(),
    ensures
        start.state_at(events, i).wf(),
{
    crate::process::lemma_invariant(start, events, |run: UpdateRun| run.wf(), i);
}

proof fn lemma_stored(start: UpdateRun, events: Seq<UpdateEvent>, i: int)
    requires
        start.wf(),
        !start.member_success,
        !start.clan_success,
        start.runs(events),
        0 <= i <= events.len(),
    ensures
        ({
            let run = start.state_at(events, i);
            &&& run.member_success ==> member_stored(start, events, i, run.time)
            &&& run.clan_success ==> clan_stored(start, events, i, run.time)
        }),
    decreases i,
{
    crate::process::lemma_run_ends(start, events);
    if i > 0 {
        let prior = start.state_at(events, i - 1);
        let run = start.state_at(events, i);
        lemma_stored(start, events, i - 1);
        lemma_wf(start, events, i - 1);
        crate::process::lemma_run_step(start, events, i - 1);
        if prior.member_success {
            let k = choose|k: int|
                0 <= k < i - 1 && events[k] == (UpdateEvent::Updated { success: true })
                    && #[trigger] start.state_at(events, k).wants() == (
                UpdateAction::<Seq<char>>::UpdateMember { time: prior.time });
            assert(member_stored(start, events, i, run.time));
        }
        if prior.clan_success {
            let k = choose|k: int|
                0 <= k < i - 1 && events[k] == (UpdateEvent::Updated { success: true })
                    && #[trigger] start.state_at(events, k).wants() == (
                UpdateAction::<Seq<char>>::UpdateClan { time: prior.time });
            assert(clan_stored(start, events, i, run.time));
        }
        assert(prior.wants() == start.state_at(events, i - 1).wants());
    }
}

/// A crawl that ends with a dataset has stored both the members and the clan under the time of
/// that dataset, however many attempts it took.
pub proof fn law_dataset_is_stored_under_one_time(
    config: Config,
    retry_time: Time,
    now: DateTime,
    events: Seq<UpdateEvent>,
)
    requires
        UpdateRun::fresh(config, retry_time, now).runs(events),
    ensures
        UpdateRun::fresh(config, retry_time, now).after(events).wants() matches
            UpdateAction::Finish { dataset: Some(time) } ==> {
            let start = UpdateRun::fresh(config, retry_time, now);
            &&& member_stored(start, events, events.len() as int, time)
            &&& clan_stored(start, events, events.len() as int, time)
        },
{
    let start = UpdateRun::fresh(config, retry_time, now);
    lemma_stored(start, events, events.len() as int);
    crate::process::lemma_run_ends(start, events);
}

/// What has been stored under a time stays valid: once the members or the clan have been
/// updated, the time of the crawl does not change.
pub proof fn law_time_is_kept_after_a_success(run: UpdateRun, event: UpdateEvent)
    requires
        run.wf(),
        run.accepts(event),
        run.member_success || run.clan_success,
    ensures
        run.step(event).time == run.time,
{
}

proof fn lemma_success_is_kept(start: UpdateRun, events: Seq<UpdateEvent>, i: int, j: int)
    requires
        start.wf(),
        start.runs(events),
        0 <= i <= j <= events.len(),
    ensures
        start.state_at(events, i).member_success ==> start.state_at(events, j).member_success,
        start.state_at(events, i).clan_success ==> start.state_at(events, j).clan_success,
    decreases j,
{
    if i < j {
        lemma_success_is_kept(start, events, i, j - 1);
        lemma_wf(start, events, j - 1);
        crate::process::lemma_run_step(start, events, j - 1);
    }
}

/// What has succeeded is not done again.
pub proof fn law_success_is_not_repeated(
    config: Config,
    retry_time: Time,
    now: DateTime,
    events: Seq<UpdateEvent>,
    i: int,
    j: int,
)
    requires
        UpdateRun::fresh(config, retry_time, now).runs(events),
        0 <= i < j <= events.len(),
        events[i] == (UpdateEvent::Updated { success: true }),
    ensures
        ({
            let start = UpdateRun::fresh(config, retry_time, now);
            let done = start.state_at(events, i).wants();
            let later = start.state_at(events, j).wants();
            &&& done is UpdateMember ==> !(later is UpdateMember)
            &&& done is UpdateClan ==> !(later is UpdateClan)
        }),
{
    let start = UpdateRun::fresh(config, retry_time, now);
    lemma_wf(start, events, i);
    lemma_wf(start, events, j);
    crate::process::lemma_run_step(start, events, i);
    lemma_success_is_kept(start, events, i + 1, j);
}

/// An upper bound on the number of events that are still to come.
spec fn events_left(run: UpdateRun) -> int {
    4 * (run.retries - run.attempt) + match run.phase {
        UpdatePhase::Member => 4,
        UpdatePhase::Clan => 3,
        UpdatePhase::Sleep => 2,
        UpdatePhase::Clock => 1,
        UpdatePhase::Missing => 2,
        UpdatePhase::Mail => 1,
        UpdatePhase::Finished => 0int,
    }
}

proof fn lemma_progress(start: UpdateRun, events: Seq<UpdateEvent>, i: int)
    requires
        start.wf(),
        start.attempt == 1,
        start.phase is Member,
        start.runs(events),
        0 <= i <= events.len(),
    ensures
        ({
            let run = start.state_at(events, i);
            &&& run.retries == start.retries
            &&& i + events_left(run) <= 4 * start.retries
        }),
    decreases i,
{
    crate::process::lemma_run_ends(start, events);
    if i > 0 {
        lemma_progress(start, events, i - 1);
        lemma_wf(start, events, i - 1);
        lemma_wf(start, events, i);
        crate::process::lemma_run_step(start, events, i - 1);
    }
}

/// Whether `outcomes` are those of a half that has been tried `tries` times without success, or
/// that has succeeded in its last try if `success` says so.
spec fn outcomes_fit(outcomes: Seq<bool>, success: bool, tries: int, attempt: int) -> bool {
    &&& forall|k: int| 0 <= k < outcomes.len() - 1 ==> !#[trigger] outcomes[k]
    &&& success ==> 1 <= outcomes.len() <= attempt && outcomes.last()
    &&& !success ==> outcomes.len() == tries && (tries > 0 ==> !outcomes.last())
}

proof fn lemma_history(start: UpdateRun, events: Seq<UpdateEvent>, i: int)
    requires
        start.wf(),
        start.attempt == 1,
        !start.member_success,
        !start.clan_success,
        start.phase is Member || start.retries == 0,
        start.runs(events),
        0 <= i <= events.len(),
    ensures
        ({
            let run = start.state_at(events, i);
            let done = history(start, events, i as nat);
            let failed = run.phase is Finished && !(run.member_success && run.clan_success)
                && run.retries > 0;
            let attempt = run.attempt as int;
            &&& run.retries == start.retries
            &&& run.retry_seconds == start.retry_seconds
            &&& run.send_error_mail == start.send_error_mail
            &&& outcomes_fit(
                done.member,
                run.member_success,
                if run.phase is Member || run.retries == 0 {
                    attempt - 1
                } else {
                    attempt
                },
                attempt,
            )
            &&& outcomes_fit(
                done.clan,
                run.clan_success,
                if run.phase is Member || run.phase is Clan || run.retries == 0 {
                    attempt - 1
                } else {
                    attempt
                },
                attempt,
            )
            &&& run.phase is Finished && run.retries > 0 ==> done.attempts() == attempt
            &&& done.waits.len() == if run.phase is Clock {
                attempt
            } else {
                attempt - 1
            }
            &&& forall|k: int|
                0 <= k < done.waits.len() ==> #[trigger] done.waits[k] == start.retry_seconds * (k
                    + 1)
            &&& done.notes == if run.phase is Mail || failed {
                1nat
            } else {
                0nat
            }
            &&& done.mails == if failed && run.send_error_mail {
                1nat
            } else {
                0nat
            }
        }),
    decreases i,
{
    crate::process::lemma_run_ends(start, events);
    if i > 0 {
        lemma_history(start, events, i - 1);
        lemma_wf(start, events, i - 1);
        lemma_wf(start, events, i);
        crate::process::lemma_run_step(start, events, i - 1);
    }
}

/// A crawl in which both halves have succeeded ends with a dataset.
pub proof fn law_both_successes_give_a_dataset(
    config: Config,
    retry_time: Time,
    now: DateTime,
    events: Seq<UpdateEvent>,
    i: int,
    j: int,
)
    requires
        UpdateRun::fresh(config, retry_time, now).runs(events),
        0 <= i < events.len(),
        0 <= j < events.len(),
        UpdateRun::fresh(config, retry_time, now).state_at(events, i).wants() is UpdateMember,
        UpdateRun::fresh(config, retry_time, now).state_at(events, j).wants() is UpdateClan,
        events[i] == (UpdateEvent::Updated { success: true }),
        events[j] == (UpdateEvent::Updated { success: true }),
    ensures
        UpdateRun::fresh(config, retry_time, now).after(events).wants() matches
            UpdateAction::Finish { dataset } && dataset is Some,
{
    let start = UpdateRun::fresh(config, retry_time, now);
    let count = events.len() as int;
    crate::process::lemma_run_step(start, events, i);
    crate::process::lemma_run_step(start, events, j);
    lemma_success_is_kept(start, events, i + 1, count);
    lemma_success_is_kept(start, events, j + 1, count);
    lemma_wf(start, events, count);
    crate::process::lemma_run_ends(start, events);
}

/// By its end a crawl has tried each half exactly up to its first success, or else as often as
/// the configuration has attempts. There is a dataset if and only if both halves succeeded.
pub proof fn law_each_half_is_tried_to_the_end(
    config: Config,
    retry_time: Time,
    now: DateTime,
    events: Seq<UpdateEvent>,
)
    requires
        UpdateRun::fresh(config, retry_time, now).runs(events),
    ensures
        UpdateRun::fresh(config, retry_time, now).after(events).wants() matches
            UpdateAction::Finish { dataset } ==> {
            let done = history(
                UpdateRun::fresh(config, retry_time, now),
                events,
                events.len(),
            );
            &&& tried_to_the_end(done.member, config.main.retries as int)
            &&& tried_to_the_end(done.clan, config.main.retries as int)
            &&& dataset is Some <==> done.member.len() >= 1 && done.member.last()
                && done.clan.len() >= 1 && done.clan.last()
        },
{
    let start = UpdateRun::fresh(config, retry_time, now);
    let count = events.len() as int;
    crate::process::lemma_run_ends(start, events);
    lemma_history(start, events, count);
    lemma_wf(start, events, count);
}

/// The waits of a crawl are once, twice, three times the retry time and so on, one between each
/// attempt and the next.
pub proof fn law_waits_grow_by_the_retry_time(
    config: Config,
    retry_time: Time,
    now: DateTime,
    events: Seq<UpdateEvent>,
)
    requires
        UpdateRun::fresh(config, retry_time, now).runs(events),
    ensures
        ({
            let start = UpdateRun::fresh(config, retry_time, now);
            let done = history(start, events, events.len());
            &&& forall|k: int|
                0 <= k < done.waits.len() ==> #[trigger] done.waits[k] == retry_time.seconds * (k
                    + 1)
            &&& start.after(events).wants() is Finish ==> done.waits.len()
                == if config.main.retries == 0 {
                0
            } else {
                done.attempts() - 1
            }
        }),
{
    let start = UpdateRun::fresh(config, retry_time, now);
    let count = events.len() as int;
    crate::process::lemma_run_ends(start, events);
    lemma_history(start, events, count);
    lemma_wf(start, events, count);
}

/// A crawl that ends without a dataset although it had attempts has noted that once, and has
/// sent one mail on it or none, as the configuration says. Any other crawl has done neither by
/// its end.
pub proof fn law_failure_is_reported_once(
    config: Config,
    retry_time: Time,
    now: DateTime,
    events: Seq<UpdateEvent>,
)
    requires
        UpdateRun::fresh(config, retry_time, now).runs(events),
    ensures
        UpdateRun::fresh(config, retry_time, now).after(events).wants() matches
            UpdateAction::Finish { dataset } ==> {
            let done = history(
                UpdateRun::fresh(config, retry_time, now),
                events,
                events.len(),
            );
            let failed = dataset is None && config.main.retries > 0;
            &&& done.notes == if failed {
                1nat
            } else {
                0nat
            }
            &&& done.mails == if failed && config.main.send_error_mail {
                1nat
            } else {
                0nat
            }
        },
{
    let start = UpdateRun::fresh(config, retry_time, now);
    let count = events.len() as int;
    crate::process::lemma_run_ends(start, events);
    lemma_history(start, events, count);
}

/// A crawl comes to an end: neither half is updated more often than the configuration has
/// attempts, and there are no more than four events to an attempt.
pub proof fn law_attempts_are_bounded(
    config: Config,
    retry_time: Time,
    now: DateTime,
    events: Seq<UpdateEvent>,
)
    requires
        UpdateRun::fresh(config, retry_time, now).runs(events),
    ensures
        ({
            let start = UpdateRun::fresh(config, retry_time, now);
            let done = history(start, events, events.len());
            &&& done.member.len() <= config.main.retries
            &&& done.clan.len() <= config.main.retries
            &&& events.len() <= 4 * config.main.retries
        }),
{
    let start = UpdateRun::fresh(config, retry_time, now);
    if config.main.retries == 0 {
        if events.len() > 0 {
            crate::process::lemma_run_step(start, events, 0);
            crate::process::lemma_run_ends(start, events);
        }
    } else {
        lemma_progress(start, events, events.len() as int);
        lemma_wf(start, events, events.len() as int);
    }
    lemma_history(start, events, events.len() as int);
}

/// Whether one of the first `count` actions that came to an event was `action`.
pub open spec fn was_done(
    start: UpdateRun,
    events: Seq<UpdateEvent>,
    count: int,
    action: UpdateAction<Seq<char>>,
) -> bool {
    exists|i: int|
        0 <= i < count && #[trigger] start.state_at(events, i).wants() == action
}

proof fn lemma_reports(start: UpdateRun, events: Seq<UpdateEvent>, i: int)
    requires
        start.wf(),
        start.phase is Member,
        start.runs(events),
        0 <= i <= events.len(),
    ensures
        ({
            let run = start.state_at(events, i);
            let complete = run.member_success && run.clan_success;
            let note = UpdateRun { phase: UpdatePhase::Missing, ..run }.wants();
            let mail = UpdateRun { phase: UpdatePhase::Mail, ..run }.wants();
            &&& run.send_error_mail == start.send_error_mail
            &&& run.phase is Mail || (run.phase is Finished && !complete) ==> was_done(
                start,
                events,
                i,
                note,
            )
            &&& run.phase is Finished && !complete && run.send_error_mail ==> was_done(
                start,
                events,
                i,
                mail,
            )
            &&& !(run.phase is Mail || run.phase is Finished) || complete ==> forall|k: int|
                0 <= k < i ==> {
                    &&& !(#[trigger] start.state_at(events, k).wants()
                        is WriteMissing)
                    &&& !(start.state_at(events, k).wants() is SendMail)
                }
            &&& !run.send_error_mail || !(run.phase is Finished) ==> forall|k: int|
                0 <= k < i ==> !(#[trigger] start.state_at(events, k).wants()
                    is SendMail)
        }),
    decreases i,
{
    crate::process::lemma_run_ends(start, events);
    if i > 0 {
        let prior = start.state_at(events, i - 1);
        let run = start.state_at(events, i);
        lemma_reports(start, events, i - 1);
        lemma_wf(start, events, i - 1);
        crate::process::lemma_run_step(start, events, i - 1);
        let note = UpdateRun { phase: UpdatePhase::Missing, ..run }.wants();
        if was_done(start, events, i - 1, note) {
            let k = choose|k: int|
                0 <= k < i - 1 && #[trigger] start.state_at(events, k).wants()
                    == note;
            assert(was_done(start, events, i, note));
        }
        assert(prior.wants() == start.state_at(events, i - 1).wants());
    }
}

/// A crawl that ends without a dataset although it had attempts has noted that the dataset is
/// missing, and has sent the mail on it if and only if the configuration asks for that. One
/// that ends with a dataset has done neither.
pub proof fn law_failure_is_reported(
    config: Config,
    retry_time: Time,
    now: DateTime,
    events: Seq<UpdateEvent>,
)
    requires
        UpdateRun::fresh(config, retry_time, now).runs(events),
        config.main.retries > 0,
        UpdateRun::fresh(config, retry_time, now).after(events).wants() is Finish,
    ensures
        ({
            let start = UpdateRun::fresh(config, retry_time, now);
            let end = start.after(events);
            let count = events.len() as int;
            let note = UpdateAction::WriteMissing {
                time: end.time,
                missing_member: !end.member_success,
            };
            let mail = UpdateAction::SendMail {
                subject: ERROR_MAIL_SUBJECT@,
                message: error_mail_text(
                    config.main.retries as nat,
                    retry_time.seconds as nat,
                    !end.member_success,
                    !end.clan_success,
                ),
            };
            let noted = exists|i: int|
                0 <= i < count && #[trigger] start.state_at(events, i).wants()
                    is WriteMissing;
            let mailed = exists|i: int|
                0 <= i < count && #[trigger] start.state_at(events, i).wants()
                    is SendMail;
            if end.member_success && end.clan_success {
                !noted && !mailed
            } else {
                &&& was_done(start, events, count, note)
                &&& config.main.send_error_mail ==> was_done(start, events, count, mail)
                &&& !config.main.send_error_mail ==> !mailed
            }
        }),
{
    let start = UpdateRun::fresh(config, retry_time, now);
    let count = events.len() as int;
    crate::process::lemma_run_ends(start, events);
    lemma_reports(start, events, count);
    lemma_wf(start, events, count);
    crate::process::lemma_invariant(
        start,
        events,
        |run: UpdateRun|
            run.retries == config.main.retries && run.retry_seconds == retry_time.seconds
                && run.send_error_mail == config.main.send_error_mail,
        count,
    );
}

/// No wait of a crawl is longer than the number of seconds that the mail on its failure names.
pub proof fn law_mail_names_the_longest_wait(
    config: Config,
    retry_time: Time,
    now: DateTime,
    events: Seq<UpdateEvent>,
    i: int,
)
    requires
        UpdateRun::fresh(config, retry_time, now).runs(events),
        0 <= i <= events.len(),
    ensures
        UpdateRun::fresh(config, retry_time, now).state_at(events, i).wants() matches
            UpdateAction::Sleep { seconds } ==> seconds <= retry_time.seconds
            * config.main.retries,
{
    let start = UpdateRun::fresh(config, retry_time, now);
    lemma_wf(start, events, i);
    crate::process::lemma_invariant(
        start,
        events,
        |run: UpdateRun|
            run.retries == config.main.retries && run.retry_seconds == retry_time.seconds,
        i,
    );
    let run = start.state_at(events, i);
    assert(run.attempt <= config.main.retries ==> retry_time.seconds * run.attempt
        <= retry_time.seconds * config.main.retries) by (nonlinear_arith)
        requires
            retry_time.seconds >= 0,
    ;
}

/// What a crawl wants is what `action` hands out, part by part.
pub proof fn law_update_action_is_handed_out_whole(action: UpdateAction<String>)
    ensures
        action matches UpdateAction::UpdateMember { time } ==> action@ == (UpdateAction::<
            Seq<char>,
        >::UpdateMember { time }),
        action matches UpdateAction::UpdateClan { time } ==> action@ == (UpdateAction::<
            Seq<char>,
        >::UpdateClan { time }),
        action matches UpdateAction::Sleep { seconds } ==> action@ == (UpdateAction::<
            Seq<char>,
        >::Sleep { seconds }),
        action is ReadClock ==> action@ is ReadClock,
        action matches UpdateAction::WriteMissing { time, missing_member } ==> action@ == (
        UpdateAction::<Seq<char>>::WriteMissing { time, missing_member }),
        action matches UpdateAction::SendMail { subject, message } ==> action@ == (
        UpdateAction::SendMail { subject: subject@, message: message@ }),
        action matches UpdateAction::Finish { dataset } ==> action@ == (UpdateAction::<
            Seq<char>,
        >::Finish { dataset }),
{
}

/// The time that the last of the first `count` events that told one told, or `now` if none did.
pub open spec fn last_told(now: DateTime, events: Seq<UpdateEvent>, count: int) -> DateTime
    decreases count,
{
    if count <= 0 {
        now
    } else {
        match events[count - 1] {
            UpdateEvent::Clock { now: told } => told,
            _ => last_told(now, events, count - 1),
        }
    }
}

/// Whether a half with these outcomes has succeeded.
pub open spec fn has_succeeded(outcomes: Seq<bool>) -> bool {
    outcomes.len() > 0 && outcomes.last()
}

proof fn lemma_time_is_last_told(start: UpdateRun, events: Seq<UpdateEvent>, i: int)
    requires
        start.wf(),
        start.runs(events),
        0 <= i <= events.len(),
    ensures
        start.state_at(events, i).time == last_told(start.time, events, i),
    decreases i,
{
    crate::process::lemma_run_ends(start, events);
    if i > 0 {
        lemma_time_is_last_told(start, events, i - 1);
        lemma_wf(start, events, i - 1);
        crate::process::lemma_run_step(start, events, i - 1);
    }
}

/// Whatever is stored, noted or handed back as the dataset carries the time that was told last,
/// or the time of the start if the clock has not been read since.
pub proof fn law_data_is_stored_under_the_last_time(
    config: Config,
    retry_time: Time,
    now: DateTime,
    events: Seq<UpdateEvent>,
    i: int,
)
    requires
        UpdateRun::fresh(config, retry_time, now).runs(events),
        0 <= i <= events.len(),
    ensures
        match UpdateRun::fresh(config, retry_time, now).state_at(events, i).wants() {
            UpdateAction::UpdateMember { time } => time == last_told(now, events, i),
            UpdateAction::UpdateClan { time } => time == last_told(now, events, i),
            UpdateAction::WriteMissing { time, missing_member } => time == last_told(
                now,
                events,
                i,
            ),
            UpdateAction::Finish { dataset: Some(time) } => time == last_told(now, events, i),
            _ => true,
        },
{
    lemma_time_is_last_told(UpdateRun::fresh(config, retry_time, now), events, i);
}

/// How a crawl opens: with the members, under the time of the start, unless it has no attempts.
pub proof fn law_crawl_opens(config: Config, retry_time: Time, now: DateTime)
    ensures
        UpdateRun::fresh(config, retry_time, now).wants() == if config.main.retries == 0 {
            UpdateAction::<Seq<char>>::Finish { dataset: None }
        } else {
            UpdateAction::UpdateMember { time: now }
        },
{
}

/// What a crawl does, event by event. An attempt tries the members and then the clan, whichever
/// has not succeeded. Once both have, the crawl ends with the dataset. After a failed attempt it
/// waits as many times the retry time as there were attempts, and reads the clock if neither
/// half has succeeded yet, so that the next attempt gets a new time. After the last attempt it
/// notes what is missing, mails that if the configuration says so and ends without a dataset.
pub proof fn law_crawl_goes_step_by_step(
    config: Config,
    retry_time: Time,
    now: DateTime,
    events: Seq<UpdateEvent>,
    i: int,
)
    requires
        UpdateRun::fresh(config, retry_time, now).runs(events),
        0 <= i < events.len(),
    ensures
        ({
            let start = UpdateRun::fresh(config, retry_time, now);
            let done = history(start, events, (i + 1) as nat);
            let member = has_succeeded(done.member);
            let clan = has_succeeded(done.clan);
            let time = last_told(now, events, i + 1);
            let next = start.state_at(events, i + 1).wants();
            let member_text = if member {
                "false"@
            } else {
                "true"@
            };
            let clan_text = if clan {
                "false"@
            } else {
                "true"@
            };
            match start.state_at(events, i).wants() {
                UpdateAction::Sleep { seconds } => next == if !member && !clan {
                    UpdateAction::<Seq<char>>::ReadClock
                } else if !member {
                    UpdateAction::UpdateMember { time }
                } else {
                    UpdateAction::UpdateClan { time }
                },
                UpdateAction::ReadClock => {
                    &&& events[i] == (UpdateEvent::Clock { now: time })
                    &&& next == (UpdateAction::<Seq<char>>::UpdateMember { time })
                },
                UpdateAction::WriteMissing { time: _, missing_member: _ } => next
                    == if config.main.send_error_mail {
                    UpdateAction::SendMail {
                        subject: "Clantool error"@,
                        message: "Error at clantool update execution!\nRetried "@
                            + crate::text::decimal_text(config.main.retries as nat)
                            + " times, waiting "@ + crate::text::decimal_text(
                            (retry_time.seconds * config.main.retries) as nat,
                        ) + " seconds max.\nMissing Member data: "@ + member_text
                            + ". Missing clan data: "@ + clan_text,
                    }
                } else {
                    UpdateAction::Finish { dataset: None }
                },
                UpdateAction::SendMail { subject, message } => next == (UpdateAction::<
                    Seq<char>,
                >::Finish { dataset: None }),
                UpdateAction::Finish { dataset } => false,
                tried => if tried is UpdateMember && !clan {
                    next == (UpdateAction::<Seq<char>>::UpdateClan { time })
                } else if member && clan {
                    next == (UpdateAction::<Seq<char>>::Finish { dataset: Some(time) })
                } else if done.attempts() == config.main.retries {
                    next == (UpdateAction::<Seq<char>>::WriteMissing {
                        time,
                        missing_member: !member,
                    })
                } else {
                    &&& next matches UpdateAction::Sleep { seconds }
                    &&& seconds == retry_time.seconds * done.attempts()
                },
            }
        }),
{
    let start = UpdateRun::fresh(config, retry_time, now);
    crate::process::lemma_run_step(start, events, i);
    lemma_wf(start, events, i);
    lemma_wf(start, events, i + 1);
    lemma_history(start, events, i);
    lemma_history(start, events, i + 1);
    lemma_time_is_last_told(start, events, i);
    lemma_time_is_last_told(start, events, i + 1);
    let run = start.state_at(events, i + 1);
    assert(run.phase is Mail ==> run.retry_seconds * run.attempt == retry_time.seconds
        * config.main.retries);
}

/// A crawl takes whatever can come of what it wants, and nothing else. Only where a waiting time
/// does not fit into a `u32` the failure that would lead to it is left out, and after the last
/// attempt what would follow the note.
pub proof fn law_crawl_takes_every_answer(
    config: Config,
    retry_time: Time,
    now: DateTime,
    events: Seq<UpdateEvent>,
    event: UpdateEvent,
)
    requires
        UpdateRun::fresh(config, retry_time, now).runs(events),
    ensures
        ({
            let start = UpdateRun::fresh(config, retry_time, now);
            let run = start.after(events);
            let done = history(start, events, events.len());
            let member = has_succeeded(done.member);
            let clan = has_succeeded(done.clan);
            run.accepts(event) <==> match event {
                UpdateEvent::Updated { success } => {
                    ||| run.wants() is UpdateMember && (clan && !success && done.member.len() + 1
                        < config.main.retries ==> retry_time.seconds * (done.member.len() + 1)
                        <= u32::MAX)
                    ||| run.wants() is UpdateClan && (!(member && success) && done.clan.len() + 1
                        < config.main.retries ==> retry_time.seconds * (done.clan.len() + 1)
                        <= u32::MAX)
                },
                UpdateEvent::Resumed => {
                    ||| run.wants() is Sleep
                    ||| run.wants() is WriteMissing && retry_time.seconds * config.main.retries
                        <= u32::MAX
                    ||| run.wants() is SendMail
                },
                UpdateEvent::Clock { now: told } => run.wants() is ReadClock,
            }
        }),
{
    let start = UpdateRun::fresh(config, retry_time, now);
    let count = events.len() as int;
    crate::process::lemma_run_ends(start, events);
    lemma_wf(start, events, count);
    lemma_history(start, events, count);
}

} // verus!
