//! What is done once a crawl is due, and on a leave check by hand.

use crate::calendar::{Date, DateTime, Time};
use crate::config::Config;
use crate::leave::{
    get_leave_detection_enabled, get_leave_message, LEAVE_ENABLE_KEY, LEAVE_MSG_KEY,
};
use crate::process::{Process, Runs};
use vstd::prelude::*;

verus! {

/// How many seconds a crawl that was forced waits after its first failed attempt.
pub const FORCED_RETRY_SECONDS: u32 = 20;

/// Tells how long a crawl that was forced waits after its first failed attempt.
pub fn forced_retry_time() -> (time: Time)
    ensures
        time == (Time { seconds: FORCED_RETRY_SECONDS, nanos: 0 }),
        time.seconds == 20,
        time.valid(),
{
    Time { seconds: FORCED_RETRY_SECONDS, nanos: 0 }
}

/// Why a crawl runs.
#[derive(Clone, Copy, Debug, PartialEq, Eq, Structural)]
pub enum CrawlTrigger {
    /// It is time for it.
    Timer,
    /// It was forced by hand, without leave detection.
    Forced,
}

/// Where the work that a crawl entails stands.
#[derive(Clone, Copy, Debug, PartialEq, Eq, Structural)]
pub enum CrawlPhase {
    /// The crawl is to be run.
    Update,
    /// The database is to be connected.
    Connect { time: DateTime },
    /// It is to be found out whether leaves are detected.
    ReadEnabled { time: DateTime },
    /// The leave message is to be read.
    ReadMessage { time: DateTime },
    /// Leaves are to be detected.
    Detect { time: DateTime },
    /// The database could not be connected.
    Failed,
    /// Nothing is left to do.
    Finished,
}

/// The work that a crawl entails. In contracts its parts are a `Config` and sequences of
/// characters.
#[derive(Debug)]
pub struct CrawlTask<C, T> {
    pub config: C,
    pub trigger: CrawlTrigger,
    /// How long the crawl waits after its first failed attempt.
    pub retry_time: Time,
    /// The leave message.
    pub message: T,
    /// Why the database could not be connected.
    pub fault: T,
    pub phase: CrawlPhase,
}

/// What the work wants done.
#[derive(Debug)]
pub enum CrawlAction<T> {
    /// Run the crawl, which waits after its first failed attempt as long as `retry_time` says.
    RunUpdate { retry_time: Time },
    /// Connect the database.
    Connect,
    /// Read the setting `key`, which is a truth value.
    ReadFlag { key: T },
    /// Read the setting `key`, which is a text.
    ReadText { key: T },
    /// Detect leaves from the dataset of `time`.
    DetectLeaves { time: DateTime, cause: T },
    /// End, with an error if the database could not be connected.
    Finish { error: Option<T> },
}

/// What comes of an action of the work.
#[derive(Debug)]
pub enum CrawlEvent<T> {
    /// The crawl is over, with the time of the dataset if there is one.
    Updated { dataset: Option<DateTime> },
    /// The database is connected.
    Connected,
    /// The database could not be connected.
    ConnectFailed { error: T },
    /// The setting, if there is one.
    Flag { flag: Result<Option<bool>, T> },
    /// The setting, if there is one.
    Text { text: Result<Option<T>, T> },
    /// The leave detection is over.
    Detected,
}

/// The work that a crawl entails in contracts.
pub type CrawlModel = CrawlTask<Config, Seq<char>>;

impl<'a> View for CrawlTask<&'a Config, String> {
    type V = CrawlModel;

    open spec fn view(&self) -> CrawlModel {
        CrawlTask {
            config: *self.config,
            trigger: self.trigger,
            retry_time: self.retry_time,
            message: self.message@,
            fault: self.fault@,
            phase: self.phase,
        }
    }
}

impl View for CrawlAction<String> {
    type V = CrawlAction<Seq<char>>;

    open spec fn view(&self) -> CrawlAction<Seq<char>> {
        match *self {
            CrawlAction::RunUpdate { retry_time } => CrawlAction::RunUpdate { retry_time },
            CrawlAction::Connect => CrawlAction::Connect,
            CrawlAction::ReadFlag { key } => CrawlAction::ReadFlag { key: key@ },
            CrawlAction::ReadText { key } => CrawlAction::ReadText { key: key@ },
            CrawlAction::DetectLeaves { time, cause } => CrawlAction::DetectLeaves {
                time,
                cause: cause@,
            },
            CrawlAction::Finish { error: Some(text) } => CrawlAction::Finish { error: Some(text@) },
            CrawlAction::Finish { error: None } => CrawlAction::Finish { error: None },
        }
    }
}

impl View for CrawlEvent<String> {
    type V = CrawlEvent<Seq<char>>;

    open spec fn view(&self) -> CrawlEvent<Seq<char>> {
        match *self {
            CrawlEvent::Updated { dataset } => CrawlEvent::Updated { dataset },
            CrawlEvent::Connected => CrawlEvent::Connected,
            CrawlEvent::ConnectFailed { error } => CrawlEvent::ConnectFailed { error: error@ },
            CrawlEvent::Flag { flag } => CrawlEvent::Flag { flag: crate::text::text_result(flag) },
            CrawlEvent::Text { text } => CrawlEvent::Text { text: crate::leave::setting_view(text) },
            CrawlEvent::Detected => CrawlEvent::Detected,
        }
    }
}

impl CrawlTask<Config, Seq<char>> {
    /// The state at the start.
    pub open spec fn fresh(config: Config, retry_time: Time, trigger: CrawlTrigger) -> CrawlModel {
        CrawlTask {
            config,
            trigger,
            retry_time,
            message: Seq::empty(),
            fault: Seq::empty(),
            phase: CrawlPhase::Update,
        }
    }
}

impl Process for CrawlTask<Config, Seq<char>> {
    type Event = CrawlEvent<Seq<char>>;

    type Action = CrawlAction<Seq<char>>;

    open spec fn wants(self) -> CrawlAction<Seq<char>> {
        match self.phase {
            CrawlPhase::Update => CrawlAction::RunUpdate { retry_time: self.retry_time },
            CrawlPhase::Connect { time } => CrawlAction::Connect,
            CrawlPhase::ReadEnabled { time } => CrawlAction::ReadFlag { key: LEAVE_ENABLE_KEY@ },
            CrawlPhase::ReadMessage { time } => CrawlAction::ReadText { key: LEAVE_MSG_KEY@ },
            CrawlPhase::Detect { time } => CrawlAction::DetectLeaves { time, cause: self.message },
            CrawlPhase::Failed => CrawlAction::Finish { error: Some(self.fault) },
            CrawlPhase::Finished => CrawlAction::Finish { error: None },
        }
    }

    open spec fn accepts(self, event: CrawlEvent<Seq<char>>) -> bool {
        match self.wants() {
            CrawlAction::RunUpdate { .. } => event is Updated,
            CrawlAction::Connect => event is Connected || event is ConnectFailed,
            CrawlAction::ReadFlag { .. } => event is Flag,
            CrawlAction::ReadText { .. } => event is Text,
            CrawlAction::DetectLeaves { .. } => event is Detected,
            CrawlAction::Finish { .. } => false,
        }
    }

    open spec fn step(self, event: CrawlEvent<Seq<char>>) -> CrawlModel {
        match (self.phase, event) {
            (CrawlPhase::Update, CrawlEvent::Updated { dataset: Some(time) }) => CrawlTask {
                phase: match self.trigger {
                    CrawlTrigger::Timer => CrawlPhase::Connect { time },
                    CrawlTrigger::Forced => CrawlPhase::Finished,
                },
                ..self
            },
            (CrawlPhase::Connect { time }, CrawlEvent::ConnectFailed { error }) => CrawlTask {
                fault: error,
                phase: CrawlPhase::Failed,
                ..self
            },
            (CrawlPhase::Connect { time }, _) => CrawlTask {
                phase: CrawlPhase::ReadEnabled { time },
                ..self
            },
            (CrawlPhase::ReadEnabled { time }, CrawlEvent::Flag { flag }) => CrawlTask {
                phase: if crate::leave::leave_detection_enabled(flag, self.config) {
                    CrawlPhase::ReadMessage { time }
                } else {
                    CrawlPhase::Finished
                },
                ..self
            },
            (CrawlPhase::ReadMessage { time }, CrawlEvent::Text { text }) => CrawlTask {
                message: crate::leave::leave_message(text, self.config),
                phase: CrawlPhase::Detect { time },
                ..self
            },
            _ => CrawlTask { phase: CrawlPhase::Finished, ..self },
        }
    }
}

/// Starts the work that a crawl entails: the crawl, and after a successful one that the timer
/// started the leave detection, if that is enabled. After its first failed attempt the crawl
/// waits as long as `retry_time` says.
pub fn schedule_crawl_thread<'a>(
    config: &'a Config,
    retry_time: &Time,
    trigger: CrawlTrigger,
) -> (task: CrawlTask<&'a Config, String>)
    ensures
        task@ == CrawlModel::fresh(*config, *retry_time, trigger),
{
    CrawlTask {
        config,
        trigger,
        retry_time: *retry_time,
        message: String::new(),
        fault: String::new(),
        phase: CrawlPhase::Update,
    }
}

impl<'a> CrawlTask<&'a Config, String> {
    /// Says what the work wants done.
    pub fn action(&self) -> (action: CrawlAction<String>)
        ensures
            action@ == self@.wants(),
    {
        match self.phase {
            CrawlPhase::Update => CrawlAction::RunUpdate { retry_time: self.retry_time },
            CrawlPhase::Connect { .. } => CrawlAction::Connect,
            CrawlPhase::ReadEnabled { .. } => CrawlAction::ReadFlag {
                key: LEAVE_ENABLE_KEY.to_owned(),
            },
            CrawlPhase::ReadMessage { .. } => CrawlAction::ReadText {
                key: LEAVE_MSG_KEY.to_owned(),
            },
            CrawlPhase::Detect { time } => CrawlAction::DetectLeaves {
                time,
                cause: self.message.clone(),
            },
            CrawlPhase::Failed => CrawlAction::Finish { error: Some(self.fault.clone()) },
            CrawlPhase::Finished => CrawlAction::Finish { error: None },
        }
    }

    /// Goes on after `event`.
    pub fn resume(&mut self, event: CrawlEvent<String>)
        requires
            old(self)@.accepts(event@),
        ensures
            final(self)@ == old(self)@.step(event@),
    {
        match (self.phase, event) {
            (CrawlPhase::Update, CrawlEvent::Updated { dataset: Some(time) }) => {
                self.phase = match self.trigger {
                    CrawlTrigger::Timer => CrawlPhase::Connect { time },
                    CrawlTrigger::Forced => CrawlPhase::Finished,
                };
            },
            (CrawlPhase::Connect { .. }, CrawlEvent::ConnectFailed { error }) => {
                self.fault = error;
                self.phase = CrawlPhase::Failed;
            },
            (CrawlPhase::Connect { time }, _) => {
                self.phase = CrawlPhase::ReadEnabled { time };
            },
            (CrawlPhase::ReadEnabled { time }, CrawlEvent::Flag { flag }) => {
                self.phase = if get_leave_detection_enabled(flag, self.config) {
                    CrawlPhase::ReadMessage { time }
                } else {
                    CrawlPhase::Finished
                };
            },
            (CrawlPhase::ReadMessage { time }, CrawlEvent::Text { text }) => {
                self.message = get_leave_message(text, self.config);
                self.phase = CrawlPhase::Detect { time };
            },
            _ => {
                self.phase = CrawlPhase::Finished;
            },
        }
    }
}

/// How a task gets to the leave detection, event by event.
proof fn lemma_crawl_phases(
    config: Config,
    retry_time: Time,
    trigger: CrawlTrigger,
    events: Seq<CrawlEvent<Seq<char>>>,
    i: int,
)
    requires
        CrawlModel::fresh(config, retry_time, trigger).runs(events),
        0 <= i <= events.len(),
    ensures
        ({
            let task = CrawlModel::fresh(config, retry_time, trigger).state_at(events, i);
            &&& task.config == config
            &&& task.retry_time == retry_time
            &&& task.trigger == trigger
            &&& match task.phase {
                CrawlPhase::Update => i == 0,
                CrawlPhase::Connect { time } => {
                    &&& i == 1 && trigger is Timer
                    &&& events[0] == (CrawlEvent::<Seq<char>>::Updated { dataset: Some(time) })
                },
                CrawlPhase::ReadEnabled { time } => {
                    &&& i == 2 && trigger is Timer
                    &&& events[0] == (CrawlEvent::<Seq<char>>::Updated { dataset: Some(time) })
                    &&& events[1] is Connected
                },
                CrawlPhase::ReadMessage { time } => {
                    &&& i == 3 && trigger is Timer
                    &&& events[0] == (CrawlEvent::<Seq<char>>::Updated { dataset: Some(time) })
                    &&& events[1] is Connected
                    &&& events[2] is Flag
                    &&& crate::leave::leave_detection_enabled(events[2]->flag, config)
                },
                CrawlPhase::Detect { time } => {
                    &&& i == 4 && trigger is Timer
                    &&& events[0] == (CrawlEvent::<Seq<char>>::Updated { dataset: Some(time) })
                    &&& events[1] is Connected
                    &&& events[2] is Flag
                    &&& crate::leave::leave_detection_enabled(events[2]->flag, config)
                    &&& events[3] is Text
                    &&& task.message == crate::leave::leave_message(
                        events[3]->text,
                        config,
                    )
                },
                CrawlPhase::Failed => i == 2 && events[1] is ConnectFailed,
                CrawlPhase::Finished => {
                    ||| i == 1 && (trigger is Forced || events[0] == (
                    CrawlEvent::<Seq<char>>::Updated { dataset: None }))
                    ||| i == 3 && events[2] is Flag && !crate::leave::leave_detection_enabled(
                        events[2]->flag,
                        config,
                    )
                    ||| i == 5
                },
            }
        }),
    decreases i,
{
    let start = CrawlModel::fresh(config, retry_time, trigger);
    crate::process::lemma_run_ends(start, events);
    if i > 0 {
        lemma_crawl_phases(config, retry_time, trigger, events, i - 1);
        crate::process::lemma_run_step(start, events, i - 1);
    }
}

/// The crawl is run first and once, with the waiting time that the work was started with.
pub proof fn law_crawl_is_run_with_the_given_retry_time(
    config: Config,
    retry_time: Time,
    trigger: CrawlTrigger,
    events: Seq<CrawlEvent<Seq<char>>>,
    i: int,
)
    requires
        CrawlModel::fresh(config, retry_time, trigger).runs(events),
        0 <= i <= events.len(),
    ensures
        CrawlModel::fresh(config, retry_time, trigger).state_at(events, 0).wants() == (
        CrawlAction::<Seq<char>>::RunUpdate { retry_time }),
        CrawlModel::fresh(config, retry_time, trigger).state_at(events, i).wants() is RunUpdate
            ==> i == 0,
{
    crate::process::lemma_run_ends(CrawlModel::fresh(config, retry_time, trigger), events);
    lemma_crawl_phases(config, retry_time, trigger, events, i);
}

/// Leaves are detected only after a successful crawl that the timer started, from the dataset
/// of that crawl, where they are to be detected, and with the leave message.
pub proof fn law_leaves_are_detected_from_the_new_dataset(
    config: Config,
    retry_time: Time,
    trigger: CrawlTrigger,
    events: Seq<CrawlEvent<Seq<char>>>,
    i: int,
)
    requires
        CrawlModel::fresh(config, retry_time, trigger).runs(events),
        0 <= i <= events.len(),
    ensures
        CrawlModel::fresh(config, retry_time, trigger).state_at(events, i).wants() matches
            CrawlAction::DetectLeaves { time, cause } ==> {
            &&& trigger is Timer
            &&& i == 4
            &&& events[0] == (CrawlEvent::<Seq<char>>::Updated { dataset: Some(time) })
            &&& events[2] matches CrawlEvent::Flag { flag }
            &&& crate::leave::leave_detection_enabled(flag, config)
            &&& events[3] matches CrawlEvent::Text { text: message }
            &&& cause == crate::leave::leave_message(message, config)
        },
{
    lemma_crawl_phases(config, retry_time, trigger, events, i);
}

/// After a successful crawl that the timer started, leaves are detected if they are to be and
/// the database can be connected: the work does not end before.
pub proof fn law_enabled_leave_detection_is_not_skipped(
    config: Config,
    retry_time: Time,
    events: Seq<CrawlEvent<Seq<char>>>,
    time: DateTime,
)
    requires
        CrawlModel::fresh(config, retry_time, CrawlTrigger::Timer).runs(events),
        CrawlModel::fresh(config, retry_time, CrawlTrigger::Timer).after(events).wants() is Finish,
        events[0] == (CrawlEvent::<Seq<char>>::Updated { dataset: Some(time) }),
        events.len() >= 3 && events[2] is Flag ==> crate::leave::leave_detection_enabled(
            events[2]->flag,
            config,
        ),
    ensures
        events.len() == 2 && events[1] is ConnectFailed || events.len() == 5 && CrawlModel::fresh(
            config,
            retry_time,
            CrawlTrigger::Timer,
        ).state_at(events, 4).wants() is DetectLeaves,
{
    let start = CrawlModel::fresh(config, retry_time, CrawlTrigger::Timer);
    crate::process::lemma_run_ends(start, events);
    lemma_crawl_phases(config, retry_time, CrawlTrigger::Timer, events, events.len() as int);
    if events.len() == 5 {
        lemma_crawl_phases(config, retry_time, CrawlTrigger::Timer, events, 4);
        crate::process::lemma_run_step(start, events, 4);
    }
}

/// Where a leave check by hand stands.
#[derive(Clone, Copy, Debug, PartialEq, Eq, Structural)]
pub enum CheckPhase {
    /// The database is to be connected.
    Connect,
    /// The dataset of the day is to be found.
    FindData,
    /// The leave message is to be read.
    ReadMessage { time: DateTime },
    /// Leaves are to be detected.
    Detect { time: DateTime },
    /// Nothing is left to do.
    Finished,
}

/// A leave check by hand. In contracts its parts are a `Config` and sequences of characters.
#[derive(Debug)]
pub struct LeaveCheck<C, T> {
    pub config: C,
    /// The day to check for.
    pub date: Date,
    /// The leave message to use, once it is known.
    pub message: Option<T>,
    pub phase: CheckPhase,
}

/// What a leave check by hand wants done.
#[derive(Debug)]
pub enum CheckAction<T> {
    /// Connect the database.
    Connect,
    /// Find the dataset of the day `date`.
    FindData { date: Date },
    /// Read the setting `key`, which is a text.
    ReadText { key: T },
    /// Detect leaves from the dataset of `time`.
    DetectLeaves { time: DateTime, cause: T },
    /// End.
    Finish,
}

/// What comes of an action of a leave check by hand.
#[derive(Debug)]
pub enum CheckEvent<T> {
    /// The database is connected, or could not be.
    Connected { success: bool },
    /// The dataset of the day, if there is one.
    Data { dataset: Option<DateTime> },
    /// The dataset could not be looked for.
    DataFailed,
    /// The setting, if there is one.
    Text { setting: Result<Option<T>, T> },
    /// The leave detection is over.
    Detected,
}

/// A leave check by hand in contracts.
pub type CheckModel = LeaveCheck<Config, Seq<char>>;

impl<'a> View for LeaveCheck<&'a Config, String> {
    type V = CheckModel;

    open spec fn view(&self) -> CheckModel {
        LeaveCheck {
            config: *self.config,
            date: self.date,
            message: match self.message {
                Some(text) => Some(text@),
                None => None,
            },
            phase: self.phase,
        }
    }
}

impl View for CheckAction<String> {
    type V = CheckAction<Seq<char>>;

    open spec fn view(&self) -> CheckAction<Seq<char>> {
        match *self {
            CheckAction::Connect => CheckAction::Connect,
            CheckAction::FindData { date } => CheckAction::FindData { date },
            CheckAction::ReadText { key } => CheckAction::ReadText { key: key@ },
            CheckAction::DetectLeaves { time, cause } => CheckAction::DetectLeaves {
                time,
                cause: cause@,
            },
            CheckAction::Finish => CheckAction::Finish,
        }
    }
}

impl View for CheckEvent<String> {
    type V = CheckEvent<Seq<char>>;

    open spec fn view(&self) -> CheckEvent<Seq<char>> {
        match *self {
            CheckEvent::Connected { success } => CheckEvent::Connected { success },
            CheckEvent::Data { dataset } => CheckEvent::Data { dataset },
            CheckEvent::DataFailed => CheckEvent::DataFailed,
            CheckEvent::Text { setting } => CheckEvent::Text {
                setting: crate::leave::setting_view(setting),
            },
            CheckEvent::Detected => CheckEvent::Detected,
        }
    }
}

/// The leave message of a check by hand that does not come with one.
pub open spec fn manual_message(message: Seq<char>) -> Seq<char> {
    message + " manual check"@
}

impl LeaveCheck<Config, Seq<char>> {
    /// Whether a leave check can be in this state.
    pub open spec fn wf(self) -> bool {
        self.phase is Detect ==> self.message is Some
    }
}

impl Process for LeaveCheck<Config, Seq<char>> {
    type Event = CheckEvent<Seq<char>>;

    type Action = CheckAction<Seq<char>>;

    open spec fn wants(self) -> CheckAction<Seq<char>> {
        match self.phase {
            CheckPhase::Connect => CheckAction::Connect,
            CheckPhase::FindData => CheckAction::FindData { date: self.date },
            CheckPhase::ReadMessage { time } => CheckAction::ReadText { key: LEAVE_MSG_KEY@ },
            CheckPhase::Detect { time } => CheckAction::DetectLeaves {
                time,
                cause: self.message->0,
            },
            CheckPhase::Finished => CheckAction::Finish,
        }
    }

    open spec fn accepts(self, event: CheckEvent<Seq<char>>) -> bool {
        match self.wants() {
            CheckAction::Connect => event is Connected,
            CheckAction::FindData { .. } => event is Data || event is DataFailed,
            CheckAction::ReadText { .. } => event is Text,
            CheckAction::DetectLeaves { .. } => event is Detected,
            CheckAction::Finish => false,
        }
    }

    open spec fn step(self, event: CheckEvent<Seq<char>>) -> CheckModel {
        match (self.phase, event) {
            (CheckPhase::Connect, CheckEvent::Connected { success: true }) => LeaveCheck {
                phase: CheckPhase::FindData,
                ..self
            },
            (CheckPhase::FindData, CheckEvent::Data { dataset: Some(time) }) => LeaveCheck {
                phase: if self.message is Some {
                    CheckPhase::Detect { time }
                } else {
                    CheckPhase::ReadMessage { time }
                },
                ..self
            },
            (CheckPhase::ReadMessage { time }, CheckEvent::Text { setting }) => LeaveCheck {
                message: Some(manual_message(crate::leave::leave_message(setting, self.config))),
                phase: CheckPhase::Detect { time },
                ..self
            },
            _ => LeaveCheck { phase: CheckPhase::Finished, ..self },
        }
    }
}

/// Starts a leave check by hand for the day `date`, with `message` as the leave message if
/// there is one.
pub fn check_leave<'a>(config: &'a Config, date: Date, message: Option<String>) -> (check:
    LeaveCheck<&'a Config, String>)
    ensures
        check@ == (LeaveCheck {
            config: *config,
            date,
            message: match message {
                Some(text) => Some(text@),
                None => None,
            },
            phase: CheckPhase::Connect,
        }),
        check@.wf(),
{
    LeaveCheck { config, date, message, phase: CheckPhase::Connect }
}

impl<'a> LeaveCheck<&'a Config, String> {
    /// Says what the leave check wants done.
    pub fn action(&self) -> (action: CheckAction<String>)
        requires
            self@.wf(),
        ensures
            action@ == self@.wants(),
    {
        match self.phase {
            CheckPhase::Connect => CheckAction::Connect,
            CheckPhase::FindData => CheckAction::FindData { date: self.date },
            CheckPhase::ReadMessage { .. } => CheckAction::ReadText {
                key: LEAVE_MSG_KEY.to_owned(),
            },
            CheckPhase::Detect { time } => CheckAction::DetectLeaves {
                time,
                cause: self.message.as_ref().unwrap().clone(),
            },
            CheckPhase::Finished => CheckAction::Finish,
        }
    }

    /// Goes on after `event`.
    pub fn resume(&mut self, event: CheckEvent<String>)
        requires
            old(self)@.wf(),
            old(self)@.accepts(event@),
        ensures
            final(self)@ == old(self)@.step(event@),
            final(self)@.wf(),
    {
        match (self.phase, event) {
            (CheckPhase::Connect, CheckEvent::Connected { success: true }) => {
                self.phase = CheckPhase::FindData;
            },
            (CheckPhase::FindData, CheckEvent::Data { dataset: Some(time) }) => {
                self.phase = if self.message.is_some() {
                    CheckPhase::Detect { time }
                } else {
                    CheckPhase::ReadMessage { time }
                };
            },
            (CheckPhase::ReadMessage { time }, CheckEvent::Text { setting }) => {
                let mut message = get_leave_message(setting, self.config);
                message.append(" manual check");
                self.message = Some(message);
                self.phase = CheckPhase::Detect { time };
            },
            _ => {
                self.phase = CheckPhase::Finished;
            },
        }
    }
}

/// A leave check by hand detects leaves from the dataset of the day that was asked for, and
/// only if there is one. A leave message that came with it is used as it is.
pub proof fn law_manual_check_uses_the_dataset_of_the_day(
    start: CheckModel,
    events: Seq<CheckEvent<Seq<char>>>,
    i: int,
)
    requires
        start.phase is Connect,
        start.runs(events),
        0 <= i <= events.len(),
    ensures
        start.state_at(events, i).wants() matches CheckAction::DetectLeaves { time, cause } ==> {
            &&& start.state_at(events, 1).wants() == (CheckAction::<Seq<char>>::FindData {
                date: start.date,
            })
            &&& events[1] == (CheckEvent::<Seq<char>>::Data { dataset: Some(time) })
            &&& match start.message {
                Some(message) => cause == message,
                None => {
                    &&& events[2] matches CheckEvent::Text { setting }
                    &&& cause == manual_message(
                        crate::leave::leave_message(setting, start.config),
                    )
                },
            }
        },
{
    lemma_check_phases(start, events, i);
    if i >= 1 {
        lemma_check_phases(start, events, 1);
    }
}

proof fn lemma_check_phases(start: CheckModel, events: Seq<CheckEvent<Seq<char>>>, i: int)
    requires
        start.phase is Connect,
        start.runs(events),
        0 <= i <= events.len(),
    ensures
        ({
            let check = start.state_at(events, i);
            &&& check.config == start.config
            &&& check.date == start.date
            &&& match check.phase {
                CheckPhase::Connect => i == 0 && check.message == start.message,
                CheckPhase::FindData => i == 1 && check.message == start.message,
                CheckPhase::ReadMessage { time } => {
                    &&& i == 2
                    &&& events[1] == (CheckEvent::<Seq<char>>::Data { dataset: Some(time) })
                    &&& start.state_at(events, 1).phase is FindData
                    &&& start.message is None
                },
                CheckPhase::Detect { time } => {
                    &&& i >= 2
                    &&& events[1] == (CheckEvent::<Seq<char>>::Data { dataset: Some(time) })
                    &&& start.state_at(events, 1).phase is FindData
                    &&& match start.message {
                        Some(message) => check.message == Some(message),
                        None => {
                            &&& events[2] matches CheckEvent::Text { setting }
                            &&& check.message == Some(
                                manual_message(
                                    crate::leave::leave_message(setting, start.config),
                                ),
                            )
                        },
                    }
                },
                CheckPhase::Finished => true,
            }
        }),
    decreases i,
{
    crate::process::lemma_run_ends(start, events);
    if i > 0 {
        lemma_check_phases(start, events, i - 1);
        crate::process::lemma_run_step(start, events, i - 1);
    }
}

/// The work that a crawl entails takes whatever can come of what it wants, and nothing else.
pub proof fn law_task_takes_every_answer(task: CrawlModel, event: CrawlEvent<Seq<char>>)
    ensures
        task.accepts(event) <==> match event {
            CrawlEvent::Updated { dataset } => task.wants() is RunUpdate,
            CrawlEvent::Connected => task.wants() is Connect,
            CrawlEvent::ConnectFailed { error } => task.wants() is Connect,
            CrawlEvent::Flag { flag } => task.wants() is ReadFlag,
            CrawlEvent::Text { text } => task.wants() is ReadText,
            CrawlEvent::Detected => task.wants() is DetectLeaves,
        },
{
}

/// What the work wants is what `action` hands out, part by part.
pub proof fn law_task_action_is_handed_out_whole(action: CrawlAction<String>)
    ensures
        action matches CrawlAction::RunUpdate { retry_time } ==> action@ == (CrawlAction::<
            Seq<char>,
        >::RunUpdate { retry_time }),
        action is Connect ==> action@ is Connect,
        action matches CrawlAction::ReadFlag { key } ==> action@ == (CrawlAction::ReadFlag {
            key: key@,
        }),
        action matches CrawlAction::ReadText { key } ==> action@ == (CrawlAction::ReadText {
            key: key@,
        }),
        action matches CrawlAction::DetectLeaves { time, cause } ==> action@ == (
        CrawlAction::DetectLeaves { time, cause: cause@ }),
        action matches CrawlAction::Finish { error: None } ==> action@ == (CrawlAction::<
            Seq<char>,
        >::Finish { error: None }),
        action matches CrawlAction::Finish { error: Some(text) } ==> action@ == (
        CrawlAction::Finish { error: Some(text@) }),
{
}

/// What is told to the work is what `resume` takes, part by part.
pub proof fn law_task_event_is_taken_whole(event: CrawlEvent<String>)
    ensures
        event matches CrawlEvent::Updated { dataset } ==> event@ == (CrawlEvent::<
            Seq<char>,
        >::Updated { dataset }),
        event is Connected ==> event@ is Connected,
        event matches CrawlEvent::ConnectFailed { error } ==> event@ == (
        CrawlEvent::ConnectFailed { error: error@ }),
        event matches CrawlEvent::Flag { flag: Ok(flag) } ==> event@ == (CrawlEvent::<
            Seq<char>,
        >::Flag { flag: Ok(flag) }),
        event matches CrawlEvent::Flag { flag: Err(error) } ==> event@ == (CrawlEvent::Flag {
            flag: Err(error@),
        }),
        event matches CrawlEvent::Text { text: Ok(Some(text)) } ==> event@ == (CrawlEvent::Text {
            text: Ok(Some(text@)),
        }),
        event matches CrawlEvent::Text { text: Ok(None) } ==> event@ == (CrawlEvent::<
            Seq<char>,
        >::Text { text: Ok(None) }),
        event matches CrawlEvent::Text { text: Err(error) } ==> event@ == (CrawlEvent::Text {
            text: Err(error@),
        }),
        event is Detected ==> event@ is Detected,
{
}

/// What the work does, event by event. A crawl that ends without a dataset, or that was forced,
/// is all. After any other one the database is connected and asked whether leaves are to be
/// detected; where it does not say, the configuration does. If they are, the leave message is
/// read likewise, and leaves are detected from the dataset of the crawl with that message.
pub proof fn law_task_goes_step_by_step(
    config: Config,
    retry_time: Time,
    trigger: CrawlTrigger,
    events: Seq<CrawlEvent<Seq<char>>>,
    i: int,
)
    requires
        CrawlModel::fresh(config, retry_time, trigger).runs(events),
        0 <= i <= events.len(),
    ensures
        ({
            let wanted = CrawlModel::fresh(config, retry_time, trigger).state_at(
                events,
                i,
            ).wants();
            let end = CrawlAction::<Seq<char>>::Finish { error: None };
            if i == 0 {
                wanted == (CrawlAction::<Seq<char>>::RunUpdate { retry_time })
            } else {
                &&& events[0] matches CrawlEvent::Updated { dataset }
                &&& match dataset {
                    None => i == 1 && wanted == end,
                    Some(time) => if trigger is Forced {
                        i == 1 && wanted == end
                    } else if i == 1 {
                        wanted is Connect
                    } else if events[1] is ConnectFailed {
                        &&& i == 2
                        &&& wanted == (CrawlAction::Finish { error: Some(events[1]->error) })
                    } else if i == 2 {
                        &&& events[1] is Connected
                        &&& wanted == (CrawlAction::ReadFlag { key: "auto_leave_enable"@ })
                    } else {
                        &&& events[2] matches CrawlEvent::Flag { flag }
                        &&& if !(match flag {
                            Ok(Some(stored)) => stored,
                            Ok(None) => config.main.auto_leave_enabled,
                            Err(_) => config.main.auto_leave_enabled,
                        }) {
                            i == 3 && wanted == end
                        } else if i == 3 {
                            wanted == (CrawlAction::ReadText { key: "auto_leave_message"@ })
                        } else if i == 4 {
                            &&& events[3] matches CrawlEvent::Text { text }
                            &&& wanted == (CrawlAction::DetectLeaves {
                                time,
                                cause: match text {
                                    Ok(Some(stored)) => stored,
                                    Ok(None) => config.main.auto_leave_message_default@,
                                    Err(_) => config.main.auto_leave_message_default@,
                                },
                            })
                        } else {
                            i == 5 && wanted == end
                        }
                    },
                }
            }
        }),
    decreases i,
{
    let start = CrawlModel::fresh(config, retry_time, trigger);
    crate::process::lemma_run_ends(start, events);
    lemma_crawl_phases(config, retry_time, trigger, events, i);
    if i > 0 {
        law_task_goes_step_by_step(config, retry_time, trigger, events, i - 1);
        lemma_crawl_phases(config, retry_time, trigger, events, i - 1);
        crate::process::lemma_run_step(start, events, i - 1);
    }
}

/// A leave check by hand takes whatever can come of what it wants, and nothing else.
pub proof fn law_check_takes_every_answer(check: CheckModel, event: CheckEvent<Seq<char>>)
    ensures
        check.accepts(event) <==> match event {
            CheckEvent::Connected { success } => check.wants() is Connect,
            CheckEvent::Data { dataset } => check.wants() is FindData,
            CheckEvent::DataFailed => check.wants() is FindData,
            CheckEvent::Text { setting } => check.wants() is ReadText,
            CheckEvent::Detected => check.wants() is DetectLeaves,
        },
{
}

/// What a leave check by hand wants is what `action` hands out, part by part.
pub proof fn law_check_action_is_handed_out_whole(action: CheckAction<String>)
    ensures
        action is Connect ==> action@ is Connect,
        action matches CheckAction::FindData { date } ==> action@ == (CheckAction::<
            Seq<char>,
        >::FindData { date }),
        action matches CheckAction::ReadText { key } ==> action@ == (CheckAction::ReadText {
            key: key@,
        }),
        action matches CheckAction::DetectLeaves { time, cause } ==> action@ == (
        CheckAction::DetectLeaves { time, cause: cause@ }),
        action is Finish ==> action@ is Finish,
{
}

/// What is told to a leave check by hand is what `resume` takes, part by part.
pub proof fn law_check_event_is_taken_whole(event: CheckEvent<String>)
    ensures
        event matches CheckEvent::Connected { success } ==> event@ == (CheckEvent::<
            Seq<char>,
        >::Connected { success }),
        event matches CheckEvent::Data { dataset } ==> event@ == (CheckEvent::<
            Seq<char>,
        >::Data { dataset }),
        event is DataFailed ==> event@ is DataFailed,
        event matches CheckEvent::Text { setting: Ok(Some(text)) } ==> event@ == (
        CheckEvent::Text { setting: Ok(Some(text@)) }),
        event matches CheckEvent::Text { setting: Ok(None) } ==> event@ == (CheckEvent::<
            Seq<char>,
        >::Text { setting: Ok(None) }),
        event matches CheckEvent::Text { setting: Err(error) } ==> event@ == (CheckEvent::Text {
            setting: Err(error@),
        }),
        event is Detected ==> event@ is Detected,
{
}

/// What a leave check by hand does, event by event. It ends early only if the database cannot be
/// connected or there is no dataset of the day to be had. Otherwise leaves are detected from that
/// dataset, with the message that came with the check as it is, or else with the leave message of
/// the database or the configuration and the words that it was a manual check.
pub proof fn law_check_goes_step_by_step(
    start: CheckModel,
    events: Seq<CheckEvent<Seq<char>>>,
    i: int,
)
    requires
        start.phase is Connect,
        start.runs(events),
        0 <= i <= events.len(),
    ensures
        ({
            let wanted = start.state_at(events, i).wants();
            if i == 0 {
                wanted is Connect
            } else {
                &&& events[0] matches CheckEvent::Connected { success }
                &&& if !success {
                    i == 1 && wanted is Finish
                } else if i == 1 {
                    wanted == (CheckAction::<Seq<char>>::FindData { date: start.date })
                } else {
                    match events[1] {
                        CheckEvent::Data { dataset: Some(time) } => match start.message {
                            Some(message) => if i == 2 {
                                wanted == (CheckAction::DetectLeaves { time, cause: message })
                            } else {
                                i == 3 && wanted is Finish
                            },
                            None => if i == 2 {
                                wanted == (CheckAction::ReadText { key: "auto_leave_message"@ })
                            } else if i == 3 {
                                &&& events[2] matches CheckEvent::Text { setting }
                                &&& wanted == (CheckAction::DetectLeaves {
                                    time,
                                    cause: (match setting {
                                        Ok(Some(stored)) => stored,
                                        Ok(None) => start.config.main.auto_leave_message_default@,
                                        Err(_) => start.config.main.auto_leave_message_default@,
                                    }) + " manual check"@,
                                })
                            } else {
                                i == 4 && wanted is Finish
                            },
                        },
                        CheckEvent::Data { dataset: None } => i == 2 && wanted is Finish,
                        CheckEvent::DataFailed => i == 2 && wanted is Finish,
                        _ => false,
                    }
                }
            }
        }),
    decreases i,
{
    crate::process::lemma_run_ends(start, events);
    lemma_check_phases(start, events, i);
    if i > 0 {
        law_check_goes_step_by_step(start, events, i - 1);
        lemma_check_phases(start, events, i - 1);
        crate::process::lemma_run_step(start, events, i - 1);
    }
}

} // verus!
