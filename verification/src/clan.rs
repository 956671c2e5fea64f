//! Fetching the clan itself.

use crate::calendar::DateTime;
use crate::config::Config;
use crate::model::{Clan, HeaderType};
use crate::process::{Process, Runs};
use vstd::prelude::*;

verus! {

/// Where the update of the clan stands.
#[derive(Clone, Copy, Debug, PartialEq, Eq, Structural)]
pub enum ClanPhase {
    /// The page of the clan is to be fetched.
    Fetch,
    /// The clan is to be stored.
    Insert,
    /// The clan has been stored.
    Stored,
    /// The update has failed.
    Failed,
}

/// An update of the clan under way.
#[derive(Debug)]
pub struct ClanRun {
    /// The address of the page of the clan.
    pub url: String,
    /// The time that the clan is stored under.
    pub time: DateTime,
    /// The clan, once it is known.
    pub clan: Option<Clan>,
    /// What went wrong.
    pub fault: String,
    pub phase: ClanPhase,
}

/// What the update of the clan wants done. In contracts its parts are a `Clan` and a sequence of
/// characters.
#[derive(Debug)]
pub enum ClanAction<C, T> {
    /// Fetch the page at `url` with headers of that kind, and parse it.
    Fetch { url: T, headers: HeaderType },
    /// Store `clan` under `time`.
    Insert { clan: C, time: DateTime },
    /// End, with an error if the update failed.
    Finish { error: Option<T> },
}

impl<'b> View for ClanAction<&'b Clan, String> {
    type V = ClanAction<Clan, Seq<char>>;

    open spec fn view(&self) -> ClanAction<Clan, Seq<char>> {
        match *self {
            ClanAction::Fetch { url, headers } => ClanAction::Fetch { url: url@, headers },
            ClanAction::Insert { clan, time } => ClanAction::Insert { clan: *clan, time },
            ClanAction::Finish { error: Some(text) } => ClanAction::Finish { error: Some(text@) },
            ClanAction::Finish { error: None } => ClanAction::Finish { error: None },
        }
    }
}

/// What comes of an action of the update of the clan.
#[derive(Debug)]
pub enum ClanEvent {
    /// The clan that the page told of.
    Page { clan: Clan },
    /// The clan was stored.
    Inserted,
    /// The page could not be had, or the clan could not be stored.
    Failed { error: String },
}

impl ClanRun {
    /// Whether the update can be in this state.
    pub open spec fn wf(self) -> bool {
        self.phase is Insert ==> self.clan is Some
    }
}

impl Process for ClanRun {
    type Event = ClanEvent;

    type Action = ClanAction<Clan, Seq<char>>;

    open spec fn wants(self) -> ClanAction<Clan, Seq<char>> {
        match self.phase {
            ClanPhase::Fetch => ClanAction::Fetch {
                url: self.url@,
                headers: HeaderType::Html,
            },
            ClanPhase::Insert => ClanAction::Insert { clan: self.clan->0, time: self.time },
            ClanPhase::Stored => ClanAction::Finish { error: None },
            ClanPhase::Failed => ClanAction::Finish { error: Some(self.fault@) },
        }
    }

    open spec fn accepts(self, event: ClanEvent) -> bool {
        match self.wants() {
            ClanAction::Fetch { .. } => event is Page || event is Failed,
            ClanAction::Insert { .. } => event is Inserted || event is Failed,
            ClanAction::Finish { .. } => false,
        }
    }

    open spec fn step(self, event: ClanEvent) -> ClanRun {
        match event {
            ClanEvent::Page { clan } => ClanRun {
                clan: Some(clan),
                phase: ClanPhase::Insert,
                ..self
            },
            ClanEvent::Inserted => ClanRun { phase: ClanPhase::Stored, ..self },
            ClanEvent::Failed { error } => ClanRun {
                fault: error,
                phase: ClanPhase::Failed,
                ..self
            },
        }
    }
}

/// run clan crawl & update
///
/// Starts an update of the clan, which will be stored under `time`.
pub fn run_update_clan(config: &Config, time: DateTime) -> (run: ClanRun)
    ensures
        run.url@ == config.main.clan_url@,
        run.time == time,
        run.clan is None,
        run.phase is Fetch,
        run.wf(),
{
    ClanRun {
        url: config.main.clan_url.clone(),
        time,
        clan: None,
        fault: String::new(),
        phase: ClanPhase::Fetch,
    }
}

impl ClanRun {
    /// Says what the update wants done.
    pub fn action(&self) -> (action: ClanAction<&Clan, String>)
        requires
            self.wf(),
        ensures
            action@ == self.wants(),
    {
        match self.phase {
            ClanPhase::Fetch => ClanAction::Fetch {
                url: self.url.clone(),
                headers: HeaderType::Html,
            },
            ClanPhase::Insert => ClanAction::Insert {
                clan: self.clan.as_ref().unwrap(),
                time: self.time,
            },
            ClanPhase::Stored => ClanAction::Finish { error: None },
            ClanPhase::Failed => ClanAction::Finish { error: Some(self.fault.clone()) },
        }
    }

    /// Goes on after `event`.
    pub fn resume(&mut self, event: ClanEvent)
        requires
            old(self).accepts(event),
        ensures
            *final(self) == old(self).step(event),
            final(self).wf(),
    {
        match event {
            ClanEvent::Page { clan } => {
                self.clan = Some(clan);
                self.phase = ClanPhase::Insert;
            },
            ClanEvent::Inserted => {
                self.phase = ClanPhase::Stored;
            },
            ClanEvent::Failed { error } => {
                self.fault = error;
                self.phase = ClanPhase::Failed;
            },
        }
    }
}

proof fn lemma_phases(start: ClanRun, events: Seq<ClanEvent>, i: int)
    requires
        start.phase is Fetch,
        start.runs(events),
        0 <= i <= events.len(),
    ensures
        ({
            let run = start.state_at(events, i);
            &&& run.url == start.url
            &&& run.time == start.time
            &&& match run.phase {
                ClanPhase::Fetch => i == 0,
                ClanPhase::Insert => {
                    &&& i == 1
                    &&& run.clan matches Some(clan)
                    &&& events[0] == (ClanEvent::Page { clan })
                },
                ClanPhase::Stored => i == 2 && events[0] is Page && events[1] is Inserted,
                ClanPhase::Failed => {
                    &&& 1 <= i <= 2
                    &&& events[i - 1] == (ClanEvent::Failed { error: run.fault })
                },
            }
        }),
    decreases i,
{
    crate::process::lemma_run_ends(start, events);
    if i > 0 {
        lemma_phases(start, events, i - 1);
        crate::process::lemma_run_step(start, events, i - 1);
    }
}

/// The page of the clan is asked for first and once, as a page for people.
pub proof fn law_clan_page_is_fetched_once(start: ClanRun, events: Seq<ClanEvent>, i: int)
    requires
        start.phase is Fetch,
        start.runs(events),
        0 <= i <= events.len(),
    ensures
        start.state_at(events, i).wants() matches ClanAction::Fetch { url, headers } ==> {
            &&& i == 0
            &&& url == start.url@
            &&& headers is Html
        },
{
    lemma_phases(start, events, i);
}

/// What is stored is the clan that the page told of, under the time of the update.
pub proof fn law_clan_is_stored_as_fetched(start: ClanRun, events: Seq<ClanEvent>, i: int)
    requires
        start.phase is Fetch,
        start.runs(events),
        0 <= i <= events.len(),
    ensures
        start.state_at(events, i).wants() matches ClanAction::Insert { clan, time } ==> {
            &&& i == 1
            &&& events[0] == (ClanEvent::Page { clan })
            &&& time == start.time
        },
{
    lemma_phases(start, events, i);
}

/// The update comes to an end after two events at most. It succeeds only if the clan was fetched
/// and stored, and the first failure ends it with its error.
pub proof fn law_clan_update_ends(start: ClanRun, events: Seq<ClanEvent>)
    requires
        start.phase is Fetch,
        start.runs(events),
    ensures
        events.len() <= 2,
        start.after(events).wants() matches ClanAction::Finish { error } ==> match error {
            None => events.len() == 2 && events[0] is Page && events[1] is Inserted,
            Some(text) => {
                &&& events.len() >= 1
                &&& events.last() matches ClanEvent::Failed { error: cause }
                &&& text == cause@
            },
        },
{
    crate::process::lemma_run_ends(start, events);
    lemma_phases(start, events, events.len() as int);
}

/// The update takes whatever can come of what it wants, and nothing else.
pub proof fn law_clan_update_takes_every_answer(run: ClanRun, event: ClanEvent)
    ensures
        run.accepts(event) <==> match event {
            ClanEvent::Page { clan } => run.wants() is Fetch,
            ClanEvent::Inserted => run.wants() is Insert,
            ClanEvent::Failed { error } => run.wants() is Fetch || run.wants() is Insert,
        },
{
}

/// What the update wants is what `action` hands out, part by part.
pub proof fn law_clan_action_is_handed_out_whole(action: ClanAction<&Clan, String>)
    ensures
        action matches ClanAction::Fetch { url, headers } ==> action@ == (ClanAction::<
            Clan,
            Seq<char>,
        >::Fetch { url: url@, headers }),
        action matches ClanAction::Insert { clan, time } ==> action@ == (ClanAction::<
            Clan,
            Seq<char>,
        >::Insert { clan: *clan, time }),
        action matches ClanAction::Finish { error: None } ==> action@ == (ClanAction::<
            Clan,
            Seq<char>,
        >::Finish { error: None }),
        action matches ClanAction::Finish { error: Some(text) } ==> action@ == (ClanAction::<
            Clan,
            Seq<char>,
        >::Finish { error: Some(text@) }),
{
}

/// What the update does, event by event: it fetches the page, stores the clan that the page told
/// of and ends without an error. The first failure ends it with the error.
pub proof fn law_clan_update_goes_step_by_step(start: ClanRun, events: Seq<ClanEvent>, i: int)
    requires
        start.phase is Fetch,
        start.runs(events),
        0 <= i <= events.len(),
    ensures
        start.state_at(events, i).wants() == if i == 0 {
            ClanAction::Fetch { url: start.url@, headers: HeaderType::Html }
        } else {
            match events[i - 1] {
                ClanEvent::Page { clan } => ClanAction::Insert { clan, time: start.time },
                ClanEvent::Inserted => ClanAction::Finish { error: None },
                ClanEvent::Failed { error } => ClanAction::Finish { error: Some(error@) },
            }
        },
{
    crate::process::lemma_run_ends(start, events);
    lemma_phases(start, events, i);
    if i > 0 {
        lemma_phases(start, events, i - 1);
        crate::process::lemma_run_step(start, events, i - 1);
    }
}

} // verus!
