//! Fetching the members of the clan, page by page.

use crate::calendar::DateTime;
use crate::config::Config;
use crate::model::{HeaderType, Member};
use crate::process::{Process, Runs};
use crate::text::{decimal, replace};
use vstd::prelude::*;

verus! {

/// How many members are expected as long as no page has told.
pub const FIRST_EXPECTATION: usize = 100;

/// The error where more pages would be needed than may be asked for.
pub const SITE_OVER_LIMIT: &'static str = "Site over limit.";

/// The last row of page `site` where each page has `per_site` rows.
pub open spec fn end_row(site: int, per_site: int) -> int {
    site * per_site
}

/// The first row of page `site` where each page has `per_site` rows.
pub open spec fn start_row(site: int, per_site: int) -> int {
    end_row(site, per_site) - (per_site - 1)
}

/// Whether the rows of page `site` are numbers that a `u8` holds.
pub open spec fn rows_fit(site: int, per_site: int) -> bool {
    per_site >= 1 && end_row(site, per_site) <= u8::MAX && start_row(site, per_site) >= 0
}

/// The address of page `site`: the template with the page, its first row and its last row
/// filled in, in this order.
pub open spec fn member_url(site: int, config: Config) -> Seq<char> {
    let per_site = config.main.clan_ajax_exptected_per_site as int;
    let with_site = crate::text::replaced(
        config.main.clan_ajax_url@,
        config.main.clan_ajax_site_key@,
        crate::text::decimal_text(site as nat),
    );
    let with_start = crate::text::replaced(
        with_site,
        config.main.clan_ajax_start_row_key@,
        crate::text::decimal_text(start_row(site, per_site) as nat),
    );
    crate::text::replaced(
        with_start,
        config.main.clan_ajax_end_row_key@,
        crate::text::decimal_text(end_row(site, per_site) as nat),
    )
}

/// The pages take up the rows from 1 on without a gap and without overlap, and each has as many
/// rows as the configuration says.
pub proof fn law_pages_adjoin(site: int, per_site: int)
    requires
        site >= 1,
        per_site >= 1,
    ensures
        start_row(1, per_site) == 1,
        start_row(site + 1, per_site) == end_row(site, per_site) + 1,
        end_row(site, per_site) - start_row(site, per_site) + 1 == per_site,
{
    assert((site + 1) * per_site == site * per_site + per_site) by (nonlinear_arith);
}

/// get member url for ajax request
pub fn get_member_url(site: &u8, config: &Config) -> (url: String)
    requires
        rows_fit(*site as int, config.main.clan_ajax_exptected_per_site as int),
    ensures
        url@ == member_url(*site as int, *config),
        ({
            let rows = config.main.clan_ajax_exptected_per_site as int;
            let last = *site as int * rows;
            url@ == crate::text::replaced(
                crate::text::replaced(
                    crate::text::replaced(
                        config.main.clan_ajax_url@,
                        config.main.clan_ajax_site_key@,
                        crate::text::decimal_text(*site as nat),
                    ),
                    config.main.clan_ajax_start_row_key@,
                    crate::text::decimal_text((last - rows + 1) as nat),
                ),
                config.main.clan_ajax_end_row_key@,
                crate::text::decimal_text(last as nat),
            )
        }),
{
    let end_row: u8 = *site * config.main.clan_ajax_exptected_per_site;
    let start_row: u8 = end_row - (config.main.clan_ajax_exptected_per_site - 1);
    let output = replace(
        config.main.clan_ajax_url.as_str(),
        config.main.clan_ajax_site_key.as_str(),
        decimal(*site as u64).as_str(),
    );
    let output = replace(
        output.as_str(),
        config.main.clan_ajax_start_row_key.as_str(),
        decimal(start_row as u64).as_str(),
    );
    replace(
        output.as_str(),
        config.main.clan_ajax_end_row_key.as_str(),
        decimal(end_row as u64).as_str(),
    )
}

/// Where the update of the members stands.
#[derive(Clone, Copy, Debug, PartialEq, Eq, Structural)]
pub enum MemberPhase {
    /// A page is to be fetched.
    Fetch,
    /// The members are to be stored.
    Insert,
    /// The members have been stored.
    Stored,
    /// The update has failed.
    Failed,
}

/// An update of the members under way. In contracts its parts are a `Config`, a sequence of
/// members and a sequence of characters.
#[derive(Debug)]
pub struct MemberRun<C, L, T> {
    pub config: C,
    /// The time that the members are stored under.
    pub time: DateTime,
    /// The page that is asked for, from 1.
    pub site: u8,
    /// The members of the pages so far.
    pub members: L,
    /// How many members there are, as the last page told.
    pub to_receive: usize,
    /// What went wrong.
    pub fault: T,
    pub phase: MemberPhase,
}

/// What the update of the members wants done.
#[derive(Debug)]
pub enum MemberAction<L, T> {
    /// Fetch the page at `url` with headers of that kind, and parse it.
    Fetch { url: T, headers: HeaderType },
    /// Store `members` under `time`.
    Insert { members: L, time: DateTime },
    /// End, with an error if the update failed.
    Finish { error: Option<T> },
}

/// What comes of an action of the update of the members.
#[derive(Debug)]
pub enum MemberEvent<L, T> {
    /// A page with its members, and how many members there are in all.
    Page { members: L, total: usize },
    /// The members were stored.
    Inserted,
    /// The page could not be had, or the members could not be stored.
    Failed { error: T },
}

/// An update of the members in contracts.
pub type MemberModel = MemberRun<Config, Seq<Member>, Seq<char>>;

impl<'a> View for MemberRun<&'a Config, Vec<Member>, String> {
    type V = MemberModel;

    open spec fn view(&self) -> MemberModel {
        MemberRun {
            config: *self.config,
            time: self.time,
            site: self.site,
            members: self.members@,
            to_receive: self.to_receive,
            fault: self.fault@,
            phase: self.phase,
        }
    }
}

impl<'b> View for MemberAction<&'b Vec<Member>, String> {
    type V = MemberAction<Seq<Member>, Seq<char>>;

    open spec fn view(&self) -> MemberAction<Seq<Member>, Seq<char>> {
        match *self {
            MemberAction::Fetch { url, headers } => MemberAction::Fetch { url: url@, headers },
            MemberAction::Insert { members, time } => MemberAction::Insert {
                members: members@,
                time,
            },
            MemberAction::Finish { error: Some(text) } => MemberAction::Finish {
                error: Some(text@),
            },
            MemberAction::Finish { error: None } => MemberAction::Finish { error: None },
        }
    }
}

impl View for MemberEvent<Vec<Member>, String> {
    type V = MemberEvent<Seq<Member>, Seq<char>>;

    open spec fn view(&self) -> MemberEvent<Seq<Member>, Seq<char>> {
        match *self {
            MemberEvent::Page { members, total } => MemberEvent::Page { members: members@, total },
            MemberEvent::Inserted => MemberEvent::Inserted,
            MemberEvent::Failed { error } => MemberEvent::Failed { error: error@ },
        }
    }
}

impl MemberRun<Config, Seq<Member>, Seq<char>> {
    /// The state in which no page has been asked for.
    pub open spec fn blank(config: Config, time: DateTime) -> MemberModel {
        MemberRun {
            config,
            time,
            site: 0,
            members: Seq::empty(),
            to_receive: FIRST_EXPECTATION,
            fault: Seq::empty(),
            phase: MemberPhase::Fetch,
        }
    }

    /// Whether members are still missing.
    pub open spec fn wants_more(self) -> bool {
        self.members.len() < self.to_receive
    }

    /// Whether the next page can be told, where one is needed and allowed.
    pub open spec fn can_go_on(self) -> bool {
        self.wants_more() ==> {
            &&& self.site < u8::MAX
            &&& self.site < self.config.main.clan_ajax_max_sites ==> rows_fit(
                self.site + 1,
                self.config.main.clan_ajax_exptected_per_site as int,
            )
        }
    }

    /// The state after what there is has been counted: the next page is asked for if members
    /// are missing, unless that is a page too many.
    pub open spec fn counted(self) -> MemberModel {
        if !self.wants_more() {
            MemberRun { phase: MemberPhase::Insert, ..self }
        } else if self.site < self.config.main.clan_ajax_max_sites {
            MemberRun { site: (self.site + 1) as u8, phase: MemberPhase::Fetch, ..self }
        } else {
            MemberRun {
                site: (self.site + 1) as u8,
                fault: SITE_OVER_LIMIT@,
                phase: MemberPhase::Failed,
                ..self
            }
        }
    }

    /// The state at the start.
    pub open spec fn fresh(config: Config, time: DateTime) -> MemberModel {
        Self::blank(config, time).counted()
    }

    /// Whether the update can be in this state.
    pub open spec fn wf(self) -> bool {
        match self.phase {
            MemberPhase::Fetch => {
                &&& 1 <= self.site <= self.config.main.clan_ajax_max_sites
                &&& self.wants_more()
                &&& rows_fit(
                    self.site as int,
                    self.config.main.clan_ajax_exptected_per_site as int,
                )
            },
            MemberPhase::Insert => !self.wants_more(),
            MemberPhase::Stored => !self.wants_more(),
            MemberPhase::Failed => true,
        }
    }
}

impl Process for MemberRun<Config, Seq<Member>, Seq<char>> {
    type Event = MemberEvent<Seq<Member>, Seq<char>>;

    type Action = MemberAction<Seq<Member>, Seq<char>>;

    open spec fn wants(self) -> MemberAction<Seq<Member>, Seq<char>> {
        match self.phase {
            MemberPhase::Fetch => MemberAction::Fetch {
                url: member_url(self.site as int, self.config),
                headers: HeaderType::Ajax,
            },
            MemberPhase::Insert => MemberAction::Insert { members: self.members, time: self.time },
            MemberPhase::Stored => MemberAction::Finish { error: None },
            MemberPhase::Failed => MemberAction::Finish { error: Some(self.fault) },
        }
    }

    open spec fn accepts(self, event: MemberEvent<Seq<Member>, Seq<char>>) -> bool {
        match (self.phase, event) {
            (MemberPhase::Fetch, MemberEvent::Page { members, total }) => {
                MemberRun {
                    members: self.members + members,
                    to_receive: total,
                    ..self
                }.can_go_on()
            },
            (MemberPhase::Fetch, MemberEvent::Failed { error }) => true,
            (MemberPhase::Insert, MemberEvent::Inserted) => true,
            (MemberPhase::Insert, MemberEvent::Failed { error }) => true,
            _ => false,
        }
    }

    open spec fn step(self, event: MemberEvent<Seq<Member>, Seq<char>>) -> MemberModel {
        match event {
            MemberEvent::Page { members, total } => {
                MemberRun {
                    members: self.members + members,
                    to_receive: total,
                    ..self
                }.counted()
            },
            MemberEvent::Inserted => MemberRun { phase: MemberPhase::Stored, ..self },
            MemberEvent::Failed { error } => MemberRun {
                fault: error,
                phase: MemberPhase::Failed,
                ..self
            },
        }
    }
}

/// Starts an update of the members, which will be stored under `time`.
pub fn run_update_member<'a>(config: &'a Config, time: DateTime) -> (run: MemberRun<
    &'a Config,
    Vec<Member>,
    String,
>)
    requires
        config.main.clan_ajax_max_sites >= 1 ==> rows_fit(
            1,
            config.main.clan_ajax_exptected_per_site as int,
        ),
    ensures
        run@ == MemberModel::fresh(*config, time),
        run@.wf(),
{
    let mut run = MemberRun {
        config,
        time,
        site: 0,
        members: Vec::new(),
        to_receive: FIRST_EXPECTATION,
        fault: String::new(),
        phase: MemberPhase::Fetch,
    };
    assert(run@ == MemberModel::blank(*config, time));
    run.count();
    run
}

impl<'a> MemberRun<&'a Config, Vec<Member>, String> {
    fn count(&mut self)
        requires
            old(self)@.can_go_on(),
        ensures
            final(self)@ == old(self)@.counted(),
            final(self)@.wf(),
    {
        if self.members.len() < self.to_receive {
            self.site = self.site + 1;
            if self.site > self.config.main.clan_ajax_max_sites {
                self.fault = SITE_OVER_LIMIT.to_owned();
                self.phase = MemberPhase::Failed;
            } else {
                self.phase = MemberPhase::Fetch;
            }
        } else {
            self.phase = MemberPhase::Insert;
        }
    }

    /// Says what the update wants done.
    pub fn action(&self) -> (action: MemberAction<&Vec<Member>, String>)
        requires
            self@.wf(),
        ensures
            action@ == self@.wants(),
    {
        match self.phase {
            MemberPhase::Fetch => MemberAction::Fetch {
                url: get_member_url(&self.site, self.config),
                headers: HeaderType::Ajax,
            },
            MemberPhase::Insert => MemberAction::Insert { members: &self.members, time: self.time },
            MemberPhase::Stored => MemberAction::Finish { error: None },
            MemberPhase::Failed => MemberAction::Finish { error: Some(self.fault.clone()) },
        }
    }

    /// Tells whether `event` can come of what the update wants. A page cannot, where the rows
    /// of the page after it would be numbers too large for a `u8`.
    pub fn can_resume(&self, event: &MemberEvent<Vec<Member>, String>) -> (can: bool)
        requires
            self@.wf(),
        ensures
            can == self@.accepts(event@),
    {
        match (self.phase, event) {
            (MemberPhase::Fetch, MemberEvent::Page { members, total }) => {
                let missing = if *total <= self.members.len() {
                    false
                } else {
                    members.len() < *total - self.members.len()
                };
                if !missing {
                    true
                } else if self.site == u8::MAX {
                    false
                } else if self.site >= self.config.main.clan_ajax_max_sites {
                    true
                } else {
                    let next: u8 = self.site + 1;
                    proof {
                        let p = self.config.main.clan_ajax_exptected_per_site as int;
                        assert(next * p >= p) by (nonlinear_arith)
                            requires
                                next >= 1,
                                p >= 0,
                        ;
                    }
                    next.checked_mul(self.config.main.clan_ajax_exptected_per_site).is_some()
                }
            },
            (MemberPhase::Fetch, MemberEvent::Failed { .. }) => true,
            (MemberPhase::Insert, MemberEvent::Inserted) => true,
            (MemberPhase::Insert, MemberEvent::Failed { .. }) => true,
            _ => false,
        }
    }

    /// Goes on after `event`.
    pub fn resume(&mut self, event: MemberEvent<Vec<Member>, String>)
        requires
            old(self)@.wf(),
            old(self)@.accepts(event@),
        ensures
            final(self)@ == old(self)@.step(event@),
            final(self)@.wf(),
    {
        match event {
            MemberEvent::Page { members, total } => {
                let mut page = members;
                self.to_receive = total;
                self.members.append(&mut page);
                self.count();
            },
            MemberEvent::Inserted => {
                self.phase = MemberPhase::Stored;
            },
            MemberEvent::Failed { error } => {
                self.fault = error;
                self.phase = MemberPhase::Failed;
            },
        }
    }
}

/// The members of all pages among `events`, in their order.
pub open spec fn gathered(events: Seq<MemberEvent<Seq<Member>, Seq<char>>>) -> Seq<Member>
    decreases events.len(),
{
    if events.len() == 0 {
        Seq::empty()
    } else {
        match events.last() {
            MemberEvent::Page { members, total } => gathered(events.drop_last()) + members,
            _ => gathered(events.drop_last()),
        }
    }
}

proof fn lemma_pages(
    config: Config,
    time: DateTime,
    events: Seq<MemberEvent<Seq<Member>, Seq<char>>>,
    i: int,
)
    requires
        MemberModel::blank(config, time).can_go_on(),
        MemberModel::fresh(config, time).runs(events),
        0 <= i <= events.len(),
    ensures
        ({
            let run = MemberModel::fresh(config, time).state_at(events, i);
            &&& run.wf()
            &&& run.config == config
            &&& run.time == time
            &&& run.members == gathered(events.take(i))
            &&& run.phase is Fetch ==> run.site == i + 1
            &&& run.phase is Insert ==> {
                &&& 1 <= i <= config.main.clan_ajax_max_sites
                &&& events[i - 1] matches MemberEvent::Page { members, total }
                &&& total == run.to_receive
            }
            &&& run.phase is Stored || run.phase is Failed ==> i
                <= config.main.clan_ajax_max_sites + 1
        }),
    decreases i,
{
    let start = MemberModel::fresh(config, time);
    crate::process::lemma_run_ends(start, events);
    assert(events.take(0) =~= Seq::empty());
    if i > 0 {
        lemma_pages(config, time, events, i - 1);
        crate::process::lemma_run_step(start, events, i - 1);
        assert(events.take(i).drop_last() =~= events.take(i - 1));
        assert(events.take(i).last() == events[i - 1]);
    }
}

/// The pages are asked for one after the other from the first, as data for scripts, none twice,
/// and none beyond the limit.
pub proof fn law_pages_are_fetched_in_order(
    config: Config,
    time: DateTime,
    events: Seq<MemberEvent<Seq<Member>, Seq<char>>>,
    i: int,
)
    requires
        MemberModel::blank(config, time).can_go_on(),
        MemberModel::fresh(config, time).runs(events),
        0 <= i <= events.len(),
    ensures
        MemberModel::fresh(config, time).state_at(events, i).wants() matches MemberAction::Fetch {
            url,
            headers,
        } ==> {
            &&& i + 1 <= config.main.clan_ajax_max_sites
            &&& headers is Ajax
            &&& url == member_url(i + 1, config)
        },
{
    lemma_pages(config, time, events, i);
}

/// What is stored is what the pages held, in their order, and it is no less than the last page
/// said there is.
pub proof fn law_all_members_are_stored(
    config: Config,
    time: DateTime,
    events: Seq<MemberEvent<Seq<Member>, Seq<char>>>,
)
    requires
        MemberModel::blank(config, time).can_go_on(),
        MemberModel::fresh(config, time).runs(events),
    ensures
        MemberModel::fresh(config, time).after(events).wants() matches MemberAction::Insert {
            members,
            time: stored_under,
        } ==> {
            &&& stored_under == time
            &&& members == gathered(events)
            &&& events.len() >= 1
            &&& events.last() matches MemberEvent::Page { members: page, total }
            &&& total <= members.len()
        },
{
    let start = MemberModel::fresh(config, time);
    let count = events.len() as int;
    lemma_pages(config, time, events, count);
    crate::process::lemma_run_ends(start, events);
    assert(events.take(count) =~= events);
}

/// The update comes to an end: there is no more than one event for each page that may be asked
/// for, and one for the storing.
pub proof fn law_crawl_ends(
    config: Config,
    time: DateTime,
    events: Seq<MemberEvent<Seq<Member>, Seq<char>>>,
)
    requires
        MemberModel::blank(config, time).can_go_on(),
        MemberModel::fresh(config, time).runs(events),
    ensures
        events.len() <= config.main.clan_ajax_max_sites + 1,
{
    lemma_pages(config, time, events, events.len() as int);
}

/// The number of members that there are after `events`, as far as the pages have told.
pub open spec fn expected(events: Seq<MemberEvent<Seq<Member>, Seq<char>>>) -> int {
    if events.len() == 0 {
        FIRST_EXPECTATION as int
    } else {
        events.last()->total as int
    }
}

/// The update succeeds only if the members were stored. It fails with the error of the page or
/// the storing that failed, or because members are still missing after the last page that may
/// be asked for.
pub proof fn law_outcome_is_justified(
    config: Config,
    time: DateTime,
    events: Seq<MemberEvent<Seq<Member>, Seq<char>>>,
)
    requires
        MemberModel::blank(config, time).can_go_on(),
        MemberModel::fresh(config, time).runs(events),
    ensures
        MemberModel::fresh(config, time).after(events).wants() matches MemberAction::Finish {
            error,
        } ==> match error {
            None => {
                &&& events.len() >= 2
                &&& MemberModel::fresh(config, time).state_at(events, events.len() - 1).wants()
                    is Insert
                &&& events.last() is Inserted
            },
            Some(text) => {
                ||| events.len() >= 1 && events.last() == (MemberEvent::<
                    Seq<Member>,
                    Seq<char>,
                >::Failed { error: text })
                ||| {
                    &&& text == SITE_OVER_LIMIT@
                    &&& events.len() == config.main.clan_ajax_max_sites
                    &&& events.len() >= 1 ==> events.last() is Page
                    &&& gathered(events).len() < expected(events)
                }
            },
        },
{
    let start = MemberModel::fresh(config, time);
    let count = events.len() as int;
    lemma_pages(config, time, events, count);
    crate::process::lemma_run_ends(start, events);
    assert(events.take(count) =~= events);
    if count > 0 {
        lemma_pages(config, time, events, count - 1);
        crate::process::lemma_run_step(start, events, count - 1);
    }
}

/// Whether `events` are pages only.
pub open spec fn all_pages(events: Seq<MemberEvent<Seq<Member>, Seq<char>>>) -> bool {
    forall|k: int| 0 <= k < events.len() ==> #[trigger] events[k] is Page
}

/// Whether the pages `events` hold as many members as the last of them said there are.
pub open spec fn enough(events: Seq<MemberEvent<Seq<Member>, Seq<char>>>) -> bool {
    gathered(events).len() >= expected(events)
}

proof fn lemma_page_by_page(
    config: Config,
    time: DateTime,
    events: Seq<MemberEvent<Seq<Member>, Seq<char>>>,
    i: int,
)
    requires
        MemberModel::blank(config, time).can_go_on(),
        MemberModel::fresh(config, time).runs(events),
        0 <= i <= events.len(),
    ensures
        ({
            let run = MemberModel::fresh(config, time).state_at(events, i);
            &&& run.phase is Fetch || run.phase is Insert ==> all_pages(events.take(i))
            &&& all_pages(events.take(i)) ==> {
                &&& run.to_receive == expected(events.take(i))
                &&& i <= config.main.clan_ajax_max_sites
                &&& if enough(events.take(i)) {
                    run.phase is Insert
                } else if i < config.main.clan_ajax_max_sites {
                    run.phase is Fetch && run.site == i + 1
                } else {
                    run.phase is Failed && run.fault == SITE_OVER_LIMIT@
                }
            }
        }),
    decreases i,
{
    let start = MemberModel::fresh(config, time);
    let pages = events.take(i);
    crate::process::lemma_run_ends(start, events);
    lemma_pages(config, time, events, i);
    if i > 0 {
        let front = events.take(i - 1);
        lemma_page_by_page(config, time, events, i - 1);
        lemma_pages(config, time, events, i - 1);
        crate::process::lemma_run_step(start, events, i - 1);
        assert(pages.drop_last() =~= front);
        assert(pages.last() == events[i - 1]);
        assert(all_pages(pages) <==> all_pages(front) && events[i - 1] is Page) by {
            if all_pages(pages) {
                assert forall|k: int| 0 <= k < front.len() implies #[trigger] front[k] is Page by {
                    assert(front[k] == pages[k]);
                }
                assert(pages[i - 1] is Page);
            }
            if all_pages(front) && events[i - 1] is Page {
                assert forall|k: int| 0 <= k < pages.len() implies #[trigger] pages[k] is Page by {
                    if k < i - 1 {
                        assert(pages[k] == front[k]);
                    }
                }
            }
        }
    }
}

/// The pages alone decide what comes next: the members are stored as soon as there are enough,
/// the next page is asked for as long as there are not, and the update fails if there are still
/// not enough after the last page that may be asked for.
pub proof fn law_pages_decide(
    config: Config,
    time: DateTime,
    events: Seq<MemberEvent<Seq<Member>, Seq<char>>>,
)
    requires
        MemberModel::blank(config, time).can_go_on(),
        MemberModel::fresh(config, time).runs(events),
        all_pages(events),
    ensures
        events.len() <= config.main.clan_ajax_max_sites,
        MemberModel::fresh(config, time).after(events).wants() == if enough(events) {
            MemberAction::Insert { members: gathered(events), time }
        } else if events.len() < config.main.clan_ajax_max_sites {
            MemberAction::Fetch {
                url: member_url(events.len() as int + 1, config),
                headers: HeaderType::Ajax,
            }
        } else {
            MemberAction::Finish { error: Some(SITE_OVER_LIMIT@) }
        },
{
    let start = MemberModel::fresh(config, time);
    let count = events.len() as int;
    lemma_page_by_page(config, time, events, count);
    lemma_pages(config, time, events, count);
    crate::process::lemma_run_ends(start, events);
    assert(events.take(count) =~= events);
}

/// No more pages are fetched than are needed: after any smaller number of them there were not
/// enough members.
pub proof fn law_no_page_too_many(
    config: Config,
    time: DateTime,
    events: Seq<MemberEvent<Seq<Member>, Seq<char>>>,
    k: int,
)
    requires
        MemberModel::blank(config, time).can_go_on(),
        MemberModel::fresh(config, time).runs(events),
        0 <= k < events.len(),
        events[k] is Page,
    ensures
        all_pages(events.take(k)),
        !enough(events.take(k)),
{
    let start = MemberModel::fresh(config, time);
    lemma_page_by_page(config, time, events, k);
    crate::process::lemma_run_step(start, events, k);
}

/// The update fails for want of pages if and only if all pages that may be asked for were
/// fetched and none of them made the members enough.
pub proof fn law_limit_is_reached_without_enough(
    config: Config,
    time: DateTime,
    events: Seq<MemberEvent<Seq<Member>, Seq<char>>>,
)
    requires
        MemberModel::blank(config, time).can_go_on(),
        MemberModel::fresh(config, time).runs(events),
    ensures
        ({
            let ended = MemberModel::fresh(config, time).after(events).wants() is Finish;
            let by_pages = all_pages(events);
            ended && by_pages <==> {
                &&& by_pages
                &&& events.len() == config.main.clan_ajax_max_sites
                &&& forall|k: int| 0 <= k <= events.len() ==> !enough(#[trigger] events.take(k))
            }
        }),
        MemberModel::fresh(config, time).after(events).wants() is Finish && all_pages(events)
            ==> MemberModel::fresh(config, time).after(events).wants() == (MemberAction::<
            Seq<Member>,
            Seq<char>,
        >::Finish { error: Some(SITE_OVER_LIMIT@) }),
{
    let count = events.len() as int;
    assert(events.take(count) =~= events);
    if all_pages(events) {
        law_pages_decide(config, time, events);
        assert forall|k: int| 0 <= k < count implies !enough(#[trigger] events.take(k)) by {
            law_no_page_too_many(config, time, events, k);
        }
    }
}

/// The address of a page is the template with the number of the page, of its first row and of
/// its last row in place of the three keys. The rows of all pages before it come before.
pub proof fn law_address_names_page_and_rows(site: int, config: Config)
    requires
        site >= 1,
        config.main.clan_ajax_exptected_per_site >= 1,
    ensures
        ({
            let rows = config.main.clan_ajax_exptected_per_site as int;
            member_url(site, config) == crate::text::replaced(
                crate::text::replaced(
                    crate::text::replaced(
                        config.main.clan_ajax_url@,
                        config.main.clan_ajax_site_key@,
                        crate::text::decimal_text(site as nat),
                    ),
                    config.main.clan_ajax_start_row_key@,
                    crate::text::decimal_text(((site - 1) * rows + 1) as nat),
                ),
                config.main.clan_ajax_end_row_key@,
                crate::text::decimal_text((site * rows) as nat),
            )
        }),
{
    let rows = config.main.clan_ajax_exptected_per_site as int;
    assert((site - 1) * rows == site * rows - rows) by (nonlinear_arith);
}

/// A page can be asked for exactly if it has rows and the number of its last row is at most 255.
pub proof fn law_rows_that_fit(site: int, per_site: int)
    requires
        site >= 1,
    ensures
        rows_fit(site, per_site) <==> per_site >= 1 && site * per_site <= 255,
{
    assert(per_site >= 1 ==> site * per_site >= per_site) by (nonlinear_arith)
        requires
            site >= 1,
    ;
}

/// What the update wants is what `action` hands out, part by part.
pub proof fn law_member_action_is_handed_out_whole(action: MemberAction<&Vec<Member>, String>)
    ensures
        action matches MemberAction::Fetch { url, headers } ==> action@ == (MemberAction::<
            Seq<Member>,
            Seq<char>,
        >::Fetch { url: url@, headers }),
        action matches MemberAction::Insert { members, time } ==> action@ == (MemberAction::<
            Seq<Member>,
            Seq<char>,
        >::Insert { members: members@, time }),
        action matches MemberAction::Finish { error: None } ==> action@ == (MemberAction::<
            Seq<Member>,
            Seq<char>,
        >::Finish { error: None }),
        action matches MemberAction::Finish { error: Some(text) } ==> action@ == (MemberAction::<
            Seq<Member>,
            Seq<char>,
        >::Finish { error: Some(text@) }),
{
}

/// What is told to the update is what `resume` takes, part by part.
pub proof fn law_member_event_is_taken_whole(event: MemberEvent<Vec<Member>, String>)
    ensures
        event matches MemberEvent::Page { members, total } ==> event@ == (MemberEvent::<
            Seq<Member>,
            Seq<char>,
        >::Page { members: members@, total }),
        event is Inserted ==> event@ is Inserted,
        event matches MemberEvent::Failed { error } ==> event@ == (MemberEvent::<
            Seq<Member>,
            Seq<char>,
        >::Failed { error: error@ }),
{
}

/// What the update does, event by event. After each page the members so far are held against
/// the number that the page told. If they are enough they are stored, all of them and in their
/// order. If not, the next page is asked for, up to the last one that may be. The update ends
/// without an error once the members are stored, and the first failure ends it with its error.
pub proof fn law_update_goes_page_by_page(
    config: Config,
    time: DateTime,
    events: Seq<MemberEvent<Seq<Member>, Seq<char>>>,
    i: int,
)
    requires
        config.main.clan_ajax_max_sites >= 1 ==> config.main.clan_ajax_exptected_per_site >= 1,
        MemberModel::fresh(config, time).runs(events),
        0 <= i <= events.len(),
    ensures
        ({
            let wanted = MemberModel::fresh(config, time).state_at(events, i).wants();
            let members = gathered(events.take(i));
            if i > 0 && events[i - 1] is Inserted {
                wanted == (MemberAction::<Seq<Member>, Seq<char>>::Finish { error: None })
            } else if i > 0 && events[i - 1] is Failed {
                wanted == (MemberAction::<Seq<Member>, Seq<char>>::Finish {
                    error: Some(events[i - 1]->error),
                })
            } else if i > 0 && members.len() >= events[i - 1]->total {
                wanted == (MemberAction::<Seq<Member>, Seq<char>>::Insert { members, time })
            } else if i < config.main.clan_ajax_max_sites {
                wanted == (MemberAction::<Seq<Member>, Seq<char>>::Fetch {
                    url: member_url(i + 1, config),
                    headers: HeaderType::Ajax,
                })
            } else {
                wanted == (MemberAction::<Seq<Member>, Seq<char>>::Finish {
                    error: Some("Site over limit."@),
                })
            }
        }),
{
    let start = MemberModel::fresh(config, time);
    law_rows_that_fit(1, config.main.clan_ajax_exptected_per_site as int);
    crate::process::lemma_run_ends(start, events);
    lemma_pages(config, time, events, i);
    lemma_page_by_page(config, time, events, i);
    if i > 0 {
        lemma_pages(config, time, events, i - 1);
        lemma_page_by_page(config, time, events, i - 1);
        crate::process::lemma_run_step(start, events, i - 1);
        assert(events.take(i).last() == events[i - 1]);
        if events[i - 1] is Page {
            assert forall|k: int| 0 <= k < i implies #[trigger] events.take(i)[k] is Page by {
                if k < i - 1 {
                    assert(events.take(i - 1)[k] is Page);
                }
            }
        }
    }
}

/// The update takes whatever can come of what it wants, and nothing else. Only a page after
/// which another one would be needed whose number or rows do not fit into a `u8` is left out.
pub proof fn law_update_takes_every_answer(
    config: Config,
    time: DateTime,
    events: Seq<MemberEvent<Seq<Member>, Seq<char>>>,
    event: MemberEvent<Seq<Member>, Seq<char>>,
)
    requires
        config.main.clan_ajax_max_sites >= 1 ==> config.main.clan_ajax_exptected_per_site >= 1,
        MemberModel::fresh(config, time).runs(events),
    ensures
        ({
            let run = MemberModel::fresh(config, time).after(events);
            let rows = config.main.clan_ajax_exptected_per_site as int;
            let site = events.len() as int + 1;
            run.accepts(event) <==> match event {
                MemberEvent::Page { members, total } => {
                    &&& run.wants() is Fetch
                    &&& gathered(events).len() + members.len() < total ==> {
                        &&& site + 1 <= 255
                        &&& site + 1 <= config.main.clan_ajax_max_sites ==> (site + 1) * rows
                            <= 255
                    }
                },
                MemberEvent::Inserted => run.wants() is Insert,
                MemberEvent::Failed { error } => run.wants() is Fetch || run.wants() is Insert,
            }
        }),
{
    let start = MemberModel::fresh(config, time);
    let count = events.len() as int;
    let rows = config.main.clan_ajax_exptected_per_site as int;
    law_rows_that_fit(1, rows);
    law_rows_that_fit(count + 2, rows);
    crate::process::lemma_run_ends(start, events);
    lemma_pages(config, time, events, count);
    assert(events.take(count) =~= events);
}

} // verus!
