//! Arguments of the command line.

use crate::calendar::{as_written, parse_day, Date};
use crate::process::{Process, Runs};
use vstd::prelude::*;

verus! {

/// The error for a path argument, if it is no existing file. `shown` is the path as it is
/// shown to the user.
pub open spec fn path_error(shown: Seq<char>, is_dir: bool, exists: bool) -> Option<Seq<char>> {
    if is_dir {
        Some("Specified file is a directory "@ + shown)
    } else if !exists {
        Some("Specified file not existing "@ + shown)
    } else {
        None
    }
}

/// Where the search for a path argument stands.
#[derive(Clone, Copy, Debug, PartialEq, Eq, Structural)]
pub enum PathPhase {
    /// It is to be found out whether the parent of the argument is a directory.
    Parent,
    /// The argument is to be put behind the current directory.
    Join,
    /// It is to be found out what there is at the path.
    Inspect,
    /// The path is that of an existing file.
    Found,
    /// There is no such file.
    Failed,
}

/// The search for a path argument under way. Its error is a `String`, or a sequence of
/// characters in contracts.
#[derive(Debug)]
pub struct PathRun<P, T> {
    /// The argument, and later the argument on its base.
    pub path: P,
    /// Why there is no such file.
    pub fault: T,
    pub phase: PathPhase,
}

/// What the search for a path argument wants done.
#[derive(Debug)]
pub enum PathAction<P, T> {
    /// Tell whether the parent of `path` is a directory.
    AskParent { path: P },
    /// Put `path` behind the current directory.
    Join { path: P },
    /// Tell what there is at `path`.
    Inspect { path: P },
    /// End with the path of an existing file, or with an error.
    Finish { found: Result<P, T> },
}

/// What comes of an action of the search for a path argument.
#[derive(Debug)]
pub enum PathEvent<P, T> {
    /// Whether the parent is a directory, or that there is no parent.
    Parent { parent_is_dir: Option<bool> },
    /// The path behind the current directory.
    Joined { path: P },
    /// What there is at the path, and the path as it is shown to the user.
    Inspected { shown: T, is_dir: bool, exists: bool },
}

impl<P> View for PathRun<P, String> {
    type V = PathRun<P, Seq<char>>;

    open spec fn view(&self) -> PathRun<P, Seq<char>> {
        PathRun { path: self.path, fault: self.fault@, phase: self.phase }
    }
}

impl<'b, P> View for PathAction<&'b P, String> {
    type V = PathAction<P, Seq<char>>;

    open spec fn view(&self) -> PathAction<P, Seq<char>> {
        match *self {
            PathAction::AskParent { path } => PathAction::AskParent { path: *path },
            PathAction::Join { path } => PathAction::Join { path: *path },
            PathAction::Inspect { path } => PathAction::Inspect { path: *path },
            PathAction::Finish { found: Ok(path) } => PathAction::Finish { found: Ok(*path) },
            PathAction::Finish { found: Err(text) } => PathAction::Finish { found: Err(text@) },
        }
    }
}

impl<P> View for PathEvent<P, String> {
    type V = PathEvent<P, Seq<char>>;

    open spec fn view(&self) -> PathEvent<P, Seq<char>> {
        match *self {
            PathEvent::Parent { parent_is_dir } => PathEvent::Parent { parent_is_dir },
            PathEvent::Joined { path } => PathEvent::Joined { path },
            PathEvent::Inspected { shown, is_dir, exists } => PathEvent::Inspected {
                shown: shown@,
                is_dir,
                exists,
            },
        }
    }
}

impl<P> PathRun<P, Seq<char>> {
    /// The state at the start of the search for the argument `given`.
    pub open spec fn fresh(given: P) -> Self {
        PathRun { path: given, fault: Seq::empty(), phase: PathPhase::Parent }
    }
}

impl<P> Process for PathRun<P, Seq<char>> {
    type Event = PathEvent<P, Seq<char>>;

    type Action = PathAction<P, Seq<char>>;

    open spec fn wants(self) -> PathAction<P, Seq<char>> {
        match self.phase {
            PathPhase::Parent => PathAction::AskParent { path: self.path },
            PathPhase::Join => PathAction::Join { path: self.path },
            PathPhase::Inspect => PathAction::Inspect { path: self.path },
            PathPhase::Found => PathAction::Finish { found: Ok(self.path) },
            PathPhase::Failed => PathAction::Finish { found: Err(self.fault) },
        }
    }

    open spec fn accepts(self, event: PathEvent<P, Seq<char>>) -> bool {
        match self.wants() {
            PathAction::AskParent { .. } => event is Parent,
            PathAction::Join { .. } => event is Joined,
            PathAction::Inspect { .. } => event is Inspected,
            PathAction::Finish { .. } => false,
        }
    }

    open spec fn step(self, event: PathEvent<P, Seq<char>>) -> Self {
        match event {
            PathEvent::Parent { parent_is_dir } => PathRun {
                phase: if parent_is_dir == Some(true) {
                    PathPhase::Inspect
                } else {
                    PathPhase::Join
                },
                ..self
            },
            PathEvent::Joined { path } => PathRun { path, phase: PathPhase::Inspect, ..self },
            PathEvent::Inspected { shown, is_dir, exists } => match path_error(
                shown,
                is_dir,
                exists,
            ) {
                Some(text) => PathRun { fault: text, phase: PathPhase::Failed, ..self },
                None => PathRun { phase: PathPhase::Found, ..self },
            },
        }
    }
}

/// Get path for input if possible
///
/// Starts the search for the path argument `given`. It stands for itself if its parent is a
/// directory, and is looked for in the current directory if not.
pub fn get_path_for_existing_file<P>(given: P) -> (run: PathRun<P, String>)
    ensures
        run@ == PathRun::<P, Seq<char>>::fresh(given),
{
    PathRun { path: given, fault: String::new(), phase: PathPhase::Parent }
}

impl<P> PathRun<P, String> {
    /// Says what the search wants done.
    pub fn action(&self) -> (action: PathAction<&P, String>)
        ensures
            action@ == self@.wants(),
    {
        match self.phase {
            PathPhase::Parent => PathAction::AskParent { path: &self.path },
            PathPhase::Join => PathAction::Join { path: &self.path },
            PathPhase::Inspect => PathAction::Inspect { path: &self.path },
            PathPhase::Found => PathAction::Finish { found: Ok(&self.path) },
            PathPhase::Failed => PathAction::Finish { found: Err(self.fault.clone()) },
        }
    }

    /// Goes on after `event`.
    pub fn resume(&mut self, event: PathEvent<P, String>)
        requires
            old(self)@.accepts(event@),
        ensures
            final(self)@ == old(self)@.step(event@),
    {
        match event {
            PathEvent::Parent { parent_is_dir } => {
                self.phase = match parent_is_dir {
                    Some(true) => PathPhase::Inspect,
                    _ => PathPhase::Join,
                };
            },
            PathEvent::Joined { path } => {
                self.path = path;
                self.phase = PathPhase::Inspect;
            },
            PathEvent::Inspected { shown, is_dir, exists } => {
                if is_dir {
                    self.fault = "Specified file is a directory ".to_owned();
                    self.fault.append(shown.as_str());
                    self.phase = PathPhase::Failed;
                } else if !exists {
                    self.fault = "Specified file not existing ".to_owned();
                    self.fault.append(shown.as_str());
                    self.phase = PathPhase::Failed;
                } else {
                    self.phase = PathPhase::Found;
                }
            },
        }
    }
}

/// What there is on the disk while a search goes on, and where the current directory is.
#[verifier::reject_recursive_types(P)]
pub struct Disk<P> {
    /// Whether the parent of a path is a directory, or that it has no parent.
    pub parent_is_dir: spec_fn(P) -> Option<bool>,
    /// A path behind the current directory.
    pub in_current_dir: spec_fn(P) -> P,
    /// A path as it is shown to the user.
    pub shown: spec_fn(P) -> Seq<char>,
    /// Whether there is a directory at a path.
    pub is_dir: spec_fn(P) -> bool,
    /// Whether there is anything at a path.
    pub exists: spec_fn(P) -> bool,
}

impl<P> Disk<P> {
    /// The path that the argument `given` stands for.
    pub open spec fn based(self, given: P) -> P {
        if (self.parent_is_dir)(given) == Some(true) {
            given
        } else {
            (self.in_current_dir)(given)
        }
    }

    /// What the search for the argument `given` has to find.
    pub open spec fn resolved(self, given: P) -> Result<P, Seq<char>> {
        let path = self.based(given);
        match path_error((self.shown)(path), (self.is_dir)(path), (self.exists)(path)) {
            Some(text) => Err(text),
            None => Ok(path),
        }
    }

    /// Whether `event` tells the truth on what `action` asks for.
    pub open spec fn confirms(
        self,
        action: PathAction<P, Seq<char>>,
        event: PathEvent<P, Seq<char>>,
    ) -> bool {
        match (action, event) {
            (PathAction::AskParent { path }, PathEvent::Parent { parent_is_dir }) => {
                parent_is_dir == (self.parent_is_dir)(path)
            },
            (PathAction::Join { path }, PathEvent::Joined { path: joined }) => {
                joined == (self.in_current_dir)(path)
            },
            (PathAction::Inspect { path }, PathEvent::Inspected { shown, is_dir, exists }) => {
                &&& shown == (self.shown)(path)
                &&& is_dir == (self.is_dir)(path)
                &&& exists == (self.exists)(path)
            },
            _ => false,
        }
    }

    /// Whether all of `events` tell the truth on what the search for `given` asks for.
    pub open spec fn confirms_all(self, given: P, events: Seq<PathEvent<P, Seq<char>>>) -> bool {
        forall|k: int|
            0 <= k < events.len() ==> self.confirms(
                PathRun::<P, Seq<char>>::fresh(given).state_at(events, k).wants(),
                #[trigger] events[k],
            )
    }
}

proof fn lemma_path_phases<P>(
    disk: Disk<P>,
    given: P,
    events: Seq<PathEvent<P, Seq<char>>>,
    i: int,
)
    requires
        PathRun::<P, Seq<char>>::fresh(given).runs(events),
        disk.confirms_all(given, events),
        0 <= i <= events.len(),
    ensures
        ({
            let run = PathRun::<P, Seq<char>>::fresh(given).state_at(events, i);
            match run.phase {
                PathPhase::Parent => i == 0 && run.path == given,
                PathPhase::Join => {
                    &&& i == 1 && run.path == given
                    &&& (disk.parent_is_dir)(given) != Some(true)
                },
                PathPhase::Inspect => i <= 2 && run.path == disk.based(given),
                PathPhase::Found => i <= 3 && disk.resolved(given) == Ok::<P, Seq<char>>(run.path),
                PathPhase::Failed => {
                    i <= 3 && disk.resolved(given) == Err::<P, Seq<char>>(run.fault)
                },
            }
        }),
    decreases i,
{
    let start = PathRun::<P, Seq<char>>::fresh(given);
    crate::process::lemma_run_ends(start, events);
    if i > 0 {
        lemma_path_phases(disk, given, events, i - 1);
        crate::process::lemma_run_step(start, events, i - 1);
        assert(disk.confirms(start.state_at(events, i - 1).wants(), events[i - 1]));
    }
}

/// The path that is found is the argument itself if its parent is a directory, and the argument
/// in the current directory if not. It is found exactly if it is that of an existing file, after
/// three events at most.
pub proof fn law_path_is_resolved<P>(
    disk: Disk<P>,
    given: P,
    events: Seq<PathEvent<P, Seq<char>>>,
)
    requires
        PathRun::<P, Seq<char>>::fresh(given).runs(events),
        disk.confirms_all(given, events),
    ensures
        events.len() <= 3,
        PathRun::<P, Seq<char>>::fresh(given).after(events).wants() matches PathAction::Finish {
            found,
        } ==> found == disk.resolved(given),
{
    let start = PathRun::<P, Seq<char>>::fresh(given);
    crate::process::lemma_run_ends(start, events);
    lemma_path_phases(disk, given, events, events.len() as int);
}

/// A path that was found resolves to itself as long as nothing changes on the disk. Of a path
/// that was found in the current directory this takes that its parent is a directory, as that of
/// an existing file is, or that it stays as it is if it is put behind the current directory once
/// more, as an absolute path does.
pub proof fn law_found_path_resolves_to_itself<P>(
    disk: Disk<P>,
    given: P,
    events: Seq<PathEvent<P, Seq<char>>>,
    path: P,
    again: Seq<PathEvent<P, Seq<char>>>,
)
    requires
        PathRun::<P, Seq<char>>::fresh(given).runs(events),
        disk.confirms_all(given, events),
        PathRun::<P, Seq<char>>::fresh(given).after(events).wants() == (PathAction::<
            P,
            Seq<char>,
        >::Finish { found: Ok(path) }),
        (disk.parent_is_dir)(given) == Some(true) || (disk.parent_is_dir)(path) == Some(true) || (
        disk.in_current_dir)(path) == path,
        PathRun::<P, Seq<char>>::fresh(path).runs(again),
        disk.confirms_all(path, again),
    ensures
        disk.resolved(path) == Ok::<P, Seq<char>>(path),
        PathRun::<P, Seq<char>>::fresh(path).after(again).wants() matches PathAction::Finish {
            found,
        } ==> found == Ok::<P, Seq<char>>(path),
{
    law_path_is_resolved(disk, given, events);
    law_path_is_resolved(disk, path, again);
}

/// validate path input
///
/// `found` is what the search that `get_path_for_existing_file` starts ends with.
pub fn validator_path<P>(found: Result<P, String>) -> (r: Result<(), String>)
    ensures
        match found {
            Ok(_) => r is Ok,
            Err(e) => r == Err::<(), String>(e),
        },
{
    match found {
        Ok(_) => Ok(()),
        Err(e) => Err(e),
    }
}

/// The error for a date argument that was not read as a day, if it was not.
pub open spec fn date_error(parsed: Result<Date, Seq<char>>) -> Option<Seq<char>> {
    match parsed {
        Ok(_) => None,
        Err(text) => Some("Invalid date input: "@ + text),
    }
}

/// Whether `r` holds exactly the error `error`, or success if there is none.
pub open spec fn reports(r: Result<(), String>, error: Option<Seq<char>>) -> bool {
    match error {
        Some(text) => r matches Err(e) && e@ == text,
        None => r is Ok,
    }
}

/// Judges a date argument by what has been read from it.
pub fn judge_date(parsed: Result<Date, String>) -> (r: Result<(), String>)
    ensures
        reports(r, date_error(crate::text::text_result(parsed))),
        parsed is Ok ==> r is Ok,
        parsed matches Err(why) ==> (r matches Err(e) && e@ == "Invalid date input: "@ + why@),
{
    match parsed {
        Ok(_) => Ok(()),
        Err(e) => {
            let mut text = "Invalid date input: ".to_owned();
            text.append(e.as_str());
            Err(text)
        },
    }
}

/// verify date input of YYYY-MM-DD
///
/// The input is accepted exactly if it is a day of the calendar in that form.
pub fn validator_date(input: String) -> (r: Result<(), String>)
    ensures
        reports(
            r,
            date_error(
                crate::calendar::written_reading(
                    input@,
                    crate::calendar::date_read(input@, crate::calendar::DATE_FORMAT_DAY@),
                ),
            ),
        ),
        r is Ok <==> crate::calendar::names_day(input@),
        forall|d: Date|
            0 <= d.year <= 9999 && d.valid() && input@ == #[trigger] crate::calendar::day_text(d)
                ==> r is Ok,
        r is Ok ==> input@.len() == 10 && input@[4] == '-' && input@[7] == '-',
        crate::calendar::date_read(input@, "%Y-%m-%d"@) matches Err(why) ==> (r matches Err(e)
            && e@ == "Invalid date input: "@ + why),
        crate::calendar::date_read(input@, "%Y-%m-%d"@) is Ok && r is Err ==> r->Err_0@
            == "Invalid date input: input is not of the form YYYY-MM-DD"@,
        !crate::calendar::is_day_text(input@) ==> (r matches Err(e)
            && "Invalid date input: "@.is_prefix_of(e@)),
        forall|d: Date|
            crate::calendar::fits_day_text(d) && input@ == #[trigger] crate::calendar::day_text(d)
                ==> reports(
                r,
                date_error(crate::calendar::day_reading(d)),
            ),
{
    let read = parse_day(input.as_str());
    proof {
        reveal_strlit("Invalid date input: ");
        reveal_strlit("input is not of the form YYYY-MM-DD");
        reveal_strlit("Invalid date input: input is not of the form YYYY-MM-DD");
        assert("Invalid date input: "@ + "input is not of the form YYYY-MM-DD"@
            =~= "Invalid date input: input is not of the form YYYY-MM-DD"@);
    }
    let ghost parsed = read;
    let written = as_written(&input, read);
    proof {
        if written is Ok {
            crate::calendar::law_day_text_reads_back(parsed->Ok_0);
        }
    }
    judge_date(written)
}

/// The search takes whatever can come of what it wants, and nothing else.
pub proof fn law_search_takes_every_answer<P>(
    run: PathRun<P, Seq<char>>,
    event: PathEvent<P, Seq<char>>,
)
    ensures
        run.accepts(event) <==> match event {
            PathEvent::Parent { parent_is_dir } => run.wants() is AskParent,
            PathEvent::Joined { path } => run.wants() is Join,
            PathEvent::Inspected { shown, is_dir, exists } => run.wants() is Inspect,
        },
{
}

/// What the search wants is what `action` hands out, part by part.
pub proof fn law_path_action_is_handed_out_whole<P>(action: PathAction<&P, String>)
    ensures
        action matches PathAction::AskParent { path } ==> action@ == (PathAction::<
            P,
            Seq<char>,
        >::AskParent { path: *path }),
        action matches PathAction::Join { path } ==> action@ == (PathAction::<
            P,
            Seq<char>,
        >::Join { path: *path }),
        action matches PathAction::Inspect { path } ==> action@ == (PathAction::<
            P,
            Seq<char>,
        >::Inspect { path: *path }),
        action matches PathAction::Finish { found: Ok(path) } ==> action@ == (PathAction::<
            P,
            Seq<char>,
        >::Finish { found: Ok(*path) }),
        action matches PathAction::Finish { found: Err(text) } ==> action@ == (PathAction::<
            P,
            Seq<char>,
        >::Finish { found: Err(text@) }),
{
}

/// What is told to the search is what `resume` takes, part by part.
pub proof fn law_path_event_is_taken_whole<P>(event: PathEvent<P, String>)
    ensures
        event matches PathEvent::Parent { parent_is_dir } ==> event@ == (PathEvent::<
            P,
            Seq<char>,
        >::Parent { parent_is_dir }),
        event matches PathEvent::Joined { path } ==> event@ == (PathEvent::<
            P,
            Seq<char>,
        >::Joined { path }),
        event matches PathEvent::Inspected { shown, is_dir, exists } ==> event@ == (PathEvent::<
            P,
            Seq<char>,
        >::Inspected { shown: shown@, is_dir, exists }),
{
}

/// What the search does, event by event. The argument itself is inspected if its parent is a
/// directory, and the argument in the current directory if not. What was inspected is found if
/// it exists and is no directory; a directory and a missing file each have their error.
pub proof fn law_path_search_goes_step_by_step<P>(
    given: P,
    events: Seq<PathEvent<P, Seq<char>>>,
    i: int,
)
    requires
        PathRun::<P, Seq<char>>::fresh(given).runs(events),
        0 <= i <= events.len(),
    ensures
        ({
            let wanted = PathRun::<P, Seq<char>>::fresh(given).state_at(events, i).wants();
            if i == 0 {
                wanted == (PathAction::<P, Seq<char>>::AskParent { path: given })
            } else {
                let as_given = events[0] == (PathEvent::<P, Seq<char>>::Parent {
                    parent_is_dir: Some(true),
                });
                let path = if i < 2 || as_given {
                    given
                } else {
                    events[1]->path
                };
                match events[i - 1] {
                    PathEvent::Parent { parent_is_dir } => {
                        &&& i == 1
                        &&& wanted == if as_given {
                            PathAction::<P, Seq<char>>::Inspect { path: given }
                        } else {
                            PathAction::Join { path: given }
                        }
                    },
                    PathEvent::Joined { path: joined } => {
                        &&& i == 2 && !as_given
                        &&& wanted == (PathAction::<P, Seq<char>>::Inspect { path: joined })
                    },
                    PathEvent::Inspected { shown, is_dir, exists } => {
                        &&& i == if as_given {
                            2int
                        } else {
                            3int
                        }
                        &&& wanted == (PathAction::<P, Seq<char>>::Finish {
                            found: if is_dir {
                                Err("Specified file is a directory "@ + shown)
                            } else if !exists {
                                Err("Specified file not existing "@ + shown)
                            } else {
                                Ok(path)
                            },
                        })
                    },
                }
            }
        }),
    decreases i,
{
    let start = PathRun::<P, Seq<char>>::fresh(given);
    crate::process::lemma_run_ends(start, events);
    if i > 0 {
        law_path_search_goes_step_by_step(given, events, i - 1);
        crate::process::lemma_run_step(start, events, i - 1);
        if i > 1 {
            law_path_search_goes_step_by_step(given, events, i - 2);
            crate::process::lemma_run_step(start, events, i - 2);
        }
        if i > 2 {
            law_path_search_goes_step_by_step(given, events, i - 3);
            crate::process::lemma_run_step(start, events, i - 3);
        }
    }
}

} // verus!
