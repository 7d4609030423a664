//! One install unit: a repository URL and the directory it is cloned under,
//! with the decisions of its clone attempts as a state machine.
use vstd::prelude::*;

use crate::target::{opt_chars, resolve_target_name, target_name};

verus! {

/// A repository to clone, and the directory whose subdirectory receives it.
#[derive(Clone, Debug)]
pub struct NeovimPlugin {
    git_url: String,
    install_path: String,
}

/// The model of a unit: its URL and its destination root.
pub ghost struct PluginModel {
    pub url: Seq<char>,
    pub root: Seq<char>,
}

impl View for NeovimPlugin {
    type V = PluginModel;

    closed spec fn view(&self) -> PluginModel {
        PluginModel { url: self.git_url@, root: self.install_path@ }
    }
}

/// Where a unit stands in its lifecycle.
#[derive(PartialEq, Eq, Structural, Clone, Copy, Debug)]
pub enum UnitState {
    /// Waiting for (another) attempt.
    Pending,
    /// The destination is being cleared before the clone.
    Removing,
    /// The clone is running.
    Cloning,
    /// The last clone failed; the unit waits for the next pass.
    FailedRetryable,
    /// The clone succeeded.
    Succeeded,
    /// The URL gave no name; nothing was cloned.
    Skipped,
}

/// How the external clone command ended.
#[derive(Debug)]
pub enum CloneOutcome {
    /// It ran and reported success.
    Success,
    /// It ran and reported failure, with its error stream.
    ExitFailure(String),
    /// It could not be started, with the launch error.
    LaunchFailure(String),
}

/// What happened to a unit since its last step.
#[derive(Debug)]
pub enum Event {
    /// The scheduler gives the unit a turn.
    Poll,
    /// The removal of the destination was attempted (whatever its result).
    DirRemoved,
    /// The clone command ended.
    CloneFinished(CloneOutcome),
}

/// What the surroundings are to do for a unit.
#[derive(Debug)]
pub enum Action {
    /// Nothing.
    Idle,
    /// Report that the URL gives no name; the unit is finished.
    Skip,
    /// Remove the directory, best effort, then send `DirRemoved`.
    RemoveDir(String),
    /// Run `program` with `args`, then send `CloneFinished`.
    RunClone { program: String, args: Vec<String> },
    /// Report that the clone succeeded; the unit is finished.
    Done,
    /// Report the failure text; the unit will be tried again.
    Retry(String),
}

/// The model of an action.
pub ghost enum ActionModel {
    Idle,
    Skip,
    RemoveDir(Seq<char>),
    RunClone(Seq<char>, Seq<Seq<char>>),
    Done,
    Retry(Seq<char>),
}

/// The characters of each string.
pub open spec fn strings(v: Seq<String>) -> Seq<Seq<char>> {
    v.map_values(|s: String| s@)
}

impl View for Action {
    type V = ActionModel;

    open spec fn view(&self) -> ActionModel {
        match self {
            Action::Idle => ActionModel::Idle,
            Action::Skip => ActionModel::Skip,
            Action::RemoveDir(d) => ActionModel::RemoveDir(d@),
            Action::RunClone { program, args } => ActionModel::RunClone(program@, strings(args@)),
            Action::Done => ActionModel::Done,
            Action::Retry(m) => ActionModel::Retry(m@),
        }
    }
}

/// The directory a unit is cloned into: its root, a `/`, its target name.
pub open spec fn destination_of(p: PluginModel) -> Option<Seq<char>> {
    match target_name(p.url) {
        Some(n) => Some(p.root + seq!['/'] + n),
        None => None,
    }
}

/// The program that performs clones.
pub open spec fn clone_program() -> Seq<char> {
    "git"@
}

/// The arguments of a shallow clone of `url` into `dest`.
pub open spec fn clone_args(url: Seq<char>, dest: Seq<char>) -> Seq<Seq<char>> {
    seq!["clone"@, url, dest, "--depth"@, "1"@]
}

/// A state from which the unit moves no more.
pub open spec fn is_terminal(s: UnitState) -> bool {
    s == UnitState::Succeeded || s == UnitState::Skipped
}

/// The state after `e` arrives in state `s`.
pub open spec fn next_state(p: PluginModel, s: UnitState, e: Event) -> UnitState {
    match (s, e) {
        (UnitState::Pending, Event::Poll) | (UnitState::FailedRetryable, Event::Poll) => {
            if destination_of(p) is Some {
                UnitState::Removing
            } else {
                UnitState::Skipped
            }
        },
        (UnitState::Removing, Event::DirRemoved) => {
            if destination_of(p) is Some {
                UnitState::Cloning
            } else {
                UnitState::Skipped
            }
        },
        (UnitState::Cloning, Event::CloneFinished(CloneOutcome::Success)) => UnitState::Succeeded,
        (UnitState::Cloning, Event::CloneFinished(_)) => UnitState::FailedRetryable,
        _ => s,
    }
}

/// The action asked for when `e` arrives in state `s`.
pub open spec fn next_action(p: PluginModel, s: UnitState, e: Event) -> ActionModel {
    match (s, e) {
        (UnitState::Pending, Event::Poll) | (UnitState::FailedRetryable, Event::Poll) => {
            match destination_of(p) {
                Some(d) => ActionModel::RemoveDir(d),
                None => ActionModel::Skip,
            }
        },
        (UnitState::Removing, Event::DirRemoved) => {
            match destination_of(p) {
                Some(d) => ActionModel::RunClone(clone_program(), clone_args(p.url, d)),
                None => ActionModel::Skip,
            }
        },
        (UnitState::Cloning, Event::CloneFinished(CloneOutcome::Success)) => ActionModel::Done,
        (UnitState::Cloning, Event::CloneFinished(CloneOutcome::ExitFailure(m))) => ActionModel::Retry(m@),
        (UnitState::Cloning, Event::CloneFinished(CloneOutcome::LaunchFailure(m))) => ActionModel::Retry(m@),
        _ => ActionModel::Idle,
    }
}

/// The state reached from `s` after the events `evs`, in order.
pub open spec fn run_events(p: PluginModel, s: UnitState, evs: Seq<Event>) -> UnitState
    decreases evs.len(),
{
    if evs.len() == 0 {
        s
    } else {
        run_events(p, next_state(p, s, evs[0]), evs.subrange(1, evs.len() as int))
    }
}

/// `e` reports a successful clone.
pub open spec fn is_clone_success(e: Event) -> bool {
    e matches Event::CloneFinished(CloneOutcome::Success)
}

fn push_string(v: &mut Vec<String>, s: String)
    ensures
        final(v)@ == old(v)@.push(s),
        strings(final(v)@) == strings(old(v)@).push(s@),
{
    v.push(s);
    proof {
        assert(strings(v@) =~= strings(old(v)@).push(s@));
    }
}

impl NeovimPlugin {
    /// A unit that clones `git_url` under `install_path`.
    pub fn new(git_url: &str, install_path: &str) -> (r: NeovimPlugin)
        ensures
            r@ == (PluginModel { url: git_url@, root: install_path@ }),
    {
        NeovimPlugin { git_url: String::from_str(git_url), install_path: String::from_str(install_path) }
    }

    /// The repository URL.
    pub fn git_url(&self) -> (r: &String)
        ensures
            r@ == self@.url,
    {
        &self.git_url
    }

    /// The directory under which the repository is cloned.
    pub fn install_path(&self) -> (r: &String)
        ensures
            r@ == self@.root,
    {
        &self.install_path
    }

    /// The unit's target name (see `resolve_target_name`).
    pub fn plugin_name(&self) -> (r: Option<String>)
        ensures
            opt_chars(r) == target_name(self@.url),
    {
        resolve_target_name(self.git_url.as_str())
    }

    /// The directory the unit is cloned into, `None` when its URL gives no
    /// name.
    pub fn destination(&self) -> (r: Option<String>)
        ensures
            opt_chars(r) == destination_of(self@),
    {
        match self.plugin_name() {
            None => None,
            Some(name) => {
                let mut d = self.install_path.clone();
                proof {
                    reveal_strlit("/");
                }
                d.append("/");
                d.append(name.as_str());
                Some(d)
            },
        }
    }

    /// The arguments of the shallow clone of this unit's URL into `dest`.
    pub fn clone_arguments(&self, dest: &str) -> (r: Vec<String>)
        ensures
            strings(r@) == clone_args(self@.url, dest@),
    {
        let mut v: Vec<String> = Vec::new();
        proof {
            assert(strings(v@) =~= Seq::<Seq<char>>::empty());
        }
        push_string(&mut v, String::from_str("clone"));
        push_string(&mut v, self.git_url.clone());
        push_string(&mut v, String::from_str(dest));
        push_string(&mut v, String::from_str("--depth"));
        push_string(&mut v, String::from_str("1"));
        proof {
            assert(strings(v@) =~= clone_args(self@.url, dest@));
        }
        v
    }

    /// The next state and action when `event` arrives in `state`.
    pub fn step(&self, state: UnitState, event: &Event) -> (r: (UnitState, Action))
        ensures
            r.0 == next_state(self@, state, *event),
            r.1@ == next_action(self@, state, *event),
    {
        match (state, event) {
            (UnitState::Pending, Event::Poll) | (UnitState::FailedRetryable, Event::Poll) => {
                match self.destination() {
                    Some(d) => (UnitState::Removing, Action::RemoveDir(d)),
                    None => (UnitState::Skipped, Action::Skip),
                }
            },
            (UnitState::Removing, Event::DirRemoved) => {
                match self.destination() {
                    Some(d) => {
                        let args = self.clone_arguments(d.as_str());
                        (UnitState::Cloning, Action::RunClone { program: String::from_str("git"), args })
                    },
                    None => (UnitState::Skipped, Action::Skip),
                }
            },
            (UnitState::Cloning, Event::CloneFinished(outcome)) => {
                match outcome {
                    CloneOutcome::Success => (UnitState::Succeeded, Action::Done),
                    CloneOutcome::ExitFailure(m) => (UnitState::FailedRetryable, Action::Retry(m.clone())),
                    CloneOutcome::LaunchFailure(m) => (UnitState::FailedRetryable, Action::Retry(m.clone())),
                }
            },
            _ => (state, Action::Idle),
        }
    }
}

/// A URL without `/` is skipped on its first turn and never cloned, in any
/// state and on any event.
pub proof fn lemma_no_slash_never_clones(p: PluginModel, s: UnitState, e: Event)
    requires
        !p.url.contains('/'),
    ensures
        next_state(p, UnitState::Pending, Event::Poll) == UnitState::Skipped,
        next_action(p, UnitState::Pending, Event::Poll) == ActionModel::Skip,
        !(next_action(p, s, e) is RunClone),
{
    crate::target::lemma_no_slash_no_name(p.url);
}

/// A clone is asked for only right after the destination was cleared, and
/// into that very directory: the unit enters `Removing` only by asking for
/// the removal of its destination, and leaves it for a clone of that same
/// destination.
pub proof fn lemma_removal_precedes_clone(p: PluginModel, s: UnitState, e: Event)
    ensures
        next_action(p, s, e) is RunClone ==> s == UnitState::Removing && e is DirRemoved
            && destination_of(p) is Some && next_action(p, s, e) == ActionModel::RunClone(
            clone_program(),
            clone_args(p.url, destination_of(p)->0),
        ) && clone_args(p.url, destination_of(p)->0)[2] == destination_of(p)->0,
        next_state(p, s, e) == UnitState::Removing && s != UnitState::Removing ==> next_action(
            p,
            s,
            e,
        ) == ActionModel::RemoveDir(destination_of(p)->0),
{
}

/// Without a successful clone a unit with a name never finishes: whatever the
/// other events, it stays out of `Succeeded` and `Skipped`.
pub proof fn lemma_failing_unit_never_finishes(p: PluginModel, s: UnitState, evs: Seq<Event>)
    requires
        destination_of(p) is Some,
        !is_terminal(s),
        forall|k: int| 0 <= k < evs.len() ==> !is_clone_success(#[trigger] evs[k]),
    ensures
        !is_terminal(run_events(p, s, evs)),
    decreases evs.len(),
{
    if evs.len() > 0 {
        assert(!is_clone_success(evs[0]));
        let rest = evs.subrange(1, evs.len() as int);
        assert forall|k: int| 0 <= k < rest.len() implies !is_clone_success(#[trigger] rest[k]) by {
            assert(rest[k] == evs[k + 1]);
        }
        lemma_failing_unit_never_finishes(p, next_state(p, s, evs[0]), rest);
    }
}

} // verus!
