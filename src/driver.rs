//! The driver: the state of every unit of a run, advanced one event at a time.
use vstd::prelude::*;

use crate::unit::{
    destination_of, is_terminal, next_action, next_state, Action, ActionModel, CloneOutcome, Event,
    NeovimPlugin, PluginModel, UnitState,
};

verus! {

/// The units of a run and the state of each, by position.
pub struct Driver {
    units: Vec<NeovimPlugin>,
    states: Vec<UnitState>,
}

/// The model of a driver.
pub ghost struct DriverModel {
    pub units: Seq<PluginModel>,
    pub states: Seq<UnitState>,
}

/// The models of a sequence of units.
pub open spec fn unit_models(v: Seq<NeovimPlugin>) -> Seq<PluginModel> {
    v.map_values(|u: NeovimPlugin| u@)
}

impl View for Driver {
    type V = DriverModel;

    closed spec fn view(&self) -> DriverModel {
        DriverModel { units: unit_models(self.units@), states: self.states@ }
    }
}

impl Driver {
    /// Each unit has exactly one state.
    pub open spec fn well_formed(&self) -> bool {
        self@.units.len() == self@.states.len()
    }

    /// Every unit has finished: it succeeded or was skipped.
    pub open spec fn all_finished(&self) -> bool {
        forall|j: int| 0 <= j < self@.states.len() ==> is_terminal(#[trigger] self@.states[j])
    }

    /// A driver over `units`, in their order, each `Pending`.
    pub fn new(units: Vec<NeovimPlugin>) -> (r: Driver)
        ensures
            r.well_formed(),
            r@.units == unit_models(units@),
            r@.states == Seq::new(units@.len(), |j: int| UnitState::Pending),
    {
        let mut states: Vec<UnitState> = Vec::new();
        let mut j: usize = 0;
        while j < units.len()
            invariant
                j <= units@.len(),
                states@ == Seq::new(j as nat, |k: int| UnitState::Pending),
            decreases units@.len() - j,
        {
            states.push(UnitState::Pending);
            j = j + 1;
            assert(states@ =~= Seq::new(j as nat, |k: int| UnitState::Pending));
        }
        Driver { units, states }
    }

    /// The number of units.
    pub fn len(&self) -> (r: usize)
        requires
            self.well_formed(),
        ensures
            r == self@.units.len(),
    {
        self.units.len()
    }

    /// The unit at position `i`.
    pub fn unit(&self, i: usize) -> (r: &NeovimPlugin)
        requires
            self.well_formed(),
            i < self@.units.len(),
        ensures
            r@ == self@.units[i as int],
    {
        &self.units[i]
    }

    /// The state of the unit at position `i`.
    pub fn state(&self, i: usize) -> (r: UnitState)
        requires
            self.well_formed(),
            i < self@.units.len(),
        ensures
            r == self@.states[i as int],
    {
        self.states[i]
    }

    /// Hands `event` to the unit at position `i`: that unit takes its next
    /// state and the action it asks for is returned; every other unit is left
    /// as it was.
    pub fn handle(&mut self, i: usize, event: &Event) -> (r: Action)
        requires
            old(self).well_formed(),
            i < old(self)@.units.len(),
        ensures
            final(self).well_formed(),
            final(self)@.units == old(self)@.units,
            final(self)@.states == old(self)@.states.update(
                i as int,
                next_state(old(self)@.units[i as int], old(self)@.states[i as int], *event),
            ),
            r@ == next_action(old(self)@.units[i as int], old(self)@.states[i as int], *event),
    {
        let (s, a) = self.units[i].step(self.states[i], event);
        self.states.set(i, s);
        a
    }

    /// Whether every unit has finished.
    pub fn is_finished(&self) -> (r: bool)
        requires
            self.well_formed(),
        ensures
            r == self.all_finished(),
    {
        let mut j: usize = 0;
        while j < self.states.len()
            invariant
                self.well_formed(),
                j <= self@.states.len(),
                forall|k: int| 0 <= k < j ==> is_terminal(#[trigger] self@.states[k]),
            decreases self@.states.len() - j,
        {
            let s = self.states[j];
            if s != UnitState::Succeeded && s != UnitState::Skipped {
                return false;
            }
            j = j + 1;
        }
        true
    }

    /// The positions of the units that have not finished, in increasing order:
    /// the units that the next scheduling pass polls.
    pub fn unfinished(&self) -> (r: Vec<usize>)
        requires
            self.well_formed(),
        ensures
            forall|k: int|
                0 <= k < r@.len() ==> #[trigger] r@[k] < self@.states.len() && !is_terminal(
                    self@.states[r@[k] as int],
                ),
            forall|k1: int, k2: int| 0 <= k1 < k2 < r@.len() ==> r@[k1] < r@[k2],
            forall|j: int|
                0 <= j < self@.states.len() && !is_terminal(#[trigger] self@.states[j])
                    ==> r@.contains(j as usize),
    {
        let mut r: Vec<usize> = Vec::new();
        let mut j: usize = 0;
        while j < self.states.len()
            invariant
                self.well_formed(),
                j <= self@.states.len(),
                forall|k: int|
                    0 <= k < r@.len() ==> #[trigger] r@[k] < j && !is_terminal(
                        self@.states[r@[k] as int],
                    ),
                forall|k1: int, k2: int| 0 <= k1 < k2 < r@.len() ==> r@[k1] < r@[k2],
                forall|m: int|
                    0 <= m < j && !is_terminal(#[trigger] self@.states[m]) ==> r@.contains(
                        m as usize,
                    ),
            decreases self@.states.len() - j,
        {
            let ghost r0 = r@;
            let s = self.states[j];
            if s != UnitState::Succeeded && s != UnitState::Skipped {
                r.push(j);
                assert(r@[r@.len() - 1] == j);
            }
            proof {
                assert forall|m: int|
                    0 <= m < j + 1 && !is_terminal(#[trigger] self@.states[m]) implies r@.contains(
                    m as usize,
                ) by {
                    if m < j {
                        assert(r0.contains(m as usize));
                        let k = choose|k: int| 0 <= k < r0.len() && r0[k] == m as usize;
                        assert(r@[k] == m as usize);
                    }
                }
            }
            j = j + 1;
        }
        r
    }
}

/// The directories that exist after `a` is carried out and, where it is a
/// clone, the clone succeeds: a removal takes the directory away, a clone
/// creates its destination (the third argument).
pub open spec fn apply_with_success(fs: Set<Seq<char>>, a: ActionModel) -> Set<Seq<char>> {
    match a {
        ActionModel::RemoveDir(d) => fs.remove(d),
        ActionModel::RunClone(_, args) => if args.len() > 2 {
            fs.insert(args[2])
        } else {
            fs
        },
        _ => fs,
    }
}

/// The events of one attempt whose clone succeeds.
pub open spec fn successful_attempt() -> Seq<Event> {
    seq![Event::Poll, Event::DirRemoved, Event::CloneFinished(CloneOutcome::Success)]
}

/// The directories after the unit, from state `s`, receives `evs` and each
/// action asked for is carried out.
pub open spec fn run_effects(fs: Set<Seq<char>>, p: PluginModel, s: UnitState, evs: Seq<Event>) -> Set<
    Seq<char>,
>
    decreases evs.len(),
{
    if evs.len() == 0 {
        fs
    } else {
        run_effects(
            apply_with_success(fs, next_action(p, s, evs[0])),
            p,
            next_state(p, s, evs[0]),
            evs.subrange(1, evs.len() as int),
        )
    }
}

/// The directories after an install of `units`, one after another, where
/// every clone succeeds.
pub open spec fn install_effects(fs: Set<Seq<char>>, units: Seq<PluginModel>) -> Set<Seq<char>>
    decreases units.len(),
{
    if units.len() == 0 {
        fs
    } else {
        install_effects(
            run_effects(fs, units[0], UnitState::Pending, successful_attempt()),
            units.subrange(1, units.len() as int),
        )
    }
}

/// The destinations of the units that have a name.
pub open spec fn destinations(units: Seq<PluginModel>) -> Set<Seq<char>>
    decreases units.len(),
{
    if units.len() == 0 {
        Set::empty()
    } else {
        let rest = destinations(units.subrange(1, units.len() as int));
        match destination_of(units[0]) {
            Some(d) => rest.insert(d),
            None => rest,
        }
    }
}

/// One successful attempt finishes a unit, and leaves its destination in
/// place of whatever was there.
pub proof fn lemma_successful_attempt(fs: Set<Seq<char>>, p: PluginModel)
    ensures
        is_terminal(crate::unit::run_events(p, UnitState::Pending, successful_attempt())),
        destination_of(p) is Some ==> crate::unit::run_events(
            p,
            UnitState::Pending,
            successful_attempt(),
        ) == UnitState::Succeeded,
        run_effects(fs, p, UnitState::Pending, successful_attempt()) == match destination_of(p) {
            Some(d) => fs.insert(d),
            None => fs,
        },
{
    reveal_with_fuel(crate::unit::run_events, 4);
    reveal_with_fuel(run_effects, 4);
    let evs = successful_attempt();
    let e1 = evs.subrange(1, 3);
    let e2 = e1.subrange(1, 2);
    let e3 = e2.subrange(1, 1);
    assert(e1 =~= seq![Event::DirRemoved, Event::CloneFinished(CloneOutcome::Success)]);
    assert(e2 =~= seq![Event::CloneFinished(CloneOutcome::Success)]);
    assert(e3 =~= Seq::<Event>::empty());
    match destination_of(p) {
        Some(d) => {
            assert(fs.remove(d).insert(d) =~= fs.insert(d));
        },
        None => {},
    }
}

/// An install where every clone succeeds adds exactly the destinations of
/// the named units to what was there.
pub proof fn lemma_install_adds_destinations(fs: Set<Seq<char>>, units: Seq<PluginModel>)
    ensures
        install_effects(fs, units) == fs.union(destinations(units)),
    decreases units.len(),
{
    if units.len() == 0 {
        assert(fs.union(Set::empty()) =~= fs);
    } else {
        let rest = units.subrange(1, units.len() as int);
        lemma_successful_attempt(fs, units[0]);
        let fs1 = run_effects(fs, units[0], UnitState::Pending, successful_attempt());
        lemma_install_adds_destinations(fs1, rest);
        assert(fs1.union(destinations(rest)) =~= fs.union(destinations(units)));
    }
}

/// Installing twice, every clone succeeding, leaves the same directories as
/// installing once.
pub proof fn lemma_install_idempotent(fs: Set<Seq<char>>, units: Seq<PluginModel>)
    ensures
        install_effects(install_effects(fs, units), units) == install_effects(fs, units),
{
    lemma_install_adds_destinations(fs, units);
    lemma_install_adds_destinations(install_effects(fs, units), units);
    assert(fs.union(destinations(units)).union(destinations(units)) =~= fs.union(
        destinations(units),
    ));
}

} // verus!
