//! The configuration, the fixed directories, and what each command does.
use vstd::prelude::*;

use crate::driver::{unit_models, Driver};
use crate::unit::{strings, NeovimPlugin, PluginModel, UnitState};

verus! {

/// The repositories to install: one starter and any number of plugins.
pub struct Config {
    pub starter: String,
    pub plugins: Vec<String>,
}

/// The well-known directories of the editor on one platform.
pub struct Layout {
    /// Receives the starter configuration.
    pub config_dir: String,
    /// Receives the plugins.
    pub plugin_dir: String,
    /// The cache directory, where the platform has one to clear.
    pub cache_dir: Option<String>,
    /// The state directory, where the platform has one to clear.
    pub state_dir: Option<String>,
}

/// The three commands.
#[derive(PartialEq, Eq, Structural, Clone, Copy, Debug)]
pub enum Verb {
    Install,
    Update,
    Delete,
}

/// What a command comes to: a run of the driver, or the directories to
/// remove.
pub enum Plan {
    Run(Driver),
    Delete(Vec<String>),
}

/// The units of a configuration: the starter into the configuration
/// directory, then each plugin, in order, into the plugin directory.
pub open spec fn planned_units(c: &Config, l: &Layout) -> Seq<PluginModel> {
    seq![PluginModel { url: c.starter@, root: l.config_dir@ }] + c.plugins@.map_values(
        |p: String| PluginModel { url: p@, root: l.plugin_dir@ },
    )
}

/// The characters of an optional directory, as a sequence of zero or one.
pub open spec fn optional_dir(d: Option<String>) -> Seq<Seq<char>> {
    match d {
        Some(s) => seq![s@],
        None => seq![],
    }
}

/// The directories that `Delete` removes, in order.
pub open spec fn layout_dirs(l: &Layout) -> Seq<Seq<char>> {
    seq![l.config_dir@, l.plugin_dir@] + optional_dir(l.cache_dir) + optional_dir(l.state_dir)
}

fn push_dir(v: &mut Vec<String>, d: &Option<String>)
    ensures
        strings(final(v)@) == strings(old(v)@) + optional_dir(*d),
{
    match d {
        Some(s) => {
            v.push(s.clone());
            assert(strings(v@) =~= strings(old(v)@) + optional_dir(*d));
        },
        None => {
            assert(strings(v@) =~= strings(old(v)@) + optional_dir(*d));
        },
    }
}

impl Layout {
    /// The directories on Unix-like systems.
    pub fn unix() -> (r: Layout)
        ensures
            r.config_dir@ == "~/.config/nvim/"@,
            r.plugin_dir@ == "~/.local/share/nvim/"@,
            r.cache_dir matches Some(c) && c@ == "~/.cache/nvim"@,
            r.state_dir matches Some(s) && s@ == "~/.local/state/nvim"@,
    {
        Layout {
            config_dir: String::from_str("~/.config/nvim/"),
            plugin_dir: String::from_str("~/.local/share/nvim/"),
            cache_dir: Some(String::from_str("~/.cache/nvim")),
            state_dir: Some(String::from_str("~/.local/state/nvim")),
        }
    }

    /// The directories on Windows, which has no separate cache or state
    /// directory to clear.
    pub fn windows() -> (r: Layout)
        ensures
            r.config_dir@ == "~/AppData/Local"@,
            r.plugin_dir@ == "~/AppData/Local/nvim-data/"@,
            r.cache_dir is None,
            r.state_dir is None,
    {
        Layout {
            config_dir: String::from_str("~/AppData/Local"),
            plugin_dir: String::from_str("~/AppData/Local/nvim-data/"),
            cache_dir: None,
            state_dir: None,
        }
    }

    /// The directories to remove, best effort and each on its own, for
    /// `Delete`.
    pub fn delete_targets(&self) -> (r: Vec<String>)
        ensures
            strings(r@) == layout_dirs(self),
    {
        let mut v: Vec<String> = Vec::new();
        v.push(self.config_dir.clone());
        v.push(self.plugin_dir.clone());
        assert(strings(v@) =~= seq![self.config_dir@, self.plugin_dir@]);
        push_dir(&mut v, &self.cache_dir);
        push_dir(&mut v, &self.state_dir);
        v
    }
}

impl Config {
    /// The units of this configuration under `layout`.
    pub fn build_units(&self, layout: &Layout) -> (r: Vec<NeovimPlugin>)
        ensures
            unit_models(r@) == planned_units(self, layout),
    {
        let mut v: Vec<NeovimPlugin> = Vec::new();
        v.push(NeovimPlugin::new(self.starter.as_str(), layout.config_dir.as_str()));
        let mut k: usize = 0;
        while k < self.plugins.len()
            invariant
                k <= self.plugins@.len(),
                unit_models(v@) == planned_units(self, layout).subrange(0, k + 1),
            decreases self.plugins@.len() - k,
        {
            let u = NeovimPlugin::new(self.plugins[k].as_str(), layout.plugin_dir.as_str());
            let ghost v0 = v@;
            v.push(u);
            proof {
                assert(unit_models(v@) =~= unit_models(v0).push(u@));
                assert(planned_units(self, layout).subrange(0, k + 2) =~= planned_units(
                    self,
                    layout,
                ).subrange(0, k + 1).push(u@));
            }
            k = k + 1;
        }
        proof {
            assert(planned_units(self, layout).subrange(0, k + 1) =~= planned_units(self, layout));
        }
        v
    }
}

/// What `verb` does with `config` under `layout`. `Install` and `Update` both
/// run every unit from scratch: an update is a fresh clone.
pub fn plan(verb: Verb, config: &Config, layout: &Layout) -> (r: Plan)
    ensures
        match r {
            Plan::Run(d) => verb != Verb::Delete && d.well_formed() && d@.units == planned_units(
                config,
                layout,
            ) && d@.states == Seq::new(d@.units.len(), |j: int| UnitState::Pending),
            Plan::Delete(v) => verb == Verb::Delete && strings(v@) == layout_dirs(layout),
        },
{
    match verb {
        Verb::Install | Verb::Update => Plan::Run(Driver::new(config.build_units(layout))),
        Verb::Delete => Plan::Delete(layout.delete_targets()),
    }
}

} // verus!
