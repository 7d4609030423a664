use std::collections::BTreeSet;

use lazyvim::{plan, Action, CloneOutcome, Config, Driver, Event, Layout, NeovimPlugin, Plan, UnitState, Verb};

/// Carries out one scheduling pass over the unfinished units, on a simulated
/// set of directories, with a clone whose result `clone_ok` decides by URL.
fn pass(d: &mut Driver, dirs: &mut BTreeSet<String>, clone_ok: &dyn Fn(&str) -> bool, cloned: &mut Vec<String>) {
    for i in d.unfinished() {
        let mut event = Event::Poll;
        loop {
            match d.handle(i, &event) {
                Action::RemoveDir(p) => {
                    dirs.remove(&p);
                    event = Event::DirRemoved;
                }
                Action::RunClone { program, args } => {
                    assert_eq!(program, "git");
                    let url = d.unit(i).git_url().clone();
                    if clone_ok(&url) {
                        dirs.insert(args[2].clone());
                        cloned.push(args[2].clone());
                        event = Event::CloneFinished(CloneOutcome::Success);
                    } else {
                        event = Event::CloneFinished(CloneOutcome::ExitFailure("network down".to_string()));
                    }
                }
                Action::Idle | Action::Skip | Action::Done | Action::Retry(_) => break,
            }
        }
    }
}

fn config(starter: &str, plugins: &[&str]) -> Config {
    Config { starter: starter.to_string(), plugins: plugins.iter().map(|p| p.to_string()).collect() }
}

fn test_layout() -> Layout {
    Layout { config_dir: "/cfg".to_string(), plugin_dir: "/plug".to_string(), cache_dir: None, state_dir: None }
}

fn install(c: &Config, l: &Layout, dirs: &mut BTreeSet<String>) -> Driver {
    let mut d = match plan(Verb::Install, c, l) {
        Plan::Run(d) => d,
        Plan::Delete(_) => panic!("install must run the units"),
    };
    let mut cloned = Vec::new();
    let mut passes = 0;
    while !d.is_finished() {
        pass(&mut d, dirs, &|_| true, &mut cloned);
        passes += 1;
        assert!(passes < 10);
    }
    d
}

#[test]
fn end_to_end_install_of_three_units() {
    let c = config("https://x/a/s.git", &["https://x/a/p1.git", "https://x/a/p2"]);
    let mut dirs = BTreeSet::new();
    let d = install(&c, &test_layout(), &mut dirs);
    assert_eq!(d.len(), 3);
    for i in 0..3 {
        assert_eq!(d.state(i), UnitState::Succeeded);
    }
    let expected: BTreeSet<String> = ["/cfg/s", "/plug/p1", "/plug/p2"].iter().map(|s| s.to_string()).collect();
    assert_eq!(dirs, expected);
}

#[test]
fn install_twice_gives_same_directories() {
    let c = config("https://x/a/s.git", &["https://x/a/p1.git", "https://x/a/p2", "bad"]);
    let mut once: BTreeSet<String> = ["/keep".to_string(), "/plug/p1".to_string()].into_iter().collect();
    install(&c, &test_layout(), &mut once);
    let mut twice = once.clone();
    install(&c, &test_layout(), &mut twice);
    assert_eq!(once, twice);
    assert!(once.contains("/keep"));
    assert_eq!(once.len(), 4);
}

#[test]
fn failing_unit_never_finishes_while_sibling_succeeds() {
    let c = config("https://x/a/s.git", &["https://down/a/p1.git"]);
    let mut d = match plan(Verb::Install, &c, &test_layout()) {
        Plan::Run(d) => d,
        Plan::Delete(_) => panic!("install must run the units"),
    };
    let mut dirs = BTreeSet::new();
    let mut cloned = Vec::new();
    let ok = |url: &str| !url.contains("down");
    for _ in 0..50 {
        pass(&mut d, &mut dirs, &ok, &mut cloned);
        assert_eq!(d.state(0), UnitState::Succeeded);
        assert_eq!(d.state(1), UnitState::FailedRetryable);
        assert!(!d.is_finished());
    }
    assert_eq!(d.unfinished(), vec![1]);
    assert_eq!(cloned, vec!["/cfg/s".to_string()]);
}

#[test]
fn handle_changes_only_its_unit() {
    let units = vec![NeovimPlugin::new("https://x/a", "/r"), NeovimPlugin::new("https://x/b", "/r")];
    let mut d = Driver::new(units);
    let a = d.handle(1, &Event::Poll);
    assert!(matches!(a, Action::RemoveDir(ref p) if p == "/r/b"));
    assert_eq!(d.state(0), UnitState::Pending);
    assert_eq!(d.state(1), UnitState::Removing);
}

#[test]
fn new_driver_is_all_pending() {
    let d = Driver::new(vec![NeovimPlugin::new("https://x/a", "/r")]);
    assert_eq!(d.len(), 1);
    assert_eq!(d.state(0), UnitState::Pending);
    assert!(!d.is_finished());
    assert_eq!(d.unfinished(), vec![0]);
    assert!(Driver::new(Vec::new()).is_finished());
}

#[test]
fn skipped_unit_counts_as_finished() {
    let mut d = Driver::new(vec![NeovimPlugin::new("no-slash", "/r")]);
    let a = d.handle(0, &Event::Poll);
    assert!(matches!(a, Action::Skip));
    assert_eq!(d.state(0), UnitState::Skipped);
    assert!(d.is_finished());
    assert!(d.unfinished().is_empty());
}

#[test]
fn build_units_orders_starter_first() {
    let c = config("https://x/a/s.git", &["https://x/a/p1.git", "https://x/a/p2"]);
    let l = Layout::unix();
    let us = c.build_units(&l);
    assert_eq!(us.len(), 3);
    assert_eq!(us[0].git_url(), "https://x/a/s.git");
    assert_eq!(us[0].install_path(), "~/.config/nvim/");
    assert_eq!(us[1].git_url(), "https://x/a/p1.git");
    assert_eq!(us[1].install_path(), "~/.local/share/nvim/");
    assert_eq!(us[2].git_url(), "https://x/a/p2");
    assert_eq!(us[0].plugin_name(), Some("s".to_string()));
    assert_eq!(us[1].plugin_name(), Some("p1".to_string()));
    assert_eq!(us[2].plugin_name(), Some("p2".to_string()));
}

#[test]
fn build_units_with_no_plugins() {
    let c = config("https://x/a/s.git", &[]);
    let us = c.build_units(&test_layout());
    assert_eq!(us.len(), 1);
    assert_eq!(us[0].destination(), Some("/cfg/s".to_string()));
}

#[test]
fn update_runs_like_install() {
    let c = config("https://x/a/s.git", &["https://x/a/p1.git"]);
    match plan(Verb::Update, &c, &test_layout()) {
        Plan::Run(d) => {
            assert_eq!(d.len(), 2);
            assert_eq!(d.unfinished(), vec![0, 1]);
        }
        Plan::Delete(_) => panic!("update must run the units"),
    }
}

#[test]
fn delete_lists_all_four_unix_directories() {
    let c = config("https://x/a/s.git", &[]);
    let l = Layout::unix();
    let first = match plan(Verb::Delete, &c, &l) {
        Plan::Delete(v) => v,
        Plan::Run(_) => panic!("delete must not run units"),
    };
    assert_eq!(first, vec!["~/.config/nvim/", "~/.local/share/nvim/", "~/.cache/nvim", "~/.local/state/nvim"]);
    // A second delete asks for the same directories again; each removal is on its own.
    assert_eq!(l.delete_targets(), first);
}

#[test]
fn delete_on_windows_lists_two_directories() {
    let l = Layout::windows();
    assert_eq!(l.delete_targets(), vec!["~/AppData/Local", "~/AppData/Local/nvim-data/"]);
    assert_eq!(l.cache_dir, None);
}
