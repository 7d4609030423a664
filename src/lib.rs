//! Installs an editor's starter configuration and its plugins by cloning
//! their repositories into fixed directories.
//!
//! The library decides; its caller acts. Each install unit is a state
//! machine that, on each event, names the next action (remove a directory,
//! run a clone, report); the caller performs it and hands back what happened.

pub mod commands;
pub mod driver;
pub mod target;
pub mod unit;

pub use commands::{plan, Config, Layout, Plan, Verb};
pub use driver::Driver;
pub use target::resolve_target_name;
pub use unit::{Action, CloneOutcome, Event, NeovimPlugin, UnitState};
