//! Ephemeral workspaces for running a command against a historical commit:
//! command templates, workspace naming, the cleanup guard, the stale
//! workspace reaper and the decisions around them.

pub mod config;
pub mod guard;
pub mod materialize;
pub mod params;
pub mod reaper;
pub mod runner;
pub mod template;
pub mod workspace;
