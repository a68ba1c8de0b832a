//! The configuration: named command templates, and defaults for the base
//! directory and for keeping workspaces.

use vstd::prelude::*;
use std::collections::HashMap;

verus! {

/// Named command templates and optional defaults.
#[derive(Debug, PartialEq)]
pub struct IzConfig {
    pub commands: HashMap<String, String>,
    pub temp_dir: Option<String>,
    pub keep: Option<bool>,
}

impl IzConfig {
    /// Whether the workspace is kept after the command: when asked on the
    /// command line, or when the configuration says so.
    pub fn should_keep(&self, keep_flag: bool) -> (r: bool)
        ensures
            r == (keep_flag || self.keep == Some(true)),
    {
        keep_flag || match self.keep {
            Some(k) => k,
            None => false,
        }
    }
}

/// Where workspaces go.
pub enum BaseDir {
    /// A path given by the flag, the environment or the configuration.
    Given(String),
    /// The default: `.iztemp` under the current directory.
    Default,
}

/// Picks the base directory in priority order: the `--temp-dir` flag, then
/// the `IZTEMP` environment variable, then the configuration's `temp_dir`,
/// then the default.
pub fn choose_base_dir(flag: &Option<String>, env: &Option<String>, configured: &Option<String>) -> (r:
    BaseDir)
    ensures
        match (r, *flag, *env, *configured) {
            (BaseDir::Given(p), Some(f), _, _) => p@ == f@,
            (BaseDir::Given(p), None, Some(e), _) => p@ == e@,
            (BaseDir::Given(p), None, None, Some(c)) => p@ == c@,
            (BaseDir::Default, None, None, None) => true,
            _ => false,
        },
{
    match flag {
        Some(f) => BaseDir::Given(f.clone()),
        None => match env {
            Some(e) => BaseDir::Given(e.clone()),
            None => match configured {
                Some(c) => BaseDir::Given(c.clone()),
                None => BaseDir::Default,
            },
        },
    }
}

} // verus!
