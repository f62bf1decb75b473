//! Run versioned PHP command-line tools on demand: identifier parsing,
//! multi-source resolution with version selection, a TTL artifact cache,
//! isolated installs and process launch decisions.
pub mod cache;
pub mod cli;
pub mod composer;
pub mod config;
pub mod error;
pub mod executor;
pub mod listing;
pub mod resolver;
pub mod runner;
pub mod security;
pub mod text;
pub mod versions;

pub use error::Error;

use vstd::prelude::*;

verus! {

/// Per-run switches.
#[derive(Debug)]
pub struct ToolOptions {
    pub clear_cache: bool,
    pub no_cache: bool,
    pub skip_verify: bool,
    /// Interpreter to use instead of the configured or probed one.
    pub php: Option<String>,
    pub no_local: bool,
    /// Append the tool's no-prompt switch to its arguments.
    pub no_interaction: bool,
}

impl Default for ToolOptions {
    fn default() -> (r: ToolOptions)
        ensures
            !r.clear_cache && !r.no_cache && !r.skip_verify && r.php is None && !r.no_local
                && !r.no_interaction,
    {
        ToolOptions {
            clear_cache: false,
            no_cache: false,
            skip_verify: false,
            php: None,
            no_local: false,
            no_interaction: false,
        }
    }
}

} // verus!
