//! The command line as plain values, and what an invocation is asked to do.
use vstd::prelude::*;
use crate::ToolOptions;

verus! {

/// Parsed command-line arguments.
#[derive(Debug)]
pub struct Cli {
    /// Tool identifier, such as `phpstan` or `php-cs-fixer@^3.0`.
    pub tool: Option<String>,
    /// Arguments passed on to the tool.
    pub args: Vec<String>,
    pub command: Option<Commands>,
    pub verbose: bool,
    /// A settings file to use instead of the default one.
    pub config: Option<String>,
    pub clear_cache: bool,
    pub no_cache: bool,
    pub skip_verify: bool,
    pub php: Option<String>,
    pub no_local: bool,
    pub no_interaction: bool,
}

/// Subcommands.
#[derive(Debug)]
#[allow(inconsistent_fields)]
pub enum Commands {
    Cache { command: CacheCommands },
    Config { command: ConfigCommands },
    SelfUpdate,
    /// Install a library package in the override area.
    Add { package: String, bootstrap: bool },
    /// Remove override installs of a package (every version when none is given).
    Remove { package: String, version: Option<String> },
    /// List override installs.
    List,
}

/// Cache maintenance.
#[derive(Debug)]
#[allow(inconsistent_fields)]
pub enum CacheCommands {
    Clean { tool: Option<String> },
    List,
    Info { tool: String },
}

/// Settings access.
#[derive(Debug)]
pub enum ConfigCommands {
    Get { key: String },
    SetValue { key: String, value: String },
}

/// What an invocation is asked to do.
#[derive(Debug, PartialEq, Eq, Structural, Clone, Copy)]
pub enum CliTask {
    /// Carry out the subcommand.
    Subcommand,
    /// Clear the whole cache (the clear switch without a tool).
    ClearAllCache,
    /// Run the named tool.
    RunTool,
    /// Nothing was asked for.
    Nothing,
}

impl Cli {
    /// A subcommand comes first; the clear switch alone clears everything; else a tool runs.
    pub fn task(&self) -> (r: CliTask)
        ensures
            r == (if self.command is Some {
                CliTask::Subcommand
            } else if self.clear_cache && self.tool is None {
                CliTask::ClearAllCache
            } else if self.tool is Some {
                CliTask::RunTool
            } else {
                CliTask::Nothing
            }),
    {
        if self.command.is_some() {
            CliTask::Subcommand
        } else if self.clear_cache && self.tool.is_none() {
            CliTask::ClearAllCache
        } else if self.tool.is_some() {
            CliTask::RunTool
        } else {
            CliTask::Nothing
        }
    }

    /// The per-run switches the arguments carry.
    pub fn tool_options(&self) -> (r: ToolOptions)
        ensures
            r.clear_cache == self.clear_cache,
            r.no_cache == self.no_cache,
            r.skip_verify == self.skip_verify,
            r.php == self.php,
            r.no_local == self.no_local,
            r.no_interaction == self.no_interaction,
    {
        ToolOptions {
            clear_cache: self.clear_cache,
            no_cache: self.no_cache,
            skip_verify: self.skip_verify,
            php: match &self.php {
                Some(p) => Some(p.clone()),
                None => None,
            },
            no_local: self.no_local,
            no_interaction: self.no_interaction,
        }
    }
}

} // verus!
