//! The command-line surface: the commands the tool offers and their
//! arguments. Argument parsing itself is an outer concern; these are the
//! parsed shapes the library works with.

use vstd::prelude::*;

verus! {

/// A parsed invocation.
pub struct Cli {
    pub subcmd: SubCommand,
    pub verbose: bool,
    pub debug: bool,
}

/// One command.
pub enum SubCommand {
    /// Print a channel's history from a deep link.
    Read { arg: String, count: u32 },
    /// Print a channel's history grouped into reply threads.
    ReadThreaded { arg: String, count: u32 },
    /// Print one thread.
    Thread { arg: String, count: u32 },
    /// Search messages across the workspace.
    Search { keyword: String, team: String, count: u32 },
    /// Refresh the cached user and channel tables.
    Sync { team: String },
    /// Send a message.
    Send { team: String, msg: String },
}

} // verus!
