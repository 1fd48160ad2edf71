//! The command line as the library sees it: which command, and whether the run
//! is a dry run.

use vstd::prelude::*;

verus! {

/// A subcommand.
#[derive(Debug, Clone)]
pub enum Commands {
    /// Set a settings value.
    SetValue { key: String, value: String },
    /// Show the settings.
    Show,
    /// Generate a commit message.
    Generate,
}

/// A parsed command line.
#[derive(Debug, Clone)]
pub struct Cli {
    pub command: Option<Commands>,
    /// Show the prompt that would be sent instead of calling the backend.
    pub dry_run: bool,
}

impl Cli {
    /// The command to run: the one given, or `Generate` when none was.
    pub fn command_or_default(self) -> (r: Commands)
        ensures
            match self.command {
                Some(c) => r == c,
                None => r is Generate,
            },
    {
        match self.command {
            Some(c) => c,
            None => Commands::Generate,
        }
    }
}

} // verus!
