//! A smaller command line: list, show, switch and configure.
use vstd::prelude::*;

verus! {

/// The command line.
#[derive(Debug, Clone)]
pub struct Cli {
    /// Path to Althemer's settings file.
    pub config: Option<String>,
    /// Custom themes directory.
    pub themes: Option<String>,
    /// What to do; the browser opens when nothing is given.
    pub command: Option<Commands>,
}

/// The subcommands.
#[derive(Debug, Clone)]
pub enum Commands {
    List,
    Current,
    Switch { theme: String },
    Configure,
}

} // verus!
