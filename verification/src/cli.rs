//! The command line: global options, the subcommands, and the shells for
//! which completions can be generated.
use clap_complete::Generator;

use vstd::prelude::*;

verus! {

/// The command line.
#[derive(Debug, Clone)]
pub struct Cli {
    /// Path to Althemer's settings file.
    pub config: Option<String>,
    /// Custom themes directory.
    pub themes: Option<String>,
    /// What to do; the browser opens when nothing is given.
    pub command: Option<Commands>,
}

/// The subcommands.
#[derive(Debug, Clone)]
pub enum Commands {
    /// Download themes from a GitHub repository.
    Download { repo: Option<String>, branch: Option<String>, force: bool },
    /// List the available themes.
    List,
    /// Show the current theme.
    Current,
    /// Switch to a theme.
    Switch { theme: String },
    /// Configure Althemer.
    Configure,
    /// Generate shell completions.
    Completion { shell: Shell },
}

/// The shells completions can be generated for.
#[derive(Debug, Clone, Copy, PartialEq, Eq, Structural)]
pub enum Shell {
    Bash,
    Elvish,
    Fish,
    PowerShell,
    Zsh,
}

/// The file the completions of the program `name` go to for `shell`.
pub open spec fn completion_file(shell: Shell, name: Seq<char>) -> Seq<char> {
    match shell {
        Shell::Bash => name + ".bash"@,
        Shell::Elvish => name + ".elv"@,
        Shell::Fish => name + ".fish"@,
        Shell::PowerShell => "_"@ + name + ".ps1"@,
        Shell::Zsh => "_"@ + name,
    }
}

/// `clap_complete::shells::Bash::file_name`: `{name}.bash`.
#[verifier::external_body]
fn bash_file_name(name: &str) -> (r: String)
    ensures
        r@ == name@ + ".bash"@,
{
    clap_complete::shells::Bash.file_name(name)
}

/// `clap_complete::shells::Elvish::file_name`: `{name}.elv`.
#[verifier::external_body]
fn elvish_file_name(name: &str) -> (r: String)
    ensures
        r@ == name@ + ".elv"@,
{
    clap_complete::shells::Elvish.file_name(name)
}

/// `clap_complete::shells::Fish::file_name`: `{name}.fish`.
#[verifier::external_body]
fn fish_file_name(name: &str) -> (r: String)
    ensures
        r@ == name@ + ".fish"@,
{
    clap_complete::shells::Fish.file_name(name)
}

/// `clap_complete::shells::PowerShell::file_name`: `_{name}.ps1`.
#[verifier::external_body]
fn powershell_file_name(name: &str) -> (r: String)
    ensures
        r@ == "_"@ + name@ + ".ps1"@,
{
    clap_complete::shells::PowerShell.file_name(name)
}

/// `clap_complete::shells::Zsh::file_name`: `_{name}`.
#[verifier::external_body]
fn zsh_file_name(name: &str) -> (r: String)
    ensures
        r@ == "_"@ + name@,
{
    clap_complete::shells::Zsh.file_name(name)
}

impl Shell {
    /// The file the completions of the program `name` go to.
    pub fn file_name(&self, name: &str) -> (r: String)
        ensures
            r@ == completion_file(*self, name@),
    {
        match self {
            Shell::Bash => bash_file_name(name),
            Shell::Elvish => elvish_file_name(name),
            Shell::Fish => fish_file_name(name),
            Shell::PowerShell => powershell_file_name(name),
            Shell::Zsh => zsh_file_name(name),
        }
    }
}

} // verus!
