//! Errors of the library. Errors that come from the operating system or
//! from a parser carry that error's message.
use crate::text::concat;
use vstd::prelude::*;

verus! {

/// Everything that can go wrong while finding, listing or switching themes.
#[derive(Debug, Clone, PartialEq, Eq)]
pub enum AppError {
    /// A directory or file could not be read (the message of the I/O error).
    DirectoryRead(String),
    /// A configuration file or directory that must exist does not.
    ConfigNotFound(String),
    /// The themes directory does not exist.
    ThemesDirNotFound(String),
    /// No theme has the requested name.
    ThemeNotFound(String),
    /// The configuration could not be read, written or located.
    ConfigurationError(String),
    /// A TOML document could not be parsed.
    TomlParse(String),
    /// A TOML document could not be produced.
    TomlSerialize(String),
    /// A JSON document could not be parsed or produced.
    JsonParse(String),
    /// The interactive picker failed.
    InteractiveError(String),
    /// Interactive mode was requested without a terminal.
    NoTerminal,
    /// A theme preview could not be produced.
    PreviewError(String),
    /// A repository given for download could not be understood.
    InvalidRepoUrl(String),
    /// The GitHub API answered with an error or an unreadable reply.
    GitHubApi(String),
    /// Downloading themes failed.
    Download(String),
}

/// The name the rest of the program uses for [`AppError`].
pub type AlthemerError = AppError;

/// The text shown to the user for `e`.
pub open spec fn error_message(e: AppError) -> Seq<char> {
    match e {
        AppError::DirectoryRead(m) => "Failed to read directory: "@ + m@,
        AppError::ConfigNotFound(p) => "Config file not found at: "@ + p@,
        AppError::ThemesDirNotFound(p) => "Themes directory not found at: "@ + p@,
        AppError::ThemeNotFound(n) => "Theme not found: "@ + n@,
        AppError::ConfigurationError(m) => "Configuration error: "@ + m@,
        AppError::TomlParse(m) => "Failed to parse TOML: "@ + m@,
        AppError::TomlSerialize(m) => "Failed to serialize TOML: "@ + m@,
        AppError::JsonParse(m) => "Failed to parse JSON: "@ + m@,
        AppError::InteractiveError(m) => "Interactive search failed: "@ + m@,
        AppError::NoTerminal => "Interactive mode requires a terminal"@,
        AppError::PreviewError(m) => "Failed to render preview: "@ + m@,
        AppError::InvalidRepoUrl(u) => "Invalid repository URL: "@ + u@,
        AppError::GitHubApi(m) => "GitHub API error: "@ + m@,
        AppError::Download(m) => "Download failed: "@ + m@,
    }
}

impl AppError {
    /// The text shown to the user for this error.
    pub fn message(&self) -> (r: String)
        ensures
            r@ == error_message(*self),
    {
        match self {
            AppError::DirectoryRead(m) => concat("Failed to read directory: ", m.as_str()),
            AppError::ConfigNotFound(p) => concat("Config file not found at: ", p.as_str()),
            AppError::ThemesDirNotFound(p) => concat(
                "Themes directory not found at: ",
                p.as_str(),
            ),
            AppError::ThemeNotFound(n) => concat("Theme not found: ", n.as_str()),
            AppError::ConfigurationError(m) => concat("Configuration error: ", m.as_str()),
            AppError::TomlParse(m) => concat("Failed to parse TOML: ", m.as_str()),
            AppError::TomlSerialize(m) => concat("Failed to serialize TOML: ", m.as_str()),
            AppError::JsonParse(m) => concat("Failed to parse JSON: ", m.as_str()),
            AppError::InteractiveError(m) => concat("Interactive search failed: ", m.as_str()),
            AppError::NoTerminal => crate::text::copy_str("Interactive mode requires a terminal"),
            AppError::PreviewError(m) => concat("Failed to render preview: ", m.as_str()),
            AppError::InvalidRepoUrl(u) => concat("Invalid repository URL: ", u.as_str()),
            AppError::GitHubApi(m) => concat("GitHub API error: ", m.as_str()),
            AppError::Download(m) => concat("Download failed: ", m.as_str()),
        }
    }
}

} // verus!
