//! Alacritty's configuration: where it lives, which theme it imports, and
//! where the themes directory is.
use crate::error::AppError;
use crate::text::{copy_str, join, join_path, path_parent, path_parent_of};
use vstd::prelude::*;

verus! {

/// Declares `toml::Value`, which carries the parts of Alacritty's
/// configuration that Althemer leaves as they are.
#[verifier::external_type_specification]
#[verifier::external_body]
pub struct ExTomlValue(toml::Value);

/// The `[general]` table of Alacritty's configuration.
#[derive(Debug, Clone)]
pub struct GeneralConfig {
    /// The files Alacritty imports; the first one is the active theme.
    pub import: Vec<String>,
}

/// Alacritty's configuration: the `[general]` table, and everything else as
/// it was read.
pub struct AlacrittyConfig {
    pub general: GeneralConfig,
    pub other: toml::Value,
}

/// Alacritty's configuration directory: `alacritty` in the platform's
/// configuration directory.
pub open spec fn alacritty_dir_of(config_dir: Seq<char>) -> Seq<char> {
    join(config_dir, "alacritty"@)
}

/// Alacritty's configuration directory, or `ConfigNotFound` when the
/// platform has no configuration directory.
pub fn get_alacritty_config_dir(config_dir: Option<&str>) -> (r: Result<String, AppError>)
    ensures
        match config_dir {
            Some(d) => r matches Ok(p) && p@ == alacritty_dir_of(d@),
            None => r matches Err(AppError::ConfigNotFound(p)) && p@ == "~/.config/alacritty"@,
        },
{
    match config_dir {
        Some(d) => Ok(join_path(d, "alacritty")),
        None => Err(AppError::ConfigNotFound(copy_str("~/.config/alacritty"))),
    }
}

/// The Alacritty configuration file to use: the one given on the command
/// line, else the one named in Althemer's settings, else `alacritty.toml` in
/// Alacritty's configuration directory.
pub fn get_alacritty_config_path(
    cli_override: Option<&str>,
    config_override: Option<&str>,
    config_dir: Option<&str>,
) -> (r: Result<String, AppError>)
    ensures
        match (cli_override, config_override, config_dir) {
            (Some(p), _, _) => r matches Ok(q) && q@ == p@,
            (None, Some(p), _) => r matches Ok(q) && q@ == p@,
            (None, None, Some(d)) => r matches Ok(q) && q@ == join(
                alacritty_dir_of(d@),
                "alacritty.toml"@,
            ),
            (None, None, None) => r matches Err(AppError::ConfigNotFound(p)) && p@
                == "~/.config/alacritty"@,
        },
{
    if let Some(p) = cli_override {
        return Ok(copy_str(p));
    }
    if let Some(p) = config_override {
        return Ok(copy_str(p));
    }
    match get_alacritty_config_dir(config_dir) {
        Ok(dir) => Ok(join_path(dir.as_str(), "alacritty.toml")),
        Err(e) => Err(e),
    }
}

/// `f`, asked whether the path with the characters `path` exists, may answer
/// `b`.
pub open spec fn answers<F: Fn(&str) -> bool>(f: F, path: Seq<char>, b: bool) -> bool {
    exists|p: &str| p@ == path && #[trigger] f.ensures((p,), b)
}

/// What `Path::starts_with("~")` gives for the path `p`: whether its first
/// component is `~` (then `p` is `~` alone or `~` followed by a separator).
pub uninterp spec fn starts_at_home(p: Seq<char>) -> bool;

/// `Path::starts_with("~")`; the contract names the result.
#[verifier::external_body]
fn path_starts_at_home(p: &str) -> (r: bool)
    ensures
        r == starts_at_home(p@),
{
    std::path::Path::new(p).starts_with("~")
}

/// A path that begins with the component `~`, with the `~` replaced by the
/// home directory when one is known.
pub open spec fn tilde_expanded(path: Seq<char>, home: Option<Seq<char>>) -> Seq<char> {
    match home {
        Some(h) => h + path.skip(1),
        None => path,
    }
}

/// `shellexpand::tilde_with_context` with the home directory `home`, for a
/// path whose first component is `~` (so `~` alone or followed by a
/// separator, which the function expands on every platform): the `~`
/// becomes the home directory when one is given, else the path is returned
/// as it is. Other paths are not admitted.
#[verifier::external_body]
fn expand_tilde(path: &str, home: Option<&str>) -> (r: String)
    requires
        starts_at_home(path@),
    ensures
        r@ == tilde_expanded(
            path@,
            match home {
                Some(h) => Some(h@),
                None => None,
            },
        ),
{
    shellexpand::tilde_with_context(path, || home).into_owned()
}

/// The themes directory a custom path names, with `~` expanded.
pub open spec fn custom_themes_dir(path: Seq<char>, home: Option<Seq<char>>) -> Seq<char> {
    if starts_at_home(path) {
        tilde_expanded(path, home)
    } else {
        path
    }
}

/// The themes directory the optional custom path names, with `~` expanded
/// against the optional home directory.
pub open spec fn custom_candidate(custom_path: Option<&str>, home_dir: Option<&str>) -> Option<
    Seq<char>,
> {
    match custom_path {
        Some(p) => Some(
            custom_themes_dir(
                p@,
                match home_dir {
                    Some(h) => Some(h@),
                    None => None,
                },
            ),
        ),
        None => None,
    }
}

/// `r` is the outcome of looking for the themes directory `candidate`: the
/// directory when `f` says it exists, `ThemesDirNotFound` when it does not,
/// and `ConfigNotFound` when there is no candidate at all.
pub open spec fn found_dir<F: Fn(&str) -> bool>(
    f: F,
    candidate: Option<Seq<char>>,
    r: Result<String, AppError>,
) -> bool {
    match candidate {
        None => r matches Err(AppError::ConfigNotFound(p)) && p@ == "~/.config/alacritty"@,
        Some(c) => (r matches Ok(d) && d@ == c && answers(f, c, true)) || (r matches Err(
            AppError::ThemesDirNotFound(d),
        ) && d@ == c && answers(f, c, false)),
    }
}

/// The themes directory: the custom path (with `~` expanded) when given,
/// else `themes` in Alacritty's configuration directory; it must exist.
pub fn get_themes_dir<F: Fn(&str) -> bool>(
    custom_path: Option<&str>,
    home_dir: Option<&str>,
    config_dir: Option<&str>,
    path_exists: &F,
) -> (r: Result<String, AppError>)
    requires
        forall|p: &str| path_exists.requires((p,)),
    ensures
        found_dir(
            *path_exists,
            match custom_path {
                Some(_) => custom_candidate(custom_path, home_dir),
                None => match config_dir {
                    Some(d) => Some(join(alacritty_dir_of(d@), "themes"@)),
                    None => None,
                },
            },
            r,
        ),
{
    let dir = match custom_path {
        Some(path) => {
            if path_starts_at_home(path) {
                expand_tilde(path, home_dir)
            } else {
                copy_str(path)
            }
        },
        None => match get_alacritty_config_dir(config_dir) {
            Ok(a) => join_path(a.as_str(), "themes"),
            Err(e) => return Err(e),
        },
    };
    let s = dir.as_str();
    let found = path_exists(s);
    proof {
        assert(path_exists.ensures((s,), found));
    }
    if !found {
        return Err(AppError::ThemesDirNotFound(dir));
    }
    Ok(dir)
}

/// The themes directory beside an Alacritty configuration file: `themes` in
/// the directory that holds the file.
pub open spec fn themes_beside_of(config_file: Seq<char>) -> Option<Seq<char>> {
    match path_parent_of(config_file) {
        Some(d) => Some(join(d, "themes"@)),
        None => None,
    }
}

/// The themes directory beside an Alacritty configuration file, if it
/// exists.
pub fn themes_dir_beside<F: Fn(&str) -> bool>(config_file: &str, path_exists: &F) -> (r: Option<String>)
    requires
        forall|p: &str| path_exists.requires((p,)),
    ensures
        match themes_beside_of(config_file@) {
            None => r is None,
            Some(c) => (r matches Some(d) && d@ == c && answers(path_exists, c, true)) || (r is None
                && answers(path_exists, c, false)),
        },
{
    match path_parent(config_file) {
        None => None,
        Some(parent) => {
            let dir = join_path(parent.as_str(), "themes");
            let s = dir.as_str();
            let found = path_exists(s);
            proof {
                assert(path_exists.ensures((s,), found));
            }
            if found {
                Some(dir)
            } else {
                None
            }
        },
    }
}

/// The file Alacritty imports first, if any: the active theme.
pub open spec fn first_import(config: AlacrittyConfig) -> Option<Seq<char>> {
    if config.general.import@.len() > 0 {
        Some(config.general.import@[0]@)
    } else {
        None
    }
}

/// The theme Alacritty imports first, if any.
pub fn current_import(config: &AlacrittyConfig) -> (r: Option<String>)
    ensures
        match r {
            Some(p) => first_import(*config) == Some(p@),
            None => first_import(*config) is None,
        },
{
    if config.general.import.len() > 0 {
        Some(config.general.import[0].clone())
    } else {
        None
    }
}

/// Alacritty's configuration importing only the theme at `theme_path`, with
/// everything else left as it was.
pub fn with_theme(config: AlacrittyConfig, theme_path: &str) -> (r: AlacrittyConfig)
    ensures
        r.general.import@.len() == 1,
        r.general.import@[0]@ == theme_path@,
        r.other == config.other,
{
    let mut import: Vec<String> = Vec::new();
    import.push(copy_str(theme_path));
    AlacrittyConfig { general: GeneralConfig { import }, other: config.other }
}

} // verus!
