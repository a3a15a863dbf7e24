//! A settings layout with a themes directory and the
//! browser's and picker's behaviour, stored in
//! `~/.config/althemer/config.json`.
use crate::config::alacritty::{alacritty_dir_of, custom_candidate, found_dir};
use crate::error::AppError;
use crate::text::{copy_str, join, join_path};
use vstd::prelude::*;

verus! {

/// Settings with a themes directory and the browser's and picker's behaviour.
#[derive(Debug, Clone)]
pub struct AlthemerConfig {
    pub themes_dir: Option<String>,
    pub show_preview: bool,
    pub quit_on_select: bool,
    pub picker_reversed: bool,
    pub picker_sort_results: bool,
}

/// The preview is shown unless switched off.
pub fn default_show_preview() -> (r: bool)
    ensures
        r,
{
    true
}

/// The browser stays open after a theme is applied unless asked otherwise.
pub fn default_quit_on_select() -> (r: bool)
    ensures
        !r,
{
    false
}

/// The picker lists top-down unless asked otherwise.
pub fn default_picker_reversed() -> (r: bool)
    ensures
        !r,
{
    false
}

/// The picker sorts matches by relevance unless asked otherwise.
pub fn default_picker_sort_results() -> (r: bool)
    ensures
        r,
{
    true
}

/// The themes directory by default: `alacritty/themes` in the platform's
/// configuration directory.
pub open spec fn default_themes_dir_of(config_dir: Option<Seq<char>>) -> Option<Seq<char>> {
    match config_dir {
        Some(d) => Some(join(join(d, "alacritty"@), "themes"@)),
        None => None,
    }
}

/// The themes directory by default, in the platform's configuration
/// directory `config_dir`.
pub fn default_themes_dir(config_dir: Option<&str>) -> (r: Option<String>)
    ensures
        match r {
            Some(s) => default_themes_dir_of(
                match config_dir {
                    Some(d) => Some(d@),
                    None => None,
                },
            ) == Some(s@),
            None => config_dir is None,
        },
{
    match config_dir {
        Some(d) => {
            let a = join_path(d, "alacritty");
            Some(join_path(a.as_str(), "themes"))
        },
        None => None,
    }
}

/// `dirs::config_dir`: the platform's configuration directory, read from the
/// environment; nothing is stated about it.
#[verifier::external_body]
fn platform_config_dir() -> (r: Option<String>) {
    dirs::config_dir().and_then(|p| p.to_str().map(|s| s.to_string()))
}

impl AlthemerConfig {
    /// The default settings, with the themes directory in the platform's
    /// configuration directory `config_dir`.
    pub fn with_config_dir(config_dir: Option<&str>) -> (r: AlthemerConfig)
        ensures
            match r.themes_dir {
                Some(s) => default_themes_dir_of(
                    match config_dir {
                        Some(d) => Some(d@),
                        None => None,
                    },
                ) == Some(s@),
                None => config_dir is None,
            },
            r.show_preview,
            !r.quit_on_select,
            !r.picker_reversed,
            r.picker_sort_results,
    {
        AlthemerConfig {
            themes_dir: default_themes_dir(config_dir),
            show_preview: default_show_preview(),
            quit_on_select: default_quit_on_select(),
            picker_reversed: default_picker_reversed(),
            picker_sort_results: default_picker_sort_results(),
        }
    }
}

impl Default for AlthemerConfig {
    /// The default settings in this environment.
    fn default() -> (r: AlthemerConfig)
        ensures
            r.themes_dir matches Some(s) ==> exists|d: Seq<char>|
                default_themes_dir_of(Some(d)) == Some(s@),
            r.show_preview,
            !r.quit_on_select,
            !r.picker_reversed,
            r.picker_sort_results,
    {
        let dir = platform_config_dir();
        let d = match &dir {
            Some(s) => Some(s.as_str()),
            None => None,
        };
        AlthemerConfig::with_config_dir(d)
    }
}

/// The settings as read, with an empty themes directory taken as none.
pub fn normalize_config(config: AlthemerConfig) -> (r: AlthemerConfig)
    ensures
        r.themes_dir == (match config.themes_dir {
            Some(d) => if d@.len() == 0 {
                None
            } else {
                Some(d)
            },
            None => None,
        }),
        r.show_preview == config.show_preview,
        r.quit_on_select == config.quit_on_select,
        r.picker_reversed == config.picker_reversed,
        r.picker_sort_results == config.picker_sort_results,
{
    let mut config = config;
    let empty = match &config.themes_dir {
        Some(p) => p.as_str().is_empty(),
        None => false,
    };
    if empty {
        config.themes_dir = None;
    }
    config
}

/// Althemer's configuration directory under a home directory.
pub open spec fn althemer_dir_of(home: Seq<char>) -> Seq<char> {
    join(join(home, ".config"@), "althemer"@)
}

/// `~/.config/althemer`, or `ConfigNotFound` without a home directory.
pub fn get_althemer_config_dir(home_dir: Option<&str>) -> (r: Result<String, AppError>)
    ensures
        match home_dir {
            Some(h) => r matches Ok(p) && p@ == althemer_dir_of(h@),
            None => r matches Err(AppError::ConfigNotFound(p)) && p@ == "~/.config/althemer"@,
        },
{
    match home_dir {
        Some(h) => {
            let c = join_path(h, ".config");
            Ok(join_path(c.as_str(), "althemer"))
        },
        None => Err(AppError::ConfigNotFound(copy_str("~/.config/althemer"))),
    }
}

/// `~/.config/althemer/config.json`, or `ConfigNotFound` without a home
/// directory.
pub fn get_config_path(home_dir: Option<&str>) -> (r: Result<String, AppError>)
    ensures
        match home_dir {
            Some(h) => r matches Ok(p) && p@ == join(althemer_dir_of(h@), "config.json"@),
            None => r matches Err(AppError::ConfigNotFound(p)) && p@ == "~/.config/althemer"@,
        },
{
    match get_althemer_config_dir(home_dir) {
        Ok(d) => Ok(join_path(d.as_str(), "config.json")),
        Err(e) => Err(e),
    }
}

/// The themes directory for this layout: the custom path (with `~`
/// expanded) when given, else `themes` in Alacritty's configuration
/// directory; it must exist.
pub fn get_themes_dir<F: Fn(&str) -> bool>(
    custom_path: Option<&str>,
    home_dir: Option<&str>,
    config_dir: Option<&str>,
    path_exists: &F,
) -> (r: Result<String, AppError>)
    requires
        forall|p: &str| path_exists.requires((p,)),
    ensures
        found_dir(
            *path_exists,
            match custom_path {
                Some(_) => custom_candidate(custom_path, home_dir),
                None => match config_dir {
                    Some(d) => Some(join(alacritty_dir_of(d@), "themes"@)),
                    None => None,
                },
            },
            r,
        ),
{
    crate::config::alacritty::get_themes_dir(custom_path, home_dir, config_dir, path_exists)
}

} // verus!
