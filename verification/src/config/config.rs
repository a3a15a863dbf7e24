//! A minimal settings layout: only a themes directory, stored in
//! `~/.config/althemer/config.json`.
use crate::config::alacritty::{alacritty_dir_of, custom_candidate, found_dir};
use crate::error::AppError;
use crate::text::{copy_str, join, join_path};
use vstd::prelude::*;

verus! {

/// Settings holding only a themes directory.
#[derive(Debug, Clone)]
pub struct AlthemerConfig {
    pub themes_dir: Option<String>,
}

/// Althemer's configuration directory under a home directory.
pub open spec fn althemer_dir_of(home: Seq<char>) -> Seq<char> {
    join(join(home, ".config"@), "althemer"@)
}

/// `~/.config/althemer`, or `ConfigNotFound` without a home directory.
pub fn get_althemer_config_dir(home_dir: Option<&str>) -> (r: Result<String, AppError>)
    ensures
        match home_dir {
            Some(h) => r matches Ok(p) && p@ == althemer_dir_of(h@),
            None => r matches Err(AppError::ConfigNotFound(p)) && p@ == "~/.config/althemer"@,
        },
{
    match home_dir {
        Some(h) => {
            let c = join_path(h, ".config");
            Ok(join_path(c.as_str(), "althemer"))
        },
        None => Err(AppError::ConfigNotFound(copy_str("~/.config/althemer"))),
    }
}

/// `~/.config/althemer/config.json`, or `ConfigNotFound` without a home
/// directory.
pub fn get_config_path(home_dir: Option<&str>) -> (r: Result<String, AppError>)
    ensures
        match home_dir {
            Some(h) => r matches Ok(p) && p@ == join(althemer_dir_of(h@), "config.json"@),
            None => r matches Err(AppError::ConfigNotFound(p)) && p@ == "~/.config/althemer"@,
        },
{
    match get_althemer_config_dir(home_dir) {
        Ok(d) => Ok(join_path(d.as_str(), "config.json")),
        Err(e) => Err(e),
    }
}

/// The themes directory for this layout: the custom path (with `~`
/// expanded) when given, else `themes` in Alacritty's configuration
/// directory; it must exist.
pub fn get_themes_dir<F: Fn(&str) -> bool>(
    custom_path: Option<&str>,
    home_dir: Option<&str>,
    config_dir: Option<&str>,
    path_exists: &F,
) -> (r: Result<String, AppError>)
    requires
        forall|p: &str| path_exists.requires((p,)),
    ensures
        found_dir(
            *path_exists,
            match custom_path {
                Some(_) => custom_candidate(custom_path, home_dir),
                None => match config_dir {
                    Some(d) => Some(join(alacritty_dir_of(d@), "themes"@)),
                    None => None,
                },
            },
            r,
        ),
{
    crate::config::alacritty::get_themes_dir(custom_path, home_dir, config_dir, path_exists)
}

} // verus!
