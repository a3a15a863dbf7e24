use althemer::config::{
    althemer_config_file, config_source, default_themes_dir, get_config_path, resolve_config_path, save_target, xdg_config_dir, xdg_config_home,
    AlthemerConfig, ConfigSource, SystemDirs, XDG_CONFIG_HOME_ENV,
};
use althemer::error::AppError;
use std::collections::HashSet;

const XDG: &str = "/xdg";
const HOME: &str = "/home/user";
const PLATFORM: &str = "/home/user/Library/Application Support";

fn xdg_file() -> String {
    "/xdg/althemer/config.json".to_string()
}

fn dot_config_file() -> String {
    "/home/user/.config/althemer/config.json".to_string()
}

fn platform_file() -> String {
    "/home/user/Library/Application Support/althemer/config.json".to_string()
}

fn exists_in(paths: &[String]) -> impl Fn(&str) -> bool {
    let existing: HashSet<String> = paths.iter().cloned().collect();
    move |path: &str| existing.contains(path)
}

#[test]
fn xdg_config_home_wins_when_it_exists() {
    let path = resolve_config_path(
        Some(XDG),
        Some(HOME),
        Some(PLATFORM),
        &exists_in(&[xdg_file(), dot_config_file(), platform_file()]),
    )
    .unwrap();
    assert_eq!(path, xdg_file());
}

#[test]
fn dot_config_is_used_when_xdg_is_unset() {
    let path = resolve_config_path(
        None,
        Some(HOME),
        Some(PLATFORM),
        &exists_in(&[dot_config_file(), platform_file()]),
    )
    .unwrap();
    assert_eq!(path, dot_config_file());
}

#[test]
fn dot_config_is_used_when_the_xdg_candidate_does_not_exist() {
    let path = resolve_config_path(
        Some(XDG),
        Some(HOME),
        Some(PLATFORM),
        &exists_in(&[dot_config_file()]),
    )
    .unwrap();
    assert_eq!(path, dot_config_file());
}

#[test]
fn falls_back_to_the_platform_config_dir_for_existing_installs() {
    let path = resolve_config_path(
        Some(XDG),
        Some(HOME),
        Some(PLATFORM),
        &exists_in(&[platform_file()]),
    )
    .unwrap();
    assert_eq!(path, platform_file());
}

#[test]
fn creates_in_xdg_config_home_when_nothing_exists() {
    let path =
        resolve_config_path(Some(XDG), Some(HOME), Some(PLATFORM), &exists_in(&[])).unwrap();
    assert_eq!(path, xdg_file());
}

#[test]
fn creates_in_dot_config_when_nothing_exists_and_xdg_is_unset() {
    let path = resolve_config_path(None, Some(HOME), Some(PLATFORM), &exists_in(&[])).unwrap();
    assert_eq!(path, dot_config_file());
}

#[test]
fn falls_back_to_the_platform_config_dir_without_a_home_dir() {
    let path = resolve_config_path(None, None, Some(PLATFORM), &exists_in(&[])).unwrap();
    assert_eq!(path, platform_file());
}

#[test]
fn resolves_to_nothing_without_any_candidate() {
    assert!(resolve_config_path(None, None, None, &exists_in(&[])).is_none());
}

#[test]
fn relative_xdg_config_home_is_ignored_for_existing_files() {
    let xdg = xdg_config_home(Some("relative/path"));
    let path = resolve_config_path(
        xdg.as_deref(),
        Some(HOME),
        Some(PLATFORM),
        &exists_in(&[dot_config_file()]),
    )
    .unwrap();
    assert_eq!(path, dot_config_file());
}

#[test]
fn relative_xdg_config_home_is_ignored_for_creation_target() {
    let xdg = xdg_config_home(Some("relative/path"));
    let path =
        resolve_config_path(xdg.as_deref(), Some(HOME), Some(PLATFORM), &exists_in(&[])).unwrap();
    assert_eq!(path, dot_config_file());
}

#[test]
fn empty_xdg_config_home_is_ignored() {
    let xdg = xdg_config_home(Some(""));
    assert!(xdg.is_none());
}

#[test]
fn absolute_xdg_config_home_is_kept() {
    let xdg = xdg_config_home(Some(XDG));
    assert_eq!(xdg, Some(xdg_file()));
}

#[test]
fn xdg_config_dir_names_the_directory() {
    assert_eq!(xdg_config_dir(Some(XDG)), Some(XDG.to_string()));
    assert_eq!(xdg_config_dir(Some("rel")), None);
    assert_eq!(xdg_config_dir(None), None);
    assert_eq!(xdg_config_home(None), None);
}

#[test]
fn environment_lookup_agrees_with_resolution() {
    let exists = exists_in(&[dot_config_file()]);
    let dirs = SystemDirs {
        xdg_config_home: Some(XDG.to_string()),
        home_dir: Some(HOME.to_string()),
        config_dir: Some(PLATFORM.to_string()),
    };
    let direct = resolve_config_path(
        xdg_config_dir(Some(XDG)).as_deref(),
        Some(HOME),
        Some(PLATFORM),
        &exists,
    );
    assert_eq!(get_config_path(&dirs, &exists), direct);
    assert_eq!(direct, Some(dot_config_file()));
}

#[test]
fn config_file_is_under_an_althemer_directory() {
    assert_eq!(althemer_config_file("/cfg"), "/cfg/althemer/config.json");
    assert_eq!(althemer_config_file("/cfg/"), "/cfg/althemer/config.json");
}

#[test]
fn environment_lookup_ignores_a_relative_xdg_home() {
    let dirs = SystemDirs {
        xdg_config_home: Some("relative".to_string()),
        home_dir: Some(HOME.to_string()),
        config_dir: Some(PLATFORM.to_string()),
    };
    let path = get_config_path(&dirs, &exists_in(&[platform_file()])).unwrap();
    assert_eq!(path, platform_file());
    let dirs = SystemDirs {
        xdg_config_home: Some(XDG.to_string()),
        home_dir: Some(HOME.to_string()),
        config_dir: None,
    };
    assert_eq!(get_config_path(&dirs, &exists_in(&[])).unwrap(), xdg_file());
    assert_eq!(XDG_CONFIG_HOME_ENV, "XDG_CONFIG_HOME");
}

#[test]
fn config_source_prefers_the_command_line() {
    assert_eq!(
        config_source(Some("/c.json"), Some(xdg_file()), true),
        ConfigSource::Load("/c.json".to_string())
    );
    assert_eq!(config_source(None, Some(xdg_file()), true), ConfigSource::Load(xdg_file()));
    assert_eq!(config_source(None, Some(xdg_file()), false), ConfigSource::Create(xdg_file()));
    assert_eq!(config_source(None, None, false), ConfigSource::Defaults);
}

#[test]
fn created_settings_carry_their_path_and_defaults() {
    let c = AlthemerConfig::created_at(xdg_file(), None);
    assert_eq!(c.config_path, Some(xdg_file()));
    assert!(c.show_preview);
    assert!(!c.quit_on_select);
    assert!(!c.picker_reversed);
    assert!(c.picker_sort_results);
    assert!(c.themes_dir.is_none());
    assert!(c.alacritty_config.is_none());
}

#[test]
fn completing_fills_path_and_themes_beside_alacritty_config() {
    let c = AlthemerConfig::with_defaults(None);
    let exists = exists_in(&["/cfg/alacritty/themes".to_string()]);
    let done = c.complete(None, Some(xdg_file()), Some("/cfg"), &exists).unwrap();
    assert_eq!(done.config_path, Some(xdg_file()));
    assert_eq!(done.themes_dir, Some("/cfg/alacritty/themes".to_string()));
}

#[test]
fn completing_leaves_themes_unset_when_the_directory_is_missing() {
    let c = AlthemerConfig::with_defaults(None);
    let done = c.complete(Some("/my.json"), Some(xdg_file()), Some("/cfg"), &exists_in(&[])).unwrap();
    assert_eq!(done.config_path, Some("/my.json".to_string()));
    assert_eq!(done.themes_dir, None);
}

#[test]
fn completing_without_any_alacritty_location_fails() {
    let c = AlthemerConfig::with_defaults(None);
    let r = c.complete(None, None, None, &exists_in(&[]));
    assert_eq!(r.unwrap_err(), AppError::ConfigNotFound("~/.config/alacritty".to_string()));
}

#[test]
fn completing_keeps_a_configured_themes_dir() {
    let c = AlthemerConfig::with_defaults(Some("/themes".to_string()));
    let done = c.complete(None, None, None, &exists_in(&[])).unwrap();
    assert_eq!(done.themes_dir, Some("/themes".to_string()));
    assert_eq!(done.config_path, None);
}

#[test]
fn new_passes_a_load_error_on() {
    let r = AlthemerConfig::new(
        Err(AppError::JsonParse("bad".to_string())),
        None,
        None,
        Some("/cfg"),
        &exists_in(&[]),
    );
    assert_eq!(r.unwrap_err(), AppError::JsonParse("bad".to_string()));
}

#[test]
fn new_completes_loaded_settings() {
    let mut loaded = AlthemerConfig::with_defaults(None);
    loaded.alacritty_config = Some("/etc/alacritty/alacritty.toml".to_string());
    let exists = exists_in(&["/etc/alacritty/themes".to_string()]);
    let c = AlthemerConfig::new(Ok(loaded), None, Some(xdg_file()), None, &exists).unwrap();
    assert_eq!(c.themes_dir, Some("/etc/alacritty/themes".to_string()));
    assert_eq!(c.config_path, Some(xdg_file()));
}

#[test]
fn themes_path_prefers_the_command_line() {
    let c = AlthemerConfig::with_defaults(Some("/configured".to_string()));
    assert_eq!(c.themes_path(Some("/cli")), Some("/cli".to_string()));
    assert_eq!(c.themes_path(None), Some("/configured".to_string()));
    let none = AlthemerConfig::with_defaults(None);
    assert_eq!(none.themes_path(None), None);
}

#[test]
fn configure_applies_answers() {
    let mut c = AlthemerConfig::with_defaults(None);
    c.configure("", Some("/cfg"), false, true);
    assert_eq!(c.themes_dir, Some("/cfg/alacritty/themes".to_string()));
    assert!(!c.show_preview);
    assert!(c.quit_on_select);
    c.configure("", Some("/other"), true, false);
    assert_eq!(c.themes_dir, Some("/cfg/alacritty/themes".to_string()));
    c.configure("/mine", None, true, false);
    assert_eq!(c.themes_dir, Some("/mine".to_string()));
}

#[test]
fn default_themes_dir_is_beside_the_alacritty_config_when_it_exists() {
    let exists = exists_in(&["/cfg/alacritty/themes".to_string()]);
    assert_eq!(default_themes_dir(Some("/cfg"), &exists), Some("/cfg/alacritty/themes".to_string()));
    assert_eq!(default_themes_dir(Some("/other"), &exists), None);
    assert_eq!(default_themes_dir(None, &exists), None);
}

#[test]
fn settings_are_saved_to_their_own_path_else_the_resolved_one() {
    assert_eq!(save_target(Some("/mine.json"), Some(xdg_file())).unwrap(), "/mine.json");
    assert_eq!(save_target(None, Some(xdg_file())).unwrap(), xdg_file());
    assert_eq!(
        save_target(None, None).unwrap_err(),
        AppError::ConfigurationError("Could not determine where to save configuration".to_string())
    );
}
