use althemer::cli::Shell;
use althemer::config::alacritty::{
    current_import, get_alacritty_config_dir, get_alacritty_config_path, get_themes_dir,
    themes_dir_beside, with_theme, AlacrittyConfig, GeneralConfig,
};
use althemer::config::configuration::{
    default_themes_dir, normalize_config, AlthemerConfig as PickerSettings,
};
use althemer::config::{
    config as minimal, configuration, default_picker_reversed, default_picker_sort_results,
    default_quit_on_select, default_show_preview,
};
use althemer::error::AppError;
use althemer::picker::{picked_theme, picker_items};
use althemer::switcher::switch_theme;
use althemer::downloader::downloaded_theme_names;
use althemer::text::{is_whitespace, join_path, trim_chars};
use althemer::themes::get_current_theme;
use althemer::themes::{Theme, ThemeCategory};
use std::collections::HashSet;

fn no_luminance(_p: &str) -> Option<ThemeCategory> {
    None
}

fn theme(path: &str) -> Theme {
    Theme::from_path(path, &no_luminance).unwrap()
}

fn exists_in(paths: &[&str]) -> impl Fn(&str) -> bool {
    let existing: HashSet<String> = paths.iter().map(|p| p.to_string()).collect();
    move |path: &str| existing.contains(path)
}

fn empty_table() -> toml::Value {
    toml::Value::Table(toml::map::Map::new())
}

#[test]
fn default_config_has_show_preview_true() {
    let config = PickerSettings::default();
    assert!(config.show_preview);
}

#[test]
fn picker_settings_defaults() {
    let c = PickerSettings::with_config_dir(Some("/cfg"));
    let d = PickerSettings::default();
    assert!(!d.picker_reversed);
    assert!(d.picker_sort_results);
    assert_eq!(c.themes_dir, Some("/cfg/alacritty/themes".to_string()));
    assert!(!c.picker_reversed);
    assert!(c.picker_sort_results);
    assert!(!c.quit_on_select);
    assert_eq!(default_themes_dir(None), None);
    assert!(configuration::default_show_preview());
    assert!(!configuration::default_quit_on_select());
    assert!(!configuration::default_picker_reversed());
    assert!(configuration::default_picker_sort_results());
}

#[test]
fn empty_themes_dir_becomes_none() {
    let mut c = PickerSettings::with_config_dir(None);
    c.themes_dir = Some(String::new());
    assert!(normalize_config(c).themes_dir.is_none());
    let mut d = PickerSettings::with_config_dir(None);
    d.themes_dir = Some("/x".to_string());
    assert_eq!(normalize_config(d).themes_dir, Some("/x".to_string()));
}

#[test]
fn settings_file_locations_under_home() {
    assert_eq!(
        configuration::get_config_path(Some("/home/u")).unwrap(),
        "/home/u/.config/althemer/config.json"
    );
    assert_eq!(
        configuration::get_althemer_config_dir(None).unwrap_err(),
        AppError::ConfigNotFound("~/.config/althemer".to_string())
    );
    assert_eq!(
        minimal::get_config_path(Some("/h")).unwrap(),
        "/h/.config/althemer/config.json"
    );
    assert_eq!(
        minimal::get_althemer_config_dir(Some("/h")).unwrap(),
        "/h/.config/althemer"
    );
    assert!(minimal::get_config_path(None).is_err());
}

#[test]
fn settings_defaults() {
    assert!(default_show_preview());
    assert!(!default_quit_on_select());
    assert!(!default_picker_reversed());
    assert!(default_picker_sort_results());
}

#[test]
fn alacritty_config_locations() {
    assert_eq!(get_alacritty_config_dir(Some("/cfg")).unwrap(), "/cfg/alacritty");
    assert_eq!(
        get_alacritty_config_dir(None).unwrap_err(),
        AppError::ConfigNotFound("~/.config/alacritty".to_string())
    );
    assert_eq!(
        get_alacritty_config_path(None, None, Some("/cfg")).unwrap(),
        "/cfg/alacritty/alacritty.toml"
    );
    assert_eq!(get_alacritty_config_path(Some("/a.toml"), Some("/b.toml"), None).unwrap(), "/a.toml");
    assert_eq!(get_alacritty_config_path(None, Some("/b.toml"), None).unwrap(), "/b.toml");
    assert!(get_alacritty_config_path(None, None, None).is_err());
}

#[test]
fn themes_dir_expands_the_home_directory() {
    let exists = exists_in(&["/home/u/themes", "/cfg/alacritty/themes"]);
    assert_eq!(
        get_themes_dir(Some("~/themes"), Some("/home/u"), None, &exists).unwrap(),
        "/home/u/themes"
    );
    assert_eq!(get_themes_dir(None, None, Some("/cfg"), &exists).unwrap(), "/cfg/alacritty/themes");
    assert_eq!(
        get_themes_dir(Some("/missing"), None, None, &exists).unwrap_err(),
        AppError::ThemesDirNotFound("/missing".to_string())
    );
    assert_eq!(
        get_themes_dir(Some("~other/x"), Some("/home/u"), None, &exists).unwrap_err(),
        AppError::ThemesDirNotFound("~other/x".to_string())
    );
    assert_eq!(
        get_themes_dir(None, None, None, &exists).unwrap_err(),
        AppError::ConfigNotFound("~/.config/alacritty".to_string())
    );
}

#[test]
fn themes_beside_the_alacritty_config() {
    let exists = exists_in(&["/etc/alacritty/themes"]);
    assert_eq!(
        themes_dir_beside("/etc/alacritty/alacritty.toml", &exists),
        Some("/etc/alacritty/themes".to_string())
    );
    assert_eq!(themes_dir_beside("/other/alacritty.toml", &exists), None);
    assert_eq!(themes_dir_beside("/", &exists), None);
}

#[test]
fn switching_imports_only_the_theme_and_keeps_the_rest() {
    let mut other = toml::map::Map::new();
    other.insert("font".to_string(), toml::Value::String("mono".to_string()));
    let config = AlacrittyConfig {
        general: GeneralConfig { import: vec!["/old.toml".to_string(), "/x.toml".to_string()] },
        other: toml::Value::Table(other.clone()),
    };
    let t = theme("/t/nord.toml");
    let switched = switch_theme(config, &t);
    assert_eq!(switched.general.import, vec!["/t/nord.toml".to_string()]);
    assert_eq!(switched.other, toml::Value::Table(other));
    assert_eq!(current_import(&switched), Some("/t/nord.toml".to_string()));
    let again = with_theme(switched, "/t/ayu.toml");
    assert_eq!(current_import(&again), Some("/t/ayu.toml".to_string()));
    let none = AlacrittyConfig { general: GeneralConfig { import: vec![] }, other: empty_table() };
    assert_eq!(current_import(&none), None);
}

#[test]
fn picker_lines_mark_the_current_theme() {
    let themes = vec![theme("/t/ayu.toml"), theme("/t/one_light.toml")];
    let items = picker_items(&themes, Some(&themes[1]));
    assert_eq!(items, vec!["⏾ ayu".to_string(), "☀ one_light ●".to_string()]);
    let plain = picker_items(&themes, None);
    assert_eq!(plain, vec!["⏾ ayu".to_string(), "☀ one_light".to_string()]);
}

#[test]
fn a_picked_line_names_its_theme() {
    let themes = vec![theme("/t/ayu.toml"), theme("/t/one_light.toml")];
    assert_eq!(picked_theme(&themes, "☀ one_light ●").unwrap().path, "/t/one_light.toml");
    assert_eq!(picked_theme(&themes, "⏾ ayu").unwrap().name, "ayu");
    assert!(picked_theme(&themes, "⏾ nord").is_none());
}

#[test]
fn a_picked_name_shared_by_two_themes_is_the_last() {
    let themes = vec![theme("/a/same.toml"), theme("/b/same.toml")];
    assert_eq!(picked_theme(&themes, "⏾ same").unwrap().path, "/b/same.toml");
}

#[test]
fn completion_file_names() {
    assert_eq!(Shell::Bash.file_name("althemer"), "althemer.bash");
    assert_eq!(Shell::Elvish.file_name("althemer"), "althemer.elv");
    assert_eq!(Shell::Fish.file_name("althemer"), "althemer.fish");
    assert_eq!(Shell::PowerShell.file_name("althemer"), "_althemer.ps1");
    assert_eq!(Shell::Zsh.file_name("althemer"), "_althemer");
}

#[test]
fn error_messages() {
    assert_eq!(
        AppError::ThemeNotFound("x".to_string()).message(),
        "Theme not found: x"
    );
    assert_eq!(AppError::NoTerminal.message(), "Interactive mode requires a terminal");
    assert_eq!(
        AppError::InvalidRepoUrl("u".to_string()).message(),
        "Invalid repository URL: u"
    );
    assert_eq!(AppError::Download("d".to_string()).message(), "Download failed: d");
}

#[test]
fn text_helpers_follow_std() {
    let t = theme("/t/ÀbC.toml");
    assert_eq!(t.name, "ÀbC");
    assert_eq!(t.name_lower, "àbc");
    assert_eq!(
        downloaded_theme_names(&vec!["/a/b.tar.gz".to_string(), "/".to_string()]).unwrap(),
        vec!["b.tar".to_string()]
    );
    let themes = vec![theme("/t/ayu.toml"), theme("/t/nord.toml")];
    assert_eq!(get_current_theme(Some("/t//nord.toml"), themes).unwrap().name, "nord");
    let themes = vec![theme("/t/ayu.toml")];
    assert!(get_current_theme(Some("/t/ayu.tom"), themes).is_none());
    assert_eq!(join_path("/a", "b"), "/a/b");
    assert_eq!(join_path("/a/", "b"), "/a/b");
    assert_eq!(join_path("/a", "/b"), "/b");
    assert_eq!(join_path("", "b"), "b");
    let t: String = trim_chars(&" \t x y \n".chars().collect::<Vec<_>>()).into_iter().collect();
    assert_eq!(t, "x y");
}

#[test]
fn whitespace_agrees_with_std() {
    for u in 0u32..0x3100 {
        if let Some(c) = char::from_u32(u) {
            assert_eq!(is_whitespace(c), c.is_whitespace(), "{u:x}");
        }
    }
    for c in ['\u{feff}', '\u{200b}', 'a'] {
        assert_eq!(is_whitespace(c), c.is_whitespace());
    }
}

#[test]
fn other_layouts_look_for_themes_beside_the_alacritty_config() {
    let exists = exists_in(&["/cfg/alacritty/themes", "/h/t"]);
    assert_eq!(
        minimal::get_themes_dir(None, None, Some("/cfg"), &exists).unwrap(),
        "/cfg/alacritty/themes"
    );
    assert_eq!(
        configuration::get_themes_dir(None, None, Some("/cfg"), &exists).unwrap(),
        "/cfg/alacritty/themes"
    );
    assert_eq!(
        minimal::get_themes_dir(Some("~/t"), Some("/h"), None, &exists).unwrap(),
        "/h/t"
    );
    let none = exists_in(&[]);
    assert_eq!(
        minimal::get_themes_dir(None, None, Some("/cfg"), &none).unwrap_err(),
        AppError::ThemesDirNotFound("/cfg/alacritty/themes".to_string())
    );
    assert_eq!(
        configuration::get_themes_dir(None, None, None, &none).unwrap_err(),
        AppError::ConfigNotFound("~/.config/alacritty".to_string())
    );
}

#[test]
fn switching_then_reading_the_current_theme_gives_it_back() {
    let themes = vec![theme("/t/ayu.toml"), theme("/t/nord.toml"), theme("/t/zen.toml")];
    let config = AlacrittyConfig { general: GeneralConfig { import: vec![] }, other: empty_table() };
    let switched = switch_theme(config, &themes[1]);
    let path = althemer::themes::get_current_theme_path("/cfg/alacritty.toml", Some(&switched))
        .unwrap()
        .unwrap();
    let current = get_current_theme(Some(&path), themes).unwrap();
    assert_eq!(current.name, "nord");
}

#[test]
fn a_name_ending_in_the_dot_is_read_back() {
    let themes = vec![theme("/t/a●.toml"), theme("/t/b.toml")];
    let items = picker_items(&themes, Some(&themes[0]));
    assert_eq!(items[0], "⏾ a● ●");
    assert_eq!(picked_theme(&themes, &items[0]).unwrap().name, "a●");
    let plain = picker_items(&themes, None);
    assert_eq!(picked_theme(&themes, &plain[0]).unwrap().name, "a●");
}
