use althemer::config::alacritty::{AlacrittyConfig, GeneralConfig};
use althemer::error::AppError;
use althemer::themes::{
    background_bytes, luminance_verdict, BackgroundBytes,
    get_current_theme, get_current_theme_path, get_theme_by_name, hex_rgb, hex_to_color,
    hex_to_color_opt, hex_would_panic, list_themes, sort_themes, ColorScheme, CursorColorsHex,
    NormalColors, PrimaryColorsHex, TermColor, Theme, ThemeCategory, ThemeColors,
};
use relative_luminance::{Luminance, Rgb};
use std::collections::HashMap;

fn no_luminance(_p: &str) -> Option<ThemeCategory> {
    None
}

fn theme(path: &str) -> Theme {
    Theme::from_path(path, &no_luminance).expect("Should parse theme")
}

fn themes_in(dir: &str, names: &[&str]) -> Vec<Theme> {
    let entries: Vec<String> = names.iter().map(|n| format!("{dir}/{n}.toml")).collect();
    list_themes(&entries, &no_luminance)
}

/// The hexadecimal colour read as RGB channels in `[0, 1]`.
fn parse_hex_color(hex: &str) -> Option<Rgb<f64>> {
    let (r, g, b) = hex_rgb(hex)?;
    Some(Rgb {
        r: f64::from(r) / 255.0,
        g: f64::from(g) / 255.0,
        b: f64::from(b) / 255.0,
    })
}

/// Whether a colour looks light: relative luminance above one half.
fn is_light(r: u8, g: u8, b: u8) -> bool {
    let rgb: Rgb<f64> = Rgb { r: f64::from(r) / 255.0, g: f64::from(g) / 255.0, b: f64::from(b) / 255.0 };
    rgb.relative_luminance() > 0.5
}

/// Judges theme files by the luminance of their background, reading their
/// contents from `files`.
fn luminance_from(files: HashMap<String, String>) -> impl Fn(&str) -> Option<ThemeCategory> {
    move |path: &str| {
        let content = files.get(path)?;
        luminance_verdict(background_bytes(content), &is_light)
    }
}

fn create_theme_file(name: &str, toml_content: &str) -> Theme {
    let path = format!("/themes/{name}.toml");
    let mut files = HashMap::new();
    files.insert(path.clone(), toml_content.to_string());
    Theme::from_path(&path, &luminance_from(files)).unwrap()
}

#[test]
fn theme_from_path_extracts_name_from_filename() {
    let theme_path = "/tmp/themes/dracula.toml";
    let theme = theme(theme_path);
    assert_eq!(theme.name, "dracula");
    assert_eq!(theme.path, theme_path);
}

#[test]
fn theme_from_path_works_on_any_file() {
    let result = Theme::from_path("/tmp/x/theme.toml", &no_luminance);
    assert!(result.is_some());
    assert_eq!(result.unwrap().name, "theme");
}

#[test]
fn theme_name_preserves_original_case() {
    let theme = theme("/tmp/themes/SolarizedDark.toml");
    assert_eq!(theme.name, "SolarizedDark");
    assert_eq!(theme.name_lower, "solarizeddark");
}

#[test]
fn theme_from_path_without_a_stem_is_none() {
    assert!(Theme::from_path("/", &no_luminance).is_none());
}

#[test]
fn list_themes_filters_only_toml_files() {
    let entries = vec![
        "/tmp/d/valid.toml".to_string(),
        "/tmp/d/readme.txt".to_string(),
        "/tmp/d/config.yml".to_string(),
    ];
    let themes = list_themes(&entries, &no_luminance);
    assert_eq!(themes.len(), 1);
    assert_eq!(themes[0].name, "valid");
}

#[test]
fn list_themes_orders_by_name() {
    let themes = themes_in("/t", &["nord", "Dracula", "dracula", "ayu"]);
    let names: Vec<&str> = themes.iter().map(|t| t.name.as_str()).collect();
    assert_eq!(names, vec!["Dracula", "ayu", "dracula", "nord"]);
}

#[test]
fn sort_themes_keeps_equal_names_in_order() {
    let a = theme("/a/same.toml");
    let b = theme("/b/same.toml");
    let c = theme("/c/first.toml");
    let sorted = sort_themes(vec![a, b, c]);
    let paths: Vec<&str> = sorted.iter().map(|t| t.path.as_str()).collect();
    assert_eq!(paths, vec!["/c/first.toml", "/a/same.toml", "/b/same.toml"]);
}

#[test]
fn get_theme_by_name_exact_match() {
    let themes = themes_in("/t", &["dracula", "nord", "gruvbox"]);
    let result = get_theme_by_name("dracula", themes);
    assert!(result.is_ok());
    assert_eq!(result.unwrap().name, "dracula");
}

#[test]
fn get_theme_by_name_case_insensitive() {
    let themes = themes_in("/t", &["Dracula", "Nord"]);
    let result = get_theme_by_name("dracula", themes);
    assert!(result.is_ok());
    assert_eq!(result.unwrap().name, "Dracula");
}

#[test]
fn get_theme_by_name_not_found() {
    let themes = themes_in("/t", &["dracula"]);
    let result = get_theme_by_name("nonexistent", themes);
    assert!(result.is_err());
    let err = result.unwrap_err();
    assert!(err.message().contains("nonexistent"));
    assert_eq!(err, AppError::ThemeNotFound("nonexistent".to_string()));
}

#[test]
fn get_current_theme_finds_the_imported_theme() {
    let themes = themes_in("/t", &["dracula", "nord"]);
    let current = get_current_theme(Some("/t/nord.toml"), themes);
    assert_eq!(current.unwrap().name, "nord");
    let themes = themes_in("/t", &["dracula"]);
    assert!(get_current_theme(Some("/t/other.toml"), themes).is_none());
    let themes = themes_in("/t", &["dracula"]);
    assert!(get_current_theme(None, themes).is_none());
}

#[test]
fn current_theme_path_is_the_first_import() {
    let config = AlacrittyConfig {
        general: GeneralConfig {
            import: vec!["/t/nord.toml".to_string(), "/t/extra.toml".to_string()],
        },
        other: toml::Value::Table(toml::map::Map::new()),
    };
    assert_eq!(
        get_current_theme_path("/cfg/alacritty.toml", Some(&config)).unwrap(),
        Some("/t/nord.toml".to_string())
    );
    let empty = AlacrittyConfig {
        general: GeneralConfig { import: vec![] },
        other: toml::Value::Table(toml::map::Map::new()),
    };
    assert_eq!(get_current_theme_path("/cfg/alacritty.toml", Some(&empty)).unwrap(), None);
    assert_eq!(
        get_current_theme_path("/cfg/alacritty.toml", None).unwrap_err(),
        AppError::ConfigNotFound("/cfg/alacritty.toml".to_string())
    );
}

#[test]
fn parse_hex_color_valid() {
    let rgb = parse_hex_color("#282a36").unwrap();
    assert!((rgb.r - 0.157).abs() < 0.01);
    assert!((rgb.g - 0.165).abs() < 0.01);
    assert!((rgb.b - 0.212).abs() < 0.01);
}

#[test]
fn parse_hex_color_invalid_chars() {
    assert!(parse_hex_color("#xyz123").is_none());
}

#[test]
fn parse_hex_color_no_hash() {
    assert!(parse_hex_color("282a36").is_some());
}

#[test]
fn parse_hex_color_black() {
    let rgb = parse_hex_color("#000000").unwrap();
    assert!(rgb.r < 0.001);
    assert!(rgb.g < 0.001);
    assert!(rgb.b < 0.001);
}

#[test]
fn parse_hex_color_white() {
    let rgb = parse_hex_color("#ffffff").unwrap();
    assert!(rgb.r > 0.999);
    assert!(rgb.g > 0.999);
    assert!(rgb.b > 0.999);
}

#[test]
fn hex_rgb_reads_exact_bytes() {
    assert_eq!(hex_rgb("#282a36"), Some((0x28, 0x2a, 0x36)));
    assert_eq!(hex_rgb("  #FFfe01 "), Some((255, 254, 1)));
    assert_eq!(hex_rgb("##abcdef"), Some((0xab, 0xcd, 0xef)));
    assert_eq!(hex_rgb("abcdef99"), Some((0xab, 0xcd, 0xef)));
    assert_eq!(hex_rgb("#abc"), None);
    assert_eq!(hex_rgb(""), None);
    assert_eq!(hex_rgb("+1+2+3"), Some((1, 2, 3)));
    assert_eq!(hex_rgb("#12345g"), None);
}

#[test]
fn hex_reading_that_would_cut_a_character_is_detected() {
    assert!(hex_would_panic("#aé123456"));
    assert!(!hex_would_panic("#282a36"));
    assert!(!hex_would_panic("#xyz123"));
}

#[test]
fn hex_colors_for_the_preview() {
    assert_eq!(hex_to_color_opt("#010203"), Some(TermColor::Rgb(1, 2, 3)));
    assert_eq!(hex_to_color_opt("nope"), None);
    assert_eq!(hex_to_color("nope"), TermColor::Reset);
    assert_eq!(hex_to_color("#ff0000"), TermColor::Rgb(255, 0, 0));
}

#[test]
fn theme_colors_decode_the_scheme() {
    let scheme = ColorScheme {
        primary_hex: PrimaryColorsHex {
            background: Some("#000000".to_string()),
            foreground: None,
        },
        cursor_hex: CursorColorsHex { text: "#ffffff".to_string() },
        normal: NormalColors {
            red: "#ff0000".to_string(),
            green: "".to_string(),
            yellow: "#ffff00".to_string(),
            blue: "#0000ff".to_string(),
            magenta: "bad".to_string(),
            cyan: "#00ffff".to_string(),
        },
    };
    let colors = ThemeColors::from_scheme(scheme);
    assert_eq!(colors.background(), TermColor::Rgb(0, 0, 0));
    assert_eq!(colors.foreground(), TermColor::Reset);
    assert_eq!(colors.red(), TermColor::Rgb(255, 0, 0));
    assert_eq!(colors.green(), TermColor::Reset);
    assert_eq!(colors.yellow(), TermColor::Rgb(255, 255, 0));
    assert_eq!(colors.blue(), TermColor::Rgb(0, 0, 255));
    assert_eq!(colors.magenta(), TermColor::Reset);
    assert_eq!(colors.cyan(), TermColor::Rgb(0, 255, 255));
    assert_eq!(colors.cursor_text(), TermColor::Rgb(255, 255, 255));
}

#[test]
fn light_background_categorizes_as_light() {
    let theme = create_theme_file(
        "test_light",
        r##"
[colors.primary]
background = "#fbf1c7"
foreground = "#3c3836"
"##,
    );
    assert_eq!(theme.category, ThemeCategory::Light);
}

#[test]
fn dark_background_categorizes_as_dark() {
    let theme = create_theme_file(
        "test_dark",
        r##"
[colors.primary]
background = "#282a36"
foreground = "#f8f8f2"
"##,
    );
    assert_eq!(theme.category, ThemeCategory::Dark);
}

#[test]
fn filename_suffix_overrides_luminance() {
    let theme = create_theme_file(
        "custom_dark",
        r##"
[colors.primary]
background = "#fbf1c7"
foreground = "#3c3836"
"##,
    );
    assert_eq!(theme.category, ThemeCategory::Dark);
}

#[test]
fn no_colors_section_stays_default_dark() {
    let theme = create_theme_file(
        "broken",
        r##"
some_other_field = "value"
"##,
    );
    assert_eq!(theme.category, ThemeCategory::Dark);
}

#[test]
fn light_suffix_categorizes_as_light() {
    let theme = create_theme_file("gruvbox_light", r#""#);
    assert_eq!(theme.category, ThemeCategory::Light);
}

#[test]
fn dark_suffix_stays_dark() {
    let theme = create_theme_file("gruvbox_dark", r#""#);
    assert_eq!(theme.category, ThemeCategory::Dark);
}

#[test]
fn hyphen_suffixes_decide_too() {
    assert_eq!(theme("/t/One-Light.toml").category, ThemeCategory::Light);
    assert_eq!(theme("/t/one-dark.toml").category, ThemeCategory::Dark);
    assert_eq!(theme("/t/plain.toml").categorize_from_filename(), None);
}

#[test]
fn category_labels_and_icons() {
    assert_eq!(ThemeCategory::Dark.label(), "Dark");
    assert_eq!(ThemeCategory::Light.label(), "Light");
    assert_eq!(ThemeCategory::Dark.icon(), "⏾");
    assert_eq!(ThemeCategory::Light.icon(), "☀");
    assert_eq!(ThemeCategory::default(), ThemeCategory::Dark);
}

#[test]
fn theme_files_are_told_by_their_extension() {
    let entries = vec![
        "/d/.toml".to_string(),
        "/d/UPPER.TOML".to_string(),
        "/d/x.tar.toml".to_string(),
        "/d/dir/".to_string(),
    ];
    let themes = list_themes(&entries, &no_luminance);
    assert_eq!(themes.len(), 1);
    assert_eq!(themes[0].name, "x.tar");
}

#[test]
fn backgrounds_are_read_from_theme_text() {
    assert_eq!(
        background_bytes("[colors.primary]\nbackground = \"#282a36\"\n"),
        BackgroundBytes::Bytes(0x28, 0x2a, 0x36)
    );
    assert_eq!(background_bytes("some_other_field = \"value\"\n"), BackgroundBytes::NoBackground);
    assert_eq!(background_bytes("not toml ["), BackgroundBytes::NoBackground);
    assert_eq!(
        background_bytes("[colors.primary]\nbackground = 3\n"),
        BackgroundBytes::NoBackground
    );
    assert_eq!(
        background_bytes("[colors.primary]\nbackground = \"#xyz123\"\n"),
        BackgroundBytes::NotAColor
    );
    assert_eq!(
        background_bytes("[colors.primary]\nbackground = \"#aé123456\"\n"),
        BackgroundBytes::WouldPanic
    );
    assert_eq!(luminance_verdict(BackgroundBytes::Bytes(255, 255, 255), &is_light), Some(ThemeCategory::Light));
    assert_eq!(luminance_verdict(BackgroundBytes::Bytes(0, 0, 0), &is_light), None);
    assert_eq!(luminance_verdict(BackgroundBytes::NotAColor, &is_light), None);
}
