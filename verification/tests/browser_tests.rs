use althemer::config::AlthemerConfig;
use althemer::error::AppError;
use althemer::themes::{Theme, ThemeCategory};
use althemer::tui::{App, AppAction, InputMode, KeyCode, KeyPress};

fn no_luminance(_p: &str) -> Option<ThemeCategory> {
    None
}

fn themes(names: &[&str]) -> Vec<Theme> {
    names
        .iter()
        .map(|n| Theme::from_path(&format!("/t/{n}.toml"), &no_luminance).unwrap())
        .collect()
}

fn app(names: &[&str]) -> App {
    App::new(Ok(themes(names)), None, &AlthemerConfig::with_defaults(None))
}

fn key(code: KeyCode) -> KeyPress {
    KeyPress { code, ctrl: false, press: true }
}

fn ctrl(c: char) -> KeyPress {
    KeyPress { code: KeyCode::Char(c), ctrl: true, press: true }
}

fn ch(c: char) -> KeyPress {
    key(KeyCode::Char(c))
}

fn selected_name(a: &App) -> String {
    a.themes.items[a.themes.selected].name.clone()
}

const HEIGHT: u16 = 10;

#[test]
fn a_new_browser_shows_every_theme() {
    let a = app(&["ayu", "dracula", "nord"]);
    assert_eq!(a.themes.filtered_indices, vec![0, 1, 2]);
    assert_eq!(a.themes.selected, 0);
    assert_eq!(a.input_mode, InputMode::Normal);
    assert!(a.status_message.is_none());
    assert!(a.show_preview);
    assert!(!a.quit_on_select);
}

#[test]
fn a_new_browser_reports_missing_or_failing_themes() {
    let a = app(&[]);
    assert_eq!(a.status_message, Some("No themes found".to_string()));
    let b = App::new(
        Err(AppError::ThemesDirNotFound("/x".to_string())),
        Some("/x"),
        &AlthemerConfig::with_defaults(None),
    );
    assert_eq!(
        b.status_message,
        Some("Failed to load themes: Themes directory not found at: /x".to_string())
    );
    assert_eq!(b.custom_themes_path, Some("/x".to_string()));
    assert!(b.themes.items.is_empty());
}

#[test]
fn moving_down_asks_for_the_preview_of_the_next_theme() {
    let mut a = app(&["ayu", "dracula", "nord"]);
    let act = a.handle_key(ch('j'), HEIGHT);
    assert_eq!(act, AppAction::LoadPreview("/t/dracula.toml".to_string()));
    assert_eq!(selected_name(&a), "dracula");
    a.handle_key(key(KeyCode::Down), HEIGHT);
    assert_eq!(selected_name(&a), "nord");
    assert_eq!(a.handle_key(ch('j'), HEIGHT), AppAction::Nothing);
    assert_eq!(selected_name(&a), "nord");
}

#[test]
fn down_then_up_returns_to_the_same_theme() {
    let mut a = app(&["ayu", "dracula", "nord"]);
    a.handle_key(ch('j'), HEIGHT);
    a.handle_key(ch('k'), HEIGHT);
    assert_eq!(selected_name(&a), "ayu");
    assert_eq!(a.themes.scroll, 0);
}

#[test]
fn home_and_end_jump_to_the_ends() {
    let mut a = app(&["a", "b", "c", "d"]);
    assert_eq!(a.handle_key(ch('G'), HEIGHT), AppAction::LoadPreview("/t/d.toml".to_string()));
    assert_eq!(selected_name(&a), "d");
    a.handle_key(key(KeyCode::Home), HEIGHT);
    assert_eq!(selected_name(&a), "a");
    assert_eq!(a.themes.scroll, 0);
}

#[test]
fn paging_moves_half_a_window() {
    let names: Vec<String> = (0..20).map(|i| format!("t{i:02}")).collect();
    let refs: Vec<&str> = names.iter().map(|s| s.as_str()).collect();
    let mut a = app(&refs);
    // height 10 leaves 7 rows, so half a page is 3
    a.handle_key(ctrl('d'), HEIGHT);
    assert_eq!(selected_name(&a), "t03");
    a.handle_key(ctrl('u'), HEIGHT);
    assert_eq!(selected_name(&a), "t00");
    assert_eq!(App::visible_count(HEIGHT), 7);
    assert_eq!(App::visible_count(2), 0);
}

#[test]
fn scrolling_keeps_the_selection_visible() {
    let names: Vec<String> = (0..10).map(|i| format!("t{i}")).collect();
    let refs: Vec<&str> = names.iter().map(|s| s.as_str()).collect();
    let mut a = app(&refs);
    a.handle_key(ch('G'), 5);
    // two rows are visible
    assert_eq!(a.themes.scroll, 8);
    let (window, row) = a.visible_window(2);
    assert_eq!(window, vec!["t8".to_string(), "t9".to_string()]);
    assert_eq!(row, 1);
}

#[test]
fn filtering_keeps_matching_names() {
    let mut a = app(&["Dracula", "nord", "Gruvbox_Dark"]);
    a.handle_key(ch('/'), HEIGHT);
    assert_eq!(a.input_mode, InputMode::Filtering);
    a.handle_key(ch('D'), HEIGHT);
    a.handle_key(ch('r'), HEIGHT);
    assert_eq!(a.filter_text(), "Dr");
    assert_eq!(a.themes.filtered_indices, vec![0]);
    a.handle_key(key(KeyCode::Backspace), HEIGHT);
    assert_eq!(a.filter_text(), "D");
    assert_eq!(a.themes.filtered_indices, vec![0, 1, 2]);
}

#[test]
fn typing_a_letter_then_erasing_it_restores_the_list() {
    let mut a = app(&["ayu", "nord"]);
    a.handle_key(ch('/'), HEIGHT);
    a.handle_key(ch('z'), HEIGHT);
    assert!(a.themes.filtered_indices.is_empty());
    a.handle_key(key(KeyCode::Backspace), HEIGHT);
    assert_eq!(a.themes.filtered_indices, vec![0, 1]);
    assert_eq!(a.filter_text(), "");
}

#[test]
fn escape_clears_the_filter_and_shows_all() {
    let mut a = app(&["ayu", "nord"]);
    a.handle_key(ch('/'), HEIGHT);
    a.handle_key(ch('n'), HEIGHT);
    assert_eq!(a.themes.filtered_indices, vec![1]);
    a.handle_key(key(KeyCode::Esc), HEIGHT);
    assert_eq!(a.input_mode, InputMode::Normal);
    assert_eq!(a.themes.filtered_indices, vec![0, 1]);
    assert_eq!(a.filter_text(), "");
}

#[test]
fn control_w_deletes_the_last_word() {
    let mut a = app(&["ayu"]);
    a.handle_key(ch('/'), HEIGHT);
    for c in "ab cd  ".chars() {
        a.handle_key(ch(c), HEIGHT);
    }
    a.handle_key(ctrl('w'), HEIGHT);
    assert_eq!(a.filter_text(), "ab ");
    assert_eq!(a.character_index, 3);
    a.handle_key(ctrl('u'), HEIGHT);
    assert_eq!(a.filter_text(), "");
}

#[test]
fn the_cursor_moves_within_the_filter() {
    let mut a = app(&["ayu"]);
    a.handle_key(ch('/'), HEIGHT);
    a.handle_key(ch('a'), HEIGHT);
    a.handle_key(ch('c'), HEIGHT);
    a.handle_key(key(KeyCode::Left), HEIGHT);
    a.handle_key(ch('b'), HEIGHT);
    assert_eq!(a.filter_text(), "abc");
    a.handle_key(key(KeyCode::Right), HEIGHT);
    a.handle_key(key(KeyCode::Right), HEIGHT);
    assert_eq!(a.character_index, 3);
}

#[test]
fn released_keys_are_ignored_while_filtering() {
    let mut a = app(&["ayu"]);
    a.handle_key(ch('/'), HEIGHT);
    let released = KeyPress { code: KeyCode::Char('x'), ctrl: false, press: false };
    assert_eq!(a.handle_key(released, HEIGHT), AppAction::Nothing);
    assert_eq!(a.filter_text(), "");
}

#[test]
fn enter_applies_and_may_quit() {
    let mut a = app(&["ayu", "nord"]);
    a.handle_key(ch('j'), HEIGHT);
    assert_eq!(a.handle_key(key(KeyCode::Enter), HEIGHT), AppAction::ApplyTheme("nord".to_string()));
    assert!(!a.should_exit);
    let mut cfg = AlthemerConfig::with_defaults(None);
    cfg.quit_on_select = true;
    let mut b = App::new(Ok(themes(&["ayu"])), None, &cfg);
    assert_eq!(b.handle_key(key(KeyCode::Enter), HEIGHT), AppAction::ApplyTheme("ayu".to_string()));
    assert!(b.should_exit);
}

#[test]
fn q_and_control_c_quit() {
    let mut a = app(&["ayu"]);
    a.handle_key(ch('q'), HEIGHT);
    assert!(a.should_exit);
    let mut b = app(&["ayu"]);
    b.handle_key(ch('/'), HEIGHT);
    b.handle_key(ctrl('c'), HEIGHT);
    assert!(b.should_exit);
}

#[test]
fn paging_an_empty_list_is_flagged() {
    let a = app(&[]);
    assert!(a.key_would_panic(ctrl('d')));
    assert!(!a.key_would_panic(ch('j')));
    let b = app(&["ayu"]);
    assert!(!b.key_would_panic(ctrl('d')));
}

#[test]
fn reports_update_the_status_line() {
    let mut a = app(&["ayu"]);
    assert_eq!(a.footer_text(), Some(" /t/ayu.toml ".to_string()));
    a.theme_applied(Ok("ayu".to_string()));
    assert_eq!(a.footer_text(), Some(" Applied theme: ayu ".to_string()));
    a.theme_applied(Err("boom".to_string()));
    assert_eq!(a.status_message, Some("Failed to apply theme: boom".to_string()));
    a.preview_loaded(Err("bad toml".to_string()));
    assert_eq!(a.status_message, Some("Failed to load preview: bad toml".to_string()));
    assert!(a.themes.cached_colors.is_none());
    a.note_missing_preview();
    assert_eq!(a.status_message, Some("Failed to load preview".to_string()));
}
