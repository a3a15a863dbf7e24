//! The interactive theme browser as a state machine: keys move the selection,
//! scroll the list and edit the filter; the actions it asks for (load a
//! preview, apply a theme) are carried out by the caller, which reports back.

use crate::config::AlthemerConfig;
use crate::error::{error_message, AppError};
use crate::seqs::{first_match, lemma_first_match_found, lemma_first_match_none, lemma_first_match_props};
use crate::text::{
    chars_contain, chars_of, concat, concat3, has_infix, is_whitespace, is_ws, lowercase_chars,
    str_lowercase, string_of,
};
use crate::themes::{Theme, ThemeColors};
use vstd::prelude::*;

verus! {

/// Whether keys move the selection or edit the filter.
#[derive(Debug, Clone, Copy, PartialEq, Eq, Structural)]
pub enum InputMode {
    Normal,
    Filtering,
}

/// The keys the browser tells apart.
#[derive(Debug, Clone, Copy, PartialEq, Eq, Structural)]
pub enum KeyCode {
    Char(char),
    Up,
    Down,
    Left,
    Right,
    Home,
    End,
    PageUp,
    PageDown,
    Enter,
    Esc,
    Backspace,
    Other,
}

/// A key event: the key, whether Control was held, and whether the key was
/// pressed (rather than repeated or released).
#[derive(Debug, Clone, Copy, PartialEq, Eq, Structural)]
pub struct KeyPress {
    pub code: KeyCode,
    pub ctrl: bool,
    pub press: bool,
}

/// What the browser asks its caller to do after a step.
#[derive(Debug, Clone, PartialEq, Eq)]
pub enum AppAction {
    /// Nothing to do.
    Nothing,
    /// Read the colours of the theme file at this path for the preview, and
    /// report with [`App::preview_loaded`].
    LoadPreview(String),
    /// Make the theme with this name the active one, and report with
    /// [`App::theme_applied`].
    ApplyTheme(String),
}

/// The themes shown, the filtered positions, the selection and scrolling.
pub struct ThemesList {
    pub items: Vec<Theme>,
    pub filtered_indices: Vec<usize>,
    pub selected: usize,
    pub scroll: usize,
    pub cached_colors: Option<ThemeColors>,
}

/// The browser's state.
pub struct App {
    pub should_exit: bool,
    pub themes: ThemesList,
    pub status_message: Option<String>,
    pub custom_themes_path: Option<String>,
    pub input_mode: InputMode,
    pub filter_input: String,
    pub character_index: usize,
    pub show_preview: bool,
    pub quit_on_select: bool,
}

/// The browser's state as values.
#[verifier::ext_equal]
pub struct AppView {
    pub should_exit: bool,
    pub items: Seq<Theme>,
    pub filtered: Seq<usize>,
    pub selected: usize,
    pub scroll: usize,
    pub cached: Option<ThemeColors>,
    pub status: Option<Seq<char>>,
    pub custom_path: Option<Seq<char>>,
    pub mode: InputMode,
    pub filter: Seq<char>,
    pub cursor: usize,
    pub show_preview: bool,
    pub quit_on_select: bool,
}

/// The characters of an optional string.
pub open spec fn opt_chars(s: Option<String>) -> Option<Seq<char>> {
    match s {
        Some(t) => Some(t@),
        None => None,
    }
}

impl View for App {
    type V = AppView;

    open spec fn view(&self) -> AppView {
        AppView {
            should_exit: self.should_exit,
            items: self.themes.items@,
            filtered: self.themes.filtered_indices@,
            selected: self.themes.selected,
            scroll: self.themes.scroll,
            cached: self.themes.cached_colors,
            status: opt_chars(self.status_message),
            custom_path: opt_chars(self.custom_themes_path),
            mode: self.input_mode,
            filter: self.filter_input@,
            cursor: self.character_index,
            show_preview: self.show_preview,
            quit_on_select: self.quit_on_select,
        }
    }
}

// ---------------------------------------------------------------------------
// The model
// ---------------------------------------------------------------------------

/// `a - b`, or zero when `b` is larger.
pub open spec fn sat_sub(a: int, b: int) -> int {
    if a >= b {
        a - b
    } else {
        0
    }
}

/// The smaller of `a` and `b`.
pub open spec fn min(a: int, b: int) -> int {
    if a <= b {
        a
    } else {
        b
    }
}

/// How many list rows fit in a window of the given height: one row goes to
/// the footer and two to the list's borders.
pub open spec fn visible_rows(height: u16) -> int {
    sat_sub(height as int, 3)
}

/// The filter as it is matched: lower case, or empty.
pub open spec fn lowered_filter(filter: Seq<char>) -> Seq<char> {
    if filter.len() == 0 {
        Seq::empty()
    } else {
        str_lowercase(filter)
    }
}

/// The theme's lower-case name contains the lower-case filter `lf`.
pub open spec fn name_matches(t: Theme, lf: Seq<char>) -> bool {
    has_infix(str_lowercase(t.name@), lf)
}

/// The positions among the first `n` themes whose names match `lf`, in order.
pub open spec fn matching(items: Seq<Theme>, lf: Seq<char>, n: int) -> Seq<usize>
    decreases n,
{
    if n <= 0 {
        Seq::empty()
    } else if name_matches(items[n - 1], lf) {
        matching(items, lf, n - 1).push((n - 1) as usize)
    } else {
        matching(items, lf, n - 1)
    }
}

/// The positions of the themes the filter lets through: all of them when the
/// filter is empty, else those whose lower-case name contains the lower-case
/// filter.
pub open spec fn filtered_for(items: Seq<Theme>, filter: Seq<char>) -> Seq<usize> {
    let lf = lowered_filter(filter);
    if lf.len() == 0 {
        Seq::new(items.len(), |i: int| i as usize)
    } else {
        matching(items, lf, items.len() as int)
    }
}

/// The test for being `x`.
pub open spec fn equal_to(x: usize) -> spec_fn(usize) -> bool {
    |y: usize| y == x
}

/// The position of `x` in `f`, or zero when it is absent.
pub open spec fn position(f: Seq<usize>, x: usize) -> int {
    match first_match(f, equal_to(x)) {
        Some(i) => i,
        None => 0,
    }
}

/// The position of the selected theme among the filtered ones.
pub open spec fn selected_pos(v: AppView) -> int {
    position(v.filtered, v.selected)
}

/// The state is consistent: the cursor is within the filter, the filtered
/// positions are those the filter lets through, the selection is among them
/// (or zero when none is), and the list is not scrolled past its end.
pub open spec fn wf(v: AppView) -> bool {
    &&& v.items.len() <= usize::MAX
    &&& v.cursor <= v.filter.len()
    &&& v.filtered == filtered_for(v.items, v.filter)
    &&& v.filtered.len() > 0 ==> v.filtered.contains(v.selected)
    &&& v.filtered.len() == 0 ==> v.selected == 0
    &&& v.scroll <= v.filtered.len()
}

/// The state after asking to quit.
pub open spec fn exited(v: AppView) -> AppView {
    AppView { should_exit: true, ..v }
}

/// The preview follows the selection: a load is asked for the selected
/// theme, or the preview is dropped when nothing is selected.
pub open spec fn refreshed(v: AppView) -> (AppView, AppAction) {
    if v.selected < v.items.len() {
        (v, AppAction::LoadPreview(v.items[v.selected as int].path))
    } else {
        (AppView { cached: None, ..v }, AppAction::Nothing)
    }
}

/// The scroll offset that keeps the selection visible.
pub open spec fn scroll_for(v: AppView, height: u16) -> usize {
    let vis = visible_rows(height);
    let len = v.filtered.len() as int;
    let max = sat_sub(len, vis);
    let pos = selected_pos(v);
    let s = if pos < v.scroll {
        pos
    } else if pos >= v.scroll + vis {
        min(sat_sub(pos + 1, vis), max)
    } else {
        v.scroll as int
    };
    min(s, max) as usize
}

/// The state scrolled so that the selection is visible.
pub open spec fn adjusted(v: AppView, height: u16) -> AppView {
    AppView { scroll: scroll_for(v, height), ..v }
}

/// Selects the theme at position `k` of the filtered list and refreshes the
/// preview.
pub open spec fn select_at(v: AppView, k: int) -> (AppView, AppAction) {
    refreshed(AppView { selected: v.filtered[k], ..v })
}

/// Moves the selection one theme down.
pub open spec fn select_next(v: AppView, height: u16) -> (AppView, AppAction) {
    let pos = selected_pos(v);
    if pos + 1 < v.filtered.len() {
        let (w, a) = select_at(v, pos + 1);
        (adjusted(w, height), a)
    } else {
        (v, AppAction::Nothing)
    }
}

/// Moves the selection one theme up.
pub open spec fn select_previous(v: AppView) -> (AppView, AppAction) {
    let pos = selected_pos(v);
    if pos > 0 {
        let (w, a) = select_at(v, pos - 1);
        if pos - 1 < v.scroll {
            (AppView { scroll: (pos - 1) as usize, ..w }, a)
        } else {
            (w, a)
        }
    } else {
        (v, AppAction::Nothing)
    }
}

/// Moves the selection half a page down.
pub open spec fn page_down(v: AppView, height: u16) -> (AppView, AppAction) {
    let half = visible_rows(height) / 2;
    let len = v.filtered.len() as int;
    let new_pos = min(selected_pos(v) + half, len - 1);
    let (w, a) = select_at(v, new_pos);
    (AppView { scroll: min(sat_sub(new_pos + 1, half), sat_sub(len, visible_rows(height))) as usize, ..w }, a)
}

/// Moves the selection half a page up.
pub open spec fn page_up(v: AppView, height: u16) -> (AppView, AppAction) {
    let half = visible_rows(height) / 2;
    let len = v.filtered.len() as int;
    let new_pos = sat_sub(selected_pos(v), half);
    let (w, a) = select_at(v, new_pos);
    (AppView { scroll: min(new_pos, sat_sub(len, visible_rows(height))) as usize, ..w }, a)
}

/// Selects the first theme of the list.
pub open spec fn select_first(v: AppView) -> (AppView, AppAction) {
    if v.filtered.len() > 0 {
        let (w, a) = select_at(v, 0);
        (AppView { scroll: 0, ..w }, a)
    } else {
        (v, AppAction::Nothing)
    }
}

/// Selects the last theme of the list.
pub open spec fn select_last(v: AppView, height: u16) -> (AppView, AppAction) {
    if v.filtered.len() > 0 {
        let (w, a) = select_at(v, v.filtered.len() - 1);
        (adjusted(w, height), a)
    } else {
        (v, AppAction::Nothing)
    }
}

/// Recomputes the filtered list; when the selection is filtered out, the
/// first remaining theme (or position zero) is selected and the preview
/// refreshed; then the list is scrolled to the selection.
pub open spec fn apply_filter(v: AppView, height: u16) -> (AppView, AppAction) {
    let f = filtered_for(v.items, v.filter);
    let w = AppView { filtered: f, ..v };
    if f.contains(v.selected) {
        (adjusted(w, height), AppAction::Nothing)
    } else {
        let first = if f.len() > 0 {
            f[0]
        } else {
            0usize
        };
        let (x, a) = refreshed(AppView { selected: first, ..w });
        (adjusted(x, height), a)
    }
}

/// The filter emptied and the cursor at its start.
pub open spec fn cleared(v: AppView) -> AppView {
    AppView { filter: Seq::empty(), cursor: 0, ..v }
}

/// The cursor one character to the left, if there is one.
pub open spec fn moved_left(v: AppView) -> AppView {
    AppView { cursor: min(sat_sub(v.cursor as int, 1), v.filter.len() as int) as usize, ..v }
}

/// The cursor one character to the right, if there is one.
pub open spec fn moved_right(v: AppView) -> AppView {
    let next = if v.cursor == usize::MAX {
        usize::MAX as int
    } else {
        v.cursor + 1
    };
    AppView { cursor: min(next, v.filter.len() as int) as usize, ..v }
}

/// Types `c` at the cursor.
pub open spec fn enter_char(v: AppView, c: char, height: u16) -> (AppView, AppAction) {
    apply_filter(moved_right(AppView { filter: v.filter.insert(v.cursor as int, c), ..v }), height)
}

/// Deletes the character before the cursor.
pub open spec fn delete_char(v: AppView, height: u16) -> (AppView, AppAction) {
    if v.cursor != 0 {
        let f = v.filter.take(v.cursor - 1) + v.filter.skip(v.cursor as int);
        apply_filter(moved_left(AppView { filter: f, ..v }), height)
    } else {
        (v, AppAction::Nothing)
    }
}

/// Moves left from `p` over whitespace.
pub open spec fn back_over_space(s: Seq<char>, p: int) -> int
    decreases p,
{
    if p > 0 && is_ws(s[p - 1]) {
        back_over_space(s, p - 1)
    } else {
        p
    }
}

/// Moves left from `p` over non-whitespace.
pub open spec fn back_over_word(s: Seq<char>, p: int) -> int
    decreases p,
{
    if p > 0 && !is_ws(s[p - 1]) {
        back_over_word(s, p - 1)
    } else {
        p
    }
}

/// Where the word before `p` starts, once whitespace before `p` is skipped.
pub open spec fn word_start(s: Seq<char>, p: int) -> int {
    back_over_word(s, back_over_space(s, p))
}

/// Deletes the word before the cursor, with the whitespace after it.
pub open spec fn delete_word(v: AppView, height: u16) -> (AppView, AppAction) {
    if v.cursor == 0 {
        (v, AppAction::Nothing)
    } else {
        let pos = word_start(v.filter, v.cursor as int);
        let f = v.filter.take(pos) + v.filter.skip(v.cursor as int);
        apply_filter(AppView { filter: f, cursor: pos as usize, ..v }, height)
    }
}

/// Applies the selected theme, and quits when configured to.
pub open spec fn confirm(v: AppView) -> (AppView, AppAction) {
    if v.selected < v.items.len() {
        (
            AppView { should_exit: if v.quit_on_select { true } else { v.should_exit }, ..v },
            AppAction::ApplyTheme(v.items[v.selected as int].name),
        )
    } else {
        (v, AppAction::Nothing)
    }
}

/// `key` is the character `c`.
pub open spec fn is_char(key: KeyPress, c: char) -> bool {
    key.code == KeyCode::Char(c)
}

/// `key` is Control with the character `c`.
pub open spec fn is_ctrl(key: KeyPress, c: char) -> bool {
    key.ctrl && is_char(key, c)
}

/// The key pages down in normal mode.
pub open spec fn pages_down(key: KeyPress) -> bool {
    key.ctrl && (key.code == KeyCode::PageDown || is_char(key, 'd'))
}

/// The key pages up in normal mode.
pub open spec fn pages_up(key: KeyPress) -> bool {
    key.ctrl && (key.code == KeyCode::PageUp || is_char(key, 'u'))
}

/// Paging through an empty list indexes past its end, which panics.
pub open spec fn key_panics(v: AppView, key: KeyPress) -> bool {
    &&& v.mode == InputMode::Normal
    &&& v.filtered.len() == 0
    &&& !is_char(key, 'q') && !is_char(key, 'j') && !is_char(key, 'n') && !is_char(key, 'k')
        && !is_char(key, 'p') && !is_char(key, 'c')
    &&& pages_down(key) || pages_up(key)
}

/// What a key does in normal mode.
pub open spec fn normal_step(v: AppView, key: KeyPress, height: u16) -> (AppView, AppAction) {
    if is_char(key, 'q') {
        (exited(v), AppAction::Nothing)
    } else if is_char(key, 'j') || key.code == KeyCode::Down {
        select_next(v, height)
    } else if is_ctrl(key, 'n') {
        select_next(v, height)
    } else if is_char(key, 'k') || key.code == KeyCode::Up {
        select_previous(v)
    } else if is_ctrl(key, 'p') {
        select_previous(v)
    } else if is_ctrl(key, 'c') {
        (exited(v), AppAction::Nothing)
    } else if pages_down(key) {
        page_down(v, height)
    } else if pages_up(key) {
        page_up(v, height)
    } else if is_char(key, 'g') || key.code == KeyCode::Home {
        select_first(v)
    } else if is_char(key, 'G') || key.code == KeyCode::End {
        select_last(v, height)
    } else if is_char(key, '/') {
        apply_filter(
            AppView { mode: InputMode::Filtering, cursor: v.filter.len() as usize, ..v },
            height,
        )
    } else if key.code == KeyCode::Esc {
        if v.filter.len() > 0 {
            apply_filter(cleared(v), height)
        } else {
            (v, AppAction::Nothing)
        }
    } else if key.code == KeyCode::Enter {
        confirm(v)
    } else {
        (v, AppAction::Nothing)
    }
}

/// What a key does while the filter is edited.
pub open spec fn filtering_step(v: AppView, key: KeyPress, height: u16) -> (AppView, AppAction) {
    if !key.press {
        (v, AppAction::Nothing)
    } else if is_ctrl(key, 'c') {
        (exited(v), AppAction::Nothing)
    } else if key.code == KeyCode::Enter {
        (AppView { mode: InputMode::Normal, ..v }, AppAction::Nothing)
    } else if is_ctrl(key, 'u') {
        apply_filter(cleared(v), height)
    } else if is_ctrl(key, 'w') {
        delete_word(v, height)
    } else if key.code is Char {
        enter_char(v, key.code->Char_0, height)
    } else if key.code == KeyCode::Backspace {
        delete_char(v, height)
    } else if key.code == KeyCode::Left {
        (moved_left(v), AppAction::Nothing)
    } else if key.code == KeyCode::Right {
        (moved_right(v), AppAction::Nothing)
    } else if key.code == KeyCode::Esc {
        apply_filter(AppView { mode: InputMode::Normal, ..cleared(v) }, height)
    } else {
        (v, AppAction::Nothing)
    }
}

/// What a key does.
pub open spec fn step(v: AppView, key: KeyPress, height: u16) -> (AppView, AppAction) {
    match v.mode {
        InputMode::Normal => normal_step(v, key, height),
        InputMode::Filtering => filtering_step(v, key, height),
    }
}

// ---------------------------------------------------------------------------
// Consistency
// ---------------------------------------------------------------------------

proof fn lemma_position_bound(f: Seq<usize>, x: usize)
    ensures
        f.len() > 0 ==> 0 <= position(f, x) < f.len(),
        f.len() == 0 ==> position(f, x) == 0,
{
    lemma_first_match_props(f, equal_to(x));
}

proof fn lemma_refreshed(v: AppView)
    ensures
        refreshed(v).0 == (AppView { cached: refreshed(v).0.cached, ..v }),
{
    assert(refreshed(v).0 =~= (AppView { cached: refreshed(v).0.cached, ..v }));
}

proof fn lemma_matching_len(items: Seq<Theme>, lf: Seq<char>, n: int)
    ensures
        matching(items, lf, n).len() <= if n < 0 { 0 } else { n },
    decreases n,
{
    if n > 0 {
        lemma_matching_len(items, lf, n - 1);
    }
}

proof fn lemma_scroll_for_bound(v: AppView, height: u16)
    ensures
        scroll_for(v, height) <= v.filtered.len(),
{
    lemma_position_bound(v.filtered, v.selected);
}

proof fn lemma_apply_filter_wf(v: AppView, height: u16)
    requires
        v.items.len() <= usize::MAX,
        v.cursor <= v.filter.len(),
    ensures
        wf(apply_filter(v, height).0),
        apply_filter(v, height).0.filter == v.filter,
        apply_filter(v, height).0.cursor == v.cursor,
        apply_filter(v, height).0.mode == v.mode,
        apply_filter(v, height).0.should_exit == v.should_exit,
{
    let f = filtered_for(v.items, v.filter);
    let w = AppView { filtered: f, ..v };
    if f.contains(v.selected) {
        lemma_scroll_for_bound(w, height);
    } else {
        let first = if f.len() > 0 {
            f[0]
        } else {
            0usize
        };
        let x = refreshed(AppView { selected: first, ..w }).0;
        lemma_refreshed(AppView { selected: first, ..w });
        lemma_scroll_for_bound(x, height);
        if f.len() > 0 {
            assert(f.contains(f[0]));
        }
    }
}

proof fn lemma_select_at_wf(v: AppView, k: int)
    requires
        wf(v),
        0 <= k < v.filtered.len(),
    ensures
        wf(select_at(v, k).0),
        select_at(v, k).0 == (AppView {
            selected: v.filtered[k],
            cached: select_at(v, k).0.cached,
            ..v
        }),
{
    lemma_refreshed(AppView { selected: v.filtered[k], ..v });
    assert(v.filtered.contains(v.filtered[k]));
}

proof fn lemma_step_wf(v: AppView, key: KeyPress, height: u16)
    requires
        wf(v),
        !key_panics(v, key),
    ensures
        wf(step(v, key, height).0),
{
    lemma_position_bound(v.filtered, v.selected);
    let pos = selected_pos(v);
    let len = v.filtered.len() as int;
    if v.mode == InputMode::Normal {
        if is_char(key, 'q') {
        } else if is_char(key, 'j') || key.code == KeyCode::Down || is_ctrl(key, 'n') {
            if pos + 1 < len {
                lemma_select_at_wf(v, pos + 1);
                lemma_scroll_for_bound(select_at(v, pos + 1).0, height);
            }
        } else if is_char(key, 'k') || key.code == KeyCode::Up || is_ctrl(key, 'p') {
            if pos > 0 {
                lemma_select_at_wf(v, pos - 1);
            }
        } else if is_ctrl(key, 'c') {
        } else if pages_down(key) {
            let half = visible_rows(height) / 2;
            let new_pos = min(pos + half, len - 1);
            lemma_select_at_wf(v, new_pos);
        } else if pages_up(key) {
            let half = visible_rows(height) / 2;
            let new_pos = sat_sub(pos, half);
            lemma_select_at_wf(v, new_pos);
        } else if is_char(key, 'g') || key.code == KeyCode::Home {
            if len > 0 {
                lemma_select_at_wf(v, 0);
            }
        } else if is_char(key, 'G') || key.code == KeyCode::End {
            if len > 0 {
                lemma_select_at_wf(v, len - 1);
                lemma_scroll_for_bound(select_at(v, len - 1).0, height);
            }
        } else if is_char(key, '/') {
            lemma_apply_filter_wf(
                AppView { mode: InputMode::Filtering, cursor: v.filter.len() as usize, ..v },
                height,
            );
        } else if key.code == KeyCode::Esc {
            if v.filter.len() > 0 {
                lemma_apply_filter_wf(cleared(v), height);
            }
        } else if key.code == KeyCode::Enter {
        }
    } else if !key.press {
    } else if is_ctrl(key, 'c') {
    } else if key.code == KeyCode::Enter {
    } else if is_ctrl(key, 'u') {
        lemma_apply_filter_wf(cleared(v), height);
    } else if is_ctrl(key, 'w') {
        if v.cursor != 0 {
            let pos = word_start(v.filter, v.cursor as int);
            lemma_word_start_bound(v.filter, v.cursor as int);
            let f = v.filter.take(pos) + v.filter.skip(v.cursor as int);
            lemma_apply_filter_wf(AppView { filter: f, cursor: pos as usize, ..v }, height);
        }
    } else if key.code is Char {
        let c = key.code->Char_0;
        let w = moved_right(AppView { filter: v.filter.insert(v.cursor as int, c), ..v });
        lemma_apply_filter_wf(w, height);
    } else if key.code == KeyCode::Backspace {
        if v.cursor != 0 {
            let f = v.filter.take(v.cursor - 1) + v.filter.skip(v.cursor as int);
            lemma_apply_filter_wf(moved_left(AppView { filter: f, ..v }), height);
        }
    } else if key.code == KeyCode::Left {
    } else if key.code == KeyCode::Right {
    } else if key.code == KeyCode::Esc {
        lemma_apply_filter_wf(AppView { mode: InputMode::Normal, ..cleared(v) }, height);
    }
}

proof fn lemma_back_over_space_bound(s: Seq<char>, p: int)
    requires
        0 <= p,
    ensures
        0 <= back_over_space(s, p) <= p,
    decreases p,
{
    if p > 0 && is_ws(s[p - 1]) {
        lemma_back_over_space_bound(s, p - 1);
    }
}

proof fn lemma_back_over_word_bound(s: Seq<char>, p: int)
    requires
        0 <= p,
    ensures
        0 <= back_over_word(s, p) <= p,
    decreases p,
{
    if p > 0 && !is_ws(s[p - 1]) {
        lemma_back_over_word_bound(s, p - 1);
    }
}

proof fn lemma_word_start_bound(s: Seq<char>, p: int)
    requires
        0 <= p,
    ensures
        0 <= word_start(s, p) <= p,
{
    lemma_back_over_space_bound(s, p);
    lemma_back_over_word_bound(s, back_over_space(s, p));
}

proof fn lemma_matching_bound(items: Seq<Theme>, lf: Seq<char>, n: int)
    requires
        n <= items.len() <= usize::MAX,
    ensures
        forall|k: int|
            0 <= k < matching(items, lf, n).len() ==> #[trigger] matching(items, lf, n)[k] < n,
    decreases n,
{
    if n > 0 {
        lemma_matching_bound(items, lf, n - 1);
        let prev = matching(items, lf, n - 1);
        let cur = matching(items, lf, n);
        if name_matches(items[n - 1], lf) {
            assert(cur == prev.push((n - 1) as usize));
            assert forall|k: int| 0 <= k < cur.len() implies #[trigger] cur[k] < n by {
                if k < prev.len() {
                    assert(cur[k] == prev[k]);
                }
            }
        }
    }
}

/// Every filtered position names a theme.
proof fn lemma_filtered_bound(items: Seq<Theme>, filter: Seq<char>)
    requires
        items.len() <= usize::MAX,
    ensures
        forall|k: int|
            0 <= k < filtered_for(items, filter).len() ==> #[trigger] filtered_for(
                items,
                filter,
            )[k] < items.len(),
{
    let lf = lowered_filter(filter);
    if lf.len() != 0 {
        lemma_matching_bound(items, lf, items.len() as int);
    }
}

// ---------------------------------------------------------------------------
// What is shown
// ---------------------------------------------------------------------------

/// The left part of the footer: the status message, else the path of the
/// selected theme, padded with a space on each side.
pub open spec fn footer_text(v: AppView) -> Option<Seq<char>> {
    match v.status {
        Some(m) => Some(" "@ + m + " "@),
        None => if v.selected < v.items.len() {
            Some(" "@ + v.items[v.selected as int].path@ + " "@)
        } else {
            None
        },
    }
}

/// The names in the list window of `rows` rows starting at the scroll offset.
pub open spec fn window_names(v: AppView, rows: int) -> Seq<Seq<char>> {
    let start = v.scroll as int;
    let end = min(start + rows, v.filtered.len() as int);
    Seq::new(
        sat_sub(end, start) as nat,
        |k: int| v.items[v.filtered[start + k] as int].name@,
    )
}

/// The row of the window that holds the selection.
pub open spec fn window_row(v: AppView) -> int {
    sat_sub(selected_pos(v), v.scroll as int)
}

// ---------------------------------------------------------------------------
// The machine
// ---------------------------------------------------------------------------

/// The number of characters of `s`.
fn char_count(s: &String) -> (n: usize)
    ensures
        n == s@.len(),
{
    chars_of(s.as_str()).len()
}

/// Whether `x` is among `v`.
fn contains_index(v: &Vec<usize>, x: usize) -> (r: bool)
    ensures
        r == v@.contains(x),
{
    let mut i: usize = 0;
    while i < v.len()
        invariant
            i <= v@.len(),
            forall|j: int| 0 <= j < i ==> v@[j] != x,
        decreases v@.len() - i,
    {
        if v[i] == x {
            assert(v@[i as int] == x);
            return true;
        }
        i = i + 1;
    }
    false
}

/// Whether the key is the character `c`.
fn key_is(key: KeyPress, c: char) -> (b: bool)
    ensures
        b == is_char(key, c),
{
    key.code == KeyCode::Char(c)
}

impl App {
    /// The state is consistent (see [`wf`]).
    pub open spec fn well_formed(&self) -> bool {
        wf(self@)
    }

    /// A browser over the themes that were listed (or the error listing them
    /// gave), with the preview and quitting behaviour of `config`.
    pub fn new(
        themes: Result<Vec<Theme>, AppError>,
        custom_themes_path: Option<&str>,
        config: &AlthemerConfig,
    ) -> (app: App)
        ensures
            app.well_formed(),
            app.themes.items@ == (match themes {
                Ok(items) => items@,
                Err(_) => Seq::<Theme>::empty(),
            }),
            app@.status == (match themes {
                Ok(items) => if items@.len() == 0 {
                    Some("No themes found"@)
                } else {
                    None
                },
                Err(e) => Some("Failed to load themes: "@ + error_message(e)),
            }),
            app@.custom_path == (match custom_themes_path {
                Some(p) => Some(p@),
                None => None::<Seq<char>>,
            }),
            !app.should_exit,
            app.input_mode == InputMode::Normal,
            app.filter_input@.len() == 0,
            app.character_index == 0,
            app.themes.selected == 0,
            app.themes.scroll == 0,
            app.themes.cached_colors is None,
            app.show_preview == config.show_preview,
            app.quit_on_select == config.quit_on_select,
    {
        let (items, status_message) = match themes {
            Ok(items) => if items.len() == 0 {
                (items, Some(crate::text::copy_str("No themes found")))
            } else {
                (items, None)
            },
            Err(err) => {
                let m = err.message();
                (Vec::new(), Some(concat("Failed to load themes: ", m.as_str())))
            },
        };
        let n = items.len();
        let mut filtered_indices: Vec<usize> = Vec::new();
        let mut i: usize = 0;
        while i < n
            invariant
                i <= n,
                filtered_indices@ =~= Seq::new(i as nat, |k: int| k as usize),
            decreases n - i,
        {
            filtered_indices.push(i);
            i = i + 1;
        }
        let custom = match custom_themes_path {
            Some(p) => Some(crate::text::copy_str(p)),
            None => None,
        };
        let app = App {
            should_exit: false,
            themes: ThemesList {
                items,
                filtered_indices,
                selected: 0,
                scroll: 0,
                cached_colors: None,
            },
            status_message,
            custom_themes_path: custom,
            input_mode: InputMode::Normal,
            filter_input: String::new(),
            character_index: 0,
            show_preview: config.show_preview,
            quit_on_select: config.quit_on_select,
        };
        proof {
            assert(app@.filtered =~= filtered_for(app@.items, app@.filter));
            if n > 0 {
                assert(app@.filtered[0] == 0);
            }
        }
        app
    }

    /// How many list rows fit in a window of the given height.
    pub fn visible_count(height: u16) -> (r: usize)
        ensures
            r == visible_rows(height),
    {
        if height >= 3 {
            (height - 3) as usize
        } else {
            0
        }
    }

    /// The position of the selected theme among the filtered ones.
    pub fn filtered_pos(&self) -> (r: usize)
        ensures
            r == selected_pos(self@),
    {
        let f = &self.themes.filtered_indices;
        let x = self.themes.selected;
        let ghost p = equal_to(x);
        let mut i: usize = 0;
        while i < f.len()
            invariant
                i <= f@.len(),
                p == equal_to(x),
                x == self.themes.selected,
                f == &self.themes.filtered_indices,
                forall|j: int| 0 <= j < i ==> !p(#[trigger] f@[j]),
            decreases f@.len() - i,
        {
            if f[i] == x {
                proof {
                    assert(p(f@[i as int]));
                    lemma_first_match_found(f@, p, i as int);
                }
                return i;
            }
            i = i + 1;
        }
        proof {
            lemma_first_match_none(f@, p);
        }
        0
    }

    /// Scrolls so that the selection is visible.
    pub fn adjust_scroll(&mut self, height: u16)
        ensures
            final(self)@ == adjusted(old(self)@, height),
    {
        let vis = App::visible_count(height);
        let len = self.themes.filtered_indices.len();
        let max = if len >= vis {
            len - vis
        } else {
            0
        };
        let pos = self.filtered_pos();
        proof {
            lemma_position_bound(self@.filtered, self@.selected);
        }
        let mut scroll = self.themes.scroll;
        if pos < scroll {
            scroll = pos;
        } else if pos - scroll >= vis {
            let a = if pos + 1 >= vis {
                pos + 1 - vis
            } else {
                0
            };
            scroll = if a <= max {
                a
            } else {
                max
            };
        }
        scroll = if scroll <= max {
            scroll
        } else {
            max
        };
        self.themes.scroll = scroll;
        proof {
            assert(self@ =~= adjusted(old(self)@, height));
        }
    }

    /// Makes the preview follow the selection: asks for the selected theme's
    /// colours, or drops the preview when nothing is selected.
    pub fn refresh_preview(&mut self) -> (a: AppAction)
        ensures
            (final(self)@, a) == refreshed(old(self)@),
    {
        if self.themes.selected < self.themes.items.len() {
            let path = self.themes.items[self.themes.selected].path.clone();
            AppAction::LoadPreview(path)
        } else {
            self.themes.cached_colors = None;
            proof {
                assert(self@ =~= refreshed(old(self)@).0);
            }
            AppAction::Nothing
        }
    }

    /// Selects the theme at position `k` of the filtered list.
    fn select_index(&mut self, k: usize) -> (a: AppAction)
        requires
            k < old(self)@.filtered.len(),
        ensures
            (final(self)@, a) == select_at(old(self)@, k as int),
    {
        self.themes.selected = self.themes.filtered_indices[k];
        let ghost mid = self@;
        assert(mid =~= (AppView { selected: old(self)@.filtered[k as int], ..old(self)@ }));
        self.refresh_preview()
    }

    /// Moves the selection one theme down.
    pub fn select_next(&mut self, height: u16) -> (a: AppAction)
        ensures
            (final(self)@, a) == select_next(old(self)@, height),
    {
        let pos = self.filtered_pos();
        proof {
            lemma_position_bound(self@.filtered, self@.selected);
        }
        let len = self.themes.filtered_indices.len();
        if pos + 1 < len {
            let a = self.select_index(pos + 1);
            self.adjust_scroll(height);
            a
        } else {
            AppAction::Nothing
        }
    }

    /// Moves the selection one theme up.
    pub fn select_previous(&mut self) -> (a: AppAction)
        ensures
            (final(self)@, a) == select_previous(old(self)@),
    {
        let pos = self.filtered_pos();
        proof {
            lemma_position_bound(self@.filtered, self@.selected);
        }
        if pos > 0 {
            let old_scroll = self.themes.scroll;
            let a = self.select_index(pos - 1);
            if pos - 1 < old_scroll {
                self.themes.scroll = pos - 1;
            }
            proof {
                let (w, b) = select_at(old(self)@, pos - 1);
                if pos - 1 < old_scroll {
                    assert(self@ =~= (AppView { scroll: (pos - 1) as usize, ..w }));
                } else {
                    assert(self@ =~= w);
                }
            }
            a
        } else {
            AppAction::Nothing
        }
    }

    /// Moves the selection half a page down.
    pub fn page_down(&mut self, height: u16) -> (a: AppAction)
        requires
            old(self)@.filtered.len() > 0,
        ensures
            (final(self)@, a) == page_down(old(self)@, height),
    {
        let vis = App::visible_count(height) / 2;
        let pos = self.filtered_pos();
        proof {
            lemma_position_bound(self@.filtered, self@.selected);
        }
        let len = self.themes.filtered_indices.len();
        let new_pos = if vis >= len - 1 - pos {
            len - 1
        } else {
            pos + vis
        };
        let a = self.select_index(new_pos);
        let full = App::visible_count(height);
        let max_scroll = if len >= full {
            len - full
        } else {
            0
        };
        let half = App::visible_count(height) / 2;
        let s = if new_pos + 1 >= half {
            new_pos + 1 - half
        } else {
            0
        };
        self.themes.scroll = if s <= max_scroll {
            s
        } else {
            max_scroll
        };
        proof {
            let (w, b) = select_at(old(self)@, new_pos as int);
            assert(self@ =~= page_down(old(self)@, height).0);
        }
        a
    }

    /// Moves the selection half a page up.
    pub fn page_up(&mut self, height: u16) -> (a: AppAction)
        requires
            old(self)@.filtered.len() > 0,
        ensures
            (final(self)@, a) == page_up(old(self)@, height),
    {
        let vis = App::visible_count(height) / 2;
        let pos = self.filtered_pos();
        proof {
            lemma_position_bound(self@.filtered, self@.selected);
        }
        let new_pos = if pos >= vis {
            pos - vis
        } else {
            0
        };
        let a = self.select_index(new_pos);
        let len = self.themes.filtered_indices.len();
        let full = App::visible_count(height);
        let max_scroll = if len >= full {
            len - full
        } else {
            0
        };
        self.themes.scroll = if new_pos <= max_scroll {
            new_pos
        } else {
            max_scroll
        };
        proof {
            assert(self@ =~= page_up(old(self)@, height).0);
        }
        a
    }

    /// Selects the first theme of the list.
    pub fn select_first(&mut self) -> (a: AppAction)
        ensures
            (final(self)@, a) == select_first(old(self)@),
    {
        if self.themes.filtered_indices.len() > 0 {
            let a = self.select_index(0);
            self.themes.scroll = 0;
            proof {
                assert(self@ =~= select_first(old(self)@).0);
            }
            a
        } else {
            AppAction::Nothing
        }
    }

    /// Selects the last theme of the list.
    pub fn select_last(&mut self, height: u16) -> (a: AppAction)
        ensures
            (final(self)@, a) == select_last(old(self)@, height),
    {
        let len = self.themes.filtered_indices.len();
        if len > 0 {
            let a = self.select_index(len - 1);
            self.adjust_scroll(height);
            a
        } else {
            AppAction::Nothing
        }
    }

    /// The positions of the themes the filter lets through.
    fn compute_filtered(&self) -> (r: Vec<usize>)
        ensures
            r@ == filtered_for(self@.items, self@.filter),
    {
        let fc = chars_of(self.filter_input.as_str());
        let lf = if fc.len() > 0 {
            lowercase_chars(fc.as_slice())
        } else {
            Vec::new()
        };
        assert(lf@ == lowered_filter(self@.filter));
        let items = &self.themes.items;
        let n = items.len();
        let mut out: Vec<usize> = Vec::new();
        if lf.len() == 0 {
            let mut i: usize = 0;
            while i < n
                invariant
                    i <= n,
                    n == items@.len(),
                    out@ =~= Seq::new(i as nat, |k: int| k as usize),
                decreases n - i,
            {
                out.push(i);
                i = i + 1;
            }
        } else {
            let mut i: usize = 0;
            while i < n
                invariant
                    i <= n,
                    n == items@.len(),
                    items == &self.themes.items,
                    out@ == matching(items@, lf@, i as int),
                decreases n - i,
            {
                let name = chars_of(items[i].name.as_str());
                let lname = lowercase_chars(name.as_slice());
                if chars_contain(lname.as_slice(), lf.as_slice()) {
                    out.push(i);
                }
                i = i + 1;
            }
        }
        out
    }

    /// Recomputes the filtered list, moves a filtered-out selection to the
    /// first remaining theme, and scrolls to the selection.
    pub fn apply_filter(&mut self, height: u16) -> (a: AppAction)
        ensures
            (final(self)@, a) == apply_filter(old(self)@, height),
    {
        let old_selected = self.themes.selected;
        let f = self.compute_filtered();
        self.themes.filtered_indices = f;
        let ghost w = self@;
        assert(w =~= (AppView { filtered: filtered_for(old(self)@.items, old(self)@.filter), ..old(self)@ }));
        let mut action = AppAction::Nothing;
        if !contains_index(&self.themes.filtered_indices, old_selected) {
            self.themes.selected = if self.themes.filtered_indices.len() > 0 {
                self.themes.filtered_indices[0]
            } else {
                0
            };
            let ghost x = self@;
            assert(x =~= (AppView { selected: x.selected, ..w }));
            action = self.refresh_preview();
        }
        self.adjust_scroll(height);
        action
    }

    /// Moves the cursor one character to the left.
    pub fn move_cursor_left(&mut self)
        ensures
            final(self)@ == moved_left(old(self)@),
    {
        let moved = if self.character_index >= 1 {
            self.character_index - 1
        } else {
            0
        };
        self.character_index = self.clamp_cursor(moved);
        proof {
            assert(self@ =~= moved_left(old(self)@));
        }
    }

    /// Moves the cursor one character to the right.
    pub fn move_cursor_right(&mut self)
        ensures
            final(self)@ == moved_right(old(self)@),
    {
        let moved = if self.character_index < usize::MAX {
            self.character_index + 1
        } else {
            usize::MAX
        };
        self.character_index = self.clamp_cursor(moved);
        proof {
            assert(self@ =~= moved_right(old(self)@));
        }
    }

    /// `pos`, kept within the filter.
    pub fn clamp_cursor(&self, pos: usize) -> (r: usize)
        ensures
            r == min(pos as int, self@.filter.len() as int),
    {
        let n = char_count(&self.filter_input);
        if pos <= n {
            pos
        } else {
            n
        }
    }

    /// Puts the cursor at the start of the filter.
    pub fn reset_cursor(&mut self)
        ensures
            final(self)@ == (AppView { cursor: 0, ..old(self)@ }),
    {
        self.character_index = 0;
        proof {
            assert(self@ =~= (AppView { cursor: 0, ..old(self)@ }));
        }
    }

    /// Types `c` at the cursor.
    pub fn enter_char(&mut self, c: char, height: u16) -> (a: AppAction)
        requires
            old(self)@.cursor <= old(self)@.filter.len(),
        ensures
            (final(self)@, a) == enter_char(old(self)@, c, height),
    {
        let index = self.character_index;
        let mut chars = chars_of(self.filter_input.as_str());
        chars.insert(index, c);
        self.filter_input = string_of(chars.as_slice());
        proof {
            assert(self@ =~= (AppView { filter: old(self)@.filter.insert(index as int, c), ..old(self)@ }));
        }
        self.move_cursor_right();
        self.apply_filter(height)
    }

    /// Deletes the character before the cursor.
    pub fn delete_char(&mut self, height: u16) -> (a: AppAction)
        requires
            old(self)@.cursor <= old(self)@.filter.len(),
        ensures
            (final(self)@, a) == delete_char(old(self)@, height),
    {
        if self.character_index != 0 {
            let current = self.character_index;
            let chars = chars_of(self.filter_input.as_str());
            let mut f: Vec<char> = Vec::new();
            let mut i: usize = 0;
            while i < chars.len()
                invariant
                    i <= chars@.len(),
                    0 < current <= chars@.len(),
                    f@ =~= chars@.take(current - 1).take(min(i as int, current - 1))
                        + chars@.skip(current as int).take(sat_sub(i as int, current as int)),
                decreases chars@.len() - i,
            {
                if i + 1 < current || i >= current {
                    f.push(chars[i]);
                }
                i = i + 1;
            }
            self.filter_input = string_of(f.as_slice());
            proof {
                let g = old(self)@.filter.take(current - 1) + old(self)@.filter.skip(current as int);
                assert(self@ =~= (AppView { filter: g, ..old(self)@ }));
            }
            self.move_cursor_left();
            self.apply_filter(height)
        } else {
            AppAction::Nothing
        }
    }

    /// Where the word before the cursor starts.
    fn word_start_pos(&self) -> (p: usize)
        requires
            self@.cursor <= self@.filter.len(),
        ensures
            p == word_start(self@.filter, self@.cursor as int),
    {
        let chars = chars_of(self.filter_input.as_str());
        let mut pos = self.character_index;
        while pos > 0 && is_whitespace(chars[pos - 1])
            invariant
                pos <= chars@.len(),
                chars@ == self@.filter,
                back_over_space(chars@, self.character_index as int) == back_over_space(chars@, pos as int),
            decreases pos,
        {
            pos = pos - 1;
        }
        let ghost mid = pos;
        while pos > 0 && !is_whitespace(chars[pos - 1])
            invariant
                pos <= chars@.len(),
                chars@ == self@.filter,
                back_over_space(chars@, self.character_index as int) == mid,
                back_over_word(chars@, mid as int) == back_over_word(chars@, pos as int),
            decreases pos,
        {
            pos = pos - 1;
        }
        pos
    }

    /// Deletes the word before the cursor, with the whitespace after it.
    pub fn delete_word(&mut self, height: u16) -> (a: AppAction)
        requires
            old(self)@.cursor <= old(self)@.filter.len(),
        ensures
            (final(self)@, a) == delete_word(old(self)@, height),
    {
        if self.character_index == 0 {
            return AppAction::Nothing;
        }
        let pos = self.word_start_pos();
        proof {
            lemma_word_start_bound(self@.filter, self@.cursor as int);
        }
        let original = self.character_index;
        let chars = chars_of(self.filter_input.as_str());
        let mut f: Vec<char> = Vec::new();
        let mut i: usize = 0;
        while i < pos
            invariant
                i <= pos <= original <= chars@.len(),
                f@ =~= chars@.take(i as int),
            decreases pos - i,
        {
            f.push(chars[i]);
            i = i + 1;
        }
        let mut j: usize = original;
        while j < chars.len()
            invariant
                pos <= original <= j <= chars@.len(),
                f@ =~= chars@.take(pos as int) + chars@.subrange(original as int, j as int),
            decreases chars@.len() - j,
        {
            f.push(chars[j]);
            j = j + 1;
        }
        self.filter_input = string_of(f.as_slice());
        self.character_index = pos;
        proof {
            let g = old(self)@.filter.take(pos as int) + old(self)@.filter.skip(original as int);
            assert(self@ =~= (AppView { filter: g, cursor: pos, ..old(self)@ }));
        }
        self.apply_filter(height)
    }

    /// Applies the selected theme; quits afterwards when configured to.
    pub fn confirm_selection(&mut self) -> (a: AppAction)
        ensures
            (final(self)@, a) == confirm(old(self)@),
    {
        if self.themes.selected >= self.themes.items.len() {
            return AppAction::Nothing;
        }
        let name = self.themes.items[self.themes.selected].name.clone();
        if self.quit_on_select {
            self.should_exit = true;
        }
        proof {
            assert(self@ =~= confirm(old(self)@).0);
        }
        AppAction::ApplyTheme(name)
    }

    /// Whether the key would page through an empty list, which panics.
    pub fn key_would_panic(&self, key: KeyPress) -> (r: bool)
        ensures
            r == key_panics(self@, key),
    {
        self.input_mode == InputMode::Normal && self.themes.filtered_indices.len() == 0
            && !key_is(key, 'q') && !key_is(key, 'j') && !key_is(key, 'n') && !key_is(key, 'k')
            && !key_is(key, 'p') && !key_is(key, 'c') && key.ctrl && (key.code == KeyCode::PageDown
            || key_is(key, 'd') || key.code == KeyCode::PageUp || key_is(key, 'u'))
    }

    /// Handles a key; returns what the caller has to do next.
    pub fn handle_key(&mut self, key: KeyPress, height: u16) -> (a: AppAction)
        requires
            old(self).well_formed(),
            !key_panics(old(self)@, key),
        ensures
            (final(self)@, a) == step(old(self)@, key, height),
            final(self).well_formed(),
    {
        proof {
            lemma_step_wf(self@, key, height);
        }
        match self.input_mode {
            InputMode::Normal => match key.code {
                KeyCode::Char('q') => {
                    self.should_exit = true;
                    assert(self@ =~= exited(old(self)@));
                    AppAction::Nothing
                },
                KeyCode::Char('j') | KeyCode::Down => self.select_next(height),
                KeyCode::Char('n') if key.ctrl => self.select_next(height),
                KeyCode::Char('k') | KeyCode::Up => self.select_previous(),
                KeyCode::Char('p') if key.ctrl => self.select_previous(),
                KeyCode::Char('c') if key.ctrl => {
                    self.should_exit = true;
                    assert(self@ =~= exited(old(self)@));
                    AppAction::Nothing
                },
                KeyCode::PageDown if key.ctrl => self.page_down(height),
                KeyCode::Char('d') if key.ctrl => self.page_down(height),
                KeyCode::PageUp if key.ctrl => self.page_up(height),
                KeyCode::Char('u') if key.ctrl => self.page_up(height),
                KeyCode::Char('g') | KeyCode::Home => self.select_first(),
                KeyCode::Char('G') | KeyCode::End => self.select_last(height),
                KeyCode::Char('/') => {
                    self.input_mode = InputMode::Filtering;
                    self.character_index = char_count(&self.filter_input);
                    assert(self@ =~= (AppView {
                        mode: InputMode::Filtering,
                        cursor: old(self)@.filter.len() as usize,
                        ..old(self)@
                    }));
                    self.apply_filter(height)
                },
                KeyCode::Esc => {
                    if !self.filter_input.as_str().is_empty() {
                        self.filter_input = String::new();
                        self.reset_cursor();
                        assert(self@ =~= cleared(old(self)@));
                        self.apply_filter(height)
                    } else {
                        AppAction::Nothing
                    }
                },
                KeyCode::Enter => self.confirm_selection(),
                _ => AppAction::Nothing,
            },
            InputMode::Filtering if key.press => match key.code {
                KeyCode::Char('c') if key.ctrl => {
                    self.should_exit = true;
                    assert(self@ =~= exited(old(self)@));
                    AppAction::Nothing
                },
                KeyCode::Enter => {
                    self.input_mode = InputMode::Normal;
                    assert(self@ =~= (AppView { mode: InputMode::Normal, ..old(self)@ }));
                    AppAction::Nothing
                },
                KeyCode::Char('u') if key.ctrl => {
                    self.filter_input = String::new();
                    self.reset_cursor();
                    assert(self@ =~= cleared(old(self)@));
                    self.apply_filter(height)
                },
                KeyCode::Char('w') if key.ctrl => self.delete_word(height),
                KeyCode::Char(to_insert) => self.enter_char(to_insert, height),
                KeyCode::Backspace => self.delete_char(height),
                KeyCode::Left => {
                    self.move_cursor_left();
                    AppAction::Nothing
                },
                KeyCode::Right => {
                    self.move_cursor_right();
                    AppAction::Nothing
                },
                KeyCode::Esc => {
                    self.input_mode = InputMode::Normal;
                    self.filter_input = String::new();
                    self.reset_cursor();
                    assert(self@ =~= (AppView { mode: InputMode::Normal, ..cleared(old(self)@) }));
                    self.apply_filter(height)
                },
                _ => AppAction::Nothing,
            },
            InputMode::Filtering => AppAction::Nothing,
        }
    }

    /// Records the colours loaded for the preview, or the error that loading
    /// them gave.
    pub fn preview_loaded(&mut self, result: Result<ThemeColors, String>)
        ensures
            final(self)@ == (match result {
                Ok(c) => AppView { cached: Some(c), ..old(self)@ },
                Err(m) => AppView {
                    cached: None,
                    status: Some("Failed to load preview: "@ + m@),
                    ..old(self)@
                },
            }),
    {
        let ghost res = result;
        match result {
            Ok(c) => {
                self.themes.cached_colors = Some(c);
            },
            Err(m) => {
                self.status_message = Some(concat("Failed to load preview: ", m.as_str()));
                self.themes.cached_colors = None;
            },
        }
        proof {
            match res {
                Ok(c) => assert(self@ =~= (AppView { cached: Some(c), ..old(self)@ })),
                Err(m) => assert(self@ =~= (AppView {
                    cached: None,
                    status: Some("Failed to load preview: "@ + m@),
                    ..old(self)@
                })),
            }
        }
    }

    /// After a preview load: when there is nothing to preview, says so.
    pub fn note_missing_preview(&mut self)
        ensures
            final(self)@ == (if old(self)@.cached is None {
                AppView { status: Some("Failed to load preview"@), ..old(self)@ }
            } else {
                old(self)@
            }),
    {
        if self.themes.cached_colors.is_none() {
            self.status_message = Some(crate::text::copy_str("Failed to load preview"));
            proof {
                assert(self@ =~= (AppView { status: Some("Failed to load preview"@), ..old(self)@ }));
            }
        }
    }

    /// Records the outcome of applying a theme: the name of the theme that
    /// was applied, or the error's message.
    pub fn theme_applied(&mut self, result: Result<String, String>)
        ensures
            final(self)@ == (match result {
                Ok(n) => AppView { status: Some("Applied theme: "@ + n@), ..old(self)@ },
                Err(m) => AppView { status: Some("Failed to apply theme: "@ + m@), ..old(self)@ },
            }),
    {
        let ghost res = result;
        match result {
            Ok(n) => {
                self.status_message = Some(concat("Applied theme: ", n.as_str()));
            },
            Err(m) => {
                self.status_message = Some(concat("Failed to apply theme: ", m.as_str()));
            },
        }
        proof {
            match res {
                Ok(n) => assert(self@ =~= (AppView {
                    status: Some("Applied theme: "@ + n@),
                    ..old(self)@
                })),
                Err(m) => assert(self@ =~= (AppView {
                    status: Some("Failed to apply theme: "@ + m@),
                    ..old(self)@
                })),
            }
        }
    }

    /// The text of the footer's left part in normal mode.
    pub fn footer_text(&self) -> (r: Option<String>)
        ensures
            opt_chars(r) == footer_text(self@),
    {
        match &self.status_message {
            Some(m) => Some(concat3(" ", m.as_str(), " ")),
            None => if self.themes.selected < self.themes.items.len() {
                Some(concat3(" ", self.themes.items[self.themes.selected].path.as_str(), " "))
            } else {
                None
            },
        }
    }

    /// The filter as text.
    pub fn filter_text(&self) -> (r: String)
        ensures
            r@ == self@.filter,
    {
        self.filter_input.clone()
    }

    /// The names shown in a list window of `rows` rows, and the row of the
    /// selection within it.
    pub fn visible_window(&self, rows: usize) -> (r: (Vec<String>, usize))
        requires
            self.well_formed(),
        ensures
            r.0@.map_values(|s: String| s@) == window_names(self@, rows as int),
            r.1 == window_row(self@),
    {
        proof {
            lemma_filtered_bound(self@.items, self@.filter);
            lemma_position_bound(self@.filtered, self@.selected);
        }
        let f = &self.themes.filtered_indices;
        let start = self.themes.scroll;
        let len = f.len();
        let end = if rows >= len - start {
            len
        } else {
            start + rows
        };
        let mut names: Vec<String> = Vec::new();
        let mut k: usize = start;
        while k < end
            invariant
                start <= k <= end <= len,
                len == f@.len(),
                f == &self.themes.filtered_indices,
                forall|j: int| 0 <= j < f@.len() ==> #[trigger] f@[j] < self@.items.len(),
                names@.len() == k - start,
                forall|j: int|
                    0 <= j < k - start ==> #[trigger] names@[j]@ == self@.items[f@[start
                        + j] as int].name@,
            decreases end - k,
        {
            names.push(self.themes.items[f[k]].name.clone());
            k = k + 1;
        }
        let pos = self.filtered_pos();
        let row = if pos >= start {
            pos - start
        } else {
            0
        };
        proof {
            assert(names@.map_values(|s: String| s@) =~= window_names(self@, rows as int));
        }
        (names, row)
    }
}

// ---------------------------------------------------------------------------
// Laws
// ---------------------------------------------------------------------------

proof fn lemma_matching_increasing(items: Seq<Theme>, lf: Seq<char>, n: int)
    requires
        n <= items.len() <= usize::MAX,
    ensures
        forall|i: int, j: int|
            0 <= i < j < matching(items, lf, n).len() ==> #[trigger] matching(items, lf, n)[i]
                < #[trigger] matching(items, lf, n)[j],
    decreases n,
{
    if n > 0 {
        lemma_matching_increasing(items, lf, n - 1);
        lemma_matching_bound(items, lf, n - 1);
        let prev = matching(items, lf, n - 1);
        let cur = matching(items, lf, n);
        if name_matches(items[n - 1], lf) {
            assert forall|i: int, j: int| 0 <= i < j < cur.len() implies #[trigger] cur[i]
                < #[trigger] cur[j] by {
                assert(cur[i] == prev[i]);
                if j < prev.len() {
                    assert(cur[j] == prev[j]);
                } else {
                    assert(prev[i] < n - 1);
                }
            }
        }
    }
}

/// The filtered positions rise strictly.
proof fn lemma_filtered_increasing(items: Seq<Theme>, filter: Seq<char>)
    requires
        items.len() <= usize::MAX,
    ensures
        forall|i: int, j: int|
            0 <= i < j < filtered_for(items, filter).len() ==> #[trigger] filtered_for(
                items,
                filter,
            )[i] < #[trigger] filtered_for(items, filter)[j],
{
    let lf = lowered_filter(filter);
    if lf.len() != 0 {
        lemma_matching_increasing(items, lf, items.len() as int);
    }
}

/// In a strictly rising list, the position of its `k`-th element is `k`.
proof fn lemma_position_of_element(f: Seq<usize>, k: int)
    requires
        0 <= k < f.len(),
        forall|i: int, j: int| 0 <= i < j < f.len() ==> #[trigger] f[i] < #[trigger] f[j],
    ensures
        position(f, f[k]) == k,
{
    let p = equal_to(f[k]);
    assert forall|j: int| 0 <= j < k implies !p(#[trigger] f[j]) by {
        assert(f[j] < f[k]);
    }
    lemma_first_match_found(f, p, k);
}

/// The key `code`, pressed without Control.
pub open spec fn plain(code: KeyCode) -> KeyPress {
    KeyPress { code, ctrl: false, press: true }
}

/// Escape while editing the filter empties it, returns to normal mode and
/// lists every theme again.
pub proof fn law_escape_shows_all(v: AppView, height: u16)
    requires
        wf(v),
        v.mode == InputMode::Filtering,
    ensures
        step(v, plain(KeyCode::Esc), height).0.mode == InputMode::Normal,
        step(v, plain(KeyCode::Esc), height).0.filter.len() == 0,
        step(v, plain(KeyCode::Esc), height).0.cursor == 0,
        step(v, plain(KeyCode::Esc), height).0.filtered == Seq::new(
            v.items.len(),
            |i: int| i as usize,
        ),
        step(v, plain(KeyCode::Esc), height).0.items == v.items,
{
    let w = AppView { mode: InputMode::Normal, ..cleared(v) };
    assert(lowered_filter(w.filter).len() == 0);
}

/// Typing a character and erasing it again gives back the filter, the
/// cursor and the list shown.
pub proof fn law_type_then_erase(v: AppView, c: char, height: u16)
    requires
        wf(v),
        v.mode == InputMode::Filtering,
        v.filter.len() < usize::MAX,
    ensures
        ({
            let w = step(step(v, plain(KeyCode::Char(c)), height).0, plain(KeyCode::Backspace), height).0;
            &&& w.filter == v.filter
            &&& w.cursor == v.cursor
            &&& w.filtered == v.filtered
            &&& w.mode == InputMode::Filtering
            &&& w.items == v.items
        }),
{
    let k1 = plain(KeyCode::Char(c));
    let inserted = AppView { filter: v.filter.insert(v.cursor as int, c), ..v };
    let m = moved_right(inserted);
    assert(m.cursor == v.cursor + 1);
    lemma_apply_filter_wf(m, height);
    let v1 = step(v, k1, height).0;
    assert(v1 == apply_filter(m, height).0);
    assert(v1.filter == inserted.filter);
    assert(v1.cursor == v.cursor + 1);
    let f = v1.filter.take(v1.cursor - 1) + v1.filter.skip(v1.cursor as int);
    assert(f =~= v.filter);
    let d = moved_left(AppView { filter: f, ..v1 });
    assert(d.cursor == v.cursor);
    lemma_apply_filter_wf(d, height);
}

/// Moving down and then up returns to the theme that was selected, when
/// there is a theme below it.
pub proof fn law_down_then_up(v: AppView, height: u16)
    requires
        wf(v),
        v.mode == InputMode::Normal,
        selected_pos(v) + 1 < v.filtered.len(),
    ensures
        step(step(v, plain(KeyCode::Down), height).0, plain(KeyCode::Up), height).0.selected
            == v.selected,
{
    lemma_filtered_increasing(v.items, v.filter);
    lemma_first_match_props(v.filtered, equal_to(v.selected));
    let pos = selected_pos(v);
    assert(v.filtered[pos] == v.selected) by {
        if first_match(v.filtered, equal_to(v.selected)) is None {
            let k = choose|k: int| 0 <= k < v.filtered.len() && v.filtered[k] == v.selected;
            assert(!equal_to(v.selected)(v.filtered[k]));
        }
    }
    let v1 = step(v, plain(KeyCode::Down), height).0;
    lemma_select_at_wf(v, pos + 1);
    assert(v1.filtered == v.filtered);
    assert(v1.selected == v.filtered[pos + 1]);
    lemma_position_of_element(v.filtered, pos + 1);
    assert(selected_pos(v1) == pos + 1);
    lemma_select_at_wf(v1, pos);
}

proof fn lemma_matching_members(items: Seq<Theme>, lf: Seq<char>, n: int, i: int)
    requires
        0 <= n <= items.len() <= usize::MAX,
        0 <= i < items.len(),
    ensures
        matching(items, lf, n).contains(i as usize) <==> (i < n && has_infix(
            str_lowercase(items[i].name@),
            lf,
        )),
    decreases n,
{
    if n > 0 {
        lemma_matching_members(items, lf, n - 1, i);
        lemma_matching_bound(items, lf, n - 1);
        let prev = matching(items, lf, n - 1);
        if name_matches(items[n - 1], lf) {
            let cur = prev.push((n - 1) as usize);
            assert(cur[prev.len() as int] == (n - 1) as usize);
            if cur.contains(i as usize) && i != n - 1 {
                let k = choose|k: int| 0 <= k < cur.len() && cur[k] == i as usize;
                assert(k < prev.len());
                assert(prev[k] == cur[k]);
            }
            if prev.contains(i as usize) {
                let k = choose|k: int| 0 <= k < prev.len() && prev[k] == i as usize;
                assert(cur[k] == prev[k]);
            }
        } else if prev.contains(i as usize) {
            let k = choose|k: int| 0 <= k < prev.len() && prev[k] == i as usize;
            assert(prev[k] < n - 1);
        }
    }
}

/// The filter keeps exactly the themes whose lower-case name contains the
/// lower-case filter (an empty filter keeps them all), matching on the name
/// and never on the path, in the order of the list.
pub proof fn law_filter_keeps_matching_names(items: Seq<Theme>, filter: Seq<char>, i: int)
    requires
        items.len() <= usize::MAX,
        0 <= i < items.len(),
    ensures
        filtered_for(items, filter).contains(i as usize) <==> (filter.len() == 0 || has_infix(
            str_lowercase(items[i].name@),
            str_lowercase(filter),
        )),
        forall|j: int, k: int|
            0 <= j < k < filtered_for(items, filter).len() ==> #[trigger] filtered_for(
                items,
                filter,
            )[j] < #[trigger] filtered_for(items, filter)[k],
{
    lemma_filtered_increasing(items, filter);
    let lf = lowered_filter(filter);
    let f = filtered_for(items, filter);
    if lf.len() == 0 {
        assert(f[i] == i as usize);
        assert(f.contains(i as usize));
        if filter.len() != 0 {
            let h = str_lowercase(items[i].name@);
            assert(lf == str_lowercase(filter));
            assert(h.subrange(0, 0 + lf.len() as int) =~= lf);
            assert(has_infix(h, lf));
        }
    } else {
        lemma_matching_members(items, lf, items.len() as int, i);
    }
}

/// The selected theme is on one of the visible rows of the list (when the
/// window has any row for the list at all).
pub open spec fn selection_visible(v: AppView, height: u16) -> bool {
    let vis = visible_rows(height);
    vis == 0 || (v.scroll <= selected_pos(v) && selected_pos(v) < v.scroll + vis)
}

proof fn lemma_adjusted_visible(v: AppView, height: u16)
    requires
        v.filtered.len() <= usize::MAX,
    ensures
        selection_visible(adjusted(v, height), height),
{
    lemma_position_bound(v.filtered, v.selected);
    let vis = visible_rows(height);
    let len = v.filtered.len() as int;
    let max = sat_sub(len, vis);
    let pos = selected_pos(v);
    let s = if pos < v.scroll {
        pos
    } else if pos >= v.scroll + vis {
        min(sat_sub(pos + 1, vis), max)
    } else {
        v.scroll as int
    };
    assert(0 <= min(s, max) <= usize::MAX);
    assert(scroll_for(v, height) as int == min(s, max));
}

proof fn lemma_filtered_len(items: Seq<Theme>, filter: Seq<char>)
    ensures
        filtered_for(items, filter).len() <= items.len(),
{
    let lf = lowered_filter(filter);
    if lf.len() != 0 {
        lemma_matching_len(items, lf, items.len() as int);
    }
}

proof fn lemma_apply_filter_visible(v: AppView, height: u16)
    requires
        v.items.len() <= usize::MAX,
    ensures
        selection_visible(apply_filter(v, height).0, height),
{
    lemma_filtered_len(v.items, v.filter);
    let f = filtered_for(v.items, v.filter);
    let w = AppView { filtered: f, ..v };
    if f.contains(v.selected) {
        lemma_adjusted_visible(w, height);
    } else {
        let first = if f.len() > 0 {
            f[0]
        } else {
            0usize
        };
        lemma_adjusted_visible(refreshed(AppView { selected: first, ..w }).0, height);
    }
}

/// Selecting the `k`-th filtered theme makes `k` the selection's position.
proof fn lemma_select_at_pos(v: AppView, k: int)
    requires
        wf(v),
        0 <= k < v.filtered.len(),
    ensures
        selected_pos(select_at(v, k).0) == k,
        select_at(v, k).0.filtered == v.filtered,
        select_at(v, k).0.scroll == v.scroll,
{
    lemma_select_at_wf(v, k);
    lemma_filtered_increasing(v.items, v.filter);
    lemma_position_of_element(v.filtered, k);
}

/// No key hides the selected theme: when it is on a visible row before the
/// key, it is on a visible row after it, whatever the key moves, pages,
/// filters or edits. (Paging down with a single visible row leaves it just
/// below the window, as the key handler's arithmetic does; that case is
/// left out.)
pub proof fn law_selection_stays_visible(v: AppView, key: KeyPress, height: u16)
    requires
        wf(v),
        !key_panics(v, key),
        selection_visible(v, height),
        v.mode == InputMode::Normal && pages_down(key) ==> visible_rows(height) >= 2,
    ensures
        selection_visible(step(v, key, height).0, height),
{
    lemma_position_bound(v.filtered, v.selected);
    lemma_filtered_len(v.items, v.filter);
    let pos = selected_pos(v);
    let len = v.filtered.len() as int;
    if v.mode == InputMode::Normal {
        if is_char(key, 'q') {
        } else if is_char(key, 'j') || key.code == KeyCode::Down || is_ctrl(key, 'n') {
            if pos + 1 < len {
                lemma_adjusted_visible(select_at(v, pos + 1).0, height);
            }
        } else if is_char(key, 'k') || key.code == KeyCode::Up || is_ctrl(key, 'p') {
            if pos > 0 {
                lemma_select_at_pos(v, pos - 1);
            }
        } else if is_ctrl(key, 'c') {
        } else if pages_down(key) {
            let half = visible_rows(height) / 2;
            let new_pos = min(pos + half, len - 1);
            lemma_select_at_pos(v, new_pos);
        } else if pages_up(key) {
            let half = visible_rows(height) / 2;
            let new_pos = sat_sub(pos, half);
            lemma_select_at_pos(v, new_pos);
        } else if is_char(key, 'g') || key.code == KeyCode::Home {
            if len > 0 {
                lemma_select_at_pos(v, 0);
            }
        } else if is_char(key, 'G') || key.code == KeyCode::End {
            if len > 0 {
                lemma_adjusted_visible(select_at(v, len - 1).0, height);
            }
        } else if is_char(key, '/') {
            lemma_apply_filter_visible(
                AppView { mode: InputMode::Filtering, cursor: v.filter.len() as usize, ..v },
                height,
            );
        } else if key.code == KeyCode::Esc {
            if v.filter.len() > 0 {
                lemma_apply_filter_visible(cleared(v), height);
            }
        } else if key.code == KeyCode::Enter {
        }
    } else if !key.press {
    } else if is_ctrl(key, 'c') {
    } else if key.code == KeyCode::Enter {
    } else if is_ctrl(key, 'u') {
        lemma_apply_filter_visible(cleared(v), height);
    } else if is_ctrl(key, 'w') {
        if v.cursor != 0 {
            let p = word_start(v.filter, v.cursor as int);
            let f = v.filter.take(p) + v.filter.skip(v.cursor as int);
            lemma_apply_filter_visible(AppView { filter: f, cursor: p as usize, ..v }, height);
        }
    } else if key.code is Char {
        let c = key.code->Char_0;
        let w = moved_right(AppView { filter: v.filter.insert(v.cursor as int, c), ..v });
        lemma_apply_filter_visible(w, height);
    } else if key.code == KeyCode::Backspace {
        if v.cursor != 0 {
            let f = v.filter.take(v.cursor - 1) + v.filter.skip(v.cursor as int);
            lemma_apply_filter_visible(moved_left(AppView { filter: f, ..v }), height);
        }
    } else if key.code == KeyCode::Left {
    } else if key.code == KeyCode::Right {
    } else if key.code == KeyCode::Esc {
        lemma_apply_filter_visible(AppView { mode: InputMode::Normal, ..cleared(v) }, height);
    }
}

/// Moving down selects the next filtered theme and scrolls so that it is on
/// a visible row.
pub proof fn law_down_shows_next(v: AppView, height: u16)
    requires
        wf(v),
        v.mode == InputMode::Normal,
        selected_pos(v) + 1 < v.filtered.len(),
    ensures
        selected_pos(step(v, plain(KeyCode::Down), height).0) == selected_pos(v) + 1,
        selection_visible(step(v, plain(KeyCode::Down), height).0, height),
{
    lemma_position_bound(v.filtered, v.selected);
    lemma_filtered_len(v.items, v.filter);
    let pos = selected_pos(v);
    lemma_select_at_pos(v, pos + 1);
    lemma_adjusted_visible(select_at(v, pos + 1).0, height);
}

} // verus!
