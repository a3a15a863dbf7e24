//! Themes: how a theme file is named and categorised, how the list of themes
//! is built and ordered, how a theme is looked up, and how a theme's colours
//! are read for the preview.
use crate::config::alacritty::{current_import, first_import, AlacrittyConfig};
use crate::error::AppError;
use crate::seqs::{
    chars_lex_le, first_match, lemma_first_match_found, lemma_first_match_none,
    lemma_first_match_props, lemma_lex_total,
    lemma_lex_trans, lex_le,
};
use crate::text::{
    chars_of, copy_str, extension, file_stem, has_suffix, lowercase, path_extension,
    path_file_stem, paths_equal, same_path, str_eq, str_ends_with, str_lowercase, strip_leading,
    strip_leading_chars, trim, trim_chars, trim_start, trim_end, is_ws, is_ascii_text, ascii_lower,
};
use vstd::prelude::*;

verus! {

/// Whether a theme has a dark or a light background.
#[derive(Debug, Clone, Copy, PartialEq, Eq, Structural)]
pub enum ThemeCategory {
    Dark,
    Light,
}

impl Default for ThemeCategory {
    /// Themes are dark unless something says otherwise.
    fn default() -> (r: Self)
        ensures
            r == ThemeCategory::Dark,
    {
        ThemeCategory::Dark
    }
}

impl ThemeCategory {
    /// The name of the category.
    pub fn label(self) -> (r: &'static str)
        ensures
            r@ == (match self {
                ThemeCategory::Dark => "Dark"@,
                ThemeCategory::Light => "Light"@,
            }),
    {
        match self {
            ThemeCategory::Dark => "Dark",
            ThemeCategory::Light => "Light",
        }
    }

    /// The symbol shown in front of a theme of the category.
    pub fn icon(self) -> (r: &'static str)
        ensures
            r@ == category_icon(self),
    {
        match self {
            ThemeCategory::Dark => "⏾",
            ThemeCategory::Light => "☀",
        }
    }
}

/// The symbol of a category.
pub open spec fn category_icon(c: ThemeCategory) -> Seq<char> {
    match c {
        ThemeCategory::Dark => "⏾"@,
        ThemeCategory::Light => "☀"@,
    }
}

/// A theme file.
#[derive(Debug, Clone)]
pub struct Theme {
    /// The file name without its extension, as written.
    pub name: String,
    /// The name in lower case, used to look themes up.
    pub name_lower: String,
    /// The path of the theme file.
    pub path: String,
    /// Dark or light.
    pub category: ThemeCategory,
}

/// The category a lower-case theme name announces by its suffix.
pub open spec fn category_from_name(name_lower: Seq<char>) -> Option<ThemeCategory> {
    if has_suffix(name_lower, "_dark"@) || has_suffix(name_lower, "-dark"@) {
        Some(ThemeCategory::Dark)
    } else if has_suffix(name_lower, "_light"@) || has_suffix(name_lower, "-light"@) {
        Some(ThemeCategory::Light)
    } else {
        None
    }
}

/// The category of a theme: its name decides, else what its background's
/// luminance says, else dark.
pub open spec fn decide_category(
    from_name: Option<ThemeCategory>,
    from_luminance: Option<ThemeCategory>,
) -> ThemeCategory {
    match from_name {
        Some(c) => c,
        None => match from_luminance {
            Some(c) => c,
            None => ThemeCategory::Dark,
        },
    }
}

/// `f`, applied to a path with the characters `path`, may return `l`.
pub open spec fn luminance_gives<F: Fn(&str) -> Option<ThemeCategory>>(
    f: F,
    path: Seq<char>,
    l: Option<ThemeCategory>,
) -> bool {
    exists|p: &str| p@ == path && #[trigger] f.ensures((p,), l)
}

/// `t` is the theme read from `path` whose stem is `stem`, where `f` judges
/// the luminance of a theme file.
pub open spec fn theme_at<F: Fn(&str) -> Option<ThemeCategory>>(
    f: F,
    path: Seq<char>,
    stem: Seq<char>,
    t: Theme,
) -> bool {
    &&& t.name@ == stem
    &&& t.name_lower@ == str_lowercase(stem)
    &&& t.path@ == path
    &&& match category_from_name(str_lowercase(stem)) {
        Some(c) => t.category == c,
        None => exists|l: Option<ThemeCategory>|
            luminance_gives(f, path, l) && t.category == decide_category(None, l),
    }
}

impl Theme {
    /// An exact copy of the theme.
    pub fn duplicate(&self) -> (r: Theme)
        ensures
            r == *self,
    {
        Theme {
            name: self.name.clone(),
            name_lower: self.name_lower.clone(),
            path: self.path.clone(),
            category: self.category,
        }
    }

    /// The theme stored at `path`, or `None` when the path has no file stem.
    /// The stem is the theme's name. `luminance` judges the file's background
    /// and is asked only when the name does not decide the category.
    pub fn from_path<F: Fn(&str) -> Option<ThemeCategory>>(path: &str, luminance: &F) -> (r:
        Option<Theme>)
        requires
            forall|p: &str| luminance.requires((p,)),
        ensures
            match r {
                None => path_file_stem(path@) is None,
                Some(t) => path_file_stem(path@) matches Some(stem) && theme_at(
                    luminance,
                    path@,
                    stem,
                    t,
                ) && (is_ascii_text(stem) ==> t.name_lower@ == ascii_lower(stem)),
            },
    {
        match file_stem(path) {
            None => None,
            Some(name) => {
                let name_lower = lowercase(name.as_str());
                Some(Theme::from_names(path, name, name_lower, luminance))
            },
        }
    }

    /// The theme stored at `path` with the given name and lower-case name,
    /// categorised by its name, else by `luminance`, else dark.
    pub fn from_names<F: Fn(&str) -> Option<ThemeCategory>>(
        path: &str,
        name: String,
        name_lower: String,
        luminance: &F,
    ) -> (t: Theme)
        requires
            forall|p: &str| luminance.requires((p,)),
        ensures
            t.name == name,
            t.name_lower == name_lower,
            t.path@ == path@,
            match category_from_name(name_lower@) {
                Some(c) => t.category == c,
                None => exists|l: Option<ThemeCategory>|
                    luminance_gives(luminance, path@, l) && t.category == decide_category(
                        None,
                        l,
                    ),
            },
    {
        let mut theme = Theme {
            name_lower,
            name,
            path: copy_str(path),
            category: ThemeCategory::default(),
        };
        theme.category = theme.categorize(luminance);
        theme
    }

    /// The theme's category: from its name if the name says, else from the
    /// luminance of its background, else dark.
    pub fn categorize<F: Fn(&str) -> Option<ThemeCategory>>(&self, luminance: &F) -> (r:
        ThemeCategory)
        requires
            forall|p: &str| luminance.requires((p,)),
        ensures
            match category_from_name(self.name_lower@) {
                Some(c) => r == c,
                None => exists|l: Option<ThemeCategory>|
                    luminance_gives(luminance, self.path@, l) && r == decide_category(None, l),
            },
    {
        match self.categorize_from_filename() {
            Some(c) => c,
            None => {
                let p = self.path.as_str();
                let l = luminance(p);
                let r = match l {
                    Some(c) => c,
                    None => ThemeCategory::default(),
                };
                proof {
                    assert(luminance.ensures((p,), l));
                    assert(luminance_gives(luminance, self.path@, l));
                    assert(r == decide_category(None, l));
                }
                r
            },
        }
    }

    /// The category the theme's lower-case name announces by a `_dark`,
    /// `-dark`, `_light` or `-light` suffix.
    pub fn categorize_from_filename(&self) -> (r: Option<ThemeCategory>)
        ensures
            r == category_from_name(self.name_lower@),
    {
        let n = self.name_lower.as_str();
        if str_ends_with(n, "_dark") || str_ends_with(n, "-dark") {
            return Some(ThemeCategory::Dark);
        }
        if str_ends_with(n, "_light") || str_ends_with(n, "-light") {
            return Some(ThemeCategory::Light);
        }
        None
    }
}

// ---------------------------------------------------------------------------
// Listing
// ---------------------------------------------------------------------------

/// Whether a directory entry is a theme file: its extension is `toml`.
pub open spec fn is_theme_file(path: Seq<char>) -> bool {
    path_extension(path) == Some("toml"@)
}

/// `themes` are the themes read, in order, from those of `entries` that are
/// theme files and have a stem.
pub open spec fn themes_read<F: Fn(&str) -> Option<ThemeCategory>>(
    f: F,
    entries: Seq<String>,
    themes: Seq<Theme>,
) -> bool
    decreases entries.len(),
{
    if entries.len() == 0 {
        themes.len() == 0
    } else {
        let e = entries.last()@;
        if is_theme_file(e) && path_file_stem(e) is Some {
            themes.len() > 0 && theme_at(f, e, path_file_stem(e)->0, themes.last())
                && themes_read(f, entries.drop_last(), themes.drop_last())
        } else {
            themes_read(f, entries.drop_last(), themes)
        }
    }
}

/// `t` placed into the name-ordered `s` after every theme whose name sorts
/// no later than its own.
pub open spec fn insert_by_name(s: Seq<Theme>, t: Theme) -> Seq<Theme>
    decreases s.len(),
{
    if s.len() == 0 || lex_le(s.last().name@, t.name@) {
        s.push(t)
    } else {
        insert_by_name(s.drop_last(), t).push(s.last())
    }
}

/// `s` ordered by name; themes with equal names keep their order.
pub open spec fn sort_by_name(s: Seq<Theme>) -> Seq<Theme>
    decreases s.len(),
{
    if s.len() == 0 {
        s
    } else {
        insert_by_name(sort_by_name(s.drop_last()), s.last())
    }
}

/// The themes are in name order.
pub open spec fn sorted_by_name(s: Seq<Theme>) -> bool {
    forall|i: int, j: int| 0 <= i < j < s.len() ==> lex_le(#[trigger] s[i].name@, #[trigger] s[j].name@)
}

proof fn lemma_insert_by_name(s: Seq<Theme>, t: Theme)
    requires
        sorted_by_name(s),
    ensures
        sorted_by_name(insert_by_name(s, t)),
        insert_by_name(s, t).to_multiset() == s.to_multiset().insert(t),
        insert_by_name(s, t).len() == s.len() + 1,
        forall|k: int|
            0 <= k < insert_by_name(s, t).len() ==> #[trigger] insert_by_name(s, t)[k] == t
                || s.contains(insert_by_name(s, t)[k]),
    decreases s.len(),
{
    broadcast use vstd::seq_lib::group_to_multiset_ensures;

    let r = insert_by_name(s, t);
    if s.len() == 0 || lex_le(s.last().name@, t.name@) {
        assert forall|i: int, j: int| 0 <= i < j < r.len() implies lex_le(
            #[trigger] r[i].name@,
            #[trigger] r[j].name@,
        ) by {
            if j == s.len() && i < s.len() - 1 {
                lemma_lex_trans(s[i].name@, s.last().name@, t.name@);
            }
        }
        assert forall|k: int| 0 <= k < r.len() implies #[trigger] r[k] == t || s.contains(r[k]) by {
            if k < s.len() {
                assert(r[k] == s[k]);
            }
        }
    } else {
        let d = s.drop_last();
        let last = s.last();
        assert(sorted_by_name(d));
        lemma_insert_by_name(d, t);
        let ins = insert_by_name(d, t);
        lemma_lex_total(last.name@, t.name@);
        assert forall|i: int, j: int| 0 <= i < j < r.len() implies lex_le(
            #[trigger] r[i].name@,
            #[trigger] r[j].name@,
        ) by {
            if j == ins.len() {
                assert(r[i] == ins[i]);
                if ins[i] != t {
                    let m = choose|m: int| 0 <= m < d.len() && d[m] == ins[i];
                    assert(s[m] == d[m]);
                    assert(lex_le(s[m].name@, s[s.len() - 1].name@));
                }
            } else {
                assert(r[i] == ins[i]);
                assert(r[j] == ins[j]);
            }
        }
        assert forall|k: int| 0 <= k < r.len() implies #[trigger] r[k] == t || s.contains(r[k]) by {
            if k < ins.len() {
                assert(r[k] == ins[k]);
                if ins[k] != t {
                    let m = choose|m: int| 0 <= m < d.len() && d[m] == ins[k];
                    assert(s[m] == d[m]);
                }
            } else {
                assert(r[k] == s[s.len() - 1]);
            }
        }
        assert(s =~= d.push(last));
        assert(r.to_multiset() =~= s.to_multiset().insert(t));
    }
}

/// The themes are listed in name order, and the ordering neither loses nor
/// adds a theme.
pub proof fn law_sorted_by_name(s: Seq<Theme>)
    ensures
        sorted_by_name(sort_by_name(s)),
        sort_by_name(s).to_multiset() == s.to_multiset(),
    decreases s.len(),
{
    broadcast use vstd::seq_lib::group_to_multiset_ensures;

    if s.len() > 0 {
        law_sorted_by_name(s.drop_last());
        lemma_insert_by_name(sort_by_name(s.drop_last()), s.last());
        assert(s =~= s.drop_last().push(s.last()));
    } else {
        assert(s.to_multiset() =~= vstd::multiset::Multiset::empty());
    }
}

/// Where `t` goes in the name-ordered `s`: after every theme whose name sorts
/// no later than its own.
fn insertion_point(s: &Vec<Theme>, t: &Theme) -> (k: usize)
    ensures
        k <= s@.len(),
        insert_by_name(s@, *t) == s@.subrange(0, k as int).push(*t) + s@.subrange(
            k as int,
            s@.len() as int,
        ),
{
    let tn = chars_of(t.name.as_str());
    let mut k: usize = s.len();
    let mut done = false;
    assert(s@.subrange(0, s@.len() as int) =~= s@);
    assert(insert_by_name(s@, *t) =~= insert_by_name(s@.subrange(0, k as int), *t) + s@.subrange(
        k as int,
        s@.len() as int,
    ));
    while k > 0 && !done
        invariant
            k <= s@.len(),
            tn@ == t.name@,
            done ==> k > 0 && lex_le(s@[k - 1].name@, t.name@),
            insert_by_name(s@, *t) == insert_by_name(s@.subrange(0, k as int), *t) + s@.subrange(
                k as int,
                s@.len() as int,
            ),
        decreases k + (if done { 0int } else { 1int }),
    {
        let kn = chars_of(s[k - 1].name.as_str());
        if chars_lex_le(kn.as_slice(), tn.as_slice()) {
            done = true;
        } else {
            proof {
                let pre = s@.subrange(0, k as int);
                assert(pre.drop_last() =~= s@.subrange(0, k - 1));
                assert(pre.last() == s@[k - 1]);
                assert(s@.subrange(k - 1, s@.len() as int) =~= seq![s@[k - 1]] + s@.subrange(
                    k as int,
                    s@.len() as int,
                ));
                assert(insert_by_name(pre, *t) == insert_by_name(s@.subrange(0, k - 1), *t).push(
                    s@[k - 1],
                ));
                assert(insert_by_name(s@.subrange(0, k - 1), *t).push(s@[k - 1]) + s@.subrange(
                    k as int,
                    s@.len() as int,
                ) =~= insert_by_name(s@.subrange(0, k - 1), *t) + s@.subrange(
                    k - 1,
                    s@.len() as int,
                ));
            }
            k = k - 1;
        }
    }
    proof {
        let pre = s@.subrange(0, k as int);
        if k > 0 {
            assert(pre.last() == s@[k - 1]);
        }
        assert(insert_by_name(pre, *t) == pre.push(*t));
    }
    k
}

/// The themes ordered by name; themes with equal names keep their order
/// (`sort_by` on names is stable).
pub fn sort_themes(themes: Vec<Theme>) -> (r: Vec<Theme>)
    ensures
        r@ == sort_by_name(themes@),
{
    let mut r: Vec<Theme> = Vec::new();
    let mut i: usize = 0;
    while i < themes.len()
        invariant
            i <= themes@.len(),
            r@ == sort_by_name(themes@.take(i as int)),
        decreases themes@.len() - i,
    {
        let t = themes[i].duplicate();
        let k = insertion_point(&r, &t);
        proof {
            assert(themes@.take(i + 1).drop_last() =~= themes@.take(i as int));
            assert(themes@.take(i + 1).last() == themes@[i as int]);
        }
        r.insert(k, t);
        proof {
            assert(r@ =~= sort_by_name(themes@.take(i + 1)));
        }
        i = i + 1;
    }
    assert(themes@.take(themes@.len() as int) =~= themes@);
    r
}

/// The themes among `entries`: the entries whose extension is `toml` and that
/// have a stem, read as themes and ordered by name.
pub fn list_themes<F: Fn(&str) -> Option<ThemeCategory>>(entries: &Vec<String>, luminance: &F) -> (r:
    Vec<Theme>)
    requires
        forall|p: &str| luminance.requires((p,)),
    ensures
        exists|read: Seq<Theme>|
            themes_read(luminance, entries@, read) && r@ == sort_by_name(read),
{
    let mut read: Vec<Theme> = Vec::new();
    let mut i: usize = 0;
    while i < entries.len()
        invariant
            i <= entries@.len(),
            forall|p: &str| luminance.requires((p,)),
            themes_read(luminance, entries@.take(i as int), read@),
        decreases entries@.len() - i,
    {
        let e = entries[i].as_str();
        proof {
            assert(entries@.take(i + 1).drop_last() =~= entries@.take(i as int));
            assert(entries@.take(i + 1).last() == entries@[i as int]);
        }
        let is_toml = match extension(e) {
            Some(ext) => str_eq(ext.as_str(), "toml"),
            None => false,
        };
        if is_toml {
            match Theme::from_path(e, luminance) {
                Some(t) => {
                    let ghost before = read@;
                    read.push(t);
                    assert(read@.drop_last() =~= before);
                },
                None => {},
            }
        }
        i = i + 1;
    }
    assert(entries@.take(entries@.len() as int) =~= entries@);
    sort_themes(read)
}

// ---------------------------------------------------------------------------
// Lookup
// ---------------------------------------------------------------------------

/// The path of the theme Alacritty imports first. `config` is Alacritty's
/// configuration as read from `config_path`, or `None` when that file does
/// not exist, which is `ConfigNotFound(config_path)`.
pub fn get_current_theme_path(config_path: &str, config: Option<&AlacrittyConfig>) -> (r: Result<
    Option<String>,
    AppError,
>)
    ensures
        match config {
            None => r matches Err(AppError::ConfigNotFound(p)) && p@ == config_path@,
            Some(c) => r matches Ok(o) && match o {
                Some(p) => first_import(*c) == Some(p@),
                None => first_import(*c) is None,
            },
        },
{
    match config {
        None => Err(AppError::ConfigNotFound(copy_str(config_path))),
        Some(c) => Ok(current_import(c)),
    }
}

/// Whether the theme `t` has the lower-case name `key`.
pub open spec fn named(key: Seq<char>) -> spec_fn(Theme) -> bool {
    |t: Theme| t.name_lower@ == key
}

/// Whether the theme `t` is stored at `path`: the two paths are spelled
/// alike or compare equal as paths.
pub open spec fn stored_at(path: Seq<char>) -> spec_fn(Theme) -> bool {
    |t: Theme| t.path@ == path || paths_equal(t.path@, path)
}

/// The first of `themes` whose lower-case name is the lower case of `name`;
/// `ThemeNotFound(name)` when there is none.
pub fn get_theme_by_name(name: &str, themes: Vec<Theme>) -> (r: Result<Theme, AppError>)
    ensures
        first_match(themes@, named(str_lowercase(name@))) matches Some(i) ==> r == Ok::<
            Theme,
            AppError,
        >(themes@[i]),
        first_match(themes@, named(str_lowercase(name@))) is None ==> (r matches Err(
            AppError::ThemeNotFound(n),
        ) && n@ == name@),
        is_ascii_text(name@) ==> str_lowercase(name@) == ascii_lower(name@),
{
    let key = lowercase(name);
    let ghost p = named(key@);
    let mut i: usize = 0;
    while i < themes.len()
        invariant
            i <= themes@.len(),
            p == named(key@),
            key@ == str_lowercase(name@),
            is_ascii_text(name@) ==> key@ == ascii_lower(name@),
            forall|j: int| 0 <= j < i ==> !p(#[trigger] themes@[j]),
        decreases themes@.len() - i,
    {
        if str_eq(themes[i].name_lower.as_str(), key.as_str()) {
            proof {
                assert(p(themes@[i as int]));
                lemma_first_match_found(themes@, p, i as int);
                assert(key@ == str_lowercase(name@));
                assert(first_match(themes@, named(str_lowercase(name@))) == Some(i as int));
            }
            let t = themes[i].duplicate();
            return Ok(t);
        }
        i = i + 1;
    }
    proof {
        lemma_first_match_none(themes@, p);
    }
    Err(AppError::ThemeNotFound(copy_str(name)))
}

/// Looking a theme up by a name whose lower case is a listed theme's
/// lower-case name always succeeds, and gives that theme or an earlier one
/// with the same lower-case name.
pub proof fn law_lookup_finds_listed(themes: Seq<Theme>, i: int, name: Seq<char>)
    requires
        0 <= i < themes.len(),
        str_lowercase(name) == themes[i].name_lower@,
    ensures
        first_match(themes, named(str_lowercase(name))) matches Some(k) && k <= i
            && themes[k].name_lower@ == themes[i].name_lower@,
{
    let p = named(str_lowercase(name));
    lemma_first_match_props(themes, p);
    assert(p(themes[i]));
}

/// The first of `themes` stored at `theme_path`; nothing when no path is
/// given or no theme is stored there.
pub fn get_current_theme(theme_path: Option<&str>, themes: Vec<Theme>) -> (r: Option<Theme>)
    ensures
        theme_path is None ==> r is None,
        theme_path is Some ==> match first_match(themes@, stored_at(theme_path->0@)) {
            Some(i) => r == Some(themes@[i]),
            None => r is None,
        },
{
    if theme_path.is_none() {
        return None;
    }
    let path = theme_path.unwrap();
    let ghost p = stored_at(path@);
    let mut i: usize = 0;
    while i < themes.len()
        invariant
            i <= themes@.len(),
            p == stored_at(path@),
            theme_path == Some(path),
            forall|j: int| 0 <= j < i ==> !p(#[trigger] themes@[j]),
        decreases themes@.len() - i,
    {
        if str_eq(themes[i].path.as_str(), path) || same_path(themes[i].path.as_str(), path) {
            proof {
                assert(p(themes@[i as int]));
                lemma_first_match_found(themes@, p, i as int);
            }
            let t = themes[i].duplicate();
            return Some(t);
        }
        i = i + 1;
    }
    proof {
        lemma_first_match_none(themes@, p);
    }
    None
}

/// Once Alacritty imports a listed theme first (as [`crate::switcher::switch_theme`]
/// leaves it), looking up the current theme finds that theme, or an earlier
/// one stored at the same path.
pub proof fn law_switch_then_current(config: AlacrittyConfig, themes: Seq<Theme>, i: int)
    requires
        0 <= i < themes.len(),
        first_import(config) == Some(themes[i].path@),
    ensures
        first_match(themes, stored_at(first_import(config)->0)) matches Some(k) && k <= i
            && stored_at(themes[i].path@)(themes[k]),
{
    let p = stored_at(themes[i].path@);
    lemma_first_match_props(themes, p);
    assert(p(themes[i]));
}

// ---------------------------------------------------------------------------
// Colours
// ---------------------------------------------------------------------------

/// A colour as the preview paints it: the terminal's own, or an RGB value.
#[derive(Debug, Clone, Copy, PartialEq, Eq, Structural)]
pub enum TermColor {
    Reset,
    Rgb(u8, u8, u8),
}

/// The primary colours of a theme, as written in the theme file.
#[derive(Debug, Clone)]
pub struct PrimaryColorsHex {
    pub background: Option<String>,
    pub foreground: Option<String>,
}

/// The cursor colours of a theme, as written in the theme file.
#[derive(Debug, Clone)]
pub struct CursorColorsHex {
    pub text: String,
}

/// The normal palette of a theme, as written in the theme file.
#[derive(Debug, Clone)]
pub struct NormalColors {
    pub red: String,
    pub green: String,
    pub yellow: String,
    pub blue: String,
    pub magenta: String,
    pub cyan: String,
}

/// The `[colors]` table of a theme file.
#[derive(Debug, Clone)]
pub struct ColorScheme {
    pub primary_hex: PrimaryColorsHex,
    pub cursor_hex: CursorColorsHex,
    pub normal: NormalColors,
}

/// The colours of a theme, decoded once for the preview.
#[derive(Debug, Clone, Copy, PartialEq, Eq, Structural)]
pub struct CachedColors {
    pub background: Option<TermColor>,
    pub foreground: Option<TermColor>,
    pub red: Option<TermColor>,
    pub green: Option<TermColor>,
    pub yellow: Option<TermColor>,
    pub blue: Option<TermColor>,
    pub magenta: Option<TermColor>,
    pub cyan: Option<TermColor>,
    pub cursor_text: Option<TermColor>,
}

/// A theme's colour scheme together with its decoded colours.
#[derive(Debug, Clone)]
pub struct ThemeColors {
    pub colors: ColorScheme,
    pub cached: Option<CachedColors>,
}

/// How many bytes UTF-8 spends on `c`.
pub open spec fn utf8_width(c: char) -> int {
    let u = c as u32;
    if u < 0x80 {
        1
    } else if u < 0x800 {
        2
    } else if u < 0x10000 {
        3
    } else {
        4
    }
}

/// The length in bytes of the UTF-8 encoding of `s` (`str::len`).
pub open spec fn byte_len(s: Seq<char>) -> int
    decreases s.len(),
{
    if s.len() == 0 {
        0
    } else {
        byte_len(s.drop_last()) + utf8_width(s.last())
    }
}

/// `c` is an ASCII character.
pub open spec fn is_ascii_char(c: char) -> bool {
    (c as u32) < 0x80
}

/// The value of a hexadecimal digit.
pub open spec fn hex_digit(c: char) -> Option<u8> {
    let u = c as u32;
    if 0x30 <= u <= 0x39 {
        Some((u - 0x30) as u8)
    } else if 0x61 <= u <= 0x66 {
        Some((u - 0x61 + 10) as u8)
    } else if 0x41 <= u <= 0x46 {
        Some((u - 0x41 + 10) as u8)
    } else {
        None
    }
}

/// What `u8::from_str_radix(_, 16)` gives for the two characters `a b`: an
/// optional `+` sign followed by hexadecimal digits.
pub open spec fn pair_value(a: char, b: char) -> Option<u8> {
    if a == '+' {
        hex_digit(b)
    } else {
        match (hex_digit(a), hex_digit(b)) {
            (Some(x), Some(y)) => Some((16 * x + y) as u8),
            _ => None,
        }
    }
}

/// The byte value of the digits starting at character `i` of `s`, when the
/// two characters there are ASCII (so that they are the bytes `i` and `i+1`).
pub open spec fn pair_at(s: Seq<char>, i: int) -> Option<u8> {
    if i + 1 < s.len() && is_ascii_char(s[i]) && is_ascii_char(s[i + 1]) {
        pair_value(s[i], s[i + 1])
    } else {
        None
    }
}

/// Slicing two bytes at byte `i` (the characters before `i` being ASCII)
/// cuts a character in two.
pub open spec fn pair_cuts_char(s: Seq<char>, i: int) -> bool {
    &&& 0 <= i < s.len()
    &&& if is_ascii_char(s[i]) {
        i + 1 < s.len() && !is_ascii_char(s[i + 1])
    } else {
        utf8_width(s[i]) >= 3
    }
}

/// What is left of a colour string once surrounding whitespace and leading
/// `#` signs are removed.
pub open spec fn hex_digits(hex: Seq<char>) -> Seq<char> {
    strip_leading(trim(hex), '#')
}

/// The colour written as `hex`: six hexadecimal digits, read two by two as
/// red, green and blue, after surrounding whitespace and leading `#` signs;
/// `None` when fewer than six bytes remain or a pair is not a number.
pub open spec fn hex_rgb_of(hex: Seq<char>) -> Option<(u8, u8, u8)> {
    let d = hex_digits(hex);
    if byte_len(d) < 6 {
        None
    } else {
        match pair_at(d, 0) {
            None => None,
            Some(r) => match pair_at(d, 2) {
                None => None,
                Some(g) => match pair_at(d, 4) {
                    None => None,
                    Some(b) => Some((r, g, b)),
                },
            },
        }
    }
}

/// Reading `hex` as a colour slices a string inside a character, which
/// panics.
pub open spec fn hex_cuts_char(hex: Seq<char>) -> bool {
    let d = hex_digits(hex);
    &&& byte_len(d) >= 6
    &&& {
        ||| pair_cuts_char(d, 0)
        ||| pair_at(d, 0) is Some && pair_cuts_char(d, 2)
        ||| pair_at(d, 0) is Some && pair_at(d, 2) is Some && pair_cuts_char(d, 4)
    }
}

proof fn lemma_byte_len_prefix(s: Seq<char>, k: int)
    requires
        0 <= k < s.len(),
    ensures
        byte_len(s.take(k + 1)) == byte_len(s.take(k)) + utf8_width(s[k]),
        byte_len(s.take(k + 1)) <= byte_len(s),
    decreases s.len() - k,
{
    assert(s.take(k + 1).drop_last() =~= s.take(k));
    if k + 1 < s.len() {
        lemma_byte_len_prefix(s, k + 1);
    } else {
        assert(s.take(k + 1) =~= s);
    }
}

/// Whether the characters `s` take at least six bytes in UTF-8.
fn at_least_six_bytes(s: &[char]) -> (r: bool)
    ensures
        r == (byte_len(s@) >= 6),
{
    let mut total: usize = 0;
    let mut i: usize = 0;
    assert(s@.take(0) =~= Seq::<char>::empty());
    while i < s.len()
        invariant
            i <= s@.len(),
            total == byte_len(s@.take(i as int)),
            total < 6,
        decreases s@.len() - i,
    {
        let u = s[i] as u32;
        let w: usize = if u < 0x80 {
            1
        } else if u < 0x800 {
            2
        } else if u < 0x10000 {
            3
        } else {
            4
        };
        proof {
            lemma_byte_len_prefix(s@, i as int);
        }
        total = total + w;
        i = i + 1;
        if total >= 6 {
            return true;
        }
    }
    assert(s@.take(s@.len() as int) =~= s@);
    false
}

/// The value of the hexadecimal digit `c`.
fn hex_digit_value(c: char) -> (r: Option<u8>)
    ensures
        r == hex_digit(c),
{
    let u = c as u32;
    if 0x30 <= u && u <= 0x39 {
        Some((u - 0x30) as u8)
    } else if 0x61 <= u && u <= 0x66 {
        Some((u - 0x61 + 10) as u8)
    } else if 0x41 <= u && u <= 0x46 {
        Some((u - 0x41 + 10) as u8)
    } else {
        None
    }
}

/// The number written by the two characters `a b` in base 16.
fn pair_number(a: char, b: char) -> (r: Option<u8>)
    ensures
        r == pair_value(a, b),
{
    if a == '+' {
        return hex_digit_value(b);
    }
    match (hex_digit_value(a), hex_digit_value(b)) {
        (Some(x), Some(y)) => Some(16 * x + y),
        _ => None,
    }
}

/// The byte value of the two characters at `i`, when both are ASCII.
fn pair_number_at(d: &[char], i: usize) -> (r: Option<u8>)
    ensures
        r == pair_at(d@, i as int),
{
    if i < d.len() && d.len() - i > 1 && (d[i] as u32) < 0x80 && (d[i + 1] as u32) < 0x80 {
        pair_number(d[i], d[i + 1])
    } else {
        None
    }
}

/// Whether slicing two bytes at character `i` would cut a character.
fn pair_would_cut(d: &[char], i: usize) -> (r: bool)
    ensures
        r == pair_cuts_char(d@, i as int),
{
    if i >= d.len() {
        return false;
    }
    let u = d[i] as u32;
    if u < 0x80 {
        d.len() - i > 1 && (d[i + 1] as u32) >= 0x80
    } else {
        u >= 0x800
    }
}

/// The characters of a colour string that carry its digits.
fn digits_of(hex: &str) -> (d: Vec<char>)
    ensures
        d@ == hex_digits(hex@),
{
    let c = chars_of(hex);
    let t = trim_chars(c.as_slice());
    strip_leading_chars(t.as_slice(), '#')
}

/// Whether reading `hex` as a colour would slice a string inside a
/// character, which panics.
pub fn hex_would_panic(hex: &str) -> (r: bool)
    ensures
        r == hex_cuts_char(hex@),
{
    let d = digits_of(hex);
    if !at_least_six_bytes(d.as_slice()) {
        return false;
    }
    if pair_would_cut(d.as_slice(), 0) {
        return true;
    }
    if pair_number_at(d.as_slice(), 0).is_none() {
        return false;
    }
    if pair_would_cut(d.as_slice(), 2) {
        return true;
    }
    if pair_number_at(d.as_slice(), 2).is_none() {
        return false;
    }
    pair_would_cut(d.as_slice(), 4)
}

/// The red, green and blue bytes written in `hex`, such as `#282a36`.
pub fn hex_rgb(hex: &str) -> (r: Option<(u8, u8, u8)>)
    requires
        !hex_cuts_char(hex@),
    ensures
        r == hex_rgb_of(hex@),
{
    let d = digits_of(hex);
    if !at_least_six_bytes(d.as_slice()) {
        return None;
    }
    let r = match pair_number_at(d.as_slice(), 0) {
        Some(v) => v,
        None => return None,
    };
    let g = match pair_number_at(d.as_slice(), 2) {
        Some(v) => v,
        None => return None,
    };
    let b = match pair_number_at(d.as_slice(), 4) {
        Some(v) => v,
        None => return None,
    };
    Some((r, g, b))
}

/// The byte the hexadecimal digits `a b` spell.
pub open spec fn spelled_byte(a: char, b: char) -> u8 {
    (16 * hex_digit(a)->0 + hex_digit(b)->0) as u8
}

proof fn lemma_hex_digit_plain(c: char)
    requires
        hex_digit(c) is Some,
    ensures
        is_ascii_char(c),
        !is_ws(c),
        c != '#',
        c != '+',
        utf8_width(c) == 1,
{
    if c == '#' {
        assert(c as u32 == 0x23);
    }
    if c == '+' {
        assert(c as u32 == 0x2B);
    }
}

/// Six hexadecimal digits, with or without a leading `#`, read as the three
/// bytes they spell, and reading them never slices inside a character.
pub proof fn law_hex_digits_read(d: Seq<char>)
    requires
        d.len() == 6,
        forall|i: int| 0 <= i < 6 ==> #[trigger] hex_digit(d[i]) is Some,
    ensures
        hex_rgb_of(d) == Some(
            (spelled_byte(d[0], d[1]), spelled_byte(d[2], d[3]), spelled_byte(d[4], d[5])),
        ),
        hex_rgb_of(seq!['#'] + d) == hex_rgb_of(d),
        !hex_cuts_char(d),
        !hex_cuts_char(seq!['#'] + d),
{
    assert forall|i: int| 0 <= i < 6 implies is_ascii_char(#[trigger] d[i]) && !is_ws(d[i])
        && d[i] != '#' && d[i] != '+' && utf8_width(d[i]) == 1 by {
        lemma_hex_digit_plain(d[i]);
    }
    assert(hex_digit(d[0]) is Some);
    assert(hex_digit(d[5]) is Some);
    assert(trim_start(d) == d);
    assert(trim_end(d) == d) by {
        assert(d.last() == d[5]);
    }
    assert(strip_leading(d, '#') == d);
    assert(hex_digits(d) == d);
    let h = seq!['#'] + d;
    assert(!is_ws('#')) by {
        assert('#' as u32 == 0x23);
    }
    assert(h[0] == '#');
    assert(trim_start(h) == h);
    assert(trim_end(h) == h) by {
        assert(h.last() == d[5]);
    }
    assert(h.drop_first() =~= d);
    assert(strip_leading(h, '#') == strip_leading(d, '#'));
    assert(hex_digits(h) == d);
    reveal_with_fuel(byte_len, 7);
    assert(d.drop_last().drop_last().drop_last().drop_last().drop_last().drop_last().len() == 0);
    assert(byte_len(d) == 6) by {
        let d5 = d.drop_last();
        let d4 = d5.drop_last();
        let d3 = d4.drop_last();
        let d2 = d3.drop_last();
        let d1 = d2.drop_last();
        assert(d5.last() == d[4]);
        assert(d4.last() == d[3]);
        assert(d3.last() == d[2]);
        assert(d2.last() == d[1]);
        assert(d1.last() == d[0]);
        assert(byte_len(d1) == 1);
        assert(byte_len(d2) == 2);
        assert(byte_len(d3) == 3);
        assert(byte_len(d4) == 4);
        assert(byte_len(d5) == 5);
    }
    assert(hex_digit(d[1]) is Some);
    assert(hex_digit(d[2]) is Some);
    assert(hex_digit(d[3]) is Some);
    assert(hex_digit(d[4]) is Some);
}

/// The colour written as `hex`, if it is one.
pub open spec fn hex_color_of(hex: Seq<char>) -> Option<TermColor> {
    match hex_rgb_of(hex) {
        Some((r, g, b)) => Some(TermColor::Rgb(r, g, b)),
        None => None,
    }
}

/// The colour written as `hex`, if it is one.
pub fn hex_to_color_opt(hex: &str) -> (r: Option<TermColor>)
    requires
        !hex_cuts_char(hex@),
    ensures
        r == hex_color_of(hex@),
{
    match hex_rgb(hex) {
        Some((r, g, b)) => Some(TermColor::Rgb(r, g, b)),
        None => None,
    }
}

/// The colour written as `hex`; the terminal's own colour when `hex` is not
/// one.
pub fn hex_to_color(hex: &str) -> (r: TermColor)
    requires
        !hex_cuts_char(hex@),
    ensures
        r == (match hex_color_of(hex@) {
            Some(c) => c,
            None => TermColor::Reset,
        }),
{
    match hex_to_color_opt(hex) {
        Some(c) => c,
        None => TermColor::Reset,
    }
}

// ---------------------------------------------------------------------------
// A theme's background, for its category
// ---------------------------------------------------------------------------

/// What `toml::from_str::<toml::Value>` gives for the text `text`: the
/// parsed document, or nothing when the text is not TOML.
pub uninterp spec fn toml_document(text: Seq<char>) -> Option<toml::Value>;

/// What `toml::Value::get(key)` gives for `v`: the entry `key` of a table.
pub uninterp spec fn toml_entry(v: toml::Value, key: Seq<char>) -> Option<toml::Value>;

/// What `toml::Value::as_str` gives for `v`: its text, when it is a string.
pub uninterp spec fn toml_string(v: toml::Value) -> Option<Seq<char>>;

/// `toml::from_str::<toml::Value>`, its error dropped; the contract names
/// the result.
#[verifier::external_body]
fn toml_parse(text: &str) -> (r: Option<toml::Value>)
    ensures
        r == toml_document(text@),
{
    toml::from_str::<toml::Value>(text).ok()
}

/// `toml::Value::get`, the entry copied out; the contract names the result.
#[verifier::external_body]
fn toml_get(v: &toml::Value, key: &str) -> (r: Option<toml::Value>)
    ensures
        r == toml_entry(*v, key@),
{
    v.get(key).cloned()
}

/// `toml::Value::as_str`, as an owned string; the contract names the result.
#[verifier::external_body]
fn toml_as_str(v: &toml::Value) -> (r: Option<String>)
    ensures
        match r {
            Some(s) => toml_string(*v) == Some(s@),
            None => toml_string(*v) is None,
        },
{
    v.as_str().map(|s| s.to_string())
}

/// The string a theme file text holds at `colors.primary.background`, when
/// the text is TOML and that entry is a string.
pub open spec fn primary_background_of(text: Seq<char>) -> Option<Seq<char>> {
    match toml_document(text) {
        None => None,
        Some(doc) => match toml_entry(doc, "colors"@) {
            None => None,
            Some(colors) => match toml_entry(colors, "primary"@) {
                None => None,
                Some(primary) => match toml_entry(primary, "background"@) {
                    None => None,
                    Some(bg) => toml_string(bg),
                },
            },
        },
    }
}

/// The string a theme file text holds at `colors.primary.background`.
fn primary_background(text: &str) -> (r: Option<String>)
    ensures
        match r {
            Some(s) => primary_background_of(text@) == Some(s@),
            None => primary_background_of(text@) is None,
        },
{
    let doc = match toml_parse(text) {
        Some(d) => d,
        None => return None,
    };
    let colors = match toml_get(&doc, "colors") {
        Some(c) => c,
        None => return None,
    };
    let primary = match toml_get(&colors, "primary") {
        Some(p) => p,
        None => return None,
    };
    let bg = match toml_get(&primary, "background") {
        Some(b) => b,
        None => return None,
    };
    toml_as_str(&bg)
}

/// What a theme file says of its background.
#[derive(Debug, Clone, Copy, PartialEq, Eq, Structural)]
pub enum BackgroundBytes {
    /// The file is not TOML or has no `colors.primary.background` string.
    NoBackground,
    /// The background is not a colour.
    NotAColor,
    /// Reading the background would slice a string inside a character,
    /// which panics.
    WouldPanic,
    /// The background's red, green and blue bytes.
    Bytes(u8, u8, u8),
}

/// What the theme file text `text` says of its background.
pub open spec fn background_of(text: Seq<char>) -> BackgroundBytes {
    match primary_background_of(text) {
        None => BackgroundBytes::NoBackground,
        Some(h) => if hex_cuts_char(h) {
            BackgroundBytes::WouldPanic
        } else {
            match hex_rgb_of(h) {
                Some((r, g, b)) => BackgroundBytes::Bytes(r, g, b),
                None => BackgroundBytes::NotAColor,
            }
        },
    }
}

/// What the theme file text `text` says of its background.
pub fn background_bytes(text: &str) -> (r: BackgroundBytes)
    ensures
        r == background_of(text@),
{
    match primary_background(text) {
        None => BackgroundBytes::NoBackground,
        Some(h) => if hex_would_panic(h.as_str()) {
            BackgroundBytes::WouldPanic
        } else {
            match hex_rgb(h.as_str()) {
                Some((r, g, b)) => BackgroundBytes::Bytes(r, g, b),
                None => BackgroundBytes::NotAColor,
            }
        },
    }
}

/// `l` is what [`luminance_verdict`] may give for `background` when `f`
/// judges whether a colour is light.
pub open spec fn verdict_gives<F: Fn(u8, u8, u8) -> bool>(
    f: F,
    background: BackgroundBytes,
    l: Option<ThemeCategory>,
) -> bool {
    match background {
        BackgroundBytes::Bytes(r, g, b) => exists|light: bool|
            #[trigger] f.ensures((r, g, b), light) && l == (if light {
                Some(ThemeCategory::Light)
            } else {
                None
            }),
        _ => l is None,
    }
}

/// The category a theme's background suggests: light when `is_light` says
/// its colour is light, else no verdict (also when there is no readable
/// background).
pub fn luminance_verdict<F: Fn(u8, u8, u8) -> bool>(background: BackgroundBytes, is_light: &F) -> (r:
    Option<ThemeCategory>)
    requires
        forall|r: u8, g: u8, b: u8| is_light.requires((r, g, b)),
        !(background is WouldPanic),
    ensures
        verdict_gives(*is_light, background, r),
{
    match background {
        BackgroundBytes::Bytes(r, g, b) => {
            let light = is_light(r, g, b);
            proof {
                assert(is_light.ensures((r, g, b), light));
            }
            if light {
                Some(ThemeCategory::Light)
            } else {
                None
            }
        },
        _ => None,
    }
}

/// `c` is the category `f` gives a theme with this background: light
/// exactly when `f` judged the background's colour light, and dark when
/// there is no colour to judge.
pub open spec fn judged<F: Fn(u8, u8, u8) -> bool>(
    f: F,
    background: BackgroundBytes,
    c: ThemeCategory,
) -> bool {
    match background {
        BackgroundBytes::Bytes(r, g, b) => f.ensures((r, g, b), c == ThemeCategory::Light),
        _ => c == ThemeCategory::Dark,
    }
}

/// A theme's category, given its file's text: the name's suffix decides;
/// else a background judged light makes it light; else (also when the text
/// is not TOML, has no colours or its background is no colour) it is dark.
pub proof fn law_category_from_text<F: Fn(u8, u8, u8) -> bool>(
    name_lower: Seq<char>,
    text: Seq<char>,
    f: F,
    l: Option<ThemeCategory>,
)
    requires
        verdict_gives(f, background_of(text), l),
    ensures
        category_from_name(name_lower) matches Some(c) ==> decide_category(
            category_from_name(name_lower),
            l,
        ) == c,
        category_from_name(name_lower) is None ==> judged(
            f,
            background_of(text),
            decide_category(category_from_name(name_lower), l),
        ),
{
}

/// No colour string of the scheme cuts a character when it is read.
pub open spec fn scheme_readable(cs: ColorScheme) -> bool {
    &&& (cs.primary_hex.background matches Some(h) ==> !hex_cuts_char(h@))
    &&& (cs.primary_hex.foreground matches Some(h) ==> !hex_cuts_char(h@))
    &&& !hex_cuts_char(cs.normal.red@)
    &&& !hex_cuts_char(cs.normal.green@)
    &&& !hex_cuts_char(cs.normal.yellow@)
    &&& !hex_cuts_char(cs.normal.blue@)
    &&& !hex_cuts_char(cs.normal.magenta@)
    &&& !hex_cuts_char(cs.normal.cyan@)
    &&& !hex_cuts_char(cs.cursor_hex.text@)
}

/// The primary colour written as `h`: the colour, or the terminal's own
/// colour when `h` is not one.
pub open spec fn primary_color(h: Option<String>) -> Option<TermColor> {
    match h {
        Some(s) => Some(
            match hex_color_of(s@) {
                Some(c) => c,
                None => TermColor::Reset,
            },
        ),
        None => None,
    }
}

/// The colours of a scheme, decoded.
pub open spec fn decoded(cs: ColorScheme) -> CachedColors {
    CachedColors {
        background: primary_color(cs.primary_hex.background),
        foreground: primary_color(cs.primary_hex.foreground),
        red: hex_color_of(cs.normal.red@),
        green: hex_color_of(cs.normal.green@),
        yellow: hex_color_of(cs.normal.yellow@),
        blue: hex_color_of(cs.normal.blue@),
        magenta: hex_color_of(cs.normal.magenta@),
        cyan: hex_color_of(cs.normal.cyan@),
        cursor_text: hex_color_of(cs.cursor_hex.text@),
    }
}

fn primary(h: &Option<String>) -> (r: Option<TermColor>)
    requires
        h matches Some(s) ==> !hex_cuts_char(s@),
    ensures
        r == primary_color(*h),
{
    match h {
        Some(s) => Some(hex_to_color(s.as_str())),
        None => None,
    }
}

impl ColorScheme {
    /// Whether reading one of the scheme's colours would slice a string
    /// inside a character, which panics.
    pub fn read_would_panic(&self) -> (r: bool)
        ensures
            r == !scheme_readable(*self),
    {
        let bg = match &self.primary_hex.background {
            Some(h) => hex_would_panic(h.as_str()),
            None => false,
        };
        let fg = match &self.primary_hex.foreground {
            Some(h) => hex_would_panic(h.as_str()),
            None => false,
        };
        bg || fg || hex_would_panic(self.normal.red.as_str()) || hex_would_panic(
            self.normal.green.as_str(),
        ) || hex_would_panic(self.normal.yellow.as_str()) || hex_would_panic(
            self.normal.blue.as_str(),
        ) || hex_would_panic(self.normal.magenta.as_str()) || hex_would_panic(
            self.normal.cyan.as_str(),
        ) || hex_would_panic(self.cursor_hex.text.as_str())
    }
}

impl ThemeColors {
    /// The colours of a theme file's scheme, decoded for the preview.
    pub fn from_scheme(colors: ColorScheme) -> (r: ThemeColors)
        requires
            scheme_readable(colors),
        ensures
            r.colors == colors,
            r.cached == Some(decoded(colors)),
    {
        let cached = CachedColors {
            background: primary(&colors.primary_hex.background),
            foreground: primary(&colors.primary_hex.foreground),
            red: hex_to_color_opt(colors.normal.red.as_str()),
            green: hex_to_color_opt(colors.normal.green.as_str()),
            yellow: hex_to_color_opt(colors.normal.yellow.as_str()),
            blue: hex_to_color_opt(colors.normal.blue.as_str()),
            magenta: hex_to_color_opt(colors.normal.magenta.as_str()),
            cyan: hex_to_color_opt(colors.normal.cyan.as_str()),
            cursor_text: hex_to_color_opt(colors.cursor_hex.text.as_str()),
        };
        ThemeColors { colors, cached: Some(cached) }
    }

    /// The decoded colour picked by `pick`, or the terminal's own colour.
    pub open spec fn shown(self, pick: spec_fn(CachedColors) -> Option<TermColor>) -> TermColor {
        match self.cached {
            Some(c) => match pick(c) {
                Some(v) => v,
                None => TermColor::Reset,
            },
            None => TermColor::Reset,
        }
    }

    /// The background colour.
    pub fn background(&self) -> (r: TermColor)
        ensures
            r == self.shown(|c: CachedColors| c.background),
    {
        match self.cached {
            Some(c) => match c.background {
                Some(v) => v,
                None => TermColor::Reset,
            },
            None => TermColor::Reset,
        }
    }

    /// The foreground colour.
    pub fn foreground(&self) -> (r: TermColor)
        ensures
            r == self.shown(|c: CachedColors| c.foreground),
    {
        match self.cached {
            Some(c) => match c.foreground {
                Some(v) => v,
                None => TermColor::Reset,
            },
            None => TermColor::Reset,
        }
    }

    /// The red colour.
    pub fn red(&self) -> (r: TermColor)
        ensures
            r == self.shown(|c: CachedColors| c.red),
    {
        match self.cached {
            Some(c) => match c.red {
                Some(v) => v,
                None => TermColor::Reset,
            },
            None => TermColor::Reset,
        }
    }

    /// The green colour.
    pub fn green(&self) -> (r: TermColor)
        ensures
            r == self.shown(|c: CachedColors| c.green),
    {
        match self.cached {
            Some(c) => match c.green {
                Some(v) => v,
                None => TermColor::Reset,
            },
            None => TermColor::Reset,
        }
    }

    /// The yellow colour.
    pub fn yellow(&self) -> (r: TermColor)
        ensures
            r == self.shown(|c: CachedColors| c.yellow),
    {
        match self.cached {
            Some(c) => match c.yellow {
                Some(v) => v,
                None => TermColor::Reset,
            },
            None => TermColor::Reset,
        }
    }

    /// The blue colour.
    pub fn blue(&self) -> (r: TermColor)
        ensures
            r == self.shown(|c: CachedColors| c.blue),
    {
        match self.cached {
            Some(c) => match c.blue {
                Some(v) => v,
                None => TermColor::Reset,
            },
            None => TermColor::Reset,
        }
    }

    /// The magenta colour.
    pub fn magenta(&self) -> (r: TermColor)
        ensures
            r == self.shown(|c: CachedColors| c.magenta),
    {
        match self.cached {
            Some(c) => match c.magenta {
                Some(v) => v,
                None => TermColor::Reset,
            },
            None => TermColor::Reset,
        }
    }

    /// The cyan colour.
    pub fn cyan(&self) -> (r: TermColor)
        ensures
            r == self.shown(|c: CachedColors| c.cyan),
    {
        match self.cached {
            Some(c) => match c.cyan {
                Some(v) => v,
                None => TermColor::Reset,
            },
            None => TermColor::Reset,
        }
    }

    /// The colour of text under the cursor.
    pub fn cursor_text(&self) -> (r: TermColor)
        ensures
            r == self.shown(|c: CachedColors| c.cursor_text),
    {
        match self.cached {
            Some(c) => match c.cursor_text {
                Some(v) => v,
                None => TermColor::Reset,
            },
            None => TermColor::Reset,
        }
    }
}

/// The colour the preview paints for the colour string `h`: its bytes, or
/// the terminal's own colour when it is no colour.
pub open spec fn painted(h: Seq<char>) -> TermColor {
    match hex_rgb_of(h) {
        Some((r, g, b)) => TermColor::Rgb(r, g, b),
        None => TermColor::Reset,
    }
}

/// Each colour of the preview is read from the scheme entry of the same
/// name: the background and foreground from `colors.primary` (the
/// terminal's own colour when absent), the palette from `colors.normal`, and
/// the cursor from `colors.cursor.text`.
pub proof fn law_preview_colors_from_own_fields(tc: ThemeColors)
    requires
        tc.cached == Some(decoded(tc.colors)),
    ensures
        tc.shown(|c: CachedColors| c.background) == (match tc.colors.primary_hex.background {
            Some(h) => painted(h@),
            None => TermColor::Reset,
        }),
        tc.shown(|c: CachedColors| c.foreground) == (match tc.colors.primary_hex.foreground {
            Some(h) => painted(h@),
            None => TermColor::Reset,
        }),
        tc.shown(|c: CachedColors| c.red) == painted(tc.colors.normal.red@),
        tc.shown(|c: CachedColors| c.green) == painted(tc.colors.normal.green@),
        tc.shown(|c: CachedColors| c.yellow) == painted(tc.colors.normal.yellow@),
        tc.shown(|c: CachedColors| c.blue) == painted(tc.colors.normal.blue@),
        tc.shown(|c: CachedColors| c.magenta) == painted(tc.colors.normal.magenta@),
        tc.shown(|c: CachedColors| c.cyan) == painted(tc.colors.normal.cyan@),
        tc.shown(|c: CachedColors| c.cursor_text) == painted(tc.colors.cursor_hex.text@),
{
}

/// Whether a theme has the name `n`.
pub open spec fn named_as(n: Seq<char>) -> spec_fn(Theme) -> bool {
    |t: Theme| t.name@ == n
}

proof fn lemma_insert_keeps_order(s: Seq<Theme>, t: Theme, n: Seq<char>)
    ensures
        insert_by_name(s, t).filter(named_as(n)) == s.push(t).filter(named_as(n)),
    decreases s.len(),
{
    reveal(Seq::filter);
    let p = named_as(n);
    if s.len() == 0 || lex_le(s.last().name@, t.name@) {
    } else {
        let d = s.drop_last();
        let last = s.last();
        lemma_insert_keeps_order(d, t, n);
        let ins = insert_by_name(d, t);
        let r = ins.push(last);
        assert(r.drop_last() =~= ins);
        assert(s.push(t).drop_last() =~= s);
        assert(d.push(t).drop_last() =~= d);
        assert(s.drop_last() =~= d);
        if p(t) && p(last) {
            crate::seqs::law_lex_reflexive(t.name@);
            assert(last.name@ == t.name@);
        }
        if p(last) {
            assert(r.filter(p) == ins.filter(p).push(last));
            assert(s.filter(p) == d.filter(p).push(last));
            assert(!p(t));
            assert(ins.filter(p) == d.push(t).filter(p));
            assert(d.push(t).filter(p) == d.filter(p));
            assert(s.push(t).filter(p) == s.filter(p));
        } else {
            assert(r.filter(p) == ins.filter(p));
            assert(s.filter(p) == d.filter(p));
            if p(t) {
                assert(d.push(t).filter(p) == d.filter(p).push(t));
                assert(s.push(t).filter(p) == s.filter(p).push(t));
            } else {
                assert(d.push(t).filter(p) == d.filter(p));
                assert(s.push(t).filter(p) == s.filter(p));
            }
        }
    }
}

/// Ordering by name is stable: the themes of any one name come out in the
/// order they went in.
pub proof fn law_sort_is_stable(s: Seq<Theme>, n: Seq<char>)
    ensures
        sort_by_name(s).filter(named_as(n)) == s.filter(named_as(n)),
    decreases s.len(),
{
    reveal(Seq::filter);
    if s.len() > 0 {
        let d = s.drop_last();
        law_sort_is_stable(d, n);
        lemma_insert_keeps_order(sort_by_name(d), s.last(), n);
        let q = sort_by_name(d).push(s.last());
        assert(q.drop_last() =~= sort_by_name(d));
        assert(s =~= d.push(s.last()));
        assert(q.filter(named_as(n)) == if named_as(n)(s.last()) {
            sort_by_name(d).filter(named_as(n)).push(s.last())
        } else {
            sort_by_name(d).filter(named_as(n))
        });
    }
}

} // verus!
