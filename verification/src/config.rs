//! Althemer's own configuration: where its file lives, what it holds by
//! default, and how missing settings are filled in.
use crate::config::alacritty::{get_alacritty_config_path, themes_dir_beside};
use crate::error::AppError;
use crate::text::{copy_str, is_absolute, join, join_path, path_is_absolute};
use vstd::prelude::*;

pub mod alacritty;
pub mod cli;
pub mod config;
pub mod configuration;

verus! {

/// Althemer's settings.
#[derive(Debug, Clone)]
pub struct AlthemerConfig {
    /// The directory holding the theme files.
    pub themes_dir: Option<String>,
    /// Alacritty's configuration file, when it is not in the usual place.
    pub alacritty_config: Option<String>,
    /// Whether the browser shows a preview of the selected theme.
    pub show_preview: bool,
    /// Whether the browser quits once a theme is applied.
    pub quit_on_select: bool,
    /// Whether the picker lists its entries bottom-up.
    pub picker_reversed: bool,
    /// Whether the picker sorts matches by relevance.
    pub picker_sort_results: bool,
    /// Where these settings are stored; not part of the file itself.
    pub config_path: Option<String>,
}

/// The preview is shown unless switched off.
pub fn default_show_preview() -> (r: bool)
    ensures
        r,
{
    true
}

/// The browser stays open after a theme is applied unless asked otherwise.
pub fn default_quit_on_select() -> (r: bool)
    ensures
        !r,
{
    false
}

/// The picker lists top-down unless asked otherwise.
pub fn default_picker_reversed() -> (r: bool)
    ensures
        !r,
{
    false
}

/// The picker sorts matches by relevance unless asked otherwise.
pub fn default_picker_sort_results() -> (r: bool)
    ensures
        r,
{
    true
}

/// The themes directory by default: the `themes` directory beside
/// Alacritty's configuration file in the platform's configuration directory
/// `config_dir`, when it exists.
pub fn default_themes_dir<F: Fn(&str) -> bool>(config_dir: Option<&str>, path_exists: &F) -> (r:
    Option<String>)
    requires
        forall|p: &str| path_exists.requires((p,)),
    ensures
        match config_dir {
            None => r is None,
            Some(d) => beside_result(
                *path_exists,
                join(crate::config::alacritty::alacritty_dir_of(d@), "alacritty.toml"@),
                opt_chars(r),
            ),
        },
{
    match get_alacritty_config_path(None, None, config_dir) {
        Ok(alacritty_config) => themes_dir_beside(alacritty_config.as_str(), path_exists),
        Err(_) => None,
    }
}

/// The environment variable holding the XDG base directory for user
/// configuration.
pub const XDG_CONFIG_HOME_ENV: &'static str = "XDG_CONFIG_HOME";

/// The directories of the user's environment that the settings depend on.
#[derive(Debug, Clone)]
pub struct SystemDirs {
    /// The value of `XDG_CONFIG_HOME`, if set.
    pub xdg_config_home: Option<String>,
    /// The user's home directory.
    pub home_dir: Option<String>,
    /// The platform's configuration directory.
    pub config_dir: Option<String>,
}

/// Althemer's settings file under a configuration directory.
pub open spec fn config_file_in(config_home: Seq<char>) -> Seq<char> {
    join(join(config_home, "althemer"@), "config.json"@)
}

/// `althemer/config.json` under `config_home`.
pub fn althemer_config_file(config_home: &str) -> (r: String)
    ensures
        r@ == config_file_in(config_home@),
{
    let dir = join_path(config_home, "althemer");
    join_path(dir.as_str(), "config.json")
}

/// The optional characters of an optional string slice.
pub open spec fn opt_view(s: Option<&str>) -> Option<Seq<char>> {
    match s {
        Some(t) => Some(t@),
        None => None,
    }
}

/// The places the settings file may be, most preferred first:
/// `$XDG_CONFIG_HOME/althemer/config.json`, `~/.config/althemer/config.json`,
/// and `althemer/config.json` in the platform's configuration directory.
pub open spec fn config_candidates(
    xdg: Option<Seq<char>>,
    home: Option<Seq<char>>,
    platform: Option<Seq<char>>,
) -> Seq<Seq<char>> {
    let a = match xdg {
        Some(x) => seq![config_file_in(x)],
        None => Seq::empty(),
    };
    let b = match home {
        Some(h) => seq![config_file_in(join(h, ".config"@))],
        None => Seq::empty(),
    };
    let c = match platform {
        Some(p) => seq![config_file_in(p)],
        None => Seq::empty(),
    };
    a + b + c
}

/// `f`, asked whether the path with the characters `path` exists, may answer
/// `b`.
pub open spec fn says<F: Fn(&str) -> bool>(f: F, path: Seq<char>, b: bool) -> bool {
    exists|p: &str| p@ == path && #[trigger] f.ensures((p,), b)
}

/// `r` is where the settings file is, given the candidates `cs`: the first
/// one that exists, or, when none exists, the first one.
pub open spec fn resolved_from<F: Fn(&str) -> bool>(
    f: F,
    cs: Seq<Seq<char>>,
    r: Option<Seq<char>>,
) -> bool {
    match r {
        None => cs.len() == 0,
        Some(p) => {
            ||| exists|k: int|
                0 <= k < cs.len() && p == cs[k] && says(f, cs[k], true) && forall|j: int|
                    0 <= j < k ==> says(f, #[trigger] cs[j], false)
            ||| cs.len() > 0 && p == cs[0] && forall|j: int|
                0 <= j < cs.len() ==> says(f, #[trigger] cs[j], false)
        },
    }
}

/// Resolves Althemer's own settings file: the first of the candidates (see
/// [`config_candidates`]) that exists; when none exists, the most preferred
/// one, as the place to create it.
pub fn resolve_config_path<F: Fn(&str) -> bool>(
    xdg_config_home: Option<&str>,
    home_dir: Option<&str>,
    platform_config_dir: Option<&str>,
    path_exists: &F,
) -> (r: Option<String>)
    requires
        forall|p: &str| path_exists.requires((p,)),
    ensures
        resolved_from(
            path_exists,
            config_candidates(
                opt_view(xdg_config_home),
                opt_view(home_dir),
                opt_view(platform_config_dir),
            ),
            match r {
                Some(s) => Some(s@),
                None => None,
            },
        ),
{
    let mut candidates: Vec<String> = Vec::new();
    if let Some(x) = xdg_config_home {
        candidates.push(althemer_config_file(x));
    }
    if let Some(h) = home_dir {
        let dot = join_path(h, ".config");
        candidates.push(althemer_config_file(dot.as_str()));
    }
    if let Some(p) = platform_config_dir {
        candidates.push(althemer_config_file(p));
    }
    let ghost cs = config_candidates(
        opt_view(xdg_config_home),
        opt_view(home_dir),
        opt_view(platform_config_dir),
    );
    assert(candidates@.map_values(|s: String| s@) =~= cs);
    let mut i: usize = 0;
    while i < candidates.len()
        invariant
            i <= candidates@.len(),
            candidates@.map_values(|s: String| s@) == cs,
            cs == config_candidates(
                opt_view(xdg_config_home),
                opt_view(home_dir),
                opt_view(platform_config_dir),
            ),
            forall|p: &str| path_exists.requires((p,)),
            forall|j: int| 0 <= j < i ==> says(path_exists, #[trigger] cs[j], false),
        decreases candidates@.len() - i,
    {
        let c = candidates[i].as_str();
        let found = path_exists(c);
        proof {
            assert(cs[i as int] == candidates@[i as int]@);
            assert(path_exists.ensures((c,), found));
            assert(says(path_exists, cs[i as int], found));
        }
        if found {
            let r = candidates[i].clone();
            proof {
                let k = i as int;
                assert(says(path_exists, cs[k], true));
                assert(r@ == cs[k]);
                assert(0 <= k < cs.len() && r@ == cs[k] && says(path_exists, cs[k], true) && forall|j: int|
                    0 <= j < k ==> says(path_exists, #[trigger] cs[j], false));
                assert(resolved_from(path_exists, cs, Some(r@)));
            }
            return Some(r);
        }
        i = i + 1;
    }
    if candidates.len() > 0 {
        let r = candidates[0].clone();
        proof {
            assert(cs[0] == candidates@[0]@);
        }
        Some(r)
    } else {
        None
    }
}

/// The XDG configuration directory the variable names, if it names an
/// absolute path.
pub open spec fn xdg_home_of(var: Option<Seq<char>>) -> Option<Seq<char>> {
    match var {
        Some(v) => if v.len() > 0 && is_absolute(v) {
            Some(v)
        } else {
            None
        },
        None => None,
    }
}

/// The XDG configuration directory `$XDG_CONFIG_HOME` names; an empty or
/// relative value is ignored, as the XDG specification asks.
pub fn xdg_config_dir(var: Option<&str>) -> (r: Option<String>)
    ensures
        match r {
            Some(s) => xdg_home_of(opt_view(var)) == Some(s@),
            None => xdg_home_of(opt_view(var)) is None,
        },
{
    match var {
        Some(v) => if !v.is_empty() && path_is_absolute(v) {
            Some(copy_str(v))
        } else {
            None
        },
        None => None,
    }
}

/// Althemer's settings file under the XDG configuration directory
/// `$XDG_CONFIG_HOME` names (`althemer/config.json` there); nothing when the
/// value is empty or relative.
pub fn xdg_config_home(var: Option<&str>) -> (r: Option<String>)
    ensures
        match r {
            Some(s) => xdg_home_of(opt_view(var)) matches Some(d) && s@ == config_file_in(d),
            None => xdg_home_of(opt_view(var)) is None,
        },
{
    match xdg_config_dir(var) {
        Some(d) => Some(althemer_config_file(d.as_str())),
        None => None,
    }
}

/// Althemer's settings file in this environment (see
/// [`resolve_config_path`]).
pub fn get_config_path<F: Fn(&str) -> bool>(dirs: &SystemDirs, path_exists: &F) -> (r: Option<String>)
    requires
        forall|p: &str| path_exists.requires((p,)),
    ensures
        resolved_from(
            path_exists,
            config_candidates(
                xdg_home_of(
                    match dirs.xdg_config_home {
                        Some(x) => Some(x@),
                        None => None,
                    },
                ),
                match dirs.home_dir {
                    Some(h) => Some(h@),
                    None => None,
                },
                match dirs.config_dir {
                    Some(c) => Some(c@),
                    None => None,
                },
            ),
            match r {
                Some(s) => Some(s@),
                None => None,
            },
        ),
{
    let xdg_var = match &dirs.xdg_config_home {
        Some(x) => Some(x.as_str()),
        None => None,
    };
    let xdg = xdg_config_dir(xdg_var);
    let xdg_ref = match &xdg {
        Some(x) => Some(x.as_str()),
        None => None,
    };
    let home = match &dirs.home_dir {
        Some(h) => Some(h.as_str()),
        None => None,
    };
    let platform = match &dirs.config_dir {
        Some(c) => Some(c.as_str()),
        None => None,
    };
    resolve_config_path(xdg_ref, home, platform, path_exists)
}

/// `f` answers each path one way only.
pub open spec fn answers_consistently<F: Fn(&str) -> bool>(f: F) -> bool {
    forall|path: Seq<char>, a: bool, b: bool|
        #![trigger says(f, path, a), says(f, path, b)]
        says(f, path, a) && says(f, path, b) ==> a == b
}

/// For an existence test that answers each path one way only, the
/// candidates determine the settings file: two results that both follow the
/// resolution rule (as those of [`resolve_config_path`] and
/// [`get_config_path`] do for the same directories) are the same.
pub proof fn law_resolution_is_determined<F: Fn(&str) -> bool>(
    f: F,
    cs: Seq<Seq<char>>,
    r1: Option<Seq<char>>,
    r2: Option<Seq<char>>,
)
    requires
        answers_consistently(f),
        resolved_from(f, cs, r1),
        resolved_from(f, cs, r2),
    ensures
        r1 == r2,
{
    if r1 is Some && r2 is Some {
        let p1 = r1->0;
        let p2 = r2->0;
        let e1 = exists|k: int|
            0 <= k < cs.len() && p1 == cs[k] && says(f, cs[k], true) && forall|j: int|
                0 <= j < k ==> says(f, #[trigger] cs[j], false);
        let e2 = exists|k: int|
            0 <= k < cs.len() && p2 == cs[k] && says(f, cs[k], true) && forall|j: int|
                0 <= j < k ==> says(f, #[trigger] cs[j], false);
        if e1 && e2 {
            let k1 = choose|k: int|
                0 <= k < cs.len() && p1 == cs[k] && says(f, cs[k], true) && forall|j: int|
                    0 <= j < k ==> says(f, #[trigger] cs[j], false);
            let k2 = choose|k: int|
                0 <= k < cs.len() && p2 == cs[k] && says(f, cs[k], true) && forall|j: int|
                    0 <= j < k ==> says(f, #[trigger] cs[j], false);
            if k1 < k2 {
                assert(says(f, cs[k1], false));
                assert(says(f, cs[k1], true));
            } else if k2 < k1 {
                assert(says(f, cs[k2], false));
                assert(says(f, cs[k2], true));
            }
        } else if e1 {
            let k1 = choose|k: int|
                0 <= k < cs.len() && p1 == cs[k] && says(f, cs[k], true) && forall|j: int|
                    0 <= j < k ==> says(f, #[trigger] cs[j], false);
            assert(says(f, cs[k1], false));
        } else if e2 {
            let k2 = choose|k: int|
                0 <= k < cs.len() && p2 == cs[k] && says(f, cs[k], true) && forall|j: int|
                    0 <= j < k ==> says(f, #[trigger] cs[j], false);
            assert(says(f, cs[k2], false));
        }
    }
}

/// Where the settings come from when Althemer starts.
#[derive(Debug, Clone, PartialEq, Eq)]
pub enum ConfigSource {
    /// Read the settings file at this path.
    Load(String),
    /// Create a settings file with the defaults at this path.
    Create(String),
    /// Use the defaults without a file.
    Defaults,
}

/// Where the settings come from: the file given on the command line; else
/// the resolved settings file when it exists; else a new file at the
/// resolved place; else the defaults.
pub fn config_source(cli_config: Option<&str>, resolved: Option<String>, resolved_exists: bool) -> (r:
    ConfigSource)
    ensures
        match cli_config {
            Some(p) => r matches ConfigSource::Load(q) && q@ == p@,
            None => match resolved {
                Some(p) => if resolved_exists {
                    r == ConfigSource::Load(p)
                } else {
                    r == ConfigSource::Create(p)
                },
                None => r == ConfigSource::Defaults,
            },
        },
{
    match cli_config {
        Some(p) => ConfigSource::Load(copy_str(p)),
        None => match resolved {
            Some(p) => if resolved_exists {
                ConfigSource::Load(p)
            } else {
                ConfigSource::Create(p)
            },
            None => ConfigSource::Defaults,
        },
    }
}

/// `r` is what completing the settings `c` gives (see
/// [`AlthemerConfig::complete`]).
pub open spec fn completed<F: Fn(&str) -> bool>(
    c0: AlthemerConfig,
    cli_config: Option<&str>,
    resolved: Option<String>,
    config_dir: Option<&str>,
    path_exists: F,
    r: Result<AlthemerConfig, AppError>,
) -> bool {
    let path = match c0.config_path {
        Some(p) => Some(p@),
        None => match cli_config {
            Some(c) => Some(c@),
            None => match resolved {
                Some(p) => Some(p@),
                None => None,
            },
        },
    };
    match c0.themes_dir {
        Some(_) => r matches Ok(c) && c.themes_dir == c0.themes_dir && opt_chars(
            c.config_path,
        ) == path && c.alacritty_config == c0.alacritty_config && c.show_preview
            == c0.show_preview && c.quit_on_select == c0.quit_on_select
            && c.picker_reversed == c0.picker_reversed && c.picker_sort_results
            == c0.picker_sort_results,
        None => match (c0.alacritty_config, config_dir) {
            (None, None) => r matches Err(AppError::ConfigNotFound(p)) && p@
                == "~/.config/alacritty"@,
            _ => r matches Ok(c) && opt_chars(c.config_path) == path
                && c.alacritty_config == c0.alacritty_config && c.show_preview
                == c0.show_preview && c.quit_on_select == c0.quit_on_select
                && c.picker_reversed == c0.picker_reversed && c.picker_sort_results
                == c0.picker_sort_results && beside_result(
                path_exists,
                match c0.alacritty_config {
                    Some(a) => a@,
                    None => join(
                        crate::config::alacritty::alacritty_dir_of(config_dir->0@),
                        "alacritty.toml"@,
                    ),
                },
                opt_chars(c.themes_dir),
            ),
        },
    }
}

/// Where the settings are saved: their own path, else the resolved settings
/// file; a configuration error when there is neither.
pub fn save_target(config_path: Option<&str>, resolved: Option<String>) -> (r: Result<
    String,
    AppError,
>)
    ensures
        match config_path {
            Some(p) => r matches Ok(q) && q@ == p@,
            None => match resolved {
                Some(p) => r == Ok::<String, AppError>(p),
                None => r matches Err(AppError::ConfigurationError(m)) && m@
                    == "Could not determine where to save configuration"@,
            },
        },
{
    match config_path {
        Some(p) => Ok(copy_str(p)),
        None => match resolved {
            Some(p) => Ok(p),
            None => Err(
                AppError::ConfigurationError(
                    copy_str("Could not determine where to save configuration"),
                ),
            ),
        },
    }
}

impl AlthemerConfig {
    /// The default settings, with the given themes directory.
    pub fn with_defaults(themes_dir: Option<String>) -> (r: AlthemerConfig)
        ensures
            r.themes_dir == themes_dir,
            r.alacritty_config is None,
            r.show_preview,
            !r.quit_on_select,
            !r.picker_reversed,
            r.picker_sort_results,
            r.config_path is None,
    {
        AlthemerConfig {
            themes_dir,
            alacritty_config: None,
            show_preview: default_show_preview(),
            quit_on_select: default_quit_on_select(),
            picker_reversed: default_picker_reversed(),
            picker_sort_results: default_picker_sort_results(),
            config_path: None,
        }
    }

    /// The default settings to be stored at `path`.
    pub fn created_at(path: String, themes_dir: Option<String>) -> (r: AlthemerConfig)
        ensures
            r.themes_dir == themes_dir,
            r.alacritty_config is None,
            r.show_preview,
            !r.quit_on_select,
            !r.picker_reversed,
            r.picker_sort_results,
            r.config_path == Some(path),
    {
        let mut c = AlthemerConfig::with_defaults(themes_dir);
        c.config_path = Some(path);
        c
    }

    /// Fills in what the settings leave open: where they are stored (the
    /// file given on the command line, else the resolved settings file), and
    /// the themes directory (the `themes` directory beside Alacritty's
    /// configuration file, when it exists). Fails when Alacritty's
    /// configuration file cannot be located.
    pub fn complete<F: Fn(&str) -> bool>(
        self,
        cli_config: Option<&str>,
        resolved: Option<String>,
        config_dir: Option<&str>,
        path_exists: &F,
    ) -> (r: Result<AlthemerConfig, AppError>)
        requires
            forall|p: &str| path_exists.requires((p,)),
        ensures
            completed(self, cli_config, resolved, config_dir, *path_exists, r),
    {
        let mut config = self;
        if config.config_path.is_none() {
            config.config_path = match cli_config {
                Some(c) => Some(copy_str(c)),
                None => resolved,
            };
        }
        if config.themes_dir.is_none() {
            let configured = match &config.alacritty_config {
                Some(a) => Some(a.as_str()),
                None => None,
            };
            let alacritty_config = match get_alacritty_config_path(None, configured, config_dir) {
                Ok(p) => p,
                Err(e) => return Err(e),
            };
            config.themes_dir = themes_dir_beside(alacritty_config.as_str(), path_exists);
        }
        Ok(config)
    }

    /// The settings Althemer runs with: the settings that were loaded or
    /// created (see [`config_source`]), completed (see
    /// [`AlthemerConfig::complete`]); an error while loading them is passed
    /// on.
    pub fn new<F: Fn(&str) -> bool>(
        loaded: Result<AlthemerConfig, AppError>,
        cli_config: Option<&str>,
        resolved: Option<String>,
        config_dir: Option<&str>,
        path_exists: &F,
    ) -> (r: Result<AlthemerConfig, AppError>)
        requires
            forall|p: &str| path_exists.requires((p,)),
        ensures
            match loaded {
                Err(e) => r == Err::<AlthemerConfig, AppError>(e),
                Ok(c) => completed(c, cli_config, resolved, config_dir, *path_exists, r),
            },
    {
        match loaded {
            Err(e) => Err(e),
            Ok(c) => c.complete(cli_config, resolved, config_dir, path_exists),
        }
    }

    /// The themes directory to use: the one given on the command line, else
    /// the one in the settings.
    pub fn themes_path(&self, cli_themes: Option<&str>) -> (r: Option<String>)
        ensures
            opt_chars(r) == match cli_themes {
                Some(t) => Some(t@),
                None => opt_chars(self.themes_dir),
            },
    {
        match cli_themes {
            Some(t) => Some(copy_str(t)),
            None => self.themes_dir.clone(),
        }
    }

    /// Applies the answers of the interactive configuration: a themes
    /// directory (an empty answer keeps the current one, or, when there is
    /// none, picks `alacritty/themes` in the platform's configuration
    /// directory), and whether to preview and to quit after applying.
    pub fn configure(
        &mut self,
        themes_dir_answer: &str,
        platform_config_dir: Option<&str>,
        show_preview: bool,
        quit_on_select: bool,
    )
        ensures
            themes_dir_answer@.len() > 0 ==> opt_chars(final(self).themes_dir) == Some(
                themes_dir_answer@,
            ),
            themes_dir_answer@.len() == 0 && old(self).themes_dir is Some ==> final(self).themes_dir
                == old(self).themes_dir,
            themes_dir_answer@.len() == 0 && old(self).themes_dir is None ==> opt_chars(
                final(self).themes_dir,
            ) == (match platform_config_dir {
                Some(d) => Some(join(join(d@, "alacritty"@), "themes"@)),
                None => None,
            }),
            final(self).show_preview == show_preview,
            final(self).quit_on_select == quit_on_select,
            final(self).alacritty_config == old(self).alacritty_config,
            final(self).picker_reversed == old(self).picker_reversed,
            final(self).picker_sort_results == old(self).picker_sort_results,
            final(self).config_path == old(self).config_path,
    {
        if themes_dir_answer.is_empty() && self.themes_dir.is_none() {
            if let Some(path) = platform_config_dir {
                let a = join_path(path, "alacritty");
                self.themes_dir = Some(join_path(a.as_str(), "themes"));
            }
        } else if !themes_dir_answer.is_empty() {
            self.themes_dir = Some(copy_str(themes_dir_answer));
        }
        self.show_preview = show_preview;
        self.quit_on_select = quit_on_select;
    }
}

/// The optional characters of an optional string.
pub open spec fn opt_chars(s: Option<String>) -> Option<Seq<char>> {
    match s {
        Some(t) => Some(t@),
        None => None,
    }
}

/// `d` is what [`alacritty::themes_dir_beside`] may give for the
/// configuration file `config_file`.
pub open spec fn beside_result<F: Fn(&str) -> bool>(
    f: F,
    config_file: Seq<char>,
    d: Option<Seq<char>>,
) -> bool {
    match crate::config::alacritty::themes_beside_of(config_file) {
        None => d is None,
        Some(c) => (d == Some(c) && crate::config::alacritty::answers(f, c, true)) || (d is None
            && crate::config::alacritty::answers(f, c, false)),
    }
}

} // verus!
