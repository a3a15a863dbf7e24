//! Switching the active theme: Alacritty's configuration is made to import
//! the chosen theme and nothing else.
use crate::config::alacritty::{first_import, with_theme, AlacrittyConfig};
use crate::themes::Theme;
use vstd::prelude::*;

verus! {

/// Alacritty's configuration with `theme` as its only import; everything
/// else in it is kept, and reading the active theme back gives `theme`'s
/// path.
pub fn switch_theme(config: AlacrittyConfig, theme: &Theme) -> (r: AlacrittyConfig)
    ensures
        r.general.import@.len() == 1,
        r.general.import@[0]@ == theme.path@,
        r.other == config.other,
        first_import(r) == Some(theme.path@),
{
    with_theme(config, theme.path.as_str())
}

} // verus!
