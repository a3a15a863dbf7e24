//! The lines the fuzzy picker shows, and how a picked line is traced back to
//! its theme.
use crate::text::{
    chars_end_with, chars_of, chars_start_with, concat, has_prefix, has_suffix, paths_equal,
    same_chars, same_path, trim, trim_chars, trim_start, trim_end, is_ws,
};
use crate::themes::{category_icon, Theme, ThemeCategory};
use vstd::prelude::*;

verus! {

/// The marker after the current theme.
pub open spec fn current_marker() -> Seq<char> {
    " ●"@
}

/// The line shown for `t`: its category's symbol, its name, and the marker
/// when it is the current theme.
pub open spec fn picker_line(t: Theme, is_current: bool) -> Seq<char> {
    category_icon(t.category) + " "@ + t.name@ + if is_current {
        current_marker()
    } else {
        Seq::empty()
    }
}

/// Whether `t` is the current theme.
pub open spec fn is_current_theme(t: Theme, current: Option<Theme>) -> bool {
    match current {
        Some(c) => paths_equal(c.path@, t.path@),
        None => false,
    }
}

/// The picker's lines, one per theme, in order.
pub fn picker_items(themes: &Vec<Theme>, current: Option<&Theme>) -> (r: Vec<String>)
    ensures
        r@.len() == themes@.len(),
        forall|i: int|
            0 <= i < themes@.len() ==> #[trigger] r@[i]@ == picker_line(
                themes@[i],
                is_current_theme(
                    themes@[i],
                    match current {
                        Some(c) => Some(*c),
                        None => None,
                    },
                ),
            ),
{
    let mut items: Vec<String> = Vec::new();
    let mut i: usize = 0;
    while i < themes.len()
        invariant
            i <= themes@.len(),
            items@.len() == i,
            forall|j: int|
                0 <= j < i ==> #[trigger] items@[j]@ == picker_line(
                    themes@[j],
                    is_current_theme(
                        themes@[j],
                        match current {
                            Some(c) => Some(*c),
                            None => None,
                        },
                    ),
                ),
        decreases themes@.len() - i,
    {
        let t = &themes[i];
        let marked = match current {
            Some(c) => same_path(c.path.as_str(), t.path.as_str()),
            None => false,
        };
        let mut line = concat(t.category.icon(), " ");
        line.append(t.name.as_str());
        if marked {
            line.append(" ●");
        }
        proof {
            if !marked {
                assert(line@ =~= picker_line(*t, false));
            }
        }
        items.push(line);
        i = i + 1;
    }
    items
}

/// `s` without every trailing copy of `suf`.
pub open spec fn strip_suffixes(s: Seq<char>, suf: Seq<char>) -> Seq<char>
    decreases s.len(),
{
    if suf.len() > 0 && has_suffix(s, suf) {
        strip_suffixes(s.subrange(0, s.len() - suf.len()), suf)
    } else {
        s
    }
}

/// `s` without every leading copy of `pre`.
pub open spec fn strip_prefixes(s: Seq<char>, pre: Seq<char>) -> Seq<char>
    decreases s.len(),
{
    if pre.len() > 0 && has_prefix(s, pre) {
        strip_prefixes(s.subrange(pre.len() as int, s.len() as int), pre)
    } else {
        s
    }
}

/// The theme name a picked line shows: the line without the current
/// marker, the category symbols and the surrounding whitespace.
pub open spec fn picked_name(line: Seq<char>) -> Seq<char> {
    trim(
        strip_prefixes(
            strip_prefixes(strip_suffixes(line, current_marker()), category_icon(ThemeCategory::Dark)),
            category_icon(ThemeCategory::Light),
        ),
    )
}

/// The last position whose theme is named `name`.
pub open spec fn last_named(themes: Seq<Theme>, name: Seq<char>, n: int) -> Option<int>
    decreases n,
{
    if n <= 0 {
        None
    } else if themes[n - 1].name@ == name {
        Some(n - 1)
    } else {
        last_named(themes, name, n - 1)
    }
}

/// The characters of `s` from `from` to `to`.
fn slice(s: &[char], from: usize, to: usize) -> (r: Vec<char>)
    requires
        from <= to <= s@.len(),
    ensures
        r@ == s@.subrange(from as int, to as int),
{
    let mut r: Vec<char> = Vec::new();
    let mut i = from;
    while i < to
        invariant
            from <= i <= to <= s@.len(),
            r@ =~= s@.subrange(from as int, i as int),
        decreases to - i,
    {
        r.push(s[i]);
        i = i + 1;
    }
    r
}

/// `s` without every trailing copy of `suf`.
fn strip_all_suffixes(s: Vec<char>, suf: &[char]) -> (r: Vec<char>)
    ensures
        r@ == strip_suffixes(s@, suf@),
{
    let mut cur = s;
    while suf.len() > 0 && chars_end_with(cur.as_slice(), suf)
        invariant
            strip_suffixes(cur@, suf@) == strip_suffixes(s@, suf@),
        decreases cur@.len(),
    {
        let n = cur.len() - suf.len();
        cur = slice(cur.as_slice(), 0, n);
    }
    cur
}

/// `s` without every leading copy of `pre`.
fn strip_all_prefixes(s: Vec<char>, pre: &[char]) -> (r: Vec<char>)
    ensures
        r@ == strip_prefixes(s@, pre@),
{
    let mut cur = s;
    while pre.len() > 0 && chars_start_with(cur.as_slice(), pre)
        invariant
            strip_prefixes(cur@, pre@) == strip_prefixes(s@, pre@),
        decreases cur@.len(),
    {
        let n = cur.len();
        cur = slice(cur.as_slice(), pre.len(), n);
    }
    cur
}

/// The theme a picked line stands for: the last theme whose name the line
/// shows.
pub fn picked_theme(themes: &Vec<Theme>, selection: &str) -> (r: Option<Theme>)
    ensures
        match last_named(themes@, picked_name(selection@), themes@.len() as int) {
            Some(i) => r == Some(themes@[i]),
            None => r is None,
        },
{
    let line = chars_of(selection);
    let marker = chars_of(" ●");
    let dark = chars_of(ThemeCategory::Dark.icon());
    let light = chars_of(ThemeCategory::Light.icon());
    let a = strip_all_suffixes(line, marker.as_slice());
    let b = strip_all_prefixes(a, dark.as_slice());
    let c = strip_all_prefixes(b, light.as_slice());
    let name = trim_chars(c.as_slice());
    let ghost key = picked_name(selection@);
    assert(name@ == key);
    let mut i: usize = themes.len();
    while i > 0
        invariant
            i <= themes@.len(),
            name@ == key,
            key == picked_name(selection@),
            last_named(themes@, key, themes@.len() as int) == last_named(themes@, key, i as int),
        decreases i,
    {
        let n = chars_of(themes[i - 1].name.as_str());
        if same_chars(n.as_slice(), name.as_slice()) {
            let t = themes[i - 1].duplicate();
            assert(last_named(themes@, key, i as int) == Some(i - 1));
            return Some(t);
        }
        i = i - 1;
    }
    None
}

/// The picker reads back the name it shows: stripping the marker, the
/// category symbol and the surrounding space from a theme's line gives the
/// theme's name, for a non-empty name without surrounding whitespace that
/// neither ends in the marker nor is the marker's dot alone.
pub proof fn law_line_names_theme(t: Theme, is_current: bool)
    requires
        t.name@.len() > 0,
        !is_ws(t.name@[0]),
        !is_ws(t.name@.last()),
        !has_suffix(t.name@, current_marker()),
        t.name@ != "●"@,
    ensures
        picked_name(picker_line(t, is_current)) == t.name@,
{
    reveal_strlit(" ●");
    reveal_strlit(" ");
    reveal_strlit("⏾");
    reveal_strlit("☀");
    let n = t.name@;
    let icon = category_icon(t.category);
    let plain_line = icon + " "@ + n;
    let line = picker_line(t, is_current);
    let m = current_marker();
    assert(!has_suffix(plain_line, m)) by {
        reveal_strlit("●");
        if has_suffix(plain_line, m) {
            let tail = plain_line.subrange(plain_line.len() - 2, plain_line.len() as int);
            assert(tail == m);
            if n.len() >= 2 {
                assert(n.subrange(n.len() - 2, n.len() as int) =~= tail);
            } else {
                assert(tail[1] == n[0]);
                assert(n =~= "●"@);
            }
        }
    }
    assert(strip_suffixes(plain_line, m) == plain_line);
    if is_current {
        assert(line =~= plain_line + m);
        assert(has_suffix(line, m)) by {
            assert(line.subrange(line.len() - 2, line.len() as int) =~= m);
        }
        assert(line.subrange(0, line.len() - 2) =~= plain_line);
    } else {
        assert(line =~= plain_line);
    }
    assert(strip_suffixes(line, m) == plain_line);
    let dark = category_icon(ThemeCategory::Dark);
    let light = category_icon(ThemeCategory::Light);
    let rest = " "@ + n;
    assert(!has_prefix(rest, dark)) by {
        if has_prefix(rest, dark) {
            assert(rest.subrange(0, 1)[0] == dark[0]);
        }
    }
    assert(!has_prefix(rest, light)) by {
        if has_prefix(rest, light) {
            assert(rest.subrange(0, 1)[0] == light[0]);
        }
    }
    match t.category {
        ThemeCategory::Dark => {
            assert(has_prefix(plain_line, dark)) by {
                assert(plain_line.subrange(0, 1) =~= dark);
            }
            assert(plain_line.subrange(1, plain_line.len() as int) =~= rest);
            assert(strip_prefixes(rest, dark) == rest);
            assert(strip_prefixes(plain_line, dark) == rest);
            assert(strip_prefixes(rest, light) == rest);
        },
        ThemeCategory::Light => {
            assert(!has_prefix(plain_line, dark)) by {
                if has_prefix(plain_line, dark) {
                    assert(plain_line.subrange(0, 1)[0] == dark[0]);
                }
            }
            assert(strip_prefixes(plain_line, dark) == plain_line);
            assert(has_prefix(plain_line, light)) by {
                assert(plain_line.subrange(0, 1) =~= light);
            }
            assert(plain_line.subrange(1, plain_line.len() as int) =~= rest);
            assert(strip_prefixes(rest, light) == rest);
            assert(strip_prefixes(plain_line, light) == rest);
        },
    }
    assert(strip_prefixes(strip_prefixes(plain_line, dark), light) == rest);
    assert(is_ws(' ')) by {
        assert(' ' as u32 == 0x20);
    }
    assert(rest[0] == ' ');
    assert(rest.drop_first() =~= n);
    assert(trim_start(rest) == trim_start(n));
    assert(trim_start(n) == n);
    assert(trim_end(n) == n);
}

} // verus!
