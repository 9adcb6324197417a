//! Decisions of the per-subsystem appliers: where a bundle comes from, what
//! the lock screen's host config becomes, how the launcher's config names its
//! theme, and which name the current theme goes by.
use vstd::prelude::*;
use crate::modes::{HyprlockMode, WaybarMode, WalkerMode};
use crate::reconcile::{join, join_path, line_end};
use crate::text::{chars_of, copy_str, find_chars, occurs_at, push_char, str_eq, string_of_range, trim, trim_str};

verus! {

broadcast use vstd::string::group_string_axioms;

/// `n` occurs somewhere in `h`.
pub open spec fn contains_seq(h: Seq<char>, n: Seq<char>) -> bool {
    exists|i: int| occurs_at(h, n, i)
}

/// Whether `needle` occurs in `hay`.
pub fn contains_str(hay: &str, needle: &str) -> (r: bool)
    ensures
        r == contains_seq(hay@, needle@),
{
    let h = chars_of(hay);
    let n = chars_of(needle);
    match find_chars(&h, &n) {
        Some(_) => true,
        None => false,
    }
}

/// Where a subsystem's bundle comes from: the current theme's own bundle
/// directory (`auto`), or a named bundle among the shared ones.
pub open spec fn bundle_source(auto: bool, named: Option<Seq<char>>, theme_dir: Seq<char>, bundle: Seq<char>, themes_dir: Seq<char>) -> Option<Seq<char>> {
    if auto {
        Some(join(theme_dir, bundle))
    } else {
        match named {
            Some(n) => Some(join(themes_dir, n)),
            None => None,
        }
    }
}

pub open spec fn opt_view(o: Option<String>) -> Option<Seq<char>> {
    match o {
        Some(s) => Some(s@),
        None => None,
    }
}

fn source_for(auto: bool, named: &Option<String>, theme_dir: &str, bundle: &str, themes_dir: &str) -> (r: Option<String>)
    ensures
        opt_view(r) == bundle_source(auto, opt_view(*named), theme_dir@, bundle@, themes_dir@),
{
    if auto {
        Some(join_path(theme_dir, bundle))
    } else {
        match named {
            Some(n) => Some(join_path(themes_dir, n.as_str())),
            None => None,
        }
    }
}

/// The status bar bundle to apply, if any: `waybar-theme` of the current
/// theme, or a named bundle; nothing in mode `Keep` or without a name.
pub fn waybar_bundle_dir(mode: WaybarMode, name: &Option<String>, theme_dir: &str, themes_dir: &str) -> (r: Option<String>)
    ensures
        mode == WaybarMode::Keep ==> r is None,
        mode == WaybarMode::Auto ==> opt_view(r) == Some(join(theme_dir@, "waybar-theme"@)),
        mode == WaybarMode::Named ==> opt_view(r) == bundle_source(false, opt_view(*name), theme_dir@, "waybar-theme"@, themes_dir@),
{
    match mode {
        WaybarMode::Keep => None,
        WaybarMode::Auto => source_for(true, name, theme_dir, "waybar-theme", themes_dir),
        WaybarMode::Named => source_for(false, name, theme_dir, "waybar-theme", themes_dir),
    }
}

/// The launcher bundle to apply, if any (`walker-theme` of the current theme
/// or a named bundle).
pub fn walker_bundle_dir(mode: WalkerMode, name: &Option<String>, theme_dir: &str, themes_dir: &str) -> (r: Option<String>)
    ensures
        mode == WalkerMode::Keep ==> r is None,
        mode == WalkerMode::Auto ==> opt_view(r) == Some(join(theme_dir@, "walker-theme"@)),
        mode == WalkerMode::Named ==> opt_view(r) == bundle_source(false, opt_view(*name), theme_dir@, "walker-theme"@, themes_dir@),
{
    match mode {
        WalkerMode::Keep => None,
        WalkerMode::Auto => source_for(true, name, theme_dir, "walker-theme", themes_dir),
        WalkerMode::Named => source_for(false, name, theme_dir, "walker-theme", themes_dir),
    }
}

/// The lock screen bundle to apply, if any (`hyprlock-theme` of the current
/// theme or a named bundle).
pub fn hyprlock_bundle_dir(mode: HyprlockMode, name: &Option<String>, theme_dir: &str, themes_dir: &str) -> (r: Option<String>)
    ensures
        mode == HyprlockMode::Keep ==> r is None,
        mode == HyprlockMode::Auto ==> opt_view(r) == Some(join(theme_dir@, "hyprlock-theme"@)),
        mode == HyprlockMode::Named ==> opt_view(r) == bundle_source(false, opt_view(*name), theme_dir@, "hyprlock-theme"@, themes_dir@),
{
    match mode {
        HyprlockMode::Keep => None,
        HyprlockMode::Auto => source_for(true, name, theme_dir, "hyprlock-theme", themes_dir),
        HyprlockMode::Named => source_for(false, name, theme_dir, "hyprlock-theme", themes_dir),
    }
}

/// The lock screen takes the active theme's own `hyprlock.conf` when the
/// named bundle `omarchy-default` is selected.
pub fn hyprlock_uses_active_theme(mode: HyprlockMode, name: &Option<String>) -> (r: bool)
    ensures
        r == (mode == HyprlockMode::Named && (name matches Some(n) && n@ == "omarchy-default"@)),
{
    match (mode, name) {
        (HyprlockMode::Named, Some(n)) => str_eq(n.as_str(), "omarchy-default"),
        _ => false,
    }
}

/// The host config line that makes the lock screen read the current theme.
pub const CURRENT_THEME_SOURCE_SUFFIX: &'static str = "/.config/omarchy/current/theme/hyprlock.conf";

/// The host config written when the theme brings its own layout.
pub const MINIMAL_SOURCE_ONLY_HYPRLOCK: &'static str = "source = ~/.config/omarchy/current/theme/hyprlock.conf\n\ngeneral {\n    ignore_empty_input = true\n}\n\nanimations {\n    enabled = false\n}\n\nauth {\n    fingerprint:enabled = true\n}\n";

/// A lock screen config that only sets variables, and draws no widget.
pub open spec fn style_only(content: Seq<char>) -> bool {
    !contains_seq(content, "background {"@) && !contains_seq(content, "input-field {"@)
        && !contains_seq(content, "label {"@) && !contains_seq(content, "image {"@) && !contains_seq(
        content,
        "shape {"@,
    )
}

/// Whether a lock screen config only sets variables (draws no widget).
pub fn is_style_only_hyprlock_config(content: &str) -> (r: bool)
    ensures
        r == style_only(content@),
{
    !contains_str(content, "background {") && !contains_str(content, "input-field {")
        && !contains_str(content, "label {") && !contains_str(content, "image {") && !contains_str(
        content,
        "shape {",
    )
}

/// What to do with the lock screen's host config file.
#[derive(Debug, Clone)]
pub enum HostConfigAction {
    /// The user's own config does not read the current theme: leave it, warn.
    PreserveCustom,
    /// It already holds what it should.
    Unchanged,
    /// Write this content.
    Write(String),
}

/// Decides the lock screen's host config from its `existing` content (empty
/// when absent). A non-empty config that does not read the current theme is
/// the user's and is preserved. Otherwise a style-only theme gets the
/// install's wrapper config when there is one, and any other theme the
/// minimal config.
pub fn main_hyprlock_action(existing: &str, style_only_theme: bool, wrapper: Option<String>) -> (r:
    HostConfigAction)
    ensures
        existing@.len() > 0 && !contains_seq(existing@, CURRENT_THEME_SOURCE_SUFFIX@) ==> r is PreserveCustom,
        !(existing@.len() > 0 && !contains_seq(existing@, CURRENT_THEME_SOURCE_SUFFIX@)) ==> ({
            let desired = if style_only_theme && wrapper is Some {
                wrapper->0@
            } else {
                MINIMAL_SOURCE_ONLY_HYPRLOCK@
            };
            &&& existing@ == desired ==> r is Unchanged
            &&& existing@ != desired ==> (r matches HostConfigAction::Write(w) && w@ == desired)
        }),
{
    if existing.unicode_len() > 0 && !contains_str(existing, CURRENT_THEME_SOURCE_SUFFIX) {
        return HostConfigAction::PreserveCustom;
    }
    let desired = if style_only_theme {
        match wrapper {
            Some(w) => w,
            None => copy_str(MINIMAL_SOURCE_ONLY_HYPRLOCK),
        }
    } else {
        copy_str(MINIMAL_SOURCE_ONLY_HYPRLOCK)
    };
    if str_eq(existing, desired.as_str()) {
        HostConfigAction::Unchanged
    } else {
        HostConfigAction::Write(desired)
    }
}

/// Whether the host config reads the current theme's lock screen config,
/// by its absolute path or by the home-relative one.
pub fn hyprlock_sources_current(content: &str, expected_abs: &str) -> (r: bool)
    ensures
        r == (contains_seq(content@, expected_abs@) || contains_seq(content@, CURRENT_THEME_SOURCE_SUFFIX@)),
{
    contains_str(content, expected_abs) || contains_str(content, CURRENT_THEME_SOURCE_SUFFIX)
}

// ---------------------------------------------------------------------------
// The launcher config

/// The lines of `s` (as `str::lines`, without `\r` handling): split at each
/// line break, with no empty line after a final break.
pub open spec fn lines_of(s: Seq<char>) -> Seq<Seq<char>>
    decreases s.len(),
{
    if s.len() == 0 {
        Seq::empty()
    } else {
        let k = line_end(s);
        let rest = if k < s.len() {
            s.subrange(k as int + 1, s.len() as int)
        } else {
            Seq::empty()
        };
        seq![s.subrange(0, k as int)] + lines_of(rest)
    }
}

/// Number of characters before the first `=` of `s` (all if none).
pub open spec fn eq_at(s: Seq<char>) -> nat
    decreases s.len(),
{
    if s.len() == 0 || s[0] == '=' {
        0
    } else {
        1 + eq_at(s.drop_first())
    }
}

/// The line assigns the `theme` key: it has an `=` and what precedes the
/// first one is `theme` up to white space.
pub open spec fn is_theme_assignment(line: Seq<char>) -> bool {
    eq_at(line) < line.len() && trim(line.subrange(0, eq_at(line) as int)) == "theme"@
}

/// The line `theme = "<name>"`.
pub open spec fn theme_line(name: Seq<char>) -> Seq<char> {
    "theme = \""@ + name + "\""@
}

fn theme_line_exec(name: &str) -> (r: String)
    ensures
        r@ == theme_line(name@),
{
    let mut s = copy_str("theme = \"");
    s.append(name);
    s.append("\"");
    s
}

fn is_theme_assignment_exec(line: &Vec<char>) -> (r: bool)
    ensures
        r == is_theme_assignment(line@),
{
    let mut k: usize = 0;
    assert(line@.subrange(0, line@.len() as int) =~= line@);
    while k < line.len() && line[k] != '='
        invariant
            k <= line@.len(),
            eq_at(line@) == k + eq_at(line@.subrange(k as int, line@.len() as int)),
        decreases line@.len() - k,
    {
        let ghost u = line@.subrange(k as int, line@.len() as int);
        assert(u.drop_first() =~= line@.subrange(k + 1, line@.len() as int));
        k = k + 1;
    }
    if k == line.len() {
        assert(line@.subrange(k as int, line@.len() as int).len() == 0);
        return false;
    }
    assert(line@.subrange(k as int, line@.len() as int)[0] == '=');
    let lhs = string_of_range(line, 0, k);
    let t = trim_str(lhs.as_str());
    str_eq(t.as_str(), "theme")
}

/// The line is a setting: not blank and not a `#` comment.
pub open spec fn is_setting(line: Seq<char>) -> bool {
    trim(line).len() > 0 && trim(line)[0] != '#'
}

/// Where a missing `theme` line goes: before the first setting, else first.
pub open spec fn insert_position(lines: Seq<Seq<char>>) -> int {
    if exists|i: int| 0 <= i < lines.len() && is_setting(lines[i]) {
        choose|i: int| 0 <= i < lines.len() && is_setting(lines[i]) && forall|j: int| 0 <= j < i ==> !is_setting(lines[j])
    } else {
        0
    }
}

/// The launcher config with its theme set to `name`: every `theme = ...`
/// line replaced, or one added before the first setting when there is none;
/// lines joined by line breaks, with a final one.
pub open spec fn with_walker_theme(content: Seq<char>, name: Seq<char>) -> Seq<Seq<char>> {
    let ls = lines_of(content);
    let replaced = ls.map_values(|l: Seq<char>| if is_theme_assignment(l) { theme_line(name) } else { l });
    if exists|i: int| 0 <= i < ls.len() && is_theme_assignment(ls[i]) {
        replaced
    } else {
        replaced.insert(insert_position(replaced), theme_line(name))
    }
}

/// The lines of a string, as `lines_of` splits them.
pub fn split_lines(content: &str) -> (r: Vec<String>)
    ensures
        r@.map_values(|x: String| x@) == lines_of(content@),
{
    let v = chars_of(content);
    let n = v.len();
    let mut out: Vec<String> = Vec::new();
    let mut pos: usize = 0;
    assert(v@.subrange(0, n as int) =~= v@);
    while pos < n
        invariant
            n == v@.len(),
            v@ == content@,
            pos <= n,
            lines_of(content@) == out@.map_values(|x: String| x@) + lines_of(v@.subrange(pos as int, n as int)),
        decreases n - pos,
    {
        let ghost t = v@.subrange(pos as int, n as int);
        let mut j: usize = pos;
        while j < n && v[j] != '\n'
            invariant
                n == v@.len(),
                pos <= j <= n,
                t == v@.subrange(pos as int, n as int),
                line_end(t) == (j - pos) + line_end(v@.subrange(j as int, n as int)),
            decreases n - j,
        {
            let ghost u = v@.subrange(j as int, n as int);
            assert(u.drop_first() =~= v@.subrange(j + 1, n as int));
            j = j + 1;
        }
        proof {
            if j < n {
                assert(v@.subrange(j as int, n as int)[0] == '\n');
            }
            assert(line_end(t) == j - pos);
            assert(t.subrange(0, (j - pos) as int) =~= v@.subrange(pos as int, j as int));
        }
        let line = string_of_range(&v, pos, j);
        let ghost before = out@;
        out.push(line);
        let next = if j < n {
            j + 1
        } else {
            n
        };
        proof {
            let rest = if j < n {
                t.subrange((j - pos) + 1, t.len() as int)
            } else {
                Seq::<char>::empty()
            };
            assert(rest =~= v@.subrange(next as int, n as int));
            assert(out@.map_values(|x: String| x@) =~= before.map_values(|x: String| x@) + seq![line@]);
        }
        pos = next;
    }
    assert(lines_of(v@.subrange(n as int, n as int)) =~= Seq::<Seq<char>>::empty());
    assert(out@.map_values(|x: String| x@) + Seq::<Seq<char>>::empty() =~= out@.map_values(|x: String| x@));
    out
}

fn is_setting_exec(line: &String) -> (r: bool)
    ensures
        r == is_setting(line@),
{
    let t = trim_str(line.as_str());
    if t.as_str().unicode_len() == 0 {
        return false;
    }
    t.as_str().get_char(0) != '#'
}

/// The launcher config `content` with its theme set to `name`.
#[verifier::rlimit(60)]
pub fn set_walker_theme(content: &str, name: &str) -> (r: String)
    ensures
        r@ == crate::text::joined(with_walker_theme(content@, name@), "\n"@) + "\n"@,
{
    let lines = split_lines(content);
    let ghost ls = lines_of(content@);
    let mut out: Vec<String> = Vec::new();
    let mut found = false;
    let mut i: usize = 0;
    while i < lines.len()
        invariant
            i <= lines@.len(),
            lines@.map_values(|x: String| x@) == ls,
            out@.map_values(|x: String| x@) == ls.subrange(0, i as int).map_values(
                |l: Seq<char>| if is_theme_assignment(l) { theme_line(name@) } else { l },
            ),
            found == exists|k: int| 0 <= k < i && is_theme_assignment(ls[k]),
        decreases lines@.len() - i,
    {
        let cs = chars_of(lines[i].as_str());
        let ghost before = out@;
        assert(ls[i as int] == lines@[i as int]@) by {
            assert(lines@.map_values(|x: String| x@)[i as int] == lines@[i as int]@);
        }
        let item = if is_theme_assignment_exec(&cs) {
            found = true;
            theme_line_exec(name)
        } else {
            lines[i].clone()
        };
        out.push(item);
        proof {
            assert(out@ == before.push(item));
            let f = |l: Seq<char>| if is_theme_assignment(l) { theme_line(name@) } else { l };
            assert(item@ == f(ls[i as int]));
            assert(ls.subrange(0, i + 1) =~= ls.subrange(0, i as int).push(ls[i as int]));
            assert(before.map_values(|x: String| x@).len() == i);
            let ov = out@.map_values(|x: String| x@);
            let target = ls.subrange(0, i + 1).map_values(f);
            let prev = ls.subrange(0, i as int).map_values(f);
            assert forall|k: int| 0 <= k < i + 1 implies #[trigger] ov[k] == target[k] by {
                if k < i {
                    assert(out@[k] == before[k]);
                    assert(before.map_values(|x: String| x@)[k] == before[k]@);
                    assert(prev[k] == f(ls[k]));
                }
            }
            assert(ov =~= target);
        }
        i = i + 1;
    }
    assert(ls.subrange(0, ls.len() as int) =~= ls);
    if !found {
        let ghost rep = out@.map_values(|x: String| x@);
        let mut p: usize = 0;
        while p < out.len() && !is_setting_exec(&out[p])
            invariant
                p <= out@.len(),
                rep == out@.map_values(|x: String| x@),
                forall|j: int| 0 <= j < p ==> !is_setting(rep[j]),
            decreases out@.len() - p,
        {
            p = p + 1;
        }
        let at = if p < out.len() {
            p
        } else {
            0
        };
        proof {
            if p < out@.len() {
                assert(is_setting(rep[p as int]));
                let w = choose|w: int| 0 <= w < rep.len() && is_setting(rep[w]) && forall|j: int| 0 <= j < w ==> !is_setting(rep[j]);
                if w < p {
                    assert(!is_setting(rep[w]));
                }
                if w > p {
                    assert(!is_setting(rep[p as int]));
                }
            }
            assert(insert_position(rep) == at as int);
        }
        out.insert(at, theme_line_exec(name));
        proof {
            assert(out@.map_values(|x: String| x@) =~= rep.insert(at as int, theme_line(name@)));
        }
    }
    let mut text = crate::text::join_strings(&out, "\n");
    proof {
        reveal_strlit("\n");
        assert(out@.map_values(|x: String| x@) == with_walker_theme(content@, name@));
    }
    push_char(&mut text, '\n');
    assert(text@ =~= crate::text::joined(with_walker_theme(content@, name@), "\n"@) + "\n"@);
    text
}

// ---------------------------------------------------------------------------
// The current theme's name

/// The name the current theme goes by: the sidecar file's name (trimmed, if
/// not blank); else the name of the current-theme link's target; else the
/// entry's own name, unless that is the generic `theme`.
pub open spec fn current_name(
    link_target_name: Option<Seq<char>>,
    sidecar: Option<Seq<char>>,
    entry_name: Option<Seq<char>>,
) -> Option<Seq<char>> {
    let side = match sidecar {
        Some(s) => if trim(s).len() > 0 {
            Some(trim(s))
        } else {
            None
        },
        None => None,
    };
    match side {
        Some(n) => Some(n),
        None => match link_target_name {
            Some(t) => Some(t),
            None => match entry_name {
                Some(e) => if e == "theme"@ {
                    None
                } else {
                    Some(e)
                },
                None => None,
            },
        },
    }
}

/// Decides the current theme's name from what was read: the file name of the
/// link's target (when the current-theme path is a symlink), the sidecar
/// file's content (when it exists), and the path's own file name (when the
/// path exists).
pub fn current_theme_name(
    link_target_name: Option<String>,
    sidecar: Option<&str>,
    entry_name: Option<String>,
) -> (r: Option<String>)
    ensures
        opt_view(r) == current_name(
            opt_view(link_target_name),
            match sidecar {
                Some(s) => Some(s@),
                None => None,
            },
            opt_view(entry_name),
        ),
{
    let side = match sidecar {
        Some(s) => {
            let t = trim_str(s);
            if t.as_str().unicode_len() > 0 {
                Some(t)
            } else {
                None
            }
        },
        None => None,
    };
    match side {
        Some(n) => Some(n),
        None => match link_target_name {
            Some(t) => Some(t),
            None => match entry_name {
                Some(e) => if str_eq(e.as_str(), "theme") {
                    None
                } else {
                    Some(e)
                },
                None => None,
            },
        },
    }
}

} // verus!

verus! {

/// How a selected bundle is put in place.
#[derive(Debug, Clone, Copy, PartialEq, Eq, Structural)]
pub enum ApplyMode {
    /// Real copies of the bundle's files.
    Copy,
    /// Symlinks into the bundle.
    Symlink,
}

/// The configured apply mode: `copy` copies, anything else (or nothing) links.
pub fn apply_mode_of(configured: &Option<String>) -> (r: ApplyMode)
    ensures
        (r == ApplyMode::Copy) == (configured matches Some(m) && m@ == "copy"@),
{
    match configured {
        Some(m) => if str_eq(m.as_str(), "copy") {
            ApplyMode::Copy
        } else {
            ApplyMode::Symlink
        },
        None => ApplyMode::Symlink,
    }
}

} // verus!
