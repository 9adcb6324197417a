//! Configuration sections as read from the user's config file. Every field is
//! optional; absent fields fall back to built-in defaults.
use vstd::prelude::*;

verus! {

#[derive(Debug, Clone, Default)]
pub struct PathsConfig {
    pub theme_root_dir: Option<String>,
    pub current_theme_link: Option<String>,
    pub current_background_link: Option<String>,
    pub omarchy_bin_dir: Option<String>,
    pub waybar_dir: Option<String>,
    pub waybar_themes_dir: Option<String>,
    pub walker_dir: Option<String>,
    pub walker_themes_dir: Option<String>,
    pub starship_config: Option<String>,
    pub starship_themes_dir: Option<String>,
}

#[derive(Debug, Clone, Default)]
pub struct WaybarConfig {
    pub apply_mode: Option<String>,
    pub restart_cmd: Option<String>,
    pub restart_logs: Option<bool>,
    pub default_mode: Option<String>,
    pub default_name: Option<String>,
}

#[derive(Debug, Clone, Default)]
pub struct WalkerConfig {
    pub apply_mode: Option<String>,
    pub default_mode: Option<String>,
    pub default_name: Option<String>,
}

#[derive(Debug, Clone, Default)]
pub struct HyprlockConfig {
    pub apply_mode: Option<String>,
    pub default_mode: Option<String>,
    pub default_name: Option<String>,
}

#[derive(Debug, Clone, Default)]
pub struct StarshipConfig {
    pub default_mode: Option<String>,
    pub default_preset: Option<String>,
    pub default_name: Option<String>,
}

#[derive(Debug, Clone, Default)]
pub struct TuiConfig {
    pub apply_key: Option<String>,
}

} // verus!

verus! {

/// A configured path with `${HOME}` and `$HOME` replaced by the home
/// directory, and a leading `~` (alone or before `/`) standing for it.
pub open spec fn expanded_path(path: Seq<char>, home: Seq<char>) -> Seq<char> {
    let e = crate::text::replace_all(
        crate::text::replace_all(path, "${HOME}"@, home),
        "$HOME"@,
        home,
    );
    if crate::text::occurs_at(e, "~/"@, 0) {
        crate::reconcile::join(home, e.subrange(2, e.len() as int))
    } else if e == "~"@ {
        home
    } else {
        e
    }
}

/// Expands `~`, `$HOME` and `${HOME}` in a configured path.
pub fn expand_path(path: &str, home: &str) -> (r: String)
    ensures
        r@ == expanded_path(path@, home@),
{
    proof {
        reveal_strlit("${HOME}");
        reveal_strlit("$HOME");
        reveal_strlit("~/");
    }
    let a = crate::text::replace_str(path, "${HOME}", home);
    let e = crate::text::replace_str(a.as_str(), "$HOME", home);
    let v = crate::text::chars_of(e.as_str());
    let tilde = crate::text::chars_of("~/");
    if crate::text::starts_with_chars(&v, &tilde) {
        let rest = crate::text::string_of_range(&v, 2, v.len());
        return crate::reconcile::join_path(home, rest.as_str());
    }
    if crate::text::str_eq(e.as_str(), "~") {
        return crate::text::copy_str(home);
    }
    e
}

} // verus!
