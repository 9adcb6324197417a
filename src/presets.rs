//! Saved presets: a theme plus a selection for each subsystem, stored by name.
use vstd::prelude::*;
use crate::modes::{lemma_mode_words, parse_named_mode_spec, ModeError, NamedMode, Subsystem};
use crate::order::{sort_names, sorted_names};
use crate::paths::{normalize_theme_name, normalized_name};
use crate::text::{chars_of, copy_str, join_strings, string_of_range, joined, eq_ascii_ci, eq_ignore_ascii_case, is_blank, str_eq, trim, trim_str};

verus! {

broadcast use vstd::string::group_string_axioms;

#[derive(Debug, Clone, Default)]
pub struct PresetWaybarEntry {
    pub mode: Option<String>,
    pub name: Option<String>,
}

#[derive(Debug, Clone, Default)]
pub struct PresetWalkerEntry {
    pub mode: Option<String>,
    pub name: Option<String>,
}

#[derive(Debug, Clone, Default)]
pub struct PresetHyprlockEntry {
    pub mode: Option<String>,
    pub name: Option<String>,
}

#[derive(Debug, Clone, Default)]
pub struct PresetStarshipEntry {
    pub mode: Option<String>,
    pub preset: Option<String>,
    pub name: Option<String>,
}

/// One preset as stored: every part optional, checked when it is used.
#[derive(Debug, Clone, Default)]
pub struct PresetEntry {
    pub theme: Option<String>,
    pub waybar: Option<PresetWaybarEntry>,
    pub walker: Option<PresetWalkerEntry>,
    pub hyprlock: Option<PresetHyprlockEntry>,
    pub starship: Option<PresetStarshipEntry>,
}

/// All saved presets, by name; no name occurs twice.
#[derive(Debug, Clone, Default)]
pub struct PresetFile {
    pub preset: Vec<(String, PresetEntry)>,
}

#[derive(Debug, Clone)]
pub enum PresetWaybarValue {
    Keep,
    Auto,
    Named(String),
}

#[derive(Debug, Clone)]
pub enum PresetWalkerValue {
    Keep,
    Auto,
    Named(String),
}

#[derive(Debug, Clone)]
pub enum PresetHyprlockValue {
    Keep,
    Auto,
    Named(String),
}

#[derive(Debug, Clone)]
pub enum PresetStarshipValue {
    Keep,
    Preset(String),
    Named(String),
    Theme,
}

/// A checked preset, ready to apply.
#[derive(Debug, Clone)]
pub struct PresetDefinition {
    pub name: String,
    pub theme: String,
    pub waybar: PresetWaybarValue,
    pub walker: PresetWalkerValue,
    pub hyprlock: PresetHyprlockValue,
    pub starship: PresetStarshipValue,
}

/// A preset described for display, with the problems found in it.
#[derive(Debug, Clone)]
pub struct PresetSummary {
    pub theme: String,
    pub waybar: String,
    pub walker: String,
    pub hyprlock: String,
    pub starship: String,
    pub errors: Vec<String>,
}

/// What the filesystem says about the theme a preset names.
#[derive(Debug, Clone, Copy, PartialEq, Eq, Structural)]
pub struct ThemeProbe {
    /// The theme entry is missing, or is a symlink to nothing.
    pub broken: bool,
    /// The theme directory holds a `starship.toml` file.
    pub has_starship_toml: bool,
}

#[derive(Debug, Clone)]
pub enum PresetError {
    /// The preset name is empty.
    MissingName,
    /// No preset has this (trimmed) name.
    NotFound(String),
    /// The preset has problems; the message lists them.
    Invalid(String),
    /// A selection value could not be read.
    Mode(ModeError),
}

impl PresetError {
    /// The message shown to the user.
    pub fn message(&self) -> (r: String)
        ensures
            match self {
                PresetError::MissingName => r@ == "missing preset name"@,
                PresetError::NotFound(key) => r@ == "preset not found: "@ + key@,
                PresetError::Invalid(msg) => r@ == msg@,
                PresetError::Mode(_) => true,
            },
    {
        match self {
            PresetError::MissingName => copy_str("missing preset name"),
            PresetError::NotFound(key) => {
                let mut m = copy_str("preset not found: ");
                m.append(key.as_str());
                m
            },
            PresetError::Invalid(msg) => msg.clone(),
            PresetError::Mode(e) => e.message(),
        }
    }
}

// ---------------------------------------------------------------------------
// Reading stored entries

/// The mode word of a stored entry: trimmed, `none` when absent.
pub open spec fn mode_word(mode: Option<String>) -> Seq<char> {
    match mode {
        Some(m) => trim(m@),
        None => "none"@,
    }
}

/// A stored name that is present and not blank.
pub open spec fn usable_name(name: Option<String>) -> bool {
    name matches Some(n) && trim(n@).len() > 0
}

/// The selection a none/auto/named entry holds (`None` when unusable).
pub open spec fn named_entry_value(mode: Option<String>, name: Option<String>) -> NamedMode {
    let w = mode_word(mode);
    if w == "auto"@ {
        NamedMode::Auto
    } else if w == "named"@ && usable_name(name) {
        NamedMode::Named(name->0)
    } else {
        NamedMode::Keep
    }
}

/// The problem found in a none/auto/named entry of subsystem `key`, if any.
pub open spec fn named_entry_error(mode: Option<String>, name: Option<String>, key: Seq<char>) -> Option<
    Seq<char>,
> {
    let w = mode_word(mode);
    if w.len() == 0 || w == "none"@ || w == "auto"@ {
        None
    } else if w == "named"@ {
        if usable_name(name) {
            None
        } else {
            Some(key + ".mode = named requires "@ + key + ".name"@)
        }
    } else {
        Some("invalid "@ + key + ".mode: "@ + w)
    }
}

/// `after` is `before` with the message `msg` (if any) added at the end.
pub open spec fn appended(before: Seq<String>, after: Seq<String>, msg: Option<Seq<char>>) -> bool {
    match msg {
        None => after == before,
        Some(m) => after.len() == before.len() + 1 && after.subrange(0, before.len() as int) == before
            && after.last()@ == m,
    }
}

/// A message, if any, as a sequence of zero or one messages.
pub open spec fn opt_seq(o: Option<Seq<char>>) -> Seq<Seq<char>> {
    match o {
        Some(m) => seq![m],
        None => Seq::empty(),
    }
}

/// The messages of a list of strings.
pub open spec fn texts(s: Seq<String>) -> Seq<Seq<char>> {
    s.map_values(|x: String| x@)
}

proof fn lemma_appended_texts(before: Seq<String>, after: Seq<String>, msg: Option<Seq<char>>)
    requires
        appended(before, after, msg),
    ensures
        texts(after) == texts(before) + opt_seq(msg),
{
    if msg is Some {
        assert forall|i: int| 0 <= i < before.len() implies after[i] == before[i] by {
            assert(after.subrange(0, before.len() as int)[i] == after[i]);
        }
    }
    assert(texts(after) =~= texts(before) + opt_seq(msg));
}

fn push_error(errors: &mut Vec<String>, msg: String)
    ensures
        appended(old(errors)@, final(errors)@, Some(msg@)),
{
    let ghost before = errors@;
    errors.push(msg);
    assert(errors@.subrange(0, before.len() as int) =~= before);
}

fn opt_mode_word(mode: &Option<String>) -> (r: String)
    ensures
        r@ == mode_word(*mode),
{
    match mode {
        Some(m) => trim_str(m.as_str()),
        None => copy_str("none"),
    }
}

fn opt_usable(name: &Option<String>) -> (r: bool)
    ensures
        r == usable_name(*name),
{
    match name {
        Some(n) => !is_blank(n.as_str()),
        None => false,
    }
}

/// Reads a none/auto/named entry of subsystem `key`, noting any problem.
fn parse_named_entry(
    mode: &Option<String>,
    name: &Option<String>,
    key: &str,
    errors: &mut Vec<String>,
) -> (r: NamedMode)
    ensures
        r == named_entry_value(*mode, *name),
        appended(old(errors)@, final(errors)@, named_entry_error(*mode, *name, key@)),
{
    proof {
        lemma_mode_words();
    }
    let w = opt_mode_word(mode);
    if w.as_str().unicode_len() == 0 || str_eq(w.as_str(), "none") {
        return NamedMode::Keep;
    }
    if str_eq(w.as_str(), "auto") {
        return NamedMode::Auto;
    }
    if str_eq(w.as_str(), "named") {
        if opt_usable(name) {
            return NamedMode::Named(name.as_ref().unwrap().clone());
        }
        let mut m = copy_str(key);
        m.append(".mode = named requires ");
        m.append(key);
        m.append(".name");
        push_error(errors, m);
        return NamedMode::Keep;
    }
    let mut m = copy_str("invalid ");
    m.append(key);
    m.append(".mode: ");
    m.append(w.as_str());
    push_error(errors, m);
    NamedMode::Keep
}

pub open spec fn waybar_value_of(m: NamedMode) -> PresetWaybarValue {
    match m {
        NamedMode::Keep => PresetWaybarValue::Keep,
        NamedMode::Auto => PresetWaybarValue::Auto,
        NamedMode::Named(n) => PresetWaybarValue::Named(n),
    }
}

pub open spec fn walker_value_of(m: NamedMode) -> PresetWalkerValue {
    match m {
        NamedMode::Keep => PresetWalkerValue::Keep,
        NamedMode::Auto => PresetWalkerValue::Auto,
        NamedMode::Named(n) => PresetWalkerValue::Named(n),
    }
}

pub open spec fn hyprlock_value_of(m: NamedMode) -> PresetHyprlockValue {
    match m {
        NamedMode::Keep => PresetHyprlockValue::Keep,
        NamedMode::Auto => PresetHyprlockValue::Auto,
        NamedMode::Named(n) => PresetHyprlockValue::Named(n),
    }
}

/// The entry an optional reference points to.
pub open spec fn deref_opt<T>(o: Option<&T>) -> Option<T> {
    match o {
        Some(v) => Some(*v),
        None => None,
    }
}

pub open spec fn waybar_mode_field(e: Option<PresetWaybarEntry>) -> Option<String> {
    match e {
        Some(v) => v.mode,
        None => None,
    }
}

pub open spec fn waybar_name_field(e: Option<PresetWaybarEntry>) -> Option<String> {
    match e {
        Some(v) => v.name,
        None => None,
    }
}

pub open spec fn walker_mode_field(e: Option<PresetWalkerEntry>) -> Option<String> {
    match e {
        Some(v) => v.mode,
        None => None,
    }
}

pub open spec fn walker_name_field(e: Option<PresetWalkerEntry>) -> Option<String> {
    match e {
        Some(v) => v.name,
        None => None,
    }
}

pub open spec fn hyprlock_mode_field(e: Option<PresetHyprlockEntry>) -> Option<String> {
    match e {
        Some(v) => v.mode,
        None => None,
    }
}

pub open spec fn hyprlock_name_field(e: Option<PresetHyprlockEntry>) -> Option<String> {
    match e {
        Some(v) => v.name,
        None => None,
    }
}

/// The waybar selection a stored entry holds; problems are added to `errors`.
pub fn parse_waybar(entry: Option<&PresetWaybarEntry>, errors: &mut Vec<String>) -> (r:
    PresetWaybarValue)
    ensures
        r == waybar_value_of(named_entry_value(waybar_mode_field(deref_opt(entry)), waybar_name_field(deref_opt(entry)))),
        appended(
            old(errors)@,
            final(errors)@,
            named_entry_error(waybar_mode_field(deref_opt(entry)), waybar_name_field(deref_opt(entry)), "waybar"@),
        ),
{
    let none: Option<String> = None;
    let m = match entry {
        Some(e) => parse_named_entry(&e.mode, &e.name, "waybar", errors),
        None => parse_named_entry(&none, &none, "waybar", errors),
    };
    match m {
        NamedMode::Keep => PresetWaybarValue::Keep,
        NamedMode::Auto => PresetWaybarValue::Auto,
        NamedMode::Named(n) => PresetWaybarValue::Named(n),
    }
}

/// The walker selection a stored entry holds; problems are added to `errors`.
pub fn parse_walker(entry: Option<&PresetWalkerEntry>, errors: &mut Vec<String>) -> (r:
    PresetWalkerValue)
    ensures
        r == walker_value_of(named_entry_value(walker_mode_field(deref_opt(entry)), walker_name_field(deref_opt(entry)))),
        appended(
            old(errors)@,
            final(errors)@,
            named_entry_error(walker_mode_field(deref_opt(entry)), walker_name_field(deref_opt(entry)), "walker"@),
        ),
{
    let none: Option<String> = None;
    let m = match entry {
        Some(e) => parse_named_entry(&e.mode, &e.name, "walker", errors),
        None => parse_named_entry(&none, &none, "walker", errors),
    };
    match m {
        NamedMode::Keep => PresetWalkerValue::Keep,
        NamedMode::Auto => PresetWalkerValue::Auto,
        NamedMode::Named(n) => PresetWalkerValue::Named(n),
    }
}

/// The hyprlock selection a stored entry holds; problems are added to `errors`.
pub fn parse_hyprlock(entry: Option<&PresetHyprlockEntry>, errors: &mut Vec<String>) -> (r:
    PresetHyprlockValue)
    ensures
        r == hyprlock_value_of(
            named_entry_value(hyprlock_mode_field(deref_opt(entry)), hyprlock_name_field(deref_opt(entry))),
        ),
        appended(
            old(errors)@,
            final(errors)@,
            named_entry_error(hyprlock_mode_field(deref_opt(entry)), hyprlock_name_field(deref_opt(entry)), "hyprlock"@),
        ),
{
    let none: Option<String> = None;
    let m = match entry {
        Some(e) => parse_named_entry(&e.mode, &e.name, "hyprlock", errors),
        None => parse_named_entry(&none, &none, "hyprlock", errors),
    };
    match m {
        NamedMode::Keep => PresetHyprlockValue::Keep,
        NamedMode::Auto => PresetHyprlockValue::Auto,
        NamedMode::Named(n) => PresetHyprlockValue::Named(n),
    }
}

pub open spec fn starship_field(e: Option<PresetStarshipEntry>) -> PresetStarshipEntry {
    match e {
        Some(v) => v,
        None => PresetStarshipEntry { mode: None, preset: None, name: None },
    }
}

/// The starship selection a stored entry holds.
pub open spec fn starship_entry_value(e: PresetStarshipEntry) -> PresetStarshipValue {
    let w = mode_word(e.mode);
    if w == "preset"@ && usable_name(e.preset) {
        PresetStarshipValue::Preset(e.preset->0)
    } else if w == "named"@ && usable_name(e.name) {
        PresetStarshipValue::Named(e.name->0)
    } else if w == "theme"@ {
        PresetStarshipValue::Theme
    } else {
        PresetStarshipValue::Keep
    }
}

/// The problem found in a starship entry, if any.
pub open spec fn starship_entry_error(e: PresetStarshipEntry) -> Option<Seq<char>> {
    let w = mode_word(e.mode);
    if w.len() == 0 || w == "none"@ || w == "theme"@ {
        None
    } else if w == "preset"@ {
        if usable_name(e.preset) {
            None
        } else {
            Some("starship.mode = preset requires starship.preset"@)
        }
    } else if w == "named"@ {
        if usable_name(e.name) {
            None
        } else {
            Some("starship.mode = named requires starship.name"@)
        }
    } else {
        Some("invalid starship.mode: "@ + w)
    }
}

/// The starship selection a stored entry holds; problems are added to `errors`.
pub fn parse_starship(entry: Option<&PresetStarshipEntry>, errors: &mut Vec<String>) -> (r:
    PresetStarshipValue)
    ensures
        r == starship_entry_value(starship_field(deref_opt(entry))),
        appended(old(errors)@, final(errors)@, starship_entry_error(starship_field(deref_opt(entry)))),
{
    proof {
        lemma_mode_words();
    }
    let none: Option<String> = None;
    let (mode, preset, name) = match entry {
        Some(e) => (&e.mode, &e.preset, &e.name),
        None => (&none, &none, &none),
    };
    let w = opt_mode_word(mode);
    if w.as_str().unicode_len() == 0 || str_eq(w.as_str(), "none") {
        return PresetStarshipValue::Keep;
    }
    if str_eq(w.as_str(), "preset") {
        if opt_usable(preset) {
            return PresetStarshipValue::Preset(preset.as_ref().unwrap().clone());
        }
        push_error(errors, copy_str("starship.mode = preset requires starship.preset"));
        return PresetStarshipValue::Keep;
    }
    if str_eq(w.as_str(), "named") {
        if opt_usable(name) {
            return PresetStarshipValue::Named(name.as_ref().unwrap().clone());
        }
        push_error(errors, copy_str("starship.mode = named requires starship.name"));
        return PresetStarshipValue::Keep;
    }
    if str_eq(w.as_str(), "theme") {
        return PresetStarshipValue::Theme;
    }
    let mut m = copy_str("invalid starship.mode: ");
    m.append(w.as_str());
    push_error(errors, m);
    PresetStarshipValue::Keep
}

// ---------------------------------------------------------------------------
// Display

pub open spec fn named_label(n: Seq<char>) -> Seq<char> {
    "named ("@ + n + ")"@
}

/// How a waybar selection is shown.
pub open spec fn waybar_label(v: PresetWaybarValue) -> Seq<char> {
    match v {
        PresetWaybarValue::Keep => "none"@,
        PresetWaybarValue::Auto => "auto"@,
        PresetWaybarValue::Named(n) => named_label(n@),
    }
}

/// How a walker selection is shown.
pub open spec fn walker_label(v: PresetWalkerValue) -> Seq<char> {
    match v {
        PresetWalkerValue::Keep => "none"@,
        PresetWalkerValue::Auto => "auto"@,
        PresetWalkerValue::Named(n) => named_label(n@),
    }
}

/// How a hyprlock selection is shown.
pub open spec fn hyprlock_label(v: PresetHyprlockValue) -> Seq<char> {
    match v {
        PresetHyprlockValue::Keep => "none"@,
        PresetHyprlockValue::Auto => "auto"@,
        PresetHyprlockValue::Named(n) => named_label(n@),
    }
}

/// How a starship selection is shown.
pub open spec fn starship_label(v: PresetStarshipValue) -> Seq<char> {
    match v {
        PresetStarshipValue::Keep => "none"@,
        PresetStarshipValue::Preset(p) => "preset ("@ + p@ + ")"@,
        PresetStarshipValue::Named(n) => named_label(n@),
        PresetStarshipValue::Theme => "theme"@,
    }
}

fn label_with(prefix: &str, n: &String) -> (r: String)
    ensures
        r@ == prefix@ + n@ + ")"@,
{
    let mut m = copy_str(prefix);
    m.append(n.as_str());
    m.append(")");
    m
}

/// How a waybar selection is shown: `none`, `auto` or `named (NAME)`.
pub fn format_waybar(value: &PresetWaybarValue) -> (r: String)
    ensures
        r@ == waybar_label(*value),
{
    match value {
        PresetWaybarValue::Keep => copy_str("none"),
        PresetWaybarValue::Auto => copy_str("auto"),
        PresetWaybarValue::Named(n) => label_with("named (", n),
    }
}

/// How a walker selection is shown.
pub fn format_walker(value: &PresetWalkerValue) -> (r: String)
    ensures
        r@ == walker_label(*value),
{
    match value {
        PresetWalkerValue::Keep => copy_str("none"),
        PresetWalkerValue::Auto => copy_str("auto"),
        PresetWalkerValue::Named(n) => label_with("named (", n),
    }
}

/// How a hyprlock selection is shown.
pub fn format_hyprlock(value: &PresetHyprlockValue) -> (r: String)
    ensures
        r@ == hyprlock_label(*value),
{
    match value {
        PresetHyprlockValue::Keep => copy_str("none"),
        PresetHyprlockValue::Auto => copy_str("auto"),
        PresetHyprlockValue::Named(n) => label_with("named (", n),
    }
}

/// How a starship selection is shown: `none`, `theme`, `preset (P)` or `named (N)`.
pub fn format_starship(value: &PresetStarshipValue) -> (r: String)
    ensures
        r@ == starship_label(*value),
{
    match value {
        PresetStarshipValue::Keep => copy_str("none"),
        PresetStarshipValue::Preset(p) => label_with("preset (", p),
        PresetStarshipValue::Named(n) => label_with("named (", n),
        PresetStarshipValue::Theme => copy_str("theme"),
    }
}

// ---------------------------------------------------------------------------
// Checking a whole preset

/// The theme a stored preset names: trimmed, absent when blank.
pub open spec fn entry_theme(e: PresetEntry) -> Option<Seq<char>> {
    match e.theme {
        Some(t) => if trim(t@).len() > 0 {
            Some(trim(t@))
        } else {
            None
        },
        None => None,
    }
}

fn theme_of_entry(entry: &PresetEntry) -> (r: Option<String>)
    ensures
        match r {
            Some(t) => entry_theme(*entry) == Some(t@),
            None => entry_theme(*entry) is None,
        },
{
    match &entry.theme {
        Some(t) => {
            let v = trim_str(t.as_str());
            if v.as_str().unicode_len() == 0 {
                None
            } else {
                Some(v)
            }
        },
        None => None,
    }
}

/// The normalized theme name a stored preset refers to, if it names one: the
/// directory whose state `summarize_preset` is told about.
pub fn preset_theme_name(entry: &PresetEntry) -> (r: Option<String>)
    ensures
        match r {
            Some(t) => entry_theme(*entry) matches Some(th) && t@ == normalized_name(th),
            None => entry_theme(*entry) is None,
        },
{
    match theme_of_entry(entry) {
        Some(t) => Some(normalize_theme_name(t.as_str())),
        None => None,
    }
}

/// The problems of a preset, in the order they are reported.
pub open spec fn preset_errors(name: Seq<char>, e: PresetEntry, probe: ThemeProbe) -> Seq<Seq<char>> {
    let theme_err = if entry_theme(e) is None {
        seq!["preset \""@ + name + "\" missing theme"@]
    } else {
        Seq::empty()
    };
    let sub = opt_seq(named_entry_error(waybar_mode_field(e.waybar), waybar_name_field(e.waybar), "waybar"@))
        + opt_seq(named_entry_error(walker_mode_field(e.walker), walker_name_field(e.walker), "walker"@))
        + opt_seq(named_entry_error(hyprlock_mode_field(e.hyprlock), hyprlock_name_field(e.hyprlock), "hyprlock"@))
        + opt_seq(starship_entry_error(starship_field(e.starship)));
    let theme_checks = match entry_theme(e) {
        Some(th) => (if probe.broken {
            seq!["theme not found: "@ + normalized_name(th)]
        } else {
            Seq::empty()
        }) + (if starship_entry_value(starship_field(e.starship)) is Theme
            && !probe.has_starship_toml {
            seq!["theme starship.toml not found"@]
        } else {
            Seq::empty()
        }),
        None => Seq::empty(),
    };
    theme_err + sub + theme_checks
}

/// Checks a stored preset named `name`. `probe` describes the theme directory
/// that `preset_theme_name` names (ignored when the preset names no theme).
pub fn summarize_preset(name: &str, entry: &PresetEntry, probe: ThemeProbe) -> (r: PresetSummary)
    ensures
        texts(r.errors@) == preset_errors(name@, *entry, probe),
        r.theme@ == match entry_theme(*entry) {
            Some(t) => t,
            None => "Missing theme"@,
        },
        r.waybar@ == waybar_label(
            waybar_value_of(named_entry_value(waybar_mode_field(entry.waybar), waybar_name_field(entry.waybar))),
        ),
        r.walker@ == walker_label(
            walker_value_of(named_entry_value(walker_mode_field(entry.walker), walker_name_field(entry.walker))),
        ),
        r.hyprlock@ == hyprlock_label(
            hyprlock_value_of(named_entry_value(hyprlock_mode_field(entry.hyprlock), hyprlock_name_field(entry.hyprlock))),
        ),
        r.starship@ == starship_label(starship_entry_value(starship_field(entry.starship))),
{
    let mut errors: Vec<String> = Vec::new();
    let theme = theme_of_entry(entry);
    let theme_label = match &theme {
        Some(t) => t.clone(),
        None => copy_str("Missing theme"),
    };
    if theme.is_none() {
        let mut m = copy_str("preset \"");
        m.append(name);
        m.append("\" missing theme");
        errors.push(m);
    }
    let ghost e0 = errors@;
    let waybar_ref = entry.waybar.as_ref();
    let waybar_value = parse_waybar(waybar_ref, &mut errors);
    let ghost e1 = errors@;
    let walker_ref = entry.walker.as_ref();
    let walker_value = parse_walker(walker_ref, &mut errors);
    let ghost e2 = errors@;
    let hyprlock_ref = entry.hyprlock.as_ref();
    let hyprlock_value = parse_hyprlock(hyprlock_ref, &mut errors);
    let ghost e3 = errors@;
    let starship_ref = entry.starship.as_ref();
    let starship_value = parse_starship(starship_ref, &mut errors);
    let ghost e4 = errors@;
    proof {
        assert(deref_opt(waybar_ref) == entry.waybar);
        assert(deref_opt(walker_ref) == entry.walker);
        assert(deref_opt(hyprlock_ref) == entry.hyprlock);
        assert(deref_opt(starship_ref) == entry.starship);
        lemma_appended_texts(e0, e1, named_entry_error(waybar_mode_field(entry.waybar), waybar_name_field(entry.waybar), "waybar"@));
        lemma_appended_texts(e1, e2, named_entry_error(walker_mode_field(entry.walker), walker_name_field(entry.walker), "walker"@));
        lemma_appended_texts(e2, e3, named_entry_error(hyprlock_mode_field(entry.hyprlock), hyprlock_name_field(entry.hyprlock), "hyprlock"@));
        lemma_appended_texts(e3, e4, starship_entry_error(starship_field(entry.starship)));
        assert(texts(e0) =~= (if entry_theme(*entry) is None {
            seq!["preset \""@ + name@ + "\" missing theme"@]
        } else {
            Seq::empty()
        }));
    }
    if let Some(theme_name) = &theme {
        let normalized = normalize_theme_name(theme_name.as_str());
        if probe.broken {
            let mut m = copy_str("theme not found: ");
            m.append(normalized.as_str());
            let ghost b = errors@;
            errors.push(m);
            proof {
                assert(texts(errors@) =~= texts(b) + seq![m@]);
            }
        }
        let ghost e5 = errors@;
        let is_theme = match starship_value {
            PresetStarshipValue::Theme => true,
            _ => false,
        };
        if is_theme && !probe.has_starship_toml {
            let m = copy_str("theme starship.toml not found");
            errors.push(m);
            proof {
                assert(texts(errors@) =~= texts(e5) + seq![m@]);
            }
        }
    }
    proof {
        assert(texts(errors@) =~= preset_errors(name@, *entry, probe));
    }
    PresetSummary {
        theme: theme_label,
        waybar: format_waybar(&waybar_value),
        walker: format_walker(&walker_value),
        hyprlock: format_hyprlock(&hyprlock_value),
        starship: format_starship(&starship_value),
        errors,
    }
}

} // verus!

verus! {

// ---------------------------------------------------------------------------
// The preset file

/// No two presets share a name.
pub open spec fn presets_wf(f: PresetFile) -> bool {
    forall|i: int, j: int|
        0 <= i < j < f.preset@.len() ==> (#[trigger] f.preset@[i]).0@ != (#[trigger] f.preset@[j]).0@
}

/// Preset `i` of `f` is named `k`.
pub open spec fn key_at(f: PresetFile, k: Seq<char>, i: int) -> bool {
    0 <= i < f.preset@.len() && f.preset@[i].0@ == k
}

/// The names of the presets of `f`, in stored order.
pub open spec fn preset_names(f: PresetFile) -> Seq<String> {
    f.preset@.map_values(|e: (String, PresetEntry)| e.0)
}

fn find_key(f: &PresetFile, k: &str) -> (r: Option<usize>)
    ensures
        match r {
            Some(i) => key_at(*f, k@, i as int),
            None => forall|i: int| !key_at(*f, k@, i),
        },
{
    let mut i: usize = 0;
    while i < f.preset.len()
        invariant
            i <= f.preset@.len(),
            forall|j: int| 0 <= j < i ==> !key_at(*f, k@, j),
        decreases f.preset@.len() - i,
    {
        if str_eq(f.preset[i].0.as_str(), k) {
            return Some(i);
        }
        i = i + 1;
    }
    None
}

/// The preset names, in sorted order.
pub fn list_preset_names(file: &PresetFile) -> (r: Vec<String>)
    ensures
        sorted_names(r@),
        r@.to_multiset() == preset_names(*file).to_multiset(),
{
    let mut names: Vec<String> = Vec::new();
    let mut i: usize = 0;
    while i < file.preset.len()
        invariant
            i <= file.preset@.len(),
            names@ == preset_names(*file).subrange(0, i as int),
        decreases file.preset@.len() - i,
    {
        names.push(file.preset[i].0.clone());
        i = i + 1;
        assert(names@ =~= preset_names(*file).subrange(0, i as int));
    }
    assert(names@ =~= preset_names(*file));
    sort_names(names)
}

/// The stored preset called `name` (surrounding white space ignored).
pub fn get_preset_entry<'a>(file: &'a PresetFile, name: &str) -> (r: Result<&'a PresetEntry, PresetError>)
    ensures
        trim(name@).len() == 0 ==> r matches Err(PresetError::MissingName),
        trim(name@).len() > 0 && (exists|i: int| key_at(*file, trim(name@), i)) ==> (r matches Ok(e)
            && exists|i: int| key_at(*file, trim(name@), i) && *e == file.preset@[i].1),
        trim(name@).len() > 0 && (forall|i: int| !key_at(*file, trim(name@), i)) ==> (
        r matches Err(PresetError::NotFound(k)) && k@ == trim(name@)),
{
    let key = trim_str(name);
    if key.as_str().unicode_len() == 0 {
        return Err(PresetError::MissingName);
    }
    match find_key(file, key.as_str()) {
        Some(i) => Ok(&file.preset[i].1),
        None => Err(PresetError::NotFound(key)),
    }
}

/// Deletes the preset called `name`.
pub fn remove_preset(file: &mut PresetFile, name: &str) -> (r: Result<(), PresetError>)
    ensures
        trim(name@).len() == 0 ==> (r matches Err(PresetError::MissingName) && *final(file) == *old(file)),
        trim(name@).len() > 0 && (forall|i: int| !key_at(*old(file), trim(name@), i)) ==> (
        r matches Err(PresetError::NotFound(k)) && k@ == trim(name@)) && *final(file) == *old(file),
        trim(name@).len() > 0 && (exists|i: int| key_at(*old(file), trim(name@), i)) ==> r is Ok
            && exists|i: int|
            key_at(*old(file), trim(name@), i) && final(file).preset@ == old(file).preset@.remove(i),
        presets_wf(*old(file)) ==> presets_wf(*final(file)),
{
    let key = trim_str(name);
    if key.as_str().unicode_len() == 0 {
        return Err(PresetError::MissingName);
    }
    match find_key(file, key.as_str()) {
        Some(i) => {
            let ghost before = file.preset@;
            file.preset.remove(i);
            proof {
                assert forall|a: int, b: int|
                    0 <= a < b < file.preset@.len() && presets_wf(*old(file)) implies (
                    #[trigger] file.preset@[a]).0@ != (#[trigger] file.preset@[b]).0@ by {
                    let aa = if a < i { a } else { a + 1 };
                    let bb = if b < i { b } else { b + 1 };
                    assert(file.preset@[a] == before[aa]);
                    assert(file.preset@[b] == before[bb]);
                }
            }
            Ok(())
        },
        None => Err(PresetError::NotFound(key)),
    }
}

/// Stores `entry` under `name` (trimmed), replacing a preset of that name.
/// A preset with problems is refused with all of them in one message.
pub fn save_preset(file: &mut PresetFile, name: &str, entry: PresetEntry, probe: ThemeProbe) -> (r:
    Result<(), PresetError>)
    ensures
        trim(name@).len() == 0 ==> (r matches Err(PresetError::MissingName) && *final(file) == *old(file)),
        trim(name@).len() > 0 && preset_errors(trim(name@), entry, probe).len() > 0 ==> (
        r matches Err(PresetError::Invalid(m)) && m@ == joined(
            preset_errors(trim(name@), entry, probe),
            "; "@,
        )) && *final(file) == *old(file),
        trim(name@).len() > 0 && preset_errors(trim(name@), entry, probe).len() == 0 ==> r is Ok,
        trim(name@).len() > 0 && preset_errors(trim(name@), entry, probe).len() == 0 && (exists|i: int|
            key_at(*old(file), trim(name@), i)) ==> exists|i: int|
            key_at(*old(file), trim(name@), i) && final(file).preset@ == old(file).preset@.update(
                i,
                (final(file).preset@[i].0, entry),
            ) && final(file).preset@[i].0@ == trim(name@),
        trim(name@).len() > 0 && preset_errors(trim(name@), entry, probe).len() == 0 && (forall|i: int|
            !key_at(*old(file), trim(name@), i)) ==> final(file).preset@.len() == old(file).preset@.len()
            + 1 && final(file).preset@.subrange(0, old(file).preset@.len() as int) == old(file).preset@
            && final(file).preset@.last().0@ == trim(name@) && final(file).preset@.last().1 == entry,
        presets_wf(*old(file)) ==> presets_wf(*final(file)),
{
    let key = trim_str(name);
    if key.as_str().unicode_len() == 0 {
        return Err(PresetError::MissingName);
    }
    let summary = summarize_preset(key.as_str(), &entry, probe);
    if summary.errors.len() > 0 {
        return Err(PresetError::Invalid(join_strings(&summary.errors, "; ")));
    }
    let ghost before = file.preset@;
    match find_key(file, key.as_str()) {
        Some(i) => {
            file.preset.set(i, (key, entry));
            proof {
                assert forall|a: int, b: int|
                    0 <= a < b < file.preset@.len() && presets_wf(*old(file)) implies (
                    #[trigger] file.preset@[a]).0@ != (#[trigger] file.preset@[b]).0@ by {
                    assert(a != i ==> file.preset@[a] == before[a]);
                    assert(b != i ==> file.preset@[b] == before[b]);
                }
            }
        },
        None => {
            file.preset.push((key, entry));
            proof {
                assert(file.preset@.subrange(0, before.len() as int) =~= before);
                assert forall|a: int, b: int|
                    0 <= a < b < file.preset@.len() && presets_wf(*old(file)) implies (
                    #[trigger] file.preset@[a]).0@ != (#[trigger] file.preset@[b]).0@ by {
                    assert(file.preset@[a] == before[a]);
                    if b < before.len() {
                        assert(file.preset@[b] == before[b]);
                    } else {
                        assert(!key_at(*old(file), trim(name@), a));
                    }
                }
            }
        },
    }
    Ok(())
}

/// Reads the preset called `name` into a definition ready to apply. `probe`
/// describes the theme directory that the stored preset names.
pub fn load_preset_definition(file: &PresetFile, name: &str, probe: ThemeProbe) -> (r: Result<
    PresetDefinition,
    PresetError,
>)
    ensures
        trim(name@).len() == 0 ==> r matches Err(PresetError::MissingName),
        trim(name@).len() > 0 && (forall|i: int| !key_at(*file, trim(name@), i)) ==> (
        r matches Err(PresetError::NotFound(k)) && k@ == trim(name@)),
        r matches Ok(d) ==> exists|i: int|
            key_at(*file, trim(name@), i) && preset_errors(name@, file.preset@[i].1, probe).len() == 0
                && definition_of(d, file.preset@[i].1) && d.name@ == trim(name@),
        trim(name@).len() > 0 && (exists|i: int| key_at(*file, trim(name@), i)) ==> (r is Ok || r is Err
            && r->Err_0 is Invalid),
        presets_wf(*file) ==> forall|i: int|
            key_at(*file, trim(name@), i) && trim(name@).len() > 0 ==> (r is Ok <==> preset_errors(
                name@,
                file.preset@[i].1,
                probe,
            ).len() == 0),
{
    let entry = get_preset_entry(file, name)?;
    let summary = summarize_preset(name, entry, probe);
    if summary.errors.len() > 0 {
        return Err(PresetError::Invalid(join_strings(&summary.errors, "; ")));
    }
    let theme = match theme_of_entry(entry) {
        Some(t) => t,
        None => {
            return Err(PresetError::Invalid(copy_str("preset is missing its theme")));
        },
    };
    let mut scratch: Vec<String> = Vec::new();
    let wb = entry.waybar.as_ref();
    let wk = entry.walker.as_ref();
    let hl = entry.hyprlock.as_ref();
    let ss = entry.starship.as_ref();
    let waybar = parse_waybar(wb, &mut scratch);
    let walker = parse_walker(wk, &mut scratch);
    let hyprlock = parse_hyprlock(hl, &mut scratch);
    let starship = parse_starship(ss, &mut scratch);
    proof {
        assert(deref_opt(wb) == entry.waybar);
        assert(deref_opt(wk) == entry.walker);
        assert(deref_opt(hl) == entry.hyprlock);
        assert(deref_opt(ss) == entry.starship);
    }
    Ok(PresetDefinition { name: trim_str(name), theme, waybar, walker, hyprlock, starship })
}

/// `d` holds what the stored entry `e` selects.
pub open spec fn definition_of(d: PresetDefinition, e: PresetEntry) -> bool {
    entry_theme(e) == Some(d.theme@) && d.waybar == waybar_value_of(
        named_entry_value(waybar_mode_field(e.waybar), waybar_name_field(e.waybar)),
    ) && d.walker == walker_value_of(
        named_entry_value(walker_mode_field(e.walker), walker_name_field(e.walker)),
    ) && d.hyprlock == hyprlock_value_of(
        named_entry_value(hyprlock_mode_field(e.hyprlock), hyprlock_name_field(e.hyprlock)),
    ) && d.starship == starship_entry_value(starship_field(e.starship))
}

} // verus!

verus! {

// ---------------------------------------------------------------------------
// Building a preset from command-line values

/// Reads a `--waybar` value for a preset.
pub fn parse_waybar_spec(spec: &str) -> (r: Result<PresetWaybarValue, ModeError>)
    ensures
        trim(spec@).len() == 0 ==> r == Err::<PresetWaybarValue, ModeError>(
            ModeError::MissingValue(Subsystem::Waybar),
        ),
        trim(spec@).len() > 0 && trim(spec@) == "none"@ ==> r matches Ok(PresetWaybarValue::Keep),
        trim(spec@).len() > 0 && trim(spec@) == "auto"@ ==> r matches Ok(PresetWaybarValue::Auto),
        trim(spec@).len() > 0 && trim(spec@) != "none"@ && trim(spec@) != "auto"@ ==> (
        r matches Ok(PresetWaybarValue::Named(n)) && n@ == trim(spec@)),
{
    match parse_named_mode_spec(spec, Subsystem::Waybar) {
        Ok(NamedMode::Keep) => Ok(PresetWaybarValue::Keep),
        Ok(NamedMode::Auto) => Ok(PresetWaybarValue::Auto),
        Ok(NamedMode::Named(n)) => Ok(PresetWaybarValue::Named(n)),
        Err(e) => Err(e),
    }
}

/// Reads a `--walker` value for a preset.
pub fn parse_walker_spec(spec: &str) -> (r: Result<PresetWalkerValue, ModeError>)
    ensures
        trim(spec@).len() == 0 ==> r == Err::<PresetWalkerValue, ModeError>(
            ModeError::MissingValue(Subsystem::Walker),
        ),
        trim(spec@).len() > 0 && trim(spec@) == "none"@ ==> r matches Ok(PresetWalkerValue::Keep),
        trim(spec@).len() > 0 && trim(spec@) == "auto"@ ==> r matches Ok(PresetWalkerValue::Auto),
        trim(spec@).len() > 0 && trim(spec@) != "none"@ && trim(spec@) != "auto"@ ==> (
        r matches Ok(PresetWalkerValue::Named(n)) && n@ == trim(spec@)),
{
    match parse_named_mode_spec(spec, Subsystem::Walker) {
        Ok(NamedMode::Keep) => Ok(PresetWalkerValue::Keep),
        Ok(NamedMode::Auto) => Ok(PresetWalkerValue::Auto),
        Ok(NamedMode::Named(n)) => Ok(PresetWalkerValue::Named(n)),
        Err(e) => Err(e),
    }
}

/// Reads a `--hyprlock` value for a preset.
pub fn parse_hyprlock_spec(spec: &str) -> (r: Result<PresetHyprlockValue, ModeError>)
    ensures
        trim(spec@).len() == 0 ==> r == Err::<PresetHyprlockValue, ModeError>(
            ModeError::MissingValue(Subsystem::Hyprlock),
        ),
        trim(spec@).len() > 0 && trim(spec@) == "none"@ ==> r matches Ok(PresetHyprlockValue::Keep),
        trim(spec@).len() > 0 && trim(spec@) == "auto"@ ==> r matches Ok(PresetHyprlockValue::Auto),
        trim(spec@).len() > 0 && trim(spec@) != "none"@ && trim(spec@) != "auto"@ ==> (
        r matches Ok(PresetHyprlockValue::Named(n)) && n@ == trim(spec@)),
{
    match parse_named_mode_spec(spec, Subsystem::Hyprlock) {
        Ok(NamedMode::Keep) => Ok(PresetHyprlockValue::Keep),
        Ok(NamedMode::Auto) => Ok(PresetHyprlockValue::Auto),
        Ok(NamedMode::Named(n)) => Ok(PresetHyprlockValue::Named(n)),
        Err(e) => Err(e),
    }
}

/// `p` followed by the rest `r` is `s`.
pub open spec fn split_prefix(s: Seq<char>, p: Seq<char>, r: Seq<char>) -> bool {
    s == p + r
}

/// The rest of `s` after prefix `p`, if `s` starts with it.
fn strip_prefix_str(s: &str, p: &str) -> (r: Option<String>)
    ensures
        match r {
            Some(rest) => s@ == p@ + rest@,
            None => !(p@.len() <= s@.len() && s@.subrange(0, p@.len() as int) == p@),
        },
{
    let sv = chars_of(s);
    let pv = chars_of(p);
    if crate::text::starts_with_chars(&sv, &pv) {
        let rest = string_of_range(&sv, pv.len(), sv.len());
        assert(s@ =~= p@ + rest@);
        Some(rest)
    } else {
        None
    }
}

/// Reads a `--starship` value: `none`, `theme` (any case), `preset:NAME`,
/// `named:NAME`, or a bare name, which is a named theme when
/// `named_theme_exists` (the file `<name>.toml` is among the starship themes)
/// and a preset otherwise.
pub fn parse_starship_spec(spec: &str, named_theme_exists: bool) -> (r: Result<
    PresetStarshipValue,
    ModeError,
>)
    ensures
        trim(spec@).len() == 0 ==> r == Err::<PresetStarshipValue, ModeError>(
            ModeError::MissingValue(Subsystem::Starship),
        ),
        trim(spec@).len() > 0 && eq_ascii_ci(trim(spec@), "none"@) ==> r matches Ok(
            PresetStarshipValue::Keep,
        ),
        trim(spec@).len() > 0 && !eq_ascii_ci(trim(spec@), "none"@) && eq_ascii_ci(trim(spec@), "theme"@)
            ==> r matches Ok(PresetStarshipValue::Theme),
        r matches Ok(PresetStarshipValue::Preset(p)) ==> (exists|rest: Seq<char>|
            split_prefix(trim(spec@), "preset:"@, rest) && p@ == trim(rest)) || (p@ == trim(spec@)
            && !named_theme_exists),
        r matches Ok(PresetStarshipValue::Named(n)) ==> (exists|rest: Seq<char>|
            split_prefix(trim(spec@), "named:"@, rest) && n@ == trim(rest)) || (n@ == trim(spec@)
            && named_theme_exists),
        trim(spec@).len() > 0 && !(exists|rest: Seq<char>|
            split_prefix(trim(spec@), "preset:"@, rest) && trim(rest).len() == 0) && !(exists|rest: Seq<char>|
            split_prefix(trim(spec@), "named:"@, rest) && trim(rest).len() == 0) ==> r is Ok,
        r matches Err(e) ==> (e == ModeError::MissingValue(Subsystem::Starship) && trim(spec@).len()
            == 0) || (e == ModeError::MissingPresetName && exists|rest: Seq<char>|
            split_prefix(trim(spec@), "preset:"@, rest) && trim(rest).len() == 0) || (e
            == ModeError::MissingNamedName && exists|rest: Seq<char>|
            split_prefix(trim(spec@), "named:"@, rest) && trim(rest).len() == 0),
{
    let cleaned = trim_str(spec);
    if cleaned.as_str().unicode_len() == 0 {
        return Err(ModeError::MissingValue(Subsystem::Starship));
    }
    if eq_ignore_ascii_case(cleaned.as_str(), "none") {
        return Ok(PresetStarshipValue::Keep);
    }
    if eq_ignore_ascii_case(cleaned.as_str(), "theme") {
        return Ok(PresetStarshipValue::Theme);
    }
    match strip_prefix_str(cleaned.as_str(), "preset:") {
        Some(rest) => {
            let name = trim_str(rest.as_str());
            assert(split_prefix(trim(spec@), "preset:"@, rest@));
            if name.as_str().unicode_len() == 0 {
                return Err(ModeError::MissingPresetName);
            }
            return Ok(PresetStarshipValue::Preset(name));
        },
        None => {},
    }
    match strip_prefix_str(cleaned.as_str(), "named:") {
        Some(rest) => {
            let name = trim_str(rest.as_str());
            assert(split_prefix(trim(spec@), "named:"@, rest@));
            if name.as_str().unicode_len() == 0 {
                return Err(ModeError::MissingNamedName);
            }
            return Ok(PresetStarshipValue::Named(name));
        },
        None => {},
    }
    if named_theme_exists {
        Ok(PresetStarshipValue::Named(cleaned))
    } else {
        Ok(PresetStarshipValue::Preset(cleaned))
    }
}

/// How a none/auto/named selection is stored.
pub open spec fn stores_named(mode: Option<String>, name: Option<String>, m: NamedMode) -> bool {
    match m {
        NamedMode::Keep => (mode matches Some(w) && w@ == "none"@) && name is None,
        NamedMode::Auto => (mode matches Some(w) && w@ == "auto"@) && name is None,
        NamedMode::Named(n) => (mode matches Some(w) && w@ == "named"@) && name == Some(n),
    }
}

pub open spec fn waybar_named(v: PresetWaybarValue) -> NamedMode {
    match v {
        PresetWaybarValue::Keep => NamedMode::Keep,
        PresetWaybarValue::Auto => NamedMode::Auto,
        PresetWaybarValue::Named(n) => NamedMode::Named(n),
    }
}

pub open spec fn walker_named(v: PresetWalkerValue) -> NamedMode {
    match v {
        PresetWalkerValue::Keep => NamedMode::Keep,
        PresetWalkerValue::Auto => NamedMode::Auto,
        PresetWalkerValue::Named(n) => NamedMode::Named(n),
    }
}

pub open spec fn hyprlock_named(v: PresetHyprlockValue) -> NamedMode {
    match v {
        PresetHyprlockValue::Keep => NamedMode::Keep,
        PresetHyprlockValue::Auto => NamedMode::Auto,
        PresetHyprlockValue::Named(n) => NamedMode::Named(n),
    }
}

fn store_named(m: NamedMode) -> (r: (Option<String>, Option<String>))
    ensures
        stores_named(r.0, r.1, m),
{
    match m {
        NamedMode::Keep => (Some(copy_str("none")), None),
        NamedMode::Auto => (Some(copy_str("auto")), None),
        NamedMode::Named(n) => (Some(copy_str("named")), Some(n)),
    }
}

/// The stored form of a waybar selection.
pub fn waybar_entry(v: PresetWaybarValue) -> (r: PresetWaybarEntry)
    ensures
        stores_named(r.mode, r.name, waybar_named(v)),
{
    let (mode, name) = store_named(
        match v {
            PresetWaybarValue::Keep => NamedMode::Keep,
            PresetWaybarValue::Auto => NamedMode::Auto,
            PresetWaybarValue::Named(n) => NamedMode::Named(n),
        },
    );
    PresetWaybarEntry { mode, name }
}

/// The stored form of a walker selection.
pub fn walker_entry(v: PresetWalkerValue) -> (r: PresetWalkerEntry)
    ensures
        stores_named(r.mode, r.name, walker_named(v)),
{
    let (mode, name) = store_named(
        match v {
            PresetWalkerValue::Keep => NamedMode::Keep,
            PresetWalkerValue::Auto => NamedMode::Auto,
            PresetWalkerValue::Named(n) => NamedMode::Named(n),
        },
    );
    PresetWalkerEntry { mode, name }
}

/// The stored form of a hyprlock selection.
pub fn hyprlock_entry(v: PresetHyprlockValue) -> (r: PresetHyprlockEntry)
    ensures
        stores_named(r.mode, r.name, hyprlock_named(v)),
{
    let (mode, name) = store_named(
        match v {
            PresetHyprlockValue::Keep => NamedMode::Keep,
            PresetHyprlockValue::Auto => NamedMode::Auto,
            PresetHyprlockValue::Named(n) => NamedMode::Named(n),
        },
    );
    PresetHyprlockEntry { mode, name }
}

/// The stored form of a starship selection.
pub fn starship_entry(v: PresetStarshipValue) -> (r: PresetStarshipEntry)
    ensures
        match v {
            PresetStarshipValue::Keep => (r.mode matches Some(w) && w@ == "none"@) && r.preset is None
                && r.name is None,
            PresetStarshipValue::Preset(p) => (r.mode matches Some(w) && w@ == "preset"@) && r.preset
                == Some(p) && r.name is None,
            PresetStarshipValue::Named(n) => (r.mode matches Some(w) && w@ == "named"@) && r.preset is None
                && r.name == Some(n),
            PresetStarshipValue::Theme => (r.mode matches Some(w) && w@ == "theme"@) && r.preset is None
                && r.name is None,
        },
{
    match v {
        PresetStarshipValue::Keep => PresetStarshipEntry { mode: Some(copy_str("none")), preset: None, name: None },
        PresetStarshipValue::Preset(p) => PresetStarshipEntry {
            mode: Some(copy_str("preset")),
            preset: Some(p),
            name: None,
        },
        PresetStarshipValue::Named(n) => PresetStarshipEntry {
            mode: Some(copy_str("named")),
            preset: None,
            name: Some(n),
        },
        PresetStarshipValue::Theme => PresetStarshipEntry { mode: Some(copy_str("theme")), preset: None, name: None },
    }
}

} // verus!

verus! {

/// How a none/auto/named command-line value `s` is stored.
pub open spec fn stored_from_spec(mode: Option<String>, name: Option<String>, s: Seq<char>) -> bool {
    let t = trim(s);
    if t == "none"@ {
        (mode matches Some(w) && w@ == "none"@) && name is None
    } else if t == "auto"@ {
        (mode matches Some(w) && w@ == "auto"@) && name is None
    } else {
        (mode matches Some(w) && w@ == "named"@) && (name matches Some(n) && n@ == t)
    }
}

/// How a configured none/auto/named default is stored.
pub open spec fn stored_from_default(
    mode: Option<String>,
    name: Option<String>,
    cfg_mode: Option<String>,
    cfg_name: Option<String>,
) -> bool {
    if crate::modes::word_is(cfg_mode, "auto"@) {
        stores_named(mode, name, NamedMode::Auto)
    } else if crate::modes::word_is(cfg_mode, "named"@) && cfg_name is Some {
        stores_named(mode, name, NamedMode::Named(cfg_name->0))
    } else {
        stores_named(mode, name, NamedMode::Keep)
    }
}

fn default_named(cfg_mode: &Option<String>, cfg_name: &Option<String>) -> (r: NamedMode)
    ensures
        crate::modes::word_is(*cfg_mode, "auto"@) ==> r == NamedMode::Auto,
        !crate::modes::word_is(*cfg_mode, "auto"@) && crate::modes::word_is(*cfg_mode, "named"@)
            && cfg_name is Some ==> r == NamedMode::Named(cfg_name->0),
        !crate::modes::word_is(*cfg_mode, "auto"@) && !(crate::modes::word_is(*cfg_mode, "named"@)
            && cfg_name is Some) ==> r == NamedMode::Keep,
{
    let auto = match cfg_mode {
        Some(m) => str_eq(m.as_str(), "auto"),
        None => false,
    };
    let named = match cfg_mode {
        Some(m) => str_eq(m.as_str(), "named"),
        None => false,
    };
    if auto {
        NamedMode::Auto
    } else if named {
        match cfg_name {
            Some(n) => NamedMode::Named(n.clone()),
            None => NamedMode::Keep,
        }
    } else {
        NamedMode::Keep
    }
}

/// The stored form of one none/auto/named selection: from the command-line
/// value when given, else from the configured default.
fn stored_selection(
    spec: Option<&str>,
    s: Subsystem,
    cfg_mode: &Option<String>,
    cfg_name: &Option<String>,
) -> (r: Result<(Option<String>, Option<String>), ModeError>)
    ensures
        spec is Some && trim(spec->0@).len() == 0 ==> r == Err::<(Option<String>, Option<String>), ModeError>(ModeError::MissingValue(s)),
        spec is Some && trim(spec->0@).len() > 0 ==> (r is Ok && stored_from_spec(r->Ok_0.0, r->Ok_0.1, spec->0@)),
        spec is None ==> (r is Ok && stored_from_default(r->Ok_0.0, r->Ok_0.1, *cfg_mode, *cfg_name)),
{
    proof {
        lemma_mode_words();
    }
    match spec {
        Some(v) => match parse_named_mode_spec(v, s) {
            Ok(m) => Ok(store_named(m)),
            Err(e) => Err(e),
        },
        None => Ok(store_named(default_named(cfg_mode, cfg_name))),
    }
}

/// A preset entry for theme `theme` from command-line values, each falling
/// back to the configured default when not given. `starship_named_exists`
/// says whether the trimmed starship value names a file among the starship
/// themes. The first unusable value, in the order waybar, walker, hyprlock,
/// starship, is the error.
pub fn build_preset_entry(
    theme: String,
    waybar: Option<&str>,
    walker: Option<&str>,
    hyprlock: Option<&str>,
    starship: Option<&str>,
    starship_named_exists: bool,
    waybar_cfg: &crate::config::WaybarConfig,
    walker_cfg: &crate::config::WalkerConfig,
    hyprlock_cfg: &crate::config::HyprlockConfig,
    starship_cfg: &crate::config::StarshipConfig,
) -> (r: Result<PresetEntry, ModeError>)
    ensures
        waybar is Some && trim(waybar->0@).len() == 0 ==> r == Err::<PresetEntry, ModeError>(
            ModeError::MissingValue(Subsystem::Waybar),
        ),
        r matches Ok(e) ==> e.theme == Some(theme) && e.waybar is Some && e.walker is Some
            && e.hyprlock is Some && e.starship is Some,
        r matches Ok(e) ==> (match waybar {
            Some(v) => stored_from_spec(e.waybar->0.mode, e.waybar->0.name, v@),
            None => stored_from_default(e.waybar->0.mode, e.waybar->0.name, waybar_cfg.default_mode, waybar_cfg.default_name),
        }),
        r matches Ok(e) ==> (match walker {
            Some(v) => stored_from_spec(e.walker->0.mode, e.walker->0.name, v@),
            None => stored_from_default(e.walker->0.mode, e.walker->0.name, walker_cfg.default_mode, walker_cfg.default_name),
        }),
        r matches Ok(e) ==> (match hyprlock {
            Some(v) => stored_from_spec(e.hyprlock->0.mode, e.hyprlock->0.name, v@),
            None => stored_from_default(e.hyprlock->0.mode, e.hyprlock->0.name, hyprlock_cfg.default_mode, hyprlock_cfg.default_name),
        }),
        r is Ok && starship is None && crate::modes::starship_defaults(*starship_cfg) is Keep ==> (
        r->Ok_0.starship->0.mode matches Some(w) && w@ == "none"@),
        r is Ok && starship is None && crate::modes::starship_defaults(*starship_cfg) is Preset ==> r->Ok_0.starship->0.preset == Some(crate::modes::starship_defaults(*starship_cfg)->preset),
        r is Ok && starship is None && crate::modes::starship_defaults(*starship_cfg) is Named ==> r->Ok_0.starship->0.name == Some(crate::modes::starship_defaults(*starship_cfg)->name),
        (waybar is None || trim(waybar->0@).len() > 0) && (walker is None || trim(walker->0@).len() > 0)
            && (hyprlock is None || trim(hyprlock->0@).len() > 0) && (starship is None || (trim(
            starship->0@,
        ).len() > 0 && !(exists|rest: Seq<char>|
            split_prefix(trim(starship->0@), "preset:"@, rest) && trim(rest).len() == 0) && !(exists|rest: Seq<char>|
            split_prefix(trim(starship->0@), "named:"@, rest) && trim(rest).len() == 0))) ==> r is Ok,
{
    let (wb_mode, wb_name) = stored_selection(waybar, Subsystem::Waybar, &waybar_cfg.default_mode, &waybar_cfg.default_name)?;
    let (wk_mode, wk_name) = stored_selection(walker, Subsystem::Walker, &walker_cfg.default_mode, &walker_cfg.default_name)?;
    let (hl_mode, hl_name) = stored_selection(hyprlock, Subsystem::Hyprlock, &hyprlock_cfg.default_mode, &hyprlock_cfg.default_name)?;
    let starship_value = match starship {
        Some(v) => parse_starship_spec(v, starship_named_exists)?,
        None => match crate::modes::starship_from_defaults(starship_cfg) {
            crate::modes::StarshipMode::Preset { preset } => PresetStarshipValue::Preset(preset),
            crate::modes::StarshipMode::Named { name } => PresetStarshipValue::Named(name),
            _ => PresetStarshipValue::Keep,
        },
    };
    Ok(PresetEntry {
        theme: Some(theme),
        waybar: Some(PresetWaybarEntry { mode: wb_mode, name: wb_name }),
        walker: Some(PresetWalkerEntry { mode: wk_mode, name: wk_name }),
        hyprlock: Some(PresetHyprlockEntry { mode: hl_mode, name: hl_name }),
        starship: Some(starship_entry(starship_value)),
    })
}

} // verus!
