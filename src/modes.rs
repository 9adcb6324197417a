//! Per-subsystem selection modes: parsing command-line values, reading
//! configured defaults, and choosing between flag, preset and default.
use vstd::prelude::*;
use crate::config::{HyprlockConfig, StarshipConfig, WaybarConfig, WalkerConfig};
use crate::presets::{
    PresetDefinition, PresetHyprlockValue, PresetStarshipValue, PresetWaybarValue, PresetWalkerValue,
};
use crate::text::{copy_str, is_blank, str_eq, trim, trim_str};

verus! {

broadcast use vstd::string::group_string_axioms;

/// The subsystems whose selection can be given on the command line.
#[derive(Debug, Clone, Copy, PartialEq, Eq, Structural)]
pub enum Subsystem {
    Waybar,
    Walker,
    Hyprlock,
    Starship,
}

/// A subsystem selection before it is bound to one subsystem.
#[derive(Debug, Clone)]
pub enum NamedMode {
    Keep,
    Auto,
    Named(String),
}

#[derive(Debug, Clone, Copy, PartialEq, Eq, Structural)]
pub enum WaybarMode {
    Keep,
    Auto,
    Named,
}

#[derive(Debug, Clone, Copy, PartialEq, Eq, Structural)]
pub enum WalkerMode {
    Keep,
    Auto,
    Named,
}

#[derive(Debug, Clone, Copy, PartialEq, Eq, Structural)]
pub enum HyprlockMode {
    Keep,
    Auto,
    Named,
}

#[derive(Debug, Clone)]
pub enum StarshipMode {
    Keep,
    Preset { preset: String },
    Named { name: String },
    Theme { path: Option<String> },
}

/// A selection value that cannot be used.
#[derive(Debug, Clone, Copy, PartialEq, Eq, Structural)]
pub enum ModeError {
    /// `--x=` was given with an empty name.
    MissingName(Subsystem),
    /// An empty selection value.
    MissingValue(Subsystem),
    /// `preset:` with nothing after it.
    MissingPresetName,
    /// `named:` with nothing after it.
    MissingNamedName,
}

/// The mode words are non-empty and pairwise different.
pub proof fn lemma_mode_words()
    ensures
        "none"@.len() == 4 && "auto"@.len() == 4 && "named"@.len() == 5 && "preset"@.len() == 6
            && "theme"@.len() == 5,
        "none"@ != "auto"@ && "none"@ != "named"@ && "none"@ != "preset"@ && "none"@ != "theme"@,
        "auto"@ != "named"@ && "auto"@ != "preset"@ && "auto"@ != "theme"@,
        "named"@ != "preset"@ && "named"@ != "theme"@ && "preset"@ != "theme"@,
{
    reveal_strlit("none");
    reveal_strlit("auto");
    reveal_strlit("named");
    reveal_strlit("preset");
    reveal_strlit("theme");
    assert("none"@[0] == 'n' && "none"@[1] == 'o');
    assert("auto"@[0] == 'a');
    assert("named"@[0] == 'n' && "named"@[1] == 'a');
    assert("preset"@[0] == 'p');
    assert("theme"@[0] == 't');
}

/// The command-line flag of a subsystem.
pub open spec fn flag_of(s: Subsystem) -> Seq<char> {
    match s {
        Subsystem::Waybar => "--waybar"@,
        Subsystem::Walker => "--walker"@,
        Subsystem::Hyprlock => "--hyprlock"@,
        Subsystem::Starship => "--starship"@,
    }
}

/// The command-line flag of a subsystem.
pub fn flag_name(s: Subsystem) -> (r: &'static str)
    ensures
        r@ == flag_of(s),
{
    match s {
        Subsystem::Waybar => "--waybar",
        Subsystem::Walker => "--walker",
        Subsystem::Hyprlock => "--hyprlock",
        Subsystem::Starship => "--starship",
    }
}

impl ModeError {
    /// The message shown to the user.
    pub fn message(&self) -> (r: String)
        ensures
            match self {
                ModeError::MissingName(s) => r@ == flag_of(*s) + " requires a name when used with ="@,
                ModeError::MissingValue(s) => r@ == flag_of(*s) + " requires a value"@,
                ModeError::MissingPresetName => r@ == "--starship preset requires a name"@,
                ModeError::MissingNamedName => r@ == "--starship named requires a name"@,
            },
    {
        match self {
            ModeError::MissingName(s) => {
                let mut m = copy_str(flag_name(*s));
                m.append(" requires a name when used with =");
                m
            },
            ModeError::MissingValue(s) => {
                let mut m = copy_str(flag_name(*s));
                m.append(" requires a value");
                m
            },
            ModeError::MissingPresetName => copy_str("--starship preset requires a name"),
            ModeError::MissingNamedName => copy_str("--starship named requires a name"),
        }
    }
}

/// The selection that a `--x` / `--x=name` flag denotes.
pub open spec fn flag_mode(flag: Option<String>, s: Subsystem) -> Result<NamedMode, ModeError> {
    match flag {
        None => Ok(NamedMode::Auto),
        Some(name) => if trim(name@).len() == 0 {
            Err(ModeError::MissingName(s))
        } else {
            Ok(NamedMode::Named(name))
        },
    }
}

/// A bare `--x` selects the current theme's bundle; `--x=name` a named one.
pub fn flag_to_named_mode(flag: Option<String>, s: Subsystem) -> (r: Result<NamedMode, ModeError>)
    ensures
        r == flag_mode(flag, s),
{
    match flag {
        None => Ok(NamedMode::Auto),
        Some(name) => {
            if is_blank(name.as_str()) {
                Err(ModeError::MissingName(s))
            } else {
                Ok(NamedMode::Named(name))
            }
        },
    }
}

/// Reads a selection value: `none`, `auto`, or a bundle name (trimmed).
pub fn parse_named_mode_spec(spec: &str, s: Subsystem) -> (r: Result<NamedMode, ModeError>)
    ensures
        trim(spec@).len() == 0 ==> r == Err::<NamedMode, ModeError>(ModeError::MissingValue(s)),
        trim(spec@).len() > 0 && trim(spec@) == "none"@ ==> r matches Ok(NamedMode::Keep),
        trim(spec@).len() > 0 && trim(spec@) == "auto"@ ==> r matches Ok(NamedMode::Auto),
        trim(spec@).len() > 0 && trim(spec@) != "none"@ && trim(spec@) != "auto"@ ==> (
        r matches Ok(NamedMode::Named(n)) && n@ == trim(spec@)),
{
    proof {
        lemma_mode_words();
    }
    let cleaned = trim_str(spec);
    if cleaned.as_str().unicode_len() == 0 {
        return Err(ModeError::MissingValue(s));
    }
    if str_eq(cleaned.as_str(), "none") {
        Ok(NamedMode::Keep)
    } else if str_eq(cleaned.as_str(), "auto") {
        Ok(NamedMode::Auto)
    } else {
        Ok(NamedMode::Named(cleaned))
    }
}

pub open spec fn waybar_of(m: NamedMode) -> (WaybarMode, Option<String>) {
    match m {
        NamedMode::Keep => (WaybarMode::Keep, None),
        NamedMode::Auto => (WaybarMode::Auto, None),
        NamedMode::Named(name) => (WaybarMode::Named, Some(name)),
    }
}

pub open spec fn walker_of(m: NamedMode) -> (WalkerMode, Option<String>) {
    match m {
        NamedMode::Keep => (WalkerMode::Keep, None),
        NamedMode::Auto => (WalkerMode::Auto, None),
        NamedMode::Named(name) => (WalkerMode::Named, Some(name)),
    }
}

pub open spec fn hyprlock_of(m: NamedMode) -> (HyprlockMode, Option<String>) {
    match m {
        NamedMode::Keep => (HyprlockMode::Keep, None),
        NamedMode::Auto => (HyprlockMode::Auto, None),
        NamedMode::Named(name) => (HyprlockMode::Named, Some(name)),
    }
}

pub fn named_mode_to_waybar(mode: NamedMode) -> (r: (WaybarMode, Option<String>))
    ensures
        r == waybar_of(mode),
{
    match mode {
        NamedMode::Keep => (WaybarMode::Keep, None),
        NamedMode::Auto => (WaybarMode::Auto, None),
        NamedMode::Named(name) => (WaybarMode::Named, Some(name)),
    }
}

pub fn named_mode_to_walker(mode: NamedMode) -> (r: (WalkerMode, Option<String>))
    ensures
        r == walker_of(mode),
{
    match mode {
        NamedMode::Keep => (WalkerMode::Keep, None),
        NamedMode::Auto => (WalkerMode::Auto, None),
        NamedMode::Named(name) => (WalkerMode::Named, Some(name)),
    }
}

pub fn named_mode_to_hyprlock(mode: NamedMode) -> (r: (HyprlockMode, Option<String>))
    ensures
        r == hyprlock_of(mode),
{
    match mode {
        NamedMode::Keep => (HyprlockMode::Keep, None),
        NamedMode::Auto => (HyprlockMode::Auto, None),
        NamedMode::Named(name) => (HyprlockMode::Named, Some(name)),
    }
}

/// A copy of an optional string.
pub fn clone_opt(o: &Option<String>) -> (r: Option<String>)
    ensures
        r == *o,
{
    match o {
        Some(s) => Some(s.clone()),
        None => None,
    }
}

/// Whether an optional configured word is exactly `w`.
pub open spec fn word_is(o: Option<String>, w: Seq<char>) -> bool {
    o matches Some(s) && s@ == w
}

fn opt_word_is(o: &Option<String>, w: &str) -> (r: bool)
    ensures
        r == word_is(*o, w@),
{
    match o {
        Some(s) => str_eq(s.as_str(), w),
        None => false,
    }
}

/// The waybar selection that the configuration asks for. A `named` default
/// without a name carries no name.
pub fn waybar_from_defaults(cfg: &WaybarConfig) -> (r: (WaybarMode, Option<String>))
    ensures
        word_is(cfg.default_mode, "auto"@) ==> r == (WaybarMode::Auto, None::<String>),
        !word_is(cfg.default_mode, "auto"@) && word_is(cfg.default_mode, "named"@) ==> r == (
        WaybarMode::Named, cfg.default_name),
        !word_is(cfg.default_mode, "auto"@) && !word_is(cfg.default_mode, "named"@) ==> r == (
        WaybarMode::Keep, None::<String>),
{
    if opt_word_is(&cfg.default_mode, "auto") {
        (WaybarMode::Auto, None)
    } else if opt_word_is(&cfg.default_mode, "named") {
        (WaybarMode::Named, clone_opt(&cfg.default_name))
    } else {
        (WaybarMode::Keep, None)
    }
}

pub fn walker_from_defaults(cfg: &WalkerConfig) -> (r: (WalkerMode, Option<String>))
    ensures
        word_is(cfg.default_mode, "auto"@) ==> r == (WalkerMode::Auto, None::<String>),
        !word_is(cfg.default_mode, "auto"@) && word_is(cfg.default_mode, "named"@) ==> r == (
        WalkerMode::Named, cfg.default_name),
        !word_is(cfg.default_mode, "auto"@) && !word_is(cfg.default_mode, "named"@) ==> r == (
        WalkerMode::Keep, None::<String>),
{
    if opt_word_is(&cfg.default_mode, "auto") {
        (WalkerMode::Auto, None)
    } else if opt_word_is(&cfg.default_mode, "named") {
        (WalkerMode::Named, clone_opt(&cfg.default_name))
    } else {
        (WalkerMode::Keep, None)
    }
}

pub fn hyprlock_from_defaults(cfg: &HyprlockConfig) -> (r: (HyprlockMode, Option<String>))
    ensures
        word_is(cfg.default_mode, "auto"@) ==> r == (HyprlockMode::Auto, None::<String>),
        !word_is(cfg.default_mode, "auto"@) && word_is(cfg.default_mode, "named"@) ==> r == (
        HyprlockMode::Named, cfg.default_name),
        !word_is(cfg.default_mode, "auto"@) && !word_is(cfg.default_mode, "named"@) ==> r == (
        HyprlockMode::Keep, None::<String>),
{
    if opt_word_is(&cfg.default_mode, "auto") {
        (HyprlockMode::Auto, None)
    } else if opt_word_is(&cfg.default_mode, "named") {
        (HyprlockMode::Named, clone_opt(&cfg.default_name))
    } else {
        (HyprlockMode::Keep, None)
    }
}

/// The starship selection that the configuration asks for.
pub open spec fn starship_defaults(cfg: StarshipConfig) -> StarshipMode {
    if word_is(cfg.default_mode, "preset"@) && cfg.default_preset is Some {
        StarshipMode::Preset { preset: cfg.default_preset->0 }
    } else if word_is(cfg.default_mode, "named"@) && cfg.default_name is Some {
        StarshipMode::Named { name: cfg.default_name->0 }
    } else {
        StarshipMode::Keep
    }
}

pub fn starship_from_defaults(cfg: &StarshipConfig) -> (r: StarshipMode)
    ensures
        r == starship_defaults(*cfg),
{
    proof {
        lemma_mode_words();
    }
    if opt_word_is(&cfg.default_mode, "preset") {
        match &cfg.default_preset {
            Some(p) => StarshipMode::Preset { preset: p.clone() },
            None => StarshipMode::Keep,
        }
    } else if opt_word_is(&cfg.default_mode, "named") {
        match &cfg.default_name {
            Some(n) => StarshipMode::Named { name: n.clone() },
            None => StarshipMode::Keep,
        }
    } else {
        StarshipMode::Keep
    }
}

pub open spec fn preset_waybar_spec(p: PresetWaybarValue) -> (WaybarMode, Option<String>) {
    match p {
        PresetWaybarValue::Keep => (WaybarMode::Keep, None),
        PresetWaybarValue::Auto => (WaybarMode::Auto, None),
        PresetWaybarValue::Named(name) => (WaybarMode::Named, Some(name)),
    }
}

pub open spec fn preset_walker_spec(p: PresetWalkerValue) -> (WalkerMode, Option<String>) {
    match p {
        PresetWalkerValue::Keep => (WalkerMode::Keep, None),
        PresetWalkerValue::Auto => (WalkerMode::Auto, None),
        PresetWalkerValue::Named(name) => (WalkerMode::Named, Some(name)),
    }
}

pub open spec fn preset_hyprlock_spec(p: PresetHyprlockValue) -> (HyprlockMode, Option<String>) {
    match p {
        PresetHyprlockValue::Keep => (HyprlockMode::Keep, None),
        PresetHyprlockValue::Auto => (HyprlockMode::Auto, None),
        PresetHyprlockValue::Named(name) => (HyprlockMode::Named, Some(name)),
    }
}

pub open spec fn preset_starship_spec(p: PresetStarshipValue) -> StarshipMode {
    match p {
        PresetStarshipValue::Keep => StarshipMode::Keep,
        PresetStarshipValue::Preset(preset) => StarshipMode::Preset { preset },
        PresetStarshipValue::Named(name) => StarshipMode::Named { name },
        PresetStarshipValue::Theme => StarshipMode::Theme { path: None },
    }
}

/// The waybar selection that a saved preset holds.
pub fn preset_waybar(preset: &PresetDefinition) -> (r: (WaybarMode, Option<String>))
    ensures
        r == preset_waybar_spec(preset.waybar),
{
    match &preset.waybar {
        PresetWaybarValue::Keep => (WaybarMode::Keep, None),
        PresetWaybarValue::Auto => (WaybarMode::Auto, None),
        PresetWaybarValue::Named(name) => (WaybarMode::Named, Some(name.clone())),
    }
}

pub fn preset_walker(preset: &PresetDefinition) -> (r: (WalkerMode, Option<String>))
    ensures
        r == preset_walker_spec(preset.walker),
{
    match &preset.walker {
        PresetWalkerValue::Keep => (WalkerMode::Keep, None),
        PresetWalkerValue::Auto => (WalkerMode::Auto, None),
        PresetWalkerValue::Named(name) => (WalkerMode::Named, Some(name.clone())),
    }
}

pub fn preset_hyprlock(preset: &PresetDefinition) -> (r: (HyprlockMode, Option<String>))
    ensures
        r == preset_hyprlock_spec(preset.hyprlock),
{
    match &preset.hyprlock {
        PresetHyprlockValue::Keep => (HyprlockMode::Keep, None),
        PresetHyprlockValue::Auto => (HyprlockMode::Auto, None),
        PresetHyprlockValue::Named(name) => (HyprlockMode::Named, Some(name.clone())),
    }
}

pub fn preset_starship(preset: &PresetDefinition) -> (r: StarshipMode)
    ensures
        r == preset_starship_spec(preset.starship),
{
    match &preset.starship {
        PresetStarshipValue::Keep => StarshipMode::Keep,
        PresetStarshipValue::Preset(p) => StarshipMode::Preset { preset: p.clone() },
        PresetStarshipValue::Named(name) => StarshipMode::Named { name: name.clone() },
        PresetStarshipValue::Theme => StarshipMode::Theme { path: None },
    }
}

/// The waybar selection for one run. An explicit flag wins over a loaded
/// preset, which wins over the configured default.
pub fn resolve_waybar_selection(
    flag: Option<Option<String>>,
    preset: Option<&PresetDefinition>,
    cfg: &WaybarConfig,
) -> (r: Result<(WaybarMode, Option<String>), ModeError>)
    ensures
        flag is Some ==> r == (match flag_mode(flag->0, Subsystem::Waybar) {
            Ok(m) => Ok(waybar_of(m)),
            Err(e) => Err(e),
        }),
        flag is None && preset is Some ==> r == Ok::<_, ModeError>(
            preset_waybar_spec(preset->0.waybar),
        ),
        flag is None && preset is None ==> r is Ok && (word_is(cfg.default_mode, "auto"@) ==> r->Ok_0 == (WaybarMode::Auto, None::<String>)) && (!word_is(cfg.default_mode, "auto"@) && word_is(cfg.default_mode, "named"@) ==> r->Ok_0 == (WaybarMode::Named, cfg.default_name)) && (!word_is(cfg.default_mode, "auto"@) && !word_is(cfg.default_mode, "named"@) ==> r->Ok_0 == (WaybarMode::Keep, None::<String>)),
{
    match flag {
        Some(f) => match flag_to_named_mode(f, Subsystem::Waybar) {
            Ok(m) => Ok(named_mode_to_waybar(m)),
            Err(e) => Err(e),
        },
        None => match preset {
            Some(p) => Ok(preset_waybar(p)),
            None => Ok(waybar_from_defaults(cfg)),
        },
    }
}

/// The walker selection for one run: flag, then preset, then default.
pub fn resolve_walker_selection(
    flag: Option<Option<String>>,
    preset: Option<&PresetDefinition>,
    cfg: &WalkerConfig,
) -> (r: Result<(WalkerMode, Option<String>), ModeError>)
    ensures
        flag is Some ==> r == (match flag_mode(flag->0, Subsystem::Walker) {
            Ok(m) => Ok(walker_of(m)),
            Err(e) => Err(e),
        }),
        flag is None && preset is Some ==> r == Ok::<_, ModeError>(
            preset_walker_spec(preset->0.walker),
        ),
        flag is None && preset is None ==> r is Ok && (word_is(cfg.default_mode, "auto"@) ==> r->Ok_0 == (WalkerMode::Auto, None::<String>)) && (!word_is(cfg.default_mode, "auto"@) && word_is(cfg.default_mode, "named"@) ==> r->Ok_0 == (WalkerMode::Named, cfg.default_name)) && (!word_is(cfg.default_mode, "auto"@) && !word_is(cfg.default_mode, "named"@) ==> r->Ok_0 == (WalkerMode::Keep, None::<String>)),
{
    match flag {
        Some(f) => match flag_to_named_mode(f, Subsystem::Walker) {
            Ok(m) => Ok(named_mode_to_walker(m)),
            Err(e) => Err(e),
        },
        None => match preset {
            Some(p) => Ok(preset_walker(p)),
            None => Ok(walker_from_defaults(cfg)),
        },
    }
}

/// The hyprlock selection for one run: flag, then preset, then default.
pub fn resolve_hyprlock_selection(
    flag: Option<Option<String>>,
    preset: Option<&PresetDefinition>,
    cfg: &HyprlockConfig,
) -> (r: Result<(HyprlockMode, Option<String>), ModeError>)
    ensures
        flag is Some ==> r == (match flag_mode(flag->0, Subsystem::Hyprlock) {
            Ok(m) => Ok(hyprlock_of(m)),
            Err(e) => Err(e),
        }),
        flag is None && preset is Some ==> r == Ok::<_, ModeError>(
            preset_hyprlock_spec(preset->0.hyprlock),
        ),
        flag is None && preset is None ==> r is Ok && (word_is(cfg.default_mode, "auto"@) ==> r->Ok_0 == (HyprlockMode::Auto, None::<String>)) && (!word_is(cfg.default_mode, "auto"@) && word_is(cfg.default_mode, "named"@) ==> r->Ok_0 == (HyprlockMode::Named, cfg.default_name)) && (!word_is(cfg.default_mode, "auto"@) && !word_is(cfg.default_mode, "named"@) ==> r->Ok_0 == (HyprlockMode::Keep, None::<String>)),
{
    match flag {
        Some(f) => match flag_to_named_mode(f, Subsystem::Hyprlock) {
            Ok(m) => Ok(named_mode_to_hyprlock(m)),
            Err(e) => Err(e),
        },
        None => match preset {
            Some(p) => Ok(preset_hyprlock(p)),
            None => Ok(hyprlock_from_defaults(cfg)),
        },
    }
}

/// The starship selection for one run: a loaded preset, else the default.
pub fn resolve_starship_selection(preset: Option<&PresetDefinition>, cfg: &StarshipConfig) -> (r:
    StarshipMode)
    ensures
        preset is Some ==> r == preset_starship_spec(preset->0.starship),
        preset is None ==> r == starship_defaults(*cfg),
{
    match preset {
        Some(p) => preset_starship(p),
        None => starship_from_defaults(cfg),
    }
}

} // verus!
