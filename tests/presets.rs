use theme_manager_plus::picker::build_preset_items;
use theme_manager_plus::presets::{
    format_starship, format_waybar, get_preset_entry, list_preset_names, load_preset_definition,
    parse_hyprlock_spec, parse_starship, parse_starship_spec, parse_waybar, parse_waybar_spec,
    preset_theme_name, remove_preset, save_preset, starship_entry, summarize_preset, waybar_entry,
    PresetEntry, PresetError, PresetFile, PresetHyprlockValue, PresetStarshipEntry,
    PresetStarshipValue, PresetWaybarEntry, PresetWaybarValue, ThemeProbe,
};
use theme_manager_plus::modes::ModeError;

fn ok_probe() -> ThemeProbe {
    ThemeProbe { broken: false, has_starship_toml: true }
}

fn entry(theme: &str) -> PresetEntry {
    PresetEntry {
        theme: Some(theme.to_string()),
        waybar: Some(waybar_entry(PresetWaybarValue::Auto)),
        walker: None,
        hyprlock: None,
        starship: Some(starship_entry(PresetStarshipValue::Keep)),
    }
}

#[test]
fn save_list_load_remove() {
    let mut file = PresetFile::default();
    save_preset(&mut file, " Daily ", entry("noir"), ok_probe()).unwrap();
    save_preset(&mut file, "Alpha", entry("noir"), ok_probe()).unwrap();
    assert_eq!(list_preset_names(&file), vec!["Alpha".to_string(), "Daily".to_string()]);
    let def = load_preset_definition(&file, "Daily", ok_probe()).unwrap();
    assert_eq!(def.name, "Daily");
    assert_eq!(def.theme, "noir");
    assert!(matches!(def.waybar, PresetWaybarValue::Auto));
    assert!(matches!(def.starship, PresetStarshipValue::Keep));
    remove_preset(&mut file, "Daily").unwrap();
    assert_eq!(list_preset_names(&file), vec!["Alpha".to_string()]);
    assert!(matches!(remove_preset(&mut file, "Daily"), Err(PresetError::NotFound(k)) if k == "Daily"));
    assert!(matches!(remove_preset(&mut file, "  "), Err(PresetError::MissingName)));
    let items = build_preset_items(&file);
    assert_eq!(items.len(), 1);
    assert_eq!(items[0].label, "Alpha");
}

#[test]
fn saving_again_replaces_the_entry() {
    let mut file = PresetFile::default();
    save_preset(&mut file, "Work", entry("noir"), ok_probe()).unwrap();
    save_preset(&mut file, "Work", entry("nord"), ok_probe()).unwrap();
    assert_eq!(file.preset.len(), 1);
    assert_eq!(get_preset_entry(&file, "Work").unwrap().theme.as_deref(), Some("nord"));
}

#[test]
fn missing_theme_is_reported() {
    let mut file = PresetFile::default();
    let mut e = entry("x");
    e.theme = Some("   ".to_string());
    let err = save_preset(&mut file, "Empty", e, ok_probe()).unwrap_err();
    assert_eq!(err.message(), "preset \"Empty\" missing theme");
    assert!(file.preset.is_empty());
}

#[test]
fn broken_theme_and_missing_starship_file_are_reported() {
    let mut e = entry("Noir Dark");
    e.starship = Some(starship_entry(PresetStarshipValue::Theme));
    let probe = ThemeProbe { broken: true, has_starship_toml: false };
    let summary = summarize_preset("P", &e, probe);
    assert_eq!(
        summary.errors,
        vec!["theme not found: noir-dark".to_string(), "theme starship.toml not found".to_string()]
    );
    assert_eq!(summary.theme, "Noir Dark");
    assert_eq!(summary.waybar, "auto");
    assert_eq!(summary.starship, "theme");
    assert_eq!(preset_theme_name(&e), Some("noir-dark".to_string()));
}

#[test]
fn load_errors_name_every_problem() {
    let mut file = PresetFile::default();
    file.preset.push((
        "Bad".to_string(),
        PresetEntry {
            theme: Some("noir".to_string()),
            waybar: Some(PresetWaybarEntry { mode: Some("named".to_string()), name: None }),
            walker: None,
            hyprlock: None,
            starship: Some(PresetStarshipEntry { mode: Some("weird".to_string()), preset: None, name: None }),
        },
    ));
    let err = load_preset_definition(&file, "Bad", ok_probe()).unwrap_err();
    assert_eq!(
        err.message(),
        "waybar.mode = named requires waybar.name; invalid starship.mode: weird"
    );
    assert!(matches!(load_preset_definition(&file, "Other", ok_probe()), Err(PresetError::NotFound(_))));
    assert_eq!(get_preset_entry(&file, " ").unwrap_err().message(), "missing preset name");
}

#[test]
fn stored_entries_parse() {
    let mut errors = Vec::new();
    let named = PresetWaybarEntry { mode: Some(" named ".to_string()), name: Some("work".to_string()) };
    assert!(matches!(parse_waybar(Some(&named), &mut errors), PresetWaybarValue::Named(n) if n == "work"));
    assert!(matches!(parse_waybar(None, &mut errors), PresetWaybarValue::Keep));
    assert!(errors.is_empty());
    let bad = PresetWaybarEntry { mode: Some("loud".to_string()), name: None };
    assert!(matches!(parse_waybar(Some(&bad), &mut errors), PresetWaybarValue::Keep));
    assert_eq!(errors, vec!["invalid waybar.mode: loud".to_string()]);
    let preset = PresetStarshipEntry { mode: Some("preset".to_string()), preset: Some(" ".to_string()), name: None };
    assert!(matches!(parse_starship(Some(&preset), &mut errors), PresetStarshipValue::Keep));
    assert_eq!(errors[1], "starship.mode = preset requires starship.preset");
}

#[test]
fn selections_format_for_display() {
    assert_eq!(format_waybar(&PresetWaybarValue::Named("work".to_string())), "named (work)");
    assert_eq!(format_waybar(&PresetWaybarValue::Keep), "none");
    assert_eq!(format_starship(&PresetStarshipValue::Preset("tokyo-night".to_string())), "preset (tokyo-night)");
}

#[test]
fn command_line_specs_for_presets() {
    assert!(matches!(parse_waybar_spec(" auto "), Ok(PresetWaybarValue::Auto)));
    assert!(matches!(parse_hyprlock_spec("named-hl"), Ok(PresetHyprlockValue::Named(n)) if n == "named-hl"));
    assert!(matches!(parse_waybar_spec(""), Err(ModeError::MissingValue(_))));
    assert!(matches!(parse_starship_spec("NONE", false), Ok(PresetStarshipValue::Keep)));
    assert!(matches!(parse_starship_spec("Theme", false), Ok(PresetStarshipValue::Theme)));
    assert!(matches!(parse_starship_spec("preset: tokyo ", false), Ok(PresetStarshipValue::Preset(p)) if p == "tokyo"));
    assert!(matches!(parse_starship_spec("named:rose", false), Ok(PresetStarshipValue::Named(n)) if n == "rose"));
    assert!(matches!(parse_starship_spec("rose-pine", true), Ok(PresetStarshipValue::Named(n)) if n == "rose-pine"));
    assert!(matches!(parse_starship_spec("rose-pine", false), Ok(PresetStarshipValue::Preset(n)) if n == "rose-pine"));
    assert_eq!(parse_starship_spec("preset:", false).unwrap_err().message(), "--starship preset requires a name");
    assert_eq!(parse_starship_spec(" ", false).unwrap_err().message(), "--starship requires a value");
}
