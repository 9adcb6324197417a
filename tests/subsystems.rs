use theme_manager_plus::config::{HyprlockConfig, StarshipConfig, WaybarConfig, WalkerConfig};
use theme_manager_plus::modes::{HyprlockMode, ModeError, StarshipMode, Subsystem, WaybarMode, WalkerMode};
use theme_manager_plus::paths::derive_repo_name;
use theme_manager_plus::picker::{
    starship_selection_mode, waybar_selection_mode, StarshipSelection, WaybarSelection,
};
use theme_manager_plus::presets::build_preset_entry;
use theme_manager_plus::preview::{
    find_first_image, find_named_file, find_theme_preview, find_waybar_preview, DirListing,
};
use theme_manager_plus::subsystems::{
    apply_mode_of, ApplyMode,
    current_theme_name, hyprlock_bundle_dir, hyprlock_sources_current, hyprlock_uses_active_theme,
    is_style_only_hyprlock_config, main_hyprlock_action, set_walker_theme, walker_bundle_dir,
    waybar_bundle_dir, HostConfigAction, MINIMAL_SOURCE_ONLY_HYPRLOCK,
};

fn listing(dir: &str, files: &[&str]) -> DirListing {
    DirListing { dir: dir.to_string(), is_dir: true, files: files.iter().map(|f| f.to_string()).collect() }
}

#[test]
fn bundle_directories_by_mode() {
    assert_eq!(waybar_bundle_dir(WaybarMode::Keep, &None, "/cur", "/w/themes"), None);
    assert_eq!(waybar_bundle_dir(WaybarMode::Auto, &None, "/cur", "/w/themes"), Some("/cur/waybar-theme".to_string()));
    assert_eq!(
        waybar_bundle_dir(WaybarMode::Named, &Some("shared".to_string()), "/cur", "/w/themes"),
        Some("/w/themes/shared".to_string())
    );
    assert_eq!(waybar_bundle_dir(WaybarMode::Named, &None, "/cur", "/w/themes"), None);
    assert_eq!(walker_bundle_dir(WalkerMode::Auto, &None, "/cur", "/k"), Some("/cur/walker-theme".to_string()));
    assert_eq!(hyprlock_bundle_dir(HyprlockMode::Auto, &None, "/cur", "/h"), Some("/cur/hyprlock-theme".to_string()));
    assert!(hyprlock_uses_active_theme(HyprlockMode::Named, &Some("omarchy-default".to_string())));
    assert!(!hyprlock_uses_active_theme(HyprlockMode::Named, &Some("minimal".to_string())));
}

#[test]
fn walker_theme_line_is_replaced_only() {
    let content = "theme_name = \"keep\"\ntheme_variant = \"keep\"\ntheme = \"old\"\n";
    assert_eq!(
        set_walker_theme(content, "shared"),
        "theme_name = \"keep\"\ntheme_variant = \"keep\"\ntheme = \"shared\"\n"
    );
}

#[test]
fn walker_theme_line_is_added_before_first_setting() {
    let content = "# walker\n\nforce_keyboard_focus = true\n";
    assert_eq!(
        set_walker_theme(content, "theme-manager-auto"),
        "# walker\n\ntheme = \"theme-manager-auto\"\nforce_keyboard_focus = true\n"
    );
    assert_eq!(set_walker_theme("", "x"), "theme = \"x\"\n");
}

#[test]
fn hyprlock_host_config_decisions() {
    assert!(is_style_only_hyprlock_config("$color = rgba(1,2,3,1.0)\n"));
    assert!(!is_style_only_hyprlock_config("background {\n}\n"));
    let custom = "source = ~/.config/hypr/custom.conf\n";
    assert!(matches!(main_hyprlock_action(custom, false, None), HostConfigAction::PreserveCustom));
    match main_hyprlock_action("", false, None) {
        HostConfigAction::Write(w) => assert_eq!(w, MINIMAL_SOURCE_ONLY_HYPRLOCK),
        other => panic!("unexpected {other:?}"),
    }
    let wrapper = "source = ~/.config/omarchy/current/theme/hyprlock.conf\n# WRAPPER_MARKER\n".to_string();
    match main_hyprlock_action("", true, Some(wrapper.clone())) {
        HostConfigAction::Write(w) => assert!(w.contains("WRAPPER_MARKER")),
        other => panic!("unexpected {other:?}"),
    }
    assert!(matches!(main_hyprlock_action(&wrapper, true, Some(wrapper.clone())), HostConfigAction::Unchanged));
    assert!(hyprlock_sources_current("source = ~/.config/omarchy/current/theme/hyprlock.conf", "/x"));
    assert!(!hyprlock_sources_current("source = ~/.config/hypr/other.conf\n", "/x/hyprlock.conf"));
}

#[test]
fn current_theme_name_sources() {
    assert_eq!(current_theme_name(None, Some(" nord \n"), Some("theme".to_string())), Some("nord".to_string()));
    assert_eq!(
        current_theme_name(Some("alpha".to_string()), Some("beta"), None),
        Some("beta".to_string())
    );
    assert_eq!(current_theme_name(Some("alpha".to_string()), None, None), Some("alpha".to_string()));
    assert_eq!(current_theme_name(None, Some("  "), Some("theme".to_string())), None);
    assert_eq!(current_theme_name(None, None, Some("nord".to_string())), Some("nord".to_string()));
}

#[test]
fn repository_names() {
    assert_eq!(derive_repo_name("https://github.com/u/omarchy-nord-theme.git"), "nord");
    assert_eq!(derive_repo_name("https://github.com/u/omarchy-nord-theme/"), "nord");
    assert_eq!(derive_repo_name("/tmp/themes/omarchy-nord-theme"), "nord");
    assert_eq!(derive_repo_name("plain"), "plain");
}

#[test]
fn theme_preview_order() {
    let theme = listing("/t", &["Preview.PNG", "theme.png"]);
    let waybar = listing("/t/waybar-theme", &["preview.png"]);
    let bg = listing("/t/backgrounds", &["b.jpg", "a.png"]);
    assert_eq!(find_theme_preview(&theme, &waybar, &bg), Some("/t/Preview.PNG".to_string()));
    let theme = listing("/t", &["notes.txt"]);
    assert_eq!(find_theme_preview(&theme, &waybar, &bg), Some("/t/waybar-theme/preview.png".to_string()));
    let waybar = DirListing { dir: "/t/waybar-theme".to_string(), is_dir: false, files: vec![] };
    assert_eq!(find_theme_preview(&theme, &waybar, &bg), Some("/t/backgrounds/a.png".to_string()));
    assert_eq!(find_first_image(&listing("/b", &["x.txt"])), None);
    assert_eq!(find_named_file(&listing("/t", &["THEME.png"]), "theme.png"), Some("/t/THEME.png".to_string()));
    assert_eq!(find_waybar_preview(&listing("/w", &["z.png", "m.png", "a.jpg"])), Some("/w/m.png".to_string()));
}

#[test]
fn picker_selections_map_to_modes() {
    let cfg = WaybarConfig { default_mode: Some("auto".to_string()), ..Default::default() };
    assert_eq!(waybar_selection_mode(WaybarSelection::UseDefaults, &cfg), (WaybarMode::Auto, None));
    assert_eq!(waybar_selection_mode(WaybarSelection::Keep, &cfg), (WaybarMode::Keep, None));
    assert_eq!(
        waybar_selection_mode(WaybarSelection::Named("x".to_string()), &cfg),
        (WaybarMode::Named, Some("x".to_string()))
    );
    let s = starship_selection_mode(StarshipSelection::Theme("/t/starship.toml".to_string()), &StarshipConfig::default());
    assert!(matches!(s, StarshipMode::Theme { path: Some(p) } if p == "/t/starship.toml"));
}

#[test]
fn preset_entries_from_command_line_values() {
    let wcfg = WaybarConfig { default_mode: Some("named".to_string()), default_name: Some("dflt".to_string()), ..Default::default() };
    let entry = build_preset_entry(
        "noir".to_string(),
        None,
        Some("named-theme"),
        Some("named-hl"),
        Some("none"),
        false,
        &wcfg,
        &WalkerConfig::default(),
        &HyprlockConfig::default(),
        &StarshipConfig::default(),
    )
    .unwrap();
    assert_eq!(entry.theme.as_deref(), Some("noir"));
    let w = entry.waybar.unwrap();
    assert_eq!((w.mode.as_deref(), w.name.as_deref()), (Some("named"), Some("dflt")));
    let k = entry.walker.unwrap();
    assert_eq!((k.mode.as_deref(), k.name.as_deref()), (Some("named"), Some("named-theme")));
    let h = entry.hyprlock.unwrap();
    assert_eq!((h.mode.as_deref(), h.name.as_deref()), (Some("named"), Some("named-hl")));
    assert_eq!(entry.starship.unwrap().mode.as_deref(), Some("none"));
    let err = build_preset_entry(
        "noir".to_string(),
        Some(" "),
        None,
        None,
        None,
        false,
        &WaybarConfig::default(),
        &WalkerConfig::default(),
        &HyprlockConfig::default(),
        &StarshipConfig::default(),
    )
    .unwrap_err();
    assert_eq!(err, ModeError::MissingValue(Subsystem::Waybar));
}

#[test]
fn apply_modes() {
    assert_eq!(apply_mode_of(&Some("copy".to_string())), ApplyMode::Copy);
    assert_eq!(apply_mode_of(&Some("symlink".to_string())), ApplyMode::Symlink);
    assert_eq!(apply_mode_of(&None), ApplyMode::Symlink);
}
