use theme_manager_plus::omarchy::{awww_next, is_socket_error, AwwwEnd, AwwwNext, AwwwOutcome, AWWW_MAX_RETRIES};
use theme_manager_plus::apply::removal_choice;
use theme_manager_plus::config::expand_path;
use theme_manager_plus::picker::strip_prompt_markers;
use theme_manager_plus::apply::{
    background_dirs, is_image_file, next_background, next_set_step, next_theme, validate_theme_entry,
    SetStep, StepOutcome, ThemeError,
};
use theme_manager_plus::config::{HyprlockConfig, StarshipConfig, WaybarConfig, WalkerConfig};
use theme_manager_plus::defaults::{
    default_candidates, required_markers, select_default, DefaultModule, DefaultSourceKind,
};
use theme_manager_plus::modes::{
    flag_to_named_mode, parse_named_mode_spec, resolve_hyprlock_selection, resolve_starship_selection,
    resolve_waybar_selection, resolve_walker_selection, HyprlockMode, ModeError, NamedMode,
    StarshipMode, Subsystem, WaybarMode, WalkerMode,
};
use theme_manager_plus::omarchy::{
    apply_theme_setters, reload_components, run_required, settle, CommandOutcome, Policy,
    RestartCommand, Verdict,
};
use theme_manager_plus::paths::{normalize_theme_name, title_case_theme};
use theme_manager_plus::presets::{
    PresetDefinition, PresetHyprlockValue, PresetStarshipValue, PresetWaybarValue, PresetWalkerValue,
};
use theme_manager_plus::reconcile::{
    ensure_backup_dir, ensure_symlink, format_manifest, is_stale_link, join_path, parse_manifest,
    replace_existing_path, subdir_entries, unique_backup_target, EntryKind, ReplaceAction,
    SymlinkEnsureResult,
};

fn names(v: &[&str]) -> Vec<String> {
    v.iter().map(|s| s.to_string()).collect()
}

// ----- names

#[test]
fn normalize_strips_markup_trims_lowercases_and_hyphenates() {
    assert_eq!(normalize_theme_name("Tokyo Night"), "tokyo-night");
    assert_eq!(normalize_theme_name("  <b>Rose Pine</b>  "), "rose-pine");
    assert_eq!(normalize_theme_name("nord"), "nord");
    assert_eq!(normalize_theme_name(""), "");
}

#[test]
fn title_case_of_hyphenated_names() {
    assert_eq!(title_case_theme("tokyo-night"), "Tokyo Night");
    assert_eq!(title_case_theme("gruvbox"), "Gruvbox");
    assert_eq!(title_case_theme("a--b"), "A  B");
    assert_eq!(title_case_theme("NORD-dark"), "Nord Dark");
}

// ----- cycling

#[test]
fn next_cycles_to_following_theme() {
    let themes = names(&["alpha", "bravo", "charlie"]);
    assert_eq!(next_theme(&themes, Some("bravo")), "charlie");
}

#[test]
fn next_wraps_from_last_theme() {
    let themes = names(&["alpha", "bravo", "charlie"]);
    assert_eq!(next_theme(&themes, Some("charlie")), "alpha");
}

#[test]
fn next_without_current_selects_first() {
    let themes = names(&["alpha", "bravo", "charlie"]);
    assert_eq!(next_theme(&themes, None), "alpha");
    assert_eq!(next_theme(&themes, Some("missing")), "alpha");
}

#[test]
fn backgrounds_cycle_and_filter() {
    let images = names(&["/b/1.png", "/b/2.jpg", "/b/3.webp"]);
    assert_eq!(next_background(&images, Some("/b/2.jpg")), "/b/3.webp");
    assert_eq!(next_background(&images, Some("/b/3.webp")), "/b/1.png");
    assert_eq!(next_background(&images, None), "/b/1.png");
    assert!(is_image_file("wall.PNG"));
    assert!(is_image_file("a.b.jpeg"));
    assert!(!is_image_file("notes.txt"));
    assert!(!is_image_file("png"));
    assert!(!is_image_file(".png"));
    let dirs = background_dirs("/t", Some("/o"), Some("nord"));
    assert_eq!(dirs, names(&["/t/backgrounds", "/o/backgrounds/nord"]));
    assert_eq!(background_dirs("/t", None, Some("nord")), names(&["/t/backgrounds"]));
}

// ----- validation of the requested theme

#[test]
fn broken_symlink_is_reported_as_broken() {
    let kind = EntryKind::Symlink { target: "missing-target".to_string() };
    let err = validate_theme_entry("broken", "broken", "/themes/broken", &kind, true).unwrap_err();
    assert!(matches!(err, ThemeError::BrokenLink { .. }));
    let msg = err.message();
    assert!(msg.contains("broken"));
    assert_eq!(msg, "theme symlink is broken: /themes/broken");
}

#[test]
fn absent_theme_is_reported_as_not_found() {
    let err = validate_theme_entry("Nord", "nord", "/themes/nord", &EntryKind::Absent, false).unwrap_err();
    let msg = err.message();
    assert_eq!(msg, "theme not found: nord (from 'Nord')");
    assert!(!msg.contains("broken"));
    let err = validate_theme_entry("nord", "nord", "/themes/nord", &EntryKind::File, false).unwrap_err();
    assert_eq!(err.message(), "theme not found: nord");
}

#[test]
fn directories_and_live_symlinks_are_accepted() {
    assert!(validate_theme_entry("a", "a", "/t/a", &EntryKind::Dir, false).is_ok());
    let kind = EntryKind::Symlink { target: "/src/a".to_string() };
    assert!(validate_theme_entry("a", "a", "/t/a", &kind, false).is_ok());
}

// ----- the steps of one apply

#[test]
fn failed_template_hook_aborts_before_swap() {
    let next = next_set_step(SetStep::RenderTemplates, StepOutcome::Failed, false, false);
    assert_eq!(next, SetStep::Aborted);
    assert_eq!(next_set_step(SetStep::Aborted, StepOutcome::Succeeded, false, false), SetStep::Aborted);
}

#[test]
fn missing_template_tool_only_warns() {
    assert_eq!(
        next_set_step(SetStep::RenderTemplates, StepOutcome::ToolMissing, false, false),
        SetStep::Swap
    );
}

#[test]
fn apply_runs_steps_in_order() {
    let mut step = SetStep::EnsureDaemon;
    let mut seen = vec![step];
    while step != SetStep::Done && step != SetStep::Aborted {
        step = next_set_step(step, StepOutcome::Succeeded, false, false);
        seen.push(step);
    }
    assert_eq!(
        seen,
        vec![
            SetStep::EnsureDaemon,
            SetStep::Stage,
            SetStep::RenderTemplates,
            SetStep::Swap,
            SetStep::WriteName,
            SetStep::ApplySubsystems,
            SetStep::Background,
            SetStep::Reload,
            SetStep::Hook,
            SetStep::Done
        ]
    );
    assert_eq!(next_set_step(SetStep::WriteName, StepOutcome::Succeeded, true, true), SetStep::Done);
    assert_eq!(next_set_step(SetStep::Hook, StepOutcome::Failed, false, false), SetStep::Done);
    assert_eq!(next_set_step(SetStep::EnsureDaemon, StepOutcome::Failed, false, false), SetStep::Stage);
    assert_eq!(next_set_step(SetStep::Swap, StepOutcome::Failed, false, false), SetStep::Aborted);
}

// ----- default aliases

#[test]
fn ensure_symlink_decisions() {
    assert_eq!(ensure_symlink(&EntryKind::Absent, "/d"), SymlinkEnsureResult::Created);
    let same = EntryKind::Symlink { target: "/d".to_string() };
    assert_eq!(ensure_symlink(&same, "/d"), SymlinkEnsureResult::Unchanged);
    let other = EntryKind::Symlink { target: "/old".to_string() };
    assert_eq!(ensure_symlink(&other, "/d"), SymlinkEnsureResult::Updated);
    assert_eq!(ensure_symlink(&EntryKind::Dir, "/d"), SymlinkEnsureResult::SkippedNonSymlink);
    assert_eq!(ensure_symlink(&EntryKind::File, "/d"), SymlinkEnsureResult::SkippedNonSymlink);
}

#[test]
fn ensure_symlink_twice_is_unchanged_the_second_time() {
    // After the first call creates the link, the path holds a link to the target.
    let first = ensure_symlink(&EntryKind::Absent, "/share/default/waybar");
    assert_eq!(first, SymlinkEnsureResult::Created);
    let after = EntryKind::Symlink { target: "/share/default/waybar".to_string() };
    assert_eq!(ensure_symlink(&after, "/share/default/waybar"), SymlinkEnsureResult::Unchanged);
}

#[test]
fn default_candidates_in_precedence_order() {
    let c = default_candidates(DefaultModule::Walker, Some("/r"), Some("/h"));
    let paths: Vec<String> = c.iter().map(|x| x.path.clone()).collect();
    assert_eq!(paths, names(&["/r/default/walker/themes/omarchy-default", "/r/default/walker"]));
    let h = default_candidates(DefaultModule::Hyprlock, Some("/r"), Some("/h"));
    assert_eq!(h.len(), 8);
    assert_eq!(h[2].path, "/r/themes/omarchy-default");
    assert_eq!(h[2].kind, DefaultSourceKind::OmarchyThemeStoreDefault);
    assert_eq!(h[7].path, "/h/.config/omarchy/config/hypr");
    assert_eq!(h[7].kind, DefaultSourceKind::OmarchyUserConfigFallback);
    assert_eq!(default_candidates(DefaultModule::Waybar, None, Some("/h")).len(), 0);
    assert_eq!(required_markers(DefaultModule::Waybar), vec!["config.jsonc", "style.css"]);
}

#[test]
fn first_present_candidate_wins() {
    let c = default_candidates(DefaultModule::Hyprlock, Some("/r"), None);
    let d = select_default(DefaultModule::Hyprlock, &c, &vec![false, true, true, false]).unwrap();
    assert_eq!(d.path, "/r/default/hyprlock");
    assert_eq!(d.kind, DefaultSourceKind::OmarchyDefaultBase);
    assert!(select_default(DefaultModule::Hyprlock, &c, &vec![false; 4]).is_none());
}

// ----- backup-and-replace

#[test]
fn replace_moves_user_files_and_unlinks_links() {
    assert_eq!(replace_existing_path(&EntryKind::Absent), ReplaceAction::Nothing);
    let link = EntryKind::Symlink { target: "/x".to_string() };
    assert_eq!(replace_existing_path(&link), ReplaceAction::Unlink);
    assert_eq!(replace_existing_path(&EntryKind::File), ReplaceAction::MoveToBackup);
    assert_eq!(replace_existing_path(&EntryKind::Dir), ReplaceAction::MoveToBackup);
}

#[test]
fn backup_paths_are_chosen_once_and_disambiguated() {
    assert_eq!(ensure_backup_dir("/w/themes", &None, false, 1700000000), "/w/themes/existing");
    assert_eq!(
        ensure_backup_dir("/w/themes", &None, true, 1700000000),
        "/w/themes/existing-1700000000"
    );
    let cached = Some("/w/themes/existing-5".to_string());
    assert_eq!(ensure_backup_dir("/w/themes", &cached, false, 9), "/w/themes/existing-5");
    assert_eq!(unique_backup_target("/b", "style.css", false, 42), "/b/style.css");
    assert_eq!(unique_backup_target("/b", "style.css", true, 42), "/b/style.css-42");
    assert_eq!(unique_backup_target("/b", "x", true, 0), "/b/x-0");
    assert_eq!(join_path("/a", "b"), "/a/b");
}

// ----- the managed-link manifest

#[test]
fn manifest_round_trip() {
    let text = format_manifest(&names(&["assets", "scripts"]));
    assert_eq!(text, "assets\nscripts\n");
    assert_eq!(parse_manifest(&text), names(&["assets", "scripts"]));
    assert_eq!(parse_manifest("  a \n\n b\n"), names(&["a", "b"]));
    assert_eq!(parse_manifest(""), Vec::<String>::new());
}

#[test]
fn switching_bundles_links_exactly_the_new_subdirs() {
    let first = vec![
        ("config.jsonc".to_string(), false),
        ("style.css".to_string(), false),
        ("assets".to_string(), true),
        ("scripts".to_string(), true),
    ];
    let linked_a = subdir_entries(&first);
    assert_eq!(linked_a, names(&["assets", "scripts"]));
    let manifest = parse_manifest(&format_manifest(&linked_a));
    // Both recorded entries are still links, so both are removed.
    let link = EntryKind::Symlink { target: "/a".to_string() };
    assert!(manifest.iter().all(|_| is_stale_link(&link)));
    assert!(!is_stale_link(&EntryKind::Dir));
    let second = vec![
        ("scripts".to_string(), true),
        ("fonts".to_string(), true),
        ("readme.md".to_string(), false),
        ("style.css".to_string(), true),
    ];
    assert_eq!(subdir_entries(&second), names(&["scripts", "fonts"]));
}

// ----- modes

fn preset(waybar: PresetWaybarValue) -> PresetDefinition {
    PresetDefinition {
        name: "Work".to_string(),
        theme: "noir".to_string(),
        waybar,
        walker: PresetWalkerValue::Named("shared".to_string()),
        hyprlock: PresetHyprlockValue::Auto,
        starship: PresetStarshipValue::Preset("tokyo-night".to_string()),
    }
}

#[test]
fn cli_flag_overrides_preset_and_default() {
    let cfg = WaybarConfig { default_mode: Some("auto".to_string()), ..Default::default() };
    let p = preset(PresetWaybarValue::Named("work".to_string()));
    let r = resolve_waybar_selection(Some(Some("cli".to_string())), Some(&p), &cfg).unwrap();
    assert_eq!(r, (WaybarMode::Named, Some("cli".to_string())));
    let r = resolve_waybar_selection(Some(None), Some(&p), &cfg).unwrap();
    assert_eq!(r, (WaybarMode::Auto, None));
}

#[test]
fn preset_overrides_default() {
    let cfg = WaybarConfig { default_mode: Some("auto".to_string()), ..Default::default() };
    let p = preset(PresetWaybarValue::Named("work".to_string()));
    let r = resolve_waybar_selection(None, Some(&p), &cfg).unwrap();
    assert_eq!(r, (WaybarMode::Named, Some("work".to_string())));
    let wcfg = WalkerConfig::default();
    let r = resolve_walker_selection(None, Some(&p), &wcfg).unwrap();
    assert_eq!(r, (WalkerMode::Named, Some("shared".to_string())));
    let r = resolve_hyprlock_selection(None, Some(&p), &HyprlockConfig::default()).unwrap();
    assert_eq!(r, (HyprlockMode::Auto, None));
    let s = resolve_starship_selection(Some(&p), &StarshipConfig::default());
    assert!(matches!(s, StarshipMode::Preset { preset } if preset == "tokyo-night"));
}

#[test]
fn default_applies_without_flag_or_preset() {
    let cfg = WaybarConfig {
        default_mode: Some("named".to_string()),
        default_name: Some("shared".to_string()),
        ..Default::default()
    };
    let r = resolve_waybar_selection(None, None, &cfg).unwrap();
    assert_eq!(r, (WaybarMode::Named, Some("shared".to_string())));
    let r = resolve_waybar_selection(None, None, &WaybarConfig::default()).unwrap();
    assert_eq!(r, (WaybarMode::Keep, None));
    let hcfg = HyprlockConfig { default_mode: Some("".to_string()), ..Default::default() };
    assert_eq!(resolve_hyprlock_selection(None, None, &hcfg).unwrap(), (HyprlockMode::Keep, None));
    let scfg = StarshipConfig {
        default_mode: Some("preset".to_string()),
        default_preset: None,
        default_name: Some("x".to_string()),
    };
    assert!(matches!(resolve_starship_selection(None, &scfg), StarshipMode::Keep));
}

#[test]
fn empty_flag_name_is_rejected() {
    let err = flag_to_named_mode(Some("  ".to_string()), Subsystem::Waybar).unwrap_err();
    assert_eq!(err, ModeError::MissingName(Subsystem::Waybar));
    assert_eq!(err.message(), "--waybar requires a name when used with =");
    let err = resolve_hyprlock_selection(Some(Some(String::new())), None, &HyprlockConfig::default())
        .unwrap_err();
    assert_eq!(err.message(), "--hyprlock requires a name when used with =");
}

#[test]
fn named_mode_specs() {
    assert!(matches!(parse_named_mode_spec(" none ", Subsystem::Walker), Ok(NamedMode::Keep)));
    assert!(matches!(parse_named_mode_spec("auto", Subsystem::Walker), Ok(NamedMode::Auto)));
    assert!(matches!(parse_named_mode_spec(" shared ", Subsystem::Walker), Ok(NamedMode::Named(n)) if n == "shared"));
    let err = parse_named_mode_spec("   ", Subsystem::Walker).unwrap_err();
    assert_eq!(err.message(), "--walker requires a value");
}

// ----- commands

#[test]
fn command_policies() {
    assert!(matches!(settle(Policy::Required, "x", &CommandOutcome::Ran), Verdict::Continue));
    assert!(matches!(settle(Policy::Silent, "x", &CommandOutcome::NotFound), Verdict::Continue));
    assert!(matches!(settle(Policy::Tool, "x", &CommandOutcome::NotFound), Verdict::Warn(m) if m == "x not found in PATH"));
    let failed = CommandOutcome::Failed { detail: "exit status: 1".to_string() };
    assert!(matches!(settle(Policy::Tool, "x", &failed), Verdict::Abort(m) if m == "x exited with exit status: 1"));
    assert!(matches!(settle(Policy::Optional, "x", &failed), Verdict::Warn(_)));
    assert_eq!(
        run_required("omarchy-theme-bg-next", &CommandOutcome::NotFound),
        Err("omarchy-theme-bg-next not found in PATH".to_string())
    );
    assert_eq!(run_required("x", &CommandOutcome::Ran), Ok(()));
}

#[test]
fn reload_plan_uses_applier_restart() {
    let plan = reload_components(None);
    let cmds: Vec<&str> = plan.iter().map(|p| p.cmd.as_str()).collect();
    assert_eq!(
        cmds,
        vec!["omarchy-restart-terminal", "omarchy-restart-waybar", "omarchy-restart-swayosd", "hyprctl", "makoctl", "pkill"]
    );
    assert!(plan.iter().all(|p| p.policy == Policy::Silent));
    let restart = RestartCommand { cmd: "my-restart".to_string(), args: vec!["--now".to_string()] };
    let plan = reload_components(Some(restart));
    assert_eq!(plan[1].cmd, "my-restart");
    assert_eq!(plan[1].args, vec!["--now".to_string()]);
    assert_eq!(plan[1].policy, Policy::Optional);
    assert_eq!(plan[5].args, names(&["-SIGUSR2", "btop"]));
    let setters = apply_theme_setters();
    assert_eq!(setters.len(), 5);
    assert_eq!(setters[4].cmd, "omarchy-theme-set-obsidian");
}

#[test]
fn removal_choice_reads_a_listed_number() {
    assert_eq!(removal_choice("2\n", 2), Some(1));
    assert_eq!(removal_choice(" 1 ", 3), Some(0));
    assert_eq!(removal_choice("0", 3), None);
    assert_eq!(removal_choice("4", 3), None);
    assert_eq!(removal_choice("x", 3), None);
    assert_eq!(removal_choice("", 3), None);
    assert_eq!(removal_choice("99999999999999999999999999", 3), None);
}

#[test]
fn configured_paths_expand_home() {
    assert_eq!(expand_path("~/.config/omarchy/themes-user", "/home/u"), "/home/u/.config/omarchy/themes-user");
    assert_eq!(expand_path("~", "/home/u"), "/home/u");
    assert_eq!(expand_path("$HOME/x", "/home/u"), "/home/u/x");
    assert_eq!(expand_path("${HOME}/y", "/home/u"), "/home/u/y");
    assert_eq!(expand_path("/abs/path", "/home/u"), "/abs/path");
}

#[test]
fn prompt_markers_are_stripped() {
    assert_eq!(strip_prompt_markers("\\[\x1b[1m\\]user\\[\x1b[0m\\]"), "\x1b[1muser\x1b[0m");
    assert_eq!(strip_prompt_markers("plain"), "plain");
}

#[test]
fn awww_retries_while_the_daemon_starts() {
    let socket = AwwwOutcome::Failed { stderr: "Socket file not found".to_string() };
    let other = AwwwOutcome::Failed { stderr: "bad image".to_string() };
    assert!(is_socket_error("error: awww-daemon is not running"));
    assert!(!is_socket_error("bad image"));
    assert!(matches!(awww_next(0, &AwwwOutcome::Succeeded, true, true), AwwwNext::Done));
    assert!(matches!(awww_next(0, &socket, true, true), AwwwNext::StartDaemonAndRetry));
    assert!(matches!(awww_next(0, &socket, false, true), AwwwNext::GiveUp(AwwwEnd::DaemonNotRunning)));
    assert!(matches!(awww_next(0, &socket, true, false), AwwwNext::GiveUp(AwwwEnd::DaemonMissing)));
    assert!(matches!(awww_next(0, &other, true, true), AwwwNext::GiveUp(AwwwEnd::TransitionFailed)));
    assert!(matches!(awww_next(5, &socket, true, true), AwwwNext::RetryAfterPause));
    assert!(matches!(awww_next(5, &other, true, true), AwwwNext::GiveUp(AwwwEnd::RetryFailed(e)) if e == "bad image"));
    assert!(matches!(awww_next(AWWW_MAX_RETRIES, &socket, true, true), AwwwNext::GiveUp(AwwwEnd::RetryFailed(_))));
    assert!(matches!(awww_next(3, &AwwwOutcome::Succeeded, true, true), AwwwNext::Done));
}
