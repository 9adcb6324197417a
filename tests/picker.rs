use theme_manager_plus::picker::{
    build_list_title, filter_item_indices, fuzzy_score, next_index, next_tab, preset_starship_key,
    preset_waybar_key, previous_index, previous_tab, tab_from_index, tab_index, tab_index_from_click,
    BrowseTab,
};
use theme_manager_plus::presets::{
    PresetDefinition, PresetHyprlockValue, PresetStarshipValue, PresetWaybarValue, PresetWalkerValue,
};

fn labels(names: &[&str]) -> Vec<String> {
    names.iter().map(|n| n.to_string()).collect()
}

#[test]
fn filter_items_empty_query_returns_all() {
    let items = labels(&["alpha", "bravo", "charlie"]);
    let filtered = filter_item_indices(&items, "");
    assert_eq!(filtered, vec![0, 1, 2]);
}

#[test]
fn filter_items_with_query_returns_matches() {
    let items = labels(&["alpha", "bravo", "charlie"]);
    let filtered = filter_item_indices(&items, "br");
    assert_eq!(filtered, vec![1]);
}

#[test]
fn filter_items_falls_back_to_substring_match() {
    let items = labels(&["dracula", "nord"]);
    let filtered = filter_item_indices(&items, "dra");
    assert_eq!(filtered, vec![0]);
}

#[test]
fn filter_items_supports_subsequence_match() {
    let items = labels(&["dracula", "nord"]);
    let filtered = filter_item_indices(&items, "drc");
    assert_eq!(filtered, vec![0]);
}

#[test]
fn preset_keys_map_to_items() {
    let preset = PresetDefinition {
        name: "Test".to_string(),
        theme: "noir".to_string(),
        waybar: PresetWaybarValue::Keep,
        walker: PresetWalkerValue::Keep,
        hyprlock: PresetHyprlockValue::Keep,
        starship: PresetStarshipValue::Theme,
    };
    assert_eq!(
        preset_waybar_key(&preset),
        Some(("none".to_string(), "none".to_string()))
    );
    assert_eq!(
        preset_starship_key(&preset),
        Some(("theme".to_string(), "theme".to_string()))
    );
}

#[test]
fn fuzzy_score_prefix_substring_value() {
    // "bravo" against "br": substring at 0 (20000 + 5000 + 8000), subsequence
    // (2000), starting the label (1500), adjacent (400), length penalty 500-5.
    assert_eq!(fuzzy_score("bravo", "br"), Some(20000 + 5000 + 8000 + 2000 + 1500 + 400 + 495));
}

#[test]
fn fuzzy_score_subsequence_only_value() {
    // "dracula" against "drc": positions 0,1,3: 2000 + 1500 + 400 - 4 + 493.
    assert_eq!(fuzzy_score("dracula", "drc"), Some(2000 + 1500 + 400 - 4 + 493));
}

#[test]
fn fuzzy_score_is_case_insensitive_and_trims_query() {
    assert_eq!(fuzzy_score("Bravo", "  BR "), fuzzy_score("bravo", "br"));
    assert_eq!(fuzzy_score("alpha", "   "), None);
    assert_eq!(fuzzy_score("alpha", "zz"), None);
}

#[test]
fn filter_orders_by_score_then_label() {
    let items = labels(&["nord-dark", "dark", "abc-dark"]);
    // "dark" itself scores highest (substring at 0); the other two share the
    // substring but later, ranked by score.
    let filtered = filter_item_indices(&items, "dark");
    assert_eq!(filtered, vec![1, 2, 0]);
}

#[test]
fn list_navigation_wraps() {
    assert_eq!(next_index(Some(2), 3), 0);
    assert_eq!(next_index(Some(0), 3), 1);
    assert_eq!(next_index(None, 3), 0);
    assert_eq!(next_index(Some(1), 0), 0);
    assert_eq!(previous_index(Some(0), 3), 2);
    assert_eq!(previous_index(Some(2), 3), 1);
    assert_eq!(previous_index(None, 3), 0);
}

#[test]
fn tabs_cycle_in_display_order() {
    assert_eq!(tab_index(BrowseTab::Review), 3);
    assert_eq!(tab_from_index(9), BrowseTab::Presets);
    assert_eq!(next_tab(BrowseTab::Presets), BrowseTab::Theme);
    assert_eq!(previous_tab(BrowseTab::Theme), BrowseTab::Presets);
    assert_eq!(next_tab(BrowseTab::Theme), BrowseTab::Waybar);
}

#[test]
fn click_selects_first_matching_tab() {
    let ranges = vec![(0u16, 5u16, 0usize), (6, 12, 1), (13, 20, 2)];
    assert_eq!(tab_index_from_click(&ranges, 7), Some(1));
    assert_eq!(tab_index_from_click(&ranges, 30), None);
}

#[test]
fn list_title_with_status() {
    assert_eq!(build_list_title("Themes", Some("3")), "Themes  [3]");
    assert_eq!(build_list_title("Themes", None), "Themes");
}
