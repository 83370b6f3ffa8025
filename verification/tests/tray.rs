use context_maintainer::migrate::needs_migration;
use context_maintainer::store::data_file_name;
use context_maintainer::tray::{
    toggle_menu_text, visible_after_toggle, windows_on_current_desktop, ToggleScope,
};

fn labels(names: &[&str]) -> Vec<String> {
    names.iter().map(|n| n.to_string()).collect()
}

#[test]
fn development_builds_keep_their_own_file() {
    assert_eq!(data_file_name(true), "notes-dev.json");
    assert_eq!(data_file_name(false), "notes.json");
}

#[test]
fn only_version_zero_is_migrated() {
    assert!(needs_migration(0));
    assert!(!needs_migration(1));
    assert!(!needs_migration(2));
}

#[test]
fn a_toggle_hides_what_is_visible_and_shows_what_is_not() {
    assert!(!visible_after_toggle(true));
    assert!(visible_after_toggle(false));
}

#[test]
fn menu_texts() {
    assert_eq!(toggle_menu_text(ToggleScope::All, true), "Hide Entirely");
    assert_eq!(toggle_menu_text(ToggleScope::All, false), "Show Entirely");
    assert_eq!(toggle_menu_text(ToggleScope::Desktop, true), "Hide This Desktop");
    assert_eq!(toggle_menu_text(ToggleScope::Desktop, false), "Show This Desktop");
    assert_eq!(toggle_menu_text(ToggleScope::Monitor, true), "Hide This Monitor");
    assert_eq!(toggle_menu_text(ToggleScope::Monitor, false), "Show This Monitor");
}

#[test]
fn windows_of_displays_that_show_the_same_space_are_chosen() {
    let all = labels(&["main", "monitor-1", "monitor-2"]);
    assert_eq!(windows_on_current_desktop(&all, &vec![5, 6, 5]), labels(&["main", "monitor-2"]));
    assert_eq!(windows_on_current_desktop(&all, &vec![5, 6, 7]), labels(&["main"]));
    assert_eq!(windows_on_current_desktop(&all, &vec![5, 5, 5]), all);
}

#[test]
fn displays_beyond_the_actives_count_as_space_zero() {
    let all = labels(&["main", "monitor-1", "monitor-9"]);
    assert_eq!(windows_on_current_desktop(&all, &vec![0, 4]), labels(&["main", "monitor-9"]));
    assert_eq!(windows_on_current_desktop(&all, &vec![]), all);
    assert_eq!(windows_on_current_desktop(&all, &vec![3]), labels(&["main"]));
}

#[test]
fn foreign_labels_count_as_display_zero() {
    let all = labels(&["settings", "monitor-1"]);
    assert_eq!(windows_on_current_desktop(&all, &vec![5, 6]), labels(&["settings"]));
}
