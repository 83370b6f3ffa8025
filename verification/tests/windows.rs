use context_maintainer::windows::{
    main_on_first_monitor, sync_windows_to_monitors, window_label,
    window_label_to_display_index, MonitorKey, SyncPlan, RECONFIGURE_SETTLE_MS,
};

fn labels(names: &[&str]) -> Vec<String> {
    names.iter().map(|n| n.to_string()).collect()
}

fn created(plan: &SyncPlan) -> Vec<(usize, String)> {
    plan.create.iter().map(|w| (w.monitor, w.label.clone())).collect()
}

/// Carries a plan out on a set of live labels.
fn carry_out(live: &[String], plan: &SyncPlan) -> Vec<String> {
    let mut after: Vec<String> =
        live.iter().filter(|l| !plan.close.contains(l)).cloned().collect();
    for w in &plan.create {
        after.push(w.label.clone());
    }
    after.sort();
    after.dedup();
    after
}

#[test]
fn label_of_monitor_zero_is_main() {
    assert_eq!(window_label(0), "main");
}

#[test]
fn labels_of_other_monitors_carry_the_index() {
    assert_eq!(window_label(1), "monitor-1");
    assert_eq!(window_label(2), "monitor-2");
    assert_eq!(window_label(12), "monitor-12");
}

#[test]
fn main_names_display_zero() {
    assert_eq!(window_label_to_display_index("main"), 0);
}

#[test]
fn monitor_labels_name_their_display() {
    assert_eq!(window_label_to_display_index("monitor-1"), 1);
    assert_eq!(window_label_to_display_index("monitor-3"), 3);
    assert_eq!(window_label_to_display_index("monitor-10"), 10);
    assert_eq!(window_label_to_display_index("monitor-+2"), 2);
}

#[test]
fn other_labels_name_display_zero() {
    assert_eq!(window_label_to_display_index(""), 0);
    assert_eq!(window_label_to_display_index("monitor-"), 0);
    assert_eq!(window_label_to_display_index("monitor-x"), 0);
    assert_eq!(window_label_to_display_index("monitor--1"), 0);
    assert_eq!(window_label_to_display_index("monitor-1 "), 0);
    assert_eq!(window_label_to_display_index("Monitor-1"), 0);
    assert_eq!(window_label_to_display_index("settings"), 0);
    assert_eq!(window_label_to_display_index("monitor-99999999999999999999999999"), 0);
}

#[test]
fn labels_round_trip() {
    for i in 0..200usize {
        assert_eq!(window_label_to_display_index(&window_label(i)), i);
    }
}

#[test]
fn settle_delay_is_half_a_second() {
    assert_eq!(RECONFIGURE_SETTLE_MS, 500);
}

#[test]
fn second_monitor_gets_a_window() {
    let plan = sync_windows_to_monitors(&labels(&["main"]), 2, false);
    assert_eq!(created(&plan), vec![(1, "monitor-1".to_string())]);
    assert!(plan.close.is_empty());
    assert!(plan.reposition_main);
    assert_eq!(plan.monitor_count, 2);
}

#[test]
fn nothing_to_do_when_windows_match_monitors() {
    let plan = sync_windows_to_monitors(&labels(&["monitor-1", "main"]), 2, true);
    assert!(plan.create.is_empty());
    assert!(plan.close.is_empty());
    assert!(!plan.reposition_main);
    assert_eq!(plan.monitor_count, 2);
}

#[test]
fn windows_of_removed_monitors_are_closed() {
    let plan = sync_windows_to_monitors(&labels(&["main", "monitor-2", "monitor-1"]), 1, false);
    assert!(plan.create.is_empty());
    assert_eq!(plan.close, labels(&["monitor-2", "monitor-1"]));
    assert!(plan.reposition_main);
}

#[test]
fn main_is_moved_only_where_it_is_live_and_off_the_first_monitor() {
    assert!(sync_windows_to_monitors(&labels(&["main"]), 1, false).reposition_main);
    assert!(!sync_windows_to_monitors(&labels(&["main"]), 1, true).reposition_main);
    assert!(!sync_windows_to_monitors(&labels(&["monitor-1"]), 2, false).reposition_main);
    assert!(!sync_windows_to_monitors(&labels(&["main"]), 0, false).reposition_main);
}

#[test]
fn main_survives_the_loss_of_every_monitor() {
    let plan = sync_windows_to_monitors(&labels(&["main", "monitor-1"]), 0, false);
    assert!(plan.create.is_empty());
    assert_eq!(plan.close, labels(&["monitor-1"]));
    assert!(!plan.reposition_main);
    assert_eq!(plan.monitor_count, 0);
}

#[test]
fn missing_main_is_created() {
    let plan = sync_windows_to_monitors(&labels(&[]), 3, false);
    assert_eq!(
        created(&plan),
        vec![(0, "main".to_string()), (1, "monitor-1".to_string()), (2, "monitor-2".to_string())]
    );
    assert!(plan.close.is_empty());
}

#[test]
fn foreign_windows_are_closed() {
    let plan = sync_windows_to_monitors(&labels(&["main", "settings", "monitor-x"]), 1, false);
    assert_eq!(plan.close, labels(&["settings", "monitor-x"]));
}

#[test]
fn gaps_are_filled_in_ascending_order() {
    let plan = sync_windows_to_monitors(&labels(&["monitor-2", "main"]), 4, false);
    assert_eq!(created(&plan), vec![(1, "monitor-1".to_string()), (3, "monitor-3".to_string())]);
}

#[test]
fn reconciliation_settles_on_the_last_snapshot() {
    let mut live = labels(&["main"]);
    for count in [3usize, 1, 4, 0, 2] {
        let plan = sync_windows_to_monitors(&live, count, false);
        live = carry_out(&live, &plan);
    }
    assert_eq!(live, labels(&["main", "monitor-1"]));
    let plan = sync_windows_to_monitors(&live, 0, false);
    live = carry_out(&live, &plan);
    assert_eq!(live, labels(&["main"]));
}

#[test]
fn reconciliation_is_stable_once_settled() {
    let live = labels(&["main", "monitor-1", "monitor-2"]);
    let plan = sync_windows_to_monitors(&live, 3, false);
    assert!(plan.create.is_empty() && plan.close.is_empty());
    assert_eq!(carry_out(&live, &plan), live);
}

fn monitor(name: Option<&str>, x: i32, y: i32, width: u32, height: u32) -> MonitorKey {
    MonitorKey { name: name.map(|n| n.to_string()), x, y, width, height }
}

#[test]
fn main_is_on_the_first_monitor_where_both_are_one_monitor() {
    assert!(main_on_first_monitor(
        Some(monitor(Some("A"), 0, 0, 1920, 1080)),
        Some(monitor(Some("A"), 0, 0, 1920, 1080))
    ));
    assert!(main_on_first_monitor(
        Some(monitor(None, -5, 7, 10, 20)),
        Some(monitor(None, -5, 7, 10, 20))
    ));
}

#[test]
fn main_is_off_the_first_monitor_where_anything_differs() {
    let first = || Some(monitor(Some("A"), 0, 0, 1920, 1080));
    assert!(!main_on_first_monitor(Some(monitor(Some("B"), 0, 0, 1920, 1080)), first()));
    assert!(!main_on_first_monitor(Some(monitor(None, 0, 0, 1920, 1080)), first()));
    assert!(!main_on_first_monitor(Some(monitor(Some("A"), 1, 0, 1920, 1080)), first()));
    assert!(!main_on_first_monitor(Some(monitor(Some("A"), 0, 1, 1920, 1080)), first()));
    assert!(!main_on_first_monitor(Some(monitor(Some("A"), 0, 0, 1921, 1080)), first()));
    assert!(!main_on_first_monitor(Some(monitor(Some("A"), 0, 0, 1920, 1081)), first()));
    assert!(!main_on_first_monitor(first(), Some(monitor(None, 0, 0, 1920, 1080))));
}

#[test]
fn main_is_off_the_first_monitor_where_either_is_unknown() {
    assert!(!main_on_first_monitor(None, Some(monitor(Some("A"), 0, 0, 1, 1))));
    assert!(!main_on_first_monitor(Some(monitor(Some("A"), 0, 0, 1, 1)), None));
    assert!(!main_on_first_monitor(None, None));
}
