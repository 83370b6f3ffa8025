use context_maintainer::spaces::{
    active_spaces, display_count, enumerate_spaces, find_position, positions_fit,
    space_info_for_display, ManagedDisplay, RawSpace, Space,
};

fn raw(id: i64, kind: i32) -> RawSpace {
    RawSpace { id: Some(id), kind: Some(kind) }
}

fn display(current: Option<RawSpace>, spaces: Vec<RawSpace>) -> ManagedDisplay {
    ManagedDisplay { current, spaces: Some(spaces) }
}

fn space(space_id: i64, display_index: usize, local_ordinal: u32) -> Space {
    Space { space_id, display_index, local_ordinal }
}

#[test]
fn nothing_reported_enumerates_nothing() {
    assert_eq!(enumerate_spaces(&vec![]), vec![]);
}

#[test]
fn spaces_come_display_by_display_in_native_order() {
    let displays = vec![
        display(Some(raw(100, 0)), vec![raw(100, 0), raw(101, 0)]),
        display(Some(raw(200, 0)), vec![raw(200, 0), raw(201, 0), raw(202, 0)]),
    ];
    assert_eq!(
        enumerate_spaces(&displays),
        vec![
            space(100, 0, 1),
            space(101, 0, 2),
            space(200, 1, 1),
            space(201, 1, 2),
            space(202, 1, 3),
        ]
    );
}

#[test]
fn fullscreen_spaces_are_left_out_and_not_counted() {
    let displays = vec![display(None, vec![raw(1, 0), raw(2, 4), raw(3, 0), raw(4, 4)])];
    assert_eq!(enumerate_spaces(&displays), vec![space(1, 0, 1), space(3, 0, 2)]);
}

#[test]
fn a_space_without_type_is_left_out() {
    let displays = vec![display(None, vec![RawSpace { id: Some(1), kind: None }, raw(2, 0)])];
    assert_eq!(enumerate_spaces(&displays), vec![space(2, 0, 1)]);
}

#[test]
fn a_space_without_identifier_reads_as_zero() {
    let displays = vec![display(None, vec![RawSpace { id: None, kind: Some(0) }, raw(9, 0)])];
    assert_eq!(enumerate_spaces(&displays), vec![space(0, 0, 1), space(9, 0, 2)]);
}

#[test]
fn a_display_without_list_keeps_its_index() {
    let displays = vec![
        ManagedDisplay { current: None, spaces: None },
        display(None, vec![raw(7, 0)]),
        display(None, vec![]),
        display(None, vec![raw(8, 0)]),
    ];
    assert_eq!(enumerate_spaces(&displays), vec![space(7, 1, 1), space(8, 3, 1)]);
}

#[test]
fn active_space_of_nothing_is_zero() {
    assert_eq!(space_info_for_display(&vec![], 0), (0, 0));
    assert_eq!(space_info_for_display(&vec![], 5), (0, 0));
}

#[test]
fn active_space_is_read_per_display() {
    let displays =
        vec![display(Some(raw(100, 0)), vec![]), display(Some(raw(200, 4)), vec![])];
    assert_eq!(space_info_for_display(&displays, 0), (100, 0));
    assert_eq!(space_info_for_display(&displays, 1), (200, 4));
}

#[test]
fn a_display_out_of_range_reads_as_space_zero() {
    let displays =
        vec![display(Some(raw(100, 0)), vec![]), display(Some(raw(200, 4)), vec![])];
    assert_eq!(space_info_for_display(&displays, 2), (0, 0));
    assert_eq!(space_info_for_display(&displays, 5), (0, 0));
    assert_eq!(space_info_for_display(&displays, usize::MAX), (0, 0));
}

#[test]
fn active_spaces_are_listed_by_display() {
    let displays =
        vec![display(Some(raw(100, 0)), vec![]), display(Some(raw(200, 4)), vec![])];
    assert_eq!(active_spaces(&displays, 0), Vec::<i64>::new());
    assert_eq!(active_spaces(&displays, 1), vec![100]);
    assert_eq!(active_spaces(&displays, 2), vec![100, 200]);
    assert_eq!(active_spaces(&displays, 4), vec![100, 200, 0, 0]);
    assert_eq!(active_spaces(&vec![], 2), vec![0, 0]);
}

#[test]
fn a_display_without_current_space_reads_as_zero() {
    let displays = vec![display(None, vec![raw(1, 0)])];
    assert_eq!(space_info_for_display(&displays, 0), (0, 0));
}

#[test]
fn missing_parts_of_the_current_space_read_as_zero() {
    let displays = vec![
        display(Some(RawSpace { id: None, kind: Some(4) }), vec![]),
        display(Some(RawSpace { id: Some(5), kind: None }), vec![]),
    ];
    assert_eq!(space_info_for_display(&displays, 0), (0, 4));
    assert_eq!(space_info_for_display(&displays, 1), (5, 0));
}

#[test]
fn find_position_gives_the_first_place() {
    let spaces = vec![space(5, 0, 1), space(6, 0, 2), space(5, 1, 1)];
    assert_eq!(find_position(&spaces, 5), Some(0));
    assert_eq!(find_position(&spaces, 6), Some(1));
    assert_eq!(find_position(&spaces, 7), None);
    assert_eq!(find_position(&vec![], 7), None);
}

#[test]
fn display_count_is_one_without_spaces() {
    assert_eq!(display_count(&vec![]), 1);
}

#[test]
fn display_count_spans_the_largest_index() {
    assert_eq!(display_count(&vec![space(1, 0, 1)]), 1);
    assert_eq!(display_count(&vec![space(1, 0, 1), space(2, 1, 1)]), 2);
    assert_eq!(display_count(&vec![space(1, 3, 1), space(2, 1, 1)]), 4);
}

#[test]
fn ordinary_reports_fit() {
    assert!(positions_fit(&vec![]));
    assert!(positions_fit(&vec![ManagedDisplay { current: None, spaces: None }]));
    assert!(positions_fit(&vec![
        display(None, vec![raw(1, 0), raw(2, 4)]),
        display(None, vec![raw(3, 0)]),
    ]));
}

#[test]
fn every_enumerated_space_is_on_a_reported_display() {
    let displays = vec![
        display(None, vec![raw(1, 0), raw(2, 4)]),
        ManagedDisplay { current: None, spaces: None },
        display(None, vec![raw(3, 0)]),
    ];
    assert!(positions_fit(&displays));
    for s in enumerate_spaces(&displays) {
        assert!(s.display_index < displays.len());
    }
}
