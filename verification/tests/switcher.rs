use context_maintainer::spaces::Space;
use context_maintainer::switcher::{
    display_spaces, step_key_code, step_script, switch_desktop, Direction, SwitchPlan,
    KEY_LEFT, KEY_RIGHT, SWITCH_SETTLE_MS,
};

fn space(space_id: i64, display_index: usize, local_ordinal: u32) -> Space {
    Space { space_id, display_index, local_ordinal }
}

fn two_displays() -> Vec<Space> {
    vec![
        space(10, 0, 1),
        space(11, 0, 2),
        space(12, 0, 3),
        space(20, 1, 1),
        space(21, 1, 2),
    ]
}

#[test]
fn spaces_of_one_display() {
    assert_eq!(
        display_spaces(&two_displays(), 0),
        vec![space(10, 0, 1), space(11, 0, 2), space(12, 0, 3)]
    );
    assert_eq!(display_spaces(&two_displays(), 1), vec![space(20, 1, 1), space(21, 1, 2)]);
    assert_eq!(display_spaces(&two_displays(), 2), Vec::<Space>::new());
}

#[test]
fn steps_to_the_right() {
    assert_eq!(
        switch_desktop(&two_displays(), 0, 10, 12),
        Some(SwitchPlan { direction: Direction::Right, presses: 2 })
    );
    assert_eq!(
        switch_desktop(&two_displays(), 1, 20, 21),
        Some(SwitchPlan { direction: Direction::Right, presses: 1 })
    );
}

#[test]
fn steps_to_the_left() {
    assert_eq!(
        switch_desktop(&two_displays(), 0, 12, 10),
        Some(SwitchPlan { direction: Direction::Left, presses: 2 })
    );
    assert_eq!(
        switch_desktop(&two_displays(), 0, 11, 10),
        Some(SwitchPlan { direction: Direction::Left, presses: 1 })
    );
}

#[test]
fn no_switch_to_the_current_space() {
    assert_eq!(switch_desktop(&two_displays(), 0, 11, 11), None);
}

#[test]
fn no_switch_to_a_space_of_another_display() {
    assert_eq!(switch_desktop(&two_displays(), 0, 10, 20), None);
    assert_eq!(switch_desktop(&two_displays(), 1, 20, 10), None);
}

#[test]
fn no_switch_to_an_unknown_space() {
    assert_eq!(switch_desktop(&two_displays(), 0, 10, 99), None);
    assert_eq!(switch_desktop(&vec![], 0, 0, 0), None);
}

#[test]
fn no_switch_from_a_space_that_is_not_enumerated() {
    assert_eq!(switch_desktop(&two_displays(), 0, 77, 10), None);
}

#[test]
fn no_switch_on_an_unknown_display() {
    assert_eq!(switch_desktop(&two_displays(), 5, 10, 11), None);
}

#[test]
fn key_codes_are_the_arrow_keys() {
    assert_eq!(KEY_LEFT, 123);
    assert_eq!(KEY_RIGHT, 124);
    assert_eq!(step_key_code(Direction::Left), 123);
    assert_eq!(step_key_code(Direction::Right), 124);
    assert_eq!(SWITCH_SETTLE_MS, 300);
}

#[test]
fn step_scripts_press_the_arrow_with_control() {
    assert_eq!(
        step_script(Direction::Left),
        "tell application \"System Events\" to key code 123 using control down"
    );
    assert_eq!(
        step_script(Direction::Right),
        "tell application \"System Events\" to key code 124 using control down"
    );
}
