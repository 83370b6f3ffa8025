use context_maintainer::commands::{save_color, save_title, save_todos};
use context_maintainer::desktops::{
    build_desktop_infos, default_color, desktop_color, desktop_info, desktop_name, get_desktop,
    list_all_desktops, list_all_spaces, list_desktops_grouped, DesktopInfo, DesktopSummary,
    DisplayGroup, SpaceInfo,
};
use context_maintainer::spaces::{ManagedDisplay, RawSpace, Space};
use context_maintainer::store::{PersistData, TodoItem};

fn raw(id: i64, kind: i32) -> RawSpace {
    RawSpace { id: Some(id), kind: Some(kind) }
}

fn display(current: RawSpace, spaces: Vec<RawSpace>) -> ManagedDisplay {
    ManagedDisplay { current: Some(current), spaces: Some(spaces) }
}

fn space(space_id: i64, display_index: usize, local_ordinal: u32) -> Space {
    Space { space_id, display_index, local_ordinal }
}

fn todo(id: &str, done: bool) -> TodoItem {
    TodoItem { id: id.to_string(), text: "x".to_string(), done }
}

fn summary(
    space_id: i64,
    position: u32,
    title: &str,
    color: &str,
    todo_count: usize,
) -> DesktopSummary {
    DesktopSummary {
        space_id,
        position,
        name: format!("Desktop {}", position + 1),
        title: title.to_string(),
        color: color.to_string(),
        todo_count,
    }
}

const PALETTE: [&str; 8] = [
    "#F5E6A3", "#F2B8A0", "#A8CCE0", "#A8D8B0", "#C8A8D8", "#F0C8A0", "#A0D8D0", "#E0B8C8",
];

#[test]
fn default_colors_follow_the_palette() {
    for (i, color) in PALETTE.iter().enumerate() {
        assert_eq!(default_color(i as u32), *color);
    }
}

#[test]
fn default_colors_wrap_around() {
    assert_eq!(default_color(8), "#F5E6A3");
    assert_eq!(default_color(9), "#F2B8A0");
    assert_eq!(default_color(23), "#E0B8C8");
    assert_eq!(default_color(u32::MAX), PALETTE[(u32::MAX % 8) as usize]);
    for position in 0..100u32 {
        assert_eq!(default_color(position), PALETTE[position as usize % PALETTE.len()]);
    }
}

#[test]
fn names_count_from_one() {
    assert_eq!(desktop_name(0), "Desktop 1");
    assert_eq!(desktop_name(9), "Desktop 10");
    assert_eq!(desktop_name(u32::MAX), "Desktop 4294967296");
}

#[test]
fn a_custom_color_overrides_the_default() {
    let mut data = PersistData::default();
    assert_eq!(desktop_color(&data, 100, 1), "#F2B8A0");
    save_color(&mut data, 100, "#123456".to_string());
    assert_eq!(desktop_color(&data, 100, 1), "#123456");
    assert_eq!(desktop_color(&data, 200, 1), "#F2B8A0");
}

#[test]
fn current_desktop_of_the_first_display() {
    let data = PersistData::default();
    let displays = vec![
        display(raw(100, 0), vec![raw(100, 0)]),
        display(raw(200, 0), vec![raw(200, 0)]),
    ];
    assert_eq!(
        get_desktop(&data, &displays, 0),
        DesktopInfo {
            space_id: 100,
            position: 0,
            name: "Desktop 1".to_string(),
            color: "#F5E6A3".to_string(),
            is_fullscreen: false,
        }
    );
}

#[test]
fn current_desktop_of_the_second_display() {
    let mut data = PersistData::default();
    save_color(&mut data, 200, "#000000".to_string());
    let displays = vec![
        display(raw(100, 0), vec![raw(100, 0)]),
        display(raw(200, 0), vec![raw(200, 0)]),
    ];
    assert_eq!(
        get_desktop(&data, &displays, 1),
        DesktopInfo {
            space_id: 200,
            position: 1,
            name: "Desktop 2".to_string(),
            color: "#000000".to_string(),
            is_fullscreen: false,
        }
    );
}

#[test]
fn a_fullscreen_space_is_shown_at_position_zero() {
    let data = PersistData::default();
    let displays = vec![display(raw(77, 4), vec![raw(1, 0), raw(77, 4), raw(2, 0)])];
    assert_eq!(
        get_desktop(&data, &displays, 0),
        DesktopInfo {
            space_id: 77,
            position: 0,
            name: "Desktop 1".to_string(),
            color: "#F5E6A3".to_string(),
            is_fullscreen: true,
        }
    );
}

#[test]
fn a_display_beyond_the_report_shows_space_zero() {
    let mut data = PersistData::default();
    save_color(&mut data, 100, "#111111".to_string());
    let displays = vec![
        display(raw(100, 0), vec![raw(100, 0)]),
        display(raw(200, 4), vec![raw(200, 4)]),
    ];
    assert_eq!(
        get_desktop(&data, &displays, 5),
        DesktopInfo {
            space_id: 0,
            position: 0,
            name: "Desktop 1".to_string(),
            color: "#F5E6A3".to_string(),
            is_fullscreen: false,
        }
    );
}

#[test]
fn nothing_reported_is_desktop_zero() {
    let data = PersistData::default();
    assert_eq!(
        get_desktop(&data, &vec![], 3),
        DesktopInfo {
            space_id: 0,
            position: 0,
            name: "Desktop 1".to_string(),
            color: "#F5E6A3".to_string(),
            is_fullscreen: false,
        }
    );
}

#[test]
fn desktop_info_takes_the_first_position() {
    let data = PersistData::default();
    let spaces = vec![space(5, 0, 1), space(6, 0, 2), space(6, 1, 1)];
    let info = desktop_info(&data, &spaces, 6, 0);
    assert_eq!(info.position, 1);
    assert_eq!(info.name, "Desktop 2");
    assert_eq!(info.color, "#F2B8A0");
    assert!(!info.is_fullscreen);
    assert!(desktop_info(&data, &spaces, 6, -1).is_fullscreen);
}

#[test]
fn one_info_per_display() {
    let mut data = PersistData::default();
    save_color(&mut data, 201, "#ABABAB".to_string());
    let displays = vec![
        display(raw(100, 0), vec![raw(100, 0), raw(101, 0)]),
        display(raw(201, 0), vec![raw(200, 0), raw(201, 0)]),
    ];
    let infos = build_desktop_infos(&data, &displays);
    assert_eq!(
        infos,
        vec![
            DesktopInfo {
                space_id: 100,
                position: 0,
                name: "Desktop 1".to_string(),
                color: "#F5E6A3".to_string(),
                is_fullscreen: false,
            },
            DesktopInfo {
                space_id: 201,
                position: 3,
                name: "Desktop 4".to_string(),
                color: "#ABABAB".to_string(),
                is_fullscreen: false,
            },
        ]
    );
}

#[test]
fn one_info_where_nothing_is_reported() {
    let data = PersistData::default();
    let infos = build_desktop_infos(&data, &vec![]);
    assert_eq!(infos.len(), 1);
    assert_eq!(infos[0].space_id, 0);
    assert_eq!(infos[0].position, 0);
}

#[test]
fn infos_stop_at_the_last_display_with_a_desktop() {
    let data = PersistData::default();
    let displays = vec![
        display(raw(100, 0), vec![raw(100, 0)]),
        display(raw(300, 4), vec![raw(300, 4)]),
    ];
    let infos = build_desktop_infos(&data, &displays);
    assert_eq!(infos.len(), 1);
    assert_eq!(infos[0].space_id, 100);
}

#[test]
fn all_desktops_are_listed_by_position() {
    let mut data = PersistData::default();
    save_title(&mut data, 20, "Work".to_string());
    save_todos(&mut data, 20, vec![todo("a", false), todo("b", true), todo("c", false)]);
    save_todos(&mut data, 10, vec![todo("d", true)]);
    save_color(&mut data, 30, "#333333".to_string());
    let spaces = vec![space(10, 0, 1), space(20, 0, 2), space(30, 1, 1)];
    assert_eq!(
        list_all_desktops(&data, &spaces),
        vec![
            summary(10, 0, "", "#F5E6A3", 0),
            summary(20, 1, "Work", "#F2B8A0", 2),
            summary(30, 2, "", "#333333", 0),
        ]
    );
    assert_eq!(list_all_desktops(&data, &vec![]), vec![]);
}

#[test]
fn all_spaces_are_listed_by_position() {
    let mut data = PersistData::default();
    save_title(&mut data, 20, "Work".to_string());
    save_color(&mut data, 10, "#101010".to_string());
    let spaces = vec![space(10, 0, 1), space(20, 0, 2)];
    assert_eq!(
        list_all_spaces(&data, &spaces),
        vec![
            SpaceInfo {
                space_id: 10,
                position: 0,
                name: "Desktop 1".to_string(),
                title: String::new(),
                color: "#101010".to_string(),
            },
            SpaceInfo {
                space_id: 20,
                position: 1,
                name: "Desktop 2".to_string(),
                title: "Work".to_string(),
                color: "#F2B8A0".to_string(),
            },
        ]
    );
}

#[test]
fn desktops_are_grouped_by_display() {
    let mut data = PersistData::default();
    save_title(&mut data, 30, "Side".to_string());
    save_todos(&mut data, 30, vec![todo("a", false)]);
    let spaces = vec![space(10, 0, 1), space(20, 0, 2), space(30, 1, 1)];
    assert_eq!(
        list_desktops_grouped(&data, &spaces),
        vec![
            DisplayGroup {
                display_index: 0,
                desktops: vec![summary(10, 0, "", "#F5E6A3", 0), summary(20, 1, "", "#F2B8A0", 0)],
            },
            DisplayGroup {
                display_index: 1,
                desktops: vec![summary(30, 2, "Side", "#A8CCE0", 1)],
            },
        ]
    );
    assert_eq!(list_desktops_grouped(&data, &vec![]), vec![]);
}

#[test]
fn groups_are_sorted_by_display_whatever_the_order_of_spaces() {
    let data = PersistData::default();
    let spaces = vec![space(1, 2, 1), space(2, 0, 1), space(3, 2, 2), space(4, 5, 1)];
    let groups = list_desktops_grouped(&data, &spaces);
    let shape: Vec<(usize, Vec<u32>)> = groups
        .iter()
        .map(|g| (g.display_index, g.desktops.iter().map(|d| d.position).collect()))
        .collect();
    assert_eq!(shape, vec![(0, vec![1]), (2, vec![0, 2]), (5, vec![3])]);
}
