use context_maintainer::commands::{get_title, get_todos, save_title, save_todos};
use context_maintainer::session::{
    get_context_history, restore_context, rotate_session, start_new_session,
};
use context_maintainer::store::{PersistData, SavedContext, TodoItem};

fn todo(id: &str, text: &str, done: bool) -> TodoItem {
    TodoItem { id: id.to_string(), text: text.to_string(), done }
}

#[test]
fn rotation_snapshots_what_holds_something_and_clears_everything() {
    let mut data = PersistData::default();
    save_title(&mut data, 100, "T".to_string());
    save_todos(&mut data, 100, vec![todo("a", "x", false)]);
    save_todos(&mut data, 200, vec![]);
    rotate_session(&mut data, &"2024-01-01T00:00:00+00:00".to_string());
    assert_eq!(
        data.context_history.get(&100),
        Some(&vec![SavedContext {
            title: "T".to_string(),
            todos: vec![todo("a", "x", false)],
            saved_at: "2024-01-01T00:00:00+00:00".to_string(),
        }])
    );
    assert!(!data.context_history.contains_key(&200));
    assert!(data.notes.is_empty());
    assert!(data.titles.is_empty());
    assert_eq!(get_todos(&data, 100), vec![]);
    assert_eq!(get_todos(&data, 200), vec![]);
    assert_eq!(get_title(&data, 100), "");
}

#[test]
fn a_title_alone_is_worth_a_snapshot() {
    let mut data = PersistData::default();
    save_title(&mut data, 5, "only title".to_string());
    rotate_session(&mut data, &"now".to_string());
    assert_eq!(
        data.context_history.get(&5),
        Some(&vec![SavedContext {
            title: "only title".to_string(),
            todos: vec![],
            saved_at: "now".to_string(),
        }])
    );
}

#[test]
fn todos_alone_are_worth_a_snapshot() {
    let mut data = PersistData::default();
    save_todos(&mut data, 5, vec![todo("a", "x", true)]);
    rotate_session(&mut data, &"now".to_string());
    assert_eq!(
        data.context_history.get(&5),
        Some(&vec![SavedContext {
            title: String::new(),
            todos: vec![todo("a", "x", true)],
            saved_at: "now".to_string(),
        }])
    );
}

#[test]
fn rotation_of_an_empty_store_changes_nothing() {
    let mut data = PersistData::default();
    rotate_session(&mut data, &"now".to_string());
    assert_eq!(data, PersistData::default());
}

#[test]
fn rotation_leaves_other_histories_alone() {
    let mut data = PersistData::default();
    save_title(&mut data, 1, "one".to_string());
    rotate_session(&mut data, &"t1".to_string());
    save_title(&mut data, 2, "two".to_string());
    rotate_session(&mut data, &"t2".to_string());
    assert_eq!(data.context_history.get(&1).map(|h| h.len()), Some(1));
    assert_eq!(data.context_history.get(&2).map(|h| h.len()), Some(1));
    assert_eq!(data.context_history.get(&1).unwrap()[0].saved_at, "t1");
    assert_eq!(data.context_history.get(&2).unwrap()[0].saved_at, "t2");
}

#[test]
fn snapshots_are_appended_oldest_first() {
    let mut data = PersistData::default();
    for n in 0..3 {
        save_title(&mut data, 1, format!("title {}", n));
        rotate_session(&mut data, &format!("t{}", n));
    }
    let history = data.context_history.get(&1).unwrap();
    let titles: Vec<&str> = history.iter().map(|c| c.title.as_str()).collect();
    assert_eq!(titles, vec!["title 0", "title 1", "title 2"]);
}

#[test]
fn history_length_is_the_number_of_sessions_up_to_the_cap() {
    let mut data = PersistData::default();
    for n in 1..=25usize {
        save_title(&mut data, 1, format!("title {}", n));
        rotate_session(&mut data, &format!("t{:02}", n));
        let expected = if n < 20 { n } else { 20 };
        assert_eq!(data.context_history.get(&1).unwrap().len(), expected);
    }
}

#[test]
fn the_cap_keeps_the_most_recent_snapshots() {
    let mut data = PersistData::default();
    for n in 1..=25usize {
        save_todos(&mut data, 1, vec![todo("a", &format!("todo {}", n), false)]);
        rotate_session(&mut data, &format!("t{:02}", n));
    }
    let history = data.context_history.get(&1).unwrap();
    assert_eq!(history.len(), 20);
    let stamps: Vec<String> = history.iter().map(|c| c.saved_at.clone()).collect();
    let expected: Vec<String> = (6..=25).map(|n| format!("t{:02}", n)).collect();
    assert_eq!(stamps, expected);
    assert_eq!(history[0].todos, vec![todo("a", "todo 6", false)]);
    assert_eq!(history[19].todos, vec![todo("a", "todo 25", false)]);
}

#[test]
fn an_overlong_history_is_cut_down_at_the_next_rotation() {
    let mut data = PersistData::default();
    let old: Vec<SavedContext> = (0..30)
        .map(|n| SavedContext {
            title: format!("old {}", n),
            todos: vec![],
            saved_at: format!("o{:02}", n),
        })
        .collect();
    data.context_history.insert(1, old);
    save_title(&mut data, 1, "new".to_string());
    rotate_session(&mut data, &"now".to_string());
    let history = data.context_history.get(&1).unwrap();
    assert_eq!(history.len(), 20);
    assert_eq!(history[0].title, "old 11");
    assert_eq!(history[18].title, "old 29");
    assert_eq!(history[19].title, "new");
}

#[test]
fn start_new_session_stamps_with_the_clock() {
    let mut data = PersistData::default();
    save_title(&mut data, 100, "T".to_string());
    save_todos(&mut data, 100, vec![todo("a", "x", false)]);
    save_title(&mut data, 300, "U".to_string());
    start_new_session(&mut data);
    assert!(data.notes.is_empty());
    assert!(data.titles.is_empty());
    let first = &data.context_history.get(&100).unwrap()[0];
    let second = &data.context_history.get(&300).unwrap()[0];
    assert_eq!(first.title, "T");
    assert_eq!(first.todos, vec![todo("a", "x", false)]);
    assert_eq!(second.title, "U");
    assert!(!first.saved_at.is_empty());
    assert_eq!(first.saved_at, second.saved_at);
    assert!(first.saved_at.len() >= 25);
    assert_eq!(&first.saved_at[4..5], "-");
    assert_eq!(&first.saved_at[10..11], "T");
    assert!(first.saved_at.ends_with("+00:00"));
}

#[test]
fn history_is_copied_out() {
    let mut data = PersistData::default();
    save_title(&mut data, 1, "one".to_string());
    rotate_session(&mut data, &"t1".to_string());
    assert_eq!(get_context_history(&data), data.context_history);
    assert_eq!(get_context_history(&PersistData::default()).len(), 0);
}

#[test]
fn a_snapshot_is_restored() {
    let mut data = PersistData::default();
    save_title(&mut data, 1, "first".to_string());
    save_todos(&mut data, 1, vec![todo("a", "x", false)]);
    rotate_session(&mut data, &"t1".to_string());
    save_title(&mut data, 1, "second".to_string());
    rotate_session(&mut data, &"t2".to_string());
    save_title(&mut data, 1, "current".to_string());
    save_title(&mut data, 2, "other".to_string());
    assert!(restore_context(&mut data, 1, 0));
    assert_eq!(get_title(&data, 1), "first");
    assert_eq!(get_todos(&data, 1), vec![todo("a", "x", false)]);
    assert_eq!(get_title(&data, 2), "other");
    assert_eq!(data.context_history.get(&1).unwrap().len(), 2);
    assert!(restore_context(&mut data, 1, 1));
    assert_eq!(get_title(&data, 1), "second");
    assert_eq!(get_todos(&data, 1), vec![]);
}

#[test]
fn restoring_a_snapshot_without_title_removes_the_title() {
    let mut data = PersistData::default();
    save_todos(&mut data, 1, vec![todo("a", "x", false)]);
    rotate_session(&mut data, &"t1".to_string());
    save_title(&mut data, 1, "current".to_string());
    assert!(restore_context(&mut data, 1, 0));
    assert!(!data.titles.contains_key(&1));
    assert_eq!(get_todos(&data, 1), vec![todo("a", "x", false)]);
}

#[test]
fn a_missing_snapshot_is_a_miss() {
    let mut data = PersistData::default();
    save_title(&mut data, 1, "first".to_string());
    rotate_session(&mut data, &"t1".to_string());
    save_title(&mut data, 1, "current".to_string());
    let before = data.clone();
    assert!(!restore_context(&mut data, 1, 1));
    assert!(!restore_context(&mut data, 1, usize::MAX));
    assert!(!restore_context(&mut data, 2, 0));
    assert_eq!(data, before);
}
