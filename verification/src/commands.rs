//! The commands that read or replace one part of the aggregate.
//!
//! Each command says exactly what the aggregate holds afterwards. None
//! touches the layout version. Writing the aggregate out is left to the
//! owner, who does so after every command that takes the aggregate mutably.

use crate::spaces::Space;
use crate::store::{
    clone_todos, completed_view, strings_view, title_of, todos_of, todos_view, CompletedItem,
    CompletedModel, PersistData, PersistModel, Settings, SettingsModel, TodoItem,
};
use vstd::prelude::*;
use vstd::std_specs::hash::*;

verus! {

/// The colors of a theme laid over an enumeration: the space at position
/// `i` gets `colors[i]`, as far as both reach. Where one identifier stands
/// at several positions, the color of the last of them stays.
pub open spec fn themed(ids: Seq<i64>, colors: Seq<Seq<char>>) -> Map<i64, Seq<char>>
    decreases ids.len(),
{
    if ids.len() == 0 {
        Map::empty()
    } else {
        let before = themed(ids.drop_last(), colors);
        if ids.len() - 1 < colors.len() {
            before.insert(ids.last(), colors[ids.len() - 1])
        } else {
            before
        }
    }
}

/// A space has a theme color exactly where it stands at a position that
/// the theme reaches.
pub proof fn lemma_themed_keys(ids: Seq<i64>, colors: Seq<Seq<char>>, key: i64)
    ensures
        themed(ids, colors).contains_key(key) <==> exists|p: int|
            0 <= p < ids.len() && p < colors.len() && #[trigger] ids[p] == key,
    decreases ids.len(),
{
    if ids.len() > 0 {
        let rest = ids.drop_last();
        lemma_themed_keys(rest, colors, key);
        if themed(rest, colors).contains_key(key) {
            let p = choose|p: int| 0 <= p < rest.len() && p < colors.len() && #[trigger] rest[p] == key;
            assert(ids[p] == key);
        }
        if exists|p: int| 0 <= p < ids.len() && p < colors.len() && #[trigger] ids[p] == key {
            let p = choose|p: int|
                0 <= p < ids.len() && p < colors.len() && #[trigger] ids[p] == key;
            if p < ids.len() - 1 {
                assert(rest[p] == key);
            }
        }
    }
}

/// Where no identifier stands at two positions, the space at each position
/// that the theme reaches has the color of that position.
pub proof fn lemma_themed_distinct(ids: Seq<i64>, colors: Seq<Seq<char>>, position: int)
    requires
        ids.no_duplicates(),
        0 <= position < ids.len(),
        position < colors.len(),
    ensures
        themed(ids, colors).contains_key(ids[position]),
        themed(ids, colors)[ids[position]] == colors[position],
    decreases ids.len(),
{
    let rest = ids.drop_last();
    if position < ids.len() - 1 {
        assert(rest[position] == ids[position]);
        lemma_themed_distinct(rest, colors, position);
        assert(ids[ids.len() - 1] != ids[position]);
    }
}

/// The todo list of `desktop`, empty where none is stored.
pub fn get_todos(data: &PersistData, desktop: i64) -> (todos: Vec<TodoItem>)
    ensures
        todos_view(todos@) == todos_of(data@, desktop),
{
    broadcast use group_hash_axioms;

    match data.notes.get(&desktop) {
        Some(stored) => clone_todos(stored),
        None => {
            let todos: Vec<TodoItem> = Vec::new();
            assert(todos_view(todos@) =~= Seq::empty());
            todos
        },
    }
}

/// Replaces the todo list of `desktop`.
pub fn save_todos(data: &mut PersistData, desktop: i64, todos: Vec<TodoItem>)
    ensures
        final(data)@ == (PersistModel {
            notes: old(data)@.notes.insert(desktop, todos_view(todos@)),
            ..old(data)@
        }),
{
    broadcast use group_hash_axioms;

    data.notes.insert(desktop, todos);
    assert(data@.notes =~= old(data)@.notes.insert(desktop, todos_view(todos@)));
}

/// The title of `desktop`, empty where none is stored.
pub fn get_title(data: &PersistData, desktop: i64) -> (title: String)
    ensures
        title@ == title_of(data@, desktop),
{
    broadcast use group_hash_axioms;

    match data.titles.get(&desktop) {
        Some(stored) => stored.clone(),
        None => String::new(),
    }
}

/// Replaces the title of `desktop`. An empty title removes the entry.
pub fn save_title(data: &mut PersistData, desktop: i64, title: String)
    ensures
        final(data)@ == (PersistModel {
            titles: if title@.len() == 0 {
                old(data)@.titles.remove(desktop)
            } else {
                old(data)@.titles.insert(desktop, title@)
            },
            ..old(data)@
        }),
{
    broadcast use group_hash_axioms;

    if title.as_str().is_empty() {
        data.titles.remove(&desktop);
        assert(data@.titles =~= old(data)@.titles.remove(desktop));
    } else {
        data.titles.insert(desktop, title);
        assert(data@.titles =~= old(data)@.titles.insert(desktop, title@));
    }
}

/// A copy of the preferences.
pub fn get_settings(data: &PersistData) -> (settings: Settings)
    ensures
        settings@ == data@.settings,
{
    data.settings.clone()
}

/// Marks the first-run setup as done.
pub fn complete_setup(data: &mut PersistData)
    ensures
        final(data)@ == (PersistModel {
            settings: SettingsModel { setup_complete: true, ..old(data)@.settings },
            ..old(data)@
        }),
{
    data.settings.setup_complete = true;
}

/// Sets the custom color of `desktop`.
pub fn save_color(data: &mut PersistData, desktop: i64, color: String)
    ensures
        final(data)@ == (PersistModel {
            settings: SettingsModel {
                custom_colors: old(data)@.settings.custom_colors.insert(desktop, color@),
                ..old(data)@.settings
            },
            ..old(data)@
        }),
{
    broadcast use group_hash_axioms;

    data.settings.custom_colors.insert(desktop, color);
    assert(data@.settings.custom_colors =~= old(data)@.settings.custom_colors.insert(
        desktop,
        color@,
    ));
}

/// Stores the number of desktops that the user works with.
pub fn save_desktop_count(data: &mut PersistData, count: u32)
    ensures
        final(data)@ == (PersistModel {
            settings: SettingsModel { desktop_count: count, ..old(data)@.settings },
            ..old(data)@
        }),
{
    data.settings.desktop_count = count;
}

/// Replaces all custom colors by a theme: the space at position `i` of
/// `spaces` gets `colors[i]`. Spaces beyond the theme, and colors beyond
/// the spaces, get and give nothing.
pub fn apply_theme(data: &mut PersistData, spaces: &Vec<Space>, colors: Vec<String>)
    ensures
        final(data)@ == (PersistModel {
            settings: SettingsModel {
                custom_colors: themed(crate::migrate::ids_of(spaces@), strings_view(colors@)),
                ..old(data)@.settings
            },
            ..old(data)@
        }),
{
    broadcast use group_hash_axioms;

    let ghost ids = crate::migrate::ids_of(spaces@);
    let ghost palette = strings_view(colors@);
    data.settings.custom_colors.clear();
    assert(data@.settings.custom_colors =~= Map::empty());
    assert(ids.take(0) =~= Seq::<i64>::empty());
    let mut i: usize = 0;
    while i < spaces.len()
        invariant
            i <= spaces.len(),
            ids == crate::migrate::ids_of(spaces@),
            palette == strings_view(colors@),
            data@.settings.custom_colors == themed(ids.take(i as int), palette),
            data@ == (PersistModel {
                settings: SettingsModel {
                    custom_colors: data@.settings.custom_colors,
                    ..old(data)@.settings
                },
                ..old(data)@
            }),
        decreases spaces.len() - i,
    {
        let ghost next = ids.take(i + 1);
        let ghost before = data@.settings.custom_colors;
        assert(next.drop_last() =~= ids.take(i as int));
        assert(next.last() == spaces@[i as int].space_id);
        if i < colors.len() {
            let color = colors[i].clone();
            data.settings.custom_colors.insert(spaces[i].space_id, color);
            assert(data@.settings.custom_colors =~= before.insert(
                spaces@[i as int].space_id,
                palette[i as int],
            ));
        }
        i += 1;
    }
    assert(ids.take(spaces.len() as int) =~= ids);
}

/// Replaces the timer lengths on offer.
pub fn save_timer_presets(data: &mut PersistData, presets: Vec<u32>)
    ensures
        final(data)@ == (PersistModel {
            settings: SettingsModel { timer_presets: presets@, ..old(data)@.settings },
            ..old(data)@
        }),
{
    data.settings.timer_presets = presets;
}

/// Sets which notifications are on.
pub fn save_notify_settings(data: &mut PersistData, system: bool, flash: bool)
    ensures
        final(data)@ == (PersistModel {
            settings: SettingsModel {
                notify_system: system,
                notify_flash: flash,
                ..old(data)@.settings
            },
            ..old(data)@
        }),
{
    data.settings.notify_system = system;
    data.settings.notify_flash = flash;
}

/// Replaces the list of hidden panels.
pub fn save_hidden_panels(data: &mut PersistData, panels: Vec<String>)
    ensures
        final(data)@ == (PersistModel {
            settings: SettingsModel {
                hidden_panels: strings_view(panels@),
                ..old(data)@.settings
            },
            ..old(data)@
        }),
{
    data.settings.hidden_panels = panels;
}

/// Forgets every todo list, title and custom color. History, completed
/// todos and the other preferences stay.
pub fn clear_all_data(data: &mut PersistData)
    ensures
        final(data)@ == (PersistModel {
            notes: Map::empty(),
            titles: Map::empty(),
            settings: SettingsModel { custom_colors: Map::empty(), ..old(data)@.settings },
            ..old(data)@
        }),
{
    data.notes.clear();
    data.titles.clear();
    data.settings.custom_colors.clear();
    assert(data@.notes =~= Map::empty());
    assert(data@.titles =~= Map::empty());
    assert(data@.settings.custom_colors =~= Map::empty());
}

/// A copy of the completed todos, oldest first.
pub fn get_completed(data: &PersistData) -> (items: Vec<CompletedItem>)
    ensures
        completed_view(items@) == data@.completed,
{
    let mut items: Vec<CompletedItem> = Vec::new();
    let mut i: usize = 0;
    while i < data.completed.len()
        invariant
            i <= data.completed.len(),
            items@ == data.completed@.take(i as int),
        decreases data.completed.len() - i,
    {
        items.push(data.completed[i].clone());
        assert(items@ =~= data.completed@.take(i + 1));
        i += 1;
    }
    assert(data.completed@.take(data.completed.len() as int) =~= data.completed@);
    items
}

/// Appends a completed todo under the identifier and timestamp given.
pub fn record_completed(
    data: &mut PersistData,
    id: String,
    text: String,
    desktop_id: i64,
    completed_at: String,
)
    ensures
        final(data)@ == (PersistModel {
            completed: old(data)@.completed.push(
                CompletedModel { id: id@, text: text@, desktop_id, completed_at: completed_at@ },
            ),
            ..old(data)@
        }),
{
    data.completed.push(CompletedItem { id, text, desktop_id, completed_at });
    assert(data@.completed =~= old(data)@.completed.push(
        CompletedModel { id: id@, text: text@, desktop_id, completed_at: completed_at@ },
    ));
}

/// Appends a completed todo under a fresh random identifier, stamped with
/// the time of the call.
///
/// Identifier and timestamp are whatever the generator and the clock hand
/// out; everything else is as `record_completed` leaves it.
pub fn add_completed(data: &mut PersistData, text: String, desktop_id: i64)
    ensures
        final(data)@.completed.len() == old(data)@.completed.len() + 1,
        final(data)@ == (PersistModel {
            completed: old(data)@.completed.push(final(data)@.completed.last()),
            ..old(data)@
        }),
        final(data)@.completed.last().text == text@,
        final(data)@.completed.last().desktop_id == desktop_id,
        final(data)@.completed.last().id.len() == 36,
        final(data)@.completed.last().completed_at.len() > 0,
{
    let id = crate::clock::new_random_id();
    let completed_at = crate::clock::now_rfc3339();
    record_completed(data, id, text, desktop_id, completed_at);
}

/// Forgets the completed todos.
pub fn clear_completed(data: &mut PersistData)
    ensures
        final(data)@ == (PersistModel { completed: Seq::empty(), ..old(data)@ }),
{
    data.completed.clear();
    assert(data@.completed =~= Seq::empty());
}

} // verus!
