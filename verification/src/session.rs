//! Session rotation: what every desktop holds is put away as a snapshot,
//! and the desktops start empty.
//!
//! Each desktop keeps its last `MAX_HISTORY_PER_DESKTOP` snapshots, oldest
//! first. A snapshot can be brought back by its index.

use crate::commands::{save_title, save_todos};
use crate::maps::{insert_keys, members_of};
use crate::seqs::lemma_take_step_set;
use crate::store::{
    contexts_view, history_of, history_view, title_of, todos_of, todos_view, ContextModel,
    PersistData, PersistModel, SavedContext, TodoItem, MAX_HISTORY_PER_DESKTOP,
};
use std::collections::HashMap;
use std::collections::HashSet;
use vstd::prelude::*;
use vstd::std_specs::hash::*;

verus! {

/// Whether `desktop` holds anything worth a snapshot: a title or a todo.
pub open spec fn has_content(store: PersistModel, desktop: i64) -> bool {
    title_of(store, desktop).len() > 0 || todos_of(store, desktop).len() > 0
}

/// The snapshot of what `desktop` holds, stamped `now`.
pub open spec fn snapshot_of(store: PersistModel, desktop: i64, now: Seq<char>) -> ContextModel {
    ContextModel { title: title_of(store, desktop), todos: todos_of(store, desktop), saved_at: now }
}

/// The last `MAX_HISTORY_PER_DESKTOP` entries of `history`, all of them
/// where there are no more than that.
pub open spec fn capped<T>(history: Seq<T>) -> Seq<T> {
    if history.len() > MAX_HISTORY_PER_DESKTOP {
        history.skip(history.len() - MAX_HISTORY_PER_DESKTOP)
    } else {
        history
    }
}

/// The history after the desktops in `done` have been put away: each of
/// them that holds something has its snapshot appended and its history
/// capped; every other history is as it was.
pub open spec fn history_after(store: PersistModel, now: Seq<char>, done: Set<i64>) -> Map<
    i64,
    Seq<ContextModel>,
> {
    Map::new(
        |d: i64| store.context_history.contains_key(d) || (done.contains(d) && has_content(store, d)),
        |d: i64|
            if done.contains(d) && has_content(store, d) {
                capped(history_of(store, d).push(snapshot_of(store, d, now)))
            } else {
                store.context_history[d]
            },
    )
}

/// The aggregate after a session rotation stamped `now`: every desktop
/// that holds a title or a todo has its snapshot appended to its history,
/// which is then capped; after that no desktop holds a title or a todo,
/// whether it was put away or not.
pub open spec fn rotated(store: PersistModel, now: Seq<char>) -> PersistModel {
    PersistModel {
        notes: Map::empty(),
        titles: Map::empty(),
        context_history: history_after(store, now, Set::full()),
        ..store
    }
}

/// The aggregate after the snapshot `index` of `desktop` has been brought
/// back: its todos replace the todo list of the desktop and its title the
/// title, an empty title removing the entry.
pub open spec fn restored(store: PersistModel, desktop: i64, index: int) -> PersistModel {
    let saved = store.context_history[desktop][index];
    PersistModel {
        notes: store.notes.insert(desktop, saved.todos),
        titles: if saved.title.len() == 0 {
            store.titles.remove(desktop)
        } else {
            store.titles.insert(desktop, saved.title)
        },
        ..store
    }
}

/// Whether `desktop` has a snapshot `index`.
pub open spec fn has_snapshot(store: PersistModel, desktop: i64, index: int) -> bool {
    store.context_history.contains_key(desktop) && 0 <= index
        < store.context_history[desktop].len()
}

/// The aggregate after `desktop` was given the title and todos of each
/// entry of `sessions` in turn, each followed by a rotation stamped as
/// the entry says.
pub open spec fn after_sessions(
    store: PersistModel,
    desktop: i64,
    sessions: Seq<ContextModel>,
) -> PersistModel
    decreases sessions.len(),
{
    if sessions.len() == 0 {
        store
    } else {
        let before = after_sessions(store, desktop, sessions.drop_last());
        let session = sessions.last();
        let filled = PersistModel {
            notes: before.notes.insert(desktop, session.todos),
            titles: if session.title.len() == 0 {
                before.titles.remove(desktop)
            } else {
                before.titles.insert(desktop, session.title)
            },
            ..before
        };
        rotated(filled, session.saved_at)
    }
}

/// A capped history is never longer than the cap, and capping what is
/// appended to a capped history is capping what is appended to the whole.
pub proof fn lemma_capped<T>(history: Seq<T>, entry: T)
    ensures
        capped(history).len() <= MAX_HISTORY_PER_DESKTOP,
        capped(history).len() == if history.len() <= MAX_HISTORY_PER_DESKTOP {
            history.len()
        } else {
            MAX_HISTORY_PER_DESKTOP as nat
        },
        capped(capped(history).push(entry)) == capped(history.push(entry)),
{
    assert(capped(capped(history).push(entry)) =~= capped(history.push(entry)));
}

/// After a rotation every history that received a snapshot holds no more
/// than the cap, its newest entry is that snapshot, and no desktop holds a
/// title or a todo.
pub proof fn lemma_rotation_caps(store: PersistModel, now: Seq<char>, desktop: i64)
    requires
        has_content(store, desktop),
    ensures
        rotated(store, now).context_history.contains_key(desktop),
        history_of(rotated(store, now), desktop).len() <= MAX_HISTORY_PER_DESKTOP,
        history_of(rotated(store, now), desktop).last() == snapshot_of(store, desktop, now),
        !has_content(rotated(store, now), desktop),
{
}

/// The history cap: after a run of sessions in which `desktop` always held
/// a title or a todo, its history is what it was with one snapshot per
/// session appended, cut down to the newest `MAX_HISTORY_PER_DESKTOP`. So
/// a desktop that starts without history has as many snapshots as it had
/// sessions, up to the cap, and they are the most recent ones, oldest
/// first.
pub proof fn lemma_history_cap(store: PersistModel, desktop: i64, sessions: Seq<ContextModel>)
    requires
        forall|k: int|
            0 <= k < sessions.len() ==> (#[trigger] sessions[k]).title.len() > 0
                || sessions[k].todos.len() > 0,
    ensures
        history_of(after_sessions(store, desktop, sessions), desktop) == if sessions.len() == 0 {
            history_of(store, desktop)
        } else {
            capped(history_of(store, desktop) + sessions)
        },
        sessions.len() > 0 ==> history_of(after_sessions(store, desktop, sessions), desktop).len()
            <= MAX_HISTORY_PER_DESKTOP,
        history_of(store, desktop).len() == 0 ==> history_of(
            after_sessions(store, desktop, sessions),
            desktop,
        ).len() == if sessions.len() <= MAX_HISTORY_PER_DESKTOP {
            sessions.len()
        } else {
            MAX_HISTORY_PER_DESKTOP as nat
        },
    decreases sessions.len(),
{
    if sessions.len() > 0 {
        let earlier = sessions.drop_last();
        let session = sessions.last();
        lemma_history_cap(store, desktop, earlier);
        let before = after_sessions(store, desktop, earlier);
        let filled = PersistModel {
            notes: before.notes.insert(desktop, session.todos),
            titles: if session.title.len() == 0 {
                before.titles.remove(desktop)
            } else {
                before.titles.insert(desktop, session.title)
            },
            ..before
        };
        assert(has_content(filled, desktop));
        assert(title_of(filled, desktop) =~= session.title);
        assert(todos_of(filled, desktop) == session.todos);
        assert(snapshot_of(filled, desktop, session.saved_at) == session);
        assert(history_of(filled, desktop) == history_of(before, desktop));
        let whole = history_of(store, desktop) + earlier;
        assert(whole.push(session) =~= history_of(store, desktop) + sessions);
        if earlier.len() > 0 {
            lemma_capped(whole, session);
        } else {
            assert(whole =~= history_of(store, desktop));
        }
        if history_of(store, desktop).len() == 0 {
            assert(history_of(store, desktop) + sessions =~= sessions);
        }
    }
}

/// Puts `desktop` away: where title or todos hold something, appends the
/// snapshot stamped `now` to its history and caps the history.
fn put_away(
    history: &mut HashMap<i64, Vec<SavedContext>>,
    desktop: i64,
    title: String,
    todos: Vec<TodoItem>,
    now: &String,
)
    ensures
        history_view(final(history)@) == if title@.len() > 0 || todos@.len() > 0 {
            history_view(old(history)@).insert(
                desktop,
                capped(
                    (if history_view(old(history)@).contains_key(desktop) {
                        history_view(old(history)@)[desktop]
                    } else {
                        Seq::empty()
                    }).push(
                        ContextModel { title: title@, todos: todos_view(todos@), saved_at: now@ },
                    ),
                ),
            )
        } else {
            history_view(old(history)@)
        },
{
    broadcast use group_hash_axioms;

    if title.as_str().is_empty() && todos.is_empty() {
        return ;
    }
    let ghost before = history_view(history@);
    let ghost entry = ContextModel { title: title@, todos: todos_view(todos@), saved_at: now@ };
    let mut snapshots = match history.remove(&desktop) {
        Some(snapshots) => snapshots,
        None => Vec::new(),
    };
    let ghost earlier = contexts_view(snapshots@);
    assert(earlier =~= if before.contains_key(desktop) {
        before[desktop]
    } else {
        Seq::empty()
    });
    snapshots.push(SavedContext { title, todos, saved_at: now.clone() });
    assert(contexts_view(snapshots@) =~= earlier.push(entry));
    if snapshots.len() > MAX_HISTORY_PER_DESKTOP {
        let excess = snapshots.len() - MAX_HISTORY_PER_DESKTOP;
        let kept = snapshots.split_off(excess);
        assert(contexts_view(kept@) =~= capped(earlier.push(entry)));
        snapshots = kept;
    }
    history.insert(desktop, snapshots);
    assert(history_view(history@) =~= before.insert(desktop, capped(earlier.push(entry))));
}

/// Ends the session with the timestamp `now`.
///
/// Every desktop that holds a title or a todo gets a snapshot of both in
/// its history, which keeps its newest `MAX_HISTORY_PER_DESKTOP` entries.
/// Then all titles and todo lists are cleared, those of desktops without a
/// snapshot too.
pub fn rotate_session(data: &mut PersistData, now: &String)
    ensures
        final(data)@ == rotated(old(data)@, now@),
{
    broadcast use group_hash_axioms;

    let ghost store = data@;
    let ghost notes = data.notes@;
    let ghost titles = data.titles@;
    let mut with_entries: HashSet<i64> = HashSet::new();
    insert_keys(&mut with_entries, &data.notes);
    insert_keys(&mut with_entries, &data.titles);
    let desktops = members_of(&with_entries);
    let mut i: usize = 0;
    proof {
        assert(desktops@.take(0).to_set() =~= Set::<i64>::empty());
        assert(data.notes@ =~= notes.remove_keys(Set::empty()));
        assert(data.titles@ =~= titles.remove_keys(Set::empty()));
        assert(history_view(data.context_history@) =~= history_after(store, now@, Set::empty()));
    }
    while i < desktops.len()
        invariant
            i <= desktops.len(),
            desktops@.no_duplicates(),
            store == old(data)@,
            notes == old(data).notes@,
            titles == old(data).titles@,
            data.settings == old(data).settings,
            data.version == old(data).version,
            data.completed == old(data).completed,
            data.notes@ == notes.remove_keys(desktops@.take(i as int).to_set()),
            data.titles@ == titles.remove_keys(desktops@.take(i as int).to_set()),
            history_view(data.context_history@) == history_after(
                store,
                now@,
                desktops@.take(i as int).to_set(),
            ),
        decreases desktops.len() - i,
    {
        let desktop = desktops[i];
        let ghost done = desktops@.take(i as int).to_set();
        proof {
            lemma_take_step_set(desktops@, i as int);
        }
        let todos = match data.notes.remove(&desktop) {
            Some(todos) => todos,
            None => Vec::new(),
        };
        let title = match data.titles.remove(&desktop) {
            Some(title) => title,
            None => String::new(),
        };
        assert(todos_view(todos@) =~= todos_of(store, desktop));
        assert(title@ =~= title_of(store, desktop));
        put_away(&mut data.context_history, desktop, title, todos, now);
        proof {
            assert(data.notes@ =~= notes.remove_keys(done.insert(desktop)));
            assert(data.titles@ =~= titles.remove_keys(done.insert(desktop)));
            assert(history_view(data.context_history@) =~= history_after(
                store,
                now@,
                done.insert(desktop),
            ));
        }
        i += 1;
    }
    data.notes.clear();
    data.titles.clear();
    proof {
        assert(desktops@.take(desktops.len() as int) =~= desktops@);
        let all = notes.dom().union(titles.dom());
        assert(desktops@.to_set() =~= all);
        assert(history_after(store, now@, all) =~= history_after(store, now@, Set::full()));
        assert(data@.notes =~= Map::empty());
        assert(data@.titles =~= Map::empty());
    }
}

/// Ends the session now: as `rotate_session`, stamped with the time of
/// the call.
pub fn start_new_session(data: &mut PersistData)
    ensures
        exists|now: Seq<char>| now.len() > 0 && final(data)@ == rotated(old(data)@, now),
{
    let now = crate::clock::now_rfc3339();
    rotate_session(data, &now);
}

/// A copy of the whole history.
pub fn get_context_history(data: &PersistData) -> (history: HashMap<i64, Vec<SavedContext>>)
    ensures
        history_view(history@) == data@.context_history,
{
    data.context_history.clone()
}

/// Brings the snapshot `index` of `desktop` back.
///
/// Returns `false`, and changes nothing, where the desktop has no such
/// snapshot: a miss, not an error.
pub fn restore_context(data: &mut PersistData, desktop: i64, index: usize) -> (found: bool)
    ensures
        found == has_snapshot(old(data)@, desktop, index as int),
        final(data)@ == if found {
            restored(old(data)@, desktop, index as int)
        } else {
            old(data)@
        },
{
    broadcast use group_hash_axioms;

    let saved = match data.context_history.get(&desktop) {
        Some(snapshots) => {
            if index < snapshots.len() {
                snapshots[index].clone()
            } else {
                return false;
            }
        },
        None => {
            return false;
        },
    };
    assert(saved@ == old(data)@.context_history[desktop][index as int]);
    save_todos(data, desktop, saved.todos);
    save_title(data, desktop, saved.title);
    true
}

} // verus!
