//! The change of layout from version 0 to version 1.
//!
//! Version 0 keyed every record by the position of its desktop in the
//! canonical enumeration. Positions shift whenever a desktop is added or
//! removed, so version 1 keys by space identifier. The migration looks each
//! old key up in the enumeration of the moment. A key that names no
//! position of that enumeration is dropped: nothing is guessed.

use crate::spaces::Space;
use crate::store::{PersistData, PersistModel, SettingsModel};
use std::collections::HashMap;
use vstd::prelude::*;
use vstd::std_specs::hash::*;

verus! {

/// The identifiers of an enumeration, by position.
pub open spec fn ids_of(spaces: Seq<Space>) -> Seq<i64> {
    spaces.map_values(|space: Space| space.space_id)
}

/// Whether `old` holds a record under the position `position`.
pub open spec fn has_legacy(old: Set<i64>, position: int) -> bool {
    0 <= position <= i64::MAX && old.contains(position as i64)
}

/// The records of `old`, each moved from its position to the identifier
/// that `ids` holds at that position.
///
/// Where one identifier stands at several positions, the record of the
/// last of them stays.
pub open spec fn rekeyed<V>(old: Map<i64, V>, ids: Seq<i64>) -> Map<i64, V>
    decreases ids.len(),
{
    if ids.len() == 0 {
        Map::empty()
    } else {
        let before = rekeyed(old, ids.drop_last());
        let position = ids.len() - 1;
        if has_legacy(old.dom(), position) {
            before.insert(ids.last(), old[position as i64])
        } else {
            before
        }
    }
}

/// The aggregate after migration with the identifiers `ids`: untouched
/// where its layout is version 1 or later; else notes, titles and custom
/// colors moved to their identifiers and the layout marked version 1.
pub open spec fn migrated(store: PersistModel, ids: Seq<i64>) -> PersistModel {
    if store.version >= 1 {
        store
    } else {
        PersistModel {
            notes: rekeyed(store.notes, ids),
            titles: rekeyed(store.titles, ids),
            settings: SettingsModel {
                custom_colors: rekeyed(store.settings.custom_colors, ids),
                ..store.settings
            },
            version: 1,
            ..store
        }
    }
}

/// Every key of the moved records is the identifier at a position that
/// held a record.
pub proof fn lemma_rekeyed_keys<V>(old: Map<i64, V>, ids: Seq<i64>, key: i64)
    ensures
        rekeyed(old, ids).contains_key(key) <==> exists|p: int|
            0 <= p < ids.len() && #[trigger] ids[p] == key && has_legacy(old.dom(), p),
    decreases ids.len(),
{
    if ids.len() > 0 {
        let rest = ids.drop_last();
        lemma_rekeyed_keys(old, rest, key);
        let last = ids.len() - 1;
        if rekeyed(old, ids).contains_key(key) {
            if rekeyed(old, rest).contains_key(key) {
                let p = choose|p: int|
                    0 <= p < rest.len() && #[trigger] rest[p] == key && has_legacy(old.dom(), p);
                assert(ids[p] == key);
            } else {
                assert(ids[last] == key);
            }
        }
        if exists|p: int|
            0 <= p < ids.len() && #[trigger] ids[p] == key && has_legacy(old.dom(), p) {
            let p = choose|p: int|
                0 <= p < ids.len() && #[trigger] ids[p] == key && has_legacy(old.dom(), p);
            if p < last {
                assert(rest[p] == key);
            }
        }
    }
}

/// Where no identifier stands at two positions, the record of each
/// position is found under the identifier at that position.
pub proof fn lemma_rekeyed_distinct<V>(old: Map<i64, V>, ids: Seq<i64>, position: int)
    requires
        ids.no_duplicates(),
        0 <= position < ids.len(),
        has_legacy(old.dom(), position),
    ensures
        rekeyed(old, ids).contains_key(ids[position]),
        rekeyed(old, ids)[ids[position]] == old[position as i64],
    decreases ids.len(),
{
    let rest = ids.drop_last();
    let last = ids.len() - 1;
    if position < last {
        assert(rest[position] == ids[position]);
        lemma_rekeyed_distinct(old, rest, position);
        assert(ids[last] != ids[position]);
    }
}

/// Moving records and then reading each through `f` is reading each
/// through `f` and then moving them.
pub proof fn lemma_rekeyed_map_values<V, W>(old: Map<i64, V>, ids: Seq<i64>, f: spec_fn(V) -> W)
    ensures
        rekeyed(old, ids).map_values(f) == rekeyed(old.map_values(f), ids),
    decreases ids.len(),
{
    if ids.len() > 0 {
        lemma_rekeyed_map_values(old, ids.drop_last(), f);
        assert(old.map_values(f).dom() =~= old.dom());
    }
    assert(rekeyed(old, ids).map_values(f) =~= rekeyed(old.map_values(f), ids));
}

/// Migration settles: migrating a migrated aggregate again, with whatever
/// enumeration, changes nothing, and an aggregate of layout version 1 or
/// later is left as it is.
pub proof fn lemma_migration_idempotent(store: PersistModel, first: Seq<i64>, second: Seq<i64>)
    ensures
        migrated(migrated(store, first), second) == migrated(store, first),
        store.version >= 1 ==> migrated(store, first) == store,
        migrated(store, first).version >= store.version,
        migrated(store, first).version >= 1,
{
}

/// After migration every key of notes, titles and custom colors is an
/// identifier of the enumeration that was used.
pub proof fn lemma_migrated_keys_are_live(store: PersistModel, ids: Seq<i64>, key: i64)
    requires
        store.version < 1,
    ensures
        migrated(store, ids).notes.contains_key(key) ==> ids.contains(key),
        migrated(store, ids).titles.contains_key(key) ==> ids.contains(key),
        migrated(store, ids).settings.custom_colors.contains_key(key) ==> ids.contains(key),
{
    lemma_rekeyed_keys(store.notes, ids, key);
    lemma_rekeyed_keys(store.titles, ids, key);
    lemma_rekeyed_keys(store.settings.custom_colors, ids, key);
}

/// Moves the records of `legacy` from positions to the identifiers of
/// `spaces`, leaving `legacy` with the records that name no position.
fn rekey<V>(legacy: &mut HashMap<i64, V>, spaces: &Vec<Space>) -> (moved: HashMap<i64, V>)
    ensures
        moved@ == rekeyed(old(legacy)@, ids_of(spaces@)),
{
    broadcast use group_hash_axioms;

    let ghost before = legacy@;
    let ghost ids = ids_of(spaces@);
    let mut moved: HashMap<i64, V> = HashMap::new();
    let mut position: usize = 0;
    assert(ids.take(0) =~= Seq::<i64>::empty());
    while position < spaces.len()
        invariant
            position <= spaces.len(),
            ids == ids_of(spaces@),
            moved@ == rekeyed(before, ids.take(position as int)),
            forall|p: int|
                position <= p <= i64::MAX ==> (#[trigger] legacy@.contains_key(p as i64)
                    <==> before.contains_key(p as i64)),
            forall|p: int|
                position <= p <= i64::MAX && before.contains_key(p as i64)
                    ==> #[trigger] legacy@[p as i64] == before[p as i64],
        decreases spaces.len() - position,
    {
        let ghost next = ids.take(position + 1);
        assert(next.drop_last() =~= ids.take(position as int));
        assert(next.last() == spaces@[position as int].space_id);
        if position as u64 <= i64::MAX as u64 {
            let key = position as i64;
            assert(legacy@.contains_key(position as int as i64) <==> before.contains_key(key));
            assert(before.contains_key(key) ==> legacy@[position as int as i64] == before[key]);
            match legacy.remove(&key) {
                Some(value) => {
                    moved.insert(spaces[position].space_id, value);
                },
                None => {},
            }
        }
        position += 1;
    }
    assert(ids.take(spaces.len() as int) =~= ids);
    moved
}

/// Whether an aggregate of layout version `version` is to be migrated, and
/// written out, at startup.
pub fn needs_migration(version: u32) -> (needed: bool)
    ensures
        needed == (version < 1),
{
    version < 1
}

/// Migrates `data` from layout version 0 to version 1 with the enumeration
/// `spaces` of the moment. An aggregate of version 1 or later is left as
/// it is.
pub fn migrate_v0_to_v1(data: &mut PersistData, spaces: &Vec<Space>)
    ensures
        final(data)@ == migrated(old(data)@, ids_of(spaces@)),
{
    if data.version >= 1 {
        return ;
    }
    let ghost ids = ids_of(spaces@);
    let ghost before = *data;
    let notes = rekey(&mut data.notes, spaces);
    let titles = rekey(&mut data.titles, spaces);
    let colors = rekey(&mut data.settings.custom_colors, spaces);
    data.notes = notes;
    data.titles = titles;
    data.settings.custom_colors = colors;
    data.version = 1;
    proof {
        lemma_rekeyed_map_values(
            before.notes@,
            ids,
            |todos: Vec<crate::store::TodoItem>| crate::store::todos_view(todos@),
        );
        lemma_rekeyed_map_values(before.titles@, ids, |title: String| title@);
        lemma_rekeyed_map_values(before.settings.custom_colors@, ids, |title: String| title@);
    }
}

} // verus!
