//! The spaces (virtual desktops) that the operating system reports, and
//! the canonical order in which they are numbered.
//!
//! The operating system answers with one entry per display. Each entry
//! names the space that is current on that display and lists the spaces the
//! display hosts. Any part of the answer may be missing. Nothing here is
//! cached: every function works on the answer it is handed.

use crate::seqs::lemma_filter_step;
use vstd::prelude::*;

verus! {

/// One space as the operating system describes it.
#[derive(Clone, Copy, Debug)]
pub struct RawSpace {
    /// The 64-bit identifier, where the entry carries one.
    pub id: Option<i64>,
    /// The type of the space, where the entry carries one: 0 is an ordinary
    /// desktop, anything else (typically 4) a full-screen application.
    pub kind: Option<i32>,
}

/// One display as the operating system describes it.
#[derive(Clone, Debug)]
pub struct ManagedDisplay {
    /// The space that is current on the display, where the entry names one.
    pub current: Option<RawSpace>,
    /// The spaces of the display in native order, where the entry lists
    /// them.
    pub spaces: Option<Vec<RawSpace>>,
}

/// An ordinary desktop in the canonical enumeration.
#[derive(Clone, Copy, Debug, PartialEq, Eq, Structural)]
pub struct Space {
    /// The identifier the operating system gave the space: its only stable
    /// key.
    pub space_id: i64,
    /// The display that hosts the space, counted from 0.
    pub display_index: usize,
    /// The place of the space among the ordinary desktops of its display,
    /// counted from 1.
    pub local_ordinal: u32,
}

/// Whether the entry describes an ordinary desktop. An entry without a
/// type does not.
pub open spec fn is_normal(space: RawSpace) -> bool {
    space.kind == Some(0i32)
}

/// The identifier of the entry, 0 where it carries none.
pub open spec fn id_or_zero(space: RawSpace) -> i64 {
    match space.id {
        Some(id) => id,
        None => 0,
    }
}

/// The type of the entry, 0 where it carries none.
pub open spec fn kind_or_zero(space: RawSpace) -> i32 {
    match space.kind {
        Some(kind) => kind,
        None => 0,
    }
}

/// The spaces that the display lists, none where the list is missing.
pub open spec fn listed(display: ManagedDisplay) -> Seq<RawSpace> {
    match display.spaces {
        Some(spaces) => spaces@,
        None => Seq::empty(),
    }
}

/// The ordinary desktops among `spaces`, in the order given.
pub open spec fn normal_among(spaces: Seq<RawSpace>) -> Seq<RawSpace> {
    spaces.filter(|space: RawSpace| is_normal(space))
}

/// The ordinary desktops `normal` of display `index`, numbered from 1.
pub open spec fn numbered(normal: Seq<RawSpace>, index: nat) -> Seq<Space> {
    Seq::new(
        normal.len(),
        |k: int|
            Space {
                space_id: id_or_zero(normal[k]),
                display_index: index as usize,
                local_ordinal: (k + 1) as u32,
            },
    )
}

/// The canonical enumeration: the ordinary desktops of display 0 in native
/// order, then those of display 1, and so on, each display numbering its
/// own from 1. The index of a space in this sequence is its position.
pub open spec fn enumerated(displays: Seq<ManagedDisplay>) -> Seq<Space>
    decreases displays.len(),
{
    if displays.len() == 0 {
        Seq::empty()
    } else {
        enumerated(displays.drop_last()) + numbered(
            normal_among(listed(displays.last())),
            (displays.len() - 1) as nat,
        )
    }
}

/// Whether every display hosts few enough ordinary desktops for their
/// ordinals to fit a `u32`.
pub open spec fn ordinals_fit(displays: Seq<ManagedDisplay>) -> bool {
    forall|d: int|
        0 <= d < displays.len() ==> normal_among(listed(#[trigger] displays[d])).len() <= u32::MAX
}

/// The number of spaces that the displays list in all, ordinary or not.
pub open spec fn listed_count(displays: Seq<ManagedDisplay>) -> nat
    decreases displays.len(),
{
    if displays.len() == 0 {
        0
    } else {
        listed_count(displays.drop_last()) + listed(displays.last()).len()
    }
}

/// The space that is current on display `target`, as identifier and type.
///
/// Where the display is not among those reported, or names no current
/// space, the answer is `(0, 0)`: space 0, an ordinary desktop. A missing
/// identifier or type reads as 0.
pub open spec fn active_space(displays: Seq<ManagedDisplay>, target: nat) -> (i64, i32) {
    if target >= displays.len() {
        (0i64, 0i32)
    } else {
        match displays[target as int].current {
            Some(space) => (id_or_zero(space), kind_or_zero(space)),
            None => (0i64, 0i32),
        }
    }
}

/// The identifiers of the spaces that are current on the first `count`
/// displays, by display index.
pub open spec fn active_ids(displays: Seq<ManagedDisplay>, count: nat) -> Seq<i64> {
    Seq::new(count, |d: int| active_space(displays, d as nat).0)
}

/// Whether `position` is the first place in `spaces` that holds `space_id`.
pub open spec fn is_first_position(spaces: Seq<Space>, space_id: i64, position: int) -> bool {
    &&& 0 <= position < spaces.len()
    &&& spaces[position].space_id == space_id
    &&& forall|j: int| 0 <= j < position ==> (#[trigger] spaces[j]).space_id != space_id
}

/// The first position of `space_id` in `spaces`, where it occurs at all.
pub open spec fn first_position(spaces: Seq<Space>, space_id: i64) -> Option<nat> {
    if exists|p: int| is_first_position(spaces, space_id, p) {
        Some((choose|p: int| is_first_position(spaces, space_id, p)) as nat)
    } else {
        None
    }
}

/// The position that a space is shown under: its first position in the
/// enumeration, and 0 where the enumeration does not hold it.
pub open spec fn position_of(spaces: Seq<Space>, space_id: i64) -> nat {
    match first_position(spaces, space_id) {
        Some(p) => p,
        None => 0,
    }
}

/// One more than the largest display index in `spaces`, 0 where there is
/// no space.
pub open spec fn displays_spanned(spaces: Seq<Space>) -> nat
    decreases spaces.len(),
{
    if spaces.len() == 0 {
        0
    } else {
        let before = displays_spanned(spaces.drop_last());
        if spaces.last().display_index >= before {
            (spaces.last().display_index + 1) as nat
        } else {
            before
        }
    }
}

/// The number of displays to report on: as many as the spaces span, and
/// one where there is no space at all.
pub open spec fn display_count_of(spaces: Seq<Space>) -> nat {
    if spaces.len() == 0 {
        1
    } else {
        displays_spanned(spaces)
    }
}

/// One raw space more either adds it to the ordinary desktops or changes
/// nothing.
proof fn lemma_normal_step(spaces: Seq<RawSpace>, i: int)
    requires
        0 <= i < spaces.len(),
    ensures
        normal_among(spaces.take(i + 1)) == if is_normal(spaces[i]) {
            normal_among(spaces.take(i)).push(spaces[i])
        } else {
            normal_among(spaces.take(i))
        },
        normal_among(spaces.take(i + 1)).len() <= normal_among(spaces).len(),
{
    lemma_filter_step(spaces, |space: RawSpace| is_normal(space), i);
    Seq::filter_distributes_over_add(
        spaces.take(i + 1),
        spaces.skip(i + 1),
        |space: RawSpace| is_normal(space),
    );
    assert(spaces.take(i + 1) + spaces.skip(i + 1) =~= spaces);
}

/// The first position of a space is found exactly where the space occurs.
pub proof fn lemma_first_position(spaces: Seq<Space>, space_id: i64)
    ensures
        match first_position(spaces, space_id) {
            Some(p) => is_first_position(spaces, space_id, p as int),
            None => forall|j: int|
                0 <= j < spaces.len() ==> (#[trigger] spaces[j]).space_id != space_id,
        },
        position_of(spaces, space_id) < spaces.len() || spaces.len() == 0 || position_of(
            spaces,
            space_id,
        ) == 0,
{
    if !exists|p: int| is_first_position(spaces, space_id, p) {
        assert forall|j: int| 0 <= j < spaces.len() implies (#[trigger] spaces[j]).space_id
            != space_id by {
            if spaces[j].space_id == space_id {
                lemma_first_exists(spaces, space_id, j);
            }
        }
    }
}

/// Where a space occurs at some place, it has a first position.
proof fn lemma_first_exists(spaces: Seq<Space>, space_id: i64, at: int)
    requires
        0 <= at < spaces.len(),
        spaces[at].space_id == space_id,
    ensures
        exists|p: int| is_first_position(spaces, space_id, p),
    decreases at,
{
    if exists|j: int| 0 <= j < at && (#[trigger] spaces[j]).space_id == space_id {
        let j = choose|j: int| 0 <= j < at && (#[trigger] spaces[j]).space_id == space_id;
        lemma_first_exists(spaces, space_id, j);
    } else {
        assert(is_first_position(spaces, space_id, at));
    }
}

/// A first position is the first position.
pub proof fn lemma_first_position_is(spaces: Seq<Space>, space_id: i64, p: int)
    requires
        is_first_position(spaces, space_id, p),
    ensures
        first_position(spaces, space_id) == Some(p as nat),
{
    let q = choose|q: int| is_first_position(spaces, space_id, q);
    assert(is_first_position(spaces, space_id, q));
    if q < p {
        assert(spaces[q].space_id != space_id);
    } else if p < q {
        assert(spaces[p].space_id != space_id);
    }
}

/// Every display index in `spaces` is below the number of displays spanned.
pub proof fn lemma_displays_spanned(spaces: Seq<Space>, k: int)
    requires
        0 <= k < spaces.len(),
    ensures
        spaces[k].display_index < displays_spanned(spaces),
    decreases spaces.len(),
{
    if k < spaces.len() - 1 {
        lemma_displays_spanned(spaces.drop_last(), k);
    }
}

/// The enumeration goes display by display: indices never decrease along
/// it, and each is the index of a display that was reported.
pub proof fn lemma_enumerated_by_display(displays: Seq<ManagedDisplay>)
    requires
        displays.len() <= usize::MAX,
    ensures
        forall|k: int|
            0 <= k < enumerated(displays).len() ==> (#[trigger] enumerated(
                displays,
            )[k]).display_index < displays.len(),
        forall|i: int, j: int|
            0 <= i <= j < enumerated(displays).len() ==> (#[trigger] enumerated(
                displays,
            )[i]).display_index <= (#[trigger] enumerated(displays)[j]).display_index,
    decreases displays.len(),
{
    if displays.len() > 0 {
        lemma_enumerated_by_display(displays.drop_last());
        let all = enumerated(displays);
        let before = enumerated(displays.drop_last());
        assert forall|k: int| 0 <= k < all.len() implies if k < before.len() {
            all[k] == before[k]
        } else {
            (#[trigger] all[k]).display_index == displays.len() - 1
        } by {}
    }
}

/// The enumeration holds no more spaces than the displays list in all,
/// and no display hosts more ordinary desktops than that.
pub proof fn lemma_listed_count_bounds(displays: Seq<ManagedDisplay>)
    ensures
        enumerated(displays).len() <= listed_count(displays),
        forall|d: int|
            0 <= d < displays.len() ==> normal_among(listed(#[trigger] displays[d])).len()
                <= listed_count(displays),
    decreases displays.len(),
{
    if displays.len() > 0 {
        let rest = displays.drop_last();
        lemma_listed_count_bounds(rest);
        listed(displays.last()).lemma_filter_len(|space: RawSpace| is_normal(space));
        assert forall|d: int| 0 <= d < displays.len() implies normal_among(
            listed(#[trigger] displays[d]),
        ).len() <= listed_count(displays) by {
            if d < rest.len() {
                assert(rest[d] == displays[d]);
            }
        }
    }
}

/// Whether the displays list few enough spaces for every position and
/// every ordinal to fit 32 bits. Where they do, the displays can be
/// enumerated and their desktops shown.
pub fn positions_fit(displays: &Vec<ManagedDisplay>) -> (fit: bool)
    ensures
        fit == (listed_count(displays@) <= u32::MAX),
        fit ==> ordinals_fit(displays@) && enumerated(displays@).len() <= u32::MAX,
{
    let mut total: u32 = 0;
    let mut d: usize = 0;
    assert(displays@.take(0) =~= Seq::<ManagedDisplay>::empty());
    while d < displays.len()
        invariant
            d <= displays.len(),
            total == listed_count(displays@.take(d as int)),
        decreases displays.len() - d,
    {
        let ghost next = displays@.take(d + 1);
        assert(next.drop_last() =~= displays@.take(d as int));
        assert(next.last() == displays@[d as int]);
        let here: usize = match &displays[d].spaces {
            Some(list) => list.len(),
            None => 0,
        };
        if here as u64 > (u32::MAX - total) as u64 {
            proof {
                lemma_listed_count_grows(displays@, d + 1);
            }
            return false;
        }
        total = total + here as u32;
        d += 1;
    }
    proof {
        assert(displays@.take(displays.len() as int) =~= displays@);
        lemma_listed_count_bounds(displays@);
    }
    true
}

/// The spaces that a prefix of the displays lists are no more than all the
/// displays list.
proof fn lemma_listed_count_grows(displays: Seq<ManagedDisplay>, n: int)
    requires
        0 <= n <= displays.len(),
    ensures
        listed_count(displays.take(n)) <= listed_count(displays),
    decreases displays.len(),
{
    if n == displays.len() {
        assert(displays.take(n) =~= displays);
    } else {
        assert(displays.drop_last().take(n) =~= displays.take(n));
        lemma_listed_count_grows(displays.drop_last(), n);
    }
}

/// The canonical enumeration of the ordinary desktops that the operating
/// system reports. Every space of it is hosted by one of the displays.
pub fn enumerate_spaces(displays: &Vec<ManagedDisplay>) -> (spaces: Vec<Space>)
    requires
        ordinals_fit(displays@),
    ensures
        spaces@ == enumerated(displays@),
        forall|k: int| 0 <= k < spaces.len() ==> (#[trigger] spaces[k]).display_index < displays.len(),
{
    proof {
        assert(displays.len() <= usize::MAX);
        lemma_enumerated_by_display(displays@);
    }
    let mut result: Vec<Space> = Vec::new();
    let mut d: usize = 0;
    assert(displays@.take(0) =~= Seq::<ManagedDisplay>::empty());
    while d < displays.len()
        invariant
            d <= displays.len(),
            ordinals_fit(displays@),
            result@ == enumerated(displays@.take(d as int)),
        decreases displays.len() - d,
    {
        let ghost base = result@;
        let ghost next = displays@.take(d + 1);
        assert(next.drop_last() =~= displays@.take(d as int));
        assert(next.last() == displays@[d as int]);
        match &displays[d].spaces {
            Some(list) => {
                let mut count: u32 = 0;
                let mut i: usize = 0;
                proof {
                    crate::seqs::lemma_filter_empty(|space: RawSpace| is_normal(space));
                    assert(list@.take(0) =~= Seq::<RawSpace>::empty());
                    assert(base + numbered(normal_among(list@.take(0)), d as nat) =~= base);
                }
                while i < list.len()
                    invariant
                        i <= list.len(),
                        normal_among(list@).len() <= u32::MAX,
                        count == normal_among(list@.take(i as int)).len(),
                        result@ == base + numbered(normal_among(list@.take(i as int)), d as nat),
                    decreases list.len() - i,
                {
                    let space = &list[i];
                    proof {
                        lemma_normal_step(list@, i as int);
                    }
                    let normal = match space.kind {
                        Some(kind) => kind == 0,
                        None => false,
                    };
                    if normal {
                        let space_id = match space.id {
                            Some(id) => id,
                            None => 0,
                        };
                        let ghost before = normal_among(list@.take(i as int));
                        result.push(
                            Space { space_id, display_index: d, local_ordinal: count + 1 },
                        );
                        count += 1;
                        assert(result@ =~= base + numbered(before.push(*space), d as nat));
                    }
                    i += 1;
                }
                assert(list@.take(list.len() as int) =~= list@);
            },
            None => {
                proof {
                    crate::seqs::lemma_filter_empty(|space: RawSpace| is_normal(space));
                    assert(base + numbered(normal_among(Seq::empty()), d as nat) =~= base);
                }
            },
        }
        d += 1;
    }
    assert(displays@.take(displays.len() as int) =~= displays@);
    result
}

/// The space that is current on display `target_display`, as identifier
/// and type; `(0, 0)` where that display is not among those reported.
pub fn space_info_for_display(displays: &Vec<ManagedDisplay>, target_display: usize) -> (info: (
    i64,
    i32,
))
    ensures
        info == active_space(displays@, target_display as nat),
{
    if target_display >= displays.len() {
        return (0, 0);
    }
    match &displays[target_display].current {
        Some(space) => {
            let id = match space.id {
                Some(id) => id,
                None => 0,
            };
            let kind = match space.kind {
                Some(kind) => kind,
                None => 0,
            };
            (id, kind)
        },
        None => (0, 0),
    }
}

/// The identifiers of the spaces that are current on the first `count`
/// displays, by display index; 0 for a display that is not reported.
pub fn active_spaces(displays: &Vec<ManagedDisplay>, count: usize) -> (actives: Vec<i64>)
    ensures
        actives@ == active_ids(displays@, count as nat),
{
    let mut actives: Vec<i64> = Vec::new();
    let mut display: usize = 0;
    while display < count
        invariant
            display <= count,
            actives@ == active_ids(displays@, display as nat),
        decreases count - display,
    {
        let (space_id, _) = space_info_for_display(displays, display);
        actives.push(space_id);
        assert(actives@ =~= active_ids(displays@, (display + 1) as nat));
        display += 1;
    }
    actives
}

/// The first position of `space_id` in the enumeration `spaces`.
pub fn find_position(spaces: &Vec<Space>, space_id: i64) -> (found: Option<usize>)
    ensures
        match found {
            Some(p) => first_position(spaces@, space_id) == Some(p as nat),
            None => first_position(spaces@, space_id) is None,
        },
{
    let mut i: usize = 0;
    while i < spaces.len()
        invariant
            i <= spaces.len(),
            forall|j: int| 0 <= j < i ==> (#[trigger] spaces@[j]).space_id != space_id,
        decreases spaces.len() - i,
    {
        if spaces[i].space_id == space_id {
            proof {
                lemma_first_position_is(spaces@, space_id, i as int);
            }
            return Some(i);
        }
        i += 1;
    }
    proof {
        if exists|p: int| is_first_position(spaces@, space_id, p) {
            let p = choose|p: int| is_first_position(spaces@, space_id, p);
            assert(spaces@[p].space_id == space_id);
        }
    }
    None
}

/// The number of displays to report on for the enumeration `spaces`.
pub fn display_count(spaces: &Vec<Space>) -> (count: usize)
    requires
        forall|k: int| 0 <= k < spaces.len() ==> (#[trigger] spaces[k]).display_index < usize::MAX,
    ensures
        count == display_count_of(spaces@),
        count >= 1,
        forall|k: int| 0 <= k < spaces.len() ==> (#[trigger] spaces[k]).display_index < count,
{
    proof {
        assert forall|k: int| 0 <= k < spaces.len() implies (#[trigger] spaces[k]).display_index
            < displays_spanned(spaces@) by {
            lemma_displays_spanned(spaces@, k);
        }
    }
    if spaces.len() == 0 {
        return 1;
    }
    let mut spanned: usize = 0;
    let mut i: usize = 0;
    assert(spaces@.take(0) =~= Seq::<Space>::empty());
    while i < spaces.len()
        invariant
            i <= spaces.len(),
            forall|k: int|
                0 <= k < spaces.len() ==> (#[trigger] spaces[k]).display_index < usize::MAX,
            spanned == displays_spanned(spaces@.take(i as int)),
        decreases spaces.len() - i,
    {
        assert(spaces@.take(i + 1).drop_last() =~= spaces@.take(i as int));
        if spaces[i].display_index >= spanned {
            spanned = spaces[i].display_index + 1;
        }
        i += 1;
    }
    assert(spaces@.take(spaces.len() as int) =~= spaces@);
    spanned
}

} // verus!
