//! What is shown of a desktop: its position, its name, its color, and
//! the lists that the presentation layer asks for.
//!
//! The position of a space is its index in the canonical enumeration. Name
//! and default color follow from the position; a custom color stored for
//! the space overrides the default.

use crate::spaces::{
    active_space, display_count, display_count_of, enumerate_spaces, enumerated, find_position,
    lemma_first_position, ordinals_fit,
    position_of, space_info_for_display, ManagedDisplay, Space,
};
use crate::ordered::{ascending_keys, put_entry, take_entry};
use crate::seqs::lemma_take_step_set;
use crate::store::{title_of, todos_of, todos_view, PersistData, PersistModel, TodoModel};
use crate::text::{decimal, push_decimal};
use std::collections::BTreeMap;
use vstd::prelude::*;
use vstd::std_specs::hash::*;
use vstd::string::*;

verus! {

/// The default colors, muted pastels: yellow, coral, blue, green, purple,
/// orange, teal, pink.
pub open spec fn palette() -> Seq<Seq<char>> {
    seq![
        "#F5E6A3"@,
        "#F2B8A0"@,
        "#A8CCE0"@,
        "#A8D8B0"@,
        "#C8A8D8"@,
        "#F0C8A0"@,
        "#A0D8D0"@,
        "#E0B8C8"@,
    ]
}

/// The default color of the desktop at `position`: the palette, taken
/// round and round.
pub open spec fn default_color_of(position: nat) -> Seq<char> {
    palette()[(position % palette().len()) as int]
}

/// The color of a space at `position`: the custom color stored for it, and
/// the default of the position where none is stored.
pub open spec fn color_for(colors: Map<i64, Seq<char>>, space_id: i64, position: nat) -> Seq<char> {
    if colors.contains_key(space_id) {
        colors[space_id]
    } else {
        default_color_of(position)
    }
}

/// The name of the desktop at `position`: `Desktop` and the position
/// counted from 1.
pub open spec fn name_of(position: nat) -> Seq<char> {
    "Desktop "@ + decimal(position + 1)
}

/// The number of todos in `todos` that are not done.
pub open spec fn open_count(todos: Seq<TodoModel>) -> nat {
    todos.filter(|todo: TodoModel| !todo.done).len()
}

/// The desktop that is current on a display.
#[derive(Debug, PartialEq, Eq)]
pub struct DesktopInfo {
    pub space_id: i64,
    pub position: u32,
    pub name: String,
    pub color: String,
    pub is_fullscreen: bool,
}

/// What a `DesktopInfo` stands for.
pub struct DesktopInfoModel {
    pub space_id: i64,
    pub position: u32,
    pub name: Seq<char>,
    pub color: Seq<char>,
    pub is_fullscreen: bool,
}

impl View for DesktopInfo {
    type V = DesktopInfoModel;

    open spec fn view(&self) -> DesktopInfoModel {
        DesktopInfoModel {
            space_id: self.space_id,
            position: self.position,
            name: self.name@,
            color: self.color@,
            is_fullscreen: self.is_fullscreen,
        }
    }
}

/// One desktop in the list of all desktops.
#[derive(Debug, PartialEq, Eq)]
pub struct DesktopSummary {
    pub space_id: i64,
    pub position: u32,
    pub name: String,
    pub title: String,
    pub color: String,
    /// The number of todos that are not done.
    pub todo_count: usize,
}

/// What a `DesktopSummary` stands for.
pub struct SummaryModel {
    pub space_id: i64,
    pub position: u32,
    pub name: Seq<char>,
    pub title: Seq<char>,
    pub color: Seq<char>,
    pub todo_count: nat,
}

impl View for DesktopSummary {
    type V = SummaryModel;

    open spec fn view(&self) -> SummaryModel {
        SummaryModel {
            space_id: self.space_id,
            position: self.position,
            name: self.name@,
            title: self.title@,
            color: self.color@,
            todo_count: self.todo_count as nat,
        }
    }
}

/// The desktops of one display.
#[derive(Debug, PartialEq, Eq)]
pub struct DisplayGroup {
    pub display_index: usize,
    pub desktops: Vec<DesktopSummary>,
}

/// What a `DisplayGroup` stands for.
pub struct GroupModel {
    pub display_index: usize,
    pub desktops: Seq<SummaryModel>,
}

impl View for DisplayGroup {
    type V = GroupModel;

    open spec fn view(&self) -> GroupModel {
        GroupModel {
            display_index: self.display_index,
            desktops: summaries_view(self.desktops@),
        }
    }
}

/// One space in the list of all spaces.
#[derive(Debug, PartialEq, Eq)]
pub struct SpaceInfo {
    pub space_id: i64,
    pub position: u32,
    pub name: String,
    pub title: String,
    pub color: String,
}

/// What a `SpaceInfo` stands for.
pub struct SpaceInfoModel {
    pub space_id: i64,
    pub position: u32,
    pub name: Seq<char>,
    pub title: Seq<char>,
    pub color: Seq<char>,
}

impl View for SpaceInfo {
    type V = SpaceInfoModel;

    open spec fn view(&self) -> SpaceInfoModel {
        SpaceInfoModel {
            space_id: self.space_id,
            position: self.position,
            name: self.name@,
            title: self.title@,
            color: self.color@,
        }
    }
}

/// The views of a list of desktop infos.
pub open spec fn infos_view(infos: Seq<DesktopInfo>) -> Seq<DesktopInfoModel> {
    infos.map_values(|info: DesktopInfo| info@)
}

/// The views of a list of summaries.
pub open spec fn summaries_view(summaries: Seq<DesktopSummary>) -> Seq<SummaryModel> {
    summaries.map_values(|summary: DesktopSummary| summary@)
}

/// The views of a list of groups.
pub open spec fn groups_view(groups: Seq<DisplayGroup>) -> Seq<GroupModel> {
    groups.map_values(|group: DisplayGroup| group@)
}

/// The views of a list of space infos.
pub open spec fn space_infos_view(infos: Seq<SpaceInfo>) -> Seq<SpaceInfoModel> {
    infos.map_values(|info: SpaceInfo| info@)
}

/// What is shown of the space `space_id` of type `kind`: its position in
/// `spaces` (0 where `spaces` does not hold it), the name and color that
/// go with it, and whether it is a full-screen application.
pub open spec fn info_of(
    store: PersistModel,
    spaces: Seq<Space>,
    space_id: i64,
    kind: i32,
) -> DesktopInfoModel {
    let shown = position_of(spaces, space_id) as u32;
    DesktopInfoModel {
        space_id,
        position: shown,
        name: name_of(shown as nat),
        color: color_for(store.settings.custom_colors, space_id, shown as nat),
        is_fullscreen: kind != 0,
    }
}

/// What is shown of the space that is current on display `display`.
pub open spec fn current_info(
    store: PersistModel,
    displays: Seq<ManagedDisplay>,
    display: nat,
) -> DesktopInfoModel {
    let active = active_space(displays, display);
    info_of(store, enumerated(displays), active.0, active.1)
}

/// The summary of the space at `position` of `spaces`.
pub open spec fn summary_of(store: PersistModel, spaces: Seq<Space>, position: int) -> SummaryModel {
    let space_id = spaces[position].space_id;
    SummaryModel {
        space_id,
        position: position as u32,
        name: name_of(position as nat),
        title: title_of(store, space_id),
        color: color_for(store.settings.custom_colors, space_id, position as nat),
        todo_count: open_count(todos_of(store, space_id)),
    }
}

/// The space info of the space at `position` of `spaces`.
pub open spec fn space_info_of(
    store: PersistModel,
    spaces: Seq<Space>,
    position: int,
) -> SpaceInfoModel {
    let space_id = spaces[position].space_id;
    SpaceInfoModel {
        space_id,
        position: position as u32,
        name: name_of(position as nat),
        title: title_of(store, space_id),
        color: color_for(store.settings.custom_colors, space_id, position as nat),
    }
}

/// The positions below `n` of `spaces` that display `display` hosts,
/// ascending.
pub open spec fn positions_before(spaces: Seq<Space>, n: nat, display: usize) -> Seq<int> {
    Seq::new(n, |p: int| p).filter(|p: int| spaces[p].display_index == display)
}

/// The positions of `spaces` that display `display` hosts, ascending.
pub open spec fn positions_on(spaces: Seq<Space>, display: usize) -> Seq<int> {
    positions_before(spaces, spaces.len(), display)
}

/// The summaries of the spaces at positions below `n` that display
/// `display` hosts, by ascending position.
pub open spec fn desktops_before(
    store: PersistModel,
    spaces: Seq<Space>,
    n: nat,
    display: usize,
) -> Seq<SummaryModel> {
    positions_before(spaces, n, display).map_values(|p: int| summary_of(store, spaces, p))
}

/// The summaries that `groups` holds for display `display`, none where it
/// holds no entry.
pub open spec fn held(groups: Map<usize, Vec<DesktopSummary>>, display: usize) -> Seq<
    SummaryModel,
> {
    if groups.contains_key(display) {
        summaries_view(groups[display]@)
    } else {
        Seq::empty()
    }
}

/// The group of display `display`: the summaries of the spaces it hosts,
/// by ascending position.
pub open spec fn group_of(store: PersistModel, spaces: Seq<Space>, display: usize) -> GroupModel {
    GroupModel {
        display_index: display,
        desktops: positions_on(spaces, display).map_values(
            |p: int| summary_of(store, spaces, p),
        ),
    }
}

/// Whether `display` hosts one of the spaces at positions below `n`.
pub open spec fn hosts_before(spaces: Seq<Space>, n: int, display: usize) -> bool {
    exists|q: int| 0 <= q < n && (#[trigger] spaces[q]).display_index == display
}

/// Whether `displays` holds exactly the display indices that occur in
/// `spaces`, each once, ascending.
pub open spec fn are_displays_of(displays: Seq<usize>, spaces: Seq<Space>) -> bool {
    &&& forall|g: int, h: int| 0 <= g < h < displays.len() ==> displays[g] < displays[h]
    &&& forall|g: int|
        0 <= g < displays.len() ==> #[trigger] hosts_before(
            spaces,
            spaces.len() as int,
            displays[g],
        )
    &&& forall|p: int|
        0 <= p < spaces.len() ==> displays.contains((#[trigger] spaces[p]).display_index)
}

/// Whether `groups` is the grouping of `spaces` by display: one group for
/// each display that hosts a space, by ascending display index, each
/// holding the summaries of its spaces by ascending position.
pub open spec fn is_grouping(groups: Seq<GroupModel>, store: PersistModel, spaces: Seq<Space>) -> bool {
    &&& are_displays_of(groups.map_values(|group: GroupModel| group.display_index), spaces)
    &&& forall|g: int|
        0 <= g < groups.len() ==> #[trigger] groups[g] == group_of(
            store,
            spaces,
            groups[g].display_index,
        )
}

/// Default colors are stable: the default color of a position is the
/// palette entry at the position modulo the length of the palette, which
/// holds eight colors, whatever is stored; and a color stored for a space is
/// the only thing that overrides it.
pub proof fn lemma_default_color_stable(
    colors: Map<i64, Seq<char>>,
    space_id: i64,
    position: nat,
)
    ensures
        palette().len() == 8,
        default_color_of(position) == palette()[(position % 8) as int],
        default_color_of(position + palette().len()) == default_color_of(position),
        color_for(colors, space_id, position) != default_color_of(position)
            ==> colors.contains_key(space_id),
        colors.contains_key(space_id) ==> color_for(colors, space_id, position)
            == colors[space_id],
{
}

/// The color shown for the space that is current on a display is the
/// custom color stored for that space, and the default color of the
/// position shown where none is stored. What is stored for any other space
/// changes nothing: two stores that agree on the color of the current space
/// show the same color.
pub proof fn lemma_shown_color(
    store: PersistModel,
    other: PersistModel,
    displays: Seq<ManagedDisplay>,
    display: nat,
)
    ensures
        ({
            let info = current_info(store, displays, display);
            let colors = store.settings.custom_colors;
            &&& info.space_id == active_space(displays, display).0
            &&& info.color == if colors.contains_key(info.space_id) {
                colors[info.space_id]
            } else {
                default_color_of(info.position as nat)
            }
        }),
        ({
            let space_id = active_space(displays, display).0;
            let colors = store.settings.custom_colors;
            let others = other.settings.custom_colors;
            colors.contains_key(space_id) == others.contains_key(space_id) && (
            colors.contains_key(space_id) ==> colors[space_id] == others[space_id])
                ==> current_info(other, displays, display).color == current_info(
                store,
                displays,
                display,
            ).color
        }),
{
}

/// There is one list of display indices for an enumeration: two lists that
/// both hold exactly its indices, each once, ascending, are one list.
pub proof fn lemma_displays_unique(a: Seq<usize>, b: Seq<usize>, spaces: Seq<Space>)
    requires
        are_displays_of(a, spaces),
        are_displays_of(b, spaces),
    ensures
        a == b,
    decreases a.len(),
{
    lemma_ascending_prefix(a, b, spaces, a.len() as int);
    lemma_ascending_prefix(b, a, spaces, b.len() as int);
    assert(a =~= b);
}

/// There is one grouping of an enumeration: what `is_grouping` asks of a
/// result, only one result meets.
pub proof fn lemma_grouping_unique(
    a: Seq<GroupModel>,
    b: Seq<GroupModel>,
    store: PersistModel,
    spaces: Seq<Space>,
)
    requires
        is_grouping(a, store, spaces),
        is_grouping(b, store, spaces),
    ensures
        a == b,
{
    let displays_a = a.map_values(|group: GroupModel| group.display_index);
    let displays_b = b.map_values(|group: GroupModel| group.display_index);
    lemma_displays_unique(displays_a, displays_b, spaces);
    assert(a.len() == displays_a.len());
    assert(b.len() == displays_b.len());
    assert forall|g: int| 0 <= g < a.len() implies a[g] == b[g] by {
        assert(displays_a[g] == a[g].display_index);
        assert(displays_b[g] == b[g].display_index);
    }
    assert(a =~= b);
}

/// Of two ascending lists with the same members, the first `n` entries of
/// one are the first `n` entries of the other.
proof fn lemma_ascending_prefix(a: Seq<usize>, b: Seq<usize>, spaces: Seq<Space>, n: int)
    requires
        are_displays_of(a, spaces),
        are_displays_of(b, spaces),
        0 <= n <= a.len(),
    ensures
        n <= b.len(),
        forall|k: int| 0 <= k < n ==> a[k] == b[k],
    decreases n,
{
    if n > 0 {
        lemma_ascending_prefix(a, b, spaces, n - 1);
        let k = n - 1;
        // a[k] occurs in b, at some index i; b[k] (if any) occurs in a.
        assert(hosts_before(spaces, spaces.len() as int, a[k]));
        let p = choose|p: int| 0 <= p < spaces.len() && (#[trigger] spaces[p]).display_index == a[k];
        assert(b.contains(spaces[p].display_index));
        let i = choose|i: int| 0 <= i < b.len() && b[i] == a[k];
        if i < k {
            assert(a[i] == b[i]);
            assert(a[i] < a[k]);
        }
        assert(k < b.len());
        if i > k {
            // b[k] < b[i] == a[k], and b[k] occurs in a at some index j.
            assert(hosts_before(spaces, spaces.len() as int, b[k]));
            let q = choose|q: int|
                0 <= q < spaces.len() && (#[trigger] spaces[q]).display_index == b[k];
            assert(a.contains(spaces[q].display_index));
            let j = choose|j: int| 0 <= j < a.len() && a[j] == b[k];
            assert(b[k] < b[i]);
            if j < k {
                assert(a[j] == b[j]);
                assert(b[j] < b[k]);
            } else if j > k {
                assert(a[k] < a[j]);
            }
        }
    }
}

/// The default color of the desktop at `position`.
pub fn default_color(position: u32) -> (color: String)
    ensures
        color@ == default_color_of(position as nat),
{
    let color = match position % 8 {
        0 => "#F5E6A3",
        1 => "#F2B8A0",
        2 => "#A8CCE0",
        3 => "#A8D8B0",
        4 => "#C8A8D8",
        5 => "#F0C8A0",
        6 => "#A0D8D0",
        _ => "#E0B8C8",
    };
    String::from_str(color)
}

/// The name of the desktop at `position`.
pub fn desktop_name(position: u32) -> (name: String)
    ensures
        name@ == name_of(position as nat),
{
    let mut name = String::from_str("Desktop ");
    push_decimal(&mut name, position as u64 + 1);
    name
}

/// The color of the space `space_id` at `position`.
pub fn desktop_color(data: &PersistData, space_id: i64, position: u32) -> (color: String)
    ensures
        color@ == color_for(data@.settings.custom_colors, space_id, position as nat),
{
    broadcast use group_hash_axioms;

    match data.settings.custom_colors.get(&space_id) {
        Some(custom) => custom.clone(),
        None => default_color(position),
    }
}

/// The title stored for `space_id`, empty where there is none.
fn stored_title(data: &PersistData, space_id: i64) -> (title: String)
    ensures
        title@ == title_of(data@, space_id),
{
    broadcast use group_hash_axioms;

    match data.titles.get(&space_id) {
        Some(title) => title.clone(),
        None => String::new(),
    }
}

/// The number of todos stored for `space_id` that are not done.
fn stored_open_count(data: &PersistData, space_id: i64) -> (count: usize)
    ensures
        count == open_count(todos_of(data@, space_id)),
{
    broadcast use group_hash_axioms;

    match data.notes.get(&space_id) {
        Some(todos) => {
            let ghost models = todos_view(todos@);
            let mut count: usize = 0;
            let mut i: usize = 0;
            proof {
                crate::seqs::lemma_filter_empty(|todo: TodoModel| !todo.done);
                assert(models.take(0) =~= Seq::<TodoModel>::empty());
            }
            while i < todos.len()
                invariant
                    i <= todos.len(),
                    models == todos_view(todos@),
                    count == open_count(models.take(i as int)),
                    count <= i,
                decreases todos.len() - i,
            {
                proof {
                    crate::seqs::lemma_filter_step(models, |todo: TodoModel| !todo.done, i as int);
                }
                if !todos[i].done {
                    count += 1;
                }
                i += 1;
            }
            assert(models.take(todos.len() as int) =~= models);
            count
        },
        None => {
            proof {
                crate::seqs::lemma_filter_empty(|todo: TodoModel| !todo.done);
            }
            0
        },
    }
}

/// What is shown of the space `space_id` of type `kind`.
pub fn desktop_info(data: &PersistData, spaces: &Vec<Space>, space_id: i64, kind: i32) -> (info:
    DesktopInfo)
    requires
        spaces.len() <= u32::MAX,
    ensures
        info@ == info_of(data@, spaces@, space_id, kind),
{
    proof {
        lemma_first_position(spaces@, space_id);
    }
    let position: u32 = match find_position(spaces, space_id) {
        Some(p) => p as u32,
        None => 0,
    };
    DesktopInfo {
        space_id,
        position,
        name: desktop_name(position),
        color: desktop_color(data, space_id, position),
        is_fullscreen: kind != 0,
    }
}

/// What is shown of the space that is current on display `display`.
pub fn get_desktop(data: &PersistData, displays: &Vec<ManagedDisplay>, display: u32) -> (info:
    DesktopInfo)
    requires
        ordinals_fit(displays@),
        enumerated(displays@).len() <= u32::MAX,
    ensures
        info@ == current_info(data@, displays@, display as nat),
{
    let (space_id, kind) = space_info_for_display(displays, display as usize);
    let spaces = enumerate_spaces(displays);
    desktop_info(data, &spaces, space_id, kind)
}

/// What is shown of the current space of each display, by display index.
/// There are as many entries as the enumeration spans displays, and one
/// where there is no space at all.
pub fn build_desktop_infos(data: &PersistData, displays: &Vec<ManagedDisplay>) -> (infos: Vec<
    DesktopInfo,
>)
    requires
        ordinals_fit(displays@),
        enumerated(displays@).len() <= u32::MAX,
    ensures
        infos_view(infos@) == Seq::new(
            display_count_of(enumerated(displays@)),
            |d: int| current_info(data@, displays@, d as nat),
        ),
{
    let spaces = enumerate_spaces(displays);
    let count = display_count(&spaces);
    let mut infos: Vec<DesktopInfo> = Vec::new();
    let mut display: usize = 0;
    while display < count
        invariant
            display <= count,
            spaces@ == enumerated(displays@),
            spaces.len() <= u32::MAX,
            infos_view(infos@) == Seq::new(
                display as nat,
                |d: int| current_info(data@, displays@, d as nat),
            ),
        decreases count - display,
    {
        let (space_id, kind) = space_info_for_display(displays, display);
        let info = desktop_info(data, &spaces, space_id, kind);
        let ghost before = infos@;
        infos.push(info);
        assert(infos_view(infos@) =~= infos_view(before).push(
            current_info(data@, displays@, display as nat),
        ));
        assert(infos_view(infos@) =~= Seq::new(
            (display + 1) as nat,
            |d: int| current_info(data@, displays@, d as nat),
        ));
        display += 1;
    }
    infos
}

/// The summary of the space at `position` of `spaces`.
fn summarize(data: &PersistData, spaces: &Vec<Space>, position: usize) -> (summary: DesktopSummary)
    requires
        position < spaces.len() <= u32::MAX,
    ensures
        summary@ == summary_of(data@, spaces@, position as int),
{
    let space_id = spaces[position].space_id;
    let shown = position as u32;
    DesktopSummary {
        space_id,
        position: shown,
        name: desktop_name(shown),
        title: stored_title(data, space_id),
        color: desktop_color(data, space_id, shown),
        todo_count: stored_open_count(data, space_id),
    }
}

/// The summaries of all spaces, by position.
pub fn list_all_desktops(data: &PersistData, spaces: &Vec<Space>) -> (summaries: Vec<
    DesktopSummary,
>)
    requires
        spaces.len() <= u32::MAX,
    ensures
        summaries_view(summaries@) == Seq::new(
            spaces.len() as nat,
            |p: int| summary_of(data@, spaces@, p),
        ),
{
    let mut summaries: Vec<DesktopSummary> = Vec::new();
    let mut position: usize = 0;
    while position < spaces.len()
        invariant
            position <= spaces.len() <= u32::MAX,
            summaries_view(summaries@) == Seq::new(
                position as nat,
                |p: int| summary_of(data@, spaces@, p),
            ),
        decreases spaces.len() - position,
    {
        let ghost before = summaries@;
        summaries.push(summarize(data, spaces, position));
        assert(summaries_view(summaries@) =~= summaries_view(before).push(
            summary_of(data@, spaces@, position as int),
        ));
        assert(summaries_view(summaries@) =~= Seq::new(
            (position + 1) as nat,
            |p: int| summary_of(data@, spaces@, p),
        ));
        position += 1;
    }
    summaries
}

/// The space infos of all spaces, by position.
pub fn list_all_spaces(data: &PersistData, spaces: &Vec<Space>) -> (infos: Vec<SpaceInfo>)
    requires
        spaces.len() <= u32::MAX,
    ensures
        space_infos_view(infos@) == Seq::new(
            spaces.len() as nat,
            |p: int| space_info_of(data@, spaces@, p),
        ),
{
    let mut infos: Vec<SpaceInfo> = Vec::new();
    let mut position: usize = 0;
    while position < spaces.len()
        invariant
            position <= spaces.len() <= u32::MAX,
            space_infos_view(infos@) == Seq::new(
                position as nat,
                |p: int| space_info_of(data@, spaces@, p),
            ),
        decreases spaces.len() - position,
    {
        let space_id = spaces[position].space_id;
        let shown = position as u32;
        let ghost before = infos@;
        infos.push(
            SpaceInfo {
                space_id,
                position: shown,
                name: desktop_name(shown),
                title: stored_title(data, space_id),
                color: desktop_color(data, space_id, shown),
            },
        );
        assert(space_infos_view(infos@) =~= space_infos_view(before).push(
            space_info_of(data@, spaces@, position as int),
        ));
        assert(space_infos_view(infos@) =~= Seq::new(
            (position + 1) as nat,
            |p: int| space_info_of(data@, spaces@, p),
        ));
        position += 1;
    }
    infos
}

/// An ascending list of exactly the displays that host a space is the
/// list of displays of the enumeration.
proof fn lemma_keys_are_displays(displays: Seq<usize>, spaces: Seq<Space>)
    requires
        forall|a: int, b: int| 0 <= a < b < displays.len() ==> displays[a] < displays[b],
        forall|d: usize|
            displays.contains(d) <==> #[trigger] hosts_before(spaces, spaces.len() as int, d),
    ensures
        are_displays_of(displays, spaces),
{
    assert forall|g: int| 0 <= g < displays.len() implies #[trigger] hosts_before(
        spaces,
        spaces.len() as int,
        displays[g],
    ) by {
        assert(displays.contains(displays[g]));
    }
    assert forall|p: int| 0 <= p < spaces.len() implies displays.contains(
        (#[trigger] spaces[p]).display_index,
    ) by {
        assert(hosts_before(spaces, spaces.len() as int, spaces[p].display_index));
    }
}

/// One position more either adds the summary of that position to the
/// summaries of its display or changes nothing.
proof fn lemma_desktops_step(store: PersistModel, spaces: Seq<Space>, n: nat, display: usize)
    requires
        n < spaces.len(),
    ensures
        desktops_before(store, spaces, n + 1, display) == if spaces[n as int].display_index
            == display {
            desktops_before(store, spaces, n, display).push(summary_of(store, spaces, n as int))
        } else {
            desktops_before(store, spaces, n, display)
        },
{
    reveal(Seq::filter);
    assert(Seq::new(n + 1, |p: int| p).drop_last() =~= Seq::new(n, |p: int| p));
    if spaces[n as int].display_index == display {
        assert(desktops_before(store, spaces, n + 1, display) =~= desktops_before(
            store,
            spaces,
            n,
            display,
        ).push(summary_of(store, spaces, n as int)));
    }
}

/// Before any position no display holds a summary.
proof fn lemma_desktops_none(store: PersistModel, spaces: Seq<Space>, display: usize)
    ensures
        desktops_before(store, spaces, 0, display) == Seq::<SummaryModel>::empty(),
{
    reveal(Seq::filter);
    assert(Seq::new(0, |p: int| p) =~= Seq::<int>::empty());
    assert(desktops_before(store, spaces, 0, display) =~= Seq::<SummaryModel>::empty());
}

/// The summaries of all spaces, grouped by display: one group for each
/// display that hosts a space, by ascending display index. Positions count
/// through all displays.
pub fn list_desktops_grouped(data: &PersistData, spaces: &Vec<Space>) -> (groups: Vec<
    DisplayGroup,
>)
    requires
        spaces.len() <= u32::MAX,
    ensures
        is_grouping(groups_view(groups@), data@, spaces@),
{
    let mut by_display: BTreeMap<usize, Vec<DesktopSummary>> = BTreeMap::new();
    let mut position: usize = 0;
    proof {
        assert forall|d: usize| #[trigger]
            held(by_display@, d) == desktops_before(data@, spaces@, 0, d) by {
            lemma_desktops_none(data@, spaces@, d);
        }
    }
    while position < spaces.len()
        invariant
            position <= spaces.len() <= u32::MAX,
            forall|d: usize|
                by_display@.contains_key(d) <==> #[trigger] hosts_before(
                    spaces@,
                    position as int,
                    d,
                ),
            forall|d: usize| #[trigger]
                held(by_display@, d) == desktops_before(data@, spaces@, position as nat, d),
        decreases spaces.len() - position,
    {
        let display = spaces[position].display_index;
        let ghost before = by_display@;
        let mut desktops = match take_entry(&mut by_display, display) {
            Some(desktops) => desktops,
            None => Vec::new(),
        };
        assert(summaries_view(desktops@) =~= held(before, display));
        let ghost earlier = desktops@;
        desktops.push(summarize(data, spaces, position));
        assert(summaries_view(desktops@) =~= summaries_view(earlier).push(
            summary_of(data@, spaces@, position as int),
        ));
        put_entry(&mut by_display, display, desktops);
        proof {
            assert(by_display@ =~= before.insert(display, desktops));
            assert forall|d: usize|
                by_display@.contains_key(d) <==> #[trigger] hosts_before(
                    spaces@,
                    position + 1,
                    d,
                ) by {
                assert(before.contains_key(d) <==> hosts_before(spaces@, position as int, d));
                if d == display {
                    assert(spaces@[position as int].display_index == d);
                }
            }
            assert forall|d: usize| #[trigger]
                held(by_display@, d) == desktops_before(
                    data@,
                    spaces@,
                    (position + 1) as nat,
                    d,
                ) by {
                lemma_desktops_step(data@, spaces@, position as nat, d);
                assert(held(before, d) == desktops_before(data@, spaces@, position as nat, d));
            }
        }
        position += 1;
    }
    let displays = ascending_keys(&by_display);
    let ghost full = by_display@;
    let mut groups: Vec<DisplayGroup> = Vec::new();
    let mut g: usize = 0;
    proof {
        assert(displays@.take(0).to_set() =~= Set::<usize>::empty());
        assert(by_display@ =~= full.remove_keys(Set::empty()));
    }
    while g < displays.len()
        invariant
            g <= displays.len(),
            displays@.no_duplicates(),
            displays@.to_set() == full.dom(),
            forall|a: int, b: int| 0 <= a < b < displays@.len() ==> displays@[a] < displays@[b],
            by_display@ == full.remove_keys(displays@.take(g as int).to_set()),
            groups@.len() == g,
            forall|k: int|
                0 <= k < g ==> (#[trigger] groups@[k])@ == (GroupModel {
                    display_index: displays@[k],
                    desktops: held(full, displays@[k]),
                }),
        decreases displays.len() - g,
    {
        let display = displays[g];
        proof {
            lemma_take_step_set(displays@, g as int);
            assert(displays@.contains(display));
            assert(full.dom().contains(display));
        }
        let ghost done = displays@.take(g as int).to_set();
        let desktops = match take_entry(&mut by_display, display) {
            Some(desktops) => desktops,
            None => Vec::new(),
        };
        assert(by_display@ =~= full.remove_keys(done.insert(display)));
        groups.push(DisplayGroup { display_index: display, desktops });
        g += 1;
    }
    proof {
        let models = groups_view(groups@);
        let indices = models.map_values(|group: GroupModel| group.display_index);
        assert(indices =~= displays@);
        assert forall|d: usize|
            displays@.contains(d) <==> #[trigger] hosts_before(
                spaces@,
                spaces@.len() as int,
                d,
            ) by {
            assert(displays@.to_set().contains(d) <==> full.contains_key(d));
        }
        lemma_keys_are_displays(displays@, spaces@);
        assert forall|k: int| 0 <= k < models.len() implies #[trigger] models[k] == group_of(
            data@,
            spaces@,
            models[k].display_index,
        ) by {
            assert(models[k] == groups@[k]@);
            assert(held(full, displays@[k]) == desktops_before(
                data@,
                spaces@,
                spaces@.len(),
                displays@[k],
            ));
        }
    }
    groups
}

} // verus!
