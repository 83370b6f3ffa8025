//! Window labels, and the plan that brings the live windows in line with
//! the monitors that are attached.
//!
//! Every monitor has one utility window. The window of monitor 0 is
//! labelled `main`; the window of monitor `i > 0` is labelled `monitor-i`.
//! `main` anchors the application: it is moved, never closed.

use crate::text::{
    chars_of, decimal, lemma_decimal_round_trip, parse_usize_from, push_decimal, usize_numeral,
};
use vstd::prelude::*;
use vstd::string::*;

verus! {

/// Milliseconds to wait after a display reconfiguration before the monitors
/// are read again: the signal arrives before the display list is final.
pub const RECONFIGURE_SETTLE_MS: u64 = 500;

/// The label of the window that belongs to monitor `index`.
pub open spec fn label_of(index: nat) -> Seq<char> {
    if index == 0 {
        "main"@
    } else {
        "monitor-"@ + decimal(index)
    }
}

/// The monitor that a window label names: the number after `monitor-`
/// where the label has that form and the number fits, and 0 for every
/// other label, `main` among them.
pub open spec fn display_index_of(label: Seq<char>) -> usize {
    if "monitor-"@.is_prefix_of(label) {
        match usize_numeral(label.skip("monitor-"@.len() as int)) {
            Some(index) => index,
            None => 0,
        }
    } else {
        0
    }
}

/// Whether `label` belongs to one of the first `count` monitors.
pub open spec fn is_expected(label: Seq<char>, count: nat) -> bool {
    exists|i: nat| i < count && #[trigger] label_of(i) == label
}

/// Whether a live window with this label has lost its monitor and is to
/// be closed. `main` never is.
pub open spec fn is_stale(label: Seq<char>, count: nat) -> bool {
    label != "main"@ && !is_expected(label, count)
}

/// The numbers below `count`, ascending.
pub open spec fn indices(count: nat) -> Seq<nat> {
    Seq::new(count, |i: int| i as nat)
}

/// The monitors among the first `count` that have no live window yet,
/// ascending.
pub open spec fn missing_monitors(existing: Seq<Seq<char>>, count: nat) -> Seq<nat> {
    indices(count).filter(|i: nat| !existing.contains(label_of(i)))
}

/// The live labels that are to be closed, in the order given.
pub open spec fn stale_labels(existing: Seq<Seq<char>>, count: nat) -> Seq<Seq<char>> {
    existing.filter(|label: Seq<char>| is_stale(label, count))
}

/// The views of a list of labels.
pub open spec fn labels_of(windows: Seq<String>) -> Seq<Seq<char>> {
    windows.map_values(|label: String| label@)
}

/// A window to create.
pub struct NewWindow {
    /// The monitor to anchor the window to.
    pub monitor: usize,
    /// The label to create the window under.
    pub label: String,
}

/// What a `NewWindow` stands for.
pub struct NewWindowModel {
    pub monitor: nat,
    pub label: Seq<char>,
}

impl View for NewWindow {
    type V = NewWindowModel;

    open spec fn view(&self) -> NewWindowModel {
        NewWindowModel { monitor: self.monitor as nat, label: self.label@ }
    }
}

/// What tells one monitor from another: its name, where it has one, and
/// its place and size in physical pixels.
#[derive(Debug, PartialEq, Eq)]
pub struct MonitorKey {
    pub name: Option<String>,
    pub x: i32,
    pub y: i32,
    pub width: u32,
    pub height: u32,
}

/// What a `MonitorKey` stands for.
pub struct MonitorKeyModel {
    pub name: Option<Seq<char>>,
    pub x: i32,
    pub y: i32,
    pub width: u32,
    pub height: u32,
}

impl View for MonitorKey {
    type V = MonitorKeyModel;

    open spec fn view(&self) -> MonitorKeyModel {
        MonitorKeyModel {
            name: match self.name {
                Some(name) => Some(name@),
                None => None,
            },
            x: self.x,
            y: self.y,
            width: self.width,
            height: self.height,
        }
    }
}

/// The steps of one reconciliation, in the order to carry them out:
/// create, close, reposition `main`, announce the monitor count.
pub struct SyncPlan {
    /// Windows to create, by ascending monitor.
    pub create: Vec<NewWindow>,
    /// Labels of live windows to close.
    pub close: Vec<String>,
    /// Whether to move `main` to the anchor of monitor 0.
    pub reposition_main: bool,
    /// The monitor count to announce once the windows are in place.
    pub monitor_count: usize,
}

/// What a `SyncPlan` stands for.
pub struct SyncPlanModel {
    pub create: Seq<NewWindowModel>,
    pub close: Seq<Seq<char>>,
    pub reposition_main: bool,
    pub monitor_count: nat,
}

impl View for SyncPlan {
    type V = SyncPlanModel;

    open spec fn view(&self) -> SyncPlanModel {
        SyncPlanModel {
            create: self.create@.map_values(|w: NewWindow| w@),
            close: labels_of(self.close@),
            reposition_main: self.reposition_main,
            monitor_count: self.monitor_count as nat,
        }
    }
}

/// The plan for the live windows `existing` and `count` monitors, where
/// `main_on_first` says whether `main` sits on monitor 0 already.
///
/// A window is created for each monitor that has none. Each live window
/// whose label belongs to none of the monitors is closed, `main` excepted.
/// Where `main` is live and there is a monitor, but `main` does not sit on
/// monitor 0, it is moved to the anchor of monitor 0.
pub open spec fn planned(
    existing: Seq<Seq<char>>,
    count: nat,
    main_on_first: bool,
) -> SyncPlanModel {
    SyncPlanModel {
        create: missing_monitors(existing, count).map_values(
            |i: nat| NewWindowModel { monitor: i, label: label_of(i) },
        ),
        close: stale_labels(existing, count),
        reposition_main: count > 0 && existing.contains("main"@) && !main_on_first,
        monitor_count: count,
    }
}

/// The labels that are live once `plan` has been carried out on the live
/// labels `live`.
pub open spec fn live_after(live: Set<Seq<char>>, plan: SyncPlanModel) -> Set<Seq<char>> {
    Set::new(
        |label: Seq<char>|
            (live.contains(label) && !plan.close.contains(label)) || exists|k: int|
                0 <= k < plan.create.len() && (#[trigger] plan.create[k]).label == label,
    )
}

/// The labels that reconciliation settles on for `count` monitors: one per
/// monitor, and `main` besides where it was live before.
pub open spec fn settled(live: Set<Seq<char>>, count: nat) -> Set<Seq<char>> {
    Set::new(
        |label: Seq<char>| is_expected(label, count) || (label == "main"@ && live.contains(label)),
    )
}

/// The live labels after one reconciliation for each monitor count of
/// `counts`, in turn.
pub open spec fn settled_through(live: Set<Seq<char>>, counts: Seq<nat>) -> Set<Seq<char>>
    decreases counts.len(),
{
    if counts.len() == 0 {
        live
    } else {
        settled(settled_through(live, counts.drop_last()), counts.last())
    }
}

/// `monitor-` is no prefix of `main`, and it is eight characters long.
proof fn lemma_label_literals()
    ensures
        "main"@.len() == 4,
        "monitor-"@.len() == 8,
        "main"@[1] == 'a',
        "monitor-"@[1] == 'o',
        !"monitor-"@.is_prefix_of("main"@),
{
    reveal_strlit("main");
    reveal_strlit("monitor-");
}

/// A label names the monitor it was made for.
pub proof fn lemma_label_round_trip(index: nat)
    requires
        index <= usize::MAX,
    ensures
        display_index_of(label_of(index)) == index,
{
    lemma_label_literals();
    if index > 0 {
        let label = label_of(index);
        lemma_decimal_round_trip(index);
        assert(label.subrange(0, 8) =~= "monitor-"@);
        assert(label.skip(8) =~= decimal(index));
    }
}

/// Different monitors have different labels.
pub proof fn lemma_labels_differ(i: nat, j: nat)
    requires
        i != j,
    ensures
        label_of(i) != label_of(j),
{
    lemma_label_literals();
    if i > 0 && j > 0 {
        lemma_decimal_round_trip(i);
        lemma_decimal_round_trip(j);
        if label_of(i) == label_of(j) {
            assert(label_of(i).skip(8) =~= decimal(i));
            assert(label_of(j).skip(8) =~= decimal(j));
        }
    } else if i > 0 {
        assert(label_of(i)[1] == 'o');
    } else {
        assert(label_of(j)[1] == 'o');
    }
}

/// One monitor more either adds that monitor to the missing ones or
/// changes nothing.
proof fn lemma_missing_step(existing: Seq<Seq<char>>, count: nat)
    ensures
        missing_monitors(existing, count + 1) == if existing.contains(label_of(count)) {
            missing_monitors(existing, count)
        } else {
            missing_monitors(existing, count).push(count)
        },
        missing_monitors(existing, 0) == Seq::<nat>::empty(),
{
    reveal(Seq::filter);
    assert(indices(count + 1).drop_last() =~= indices(count));
    assert(indices(0) =~= Seq::<nat>::empty());
}

/// One live label more either adds that label to the stale ones or
/// changes nothing.
proof fn lemma_stale_step(existing: Seq<Seq<char>>, count: nat, j: int)
    requires
        0 <= j < existing.len(),
    ensures
        stale_labels(existing.take(j + 1), count) == if is_stale(existing[j], count) {
            stale_labels(existing.take(j), count).push(existing[j])
        } else {
            stale_labels(existing.take(j), count)
        },
{
    reveal(Seq::filter);
    assert(existing.take(j + 1).drop_last() =~= existing.take(j));
}

/// Of no live labels none is stale.
proof fn lemma_stale_none(existing: Seq<Seq<char>>, count: nat)
    ensures
        stale_labels(existing.take(0), count) == Seq::<Seq<char>>::empty(),
{
    reveal(Seq::filter);
    assert(existing.take(0) =~= Seq::<Seq<char>>::empty());
}

/// A monitor is missing exactly where it is below the count and its label
/// is not live.
proof fn lemma_missing_contains(existing: Seq<Seq<char>>, count: nat, i: nat)
    ensures
        missing_monitors(existing, count).contains(i) <==> i < count && !existing.contains(
            label_of(i),
        ),
    decreases count,
{
    lemma_missing_step(existing, (count - 1) as nat);
    if count > 0 {
        let before = missing_monitors(existing, (count - 1) as nat);
        lemma_missing_contains(existing, (count - 1) as nat, i);
        if !existing.contains(label_of((count - 1) as nat)) {
            let now = before.push((count - 1) as nat);
            assert(now.last() == (count - 1) as nat);
            if before.contains(i) {
                let k = choose|k: int| 0 <= k < before.len() && before[k] == i;
                assert(now[k] == i);
            }
            if now.contains(i) {
                let k = choose|k: int| 0 <= k < now.len() && now[k] == i;
                if k < before.len() {
                    assert(before[k] == i);
                }
            }
        }
    }
}

/// A label is stale-listed exactly where it is live and stale.
proof fn lemma_stale_contains(existing: Seq<Seq<char>>, count: nat, label: Seq<char>)
    ensures
        stale_labels(existing, count).contains(label) <==> existing.contains(label) && is_stale(
            label,
            count,
        ),
{
    crate::seqs::lemma_filter_contains(
        existing,
        |label: Seq<char>| is_stale(label, count),
        label,
    );
}

/// Whether `label` is among `labels`.
fn contains_label(labels: &Vec<String>, label: &String) -> (found: bool)
    ensures
        found == labels_of(labels@).contains(label@),
{
    let mut i: usize = 0;
    while i < labels.len()
        invariant
            i <= labels.len(),
            forall|j: int| 0 <= j < i ==> labels_of(labels@)[j] != label@,
        decreases labels.len() - i,
    {
        if labels[i] == *label {
            assert(labels_of(labels@)[i as int] == label@);
            return true;
        }
        i += 1;
    }
    false
}

/// The label of the window that belongs to monitor `index`: `main` for
/// monitor 0, `monitor-` and the index in decimal for the others.
pub fn window_label(index: usize) -> (label: String)
    ensures
        label@ == label_of(index as nat),
{
    if index == 0 {
        String::from_str("main")
    } else {
        let mut label = String::from_str("monitor-");
        push_decimal(&mut label, index as u64);
        label
    }
}

/// The monitor that a window label names.
///
/// `main` names monitor 0, `monitor-N` names monitor `N`. A label of any
/// other form, or with a number that is no unsigned decimal numeral or does
/// not fit, names monitor 0 as well.
pub fn window_label_to_display_index(label: &str) -> (index: usize)
    ensures
        index == display_index_of(label@),
{
    let chars = chars_of(label);
    let prefix = chars_of("monitor-");
    if chars.len() < prefix.len() {
        return 0;
    }
    let mut i: usize = 0;
    while i < prefix.len()
        invariant
            i <= prefix.len() <= chars.len(),
            prefix@ == "monitor-"@,
            chars@ == label@,
            forall|j: int| 0 <= j < i ==> chars@[j] == prefix@[j],
        decreases prefix.len() - i,
    {
        if chars[i] != prefix[i] {
            assert(label@.subrange(0, prefix@.len() as int)[i as int] != prefix@[i as int]);
            return 0;
        }
        i += 1;
    }
    assert(label@.subrange(0, prefix@.len() as int) =~= prefix@);
    match parse_usize_from(&chars, prefix.len()) {
        Some(index) => index,
        None => 0,
    }
}

/// Whether the window `main` sits on the first monitor: both the monitor
/// that `main` is on and the first monitor are known, and they are one
/// monitor, with one name, place and size.
pub fn main_on_first_monitor(main: Option<MonitorKey>, first: Option<MonitorKey>) -> (on: bool)
    ensures
        on == (main is Some && first is Some && main->0@ == first->0@),
{
    match (main, first) {
        (Some(main), Some(first)) => {
            let same_name = match (&main.name, &first.name) {
                (Some(a), Some(b)) => *a == *b,
                (None, None) => true,
                _ => false,
            };
            same_name && main.x == first.x && main.y == first.y && main.width == first.width
                && main.height == first.height
        },
        _ => false,
    }
}

/// Plans one reconciliation of the live windows against the monitors.
///
/// `existing` holds the labels of the live windows, `monitor_count` the
/// number of monitors attached now. `main_on_first_monitor` says whether
/// the window `main` sits on monitor 0 as things are; it is not looked at
/// where `main` is not live.
pub fn sync_windows_to_monitors(
    existing: &Vec<String>,
    monitor_count: usize,
    main_on_first_monitor: bool,
) -> (plan: SyncPlan)
    ensures
        plan@ == planned(labels_of(existing@), monitor_count as nat, main_on_first_monitor),
{
    let ghost live = labels_of(existing@);
    let main = String::from_str("main");
    let mut expected: Vec<String> = Vec::new();
    let mut create: Vec<NewWindow> = Vec::new();
    let mut i: usize = 0;
    proof {
        lemma_missing_step(live, 0);
    }
    while i < monitor_count
        invariant
            i <= monitor_count,
            live == labels_of(existing@),
            expected@.len() == i,
            forall|k: int| 0 <= k < i ==> (#[trigger] expected@[k])@ == label_of(k as nat),
            create@.map_values(|w: NewWindow| w@) == missing_monitors(live, i as nat).map_values(
                |m: nat| NewWindowModel { monitor: m, label: label_of(m) },
            ),
        decreases monitor_count - i,
    {
        let label = window_label(i);
        proof {
            lemma_missing_step(live, i as nat);
        }
        if !contains_label(existing, &label) {
            let ghost before = create@;
            create.push(NewWindow { monitor: i, label: label.clone() });
            assert(create@.map_values(|w: NewWindow| w@) =~= before.map_values(
                |w: NewWindow| w@,
            ).push(NewWindowModel { monitor: i as nat, label: label_of(i as nat) }));
            assert(missing_monitors(live, (i + 1) as nat).map_values(
                |m: nat| NewWindowModel { monitor: m, label: label_of(m) },
            ) =~= missing_monitors(live, i as nat).map_values(
                |m: nat| NewWindowModel { monitor: m, label: label_of(m) },
            ).push(NewWindowModel { monitor: i as nat, label: label_of(i as nat) }));
        }
        expected.push(label);
        i += 1;
    }
    let mut close: Vec<String> = Vec::new();
    let mut j: usize = 0;
    proof {
        lemma_stale_none(live, monitor_count as nat);
        assert(labels_of(close@) =~= Seq::<Seq<char>>::empty());
    }
    while j < existing.len()
        invariant
            j <= existing.len(),
            live == labels_of(existing@),
            main@ == "main"@,
            expected@.len() == monitor_count,
            forall|k: int|
                0 <= k < monitor_count ==> (#[trigger] expected@[k])@ == label_of(k as nat),
            labels_of(close@) == stale_labels(live.take(j as int), monitor_count as nat),
        decreases existing.len() - j,
    {
        let label = &existing[j];
        let is_main = *label == main;
        let is_live_monitor = contains_label(&expected, label);
        proof {
            lemma_stale_step(live, monitor_count as nat, j as int);
            assert(live[j as int] == label@);
            if is_live_monitor {
                let k = choose|k: int|
                    0 <= k < labels_of(expected@).len() && labels_of(expected@)[k] == label@;
                assert(expected@[k]@ == label_of(k as nat));
                assert(label_of(k as nat) == label@);
                assert(is_expected(label@, monitor_count as nat));
            }
            if is_expected(label@, monitor_count as nat) {
                let k = choose|k: nat| k < monitor_count && #[trigger] label_of(k) == label@;
                assert(labels_of(expected@)[k as int] == label@);
            }
        }
        if !is_main && !is_live_monitor {
            let ghost before = close@;
            close.push(label.clone());
            assert(labels_of(close@) =~= labels_of(before).push(label@));
        }
        j += 1;
    }
    assert(live.take(existing.len() as int) =~= live);
    let reposition_main = monitor_count > 0 && !main_on_first_monitor && contains_label(
        existing,
        &main,
    );
    SyncPlan { create, close, reposition_main, monitor_count }
}

/// After one reconciliation the live labels are those of the monitors, and
/// `main` besides where it was live before: nothing else survives, and
/// nothing expected is missing.
pub proof fn lemma_reconcile_settles(existing: Seq<Seq<char>>, count: nat, main_on_first: bool)
    ensures
        live_after(existing.to_set(), planned(existing, count, main_on_first)) == settled(
            existing.to_set(),
            count,
        ),
{
    let plan = planned(existing, count, main_on_first);
    let after = live_after(existing.to_set(), plan);
    let goal = settled(existing.to_set(), count);
    assert forall|label: Seq<char>| after.contains(label) == goal.contains(label) by {
        lemma_stale_contains(existing, count, label);
        if is_expected(label, count) {
            let i = choose|i: nat| i < count && #[trigger] label_of(i) == label;
            lemma_missing_contains(existing, count, i);
            if !existing.contains(label) {
                let missing = missing_monitors(existing, count);
                let k = choose|k: int| 0 <= k < missing.len() && missing[k] == i;
                assert(plan.create[k].label == label);
            }
        }
        if exists|k: int| 0 <= k < plan.create.len() && (#[trigger] plan.create[k]).label == label {
            let k = choose|k: int|
                0 <= k < plan.create.len() && (#[trigger] plan.create[k]).label == label;
            let missing = missing_monitors(existing, count);
            let i = missing[k];
            assert(missing.contains(i));
            lemma_missing_contains(existing, count, i);
            assert(label_of(i) == label);
        }
    }
    assert(after =~= goal);
}

/// `main` is never among the windows to close.
pub proof fn lemma_main_never_closed(existing: Seq<Seq<char>>, count: nat, main_on_first: bool)
    ensures
        !planned(existing, count, main_on_first).close.contains("main"@),
{
    lemma_stale_contains(existing, count, "main"@);
}

/// Reconciliation converges: whatever monitor counts came before, after
/// the reconciliation for the last of them a label other than `main` is
/// live exactly where it belongs to one of the monitors of that last
/// count. `main` is live exactly where it was live at the start or some
/// count along the way was not zero: once there, it stays, whatever
/// monitors are removed.
pub proof fn lemma_reconcile_converges(live: Set<Seq<char>>, counts: Seq<nat>)
    requires
        counts.len() > 0,
    ensures
        forall|label: Seq<char>|
            label != "main"@ ==> (settled_through(live, counts).contains(label) <==> is_expected(
                label,
                counts.last(),
            )),
        settled_through(live, counts).contains("main"@) <==> live.contains("main"@) || exists|
            k: int,
        |
            0 <= k < counts.len() && #[trigger] counts[k] > 0,
        live.contains("main"@) ==> settled_through(live, counts) == settled(live, counts.last()),
    decreases counts.len(),
{
    let earlier = counts.drop_last();
    let before = settled_through(live, earlier);
    let after = settled_through(live, counts);
    assert(after == settled(before, counts.last()));
    assert(label_of(0) == "main"@);
    if earlier.len() > 0 {
        lemma_reconcile_converges(live, earlier);
        if exists|k: int| 0 <= k < earlier.len() && #[trigger] earlier[k] > 0 {
            let k = choose|k: int| 0 <= k < earlier.len() && #[trigger] earlier[k] > 0;
            assert(counts[k] > 0);
        }
    }
    if is_expected("main"@, counts.last()) {
        assert(counts[counts.len() - 1] > 0);
    }
    if after.contains("main"@) && !live.contains("main"@) {
        if !is_expected("main"@, counts.last()) {
            let k = choose|k: int| 0 <= k < earlier.len() && #[trigger] earlier[k] > 0;
            assert(counts[k] > 0);
        }
    }
    if exists|k: int| 0 <= k < counts.len() && #[trigger] counts[k] > 0 {
        let k = choose|k: int| 0 <= k < counts.len() && #[trigger] counts[k] > 0;
        if k < earlier.len() {
            assert(earlier[k] > 0);
        } else {
            assert(is_expected(label_of(0), counts.last()));
        }
    }
    if live.contains("main"@) {
        assert(after =~= settled(live, counts.last()));
    }
}

} // verus!
