//! The rules behind the tray menu: which windows a toggle acts on, which
//! way it goes, and what the menu entry says afterwards.

use crate::seqs::{lemma_filter_empty, lemma_filter_step};
use crate::windows::{display_index_of, labels_of, window_label_to_display_index};
use vstd::prelude::*;
use vstd::string::*;

verus! {

/// What a toggle acts on.
#[derive(Clone, Copy, Debug, PartialEq, Eq, Structural)]
pub enum ToggleScope {
    /// Every window.
    All,
    /// The windows of the displays that show the desktop of display 0.
    Desktop,
    /// The window of display 0.
    Monitor,
}

/// The space that is current on display `display` according to `actives`,
/// 0 where `actives` does not reach that far.
pub open spec fn active_on(actives: Seq<i64>, display: int) -> i64 {
    if 0 <= display < actives.len() {
        actives[display]
    } else {
        0
    }
}

/// Whether the window labelled `label` shows the desktop that display 0
/// shows: the space that is current on its display is the space that is
/// current on display 0.
pub open spec fn shows_current_desktop(actives: Seq<i64>, label: Seq<char>) -> bool {
    active_on(actives, display_index_of(label) as int) == active_on(actives, 0)
}

/// The text of a toggle entry: it offers to hide while something is
/// visible, and to show while nothing is.
pub open spec fn toggle_text(scope: ToggleScope, visible: bool) -> Seq<char> {
    match (scope, visible) {
        (ToggleScope::All, true) => "Hide Entirely"@,
        (ToggleScope::All, false) => "Show Entirely"@,
        (ToggleScope::Desktop, true) => "Hide This Desktop"@,
        (ToggleScope::Desktop, false) => "Show This Desktop"@,
        (ToggleScope::Monitor, true) => "Hide This Monitor"@,
        (ToggleScope::Monitor, false) => "Show This Monitor"@,
    }
}

/// Whether the windows that a toggle acts on are visible once it is done:
/// they are hidden where any of them was visible, and shown where none was.
pub fn visible_after_toggle(any_visible: bool) -> (visible: bool)
    ensures
        visible == !any_visible,
{
    !any_visible
}

/// The text of a toggle entry of `scope` while its windows are `visible`.
pub fn toggle_menu_text(scope: ToggleScope, visible: bool) -> (text: &'static str)
    ensures
        text@ == toggle_text(scope, visible),
{
    match scope {
        ToggleScope::All => if visible {
            "Hide Entirely"
        } else {
            "Show Entirely"
        },
        ToggleScope::Desktop => if visible {
            "Hide This Desktop"
        } else {
            "Show This Desktop"
        },
        ToggleScope::Monitor => if visible {
            "Hide This Monitor"
        } else {
            "Show This Monitor"
        },
    }
}

/// The labels among `labels` whose windows show the desktop that display 0
/// shows, in the order given. `actives` holds the current space of each
/// display, by display index.
pub fn windows_on_current_desktop(labels: &Vec<String>, actives: &Vec<i64>) -> (chosen: Vec<
    String,
>)
    ensures
        labels_of(chosen@) == labels_of(labels@).filter(
            |label: Seq<char>| shows_current_desktop(actives@, label),
        ),
{
    let current: i64 = if actives.len() > 0 {
        actives[0]
    } else {
        0
    };
    let ghost views = labels_of(labels@);
    let mut chosen: Vec<String> = Vec::new();
    let mut i: usize = 0;
    proof {
        lemma_filter_empty(|label: Seq<char>| shows_current_desktop(actives@, label));
        assert(views.take(0) =~= Seq::<Seq<char>>::empty());
        assert(labels_of(chosen@) =~= Seq::<Seq<char>>::empty());
    }
    while i < labels.len()
        invariant
            i <= labels.len(),
            views == labels_of(labels@),
            current == active_on(actives@, 0),
            labels_of(chosen@) == views.take(i as int).filter(
                |label: Seq<char>| shows_current_desktop(actives@, label),
            ),
        decreases labels.len() - i,
    {
        proof {
            lemma_filter_step(
                views,
                |label: Seq<char>| shows_current_desktop(actives@, label),
                i as int,
            );
        }
        let display = window_label_to_display_index(labels[i].as_str());
        let active: i64 = if display < actives.len() {
            actives[display]
        } else {
            0
        };
        if active == current {
            let ghost before = chosen@;
            chosen.push(labels[i].clone());
            assert(labels_of(chosen@) =~= labels_of(before).push(views[i as int]));
        }
        i += 1;
    }
    assert(views.take(labels.len() as int) =~= views);
    chosen
}

} // verus!
