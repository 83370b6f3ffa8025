//! Moving the user from the space that is current on a display to another
//! space of that display, one step at a time.
//!
//! A step is one key combination that moves a single desktop to the left
//! or to the right. The plan says which way to go and how many steps; the
//! caller synthesizes the keys and waits between them.

use crate::seqs::{lemma_filter_empty, lemma_filter_step};
use crate::spaces::{find_position, first_position, lemma_first_position, Space};
use crate::text::{decimal, push_decimal};
use vstd::prelude::*;
use vstd::string::*;

verus! {

/// Milliseconds to wait after each step for the desktop to settle.
pub const SWITCH_SETTLE_MS: u64 = 300;

/// The key code of the left arrow.
pub const KEY_LEFT: u32 = 123;

/// The key code of the right arrow.
pub const KEY_RIGHT: u32 = 124;

/// The way a step goes.
#[derive(Clone, Copy, Debug, PartialEq, Eq, Structural)]
pub enum Direction {
    Left,
    Right,
}

/// A run of steps in one direction.
#[derive(Clone, Copy, Debug, PartialEq, Eq, Structural)]
pub struct SwitchPlan {
    pub direction: Direction,
    /// The number of steps, never zero.
    pub presses: usize,
}

/// The spaces that display `display` hosts, in enumeration order.
pub open spec fn spaces_on(spaces: Seq<Space>, display: usize) -> Seq<Space> {
    spaces.filter(|space: Space| space.display_index == display)
}

/// Whether `space_id` is among the spaces that display `display` hosts.
pub open spec fn is_on(spaces: Seq<Space>, display: usize, space_id: i64) -> bool {
    exists|k: int|
        0 <= k < spaces_on(spaces, display).len() && (#[trigger] spaces_on(
            spaces,
            display,
        )[k]).space_id == space_id
}

/// The steps that lead from `current` to `target` on display `display`:
/// none where either is not among the spaces of the display or both stand
/// at the same place; else as many steps as their places differ, to the
/// right where the target comes later.
pub open spec fn planned_switch(
    spaces: Seq<Space>,
    display: usize,
    current: i64,
    target: i64,
) -> Option<SwitchPlan> {
    let hosted = spaces_on(spaces, display);
    match (first_position(hosted, current), first_position(hosted, target)) {
        (Some(from), Some(to)) => if to > from {
            Some(SwitchPlan { direction: Direction::Right, presses: (to - from) as usize })
        } else if to < from {
            Some(SwitchPlan { direction: Direction::Left, presses: (from - to) as usize })
        } else {
            None
        },
        _ => None,
    }
}

/// A switch is a no-op, with no steps at all, where the target is not
/// among the spaces of the display, where the current space is not, and
/// where the target is the current space. A switch that is none takes at
/// least one step and fewer steps than the display hosts spaces.
pub proof fn lemma_switch_no_op(spaces: Seq<Space>, display: usize, current: i64, target: i64)
    requires
        spaces.len() <= usize::MAX,
    ensures
        !is_on(spaces, display, target) ==> planned_switch(spaces, display, current, target)
            is None,
        !is_on(spaces, display, current) ==> planned_switch(spaces, display, current, target)
            is None,
        target == current ==> planned_switch(spaces, display, current, target) is None,
        planned_switch(spaces, display, current, target) matches Some(plan) ==> plan.presses > 0
            && plan.presses < spaces_on(spaces, display).len(),
{
    let hosted = spaces_on(spaces, display);
    lemma_first_position(hosted, current);
    lemma_first_position(hosted, target);
    spaces.lemma_filter_len(|space: Space| space.display_index == display);
}

/// The spaces that display `display` hosts.
pub fn display_spaces(spaces: &Vec<Space>, display: usize) -> (hosted: Vec<Space>)
    ensures
        hosted@ == spaces_on(spaces@, display),
{
    let mut hosted: Vec<Space> = Vec::new();
    let mut i: usize = 0;
    proof {
        lemma_filter_empty(|space: Space| space.display_index == display);
        assert(spaces@.take(0) =~= Seq::<Space>::empty());
    }
    while i < spaces.len()
        invariant
            i <= spaces.len(),
            hosted@ == spaces_on(spaces@.take(i as int), display),
        decreases spaces.len() - i,
    {
        proof {
            lemma_filter_step(spaces@, |space: Space| space.display_index == display, i as int);
        }
        if spaces[i].display_index == display {
            hosted.push(spaces[i]);
        }
        i += 1;
    }
    assert(spaces@.take(spaces.len() as int) =~= spaces@);
    hosted
}

/// Plans the switch from the space `current`, which is current on display
/// `display`, to the space `target`.
///
/// `None` is the no-op: the caller does nothing and reports `false`. This
/// is the answer where the target is not on the display, where the current
/// space is not among its ordinary desktops, and where the user is there
/// already.
pub fn switch_desktop(spaces: &Vec<Space>, display: u32, current: i64, target: i64) -> (plan:
    Option<SwitchPlan>)
    ensures
        plan == planned_switch(spaces@, display as usize, current, target),
        !is_on(spaces@, display as usize, target) ==> plan is None,
        target == current ==> plan is None,
{
    proof {
        assert(spaces.len() <= usize::MAX);
        lemma_switch_no_op(spaces@, display as usize, current, target);
    }
    let hosted = display_spaces(spaces, display as usize);
    let from = find_position(&hosted, current);
    let to = find_position(&hosted, target);
    match (from, to) {
        (Some(from), Some(to)) => {
            if to > from {
                Some(SwitchPlan { direction: Direction::Right, presses: to - from })
            } else if to < from {
                Some(SwitchPlan { direction: Direction::Left, presses: from - to })
            } else {
                None
            }
        },
        _ => None,
    }
}

/// The key that makes one step in `direction`, to be pressed with the
/// control key held down.
pub fn step_key_code(direction: Direction) -> (code: u32)
    ensures
        code == match direction {
            Direction::Left => KEY_LEFT,
            Direction::Right => KEY_RIGHT,
        },
{
    match direction {
        Direction::Left => KEY_LEFT,
        Direction::Right => KEY_RIGHT,
    }
}

/// The text of the script that makes one step in `direction`.
pub open spec fn step_script_of(direction: Direction) -> Seq<char> {
    let code = match direction {
        Direction::Left => KEY_LEFT,
        Direction::Right => KEY_RIGHT,
    };
    "tell application \"System Events\" to key code "@ + decimal(code as nat)
        + " using control down"@
}

/// The script that makes one step in `direction`: it asks the system to
/// press the arrow key of that direction with the control key held down.
pub fn step_script(direction: Direction) -> (script: String)
    ensures
        script@ == step_script_of(direction),
{
    let mut script = String::from_str("tell application \"System Events\" to key code ");
    push_decimal(&mut script, step_key_code(direction) as u64);
    script.append(" using control down");
    script
}

} // verus!
