//! Reading the set of monitors when two sources may disagree.
//!
//! Right after wake or reconfiguration the public monitor list can lag
//! behind the hardware display count. The list is then read once more
//! after a settle delay, and never a third time: a mismatch that persists
//! is accepted as it is.

use vstd::prelude::*;

verus! {

/// Milliseconds to wait before the public monitor list is read again.
pub const MONITOR_RETRY_MS: u64 = 500;

/// The bit of the reconfiguration flags that marks the begin of a
/// reconfiguration, as opposed to its completion.
pub const BEGIN_CONFIGURATION_FLAG: u32 = 1;

/// What to do with the monitor lists read so far.
#[derive(Clone, Copy, Debug, PartialEq, Eq, Structural)]
pub enum MonitorChoice {
    /// Take the first list.
    UseFirst,
    /// Wait for the settle delay and read the list once more.
    Retry,
    /// Take the list read after the delay.
    UseRetry,
}

/// Whether a public list of `first` monitors is taken as it is: it reports
/// at least as many monitors as the hardware probe, or the probe reports
/// none, which means that it is unavailable.
pub open spec fn first_is_trusted(hardware: u32, first: nat) -> bool {
    first >= hardware || hardware == 0
}

/// The choice after the hardware probe reported `hardware` displays, the
/// public list held `first` monitors, and a second reading, where one was
/// made, held `retry`.
pub open spec fn chosen(hardware: u32, first: nat, retry: Option<nat>) -> MonitorChoice {
    if first_is_trusted(hardware, first) {
        MonitorChoice::UseFirst
    } else {
        match retry {
            None => MonitorChoice::Retry,
            Some(second) => if second >= first {
                MonitorChoice::UseRetry
            } else {
                MonitorChoice::UseFirst
            },
        }
    }
}

/// The hardware display count that a probe stands for: the count it
/// reports, and 0 where it failed with a status other than 0.
pub fn get_cg_display_count(status: i32, count: u32) -> (displays: u32)
    ensures
        displays == if status != 0 {
            0
        } else {
            count
        },
{
    if status != 0 {
        0
    } else {
        count
    }
}

/// Decides what to do with the monitor lists read so far.
///
/// `hardware_count` is the hardware display count, `first_len` the length
/// of the public list, `retry_len` the length of the list read after the
/// delay, where that has happened. Once there is a second reading the
/// answer is never `Retry`.
pub fn get_monitors_with_fallback(
    hardware_count: u32,
    first_len: usize,
    retry_len: Option<usize>,
) -> (choice: MonitorChoice)
    ensures
        choice == chosen(
            hardware_count,
            first_len as nat,
            match retry_len {
                Some(second) => Some(second as nat),
                None => None,
            },
        ),
        retry_len is Some ==> choice != MonitorChoice::Retry,
{
    if first_len as u64 >= hardware_count as u64 || hardware_count == 0 {
        return MonitorChoice::UseFirst;
    }
    match retry_len {
        None => MonitorChoice::Retry,
        Some(second) => {
            if second >= first_len {
                MonitorChoice::UseRetry
            } else {
                MonitorChoice::UseFirst
            }
        },
    }
}

/// Whether a display reconfiguration signal with these flags tells of a
/// completed reconfiguration. The signal that marks the begin is ignored.
pub fn display_reconfiguration_callback(flags: u32) -> (completed: bool)
    ensures
        completed == (flags & BEGIN_CONFIGURATION_FLAG == 0),
{
    flags & BEGIN_CONFIGURATION_FLAG == 0
}

} // verus!
