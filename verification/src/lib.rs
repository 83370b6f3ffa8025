//! Tracking of virtual desktops ("spaces") across displays, with the
//! per-desktop record store that follows them.
//!
//! The library decides; its caller talks to the operating system and to
//! the disk. Every function works on plain values: the report of the
//! operating system as it was read, the aggregate as it is held in memory,
//! the labels of the windows that are live. Every result is stated over a
//! mathematical model of these values and proved.
//!
//! - [`spaces`]: what the operating system reports, and the canonical
//!   enumeration of ordinary desktops.
//! - [`store`]: the persisted aggregate and its model.
//! - [`migrate`]: the change from positional keys to space identifiers.
//! - [`commands`]: the commands that read or replace one part of the
//!   aggregate.
//! - [`session`]: session rotation, the capped history, and restoring.
//! - [`desktops`]: what is shown of a desktop, and the lists of desktops.
//! - [`switcher`]: the steps that lead from one space to another.
//! - [`windows`]: window labels, and reconciling windows with monitors.
//! - [`monitors`]: reading the monitor list when two sources disagree.
//! - [`tray`]: the rules behind the tray menu.
//! - [`text`], [`seqs`], [`maps`], [`ordered`]: numerals, and facts and
//!   helpers on sequences, hash maps and ordered maps.
//! - `clock`: the time of day and random identifiers, taken from outside.

mod clock;
pub mod commands;
pub mod desktops;
pub mod maps;
pub mod migrate;
pub mod monitors;
pub mod ordered;
pub mod seqs;
pub mod session;
pub mod spaces;
pub mod store;
pub mod switcher;
pub mod text;
pub mod tray;
pub mod windows;
