//! Core engine of a status-line generator for i3/sway-style bars.
//!
//! The crate holds the shared bar state, the powerline rendering and
//! colour-adjustment algorithm, the JSON encoding of bar snapshots, the
//! event-routing and pagination helpers, and the pure parts of the bundled
//! bar items (CPU load and network interfaces).  The surrounding process
//! (I/O, timers, system probes) lives outside this crate and drives it
//! with plain values.

pub mod bar;
pub mod bar_items;
pub mod color;
pub mod context;
pub mod format;
pub mod i3;
pub mod json;
pub mod net;
pub mod text;
pub mod theme;
