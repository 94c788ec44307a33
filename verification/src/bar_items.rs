//! The pure cores of the bundled bar items.  Their polling loops (system
//! probes, timers, bus subscriptions) run outside this crate and feed
//! these functions plain values.

pub mod cpu;
pub mod nic;
