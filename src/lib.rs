//! Sampling, rate derivation and bounded history for a terminal system
//! monitor, together with the decisions of its fixed-tick refresh loop.
//!
//! Everything here works on plain integers handed in by the caller: the
//! caller reads the operating system's counters and the clock, and draws
//! the charts.

pub mod cpu;
pub mod history;
pub mod memory;
pub mod net;
pub mod rate;
pub mod scheduler;
pub mod select;
pub mod system;
