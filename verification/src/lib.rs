//! Core of a desktop hardware monitor: bounded rolling histories of CPU,
//! memory and GPU samples, per-process smoothed usage, hardware identity
//! records assembled from raw query results, display formatting, and the
//! user-preference record with its persisted JSON form. Everything that
//! decides or computes lives here; reading the hardware, the clock, the
//! settings file and the screen is the surrounding application's job, which
//! hands plain values in and takes plain values out.

pub mod codec;
pub mod color;
pub mod history;
pub mod hwinfo;
pub mod jsontext;
pub mod metrics;
pub mod procs;
pub mod settings;
pub mod textfmt;

use vstd::prelude::*;

verus! {

/// Number of samples a metric history retains: one per sampling tick,
/// so sixty seconds of history at the one-second cadence.
pub const HISTORY_CAPACITY: usize = 60;

} // verus!
