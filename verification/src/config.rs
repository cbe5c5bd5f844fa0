//! Defaults; command-line options override them.

use vstd::prelude::*;

verus! {

/// Port of the web dashboard.
pub const DEFAULT_PORT: u16 = 8080;

/// Shortest interval between two stored observations of one device, in seconds.
/// `DeviceUpdated` events are dense; this throttle keeps the observations
/// table from blowing up.
pub const OBSERVATION_THROTTLE_SECS: u64 = 2;

/// Default time window of the device list, in seconds.
pub const DEFAULT_DEVICE_WINDOW_SECS: i64 = 300;

/// Default time window of the census statistics, in seconds.
pub const DEFAULT_STATS_WINDOW_SECS: i64 = 3600;

} // verus!
