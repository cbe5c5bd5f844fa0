//! Data shared across the library: scanner observations and the rows the
//! dashboard and terminal report show.

use vstd::prelude::*;
use crate::order::{strictly_sorted, entry_keys};
use crate::text::string_views;

verus! {

/// One normalised observation from the scanner, ready to be stored.
#[derive(Debug, Clone)]
pub struct Observation {
    /// Device identifier: the CoreBluetooth UUID on macOS (it rotates), the MAC on Linux.
    pub device_id: String,
    /// `"uuid"` (macOS) or `"mac"` (Linux).
    pub address_type: &'static str,
    pub ts: i64,
    pub rssi: Option<i16>,
    pub tx_power: Option<i16>,
    /// SIG company id of the advertisement's primary manufacturer data.
    pub company_id: Option<u16>,
    pub vendor: Option<String>,
    pub model: Option<String>,
    pub local_name: Option<String>,
    /// Advertised service UUIDs, strictly sorted.
    pub service_uuids: Vec<String>,
    /// Service data: UUID and upper-case hex of the payload, strictly sorted by UUID.
    pub service_data: Vec<(String, String)>,
    /// Raw manufacturer payload, kept for later fingerprinting.
    pub raw_mfg_data: Option<Vec<u8>>,
}

impl Observation {
    /// Service UUIDs and service-data keys are strictly sorted (so distinct).
    pub open spec fn well_formed(&self) -> bool {
        &&& strictly_sorted(string_views(self.service_uuids@))
        &&& strictly_sorted(entry_keys(self.service_data@))
    }
}

/// One device as `/api/devices` reports it.
#[derive(Debug)]
pub struct DeviceJson {
    pub id: String,
    pub address_type: String,
    pub vendor: Option<String>,
    pub model: Option<String>,
    pub local_name: Option<String>,
    pub first_seen: i64,
    pub last_seen: i64,
    pub seen_count: i64,
    pub last_rssi: Option<i16>,
    /// Company id and raw evidence of the latest observation with a manufacturer payload.
    pub company_id: Option<u16>,
    pub raw_mfg_hex: Option<String>,
    pub service_uuids: Vec<String>,
    pub service_data: Vec<(String, String)>,
    /// Carries a Find My rolling identity; on macOS it may show up as several UUIDs.
    pub rotating_id: bool,
}

/// One RSSI sample of a device's history (`/api/devices/{id}`).
#[derive(Debug)]
pub struct ObsPoint {
    pub ts: i64,
    pub rssi: Option<i16>,
}

/// Device count of one vendor in a census window.
#[derive(Debug)]
pub struct VendorCount {
    pub vendor: String,
    pub count: i64,
}

} // verus!
