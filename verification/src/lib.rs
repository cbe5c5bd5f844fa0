//! Blezer's verified core: decoding of BLE advertisement payloads into vendor
//! and device descriptions, normalisation of scanned advertisements into
//! observations, and the row logic of the observation store.

pub mod ble;
pub mod config;
pub mod model;
pub mod order;
pub mod report;
pub mod store;
pub mod text;
