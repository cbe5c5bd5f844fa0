//! Bluetooth LE advertisement logic.

pub mod observe;
pub mod parse;
pub mod laws;
