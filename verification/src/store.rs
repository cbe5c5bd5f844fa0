//! Row logic of the observation store: the JSON columns written for an
//! observation, and the device report built from a stored device row. The
//! SQL itself runs outside the library.

use vstd::prelude::*;
use vstd::string::*;
use std::collections::BTreeMap;
use crate::ble::parse::{
    best_effort_model, has_rotating_find_my_identity, opt_string_view, spec_best_effort_model,
    spec_has_rotating_find_my_identity,
};
use crate::ble::observe::or_else;
use crate::model::{DeviceJson, Observation};
use crate::order::{strictly_sorted, entry_keys};
use crate::text::{hex_bytes, hex_upper, string_views};

verus! {

/// `serde_json::Error`, carried through unopened.
#[verifier::external_type_specification]
#[verifier::external_body]
pub struct ExJsonError(serde_json::Error);

/// The views of a string table.
pub open spec fn pair_views(m: Seq<(String, String)>) -> Seq<(Seq<char>, Seq<char>)> {
    m.map_values(|e: (String, String)| (e.0@, e.1@))
}

/// The JSON text `serde_json::to_string` gives for a list of strings.
pub uninterp spec fn json_text_of_list(items: Seq<Seq<char>>) -> Seq<char>;

/// The JSON text `serde_json::to_string` gives for a string-to-string map
/// with the given entries.
pub uninterp spec fn json_text_of_object(entries: Seq<(Seq<char>, Seq<char>)>) -> Seq<char>;

/// The list of strings `serde_json::from_str` reads from a text, if it reads one.
pub uninterp spec fn parsed_list(text: Seq<char>) -> Option<Seq<Seq<char>>>;

/// The entries, in key order, of the string-to-string map `serde_json::from_str`
/// reads from a text, if it reads one.
pub uninterp spec fn parsed_object(text: Seq<char>) -> Option<Seq<(Seq<char>, Seq<char>)>>;

/// `serde_json::to_string` of a list of strings. Claimed: it succeeds (a list
/// of strings has no map with non-string keys, and their `Serialize` never
/// fails), its text is the name `json_text_of_list` of the items, and
/// `serde_json::from_str` reads the same items back from it (strings are
/// escaped and unescaped exactly).
#[verifier::external_body]
fn json_list(items: &Vec<String>) -> (r: Result<String, serde_json::Error>)
    ensures
        match r {
            Ok(s) => s@ == json_text_of_list(string_views(items@)) && parsed_list(s@) == Some(
                string_views(items@),
            ),
            Err(_) => false,
        },
{
    serde_json::to_string(items)
}

/// `serde_json::to_string` of a string-to-string `BTreeMap` holding `entries`
/// (keys strictly increasing, so the map holds exactly these entries in this
/// order). Claimed: it succeeds (string keys), its text is the name
/// `json_text_of_object` of the entries, and `serde_json::from_str` reads the
/// same entries back from it.
#[verifier::external_body]
fn json_object(entries: &Vec<(String, String)>) -> (r: Result<String, serde_json::Error>)
    requires
        strictly_sorted(entry_keys(entries@)),
    ensures
        match r {
            Ok(s) => s@ == json_text_of_object(pair_views(entries@)) && parsed_object(s@) == Some(
                pair_views(entries@),
            ),
            Err(_) => false,
        },
{
    let map: BTreeMap<&str, &str> = entries.iter().map(|e| (e.0.as_str(), e.1.as_str())).collect();
    serde_json::to_string(&map)
}

/// `serde_json::from_str` into a list of strings. Claimed: its outcome is the
/// name `parsed_list` of the text.
#[verifier::external_body]
fn parse_json_list(text: &str) -> (r: Result<Vec<String>, serde_json::Error>)
    ensures
        match r {
            Ok(v) => parsed_list(text@) == Some(string_views(v@)),
            Err(_) => parsed_list(text@) is None,
        },
{
    serde_json::from_str::<Vec<String>>(text)
}

/// `serde_json::from_str` into a string-to-string `BTreeMap`, whose entries
/// are handed out in key order. Claimed: its outcome is the name
/// `parsed_object` of the text, and the keys come strictly increasing (the
/// iteration order of a `BTreeMap`).
#[verifier::external_body]
fn parse_json_object(text: &str) -> (r: Result<Vec<(String, String)>, serde_json::Error>)
    ensures
        match r {
            Ok(v) => parsed_object(text@) == Some(pair_views(v@)) && strictly_sorted(
                entry_keys(v@),
            ),
            Err(_) => parsed_object(text@) is None,
        },
{
    match serde_json::from_str::<BTreeMap<String, String>>(text) {
        Ok(m) => Ok(m.into_iter().collect()),
        Err(e) => Err(e),
    }
}

/// The JSON columns stored with an observation: its service UUIDs as a JSON
/// list and its service data as a JSON object (`[]` / `{}` should encoding fail).
pub fn observation_columns(o: &Observation) -> (r: (String, String))
    requires
        strictly_sorted(entry_keys(o.service_data@)),
    ensures
        r.0@ == json_text_of_list(string_views(o.service_uuids@)),
        r.1@ == json_text_of_object(pair_views(o.service_data@)),
        parsed_list(r.0@) == Some(string_views(o.service_uuids@)),
        parsed_object(r.1@) == Some(pair_views(o.service_data@)),
{
    let services = match json_list(&o.service_uuids) {
        Ok(s) => s,
        Err(_) => String::from_str("[]"),
    };
    let data = match json_object(&o.service_data) {
        Ok(s) => s,
        Err(_) => String::from_str("{}"),
    };
    (services, data)
}

/// A device row as read from the store, joined with the device's latest
/// observation that carried a manufacturer payload.
pub struct StoredDevice {
    pub id: String,
    pub address_type: Option<String>,
    pub vendor: Option<String>,
    /// The model stored when the device was last written.
    pub model: Option<String>,
    pub local_name: Option<String>,
    pub first_seen: i64,
    pub last_seen: i64,
    pub seen_count: i64,
    pub last_rssi: Option<i16>,
    pub company_id: Option<u16>,
    pub raw_mfg_data: Option<Vec<u8>>,
    /// Stored JSON list of service UUIDs.
    pub service_uuids_json: Option<String>,
    /// Stored JSON object of service data.
    pub service_data_json: Option<String>,
}

/// The text of an optional column, empty when absent.
pub open spec fn text_or_empty(o: Option<String>) -> Seq<char> {
    match o {
        Some(s) => s@,
        None => Seq::empty(),
    }
}

/// The decoded model of the row's manufacturer evidence, if any.
pub open spec fn decoded_model(company_id: Option<u16>, raw: Option<Vec<u8>>) -> Option<Seq<char>> {
    match (company_id, raw) {
        (Some(c), Some(r)) => spec_best_effort_model(c, r@),
        _ => None,
    }
}

/// The service UUIDs a stored JSON column reads as (none when unreadable).
pub open spec fn stored_uuids(json: Option<String>) -> Seq<Seq<char>> {
    match parsed_list(text_or_empty(json)) {
        Some(v) => v,
        None => Seq::empty(),
    }
}

/// The service data a stored JSON column reads as (none when unreadable).
pub open spec fn stored_service_data(json: Option<String>) -> Seq<(Seq<char>, Seq<char>)> {
    match parsed_object(text_or_empty(json)) {
        Some(v) => v,
        None => Seq::empty(),
    }
}

/// The report of a stored device: the model is decoded afresh from the
/// latest manufacturer payload (so decoder improvements reach old rows),
/// falling back to the stored model.
pub open spec fn device_report(row: StoredDevice, d: DeviceJson) -> bool {
    &&& d.id@ == row.id@
    &&& d.address_type@ == text_or_empty(row.address_type)
    &&& opt_string_view(d.vendor) == opt_string_view(row.vendor)
    &&& opt_string_view(d.model) == or_else(
        decoded_model(row.company_id, row.raw_mfg_data),
        opt_string_view(row.model),
    )
    &&& opt_string_view(d.local_name) == opt_string_view(row.local_name)
    &&& d.first_seen == row.first_seen
    &&& d.last_seen == row.last_seen
    &&& d.seen_count == row.seen_count
    &&& d.last_rssi == row.last_rssi
    &&& d.company_id == row.company_id
    &&& opt_string_view(d.raw_mfg_hex) == match row.raw_mfg_data {
        Some(r) => Some(hex_bytes(r@)),
        None => None,
    }
    &&& string_views(d.service_uuids@) == stored_uuids(row.service_uuids_json)
    &&& pair_views(d.service_data@) == stored_service_data(row.service_data_json)
    &&& strictly_sorted(entry_keys(d.service_data@))
    &&& d.rotating_id == match (row.company_id, row.raw_mfg_data) {
        (Some(c), Some(r)) => spec_has_rotating_find_my_identity(c, r@),
        _ => false,
    }
}

fn text_of(o: &Option<String>) -> (r: String)
    ensures
        r@ == text_or_empty(*o),
{
    match o {
        Some(s) => s.clone(),
        None => String::new(),
    }
}

/// Builds the report of a stored device row.
pub fn device_from_row(row: StoredDevice) -> (d: DeviceJson)
    ensures
        device_report(row, d),
{
    let ghost r0 = row;
    let (decoded, rotating_id) = match (&row.company_id, &row.raw_mfg_data) {
        (Some(cid), Some(raw)) => (
            best_effort_model(*cid, raw.as_slice()),
            has_rotating_find_my_identity(*cid, raw.as_slice()),
        ),
        _ => (None, false),
    };
    let model = match decoded {
        Some(m) => Some(m),
        None => row.model,
    };
    let raw_mfg_hex = match &row.raw_mfg_data {
        Some(raw) => Some(hex_upper(raw.as_slice())),
        None => None,
    };
    let uuids_text = text_of(&row.service_uuids_json);
    let service_uuids = match parse_json_list(uuids_text.as_str()) {
        Ok(v) => v,
        Err(_) => {
            let v: Vec<String> = Vec::new();
            assert(string_views(v@) =~= Seq::<Seq<char>>::empty());
            v
        },
    };
    let data_text = text_of(&row.service_data_json);
    let service_data = match parse_json_object(data_text.as_str()) {
        Ok(v) => v,
        Err(_) => {
            let v: Vec<(String, String)> = Vec::new();
            assert(pair_views(v@) =~= Seq::<(Seq<char>, Seq<char>)>::empty());
            assert(entry_keys(v@) =~= Seq::<Seq<char>>::empty());
            v
        },
    };
    let d = DeviceJson {
        id: row.id,
        address_type: text_of(&row.address_type),
        vendor: row.vendor,
        model,
        local_name: row.local_name,
        first_seen: row.first_seen,
        last_seen: row.last_seen,
        seen_count: row.seen_count,
        last_rssi: row.last_rssi,
        company_id: row.company_id,
        raw_mfg_hex,
        service_uuids,
        service_data,
        rotating_id,
    };
    d
}


/// A device report carries the stored row's identity, names, vendor, times,
/// hit count, last RSSI and company id unchanged.
pub proof fn law_report_keeps_row_fields(row: StoredDevice, d: DeviceJson)
    requires
        device_report(row, d),
    ensures
        d.id@ == row.id@,
        opt_string_view(d.local_name) == opt_string_view(row.local_name),
        opt_string_view(d.vendor) == opt_string_view(row.vendor),
        d.first_seen == row.first_seen,
        d.last_seen == row.last_seen,
        d.seen_count == row.seen_count,
        d.last_rssi == row.last_rssi,
        d.company_id == row.company_id,
        decoded_model(row.company_id, row.raw_mfg_data) is None ==> opt_string_view(d.model)
            == opt_string_view(row.model),
{
}

} // verus!
