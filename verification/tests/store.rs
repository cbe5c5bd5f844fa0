use blezer::ble::observe::{normalize, Advertisement};
use blezer::store::{device_from_row, observation_columns, StoredDevice};
use std::collections::HashMap;

fn row() -> StoredDevice {
    StoredDevice {
        id: "dev".to_string(),
        address_type: Some("uuid".to_string()),
        vendor: Some("Apple".to_string()),
        model: Some("stored model".to_string()),
        local_name: None,
        first_seen: 10,
        last_seen: 20,
        seen_count: 3,
        last_rssi: Some(-70),
        company_id: None,
        raw_mfg_data: None,
        service_uuids_json: None,
        service_data_json: None,
    }
}

#[test]
fn row_without_payload_keeps_stored_model() {
    let d = device_from_row(row());
    assert_eq!(d.id, "dev");
    assert_eq!(d.address_type, "uuid");
    assert_eq!(d.vendor.as_deref(), Some("Apple"));
    assert_eq!(d.model.as_deref(), Some("stored model"));
    assert_eq!(d.first_seen, 10);
    assert_eq!(d.last_seen, 20);
    assert_eq!(d.seen_count, 3);
    assert_eq!(d.last_rssi, Some(-70));
    assert_eq!(d.raw_mfg_hex, None);
    assert!(d.service_uuids.is_empty());
    assert!(d.service_data.is_empty());
    assert!(!d.rotating_id);
}

#[test]
fn row_payload_is_decoded_afresh() {
    let mut r = row();
    r.company_id = Some(0x004C);
    r.raw_mfg_data = Some(vec![0x12, 0x02, 0x24, 0x03]);
    r.address_type = None;
    let d = device_from_row(r);
    assert_eq!(d.address_type, "");
    assert!(d.model.as_deref().unwrap().contains("授權第三方"));
    assert_eq!(d.raw_mfg_hex.as_deref(), Some("12022403"));
    assert!(d.rotating_id);
}

#[test]
fn row_payload_without_description_keeps_stored_model() {
    let mut r = row();
    r.company_id = Some(0x0006);
    r.raw_mfg_data = Some(vec![0x01, 0x09]);
    let d = device_from_row(r);
    assert_eq!(d.model.as_deref(), Some("stored model"));
    assert_eq!(d.raw_mfg_hex.as_deref(), Some("0109"));
    assert!(!d.rotating_id);
}

#[test]
fn json_columns_are_read() {
    let mut r = row();
    r.service_uuids_json = Some("[\"180a\",\"fe9f\"]".to_string());
    r.service_data_json = Some("{\"fe9f\":\"0A\",\"180a\":\"\"}".to_string());
    let d = device_from_row(r);
    assert_eq!(d.service_uuids, vec!["180a".to_string(), "fe9f".to_string()]);
    assert_eq!(
        d.service_data,
        vec![("180a".to_string(), String::new()), ("fe9f".to_string(), "0A".to_string())]
    );
}

#[test]
fn unreadable_json_columns_read_as_empty() {
    let mut r = row();
    r.service_uuids_json = Some("not json".to_string());
    r.service_data_json = Some("[1,2]".to_string());
    let d = device_from_row(r);
    assert!(d.service_uuids.is_empty());
    assert!(d.service_data.is_empty());
}

#[test]
fn written_columns_read_back() {
    let ad = Advertisement {
        local_name: None,
        rssi: None,
        tx_power_level: None,
        manufacturer_data: HashMap::new(),
        services: vec!["b\"q".to_string(), "a".to_string()],
        service_data: vec![("c".to_string(), vec![0xDE, 0xAD])],
    };
    let o = normalize("d".to_string(), "uuid", 0, &ad);
    let (services, data) = observation_columns(&o);
    assert_eq!(services, "[\"a\",\"b\\\"q\",\"c\"]");
    assert_eq!(data, "{\"c\":\"DEAD\"}");
    let mut r = row();
    r.service_uuids_json = Some(services);
    r.service_data_json = Some(data);
    let d = device_from_row(r);
    assert_eq!(d.service_uuids, o.service_uuids);
    assert_eq!(d.service_data, o.service_data);
}
