use blezer::ble::observe::{normalize, service_data_hex, service_uuid_union, vendor_display, Advertisement, WriteThrottle};
use std::collections::HashMap;

fn advert() -> Advertisement {
    Advertisement {
        local_name: None,
        rssi: None,
        tx_power_level: None,
        manufacturer_data: HashMap::new(),
        services: Vec::new(),
        service_data: Vec::new(),
    }
}

#[test]
fn normalizes_apple_advertisement() {
    let mut ad = advert();
    ad.rssi = Some(-60);
    ad.tx_power_level = Some(8);
    ad.manufacturer_data.insert(0x004C, vec![0x10, 0x05, 0x01, 0x00, 0x00, 0x00, 0x00]);
    ad.manufacturer_data.insert(0x0006, vec![0x01]);
    let o = normalize("dev-1".to_string(), "uuid", 1_700_000_000, &ad);
    assert_eq!(o.device_id, "dev-1");
    assert_eq!(o.address_type, "uuid");
    assert_eq!(o.ts, 1_700_000_000);
    assert_eq!(o.rssi, Some(-60));
    assert_eq!(o.tx_power, Some(8));
    assert_eq!(o.company_id, Some(0x004C));
    assert_eq!(o.vendor.as_deref(), Some("Apple"));
    assert_eq!(o.model.as_deref(), Some("Apple Nearby (iPhone/iPad)"));
    assert_eq!(o.raw_mfg_data, Some(vec![0x10, 0x05, 0x01, 0x00, 0x00, 0x00, 0x00]));
    assert_eq!(o.local_name, None);
}

#[test]
fn unknown_vendor_shows_company_id_and_local_name_is_model() {
    let mut ad = advert();
    ad.local_name = Some("Mi Smart Band 6".to_string());
    ad.manufacturer_data.insert(0x1234, vec![0xAA, 0xBB]);
    let o = normalize("dev-2".to_string(), "mac", 5, &ad);
    assert_eq!(o.company_id, Some(0x1234));
    assert_eq!(o.vendor.as_deref(), Some("0x1234"));
    assert_eq!(o.model.as_deref(), Some("Mi Smart Band 6"));
    assert_eq!(o.local_name.as_deref(), Some("Mi Smart Band 6"));
    assert_eq!(o.raw_mfg_data, Some(vec![0xAA, 0xBB]));
}

#[test]
fn no_manufacturer_data() {
    let mut ad = advert();
    ad.local_name = Some("Forerunner 935".to_string());
    let o = normalize("dev-3".to_string(), "mac", 5, &ad);
    assert_eq!(o.company_id, None);
    assert_eq!(o.vendor, None);
    assert_eq!(o.raw_mfg_data, None);
    assert_eq!(o.model.as_deref(), Some("Forerunner 935"));
}

#[test]
fn rssi_sentinel_and_positive_values_are_dropped() {
    let mut ad = advert();
    ad.rssi = Some(127);
    assert_eq!(normalize("d".to_string(), "uuid", 0, &ad).rssi, None);
    ad.rssi = Some(1);
    assert_eq!(normalize("d".to_string(), "uuid", 0, &ad).rssi, None);
    ad.rssi = Some(0);
    assert_eq!(normalize("d".to_string(), "uuid", 0, &ad).rssi, Some(0));
}

#[test]
fn service_uuids_are_sorted_union() {
    let services = vec!["180f".to_string(), "180a".to_string(), "180f".to_string()];
    let data = vec![("fe9f".to_string(), vec![1u8]), ("180a".to_string(), vec![2u8])];
    assert_eq!(
        service_uuid_union(&services, &data),
        vec!["180a".to_string(), "180f".to_string(), "fe9f".to_string()]
    );
}

#[test]
fn service_data_is_hex_by_uuid() {
    let data = vec![
        ("fe9f".to_string(), vec![0x0A, 0xFF]),
        ("180a".to_string(), vec![]),
        ("fe9f".to_string(), vec![0x01]),
    ];
    assert_eq!(
        service_data_hex(&data),
        vec![
            ("180a".to_string(), String::new()),
            ("fe9f".to_string(), "01".to_string()),
        ]
    );
}

#[test]
fn normalize_fills_service_fields() {
    let mut ad = advert();
    ad.services = vec!["b".to_string(), "a".to_string()];
    ad.service_data = vec![("c".to_string(), vec![0xDE, 0xAD])];
    let o = normalize("d".to_string(), "uuid", 0, &ad);
    assert_eq!(o.service_uuids, vec!["a".to_string(), "b".to_string(), "c".to_string()]);
    assert_eq!(o.service_data, vec![("c".to_string(), "DEAD".to_string())]);
}

#[test]
fn vendor_display_names_and_hex() {
    assert_eq!(vendor_display(0x004C), "Apple");
    assert_eq!(vendor_display(0x02E5), "Espressif");
    assert_eq!(vendor_display(0xBEEF), "0xBEEF");
    assert_eq!(vendor_display(0x0000), "0x0000");
}

#[test]
fn throttle_waits_two_seconds_per_device() {
    let mut t = WriteThrottle::new();
    assert!(t.may_write("a", 0));
    t.record("a".to_string(), 1_000_000_000);
    assert!(!t.may_write("a", 1_000_000_000));
    assert!(!t.may_write("a", 2_999_999_999));
    assert!(t.may_write("a", 3_000_000_000));
    assert!(t.may_write("b", 1_000_000_001));
    t.record("a".to_string(), 3_000_000_000);
    assert!(!t.may_write("a", 4_000_000_000));
    assert!(t.may_write("a", 5_000_000_000));
}
