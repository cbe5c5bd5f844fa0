use blezer::model::DeviceJson;
use blezer::report::{device_label, truncate};

fn device() -> DeviceJson {
    DeviceJson {
        id: "x".to_string(),
        address_type: "uuid".to_string(),
        vendor: None,
        model: None,
        local_name: None,
        first_seen: 0,
        last_seen: 0,
        seen_count: 1,
        last_rssi: None,
        company_id: None,
        raw_mfg_hex: None,
        service_uuids: Vec::new(),
        service_data: Vec::new(),
        rotating_id: false,
    }
}

#[test]
fn truncate_keeps_short_strings() {
    assert_eq!(truncate("AirPods", 48), "AirPods");
    assert_eq!(truncate("abc", 3), "abc");
}

#[test]
fn truncate_counts_characters() {
    assert_eq!(truncate("abcdef", 4), "abc…");
    assert_eq!(truncate("個人熱點裝置", 3), "個人…");
    assert_eq!(truncate("ab", 0), "…");
    assert_eq!(truncate("", 0), "");
}

#[test]
fn label_prefers_name_then_model() {
    let mut d = device();
    assert_eq!(device_label(&d), "(未知)");
    d.vendor = Some("Apple".to_string());
    assert_eq!(device_label(&d), "Apple");
    d.model = Some("AirPods 4".to_string());
    assert_eq!(device_label(&d), "AirPods 4");
    d.local_name = Some("Headphones".to_string());
    assert_eq!(device_label(&d), "Headphones · AirPods 4");
    d.model = Some("Headphones".to_string());
    assert_eq!(device_label(&d), "Headphones");
    d.model = None;
    assert_eq!(device_label(&d), "Headphones");
}
