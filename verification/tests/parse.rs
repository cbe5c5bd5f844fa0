use blezer::ble::parse::{
    best_effort_model, has_rotating_find_my_identity, primary_manufacturer, vendor_name,
};
use std::collections::HashMap;

#[test]
fn decodes_airpods_pro_with_battery() {
    // AirPods Pro proximity pairing: PID bytes 0E 20 => little-endian 0x200E.
    let mut payload = vec![0x07, 0x19, 0x01, 0x0E, 0x20, 0x55, 0x87, 0x01, 0x02, 0x00];
    payload.extend_from_slice(&[0u8; 16]); // 16-byte encrypted part
    let m = best_effort_model(0x004C, &payload).unwrap();
    assert!(m.starts_with("AirPods Pro"), "got {m}");
    assert!(m.contains("L70% R80%"), "got {m}"); // 0x87 -> right 8 = 80%, left 7 = 70%
    assert!(m.contains("盒10%"), "got {m}"); // 0x01 low nibble = 1 -> case 10%
}

#[test]
fn decodes_charging_flags() {
    // battery = 0x99 (L/R 90%), charge = 0x35 -> flags 0x3 (right + left charging), case 0x5 = 50%
    let mut payload = vec![0x07, 0x19, 0x01, 0x0E, 0x20, 0x55, 0x99, 0x35, 0x02, 0x00];
    payload.extend_from_slice(&[0u8; 16]);
    let m = best_effort_model(0x004C, &payload).unwrap();
    assert!(m.contains("L90%⚡"), "got {m}");
    assert!(m.contains("R90%⚡"), "got {m}");
    assert!(m.contains("盒50%"), "got {m}");
    assert!(!m.contains("盒50%⚡"), "case not charging: {m}");
}

#[test]
fn iphone_nearby_has_no_model_or_name() {
    // Nearby (0x10): activity flags, but neither model nor name.
    let payload = vec![0x10, 0x05, 0x01, 0x00, 0x00, 0x00, 0x00];
    assert_eq!(
        best_effort_model(0x004C, &payload).as_deref(),
        Some("Apple Nearby (iPhone/iPad)")
    );
}

#[test]
fn prefers_airpods_details_over_find_my_prefix() {
    // A real capture: Find My nearby first, then AirPods 4 in the same payload.
    let payload = [
        0x12, 0x02, 0x6E, 0x02, 0x07, 0x11, 0x06, 0x1C, 0x20, 0x0D, 0x39, 0xE4, 0xE4, 0x51,
        0x0A, 0x00, 0x00, 0x00, 0x00, 0x6F, 0x20, 0x07, 0x00,
    ];
    let m = best_effort_model(0x004C, &payload).unwrap();
    assert!(m.starts_with("AirPods 4"), "got {m}");
    assert!(m.contains("L90%"), "got {m}");
    assert!(has_rotating_find_my_identity(0x004C, &payload));
}

#[test]
fn decodes_find_my_nearby_status() {
    let maintained = best_effort_model(0x004C, &[0x12, 0x02, 0x24, 0x03]).unwrap();
    assert!(maintained.contains("授權第三方"), "got {maintained}");
    assert!(maintained.contains("附近"), "got {maintained}");
    assert!(maintained.contains("電量充足"), "got {maintained}");
    assert!(
        maintained.contains("15 分鐘內曾連線擁有者"),
        "got {maintained}"
    );

    let apple = best_effort_model(0x004C, &[0x12, 0x02, 0x00, 0x01]).unwrap();
    assert!(apple.starts_with("Apple 裝置"), "got {apple}");
}

#[test]
fn decodes_find_my_separated_airpods() {
    let mut payload = vec![0x12, 0x19, 0x79]; // AirPods + medium battery + maintained
    payload.extend_from_slice(&[0xAB; 22]);
    payload.extend_from_slice(&[0x02, 0x00]); // key overflow + hint
    let m = best_effort_model(0x004C, &payload).unwrap();
    assert!(m.starts_with("AirPods"), "got {m}");
    assert!(m.contains("分離／離線"), "got {m}");
    assert!(m.contains("電量中等"), "got {m}");
}

#[test]
fn truncated_apple_tlv_is_safe() {
    assert_eq!(
        best_effort_model(0x004C, &[0x12, 0x19, 0x10]).as_deref(),
        Some("AirTag · 尋找「分離／離線」 · 電量充足")
    );
    assert_eq!(best_effort_model(0x004C, &[0x07]), None);
}

#[test]
fn vendor_lookup() {
    assert_eq!(vendor_name(0x004C), Some("Apple"));
    assert_eq!(vendor_name(0xFFFF), None);
}

// ───────── further cases ─────────

#[test]
fn vendor_table_entries() {
    assert_eq!(vendor_name(0x0006), Some("Microsoft"));
    assert_eq!(vendor_name(0x0059), Some("Nordic Semiconductor"));
    assert_eq!(vendor_name(0x004F), Some("APT (soundcore)"));
    assert_eq!(vendor_name(0x0110), Some("Nippon Seiki"));
    assert_eq!(vendor_name(0x0000), None);
}

#[test]
fn exact_airpods_pro_description() {
    let mut payload = vec![0x07, 0x19, 0x01, 0x0E, 0x20, 0x55, 0x87, 0x01, 0x02, 0x00];
    payload.extend_from_slice(&[0u8; 16]);
    assert_eq!(
        best_effort_model(0x004C, &payload).as_deref(),
        Some("AirPods Pro (1st gen) · L70% R80% 盒10%")
    );
}

#[test]
fn unknown_audio_pid_shows_hex_id() {
    // PID 0x2ABC is not in the table; no battery bytes.
    let payload = [0x07, 0x03, 0x01, 0xBC, 0x2A];
    assert_eq!(
        best_effort_model(0x004C, &payload).as_deref(),
        Some("Apple/Beats 音訊裝置 (PID 0x2ABC)")
    );
}

#[test]
fn unknown_battery_nibbles_are_left_out() {
    // battery 0xFF: both ears unknown; charge 0x4F: case unknown, case flag set.
    let payload = [0x07, 0x06, 0x01, 0x11, 0x20, 0x00, 0xFF, 0x4F];
    assert_eq!(
        best_effort_model(0x004C, &payload).as_deref(),
        Some("Beats Studio Buds")
    );
}

#[test]
fn battery_levels_above_ten_read_as_full() {
    // battery 0xCB: right 0xC -> 100%, left 0xB -> 100%; case level 0xA -> 100%, case charging.
    let payload = [0x07, 0x06, 0x01, 0x12, 0x20, 0x00, 0xCB, 0x4A];
    assert_eq!(
        best_effort_model(0x004C, &payload).as_deref(),
        Some("Beats Fit Pro · L100% R100% 盒100%⚡")
    );
}

#[test]
fn short_proximity_pairing_is_not_audio() {
    // a 0x07 message with only two value bytes has no product id and no label.
    assert_eq!(best_effort_model(0x004C, &[0x07, 0x02, 0x01, 0x0E]), None);
}

#[test]
fn non_apple_payloads_are_not_decoded() {
    let payload = [0x10, 0x05, 0x01, 0x00, 0x00, 0x00, 0x00];
    assert_eq!(best_effort_model(0x0006, &payload), None);
    assert!(!has_rotating_find_my_identity(0x0006, &[0x12, 0x02, 0x00, 0x01]));
}

#[test]
fn first_label_is_kept_over_later_labels() {
    // Handoff, then Nearby: the first label wins.
    let payload = [0x0C, 0x01, 0x00, 0x10, 0x01, 0x00];
    assert_eq!(best_effort_model(0x004C, &payload).as_deref(), Some("Apple Handoff"));
}

#[test]
fn find_my_status_outranks_labels_before_and_after() {
    let before = [0x10, 0x01, 0x00, 0x12, 0x02, 0x00, 0x01];
    assert_eq!(
        best_effort_model(0x004C, &before).as_deref(),
        Some("Apple 裝置 · 尋找「附近」 · 電量充足")
    );
    let after = [0x12, 0x02, 0xC0, 0x01, 0x0C, 0x01, 0x00];
    assert_eq!(
        best_effort_model(0x004C, &after).as_deref(),
        Some("Apple 裝置 · 尋找「附近」 · 電量極低")
    );
}

#[test]
fn later_find_my_status_replaces_earlier_one() {
    let payload = [0x12, 0x02, 0x10, 0x00, 0x12, 0x02, 0xB0, 0x00];
    assert_eq!(
        best_effort_model(0x004C, &payload).as_deref(),
        Some("AirPods · 尋找「附近」 · 電量偏低")
    );
}

#[test]
fn find_my_with_other_length_is_not_rotating() {
    let payload = [0x12, 0x03, 0x10, 0x00, 0x00];
    assert!(!has_rotating_find_my_identity(0x004C, &payload));
    assert_eq!(best_effort_model(0x004C, &payload).as_deref(), Some("Apple Find My"));
    // the status byte is missing: rotating, but only the category can be told
    assert!(has_rotating_find_my_identity(0x004C, &[0x12, 0x02]));
    assert_eq!(best_effort_model(0x004C, &[0x12, 0x02]).as_deref(), Some("Apple Find My"));
}

#[test]
fn undecodable_find_my_reads_as_category() {
    assert_eq!(
        best_effort_model(0x004C, &[0x12, 0x03, 0x00, 0x00, 0x00]).as_deref(),
        Some("Apple Find My")
    );
    // a readable Find My status later in the payload still wins over the category
    assert_eq!(
        best_effort_model(0x004C, &[0x12, 0x03, 0x00, 0x00, 0x00, 0x12, 0x02, 0x10, 0x00]).as_deref(),
        Some("AirTag · 尋找「附近」 · 電量充足")
    );
    // the category keeps a later label from replacing it
    assert_eq!(
        best_effort_model(0x004C, &[0x12, 0x00, 0x10, 0x00]).as_deref(),
        Some("Apple Find My")
    );
}

#[test]
fn bytes_after_proximity_pairing_are_ignored() {
    let p = [0x07, 0x03, 0x01, 0x0E, 0x20];
    let mut pq = p.to_vec();
    pq.extend_from_slice(&[0x12, 0x02, 0x10, 0x00, 0x10, 0x00]);
    assert_eq!(best_effort_model(0x004C, &pq), best_effort_model(0x004C, &p));
    assert_eq!(best_effort_model(0x004C, &p).as_deref(), Some("AirPods Pro (1st gen)"));
}

#[test]
fn other_labels() {
    assert_eq!(best_effort_model(0x004C, &[0x02, 0x00]).as_deref(), Some("Apple iBeacon"));
    assert_eq!(best_effort_model(0x004C, &[0x05, 0x00]).as_deref(), Some("Apple AirDrop"));
    assert_eq!(best_effort_model(0x004C, &[0x09, 0x00]).as_deref(), Some("Apple AirPlay"));
    assert_eq!(best_effort_model(0x004C, &[0x0D, 0x00]).as_deref(), Some("Apple 個人熱點"));
    assert_eq!(best_effort_model(0x004C, &[0x0E, 0x00]).as_deref(), Some("Apple Nearby Action"));
    assert_eq!(best_effort_model(0x004C, &[0x0F, 0x00]).as_deref(), Some("Apple Nearby Action"));
    assert_eq!(best_effort_model(0x004C, &[]), None);
}

#[test]
fn primary_manufacturer_prefers_apple() {
    let mut mfg: HashMap<u16, Vec<u8>> = HashMap::new();
    mfg.insert(0x0006, vec![1, 2]);
    mfg.insert(0x004C, vec![3]);
    mfg.insert(0x0075, vec![4]);
    assert_eq!(primary_manufacturer(&mfg), Some((0x004C, &[3u8][..])));
}

#[test]
fn primary_manufacturer_without_apple() {
    let mut mfg: HashMap<u16, Vec<u8>> = HashMap::new();
    assert_eq!(primary_manufacturer(&mfg), None);
    mfg.insert(0x0006, vec![1, 2]);
    assert_eq!(primary_manufacturer(&mfg), Some((0x0006, &[1u8, 2][..])));
    mfg.insert(0x0075, vec![4]);
    let (k, v) = primary_manufacturer(&mfg).unwrap();
    assert!(k == 0x0006 || k == 0x0075);
    assert_eq!(v, mfg[&k].as_slice());
}
