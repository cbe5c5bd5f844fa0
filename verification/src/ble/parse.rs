//! Advertisement decoding: SIG company id to vendor, and a best-effort
//! device description from the manufacturer payload.
//!
//! The vendor comes from the manufacturer data's SIG company id and is
//! reliable. The model string is best effort: a passive scan mostly yields a
//! device category, not an exact model; when nothing useful is found the
//! result is `None`.

use vstd::prelude::*;
use vstd::string::*;
use std::collections::HashMap;
use vstd::std_specs::iter::IteratorSpec;
use crate::text::{decimal, hex4, join_spaced, string_views, push_decimal, push_hex4, join_with_spaces};

verus! {

broadcast use vstd::std_specs::hash::group_hash_axioms;

/// SIG company identifier of Apple.
pub const APPLE_COMPANY_ID: u16 = 0x004C;

// ───────────────────────── vendors ─────────────────────────

/// The vendor table: common SIG company identifiers and their names.
pub open spec fn spec_vendor_name(company_id: u16) -> Option<Seq<char>> {
    match company_id {
        0x004C => Some("Apple"@),
        0x0006 => Some("Microsoft"@),
        0x0075 => Some("Samsung"@),
        0x00E0 => Some("Google"@),
        0x0087 => Some("Garmin"@),
        0x0157 => Some("Huawei"@),
        0x038F => Some("Xiaomi"@),
        0x0499 => Some("Ruuvi"@),
        0x0059 => Some("Nordic Semiconductor"@),
        0x02E5 => Some("Espressif"@),
        0x0001 => Some("Ericsson"@),
        0x000D => Some("Texas Instruments"@),
        0x004F => Some("APT (soundcore)"@),
        0x0110 => Some("Nippon Seiki"@),
        _ => None,
    }
}

/// The view of an optional string slice.
pub open spec fn opt_str_view(o: Option<&str>) -> Option<Seq<char>> {
    match o {
        Some(s) => Some(s@),
        None => None,
    }
}

/// The view of an optional string.
pub open spec fn opt_string_view(o: Option<String>) -> Option<Seq<char>> {
    match o {
        Some(s) => Some(s@),
        None => None,
    }
}

/// Name of a common BLE vendor from its SIG company identifier; `None` for
/// identifiers outside the table (callers then show `0xXXXX`).
pub fn vendor_name(company_id: u16) -> (r: Option<&'static str>)
    ensures
        opt_str_view(r) == spec_vendor_name(company_id),
{
    let name = match company_id {
        0x004C => "Apple",
        0x0006 => "Microsoft",
        0x0075 => "Samsung",
        0x00E0 => "Google",
        0x0087 => "Garmin",
        0x0157 => "Huawei",
        0x038F => "Xiaomi",
        0x0499 => "Ruuvi",
        0x0059 => "Nordic Semiconductor",
        0x02E5 => "Espressif",
        0x0001 => "Ericsson",
        0x000D => "Texas Instruments",
        0x004F => "APT (soundcore)",
        0x0110 => "Nippon Seiki",
        _ => return None,
    };
    Some(name)
}

// ───────────────────────── Apple Continuity records ─────────────────────────

/// One Continuity message of an Apple manufacturer payload: its type byte,
/// the length byte as declared, and the bytes actually present (a truncated
/// last message keeps what remains).
pub struct AppleRecord {
    pub kind: u8,
    pub declared_len: u8,
    pub value: Seq<u8>,
}

/// Where the message that starts at `i` ends: its declared end, cut at the
/// end of the payload.
pub open spec fn record_end(p: Seq<u8>, i: int) -> int {
    if i + 2 + p[i + 1] <= p.len() {
        i + 2 + p[i + 1]
    } else {
        p.len() as int
    }
}

/// The messages of `p` from offset `i` on: a message needs its type and
/// length bytes; a single trailing byte is ignored.
pub open spec fn records_from(p: Seq<u8>, i: int) -> Seq<AppleRecord>
    decreases p.len() - i,
{
    if i < 0 || i + 1 >= p.len() {
        Seq::empty()
    } else {
        let end = record_end(p, i);
        seq![AppleRecord { kind: p[i], declared_len: p[i + 1], value: p.subrange(i + 2, end) }]
            + records_from(p, end)
    }
}

/// The Continuity messages of an Apple manufacturer payload, in order.
pub open spec fn apple_records(p: Seq<u8>) -> Seq<AppleRecord> {
    records_from(p, 0)
}

/// A proximity-pairing message (AirPods / Beats) that carries its product id.
pub open spec fn is_audio(r: AppleRecord) -> bool {
    r.kind == 0x07 && r.value.len() >= 3
}

/// A Find My message whose length byte marks it as carrying a rolling key
/// (0x02: nearby, 0x19: separated).
pub open spec fn is_rotating_find_my(r: AppleRecord) -> bool {
    r.kind == 0x12 && (r.declared_len == 0x02 || r.declared_len == 0x19)
}

/// The category label of a message type, for types that have one. A Find My
/// message that carries no readable status reads as "Apple Find My".
pub open spec fn spec_label(kind: u8) -> Option<Seq<char>> {
    match kind {
        0x02 => Some("Apple iBeacon"@),
        0x05 => Some("Apple AirDrop"@),
        0x09 => Some("Apple AirPlay"@),
        0x0C => Some("Apple Handoff"@),
        0x0D => Some("Apple 個人熱點"@),
        0x0E => Some("Apple Nearby Action"@),
        0x0F => Some("Apple Nearby Action"@),
        0x10 => Some("Apple Nearby (iPhone/iPad)"@),
        0x12 => Some("Apple Find My"@),
        _ => None,
    }
}

// ───────────────────────── Find My ─────────────────────────

/// Device kind from status bits 4-5.
pub open spec fn find_my_kind(status: u8) -> Seq<char> {
    let k = (status as nat / 16) % 4;
    if k == 0 {
        "Apple 裝置"@
    } else if k == 1 {
        "AirTag"@
    } else if k == 2 {
        "Find My 配件（授權第三方）"@
    } else {
        "AirPods"@
    }
}

/// Battery level from status bits 6-7.
pub open spec fn find_my_battery(status: u8) -> Seq<char> {
    let b = status as nat / 64;
    if b == 0 {
        "充足"@
    } else if b == 1 {
        "中等"@
    } else if b == 2 {
        "偏低"@
    } else {
        "極低"@
    }
}

/// Status bit 2: the owner was connected during this key period.
pub open spec fn find_my_owner_seen(status: u8) -> bool {
    (status as nat / 4) % 2 == 1
}

/// Description of a Find My message; `None` unless its length byte is 0x02
/// or 0x19 and its status byte is present.
pub open spec fn spec_decode_find_my(declared_len: u8, value: Seq<u8>) -> Option<Seq<char>> {
    if !(declared_len == 0x02 || declared_len == 0x19) || value.len() == 0 {
        None
    } else {
        let status = value[0];
        let state = if declared_len == 0x02 { "附近"@ } else { "分離／離線"@ };
        let owner = if find_my_owner_seen(status) {
            " · 15 分鐘內曾連線擁有者"@
        } else {
            Seq::empty()
        };
        Some(find_my_kind(status) + " · 尋找「"@ + state + "」 · 電量"@ + find_my_battery(status)
            + owner)
    }
}

// ───────────────────────── proximity pairing ─────────────────────────

/// Apple Bluetooth product ids of AirPods / Beats models.
pub open spec fn spec_audio_model(pid: u16) -> Option<Seq<char>> {
    match pid {
        0x2002 => Some("AirPods (1st gen)"@),
        0x200F => Some("AirPods (2nd gen)"@),
        0x2013 => Some("AirPods (3rd gen)"@),
        0x2019 => Some("AirPods 4"@),
        0x201B => Some("AirPods 4"@),
        0x201C => Some("AirPods 4"@),
        0x201E => Some("AirPods 4"@),
        0x2020 => Some("AirPods 4"@),
        0x200E => Some("AirPods Pro (1st gen)"@),
        0x2014 => Some("AirPods Pro (2nd gen, Lightning)"@),
        0x2024 => Some("AirPods Pro (2nd gen, USB-C)"@),
        0x2027 => Some("AirPods Pro 3"@),
        0x200A => Some("AirPods Max (Lightning)"@),
        0x201F => Some("AirPods Max (USB-C)"@),
        0x202D => Some("AirPods Max 2"@),
        0x2003 => Some("Powerbeats 3"@),
        0x200B => Some("Powerbeats Pro"@),
        0x200C => Some("Beats Solo Pro"@),
        0x200D => Some("Powerbeats 4"@),
        0x2010 => Some("Beats Flex"@),
        0x2005 => Some("BeatsX"@),
        0x2006 => Some("Beats Solo 3"@),
        0x2009 => Some("Beats Studio 3"@),
        0x2011 => Some("Beats Studio Buds"@),
        0x2012 => Some("Beats Fit Pro"@),
        0x2016 => Some("Beats Studio Buds +"@),
        0x2017 => Some("Beats Studio Pro"@),
        0x201A => Some("Beats Pill 3"@),
        0x2025 => Some("Beats Solo 4"@),
        0x2026 => Some("Beats Solo Buds"@),
        0x2600 => Some("Beats Pill +"@),
        _ => None,
    }
}

/// The product id of a proximity-pairing message: bytes 1 and 2, little-endian.
pub open spec fn audio_pid(value: Seq<u8>) -> u16 {
    (value[1] as nat + value[2] as nat * 256) as u16
}

/// Model name of a product id, or a generic name that shows the id.
pub open spec fn audio_name(pid: u16) -> Seq<char> {
    match spec_audio_model(pid) {
        Some(n) => n,
        None => "Apple/Beats 音訊裝置 (PID 0x"@ + hex4(pid) + ")"@,
    }
}

/// Battery percentage of a 4-bit level: `None` for 0xF (unknown), else ten
/// times the level, capped at 100.
pub open spec fn battery_percent(nibble: u8) -> Option<u8> {
    if nibble == 0x0F {
        None
    } else if nibble as nat * 10 > 100 {
        Some(100u8)
    } else {
        Some((nibble as nat * 10) as u8)
    }
}

/// One battery part: prefix, percentage, `%`, and ⚡ when charging.
pub open spec fn battery_part(prefix: Seq<char>, percent: Option<u8>, charging: bool) -> Seq<
    Seq<char>,
> {
    match percent {
        Some(p) => seq![
            prefix + decimal(p as nat) + "%"@ + (if charging {
                "⚡"@
            } else {
                Seq::empty()
            }),
        ],
        None => Seq::empty(),
    }
}

/// Left, right and case battery parts of a proximity-pairing message:
/// byte 4 holds right (high nibble) and left (low nibble) levels, byte 5 the
/// charging flags (high nibble: bit 0 right, bit 1 left, bit 2 case) and the
/// case level (low nibble).
pub open spec fn battery_parts(value: Seq<u8>) -> Seq<Seq<char>> {
    let left = if value.len() > 4 { battery_percent(value[4] % 16) } else { None };
    let right = if value.len() > 4 { battery_percent(value[4] / 16) } else { None };
    let case_level = if value.len() > 5 { battery_percent(value[5] % 16) } else { None };
    let flags: nat = if value.len() > 5 { value[5] as nat / 16 } else { 0 };
    battery_part("L"@, left, (flags / 2) % 2 == 1) + battery_part("R"@, right, flags % 2 == 1)
        + battery_part("盒"@, case_level, (flags / 4) % 2 == 1)
}

/// The name, followed by the battery parts when there are any.
pub open spec fn spec_airpods_details(name: Seq<char>, value: Seq<u8>) -> Seq<char> {
    let parts = battery_parts(value);
    if parts.len() == 0 {
        name
    } else {
        name + " · "@ + join_spaced(parts)
    }
}

/// Description of a proximity-pairing message.
pub open spec fn audio_text(value: Seq<u8>) -> Seq<char> {
    spec_airpods_details(audio_name(audio_pid(value)), value)
}

// ───────────────────────── the decision ─────────────────────────

/// The value of the first proximity-pairing message, if any.
pub open spec fn first_audio(rs: Seq<AppleRecord>) -> Option<Seq<u8>>
    decreases rs.len(),
{
    if rs.len() == 0 {
        None
    } else if is_audio(rs[0]) {
        Some(rs[0].value)
    } else {
        first_audio(rs.drop_first())
    }
}

/// The description of the last Find My message that decodes, if any.
pub open spec fn last_find_my(rs: Seq<AppleRecord>) -> Option<Seq<char>>
    decreases rs.len(),
{
    if rs.len() == 0 {
        None
    } else {
        let r = rs.last();
        if r.kind == 0x12 && spec_decode_find_my(r.declared_len, r.value) is Some {
            spec_decode_find_my(r.declared_len, r.value)
        } else {
            last_find_my(rs.drop_last())
        }
    }
}

/// The category label of the first message that has one, if any.
pub open spec fn first_label(rs: Seq<AppleRecord>) -> Option<Seq<char>>
    decreases rs.len(),
{
    if rs.len() == 0 {
        None
    } else if spec_label(rs[0].kind) is Some {
        spec_label(rs[0].kind)
    } else {
        first_label(rs.drop_first())
    }
}

/// What the messages other than proximity pairing yield: the last Find My
/// status, else the first category label.
pub open spec fn status_or_label(rs: Seq<AppleRecord>) -> Option<Seq<char>> {
    match last_find_my(rs) {
        Some(t) => Some(t),
        None => first_label(rs),
    }
}

/// Description of an Apple payload: the first proximity-pairing message
/// wins (it names the exact model); otherwise the last Find My status;
/// otherwise the first category label.
pub open spec fn spec_apple_decode(p: Seq<u8>) -> Option<Seq<char>> {
    let rs = apple_records(p);
    match first_audio(rs) {
        Some(v) => Some(audio_text(v)),
        None => status_or_label(rs),
    }
}

/// Best-effort model of a manufacturer payload; only Apple payloads are decoded.
pub open spec fn spec_best_effort_model(company_id: u16, p: Seq<u8>) -> Option<Seq<char>> {
    if company_id == APPLE_COMPANY_ID {
        spec_apple_decode(p)
    } else {
        None
    }
}

/// An Apple payload carrying a Find My rolling identity.
pub open spec fn spec_has_rotating_find_my_identity(company_id: u16, p: Seq<u8>) -> bool {
    company_id == APPLE_COMPANY_ID && exists|i: int|
        0 <= i < apple_records(p).len() && #[trigger] is_rotating_find_my(apple_records(p)[i])
}

// ───────────────────────── lemmas on the record walk ─────────────────────────

pub(crate) proof fn lemma_first_audio_append(a: Seq<AppleRecord>, b: Seq<AppleRecord>)
    ensures
        first_audio(a + b) == (if first_audio(a) is Some {
            first_audio(a)
        } else {
            first_audio(b)
        }),
    decreases a.len(),
{
    if a.len() > 0 {
        assert((a + b).drop_first() =~= a.drop_first() + b);
        lemma_first_audio_append(a.drop_first(), b);
    } else {
        assert(a + b =~= b);
    }
}

pub(crate) proof fn lemma_first_label_append(a: Seq<AppleRecord>, b: Seq<AppleRecord>)
    ensures
        first_label(a + b) == (if first_label(a) is Some {
            first_label(a)
        } else {
            first_label(b)
        }),
    decreases a.len(),
{
    if a.len() > 0 {
        assert((a + b).drop_first() =~= a.drop_first() + b);
        lemma_first_label_append(a.drop_first(), b);
    } else {
        assert(a + b =~= b);
    }
}

pub(crate) proof fn lemma_last_find_my_append(a: Seq<AppleRecord>, b: Seq<AppleRecord>)
    ensures
        last_find_my(a + b) == (if last_find_my(b) is Some {
            last_find_my(b)
        } else {
            last_find_my(a)
        }),
    decreases b.len(),
{
    if b.len() > 0 {
        assert((a + b).drop_last() =~= a + b.drop_last());
        assert((a + b).last() == b.last());
        lemma_last_find_my_append(a, b.drop_last());
    } else {
        assert(a + b =~= a);
    }
}

proof fn lemma_take_step(rs: Seq<AppleRecord>, k: int)
    requires
        0 <= k < rs.len(),
    ensures
        rs.take(k + 1) == rs.take(k) + seq![rs[k]],
{
    assert(rs.take(k + 1) =~= rs.take(k) + seq![rs[k]]);
}

proof fn lemma_single_record(r: AppleRecord)
    ensures
        first_audio(seq![r]) == (if is_audio(r) {
            Some(r.value)
        } else {
            None::<Seq<u8>>
        }),
        first_label(seq![r]) == spec_label(r.kind),
        last_find_my(seq![r]) == (if r.kind == 0x12 {
            spec_decode_find_my(r.declared_len, r.value)
        } else {
            None
        }),
{
    reveal_with_fuel(first_audio, 2);
    reveal_with_fuel(first_label, 2);
    reveal_with_fuel(last_find_my, 2);
    assert(seq![r].drop_first() =~= Seq::<AppleRecord>::empty());
    assert(seq![r].drop_last() =~= Seq::<AppleRecord>::empty());
}

// ───────────────────────── the walk, executable ─────────────────────────

/// Position of one message inside the payload: `payload[start..end]` is its value.
#[derive(Clone, Copy)]
pub struct RecordSpan {
    pub kind: u8,
    pub declared_len: u8,
    pub start: usize,
    pub end: usize,
}

/// The record that a span denotes in `p`.
pub open spec fn span_record(p: Seq<u8>, s: RecordSpan) -> AppleRecord {
    AppleRecord { kind: s.kind, declared_len: s.declared_len, value: p.subrange(s.start as int, s.end as int) }
}

/// `spans` denote exactly the records `rs` of `p`.
pub open spec fn spans_denote(p: Seq<u8>, spans: Seq<RecordSpan>, rs: Seq<AppleRecord>) -> bool {
    &&& spans.len() == rs.len()
    &&& forall|j: int|
        0 <= j < spans.len() ==> {
            &&& (#[trigger] spans[j]).start <= spans[j].end <= p.len()
            &&& span_record(p, spans[j]) == rs[j]
        }
}

pub(crate) proof fn lemma_records_from_step(p: Seq<u8>, i: int)
    requires
        0 <= i,
        i + 1 < p.len(),
    ensures
        records_from(p, i) == seq![
            AppleRecord {
                kind: p[i],
                declared_len: p[i + 1],
                value: p.subrange(i + 2, record_end(p, i)),
            },
        ] + records_from(p, record_end(p, i)),
{
}

/// Walks the Continuity messages of `payload`. Tolerant: a truncated last
/// message keeps the bytes that are present, and nothing is read past the end.
fn apple_tlvs(payload: &[u8]) -> (spans: Vec<RecordSpan>)
    ensures
        spans_denote(payload@, spans@, apple_records(payload@)),
{
    let ghost p = payload@;
    let mut spans: Vec<RecordSpan> = Vec::new();
    let mut i: usize = 0;
    let len = payload.len();
    let ghost mut done: Seq<AppleRecord> = Seq::empty();
    while len - i > 1
        invariant
            len == payload.len(),
            p == payload@,
            i <= len,
            apple_records(p) == done + records_from(p, i as int),
            spans_denote(p, spans@, done),
        decreases len - i,
    {
        let kind = payload[i];
        let declared_len = payload[i + 1];
        let start = i + 2;
        let end = if (declared_len as usize) <= len - start {
            start + declared_len as usize
        } else {
            len
        };
        let span = RecordSpan { kind, declared_len, start, end };
        proof {
            lemma_records_from_step(p, i as int);
            assert(end == record_end(p, i as int));
            let r = span_record(p, span);
            assert(done + records_from(p, i as int) =~= (done + seq![r]) + records_from(p, end as int));
            done = done + seq![r];
        }
        spans.push(span);
        i = end;
    }
    proof {
        assert(records_from(p, i as int) =~= Seq::<AppleRecord>::empty());
        assert(done + Seq::<AppleRecord>::empty() =~= done);
    }
    spans
}

// ───────────────────────── executable decoders ─────────────────────────

fn label(kind: u8) -> (r: Option<String>)
    ensures
        opt_string_view(r) == spec_label(kind),
{
    let l = match kind {
        0x02 => "Apple iBeacon",
        0x05 => "Apple AirDrop",
        0x09 => "Apple AirPlay",
        0x0C => "Apple Handoff",
        0x0D => "Apple 個人熱點",
        0x0E => "Apple Nearby Action",
        0x0F => "Apple Nearby Action",
        0x10 => "Apple Nearby (iPhone/iPad)",
        0x12 => "Apple Find My",
        _ => return None,
    };
    Some(String::from_str(l))
}

/// Find My payload 0x02 = nearby (partial key), 0x19 = separated / offline
/// (full rolling key). Status: bits 4-5 device kind, bits 6-7 battery,
/// bit 2 owner connected during this key period.
fn decode_find_my(declared_len: u8, val: &[u8]) -> (r: Option<String>)
    ensures
        opt_string_view(r) == spec_decode_find_my(declared_len, val@),
{
    if !(declared_len == 0x02 || declared_len == 0x19) || val.len() == 0 {
        return None;
    }
    let status = val[0];
    let k = (status / 16) % 4;
    let kind = if k == 0 {
        "Apple 裝置"
    } else if k == 1 {
        "AirTag"
    } else if k == 2 {
        "Find My 配件（授權第三方）"
    } else {
        "AirPods"
    };
    let b = status / 64;
    let battery = if b == 0 {
        "充足"
    } else if b == 1 {
        "中等"
    } else if b == 2 {
        "偏低"
    } else {
        "極低"
    };
    let state = if declared_len == 0x02 {
        "附近"
    } else {
        "分離／離線"
    };
    let mut s = String::from_str(kind);
    s.append(" · 尋找「");
    s.append(state);
    s.append("」 · 電量");
    s.append(battery);
    if (status / 4) % 2 == 1 {
        s.append(" · 15 分鐘內曾連線擁有者");
    }
    proof {
        let spec = spec_decode_find_my(declared_len, val@);
        assert(spec is Some);
        assert(s@ =~= spec.unwrap());
    }
    Some(s)
}

/// AirPods / Beats product-id table (Apple Bluetooth PID).
fn audio_model(pid: u16) -> (r: Option<&'static str>)
    ensures
        opt_str_view(r) == spec_audio_model(pid),
{
    let name = match pid {
        0x2002 => "AirPods (1st gen)",
        0x200F => "AirPods (2nd gen)",
        0x2013 => "AirPods (3rd gen)",
        0x2019 => "AirPods 4",
        0x201B => "AirPods 4",
        0x201C => "AirPods 4",
        0x201E => "AirPods 4",
        0x2020 => "AirPods 4",
        0x200E => "AirPods Pro (1st gen)",
        0x2014 => "AirPods Pro (2nd gen, Lightning)",
        0x2024 => "AirPods Pro (2nd gen, USB-C)",
        0x2027 => "AirPods Pro 3",
        0x200A => "AirPods Max (Lightning)",
        0x201F => "AirPods Max (USB-C)",
        0x202D => "AirPods Max 2",
        0x2003 => "Powerbeats 3",
        0x200B => "Powerbeats Pro",
        0x200C => "Beats Solo Pro",
        0x200D => "Powerbeats 4",
        0x2010 => "Beats Flex",
        0x2005 => "BeatsX",
        0x2006 => "Beats Solo 3",
        0x2009 => "Beats Studio 3",
        0x2011 => "Beats Studio Buds",
        0x2012 => "Beats Fit Pro",
        0x2016 => "Beats Studio Buds +",
        0x2017 => "Beats Studio Pro",
        0x201A => "Beats Pill 3",
        0x2025 => "Beats Solo 4",
        0x2026 => "Beats Solo Buds",
        0x2600 => "Beats Pill +",
        _ => return None,
    };
    Some(name)
}

fn percent(nibble: u8) -> (r: Option<u8>)
    requires
        nibble < 16,
    ensures
        r == battery_percent(nibble),
{
    if nibble == 0x0F {
        None
    } else if nibble >= 10 {
        Some(100)
    } else {
        Some(nibble * 10)
    }
}

fn push_part(parts: &mut Vec<String>, prefix: &str, percent: Option<u8>, charging: bool)
    ensures
        string_views(final(parts)@) == string_views(old(parts)@) + battery_part(
            prefix@,
            percent,
            charging,
        ),
{
    if let Some(p) = percent {
        let mut s = String::from_str(prefix);
        push_decimal(&mut s, p);
        s.append("%");
        if charging {
            s.append("⚡");
        }
        let ghost before = parts@;
        parts.push(s);
        proof {
            assert(s@ =~= prefix@ + decimal(p as nat) + "%"@ + (if charging {
                "⚡"@
            } else {
                Seq::empty()
            }));
            assert(string_views(parts@) =~= string_views(before) + battery_part(
                prefix@,
                percent,
                charging,
            ));
        }
    } else {
        assert(string_views(parts@) =~= string_views(old(parts)@) + Seq::<Seq<char>>::empty());
    }
}

/// Appends left / right / case battery and charging state from a
/// proximity-pairing message to the model name (⚡ = charging).
fn airpods_details(name: &str, val: &[u8]) -> (r: String)
    ensures
        r@ == spec_airpods_details(name@, val@),
{
    let left = if val.len() > 4 { percent(val[4] % 16) } else { None };
    let right = if val.len() > 4 { percent(val[4] / 16) } else { None };
    let case_level = if val.len() > 5 { percent(val[5] % 16) } else { None };
    let flags: u8 = if val.len() > 5 { val[5] / 16 } else { 0 };
    let mut parts: Vec<String> = Vec::new();
    push_part(&mut parts, "L", left, (flags / 2) % 2 == 1);
    push_part(&mut parts, "R", right, flags % 2 == 1);
    push_part(&mut parts, "盒", case_level, (flags / 4) % 2 == 1);
    proof {
        assert(string_views(parts@) =~= battery_parts(val@));
    }
    if parts.len() == 0 {
        String::from_str(name)
    } else {
        let mut s = String::from_str(name);
        s.append(" · ");
        let joined = join_with_spaces(&parts);
        s.append(joined.as_str());
        s
    }
}

/// Description of a proximity-pairing message (value of at least three bytes).
fn audio_description(val: &[u8]) -> (r: String)
    requires
        val@.len() >= 3,
    ensures
        r@ == audio_text(val@),
{
    let pid: u16 = val[1] as u16 + (val[2] as u16) * 256;
    assert(pid == audio_pid(val@));
    match audio_model(pid) {
        Some(n) => airpods_details(n, val),
        None => {
            let mut name = String::from_str("Apple/Beats 音訊裝置 (PID 0x");
            push_hex4(&mut name, pid);
            name.append(")");
            assert(name@ =~= audio_name(pid));
            airpods_details(name.as_str(), val)
        }
    }
}

/// Copies `payload[start..end]`.
fn slice_range(payload: &[u8], start: usize, end: usize) -> (r: &[u8])
    requires
        start <= end <= payload@.len(),
    ensures
        r@ == payload@.subrange(start as int, end as int),
{
    vstd::slice::slice_subrange(payload, start, end)
}

/// Walks the Apple messages and reports the most telling content.
/// Proximity pairing (type 0x07) is plaintext and names the exact model, so it
/// wins at once; otherwise the last Find My status, else the first label.
fn apple_decode(payload: &[u8]) -> (r: Option<String>)
    ensures
        opt_string_view(r) == spec_apple_decode(payload@),
{
    let ghost p = payload@;
    let ghost rs = apple_records(p);
    let spans = apple_tlvs(payload);
    let mut fallback: Option<String> = None;
    let mut k: usize = 0;
    proof {
        assert(rs.take(0) =~= Seq::<AppleRecord>::empty());
    }
    while k < spans.len()
        invariant
            p == payload@,
            rs == apple_records(p),
            spans_denote(p, spans@, rs),
            k <= spans.len(),
            first_audio(rs.take(k as int)) is None,
            opt_string_view(fallback) == status_or_label(rs.take(k as int)),
        decreases spans.len() - k,
    {
        let span = spans[k];
        let ghost r = rs[k as int];
        proof {
            assert(span_record(p, spans@[k as int]) == r);
            lemma_take_step(rs, k as int);
            lemma_single_record(r);
            lemma_first_audio_append(rs.take(k as int), seq![r]);
            lemma_first_label_append(rs.take(k as int), seq![r]);
            lemma_last_find_my_append(rs.take(k as int), seq![r]);
        }
        let val = slice_range(payload, span.start, span.end);
        if span.kind == 0x07 && val.len() >= 3 {
            let text = audio_description(val);
            proof {
                assert(rs =~= rs.take(k as int) + rs.skip(k as int));
                assert(rs.skip(k as int)[0] == r);
                reveal_with_fuel(first_audio, 2);
                lemma_first_audio_append(rs.take(k as int), rs.skip(k as int));
            }
            return Some(text);
        }
        let lab = label(span.kind);
        if span.kind == 0x12 {
            if let Some(decoded) = decode_find_my(span.declared_len, val) {
                fallback = Some(decoded);
            }
        }
        if fallback.is_none() {
            fallback = lab;
        }
        k = k + 1;
    }
    proof {
        assert(rs.take(k as int) =~= rs);
    }
    fallback
}

/// Best-effort model / device category of a manufacturer payload.
///
/// Apple (0x004C) manufacturer data is a run of TLV messages
/// `[type][len][data...]` (0x02 iBeacon, 0x07 proximity pairing, 0x0C
/// Handoff, 0x10 Nearby, 0x12 Find My, ...); one advertisement may chain
/// several, so the whole payload is walked before choosing the best result.
pub fn best_effort_model(company_id: u16, payload: &[u8]) -> (r: Option<String>)
    ensures
        opt_string_view(r) == spec_best_effort_model(company_id, payload@),
{
    if company_id == APPLE_COMPANY_ID {
        apple_decode(payload)
    } else {
        None
    }
}

/// Whether the payload carries a Find My rolling identity. Such identifiers
/// rotate, and macOS gives no advertising MAC, so the CoreBluetooth UUID may
/// turn into a new device row at each rotation.
pub fn has_rotating_find_my_identity(company_id: u16, payload: &[u8]) -> (r: bool)
    ensures
        r == spec_has_rotating_find_my_identity(company_id, payload@),
{
    if company_id != APPLE_COMPANY_ID {
        return false;
    }
    let ghost rs = apple_records(payload@);
    let spans = apple_tlvs(payload);
    let mut k: usize = 0;
    while k < spans.len()
        invariant
            company_id == APPLE_COMPANY_ID,
            rs == apple_records(payload@),
            spans_denote(payload@, spans@, rs),
            k <= spans.len(),
            forall|j: int| 0 <= j < k ==> !is_rotating_find_my(#[trigger] rs[j]),
        decreases spans.len() - k,
    {
        let span = spans[k];
        assert(span_record(payload@, spans@[k as int]) == rs[k as int]);
        if span.kind == 0x12 && (span.declared_len == 0x02 || span.declared_len == 0x19) {
            assert(is_rotating_find_my(rs[k as int]));

            return true;
        }
        k = k + 1;
    }
    false
}

// ───────────────────────── primary manufacturer ─────────────────────────

/// The representative manufacturer entry: Apple's when present, otherwise
/// some entry of the map, `None` only for an empty map.
pub open spec fn primary_manufacturer_ok(
    mfg: Map<u16, Vec<u8>>,
    r: Option<(u16, Seq<u8>)>,
) -> bool {
    if mfg.contains_key(APPLE_COMPANY_ID) {
        r == Some((APPLE_COMPANY_ID, mfg[APPLE_COMPANY_ID]@))
    } else if mfg.len() == 0 {
        r is None
    } else {
        r matches Some((k, v)) && mfg.contains_key(k) && v == mfg[k]@
    }
}

/// The view of a returned manufacturer entry.
pub open spec fn entry_view(r: Option<(u16, &[u8])>) -> Option<(u16, Seq<u8>)> {
    match r {
        Some((k, v)) => Some((k, v@)),
        None => None,
    }
}

/// Takes the first manufacturer data of an advertisement as its representative
/// `(company_id, payload)`. A hash map has no order: with several entries
/// Apple's is preferred, otherwise any one, which keeps the result stable.
pub fn primary_manufacturer<'a>(mfg: &'a HashMap<u16, Vec<u8>>) -> (r: Option<(u16, &'a [u8])>)
    ensures
        primary_manufacturer_ok(mfg@, entry_view(r)),
{
    if let Some(v) = mfg.get(&APPLE_COMPANY_ID) {
        return Some((APPLE_COMPANY_ID, v.as_slice()));
    }
    for entry in it: mfg.iter()
        invariant
            !mfg@.contains_key(APPLE_COMPANY_ID),
            it.index() == 0,
            it.seq().len() == mfg@.dom().len(),
    {
        let (k, v) = entry;
        proof {
            assert(it.seq()[it.index() as int] == entry);
        }
        return Some((*k, v.as_slice()));
    }
    proof {
        let all = vstd::std_specs::hash::spec_hash_map_iter(mfg).remaining();
        assert(all.len() == mfg@.dom().len());
        assert(mfg@.dom().len() == 0);
    }
    None
}

} // verus!
