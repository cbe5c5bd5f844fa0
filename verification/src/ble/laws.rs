//! Properties of the advertisement decoder that hold for all payloads.

use vstd::prelude::*;
use crate::ble::parse::{
    AppleRecord, APPLE_COMPANY_ID, apple_records, records_from, record_end, first_audio,
    last_find_my, is_rotating_find_my, battery_percent, spec_best_effort_model,
    spec_decode_find_my, spec_has_rotating_find_my_identity, lemma_records_from_step,
    lemma_first_audio_append, lemma_last_find_my_append, is_audio, audio_text,
    spec_airpods_details, spec_vendor_name,
};
use crate::text::{decimal, join_spaced};

verus! {

/// From offset `i` on, `p` is a run of complete messages: every message's
/// declared length fits, and the last one ends exactly at the end of `p`.
pub open spec fn framed_from(p: Seq<u8>, i: int) -> bool
    decreases p.len() - i,
{
    if i < 0 || i > p.len() {
        false
    } else if i == p.len() {
        true
    } else if i + 1 < p.len() && i + 2 + p[i + 1] <= p.len() {
        framed_from(p, i + 2 + p[i + 1])
    } else {
        false
    }
}

/// `p` is a run of complete Continuity messages.
pub open spec fn well_framed(p: Seq<u8>) -> bool {
    framed_from(p, 0)
}

/// The bytes that the messages account for: two header bytes each plus
/// the value bytes present.
pub open spec fn bytes_covered(rs: Seq<AppleRecord>) -> int
    decreases rs.len(),
{
    if rs.len() == 0 {
        0
    } else {
        bytes_covered(rs.drop_last()) + 2 + rs.last().value.len()
    }
}

proof fn lemma_bytes_covered_prepend(r: AppleRecord, rs: Seq<AppleRecord>)
    ensures
        bytes_covered(seq![r] + rs) == 2 + r.value.len() + bytes_covered(rs),
    decreases rs.len(),
{
    if rs.len() == 0 {
        assert(seq![r] + rs =~= seq![r]);
        assert(seq![r].drop_last() =~= Seq::<AppleRecord>::empty());
        reveal_with_fuel(bytes_covered, 2);
    } else {
        assert((seq![r] + rs).drop_last() =~= seq![r] + rs.drop_last());
        assert((seq![r] + rs).last() == rs.last());
        lemma_bytes_covered_prepend(r, rs.drop_last());
    }
}

proof fn lemma_records_from_covered(p: Seq<u8>, i: int)
    requires
        0 <= i <= p.len(),
    ensures
        bytes_covered(records_from(p, i)) == p.len() - i || bytes_covered(records_from(p, i))
            == p.len() - i - 1,
    decreases p.len() - i,
{
    if i + 1 < p.len() {
        let end = record_end(p, i);
        let r = AppleRecord { kind: p[i], declared_len: p[i + 1], value: p.subrange(i + 2, end) };
        lemma_records_from_step(p, i);
        lemma_records_from_covered(p, end);
        lemma_bytes_covered_prepend(r, records_from(p, end));
    } else {
        assert(records_from(p, i) =~= Seq::<AppleRecord>::empty());
    }
}

/// The message walk neither skips nor repeats bytes: the messages account for
/// the whole payload, except a single trailing byte that cannot start a message.
pub proof fn law_walk_covers_payload(p: Seq<u8>)
    ensures
        bytes_covered(apple_records(p)) == p.len() || bytes_covered(apple_records(p)) == p.len()
            - 1,
{
    lemma_records_from_covered(p, 0);
}

proof fn lemma_records_from_shift(a: Seq<u8>, b: Seq<u8>, j: int)
    requires
        0 <= j <= b.len(),
    ensures
        records_from(a + b, a.len() + j) == records_from(b, j),
    decreases b.len() - j,
{
    let ab = a + b;
    let i = a.len() + j;
    if j + 1 < b.len() {
        assert(ab[i] == b[j]);
        assert(ab[i + 1] == b[j + 1]);
        let end_b = record_end(b, j);
        assert(record_end(ab, i) == a.len() + end_b);
        assert(ab.subrange(i + 2, a.len() + end_b) =~= b.subrange(j + 2, end_b));
        lemma_records_from_step(ab, i);
        lemma_records_from_step(b, j);
        lemma_records_from_shift(a, b, end_b);
    } else {
        assert(records_from(ab, i) =~= Seq::<AppleRecord>::empty());
        assert(records_from(b, j) =~= Seq::<AppleRecord>::empty());
    }
}

proof fn lemma_records_from_concat(a: Seq<u8>, b: Seq<u8>, i: int)
    requires
        framed_from(a, i),
    ensures
        records_from(a + b, i) == records_from(a, i) + records_from(b, 0),
    decreases a.len() - i,
{
    let ab = a + b;
    if i == a.len() {
        lemma_records_from_shift(a, b, 0);
        assert(records_from(a, i) =~= Seq::<AppleRecord>::empty());
        assert(records_from(a, i) + records_from(b, 0) =~= records_from(b, 0));
    } else {
        let end = i + 2 + a[i + 1];
        assert(ab[i] == a[i]);
        assert(ab[i + 1] == a[i + 1]);
        assert(record_end(a, i) == end);
        assert(record_end(ab, i) == end);
        assert(ab.subrange(i + 2, end) =~= a.subrange(i + 2, end));
        lemma_records_from_step(ab, i);
        lemma_records_from_step(a, i);
        lemma_records_from_concat(a, b, end);
        let r = AppleRecord { kind: a[i], declared_len: a[i + 1], value: a.subrange(i + 2, end) };
        assert(seq![r] + (records_from(a, end) + records_from(b, 0)) =~= (seq![r] + records_from(
            a,
            end,
        )) + records_from(b, 0));
    }
}

/// Messages of complete payloads concatenate: the walk over `a + b` sees the
/// messages of `a`, then those of `b`.
pub proof fn law_records_concatenate(a: Seq<u8>, b: Seq<u8>)
    requires
        well_framed(a),
    ensures
        apple_records(a + b) == apple_records(a) + apple_records(b),
{
    lemma_records_from_concat(a, b, 0);
}

/// A proximity-pairing message outranks every other message: putting complete
/// messages without proximity pairing in front of a payload that has one does
/// not change its description.
pub proof fn law_proximity_pairing_outranks_other_messages(prefix: Seq<u8>, rest: Seq<u8>)
    requires
        well_framed(prefix),
        first_audio(apple_records(prefix)) is None,
        first_audio(apple_records(rest)) is Some,
    ensures
        spec_best_effort_model(APPLE_COMPANY_ID, prefix + rest) == spec_best_effort_model(
            APPLE_COMPANY_ID,
            rest,
        ),
{
    law_records_concatenate(prefix, rest);
    lemma_first_audio_append(apple_records(prefix), apple_records(rest));
}

/// A Find My status outranks category labels: putting complete messages that
/// carry neither proximity pairing nor a Find My status in front of a payload
/// with a Find My status does not change its description.
pub proof fn law_find_my_outranks_earlier_labels(prefix: Seq<u8>, rest: Seq<u8>)
    requires
        well_framed(prefix),
        first_audio(apple_records(prefix)) is None,
        last_find_my(apple_records(prefix)) is None,
        first_audio(apple_records(rest)) is None,
        last_find_my(apple_records(rest)) is Some,
    ensures
        spec_best_effort_model(APPLE_COMPANY_ID, prefix + rest) == spec_best_effort_model(
            APPLE_COMPANY_ID,
            rest,
        ),
{
    law_records_concatenate(prefix, rest);
    lemma_first_audio_append(apple_records(prefix), apple_records(rest));
    lemma_last_find_my_append(apple_records(prefix), apple_records(rest));
}

/// Once a payload has a Find My status, appending messages that carry neither
/// proximity pairing nor a Find My status (category labels only) does not
/// change its description.
pub proof fn law_later_labels_keep_find_my_status(first: Seq<u8>, later: Seq<u8>)
    requires
        well_framed(first),
        first_audio(apple_records(first)) is None,
        last_find_my(apple_records(first)) is Some,
        first_audio(apple_records(later)) is None,
        last_find_my(apple_records(later)) is None,
    ensures
        spec_best_effort_model(APPLE_COMPANY_ID, first + later) == spec_best_effort_model(
            APPLE_COMPANY_ID,
            first,
        ),
{
    law_records_concatenate(first, later);
    lemma_first_audio_append(apple_records(first), apple_records(later));
    lemma_last_find_my_append(apple_records(first), apple_records(later));
}

proof fn lemma_last_find_my_some(rs: Seq<AppleRecord>, i: int)
    requires
        0 <= i < rs.len(),
        rs[i].kind == 0x12,
        spec_decode_find_my(rs[i].declared_len, rs[i].value) is Some,
    ensures
        last_find_my(rs) is Some,
    decreases rs.len(),
{
    if i < rs.len() - 1 {
        lemma_last_find_my_some(rs.drop_last(), i);
    }
}

/// A payload with a rotating Find My identity whose status byte is present
/// always gets a description.
pub proof fn law_rotating_identity_is_described(p: Seq<u8>, i: int)
    requires
        0 <= i < apple_records(p).len(),
        is_rotating_find_my(apple_records(p)[i]),
        apple_records(p)[i].value.len() > 0,
    ensures
        spec_has_rotating_find_my_identity(APPLE_COMPANY_ID, p),
        spec_best_effort_model(APPLE_COMPANY_ID, p) is Some,
{
    let rs = apple_records(p);
    lemma_last_find_my_some(rs, i);
}

/// Payloads of other vendors are never decoded and never carry a rotating
/// Find My identity.
pub proof fn law_only_apple_payloads_are_decoded(company_id: u16, p: Seq<u8>)
    requires
        company_id != APPLE_COMPANY_ID,
    ensures
        spec_best_effort_model(company_id, p) is None,
        !spec_has_rotating_find_my_identity(company_id, p),
{
}

/// A battery level reads as a percentage in steps of ten, at most 100; only
/// the level 0xF reads as unknown.
pub proof fn law_battery_percent_bounds(nibble: u8)
    requires
        nibble < 16,
    ensures
        battery_percent(nibble) is None <==> nibble == 0x0F,
        battery_percent(nibble) matches Some(pct) ==> pct <= 100 && pct % 10 == 0,
{
}


proof fn lemma_first_audio_at(rs: Seq<AppleRecord>, k: int)
    requires
        0 <= k < rs.len(),
        is_audio(rs[k]),
        forall|j: int| 0 <= j < k ==> !is_audio(#[trigger] rs[j]),
    ensures
        first_audio(rs) == Some(rs[k].value),
    decreases k,
{
    if k > 0 {
        assert(!is_audio(rs[0]));
        assert forall|j: int| 0 <= j < k - 1 implies !is_audio(#[trigger] rs.drop_first()[j]) by {
            assert(rs.drop_first()[j] == rs[j + 1]);
        }
        lemma_first_audio_at(rs.drop_first(), k - 1);
    }
}

proof fn lemma_no_audio(rs: Seq<AppleRecord>)
    requires
        forall|j: int| 0 <= j < rs.len() ==> !is_audio(#[trigger] rs[j]),
    ensures
        first_audio(rs) is None,
    decreases rs.len(),
{
    if rs.len() > 0 {
        assert(!is_audio(rs[0]));
        assert forall|j: int| 0 <= j < rs.len() - 1 implies !is_audio(#[trigger] rs.drop_first()[j]) by {
            assert(rs.drop_first()[j] == rs[j + 1]);
        }
        lemma_no_audio(rs.drop_first());
    }
}

/// A decodable Find My message.
pub open spec fn is_find_my_status(r: AppleRecord) -> bool {
    r.kind == 0x12 && spec_decode_find_my(r.declared_len, r.value) is Some
}

proof fn lemma_last_find_my_at(rs: Seq<AppleRecord>, k: int)
    requires
        0 <= k < rs.len(),
        is_find_my_status(rs[k]),
        forall|j: int| k < j < rs.len() ==> !is_find_my_status(#[trigger] rs[j]),
    ensures
        last_find_my(rs) == spec_decode_find_my(rs[k].declared_len, rs[k].value),
    decreases rs.len(),
{
    if k < rs.len() - 1 {
        assert(!is_find_my_status(rs[rs.len() - 1]));
        assert forall|j: int| k < j < rs.len() - 1 implies !is_find_my_status(#[trigger] rs.drop_last()[j]) by {
            assert(rs.drop_last()[j] == rs[j]);
        }
        lemma_last_find_my_at(rs.drop_last(), k);
    }
}

/// Whatever else an Apple payload carries, the first proximity-pairing
/// message decides its description.
pub proof fn law_first_proximity_pairing_decides(p: Seq<u8>, k: int)
    requires
        0 <= k < apple_records(p).len(),
        is_audio(apple_records(p)[k]),
        forall|j: int| 0 <= j < k ==> !is_audio(#[trigger] apple_records(p)[j]),
    ensures
        spec_best_effort_model(APPLE_COMPANY_ID, p) == Some(audio_text(apple_records(p)[k].value)),
{
    lemma_first_audio_at(apple_records(p), k);
}

/// Without proximity pairing, the last decodable Find My message decides the
/// description, whatever category labels come before or after it.
pub proof fn law_last_find_my_status_decides(p: Seq<u8>, k: int)
    requires
        0 <= k < apple_records(p).len(),
        forall|j: int| 0 <= j < apple_records(p).len() ==> !is_audio(#[trigger] apple_records(p)[j]),
        is_find_my_status(apple_records(p)[k]),
        forall|j: int| k < j < apple_records(p).len() ==> !is_find_my_status(#[trigger] apple_records(p)[j]),
    ensures
        spec_best_effort_model(APPLE_COMPANY_ID, p) == spec_decode_find_my(
            apple_records(p)[k].declared_len,
            apple_records(p)[k].value,
        ),
{
    lemma_no_audio(apple_records(p));
    lemma_last_find_my_at(apple_records(p), k);
}


/// Bytes after the first proximity-pairing message never change the
/// description: a run of complete messages that holds one keeps its
/// description whatever follows it.
pub proof fn law_bytes_after_proximity_pairing_are_ignored(p: Seq<u8>, q: Seq<u8>)
    requires
        well_framed(p),
        first_audio(apple_records(p)) is Some,
    ensures
        spec_best_effort_model(APPLE_COMPANY_ID, p + q) == spec_best_effort_model(
            APPLE_COMPANY_ID,
            p,
        ),
{
    law_records_concatenate(p, q);
    lemma_first_audio_append(apple_records(p), apple_records(q));
}

/// The bytes a sequence of messages is written as: type byte, length byte,
/// then the value bytes present, message after message.
pub open spec fn rebuilt(rs: Seq<AppleRecord>) -> Seq<u8>
    decreases rs.len(),
{
    if rs.len() == 0 {
        Seq::empty()
    } else {
        seq![rs[0].kind, rs[0].declared_len] + rs[0].value + rebuilt(rs.drop_first())
    }
}

proof fn lemma_rebuilt_from(p: Seq<u8>, i: int)
    requires
        0 <= i <= p.len(),
    ensures
        rebuilt(records_from(p, i)) == p.subrange(i, p.len() as int) || (i < p.len() && rebuilt(
            records_from(p, i),
        ) == p.subrange(i, p.len() - 1)),
        forall|k: int|
            0 <= k < records_from(p, i).len() ==> (#[trigger] records_from(p, i)[k]).value.len()
                <= records_from(p, i)[k].declared_len,
        forall|k: int|
            0 <= k < records_from(p, i).len() - 1 ==> (#[trigger] records_from(p, i)[k]).value.len()
                == records_from(p, i)[k].declared_len,
    decreases p.len() - i,
{
    if i + 1 < p.len() {
        let end = record_end(p, i);
        let r = AppleRecord { kind: p[i], declared_len: p[i + 1], value: p.subrange(i + 2, end) };
        let rest = records_from(p, end);
        let rs = records_from(p, i);
        lemma_records_from_step(p, i);
        lemma_rebuilt_from(p, end);
        assert(rs =~= seq![r] + rest);
        assert(rs[0] == r);
        assert(rs.drop_first() =~= rest);
        assert(rebuilt(rs) == seq![r.kind, r.declared_len] + r.value + rebuilt(rest));
        if rebuilt(rest) == p.subrange(end, p.len() as int) {
            assert(seq![r.kind, r.declared_len] + r.value + rebuilt(rest) =~= p.subrange(
                i,
                p.len() as int,
            ));
        } else {
            assert(end < p.len());
            assert(seq![r.kind, r.declared_len] + r.value + rebuilt(rest) =~= p.subrange(
                i,
                p.len() - 1,
            ));
        }
        assert forall|k: int| 0 <= k < rs.len() implies (#[trigger] rs[k]).value.len()
            <= rs[k].declared_len by {
            if k > 0 {
                assert(rs[k] == rest[k - 1]);
            }
        }
        assert forall|k: int| 0 <= k < rs.len() - 1 implies (#[trigger] rs[k]).value.len()
            == rs[k].declared_len by {
            if k > 0 {
                assert(rs[k] == rest[k - 1]);
            } else {
                assert(rest.len() > 0);
                assert(end + 1 < p.len());
            }
        }
    } else {
        assert(records_from(p, i) =~= Seq::<AppleRecord>::empty());
        assert(rebuilt(Seq::<AppleRecord>::empty()) =~= Seq::<u8>::empty());
        if i == p.len() {
            assert(p.subrange(i, p.len() as int) =~= Seq::<u8>::empty());
        } else {
            assert(p.subrange(i, p.len() - 1) =~= Seq::<u8>::empty());
        }
    }
}

/// The message walk rebuilds the payload: writing the messages back (type,
/// length, value bytes present) gives the whole payload, or all of it but a
/// single trailing byte. No message holds more bytes than it declares, and
/// only the last one may hold fewer (cut off by the end of the payload).
pub proof fn law_walk_rebuilds_payload(p: Seq<u8>)
    ensures
        rebuilt(apple_records(p)) == p || (p.len() > 0 && rebuilt(apple_records(p))
            == p.drop_last()),
        forall|k: int|
            0 <= k < apple_records(p).len() ==> (#[trigger] apple_records(p)[k]).value.len()
                <= apple_records(p)[k].declared_len,
        forall|k: int|
            0 <= k < apple_records(p).len() - 1 ==> (#[trigger] apple_records(p)[k]).value.len()
                == apple_records(p)[k].declared_len,
{
    lemma_rebuilt_from(p, 0);
    assert(p.subrange(0, p.len() as int) =~= p);
    if p.len() > 0 {
        assert(p.subrange(0, p.len() - 1) =~= p.drop_last());
    }
}


/// The charging mark: ⚡ when charging, nothing otherwise.
pub open spec fn charge_mark(charging: bool) -> Seq<char> {
    if charging {
        "⚡"@
    } else {
        Seq::empty()
    }
}

/// Battery and charging of a proximity-pairing message with all three levels
/// known and below 10: the text lists left (low nibble of byte 4), right
/// (high nibble of byte 4) and case (low nibble of byte 5) at ten percent per
/// step; ⚡ follows the right earbud exactly when bit 0 of byte 5's high
/// nibble (0x10) is set, the left earbud exactly for bit 1 (0x20), the case
/// exactly for bit 2 (0x40).
pub proof fn law_airpods_battery_and_charging(name: Seq<char>, value: Seq<u8>)
    requires
        value.len() >= 6,
        value[4] & 0x0F < 10,
        value[4] >> 4u8 < 10,
        value[5] & 0x0F < 10,
    ensures
        spec_airpods_details(name, value) == name + " · "@ + ("L"@ + decimal(
            ((value[4] & 0x0F) * 10) as nat,
        ) + "%"@ + charge_mark(value[5] & 0x20 != 0)) + " "@ + ("R"@ + decimal(
            ((value[4] >> 4u8) * 10) as nat,
        ) + "%"@ + charge_mark(value[5] & 0x10 != 0)) + " "@ + ("盒"@ + decimal(
            ((value[5] & 0x0F) * 10) as nat,
        ) + "%"@ + charge_mark(value[5] & 0x40 != 0)),
{
    let b4 = value[4];
    let b5 = value[5];
    assert(b4 & 0x0F == b4 % 16) by (bit_vector);
    assert(b4 >> 4u8 == b4 / 16) by (bit_vector);
    assert(b5 & 0x0F == b5 % 16) by (bit_vector);
    assert((b5 & 0x10 != 0) == ((b5 / 16) % 2 == 1)) by (bit_vector);
    assert((b5 & 0x20 != 0) == (((b5 / 16) / 2) % 2 == 1)) by (bit_vector);
    assert((b5 & 0x40 != 0) == (((b5 / 16) / 4) % 2 == 1)) by (bit_vector);
    let flags: nat = b5 as nat / 16;
    assert(flags == (b5 / 16) as nat);
    let l = "L"@ + decimal(((b4 & 0x0F) * 10) as nat) + "%"@ + charge_mark(b5 & 0x20 != 0);
    let r = "R"@ + decimal(((b4 >> 4u8) * 10) as nat) + "%"@ + charge_mark(b5 & 0x10 != 0);
    let c = "盒"@ + decimal(((b5 & 0x0F) * 10) as nat) + "%"@ + charge_mark(b5 & 0x40 != 0);
    let parts = crate::ble::parse::battery_parts(value);
    assert(parts =~= seq![l, r, c]);
    reveal_with_fuel(join_spaced, 3);
    assert(seq![l, r, c].drop_last() =~= seq![l, r]);
    assert(seq![l, r].drop_last() =~= seq![l]);
    assert(join_spaced(parts) =~= l + " "@ + r + " "@ + c);
    assert(spec_airpods_details(name, value) =~= name + " · "@ + l + " "@ + r + " "@ + c);
}

/// A Find My message whose length byte is 0x02 (nearby) or 0x19 (separated,
/// full rolling key) marks an Apple payload as carrying a rotating identity,
/// and only such a message does.
pub proof fn law_rotating_identity_is_find_my_nearby_or_separated(p: Seq<u8>)
    ensures
        spec_has_rotating_find_my_identity(APPLE_COMPANY_ID, p) <==> exists|i: int|
            0 <= i < apple_records(p).len() && (#[trigger] apple_records(p)[i]).kind == 0x12
                && (apple_records(p)[i].declared_len == 0x02 || apple_records(p)[i].declared_len
                == 0x19),
{
    let rs = apple_records(p);
    if spec_has_rotating_find_my_identity(APPLE_COMPANY_ID, p) {
        let i = choose|i: int| 0 <= i < rs.len() && #[trigger] is_rotating_find_my(rs[i]);
        assert(rs[i].kind == 0x12);
    }
    if exists|i: int|
        0 <= i < rs.len() && (#[trigger] rs[i]).kind == 0x12 && (rs[i].declared_len == 0x02
            || rs[i].declared_len == 0x19) {
        let i = choose|i: int|
            0 <= i < rs.len() && (#[trigger] rs[i]).kind == 0x12 && (rs[i].declared_len == 0x02
                || rs[i].declared_len == 0x19);
        assert(is_rotating_find_my(rs[i]));
    }
}

/// The separated / offline Find My message (length byte 0x19) that opens a
/// payload is a rotating identity, as is the nearby one (0x02).
pub proof fn law_leading_find_my_is_rotating(p: Seq<u8>)
    requires
        p.len() >= 2,
        p[0] == 0x12,
        p[1] == 0x19 || p[1] == 0x02,
    ensures
        spec_has_rotating_find_my_identity(APPLE_COMPANY_ID, p),
{
    lemma_records_from_step(p, 0);
    let rs = apple_records(p);
    assert(rs[0].kind == 0x12 && rs[0].declared_len == p[1]);
    assert(is_rotating_find_my(rs[0]));
}

/// The vendor table: each listed SIG company id names its vendor, and every
/// other id has no name.
pub proof fn law_vendor_table(company_id: u16)
    ensures
        spec_vendor_name(0x004C) == Some("Apple"@),
        spec_vendor_name(0x0006) == Some("Microsoft"@),
        spec_vendor_name(0x0075) == Some("Samsung"@),
        spec_vendor_name(0x00E0) == Some("Google"@),
        spec_vendor_name(0x0087) == Some("Garmin"@),
        spec_vendor_name(0x0157) == Some("Huawei"@),
        spec_vendor_name(0x038F) == Some("Xiaomi"@),
        spec_vendor_name(0x0499) == Some("Ruuvi"@),
        spec_vendor_name(0x0059) == Some("Nordic Semiconductor"@),
        spec_vendor_name(0x02E5) == Some("Espressif"@),
        spec_vendor_name(0x0001) == Some("Ericsson"@),
        spec_vendor_name(0x000D) == Some("Texas Instruments"@),
        spec_vendor_name(0x004F) == Some("APT (soundcore)"@),
        spec_vendor_name(0x0110) == Some("Nippon Seiki"@),
        spec_vendor_name(company_id) is None <==> !(company_id == 0x004C || company_id == 0x0006
            || company_id == 0x0075 || company_id == 0x00E0 || company_id == 0x0087 || company_id
            == 0x0157 || company_id == 0x038F || company_id == 0x0499 || company_id == 0x0059
            || company_id == 0x02E5 || company_id == 0x0001 || company_id == 0x000D || company_id
            == 0x004F || company_id == 0x0110),
{
}

} // verus!
