//! From one scanned advertisement to one stored observation: the decisions of
//! the scan loop. The loop itself (adapter, events, clock, database) runs
//! outside the library and hands these functions plain values.

use vstd::prelude::*;
use vstd::string::*;
use std::collections::HashMap;
use crate::ble::parse::{
    best_effort_model, primary_manufacturer, vendor_name, opt_string_view,
    primary_manufacturer_ok, spec_best_effort_model, spec_vendor_name,
};
use crate::config::OBSERVATION_THROTTLE_SECS;
use crate::model::Observation;
use crate::order::{strictly_sorted, entry_keys, insert_sorted_unique, upsert, compare_str, Rank};
use crate::text::{hex4, hex_bytes, hex_upper, push_hex4, string_views};

verus! {

/// What an advertisement carries, as plain values: UUIDs are given in their
/// text form.
pub struct Advertisement {
    pub local_name: Option<String>,
    pub rssi: Option<i16>,
    pub tx_power_level: Option<i16>,
    /// Manufacturer data by SIG company id.
    pub manufacturer_data: HashMap<u16, Vec<u8>>,
    /// Advertised service UUIDs.
    pub services: Vec<String>,
    /// Service data: UUID and raw payload.
    pub service_data: Vec<(String, Vec<u8>)>,
}

// ───────────────────────── specification ─────────────────────────

/// The vendor shown for a company id: its name, or `0xXXXX`.
pub open spec fn vendor_label(company_id: u16) -> Seq<char> {
    match spec_vendor_name(company_id) {
        Some(n) => n,
        None => "0x"@ + hex4(company_id),
    }
}

/// RSSI as stored: 127 (0x7F) marks "not available", and no positive value
/// is a valid RSSI, so only values `<= 0` are kept.
pub open spec fn usable_rssi(rssi: Option<i16>) -> Option<i16> {
    match rssi {
        Some(r) => if r <= 0 {
            Some(r)
        } else {
            None
        },
        None => None,
    }
}

/// The hex payload of the last service-data entry for `key`, if any.
pub open spec fn last_hex_for(data: Seq<(String, Vec<u8>)>, key: Seq<char>) -> Option<Seq<char>>
    decreases data.len(),
{
    if data.len() == 0 {
        None
    } else if data.last().0@ == key {
        Some(hex_bytes(data.last().1@))
    } else {
        last_hex_for(data.drop_last(), key)
    }
}

/// `out` is the service-data table of `data`: one entry per UUID, sorted by
/// UUID, holding the hex of that UUID's (last) payload.
pub open spec fn service_data_table(data: Seq<(String, Vec<u8>)>, out: Seq<(String, String)>) -> bool {
    &&& strictly_sorted(entry_keys(out))
    &&& forall|i: int|
        0 <= i < out.len() ==> last_hex_for(data, (#[trigger] out[i]).0@) == Some(out[i].1@)
    &&& forall|j: int|
        0 <= j < data.len() ==> entry_keys(out).contains((#[trigger] data[j]).0@)
}

/// `out` lists, sorted and once each, the advertised service UUIDs together
/// with the UUIDs that carry service data.
pub open spec fn service_uuid_list(
    services: Seq<String>,
    data: Seq<(String, Vec<u8>)>,
    out: Seq<String>,
) -> bool {
    &&& strictly_sorted(string_views(out))
    &&& forall|s: Seq<char>|
        #![trigger string_views(out).contains(s)]
        string_views(out).contains(s) <==> (string_views(services).contains(s) || entry_keys_of(
            data,
        ).contains(s))
}

/// The UUIDs of service-data entries.
pub open spec fn entry_keys_of(data: Seq<(String, Vec<u8>)>) -> Seq<Seq<char>> {
    data.map_values(|e: (String, Vec<u8>)| e.0@)
}

/// The manufacturer entry an observation records.
pub open spec fn recorded_entry(company_id: Option<u16>, raw: Option<Vec<u8>>) -> Option<(u16, Seq<u8>)> {
    match (company_id, raw) {
        (Some(c), Some(r)) => Some((c, r@)),
        _ => None,
    }
}

/// The first option if it is `Some`, else the second.
pub open spec fn or_else(a: Option<Seq<char>>, b: Option<Seq<char>>) -> Option<Seq<char>> {
    match a {
        Some(x) => Some(x),
        None => b,
    }
}

/// Company id, vendor, model and raw payload of an observation follow from its
/// primary manufacturer entry: the vendor name (or `0xXXXX`), and the decoded
/// model, else the local name (often the most telling model hint).
pub open spec fn manufacturer_fields(
    mfg: Map<u16, Vec<u8>>,
    local_name: Option<Seq<char>>,
    o: Observation,
) -> bool {
    let entry = recorded_entry(o.company_id, o.raw_mfg_data);
    &&& o.company_id is Some <==> o.raw_mfg_data is Some
    &&& primary_manufacturer_ok(mfg, entry)
    &&& match entry {
        Some((c, p)) => {
            &&& opt_string_view(o.vendor) == Some(vendor_label(c))
            &&& opt_string_view(o.model) == or_else(spec_best_effort_model(c, p), local_name)
        },
        None => {
            &&& o.vendor is None
            &&& opt_string_view(o.model) == local_name
        },
    }
}

// ───────────────────────── executable ─────────────────────────

/// The vendor shown for a company id: its name, or `0xXXXX`.
pub fn vendor_display(company_id: u16) -> (r: String)
    ensures
        r@ == vendor_label(company_id),
{
    match vendor_name(company_id) {
        Some(n) => String::from_str(n),
        None => {
            let mut s = String::from_str("0x");
            push_hex4(&mut s, company_id);
            s
        },
    }
}

fn clone_opt_string(o: &Option<String>) -> (r: Option<String>)
    ensures
        opt_string_view(r) == opt_string_view(*o),
{
    match o {
        Some(s) => Some(s.clone()),
        None => None,
    }
}

/// Builds the service-data table: UUID to upper-case hex payload, sorted by UUID.
pub fn service_data_hex(data: &Vec<(String, Vec<u8>)>) -> (out: Vec<(String, String)>)
    ensures
        service_data_table(data@, out@),
{
    let mut out: Vec<(String, String)> = Vec::new();
    let mut n: usize = 0;
    while n < data.len()
        invariant
            n <= data.len(),
            service_data_table(data@.take(n as int), out@),
        decreases data.len() - n,
    {
        let ghost pre = data@.take(n as int);
        let ghost post = data@.take(n + 1);
        let ghost old_out = out@;
        let key = data[n].0.clone();
        let hex = hex_upper(data[n].1.as_slice());
        let ghost kv = key@;
        let ghost hv = hex@;
        upsert(&mut out, key, hex);
        proof {
            assert(post.drop_last() =~= pre);
            assert(post.last() == data@[n as int]);
            assert forall|i: int| 0 <= i < out@.len() implies last_hex_for(
                post,
                (#[trigger] out@[i]).0@,
            ) == Some(out@[i].1@) by {
                if out@[i].0@ != kv {
                    let j = choose|j: int| 0 <= j < old_out.len() && old_out[j] == out@[i];
                    assert(last_hex_for(pre, old_out[j].0@) == Some(old_out[j].1@));
                } else {
                    let i1 = choose|i1: int|
                        0 <= i1 < out@.len() && (#[trigger] out@[i1]).0@ == kv && out@[i1].1@ == hv;
                    if i1 != i {
                        assert(entry_keys(out@)[i] == entry_keys(out@)[i1]);
                        crate::order::lemma_str_lt_irreflexive(kv);
                    }
                }
            }
            assert forall|j: int| 0 <= j < post.len() implies entry_keys(out@).contains(
                (#[trigger] post[j]).0@,
            ) by {
                if j < n {
                    assert(pre[j] == post[j]);
                    assert(entry_keys(old_out).contains(pre[j].0@));
                    let i0 = choose|i0: int|
                        0 <= i0 < old_out.len() && entry_keys(old_out)[i0] == pre[j].0@;
                    if old_out[i0].0@ == kv {
                        let i1 = choose|i1: int|
                            0 <= i1 < out@.len() && (#[trigger] out@[i1]).0@ == kv && out@[i1].1@
                                == hex_bytes(data@[n as int].1@);
                        assert(entry_keys(out@)[i1] == post[j].0@);
                    } else {
                        let i1 = choose|i1: int| 0 <= i1 < out@.len() && out@[i1] == old_out[i0];
                        assert(entry_keys(out@)[i1] == post[j].0@);
                    }
                } else {
                    let i1 = choose|i1: int|
                        0 <= i1 < out@.len() && (#[trigger] out@[i1]).0@ == kv && out@[i1].1@
                            == hex_bytes(data@[n as int].1@);
                    assert(entry_keys(out@)[i1] == post[j].0@);
                }
            }
        }
        n = n + 1;
    }
    proof {
        assert(data@.take(n as int) =~= data@);
    }
    out
}

/// Sorted, duplicate-free union of the advertised service UUIDs and the
/// UUIDs that carry service data.
pub fn service_uuid_union(services: &Vec<String>, data: &Vec<(String, Vec<u8>)>) -> (out: Vec<String>)
    ensures
        service_uuid_list(services@, data@, out@),
{
    let mut out: Vec<String> = Vec::new();
    let mut n: usize = 0;
    while n < services.len()
        invariant
            n <= services.len(),
            strictly_sorted(string_views(out@)),
            forall|s: Seq<char>|
                #![trigger string_views(out@).contains(s)]
                string_views(out@).contains(s) <==> string_views(services@.take(n as int)).contains(s),
        decreases services.len() - n,
    {
        let ghost old_views = string_views(out@);
        insert_sorted_unique(&mut out, services[n].clone());
        proof {
            let pre = string_views(services@.take(n as int));
            let post = string_views(services@.take(n + 1));
            assert(post =~= pre.push(services@[n as int]@));
            assert forall|s: Seq<char>| string_views(out@).contains(s) <==> post.contains(s) by {
                if post.contains(s) && s != services@[n as int]@ {
                    let i = choose|i: int| 0 <= i < post.len() && post[i] == s;
                    assert(pre[i] == s);
                }
                if pre.contains(s) {
                    let i = choose|i: int| 0 <= i < pre.len() && pre[i] == s;
                    assert(post[i] == s);
                }
                if s == services@[n as int]@ {
                    assert(post[n as int] == s);
                }
            }
        }
        n = n + 1;
    }
    assert(services@.take(n as int) =~= services@);
    let mut m: usize = 0;
    while m < data.len()
        invariant
            m <= data.len(),
            strictly_sorted(string_views(out@)),
            forall|s: Seq<char>|
                #![trigger string_views(out@).contains(s)]
                string_views(out@).contains(s) <==> (string_views(services@).contains(s)
                    || entry_keys_of(data@.take(m as int)).contains(s)),
        decreases data.len() - m,
    {
        insert_sorted_unique(&mut out, data[m].0.clone());
        proof {
            let pre = entry_keys_of(data@.take(m as int));
            let post = entry_keys_of(data@.take(m + 1));
            assert(post =~= pre.push(data@[m as int].0@));
            assert forall|s: Seq<char>|
                string_views(out@).contains(s) <==> (string_views(services@).contains(s)
                    || post.contains(s)) by {
                if post.contains(s) && s != data@[m as int].0@ {
                    let i = choose|i: int| 0 <= i < post.len() && post[i] == s;
                    assert(pre[i] == s);
                }
                if pre.contains(s) {
                    let i = choose|i: int| 0 <= i < pre.len() && pre[i] == s;
                    assert(post[i] == s);
                }
                if s == data@[m as int].0@ {
                    assert(post[m as int] == s);
                }
            }
        }
        m = m + 1;
    }
    assert(data@.take(m as int) =~= data@);
    out
}

/// Normalises one advertisement of device `device_id`, seen at `ts`
/// (Unix seconds), into an observation.
pub fn normalize(device_id: String, address_type: &'static str, ts: i64, ad: &Advertisement) -> (o: Observation)
    ensures
        o.well_formed(),
        o.device_id@ == device_id@,
        o.address_type == address_type,
        o.ts == ts,
        o.rssi == usable_rssi(ad.rssi),
        o.tx_power == ad.tx_power_level,
        opt_string_view(o.local_name) == opt_string_view(ad.local_name),
        manufacturer_fields(ad.manufacturer_data@, opt_string_view(ad.local_name), o),
        service_uuid_list(ad.services@, ad.service_data@, o.service_uuids@),
        service_data_table(ad.service_data@, o.service_data@),
{
    let (company_id, vendor, model, raw) = match primary_manufacturer(&ad.manufacturer_data) {
        Some((cid, payload)) => {
            let vendor = vendor_display(cid);
            let model = best_effort_model(cid, payload);
            let model = match model {
                Some(m) => Some(m),
                None => clone_opt_string(&ad.local_name),
            };
            (Some(cid), Some(vendor), model, Some(vstd::slice::slice_to_vec(payload)))
        },
        None => (None, None, clone_opt_string(&ad.local_name), None),
    };
    let rssi = match ad.rssi {
        Some(r) => if r <= 0 {
            Some(r)
        } else {
            None
        },
        None => None,
    };
    let service_uuids = service_uuid_union(&ad.services, &ad.service_data);
    let service_data = service_data_hex(&ad.service_data);
    let o = Observation {
        device_id,
        address_type,
        ts,
        rssi,
        tx_power: ad.tx_power_level,
        company_id,
        vendor,
        model,
        local_name: clone_opt_string(&ad.local_name),
        service_uuids,
        service_data,
        raw_mfg_data: raw,
    };
    o
}

// ───────────────────────── write throttle ─────────────────────────

/// Whether a device may be written at monotonic time `now_ns`, given the
/// last write times: unseen devices always; others once at least
/// `OBSERVATION_THROTTLE_SECS` whole seconds have passed.
pub open spec fn spec_may_write(last: Map<Seq<char>, u64>, device_id: Seq<char>, now_ns: u64) -> bool {
    !last.contains_key(device_id) || (if now_ns >= last[device_id] {
        now_ns - last[device_id]
    } else {
        0
    }) / 1_000_000_000 >= OBSERVATION_THROTTLE_SECS
}

/// Last write time of each device, in monotonic nanoseconds.
pub struct WriteThrottle {
    entries: Vec<(String, u64)>,
}

impl View for WriteThrottle {
    type V = Map<Seq<char>, u64>;

    closed spec fn view(&self) -> Map<Seq<char>, u64> {
        Map::new(
            |k: Seq<char>| exists|i: int| 0 <= i < self.entries@.len() && #[trigger] self.entries@[i].0@ == k,
            |k: Seq<char>| {
                let i = choose|i: int| 0 <= i < self.entries@.len() && #[trigger] self.entries@[i].0@ == k;
                self.entries@[i].1
            },
        )
    }
}

impl WriteThrottle {
    /// Each device appears once.
    #[verifier::type_invariant]
    closed spec fn unique_devices(&self) -> bool {
        forall|i: int, j: int|
            0 <= i < j < self.entries@.len() ==> (#[trigger] self.entries@[i]).0@
                != (#[trigger] self.entries@[j]).0@
    }

    /// No device written yet.
    pub fn new() -> (t: Self)
        ensures
            t@ == Map::<Seq<char>, u64>::empty(),
    {
        let t = WriteThrottle { entries: Vec::new() };
        assert(t@ =~= Map::<Seq<char>, u64>::empty());
        t
    }

    fn find(&self, device_id: &str) -> (r: Option<usize>)
        ensures
            match r {
                Some(i) => i < self.entries@.len() && self.entries@[i as int].0@ == device_id@,
                None => forall|i: int|
                    0 <= i < self.entries@.len() ==> (#[trigger] self.entries@[i]).0@ != device_id@,
            },
    {
        let mut i: usize = 0;
        while i < self.entries.len()
            invariant
                i <= self.entries@.len(),
                forall|j: int| 0 <= j < i ==> (#[trigger] self.entries@[j]).0@ != device_id@,
            decreases self.entries.len() - i,
        {
            if let Rank::Same = compare_str(self.entries[i].0.as_str(), device_id) {
                return Some(i);
            }
            i = i + 1;
        }
        None
    }

    /// Whether `device_id` may be written at monotonic time `now_ns`.
    pub fn may_write(&self, device_id: &str, now_ns: u64) -> (r: bool)
        ensures
            r == spec_may_write(self@, device_id@, now_ns),
    {
        proof {
            use_type_invariant(self);
        }
        match self.find(device_id) {
            Some(i) => {
                let t = self.entries[i].1;
                proof {
                    assert(self@.contains_key(device_id@));
                    let c = choose|c: int| 0 <= c < self.entries@.len() && #[trigger] self.entries@[c].0@ == device_id@;
                    assert(c == i as int);
                    assert(self@[device_id@] == t);
                }
                let elapsed = if now_ns >= t {
                    now_ns - t
                } else {
                    0
                };
                elapsed / 1_000_000_000 >= OBSERVATION_THROTTLE_SECS
            },
            None => {
                assert(!self@.contains_key(device_id@));
                true
            },
        }
    }

    /// Records a write of `device_id` at monotonic time `now_ns`.
    pub fn record(&mut self, device_id: String, now_ns: u64)
        ensures
            final(self)@ == old(self)@.insert(device_id@, now_ns),
    {
        proof {
            use_type_invariant(&*self);
        }
        let ghost old_view = self@;
        let ghost old_entries = self.entries@;
        let ghost key = device_id@;
        let found = self.find(device_id.as_str());
        let mut e: Vec<(String, u64)> = Vec::new();
        std::mem::swap(&mut e, &mut self.entries);
        assert(e@ == old_entries);
        let ghost n = old_entries.len() as int;
        let ghost pos: int = match found {
            Some(i) => i as int,
            None => n,
        };
        match found {
            Some(i) => {
                e.set(i, (device_id, now_ns));
            },
            None => {
                e.push((device_id, now_ns));
            },
        }
        proof {
            assert(0 <= pos < e@.len());
            assert(e@[pos].0@ == key && e@[pos].1 == now_ns);
            assert(forall|c: int| 0 <= c < e@.len() && c != pos ==> #[trigger] e@[c] == old_entries[c]);
            assert(forall|c: int| 0 <= c < old_entries.len() && c != pos ==> (#[trigger] old_entries[c]).0@ != key);
            assert(e@.len() == old_entries.len() || (e@.len() == old_entries.len() + 1 && pos == n));
        }
        self.entries = e;
        proof {
            let e = self.entries@;
            assert forall|k: Seq<char>| #![auto] self@.contains_key(k) == old_view.insert(key, now_ns).contains_key(k) by {
                if old_view.contains_key(k) {
                    let c = choose|c: int| 0 <= c < old_entries.len() && #[trigger] old_entries[c].0@ == k;
                    if c != pos {
                        assert(e[c].0@ == k);
                    }
                }
                if k == key {
                    assert(e[pos].0@ == k);
                }
            }
            assert forall|k: Seq<char>| #![auto] self@.contains_key(k) implies self@[k] == old_view.insert(key, now_ns)[k] by {
                let c = choose|c: int| 0 <= c < e.len() && #[trigger] e[c].0@ == k;
                if k != key {
                    let c0 = choose|c0: int| 0 <= c0 < old_entries.len() && #[trigger] old_entries[c0].0@ == k;
                    assert(e[c0] == old_entries[c0]);
                    assert(c == c0);
                } else {
                    assert(c == pos);
                }
            }
            assert(self@ =~= old_view.insert(key, now_ns));
        }
    }
}

/// After a write of a device at `t`, the device may be written again exactly
/// once `OBSERVATION_THROTTLE_SECS` seconds have passed; other devices are
/// not affected.
pub proof fn law_throttle_after_record(
    last: Map<Seq<char>, u64>,
    device_id: Seq<char>,
    t: u64,
    later: u64,
    other: Seq<char>,
)
    requires
        t <= later,
        other != device_id,
    ensures
        spec_may_write(last.insert(device_id, t), device_id, later) <==> later - t
            >= 2_000_000_000,
        spec_may_write(last.insert(device_id, t), other, later) == spec_may_write(
            last,
            other,
            later,
        ),
{
}


/// Every RSSI reading at or below 0 dBm is kept as it is; only a missing
/// reading, the 127 sentinel and other positive values read as unknown.
pub proof fn law_rssi_kept_unless_positive(r: i16)
    ensures
        r <= 0 ==> usable_rssi(Some(r)) == Some(r),
        r > 0 ==> usable_rssi(Some(r)) is None,
        usable_rssi(None) is None,
{
}

} // verus!
