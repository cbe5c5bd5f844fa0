//! Text of the terminal device list.

use vstd::prelude::*;
use vstd::string::*;
use crate::ble::parse::opt_string_view;
use crate::model::DeviceJson;

verus! {

/// `s` cut to at most `max` characters: when longer, its first `max - 1`
/// characters followed by `…`.
pub open spec fn spec_truncate(s: Seq<char>, max: nat) -> Seq<char> {
    if s.len() <= max {
        s
    } else {
        s.take(if max >= 1 { max - 1 } else { 0 }) + "…"@
    }
}

/// Cuts `s` to at most `max` characters, marking a cut with `…`.
pub fn truncate(s: &str, max: usize) -> (r: String)
    ensures
        r@ == spec_truncate(s@, max as nat),
{
    let n = s.unicode_len();
    if n <= max {
        String::from_str(s)
    } else {
        let keep = if max >= 1 { max - 1 } else { 0 };
        let head = s.substring_char(0, keep);
        let mut r = String::from_str(head);
        r.append("…");
        r
    }
}

/// A cut string is never longer than the limit (for a limit of at least one
/// character), and a string within the limit is left as it is.
pub proof fn law_truncate_fits(s: Seq<char>, max: nat)
    requires
        max >= 1,
    ensures
        spec_truncate(s, max).len() <= max,
        s.len() <= max ==> spec_truncate(s, max) == s,
        s.len() > max ==> spec_truncate(s, max).take(max - 1) == s.take(max - 1),
{
    reveal_strlit("…");
    if s.len() > max {
        assert(spec_truncate(s, max).take(max - 1) =~= s.take(max - 1));
    }
}

/// The label of a device in the terminal list: the local name first, then the
/// model when it says something else; without either, the vendor, else `(未知)`.
pub open spec fn spec_device_label(
    local_name: Option<Seq<char>>,
    model: Option<Seq<char>>,
    vendor: Option<Seq<char>>,
) -> Seq<char> {
    let detail = match model {
        Some(m) => if local_name == Some(m) {
            None
        } else {
            Some(m)
        },
        None => None,
    };
    match (local_name, detail) {
        (Some(n), Some(m)) => n + " · "@ + m,
        (Some(n), None) => n,
        (None, Some(m)) => m,
        (None, None) => match vendor {
            Some(v) => v,
            None => "(未知)"@,
        },
    }
}

/// The label of a device in the terminal list.
pub fn device_label(d: &DeviceJson) -> (r: String)
    ensures
        r@ == spec_device_label(
            opt_string_view(d.local_name),
            opt_string_view(d.model),
            opt_string_view(d.vendor),
        ),
{
    let detail: Option<&String> = match &d.model {
        Some(m) => match &d.local_name {
            Some(n) => if *m == *n {
                None
            } else {
                Some(m)
            },
            None => Some(m),
        },
        None => None,
    };
    match (&d.local_name, detail) {
        (Some(n), Some(m)) => {
            let mut s = n.clone();
            s.append(" · ");
            s.append(m.as_str());
            s
        },
        (Some(n), None) => n.clone(),
        (None, Some(m)) => m.clone(),
        (None, None) => match &d.vendor {
            Some(v) => v.clone(),
            None => String::from_str("(未知)"),
        },
    }
}

} // verus!
