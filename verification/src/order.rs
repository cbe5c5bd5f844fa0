//! The order of strings: lexicographic on their UTF-8 bytes, which is how
//! `str` and `String` are ordered; and sorted, duplicate-free string tables
//! kept in that order.

use vstd::prelude::*;
use vstd::string::*;
use vstd::utf8::{encode_utf8, encode_utf8_decode_utf8};
use crate::text::string_views;

verus! {

/// Byte strings in lexicographic order: `a` comes strictly before `b`.
pub open spec fn bytes_lt(a: Seq<u8>, b: Seq<u8>) -> bool
    decreases a.len(),
{
    if a.len() == 0 {
        b.len() > 0
    } else if b.len() == 0 {
        false
    } else if a[0] != b[0] {
        a[0] < b[0]
    } else {
        bytes_lt(a.drop_first(), b.drop_first())
    }
}

/// Strings in `str` order: `a` comes strictly before `b`.
pub open spec fn str_lt(a: Seq<char>, b: Seq<char>) -> bool {
    bytes_lt(encode_utf8(a), encode_utf8(b))
}

/// The strings are in strictly increasing `str` order (hence distinct).
pub open spec fn strictly_sorted(s: Seq<Seq<char>>) -> bool {
    forall|i: int, j: int| 0 <= i < j < s.len() ==> str_lt(#[trigger] s[i], #[trigger] s[j])
}

pub proof fn lemma_bytes_lt_irreflexive(a: Seq<u8>)
    ensures
        !bytes_lt(a, a),
    decreases a.len(),
{
    if a.len() > 0 {
        lemma_bytes_lt_irreflexive(a.drop_first());
    }
}

pub proof fn lemma_bytes_lt_asymmetric(a: Seq<u8>, b: Seq<u8>)
    ensures
        !(bytes_lt(a, b) && bytes_lt(b, a)),
    decreases a.len(),
{
    if a.len() > 0 && b.len() > 0 && a[0] == b[0] {
        lemma_bytes_lt_asymmetric(a.drop_first(), b.drop_first());
    }
}

pub proof fn lemma_bytes_lt_transitive(a: Seq<u8>, b: Seq<u8>, c: Seq<u8>)
    requires
        bytes_lt(a, b),
        bytes_lt(b, c),
    ensures
        bytes_lt(a, c),
    decreases a.len(),
{
    if a.len() > 0 && b.len() > 0 && c.len() > 0 && a[0] == b[0] && b[0] == c[0] {
        lemma_bytes_lt_transitive(a.drop_first(), b.drop_first(), c.drop_first());
    }
}

pub proof fn lemma_bytes_lt_total(a: Seq<u8>, b: Seq<u8>)
    ensures
        a == b || bytes_lt(a, b) || bytes_lt(b, a),
    decreases a.len(),
{
    if a.len() > 0 && b.len() > 0 && a[0] == b[0] {
        lemma_bytes_lt_total(a.drop_first(), b.drop_first());
        if a.drop_first() == b.drop_first() {
            assert(a =~= seq![a[0]] + a.drop_first());
            assert(b =~= seq![b[0]] + b.drop_first());
        }
    } else if a.len() == 0 && b.len() == 0 {
        assert(a =~= b);
    }
}

pub proof fn lemma_str_lt_irreflexive(a: Seq<char>)
    ensures
        !str_lt(a, a),
{
    lemma_bytes_lt_irreflexive(encode_utf8(a));
}

pub proof fn lemma_str_lt_asymmetric(a: Seq<char>, b: Seq<char>)
    ensures
        !(str_lt(a, b) && str_lt(b, a)),
{
    lemma_bytes_lt_asymmetric(encode_utf8(a), encode_utf8(b));
}

pub proof fn lemma_str_lt_transitive(a: Seq<char>, b: Seq<char>, c: Seq<char>)
    requires
        str_lt(a, b),
        str_lt(b, c),
    ensures
        str_lt(a, c),
{
    lemma_bytes_lt_transitive(encode_utf8(a), encode_utf8(b), encode_utf8(c));
}

pub proof fn lemma_str_lt_total(a: Seq<char>, b: Seq<char>)
    ensures
        a == b || str_lt(a, b) || str_lt(b, a),
{
    lemma_bytes_lt_total(encode_utf8(a), encode_utf8(b));
    if encode_utf8(a) == encode_utf8(b) {
        encode_utf8_decode_utf8(a);
        encode_utf8_decode_utf8(b);
    }
}

/// Where two strings stand to each other in `str` order.
pub enum Rank {
    Before,
    Same,
    After,
}

/// Compares two strings in `str` order (byte-wise lexicographic).
pub fn compare_str(a: &str, b: &str) -> (r: Rank)
    ensures
        r is Before <==> str_lt(a@, b@),
        r is Same <==> a@ == b@,
        r is After <==> str_lt(b@, a@),
{
    let x = a.as_bytes();
    let y = b.as_bytes();
    let ghost xa = encode_utf8(a@);
    let ghost yb = encode_utf8(b@);
    let mut i: usize = 0;
    proof {
        assert(xa.skip(0) =~= xa);
        assert(yb.skip(0) =~= yb);
    }
    while i < x.len() && i < y.len() && x[i] == y[i]
        invariant
            x@ == xa,
            y@ == yb,
            i <= x.len(),
            i <= y.len(),
            xa.take(i as int) == yb.take(i as int),
            bytes_lt(xa, yb) == bytes_lt(xa.skip(i as int), yb.skip(i as int)),
            bytes_lt(yb, xa) == bytes_lt(yb.skip(i as int), xa.skip(i as int)),
        decreases x.len() - i,
    {
        proof {
            assert(xa.skip(i as int).drop_first() =~= xa.skip(i + 1));
            assert(yb.skip(i as int).drop_first() =~= yb.skip(i + 1));
            assert(xa.take(i + 1) =~= xa.take(i as int).push(xa[i as int]));
            assert(yb.take(i + 1) =~= yb.take(i as int).push(yb[i as int]));
        }
        i = i + 1;
    }
    proof {
        lemma_str_lt_total(a@, b@);
        lemma_str_lt_asymmetric(a@, b@);
        lemma_str_lt_irreflexive(a@);
    }
    if i < x.len() && i < y.len() {
        if x[i] < y[i] {
            Rank::Before
        } else {
            Rank::After
        }
    } else if i < y.len() {
        Rank::Before
    } else if i < x.len() {
        Rank::After
    } else {
        proof {
            assert(xa =~= xa.take(i as int));
            assert(yb =~= yb.take(i as int));
            encode_utf8_decode_utf8(a@);
            encode_utf8_decode_utf8(b@);
        }
        Rank::Same
    }
}


/// `a` comes strictly before `b` in `str` order.
pub fn is_before(a: &str, b: &str) -> (r: bool)
    ensures
        r == str_lt(a@, b@),
{
    match compare_str(a, b) {
        Rank::Before => true,
        _ => false,
    }
}

/// Inserts `x` into a strictly sorted list of strings, unless it is already there.
pub fn insert_sorted_unique(v: &mut Vec<String>, x: String)
    requires
        strictly_sorted(string_views(old(v)@)),
    ensures
        strictly_sorted(string_views(final(v)@)),
        forall|s: Seq<char>|
            string_views(final(v)@).contains(s) <==> (string_views(old(v)@).contains(s) || s
                == x@),
{
    let ghost old_views = string_views(v@);
    let mut j: usize = 0;
    while j < v.len() && is_before(v[j].as_str(), x.as_str())
        invariant
            v@ == old(v)@,
            old_views == string_views(v@),
            strictly_sorted(old_views),
            j <= v.len(),
            forall|i: int| 0 <= i < j ==> str_lt(#[trigger] old_views[i], x@),
        decreases v.len() - j,
    {
        j = j + 1;
    }
    if j < v.len() && v[j] == x {
        proof {
            assert forall|s: Seq<char>|
                string_views(v@).contains(s) <==> (old_views.contains(s) || s == x@) by {
                if s == x@ {
                    assert(old_views[j as int] == s);
                }
            }
        }
        return;
    }
    let ghost xv = x@;
    proof {
        if j < v.len() {
            lemma_str_lt_total(old_views[j as int], xv);
        }
    }
    v.insert(j, x);
    proof {
        let nv = string_views(v@);
        assert(nv =~= old_views.insert(j as int, xv));
        assert forall|a: int, b: int| 0 <= a < b < nv.len() implies str_lt(
            #[trigger] nv[a],
            #[trigger] nv[b],
        ) by {
            if b < j {
            } else if a < j && b == j {
            } else if a <= j {
                if b > j + 1 {
                    lemma_str_lt_transitive(xv, old_views[j as int], nv[b]);
                }
                if a < j {
                    lemma_str_lt_transitive(nv[a], xv, nv[b]);
                }
            } else {
            }
        }
        assert forall|s: Seq<char>| nv.contains(s) <==> (old_views.contains(s) || s == xv) by {
            if nv.contains(s) {
                let i = choose|i: int| 0 <= i < nv.len() && nv[i] == s;
                if i < j {
                    assert(old_views[i] == s);
                } else if i > j {
                    assert(old_views[i - 1] == s);
                }
            }
            if old_views.contains(s) {
                let i = choose|i: int| 0 <= i < old_views.len() && old_views[i] == s;
                if i < j {
                    assert(nv[i] == s);
                } else {
                    assert(nv[i + 1] == s);
                }
            }
            if s == xv {
                assert(nv[j as int] == s);
            }
        }
    }
}

/// The keys of a string table.
pub open spec fn entry_keys(m: Seq<(String, String)>) -> Seq<Seq<char>> {
    m.map_values(|e: (String, String)| e.0@)
}

/// Sets the value of key `k` in a table sorted strictly by key: replaces the
/// entry of `k` if there is one, else inserts a new entry in order.
pub fn upsert(m: &mut Vec<(String, String)>, k: String, val: String)
    requires
        strictly_sorted(entry_keys(old(m)@)),
    ensures
        strictly_sorted(entry_keys(final(m)@)),
        exists|i: int|
            0 <= i < final(m)@.len() && (#[trigger] final(m)@[i]).0@ == k@ && final(m)@[i].1@
                == val@,
        forall|i: int|
            0 <= i < final(m)@.len() && (#[trigger] final(m)@[i]).0@ != k@ ==> exists|j: int|
                0 <= j < old(m)@.len() && old(m)@[j] == final(m)@[i],
        forall|j: int|
            0 <= j < old(m)@.len() && (#[trigger] old(m)@[j]).0@ != k@ ==> exists|i: int|
                0 <= i < final(m)@.len() && final(m)@[i] == old(m)@[j],
{
    let ghost old_m = m@;
    let ghost old_keys = entry_keys(m@);
    let ghost kv = k@;
    let ghost vv = val@;
    let mut j: usize = 0;
    while j < m.len() && is_before(m[j].0.as_str(), k.as_str())
        invariant
            m@ == old_m,
            old_keys == entry_keys(m@),
            strictly_sorted(old_keys),
            kv == k@,
            j <= m.len(),
            forall|i: int| 0 <= i < j ==> str_lt(#[trigger] old_keys[i], kv),
        decreases m.len() - j,
    {
        j = j + 1;
    }
    if j < m.len() && m[j].0 == k {
        let ghost e = (k, val);
        m.set(j, (k, val));
        proof {
            let nm = m@;
            assert(nm =~= old_m.update(j as int, e));
            assert(entry_keys(nm) =~= old_keys);
            assert(nm[j as int].0@ == kv && nm[j as int].1@ == vv);
            assert forall|i: int| 0 <= i < nm.len() && (#[trigger] nm[i]).0@ != kv implies exists|
                j2: int,
            | 0 <= j2 < old_m.len() && old_m[j2] == nm[i] by {
                assert(old_m[i] == nm[i]);
            }
            assert forall|j2: int| 0 <= j2 < old_m.len() && (#[trigger] old_m[j2]).0@ != kv implies exists|
                i: int,
            | 0 <= i < nm.len() && nm[i] == old_m[j2] by {
                assert(nm[j2] == old_m[j2]);
            }
        }
        return;
    }
    proof {
        if j < m.len() {
            lemma_str_lt_total(old_keys[j as int], kv);
        }
    }
    let ghost e = (k, val);
    m.insert(j, (k, val));
    proof {
        let nm = m@;
        let nk = entry_keys(nm);
        assert(nm =~= old_m.insert(j as int, e));
        assert(nk =~= old_keys.insert(j as int, kv));
        assert forall|a: int, b: int| 0 <= a < b < nk.len() implies str_lt(
            #[trigger] nk[a],
            #[trigger] nk[b],
        ) by {
            if b < j {
            } else if a < j && b == j {
            } else if a <= j {
                if b > j + 1 {
                    lemma_str_lt_transitive(kv, old_keys[j as int], nk[b]);
                }
                if a < j {
                    lemma_str_lt_transitive(nk[a], kv, nk[b]);
                }
            } else {
            }
        }
        assert(nm[j as int].0@ == kv && nm[j as int].1@ == vv);
        assert forall|i: int| 0 <= i < nm.len() && (#[trigger] nm[i]).0@ != kv implies exists|
            j2: int,
        | 0 <= j2 < old_m.len() && old_m[j2] == nm[i] by {
            if i < j {
                assert(old_m[i] == nm[i]);
            } else {
                assert(old_m[i - 1] == nm[i]);
            }
        }
        assert forall|j2: int| 0 <= j2 < old_m.len() && (#[trigger] old_m[j2]).0@ != kv implies exists|
            i: int,
        | 0 <= i < nm.len() && nm[i] == old_m[j2] by {
            if j2 < j {
                assert(nm[j2] == old_m[j2]);
            } else {
                assert(nm[j2 + 1] == old_m[j2]);
            }
        }
    }
}

} // verus!
