//! Small text builders shared by the decoders: decimal and upper-case hex
//! rendering, joining of labels, and character-bounded truncation.

use vstd::prelude::*;
use vstd::string::*;

verus! {

/// The ASCII digit for `d` (`d < 10`).
pub open spec fn digit(d: nat) -> char {
    (d + 48) as char
}

/// The upper-case hex digit for `d` (`d < 16`).
pub open spec fn hex_digit(d: nat) -> char {
    if d < 10 {
        (d + 48) as char
    } else {
        (d + 55) as char
    }
}

/// Decimal notation of `n`, without leading zeros.
pub open spec fn decimal(n: nat) -> Seq<char>
    decreases n,
{
    if n < 10 {
        seq![digit(n)]
    } else {
        decimal(n / 10).push(digit(n % 10))
    }
}

/// Four upper-case hex digits of `v`, most significant first (`{:04X}`).
pub open spec fn hex4(v: u16) -> Seq<char> {
    seq![
        hex_digit(((v as nat) / 4096) % 16),
        hex_digit(((v as nat) / 256) % 16),
        hex_digit(((v as nat) / 16) % 16),
        hex_digit((v as nat) % 16),
    ]
}

/// Two upper-case hex digits of a byte (`{:02X}`).
pub open spec fn hex_byte(b: u8) -> Seq<char> {
    seq![hex_digit((b as nat) / 16), hex_digit((b as nat) % 16)]
}

/// Upper-case hex of a byte string, two digits per byte.
pub open spec fn hex_bytes(bytes: Seq<u8>) -> Seq<char>
    decreases bytes.len(),
{
    if bytes.len() == 0 {
        Seq::empty()
    } else {
        hex_bytes(bytes.drop_last()) + hex_byte(bytes.last())
    }
}

/// The pieces joined by single spaces.
pub open spec fn join_spaced(parts: Seq<Seq<char>>) -> Seq<char>
    decreases parts.len(),
{
    if parts.len() == 0 {
        Seq::empty()
    } else if parts.len() == 1 {
        parts[0]
    } else {
        join_spaced(parts.drop_last()) + " "@ + parts.last()
    }
}

/// The views of a vector of strings.
pub open spec fn string_views(v: Seq<String>) -> Seq<Seq<char>> {
    v.map_values(|s: String| s@)
}

/// `String::push`: appends one character at the end of the string.
#[verifier::external_body]
pub(crate) fn push_char(s: &mut String, c: char)
    ensures
        final(s)@ == old(s)@.push(c),
{
    s.push(c)
}

fn digit_char(d: u8) -> (c: char)
    requires
        d < 10,
    ensures
        c == digit(d as nat),
{
    (d + 48) as char
}

fn hex_char(d: u8) -> (c: char)
    requires
        d < 16,
    ensures
        c == hex_digit(d as nat),
{
    if d < 10 {
        (d + 48) as char
    } else {
        (d + 55) as char
    }
}

/// Appends the decimal notation of `n`.
pub fn push_decimal(s: &mut String, n: u8)
    ensures
        final(s)@ == old(s)@ + decimal(n as nat),
{
    let ghost n0 = n as nat;
    proof {
        reveal_with_fuel(decimal, 3);
        assert((n0 / 10) / 10 == n0 / 100);
    }
    if n >= 100 {
        push_char(s, digit_char(n / 100));
        push_char(s, digit_char((n / 10) % 10));
        assert(decimal(n0 / 10) == seq![digit(n0 / 100), digit((n0 / 10) % 10)]);
    } else if n >= 10 {
        push_char(s, digit_char(n / 10));
        assert(decimal(n0 / 10) == seq![digit(n0 / 10)]);
    }
    push_char(s, digit_char(n % 10));
    assert(final(s)@ =~= old(s)@ + decimal(n0));
}

/// Appends four upper-case hex digits of `v`.
pub fn push_hex4(s: &mut String, v: u16)
    ensures
        final(s)@ == old(s)@ + hex4(v),
{
    push_char(s, hex_char(((v / 4096) % 16) as u8));
    push_char(s, hex_char(((v / 256) % 16) as u8));
    push_char(s, hex_char(((v / 16) % 16) as u8));
    push_char(s, hex_char((v % 16) as u8));
    assert(final(s)@ =~= old(s)@ + hex4(v));
}

/// Upper-case hex encoding of `bytes`, two digits per byte.
pub fn hex_upper(bytes: &[u8]) -> (r: String)
    ensures
        r@ == hex_bytes(bytes@),
{
    let mut r = String::new();
    let mut i: usize = 0;
    while i < bytes.len()
        invariant
            i <= bytes.len(),
            r@ == hex_bytes(bytes@.take(i as int)),
        decreases bytes.len() - i,
    {
        let b = bytes[i];
        push_char(&mut r, hex_char(b / 16));
        push_char(&mut r, hex_char(b % 16));
        proof {
            assert(bytes@.take(i + 1).drop_last() =~= bytes@.take(i as int));
            assert(r@ =~= hex_bytes(bytes@.take(i as int)) + hex_byte(b));
        }
        i = i + 1;
    }
    assert(bytes@.take(i as int) =~= bytes@);
    r
}

/// Joins the strings with single spaces.
pub fn join_with_spaces(parts: &Vec<String>) -> (r: String)
    ensures
        r@ == join_spaced(string_views(parts@)),
{
    let mut r = String::new();
    let mut i: usize = 0;
    while i < parts.len()
        invariant
            i <= parts.len(),
            r@ == join_spaced(string_views(parts@.take(i as int))),
        decreases parts.len() - i,
    {
        let ghost before = string_views(parts@.take(i as int));
        let ghost after = string_views(parts@.take(i + 1));
        proof {
            assert(after.drop_last() =~= before);
            assert(after.last() == parts@[i as int]@);
        }
        if i > 0 {
            r.append(" ");
        }
        r.append(parts[i].as_str());
        assert(r@ =~= join_spaced(after));
        i = i + 1;
    }
    assert(parts@.take(i as int) =~= parts@);
    r
}

} // verus!
