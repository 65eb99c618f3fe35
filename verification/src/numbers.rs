//! Reading numbers and colour codes such as `#1a2b3c` from the bytes of a string.
//!
//! Everything here works on the UTF-8 bytes of a string, which is what the
//! standard integer parsers read.

use vstd::prelude::*;
use vstd::string::StringSliceAdditionalSpecFns;

verus! {

/// The value of a digit byte in bases up to 36: `0-9` are 0 to 9, and letters of either
/// case are 10 to 35.
pub open spec fn digit_value(b: u8) -> Option<nat> {
    if 0x30 <= b <= 0x39 {
        Some((b - 0x30) as nat)
    } else if 0x41 <= b <= 0x5a {
        Some((b - 0x41 + 10) as nat)
    } else if 0x61 <= b <= 0x7a {
        Some((b - 0x61 + 10) as nat)
    } else {
        None
    }
}

/// Whether `b` is a digit in base `radix`.
pub open spec fn is_digit(b: u8, radix: nat) -> bool {
    match digit_value(b) {
        Some(v) => v < radix,
        None => false,
    }
}

pub open spec fn all_digits(d: Seq<u8>, radix: nat) -> bool {
    forall|i: int| 0 <= i < d.len() ==> is_digit(#[trigger] d[i], radix)
}

/// The number that a string of digits in base `radix` denotes, most significant first.
pub open spec fn digits_value(d: Seq<u8>, radix: nat) -> nat
    decreases d.len(),
{
    if d.len() == 0 {
        0
    } else {
        digits_value(d.drop_last(), radix) * radix + digit_value(d.last()).unwrap_or(0)
    }
}

/// What an unsigned parse in base `radix` reads from `b` before the target type's range
/// is checked: an optional single leading `+`, then one or more digits. A lone sign, an
/// empty input or any other byte gives `None`.
pub open spec fn radix_value(b: Seq<u8>, radix: nat) -> Option<nat> {
    if b.len() == 0 {
        None
    } else if b.len() == 1 && (b[0] == 0x2b || b[0] == 0x2d) {
        None
    } else {
        let digits = if b[0] == 0x2b { b.drop_first() } else { b };
        if all_digits(digits, radix) {
            Some(digits_value(digits, radix))
        } else {
            None
        }
    }
}

/// An unsigned parse in base `radix` into a type whose largest value is `max`.
pub open spec fn radix_parse(b: Seq<u8>, radix: nat, max: nat) -> Option<nat> {
    match radix_value(b, radix) {
        Some(v) => if v <= max { Some(v) } else { None },
        None => None,
    }
}

/// A base-16 parse into a type whose largest value is `max`.
pub open spec fn radix16_parse(b: Seq<u8>, max: nat) -> Option<nat> {
    radix_parse(b, 16, max)
}

/// A decimal parse of the UTF-8 text `b` into a `u32`.
pub open spec fn decimal_u32(b: Seq<u8>) -> Option<u32> {
    match radix_parse(b, 10, u32::MAX as nat) {
        Some(v) => Some(v as u32),
        None => None,
    }
}

/// `b` without its leading `#` bytes.
pub open spec fn strip_leading_hashes(b: Seq<u8>) -> Seq<u8>
    decreases b.len(),
{
    if b.len() > 0 && b[0] == 0x23 {
        strip_leading_hashes(b.drop_first())
    } else {
        b
    }
}

/// The colour code `b` as a 32-bit integer; 0 where it does not parse.
pub open spec fn spec_hex_to_int(b: Seq<u8>) -> u32 {
    match radix16_parse(strip_leading_hashes(b), u32::MAX as nat) {
        Some(v) => v as u32,
        None => 0,
    }
}

/// One channel of a colour code: 0 where the two bytes do not parse.
pub open spec fn channel_value(pair: Seq<u8>) -> u8 {
    match radix16_parse(pair, u8::MAX as nat) {
        Some(v) => v as u8,
        None => 0,
    }
}

/// The red, green and blue channels of the colour code `b`: six bytes after the
/// leading `#`s, read two at a time; all zero where the length is not six.
pub open spec fn spec_hex_to_rgb(b: Seq<u8>) -> Seq<u8> {
    let t = strip_leading_hashes(b);
    if t.len() != 6 {
        seq![0u8, 0u8, 0u8]
    } else {
        seq![
            channel_value(t.subrange(0, 2)),
            channel_value(t.subrange(2, 4)),
            channel_value(t.subrange(4, 6)),
        ]
    }
}

/// Whether the channels of `b` can be cut out of the string: the cuts after the second and
/// fourth byte must not fall inside a character.
pub open spec fn channels_on_char_boundaries(b: Seq<u8>) -> bool {
    let t = strip_leading_hashes(b);
    t.len() == 6 ==> !vstd::utf8::is_continuation_byte(t[2]) && !vstd::utf8::is_continuation_byte(
        t[4],
    )
}

proof fn lemma_value_append_pair(a: Seq<u8>, p: Seq<u8>, radix: nat)
    requires
        p.len() == 2,
    ensures
        digits_value(a + p, radix) == digits_value(a, radix) * radix * radix + digits_value(p, radix),
{
    let v0 = digit_value(p[0]).unwrap_or(0);
    let v1 = digit_value(p[1]).unwrap_or(0);
    let q = p.drop_last();
    assert(q.last() == p[0]);
    assert(q.drop_last() =~= Seq::<u8>::empty());
    assert(digits_value(q, radix) == digits_value(Seq::<u8>::empty(), radix) * radix + v0);
    assert(digits_value(q, radix) == v0);
    assert(p.last() == p[1]);
    assert(digits_value(p, radix) == v0 * radix + v1);
    let ap = a + p;
    assert(ap.drop_last() =~= a.push(p[0]));
    assert(ap.last() == p[1]);
    assert(a.push(p[0]).drop_last() =~= a);
    assert(a.push(p[0]).last() == p[0]);
    let va = digits_value(a, radix);
    assert(digits_value(a.push(p[0]), radix) == va * radix + v0);
    assert(digits_value(ap, radix) == (va * radix + v0) * radix + v1);
    assert((va * radix + v0) * radix + v1 == va * radix * radix + (v0 * radix + v1)) by (nonlinear_arith);
}

proof fn lemma_pair_value(p: Seq<u8>)
    requires
        p.len() == 2,
        all_digits(p, 16),
    ensures
        radix_value(p, 16) == Some(digits_value(p, 16)),
        digits_value(p, 16) <= 255,
{
    assert(is_digit(p[0], 16) && is_digit(p[1], 16));
    assert(p[0] != 0x2b && p[0] != 0x2d);
    let q = p.drop_last();
    assert(q.last() == p[0]);
    assert(q.drop_last() =~= Seq::<u8>::empty());
    assert(digits_value(q, 16) == digits_value(Seq::<u8>::empty(), 16) * 16 + digit_value(p[0]).unwrap_or(0));
    assert(p.last() == p[1]);
    assert(digits_value(p, 16) == digits_value(q, 16) * 16 + digit_value(p[1]).unwrap_or(0));
}

/// For a colour code of six hexadecimal digits after its `#`s, the integer of
/// `hex_to_int` packs the three bytes of `hex_to_rgb`: red times 65536, plus green times
/// 256, plus blue.
pub proof fn lemma_int_packs_rgb(b: Seq<u8>)
    requires
        strip_leading_hashes(b).len() == 6,
        all_digits(strip_leading_hashes(b), 16),
    ensures
        spec_hex_to_int(b) == spec_hex_to_rgb(b)[0] as int * 65536 + spec_hex_to_rgb(b)[1] as int
            * 256 + spec_hex_to_rgb(b)[2] as int,
{
    let t = strip_leading_hashes(b);
    let r = t.subrange(0, 2);
    let g = t.subrange(2, 4);
    let bl = t.subrange(4, 6);
    assert forall|i: int| 0 <= i < 2 implies is_digit(#[trigger] r[i], 16) by {
        assert(r[i] == t[i]);
    }
    assert forall|i: int| 0 <= i < 2 implies is_digit(#[trigger] g[i], 16) by {
        assert(g[i] == t[i + 2]);
    }
    assert forall|i: int| 0 <= i < 2 implies is_digit(#[trigger] bl[i], 16) by {
        assert(bl[i] == t[i + 4]);
    }
    lemma_pair_value(r);
    lemma_pair_value(g);
    lemma_pair_value(bl);
    assert(Seq::<u8>::empty() + r =~= r);
    lemma_value_append_pair(Seq::<u8>::empty(), r, 16);
    lemma_value_append_pair(r, g, 16);
    assert(r + g =~= t.subrange(0, 4));
    lemma_value_append_pair(t.subrange(0, 4), bl, 16);
    assert(t.subrange(0, 4) + bl =~= t);
    assert(t[0] != 0x2b && t[0] != 0x2d) by {
        assert(is_digit(t[0], 16));
    }
    assert(radix_value(t, 16) == Some(digits_value(t, 16)));
}

/// The position of the first byte that is not `#`.
fn skip_hashes(b: &[u8]) -> (n: usize)
    ensures
        n <= b@.len(),
        b@.subrange(n as int, b@.len() as int) == strip_leading_hashes(b@),
{
    let mut i: usize = 0;
    assert(b@.subrange(0, b@.len() as int) =~= b@);
    while i < b.len() && b[i] == 0x23
        invariant
            i <= b@.len(),
            strip_leading_hashes(b@.subrange(i as int, b@.len() as int)) == strip_leading_hashes(b@),
        decreases b@.len() - i,
    {
        assert(b@.subrange(i as int, b@.len() as int).drop_first() =~= b@.subrange(
            i + 1,
            b@.len() as int,
        ));
        i = i + 1;
    }
    i
}

fn digit(b: u8, radix: u32) -> (r: Option<u64>)
    requires
        2 <= radix <= 36,
    ensures
        r matches Some(v) ==> is_digit(b, radix as nat) && digit_value(b) == Some(v as nat),
        r is None ==> !is_digit(b, radix as nat),
{
    let v: u64 = if 0x30 <= b && b <= 0x39 {
        (b - 0x30) as u64
    } else if 0x41 <= b && b <= 0x5a {
        (b - 0x41 + 10) as u64
    } else if 0x61 <= b && b <= 0x7a {
        (b - 0x61 + 10) as u64
    } else {
        return None;
    };
    if v < radix as u64 {
        Some(v)
    } else {
        None
    }
}

/// Reads `b[start..end]` as an unsigned number in base `radix` no larger than `max`.
pub(crate) fn parse_radix(b: &[u8], start: usize, end: usize, radix: u32, max: u32) -> (r: Option<u32>)
    requires
        start <= end <= b@.len(),
        2 <= radix <= 36,
    ensures
        r matches Some(v) ==> radix_parse(b@.subrange(start as int, end as int), radix as nat, max as nat)
            == Some(v as nat),
        r is None ==> radix_parse(b@.subrange(start as int, end as int), radix as nat, max as nat) is None,
{
    let ghost s = b@.subrange(start as int, end as int);
    let ghost rad = radix as nat;
    if start == end {
        return None;
    }
    if end - start == 1 && (b[start] == 0x2b || b[start] == 0x2d) {
        return None;
    }
    let first: usize = if b[start] == 0x2b { start + 1 } else { start };
    let ghost digits = b@.subrange(first as int, end as int);
    assert(digits =~= (if s[0] == 0x2b { s.drop_first() } else { s }));
    let cap: u64 = max as u64 + 1;
    let mut acc: u64 = 0;
    let mut i: usize = first;
    assert(b@.subrange(first as int, first as int) =~= Seq::<u8>::empty());
    while i < end
        invariant
            first <= i <= end <= b@.len(),
            2 <= radix <= 36,
            rad == radix as nat,
            cap == max as u64 + 1,
            s == b@.subrange(start as int, end as int),
            s.len() >= 1,
            !(s.len() == 1 && (s[0] == 0x2b || s[0] == 0x2d)),
            digits == (if s[0] == 0x2b { s.drop_first() } else { s }),
            digits == b@.subrange(first as int, end as int),
            all_digits(b@.subrange(first as int, i as int), rad),
            acc as nat == if digits_value(b@.subrange(first as int, i as int), rad) < cap {
                digits_value(b@.subrange(first as int, i as int), rad)
            } else {
                cap as nat
            },
        decreases end - i,
    {
        let ghost prefix = b@.subrange(first as int, i as int);
        let ghost next = b@.subrange(first as int, i + 1);
        assert(next.drop_last() =~= prefix);
        match digit(b[i], radix) {
            None => {
                assert(digits[i - first] == b@[i as int]);
                assert(!is_digit(digits[i - first], rad));
                return None;
            },
            Some(d) => {
                assert(next.last() == b@[i as int]);
                assert(digits_value(next, rad) == digits_value(prefix, rad) * rad + d);
                proof {
                    let pv = digits_value(prefix, rad);
                    if pv >= cap {
                        assert(pv * rad >= pv) by (nonlinear_arith)
                            requires rad >= 2;
                        assert(acc == cap);
                        assert(cap * (radix as u64) >= cap) by (nonlinear_arith)
                            requires radix >= 2;
                    } else {
                        assert(acc as nat == pv);
                        assert(acc * (radix as u64) == pv * rad);
                    }
                    assert(acc * (radix as u64) <= cap * 36) by (nonlinear_arith)
                        requires acc <= cap, radix <= 36;
                }
                let v = acc * (radix as u64) + d;
                acc = if v < cap { v } else { cap };
                i = i + 1;
            },
        }
    }
    assert(b@.subrange(first as int, end as int) =~= digits);
    if acc < cap {
        Some(acc as u32)
    } else {
        None
    }
}

/// Reads a colour code such as `#ff8800` as one integer: leading `#`s are skipped, an
/// optional `+` and the hexadecimal digits after them make the number; anything that
/// does not parse as a 32-bit unsigned number gives 0.
pub fn hex_to_int(hex: &str) -> (r: u32)
    ensures
        r == spec_hex_to_int(hex.spec_bytes()),
{
    let b = hex.as_bytes();
    let n = skip_hashes(b);
    match parse_radix(b, n, b.len(), 16, u32::MAX) {
        Some(v) => v,
        None => 0,
    }
}

fn channel(b: &[u8], start: usize, end: usize) -> (r: u8)
    requires
        end == start + 2,
        end <= b@.len(),
    ensures
        r == channel_value(b@.subrange(start as int, start + 2)),
{
    match parse_radix(b, start, end, 16, 255) {
        Some(v) => v as u8,
        None => 0,
    }
}

/// Whether the channels of a colour code can be cut out of it (see `hex_to_rgb`).
pub fn channels_split_cleanly(hex: &str) -> (r: bool)
    ensures
        r == channels_on_char_boundaries(hex.spec_bytes()),
{
    let b = hex.as_bytes();
    let n = skip_hashes(b);
    if b.len() - n != 6 {
        return true;
    }
    let c2 = b[n + 2];
    let c4 = b[n + 4];
    !(0x80 <= c2 && c2 <= 0xbf) && !(0x80 <= c4 && c4 <= 0xbf)
}

/// The red, green and blue bytes of a colour code such as `#1a2b3c`: after the leading
/// `#`s there must be exactly six bytes, read in pairs as base-16 numbers; a pair that
/// does not parse gives 0, and any other length gives three zeros.
pub fn hex_to_rgb(hex: &str) -> (rgb: [u8; 3])
    requires
        channels_on_char_boundaries(hex.spec_bytes()),
    ensures
        rgb@ == spec_hex_to_rgb(hex.spec_bytes()),
{
    let b = hex.as_bytes();
    let n = skip_hashes(b);
    let ghost t = b@.subrange(n as int, b@.len() as int);
    if b.len() - n != 6 {
        let r = [0u8, 0u8, 0u8];
        assert(r@ =~= seq![0u8, 0u8, 0u8]);
        return r;
    }
    let r = channel(b, n, n + 2);
    let g = channel(b, n + 2, n + 4);
    let bl = channel(b, n + 4, n + 6);
    assert(t.subrange(0, 2) =~= b@.subrange(n as int, n + 2));
    assert(t.subrange(2, 4) =~= b@.subrange(n + 2, n + 4));
    assert(t.subrange(4, 6) =~= b@.subrange(n + 4, n + 6));
    let out = [r, g, bl];
    assert(out@ =~= spec_hex_to_rgb(hex.spec_bytes()));
    out
}

} // verus!
