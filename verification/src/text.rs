//! Small string operations with their meaning stated over characters.

use crate::numbers::{all_digits, decimal_u32, digits_value, radix_value};
use vstd::prelude::*;
use vstd::string::StringSliceAdditionalSpecFns;

verus! {

/// Whether two strings hold the same characters, decided on their UTF-8 bytes.
pub fn str_equal(a: &str, b: &str) -> (r: bool)
    ensures
        r == (a@ == b@),
{
    let x = a.as_bytes();
    let y = b.as_bytes();
    proof {
        vstd::utf8::encode_utf8_decode_utf8(a@);
        vstd::utf8::encode_utf8_decode_utf8(b@);
    }
    if x.len() != y.len() {
        return false;
    }
    let mut i: usize = 0;
    while i < x.len()
        invariant
            x@ == a.spec_bytes(),
            y@ == b.spec_bytes(),
            x@.len() == y@.len(),
            i <= x@.len(),
            forall|j: int| 0 <= j < i ==> x@[j] == y@[j],
        decreases x@.len() - i,
    {
        if x[i] != y[i] {
            return false;
        }
        i = i + 1;
    }
    assert(x@ =~= y@);
    true
}

/// Appends one character.
#[verifier::external_body]
pub(crate) fn push_char(s: &mut String, c: char)
    ensures
        final(s)@ == old(s)@.push(c),
{
    s.push(c)
}

/// The decimal digits of `n`, most significant first, without leading zeros.
pub open spec fn decimal(n: nat) -> Seq<char>
    decreases n,
{
    if n < 10 {
        seq![digit_char(n)]
    } else {
        decimal(n / 10).push(digit_char(n % 10))
    }
}

/// The character of a decimal digit.
pub open spec fn digit_char(d: nat) -> char {
    ((d + 0x30) as u8) as char
}

/// `n` written in decimal, as `format!("{}", n)` writes it.
pub fn u32_to_decimal(n: u32) -> (r: String)
    ensures
        r@ == decimal(n as nat),
{
    let mut digits: Vec<char> = Vec::new();
    let mut m: u32 = n;
    // digits are collected least significant first
    loop
        invariant_except_break
            decimal(n as nat) == decimal(m as nat) + digits@.reverse(),
        ensures
            decimal(n as nat) == digits@.reverse(),
        decreases m,
    {
        let d = m % 10;
        let c: char = ((d as u8) + 0x30u8) as char;
        assert(c == digit_char(d as nat));
        let ghost old_digits = digits@;
        digits.push(c);
        assert(digits@.reverse() =~= seq![c] + old_digits.reverse());
        if m < 10 {
            assert(decimal(m as nat) =~= seq![c]);
            break;
        }
        assert(decimal(m as nat) == decimal((m / 10) as nat).push(c));
        assert(decimal(m as nat) + old_digits.reverse() =~= decimal((m / 10) as nat) + digits@.reverse());
        m = m / 10;
    }
    let mut r = String::new();
    let mut k: usize = digits.len();
    while k > 0
        invariant
            k <= digits@.len(),
            r@ == digits@.subrange(k as int, digits@.len() as int).reverse(),
        decreases k,
    {
        k = k - 1;
        push_char(&mut r, digits[k]);
        assert(digits@.subrange(k as int, digits@.len() as int).reverse() =~= digits@.subrange(
            k + 1,
            digits@.len() as int,
        ).reverse().push(digits@[k as int]));
    }
    assert(digits@.subrange(0, digits@.len() as int) =~= digits@);
    r
}

/// The bytes of a text that holds only ASCII characters.
pub open spec fn ascii_bytes(d: Seq<char>) -> Seq<u8> {
    Seq::new(d.len(), |i: int| d[i] as u8)
}

pub(crate) proof fn lemma_decimal_digits(n: nat)
    ensures
        decimal(n).len() > 0,
        forall|i: int| 0 <= i < decimal(n).len() ==> '0' <= #[trigger] decimal(n)[i] <= '9',
        all_digits(ascii_bytes(decimal(n)), 10),
        digits_value(ascii_bytes(decimal(n)), 10) == n,
    decreases n,
{
    let d = decimal(n);
    if n < 10 {
        assert(ascii_bytes(d).drop_last() =~= Seq::<u8>::empty());
        assert(ascii_bytes(d).last() == (n + 0x30) as u8);
        assert(digits_value(ascii_bytes(d), 10) == digits_value(Seq::<u8>::empty(), 10) * 10 + n);
    } else {
        lemma_decimal_digits(n / 10);
        let p = decimal(n / 10);
        assert(ascii_bytes(d).drop_last() =~= ascii_bytes(p));
        assert(ascii_bytes(d).last() == (n % 10 + 0x30) as u8);
        assert(digits_value(ascii_bytes(d), 10) == digits_value(ascii_bytes(p), 10) * 10 + n % 10);
        assert forall|i: int| 0 <= i < d.len() implies '0' <= #[trigger] d[i] <= '9' by {
            if i < p.len() {
                assert(d[i] == p[i]);
            }
        }
    }
}

/// Writing a `u32` in decimal and reading the text back gives the number again.
pub proof fn lemma_decimal_round_trip(n: u32)
    ensures
        decimal_u32(vstd::utf8::encode_utf8(decimal(n as nat))) == Some(n),
{
    let d = decimal(n as nat);
    lemma_decimal_digits(n as nat);
    assert(vstd::utf8::is_ascii_chars(d));
    vstd::utf8::is_ascii_chars_encode_utf8(d);
    let b = vstd::utf8::encode_utf8(d);
    assert(b =~= ascii_bytes(d));
    assert(b[0] != 0x2b && b[0] != 0x2d);
    assert(radix_value(b, 10) == Some(n as nat));
}

/// The characters of `s`.
pub fn chars_of(s: &str) -> (r: Vec<char>)
    ensures
        r@ == s@,
{
    broadcast use vstd::string::group_string_axioms;
    let mut out: Vec<char> = Vec::new();
    for c in iter: s.chars()
        invariant
            out@ == iter.seq().take(iter.index() as int),
    {
        out.push(c);
    }
    out
}

} // verus!
