//! Byte-level text building blocks: decimal and hexadecimal rendering and
//! JSON string escaping, each proved against a spec-level description of
//! its output.

use vstd::prelude::*;

verus! {

/// Decimal digits of `n`, most significant first.
pub open spec fn spec_dec(n: nat) -> Seq<u8>
    decreases n,
{
    if n < 10 {
        seq![(48 + n) as u8]
    } else {
        spec_dec(n / 10).push((48 + n % 10) as u8)
    }
}

/// Render `n` in decimal.
pub fn dec_u64(n: u64) -> (r: Vec<u8>)
    ensures
        r@ == spec_dec(n as nat),
    decreases n,
{
    if n < 10 {
        let mut v = Vec::new();
        v.push(48 + (n as u8));
        v
    } else {
        let mut v = dec_u64(n / 10);
        v.push(48 + ((n % 10) as u8));
        v
    }
}

/// Decimal rendering of a signed value: a minus sign before the digits of
/// the magnitude when the value is negative.
pub open spec fn spec_dec_i64(n: int) -> Seq<u8> {
    if n >= 0 {
        spec_dec(n as nat)
    } else {
        seq![45u8] + spec_dec((-n) as nat)
    }
}

/// Render `n` in decimal, with a sign when negative.
pub fn dec_i64(n: i64) -> (r: Vec<u8>)
    ensures
        r@ == spec_dec_i64(n as int),
{
    if n >= 0 {
        dec_u64(n as u64)
    } else {
        let magnitude: u64 = (-(n as i128)) as u64;
        let mut v: Vec<u8> = Vec::new();
        v.push(45);
        let mut digits = dec_u64(magnitude);
        v.append(&mut digits);
        assert(v@ =~= spec_dec_i64(n as int));
        v
    }
}

/// The lower-case hexadecimal digit for `n`.
pub open spec fn spec_hex_digit(n: nat) -> u8 {
    if n < 10 {
        (48 + n) as u8
    } else {
        (87 + n) as u8
    }
}

/// The low `k` hexadecimal digits of `n`, most significant first, padded
/// with leading zeros.
pub open spec fn spec_hex_digits(n: nat, k: nat) -> Seq<u8>
    decreases k,
{
    if k == 0 {
        Seq::empty()
    } else {
        spec_hex_digits(n / 16, (k - 1) as nat).push(spec_hex_digit(n % 16))
    }
}

fn hex_digit(n: u64) -> (r: u8)
    requires
        n < 16,
    ensures
        r == spec_hex_digit(n as nat),
{
    if n < 10 {
        48 + (n as u8)
    } else {
        87 + (n as u8)
    }
}

/// Render the low `k` hexadecimal digits of `n`, zero-padded.
pub fn hex_digits(n: u64, k: u8) -> (r: Vec<u8>)
    ensures
        r@ == spec_hex_digits(n as nat, k as nat),
    decreases k,
{
    if k == 0 {
        Vec::new()
    } else {
        let mut v = hex_digits(n / 16, k - 1);
        v.push(hex_digit(n % 16));
        v
    }
}

/// How one byte of a string is written inside a JSON string literal:
/// quote and backslash get a backslash escape, the common control
/// characters their short escapes, the remaining control characters a
/// `\u00..` escape, and every other byte stands as it is.
pub open spec fn spec_esc_byte(b: u8) -> Seq<u8> {
    if b == 34 {
        seq![92u8, 34u8]
    } else if b == 92 {
        seq![92u8, 92u8]
    } else if b == 10 {
        seq![92u8, 110u8]
    } else if b == 13 {
        seq![92u8, 114u8]
    } else if b == 9 {
        seq![92u8, 116u8]
    } else if b < 32 {
        seq![92u8, 117u8, 48u8, 48u8, spec_hex_digit((b / 16) as nat), spec_hex_digit((b % 16) as nat)]
    } else {
        seq![b]
    }
}

/// The body of a JSON string literal holding `s`.
pub open spec fn spec_escaped(s: Seq<u8>) -> Seq<u8>
    decreases s.len(),
{
    if s.len() == 0 {
        Seq::empty()
    } else {
        spec_escaped(s.drop_last()) + spec_esc_byte(s.last())
    }
}

/// A whole JSON string literal holding `s`: quotes around the escaped body.
pub open spec fn spec_quoted(s: Seq<u8>) -> Seq<u8> {
    seq![34u8] + spec_escaped(s) + seq![34u8]
}

/// Escape one byte into `out`.
fn push_esc_byte(out: &mut Vec<u8>, b: u8)
    ensures
        final(out)@ == old(out)@ + spec_esc_byte(b),
{
    if b == 34 {
        out.push(92);
        out.push(34);
    } else if b == 92 {
        out.push(92);
        out.push(92);
    } else if b == 10 {
        out.push(92);
        out.push(110);
    } else if b == 13 {
        out.push(92);
        out.push(114);
    } else if b == 9 {
        out.push(92);
        out.push(116);
    } else if b < 32 {
        out.push(92);
        out.push(117);
        out.push(48);
        out.push(48);
        out.push(hex_digit((b / 16) as u64));
        out.push(hex_digit((b % 16) as u64));
    } else {
        out.push(b);
    }
    assert(final(out)@ =~= old(out)@ + spec_esc_byte(b));
}

/// The escaped body of a JSON string literal holding `s`.
pub fn escaped(s: &Vec<u8>) -> (r: Vec<u8>)
    ensures
        r@ == spec_escaped(s@),
{
    let mut out: Vec<u8> = Vec::new();
    let mut i: usize = 0;
    while i < s.len()
        invariant
            i <= s@.len(),
            out@ == spec_escaped(s@.take(i as int)),
        decreases s@.len() - i,
    {
        assert(s@.take(i + 1).drop_last() =~= s@.take(i as int));
        assert(s@.take(i + 1).last() == s@[i as int]);
        push_esc_byte(&mut out, s[i]);
        i = i + 1;
    }
    assert(s@.take(s@.len() as int) =~= s@);
    out
}

/// A whole JSON string literal holding `s`.
pub fn quoted(s: &Vec<u8>) -> (r: Vec<u8>)
    ensures
        r@ == spec_quoted(s@),
{
    let mut out: Vec<u8> = Vec::new();
    out.push(34);
    let mut body = escaped(s);
    out.append(&mut body);
    out.push(34);
    assert(out@ =~= spec_quoted(s@));
    out
}

} // verus!
