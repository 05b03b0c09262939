//! Exact decimal rendering of the integer metrics: plain decimal numbers,
//! centi-unit fixed-point values ("12.34"), and kibibyte figures converted
//! to mebibytes with two decimal places.

use vstd::prelude::*;

use crate::text::push_char;

verus! {

/// The decimal digit character for `d` (`d < 10`).
pub open spec fn digit_char(d: nat) -> char {
    if d == 0 {
        '0'
    } else if d == 1 {
        '1'
    } else if d == 2 {
        '2'
    } else if d == 3 {
        '3'
    } else if d == 4 {
        '4'
    } else if d == 5 {
        '5'
    } else if d == 6 {
        '6'
    } else if d == 7 {
        '7'
    } else if d == 8 {
        '8'
    } else {
        '9'
    }
}

/// The decimal digit string of `n`, without leading zeros (`0` is "0").
pub open spec fn dec_digits(n: nat) -> Seq<char>
    decreases n,
{
    if n < 10 {
        seq![digit_char(n)]
    } else {
        dec_digits(n / 10).push(digit_char(n % 10))
    }
}

/// A centi-unit value rendered as a fixed-point number with two decimal
/// places: `1234` becomes "12.34".
pub open spec fn centi_string(c: nat) -> Seq<char> {
    dec_digits(c / 100) + seq!['.'] + seq![digit_char((c % 100) / 10), digit_char(c % 10)]
}

/// A kibibyte count as hundredths of a mebibyte, rounded to nearest
/// (half away from zero): `round(kb * 100 / 1024)`.
pub open spec fn mb_centi(kb: nat) -> nat {
    ((kb * 100 + 512) / 1024) as nat
}

/// A kibibyte count rendered as a mebibyte figure with two decimal places.
pub open spec fn mb_string(kb: nat) -> Seq<char> {
    centi_string(mb_centi(kb))
}

/// The decimal digit character for `d`.
fn digit_to_char(d: u64) -> (c: char)
    requires
        d < 10,
    ensures
        c == digit_char(d as nat),
{
    if d == 0 {
        '0'
    } else if d == 1 {
        '1'
    } else if d == 2 {
        '2'
    } else if d == 3 {
        '3'
    } else if d == 4 {
        '4'
    } else if d == 5 {
        '5'
    } else if d == 6 {
        '6'
    } else if d == 7 {
        '7'
    } else if d == 8 {
        '8'
    } else {
        '9'
    }
}

/// The decimal digit string of `n`.
pub fn u64_string(n: u64) -> (r: String)
    ensures
        r@ == dec_digits(n as nat),
    decreases n,
{
    if n < 10 {
        let mut r = String::new();
        push_char(&mut r, digit_to_char(n));
        proof {
            assert(r@ =~= dec_digits(n as nat));
        }
        r
    } else {
        let mut r = u64_string(n / 10);
        push_char(&mut r, digit_to_char(n % 10));
        r
    }
}

/// A centi-unit value as a fixed-point string with two decimal places.
pub fn centi_to_string(c: u64) -> (r: String)
    ensures
        r@ == centi_string(c as nat),
{
    let mut r = u64_string(c / 100);
    push_char(&mut r, '.');
    let f = c % 100;
    push_char(&mut r, digit_to_char(f / 10));
    push_char(&mut r, digit_to_char(f % 10));
    proof {
        assert((c % 100) % 10 == c % 10);
        assert(r@ =~= centi_string(c as nat));
    }
    r
}

/// A kibibyte count as a mebibyte figure with two decimal places.
pub fn kb_to_mb_string(kb: u64) -> (r: String)
    ensures
        r@ == mb_string(kb as nat),
{
    let q = kb / 1024;
    let rem = kb % 1024;
    let f = (rem * 100 + 512) / 1024;
    let centi = q * 100 + f;
    proof {
        assert(kb == 1024 * q + rem);
        assert(kb * 100 + 512 == 1024 * (100 * q) + (rem * 100 + 512));
        vstd::arithmetic::div_mod::lemma_hoist_over_denominator(
            rem * 100 + 512,
            100 * (q as int),
            1024,
        );
        assert(centi == mb_centi(kb as nat));
    }
    centi_to_string(centi)
}

} // verus!
