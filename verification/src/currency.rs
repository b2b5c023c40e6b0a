//! Currency formatting for rendered templates: amounts in major units,
//! grouped in threes with a dot, no decimals.

use vstd::prelude::*;
use crate::text::{chars_to_string, spec_digit_char, spec_digits, u64_digits};

verus! {

/// Three zero-padded decimal digits.
pub open spec fn spec_pad3(k: int) -> Seq<char>
    recommends
        0 <= k < 1000,
{
    seq![
        spec_digit_char(k / 100),
        spec_digit_char((k / 10) % 10),
        spec_digit_char(k % 10),
    ]
}

/// The digits of a non-negative amount, grouped in threes from the
/// right with `'.'` between groups.
pub open spec fn spec_grouped(m: int) -> Seq<char>
    recommends
        m >= 0,
    decreases m,
{
    if m < 1000 {
        spec_digits(m)
    } else {
        spec_grouped(m / 1000) + seq!['.'] + spec_pad3(m % 1000)
    }
}

/// The formatted amount: grouped digits, with a leading minus for a
/// negative amount.
pub open spec fn spec_format_currency(n: int) -> Seq<char> {
    if n < 0 {
        seq!['-'] + spec_grouped(-n)
    } else {
        spec_grouped(n)
    }
}

fn pad3(k: u64) -> (r: Vec<char>)
    requires
        k < 1000,
    ensures
        r@ == spec_pad3(k as int),
{
    let mut r: Vec<char> = Vec::new();
    r.push((48 + (k / 100) as u8) as char);
    r.push((48 + ((k / 10) % 10) as u8) as char);
    r.push((48 + (k % 10) as u8) as char);
    assert(r@ =~= spec_pad3(k as int));
    r
}

fn grouped(m: u64) -> (r: Vec<char>)
    ensures
        r@ == spec_grouped(m as int),
    decreases m,
{
    if m < 1000 {
        u64_digits(m)
    } else {
        let mut r = grouped(m / 1000);
        r.push('.');
        let mut tail = pad3(m % 1000);
        r.append(&mut tail);
        assert(r@ =~= spec_grouped(m as int));
        r
    }
}

/// Format an amount in major currency units: digits grouped in threes
/// with dots, a leading minus when negative, no decimal part.
pub fn format_currency(amount: i64) -> (r: String)
    ensures
        r@ == spec_format_currency(amount as int),
{
    if amount < 0 {
        let mag: u64 = (-(amount as i128)) as u64;
        let mut v: Vec<char> = Vec::new();
        v.push('-');
        let mut digits = grouped(mag);
        v.append(&mut digits);
        assert(v@ =~= spec_format_currency(amount as int));
        chars_to_string(&v)
    } else {
        let v = grouped(amount as u64);
        chars_to_string(&v)
    }
}

} // verus!
