//! IEEE-754 binary64 numbers, carried through the calculator as their 64-bit
//! patterns. The operations themselves are performed by the software float
//! implementation in `rustc_apfloat`, behind the trusted functions below; each
//! result is a pure function of the argument bit patterns, so it is given a
//! name that the rest of the library's contracts can speak of.

use vstd::prelude::*;
use rustc_apfloat::Float;
use rustc_apfloat::ieee::Double;

verus! {

pub uninterp spec fn parsed_bits_of(text: Seq<u8>) -> Option<u64>;

/// Relies on rustc_apfloat's `ieee::Double` `FromStr`: parsing decimal text
/// yields the correctly rounded binary64 value (or fails on malformed text),
/// a function of the text alone.
#[verifier::external_body]
pub fn parse_number(text: &Vec<u8>) -> (r: Option<u64>)
    ensures
        r == parsed_bits_of(text@),
{
    let s = match core::str::from_utf8(text.as_slice()) {
        Ok(s) => s,
        Err(_) => return None,
    };
    match s.parse::<Double>() {
        Ok(v) => Some(v.to_bits() as u64),
        Err(_) => None,
    }
}

pub uninterp spec fn sum_bits(a: u64, b: u64) -> u64;

/// Relies on rustc_apfloat `Double` addition (IEEE-754 binary64, round to
/// nearest even), a function of the two bit patterns alone.
#[verifier::external_body]
pub fn add_numbers(a: u64, b: u64) -> (r: u64)
    ensures
        r == sum_bits(a, b),
{
    (Double::from_bits(a as u128) + Double::from_bits(b as u128)).value.to_bits() as u64
}

pub uninterp spec fn diff_bits(a: u64, b: u64) -> u64;

/// Relies on rustc_apfloat `Double` subtraction (IEEE-754 binary64, round to
/// nearest even), a function of the two bit patterns alone.
#[verifier::external_body]
pub fn sub_numbers(a: u64, b: u64) -> (r: u64)
    ensures
        r == diff_bits(a, b),
{
    (Double::from_bits(a as u128) - Double::from_bits(b as u128)).value.to_bits() as u64
}

pub uninterp spec fn prod_bits(a: u64, b: u64) -> u64;

/// Relies on rustc_apfloat `Double` multiplication (IEEE-754 binary64, round
/// to nearest even), a function of the two bit patterns alone.
#[verifier::external_body]
pub fn mul_numbers(a: u64, b: u64) -> (r: u64)
    ensures
        r == prod_bits(a, b),
{
    (Double::from_bits(a as u128) * Double::from_bits(b as u128)).value.to_bits() as u64
}

pub uninterp spec fn quot_bits(a: u64, b: u64) -> u64;

/// Relies on rustc_apfloat `Double` division (IEEE-754 binary64, round to
/// nearest even; division by zero yields an infinity or NaN, never a failure),
/// a function of the two bit patterns alone.
#[verifier::external_body]
pub fn div_numbers(a: u64, b: u64) -> (r: u64)
    ensures
        r == quot_bits(a, b),
{
    (Double::from_bits(a as u128) / Double::from_bits(b as u128)).value.to_bits() as u64
}

pub uninterp spec fn rem_bits(a: u64, b: u64) -> u64;

/// Relies on rustc_apfloat `Double` remainder (`c_fmod`, the truncated
/// remainder with the sign of the dividend, as Rust's `%` computes it),
/// a function of the two bit patterns alone.
#[verifier::external_body]
pub fn rem_numbers(a: u64, b: u64) -> (r: u64)
    ensures
        r == rem_bits(a, b),
{
    (Double::from_bits(a as u128) % Double::from_bits(b as u128)).value.to_bits() as u64
}

pub uninterp spec fn lt_bits(a: u64, b: u64) -> bool;

/// Relies on rustc_apfloat `Double` ordering (`PartialOrd`, IEEE-754
/// comparison: NaN is unordered), a function of the two bit patterns alone.
#[verifier::external_body]
pub fn lt_numbers(a: u64, b: u64) -> (r: bool)
    ensures
        r == lt_bits(a, b),
{
    Double::from_bits(a as u128) < Double::from_bits(b as u128)
}

pub uninterp spec fn le_bits(a: u64, b: u64) -> bool;

/// Relies on rustc_apfloat `Double` ordering (`PartialOrd`, IEEE-754
/// comparison: NaN is unordered), a function of the two bit patterns alone.
#[verifier::external_body]
pub fn le_numbers(a: u64, b: u64) -> (r: bool)
    ensures
        r == le_bits(a, b),
{
    Double::from_bits(a as u128) <= Double::from_bits(b as u128)
}

pub uninterp spec fn gt_bits(a: u64, b: u64) -> bool;

/// Relies on rustc_apfloat `Double` ordering (`PartialOrd`, IEEE-754
/// comparison: NaN is unordered), a function of the two bit patterns alone.
#[verifier::external_body]
pub fn gt_numbers(a: u64, b: u64) -> (r: bool)
    ensures
        r == gt_bits(a, b),
{
    Double::from_bits(a as u128) > Double::from_bits(b as u128)
}

pub uninterp spec fn ge_bits(a: u64, b: u64) -> bool;

/// Relies on rustc_apfloat `Double` ordering (`PartialOrd`, IEEE-754
/// comparison: NaN is unordered), a function of the two bit patterns alone.
#[verifier::external_body]
pub fn ge_numbers(a: u64, b: u64) -> (r: bool)
    ensures
        r == ge_bits(a, b),
{
    Double::from_bits(a as u128) >= Double::from_bits(b as u128)
}

pub uninterp spec fn eq_bits(a: u64, b: u64) -> bool;

/// Relies on rustc_apfloat `Double` equality (`PartialEq`, IEEE-754
/// comparison: NaN equals nothing, zeroes of both signs are equal),
/// a function of the two bit patterns alone.
#[verifier::external_body]
pub fn eq_numbers(a: u64, b: u64) -> (r: bool)
    ensures
        r == eq_bits(a, b),
{
    Double::from_bits(a as u128) == Double::from_bits(b as u128)
}

pub uninterp spec fn rendered_bits(bits: u64) -> Seq<char>;

/// Relies on rustc_apfloat `Double` `Display`: the decimal rendering of the
/// value, a function of the bit pattern alone.
#[verifier::external_body]
pub fn render_number(bits: u64) -> (r: String)
    ensures
        r@ == rendered_bits(bits),
{
    format!("{}", Double::from_bits(bits as u128))
}

} // verus!
