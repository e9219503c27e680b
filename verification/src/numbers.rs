//! Runtime numbers.
//!
//! The language's numbers are IEEE-754 double-precision values.  Verified
//! code carries them as their 64-bit encodings and never computes with
//! them itself: every operation goes through `rustc_apfloat`, a pure
//! software implementation of IEEE-754 arithmetic whose interface works on
//! bit patterns.  Each operation's result is given a name by an
//! uninterpreted specification function; the contracts of the interpreter
//! speak of those names.
use vstd::prelude::*;

use rustc_apfloat::Float;
use rustc_apfloat::ieee::Double;

verus! {

/// True of a decimal digit byte.
pub open spec fn is_digit(b: u8) -> bool {
    48 <= b <= 57
}

/// True when every byte of `s` in `[i, j)` is a decimal digit.
pub open spec fn all_digits(s: Seq<u8>, i: int, j: int) -> bool {
    forall|k: int| i <= k < j ==> is_digit(s[k])
}

/// The shape of a number literal: one or more digits, optionally
/// followed by a dot and one or more digits.
pub open spec fn is_number_lexeme(s: Seq<u8>) -> bool {
    ||| (s.len() >= 1 && all_digits(s, 0, s.len() as int))
    ||| (exists|p: int|
        1 <= p <= s.len() - 2 && s[p] == 46u8 && all_digits(s, 0, p) && all_digits(
            s,
            p + 1,
            s.len() as int,
        ))
}

/// The encoding of the double nearest to the decimal literal `s`.
pub uninterp spec fn num_of_decimal(s: Seq<u8>) -> u64;

/// The decimal rendering of the double encoded by `b`.
pub uninterp spec fn num_text(b: u64) -> Seq<u8>;

/// The encoding of the negation of the double encoded by `a`.
pub uninterp spec fn num_neg(a: u64) -> u64;

/// The encoding of the IEEE-754 sum of the doubles encoded by `a` and `b`.
pub uninterp spec fn num_add(a: u64, b: u64) -> u64;

/// The encoding of the IEEE-754 difference of the doubles encoded by `a` and `b`.
pub uninterp spec fn num_sub(a: u64, b: u64) -> u64;

/// The encoding of the IEEE-754 product of the doubles encoded by `a` and `b`.
pub uninterp spec fn num_mul(a: u64, b: u64) -> u64;

/// The encoding of the IEEE-754 quotient of the doubles encoded by `a` and `b`.
pub uninterp spec fn num_div(a: u64, b: u64) -> u64;

/// The IEEE-754 comparison of the doubles encoded by `a` and `b`:
/// 0 less, 1 equal, 2 greater, 3 unordered.
pub uninterp spec fn num_cmp_code(a: u64, b: u64) -> u8;

/// Relies on `rustc_apfloat`'s `FromStr` for `Double`, which parses a
/// decimal literal to the nearest double, rounding ties to even.
#[verifier::external_body]
pub(crate) fn parse_number(s: &[u8]) -> (r: u64)
    requires
        is_number_lexeme(s@),
    ensures
        r == num_of_decimal(s@),
{
    match core::str::from_utf8(s) {
        Ok(t) => match t.parse::<Double>() {
            Ok(d) => d.to_bits() as u64,
            Err(_) => 0,
        },
        Err(_) => 0,
    }
}

/// Relies on `rustc_apfloat`'s `Display` for `Double`, which renders the
/// value in decimal from its bits alone.
#[verifier::external_body]
pub(crate) fn format_number(b: u64) -> (r: Vec<u8>)
    ensures
        r@ == num_text(b),
{
    let d = Double::from_bits(b as u128);
    format!("{}", d).into_bytes()
}

/// Relies on `rustc_apfloat`'s `Neg` for `Double`, which flips the sign.
#[verifier::external_body]
pub(crate) fn neg_number(a: u64) -> (r: u64)
    ensures
        r == num_neg(a),
{
    (-Double::from_bits(a as u128)).to_bits() as u64
}

/// Relies on `rustc_apfloat`'s `Add` for `Double`: IEEE-754 addition,
/// rounding ties to even.
#[verifier::external_body]
pub(crate) fn add_numbers(a: u64, b: u64) -> (r: u64)
    ensures
        r == num_add(a, b),
{
    let x = Double::from_bits(a as u128);
    let y = Double::from_bits(b as u128);
    (x + y).value.to_bits() as u64
}

/// Relies on `rustc_apfloat`'s `Sub` for `Double`: IEEE-754 subtraction,
/// rounding ties to even.
#[verifier::external_body]
pub(crate) fn sub_numbers(a: u64, b: u64) -> (r: u64)
    ensures
        r == num_sub(a, b),
{
    let x = Double::from_bits(a as u128);
    let y = Double::from_bits(b as u128);
    (x - y).value.to_bits() as u64
}

/// Relies on `rustc_apfloat`'s `Mul` for `Double`: IEEE-754 multiplication,
/// rounding ties to even.
#[verifier::external_body]
pub(crate) fn mul_numbers(a: u64, b: u64) -> (r: u64)
    ensures
        r == num_mul(a, b),
{
    let x = Double::from_bits(a as u128);
    let y = Double::from_bits(b as u128);
    (x * y).value.to_bits() as u64
}

/// Relies on `rustc_apfloat`'s `Div` for `Double`: IEEE-754 division,
/// rounding ties to even; division by zero yields an infinity or NaN,
/// never a failure.
#[verifier::external_body]
pub(crate) fn div_numbers(a: u64, b: u64) -> (r: u64)
    ensures
        r == num_div(a, b),
{
    let x = Double::from_bits(a as u128);
    let y = Double::from_bits(b as u128);
    (x / y).value.to_bits() as u64
}

/// Relies on `rustc_apfloat`'s `PartialOrd` for `Double`, which orders
/// by IEEE-754 comparison; a NaN operand compares as unordered.
#[verifier::external_body]
pub(crate) fn compare_numbers(a: u64, b: u64) -> (r: u8)
    ensures
        r == num_cmp_code(a, b),
        r <= 3,
{
    let x = Double::from_bits(a as u128);
    let y = Double::from_bits(b as u128);
    match x.partial_cmp(&y) {
        Some(core::cmp::Ordering::Less) => 0,
        Some(core::cmp::Ordering::Equal) => 1,
        Some(core::cmp::Ordering::Greater) => 2,
        None => 3,
    }
}

} // verus!
