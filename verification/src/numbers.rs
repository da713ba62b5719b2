//! Runtime numbers.
//!
//! The language's numbers are IEEE-754 binary64 values. Verified code cannot
//! hold a floating-point value, so throughout the library a number is carried
//! as its 64-bit pattern (`u64`), and every floating-point operation is
//! delegated to an outside software implementation behind the trusted
//! wrappers in this module. Each wrapper's result is given a name (an
//! uninterpreted spec function of the operands alone), and the rest of the
//! library is verified against those names.

use vstd::prelude::*;

use rustc_apfloat::Float;

verus! {

/// The binary64 value denoted by a numeric literal's text, as bits.
pub uninterp spec fn num_of_text(s: Seq<char>) -> u64;

/// The bits of the IEEE-754 sum of two binary64 values, given as bits.
pub uninterp spec fn num_add(a: u64, b: u64) -> u64;

/// The bits of the IEEE-754 difference of two binary64 values.
pub uninterp spec fn num_sub(a: u64, b: u64) -> u64;

/// The bits of the IEEE-754 product of two binary64 values.
pub uninterp spec fn num_mul(a: u64, b: u64) -> u64;

/// The bits of the IEEE-754 quotient of two binary64 values.
pub uninterp spec fn num_div(a: u64, b: u64) -> u64;

/// The bits of the IEEE-754 negation of a binary64 value.
pub uninterp spec fn num_neg(a: u64) -> u64;

/// IEEE-754 `<` on two binary64 values given as bits (false if either is NaN).
pub uninterp spec fn num_lt(a: u64, b: u64) -> bool;

/// IEEE-754 `<=` on two binary64 values given as bits.
pub uninterp spec fn num_le(a: u64, b: u64) -> bool;

/// IEEE-754 `>` on two binary64 values given as bits.
pub uninterp spec fn num_gt(a: u64, b: u64) -> bool;

/// IEEE-754 `>=` on two binary64 values given as bits.
pub uninterp spec fn num_ge(a: u64, b: u64) -> bool;

/// IEEE-754 equality on two binary64 values given as bits: NaN equals
/// nothing, and the two zeros are equal.
pub uninterp spec fn num_eq(a: u64, b: u64) -> bool;

/// The decimal text of a binary64 value given as bits.
pub uninterp spec fn num_text(a: u64) -> Seq<char>;

/// A decimal digit.
pub open spec fn is_digit(c: char) -> bool {
    '0' <= c && c <= '9'
}

/// Every character of `s` is a decimal digit.
pub open spec fn all_digits(s: Seq<char>) -> bool {
    forall|i: int| 0 <= i < s.len() ==> is_digit(#[trigger] s[i])
}

/// The text forms the scanner accepts for a numeric literal: one or more
/// digits, optionally followed by a dot and one or more digits.
pub open spec fn is_number_text(s: Seq<char>) -> bool {
    ||| (s.len() > 0 && all_digits(s))
    ||| (exists|k: int|
        1 <= k <= s.len() - 2 && #[trigger] s[k] == '.' && all_digits(s.subrange(0, k))
            && all_digits(s.subrange(k + 1, s.len() as int)))
}

/// Relies on nom's `double`, which recognizes a decimal number at the front
/// of the input and converts it with Rust's standard string-to-double parse;
/// on the digit texts admitted here it consumes the whole input and succeeds.
#[verifier::external_body]
pub(crate) fn num_from_text(s: &str) -> (r: u64)
    requires
        is_number_text(s@),
    ensures
        r == num_of_text(s@),
{
    match nom::number::complete::double::<&str, nom::error::Error<&str>>(s) {
        Ok((_, n)) => n.to_bits(),
        Err(_) => 0,
    }
}

/// Relies on rustc_apfloat's binary64 addition, which rounds to nearest even
/// as IEEE-754 prescribes.
#[verifier::external_body]
pub(crate) fn num_add_exec(a: u64, b: u64) -> (r: u64)
    ensures
        r == num_add(a, b),
{
    let x = rustc_apfloat::ieee::Double::from_bits(a as u128);
    let y = rustc_apfloat::ieee::Double::from_bits(b as u128);
    (x + y).value.to_bits() as u64
}

/// Relies on rustc_apfloat's binary64 subtraction.
#[verifier::external_body]
pub(crate) fn num_sub_exec(a: u64, b: u64) -> (r: u64)
    ensures
        r == num_sub(a, b),
{
    let x = rustc_apfloat::ieee::Double::from_bits(a as u128);
    let y = rustc_apfloat::ieee::Double::from_bits(b as u128);
    (x - y).value.to_bits() as u64
}

/// Relies on rustc_apfloat's binary64 multiplication.
#[verifier::external_body]
pub(crate) fn num_mul_exec(a: u64, b: u64) -> (r: u64)
    ensures
        r == num_mul(a, b),
{
    let x = rustc_apfloat::ieee::Double::from_bits(a as u128);
    let y = rustc_apfloat::ieee::Double::from_bits(b as u128);
    (x * y).value.to_bits() as u64
}

/// Relies on rustc_apfloat's binary64 division.
#[verifier::external_body]
pub(crate) fn num_div_exec(a: u64, b: u64) -> (r: u64)
    ensures
        r == num_div(a, b),
{
    let x = rustc_apfloat::ieee::Double::from_bits(a as u128);
    let y = rustc_apfloat::ieee::Double::from_bits(b as u128);
    (x / y).value.to_bits() as u64
}

/// Relies on rustc_apfloat's binary64 negation (a sign flip).
#[verifier::external_body]
pub(crate) fn num_neg_exec(a: u64) -> (r: u64)
    ensures
        r == num_neg(a),
{
    let x = rustc_apfloat::ieee::Double::from_bits(a as u128);
    (-x).to_bits() as u64
}

/// Relies on rustc_apfloat's binary64 ordering (`partial_cmp`), which is the
/// IEEE-754 order: NaN compares with nothing.
#[verifier::external_body]
pub(crate) fn num_lt_exec(a: u64, b: u64) -> (r: bool)
    ensures
        r == num_lt(a, b),
{
    let x = rustc_apfloat::ieee::Double::from_bits(a as u128);
    let y = rustc_apfloat::ieee::Double::from_bits(b as u128);
    x < y
}

/// Relies on rustc_apfloat's binary64 ordering.
#[verifier::external_body]
pub(crate) fn num_le_exec(a: u64, b: u64) -> (r: bool)
    ensures
        r == num_le(a, b),
{
    let x = rustc_apfloat::ieee::Double::from_bits(a as u128);
    let y = rustc_apfloat::ieee::Double::from_bits(b as u128);
    x <= y
}

/// Relies on rustc_apfloat's binary64 ordering.
#[verifier::external_body]
pub(crate) fn num_gt_exec(a: u64, b: u64) -> (r: bool)
    ensures
        r == num_gt(a, b),
{
    let x = rustc_apfloat::ieee::Double::from_bits(a as u128);
    let y = rustc_apfloat::ieee::Double::from_bits(b as u128);
    x > y
}

/// Relies on rustc_apfloat's binary64 ordering.
#[verifier::external_body]
pub(crate) fn num_ge_exec(a: u64, b: u64) -> (r: bool)
    ensures
        r == num_ge(a, b),
{
    let x = rustc_apfloat::ieee::Double::from_bits(a as u128);
    let y = rustc_apfloat::ieee::Double::from_bits(b as u128);
    x >= y
}

/// Relies on rustc_apfloat's binary64 equality, defined from its ordering:
/// NaN equals nothing, and the two zeros are equal.
#[verifier::external_body]
pub(crate) fn num_eq_exec(a: u64, b: u64) -> (r: bool)
    ensures
        r == num_eq(a, b),
{
    let x = rustc_apfloat::ieee::Double::from_bits(a as u128);
    let y = rustc_apfloat::ieee::Double::from_bits(b as u128);
    x == y
}

/// Relies on rustc_apfloat's decimal formatting of a binary64 value.
#[verifier::external_body]
pub(crate) fn num_text_exec(a: u64) -> (r: String)
    ensures
        r@ == num_text(a),
{
    format!("{}", rustc_apfloat::ieee::Double::from_bits(a as u128))
}

} // verus!
