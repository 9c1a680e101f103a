//! Arithmetic, parsing, comparison and formatting of the language's 64-bit
//! binary floating-point numbers. A number is carried everywhere as its
//! IEEE-754 bit pattern (a `u64`); the operations themselves are performed by
//! the `rustc_apfloat` software float library behind trusted wrappers, and
//! each result is named by an uninterpreted spec function of the inputs.
use vstd::prelude::*;
use rustc_apfloat::Float;

verus! {

/// The bit pattern of the number that `rustc_apfloat` parses from `s`
/// (0 where `s` is not a numeric literal it accepts).
pub uninterp spec fn spec_num_parse(s: Seq<char>) -> u64;

/// The bit pattern of the rounded sum of the numbers with bit patterns `a` and `b`.
pub uninterp spec fn spec_num_add(a: u64, b: u64) -> u64;

/// The bit pattern of the rounded difference of the numbers `a` and `b`.
pub uninterp spec fn spec_num_sub(a: u64, b: u64) -> u64;

/// The bit pattern of the rounded product of the numbers `a` and `b`.
pub uninterp spec fn spec_num_mul(a: u64, b: u64) -> u64;

/// The bit pattern of the rounded quotient of the numbers `a` and `b`.
pub uninterp spec fn spec_num_div(a: u64, b: u64) -> u64;

/// The bit pattern of the negation of the number `a`.
pub uninterp spec fn spec_num_neg(a: u64) -> u64;

/// Whether the number `a` is strictly below the number `b`.
pub uninterp spec fn spec_num_lt(a: u64, b: u64) -> bool;

/// Whether the number `a` is below or equal to the number `b`.
pub uninterp spec fn spec_num_le(a: u64, b: u64) -> bool;

/// Whether the number `a` is strictly above the number `b`.
pub uninterp spec fn spec_num_gt(a: u64, b: u64) -> bool;

/// Whether the number `a` is above or equal to the number `b`.
pub uninterp spec fn spec_num_ge(a: u64, b: u64) -> bool;

/// Whether the numbers `a` and `b` compare equal (IEEE equality, not bit equality).
pub uninterp spec fn spec_num_eq(a: u64, b: u64) -> bool;

/// The decimal rendering of the number with bit pattern `a`.
pub uninterp spec fn spec_num_format(a: u64) -> Seq<char>;

/// Relies on `<rustc_apfloat::ieee::Double as FromStr>::from_str`: decimal
/// parsing with round-to-nearest-even; the result depends on `s` alone.
#[verifier::external_body]
pub(crate) fn num_parse(s: &str) -> (r: u64)
    ensures
        r == spec_num_parse(s@),
{
    match s.parse::<rustc_apfloat::ieee::Double>() {
        Ok(d) => d.to_bits() as u64,
        Err(_) => 0,
    }
}

/// Relies on `<rustc_apfloat::ieee::Double as Add>::add`: IEEE-754 addition
/// with round-to-nearest-even; the result depends on the operands alone.
#[verifier::external_body]
pub(crate) fn num_add(a: u64, b: u64) -> (r: u64)
    ensures
        r == spec_num_add(a, b),
{
    let x = rustc_apfloat::ieee::Double::from_bits(a as u128);
    let y = rustc_apfloat::ieee::Double::from_bits(b as u128);
    (x + y).value.to_bits() as u64
}

/// Relies on `<rustc_apfloat::ieee::Double as Sub>::sub`: IEEE-754 subtraction
/// with round-to-nearest-even; the result depends on the operands alone.
#[verifier::external_body]
pub(crate) fn num_sub(a: u64, b: u64) -> (r: u64)
    ensures
        r == spec_num_sub(a, b),
{
    let x = rustc_apfloat::ieee::Double::from_bits(a as u128);
    let y = rustc_apfloat::ieee::Double::from_bits(b as u128);
    (x - y).value.to_bits() as u64
}

/// Relies on `<rustc_apfloat::ieee::Double as Mul>::mul`: IEEE-754
/// multiplication with round-to-nearest-even; the result depends on the
/// operands alone.
#[verifier::external_body]
pub(crate) fn num_mul(a: u64, b: u64) -> (r: u64)
    ensures
        r == spec_num_mul(a, b),
{
    let x = rustc_apfloat::ieee::Double::from_bits(a as u128);
    let y = rustc_apfloat::ieee::Double::from_bits(b as u128);
    (x * y).value.to_bits() as u64
}

/// Relies on `<rustc_apfloat::ieee::Double as Div>::div`: IEEE-754 division
/// with round-to-nearest-even; the result depends on the operands alone.
#[verifier::external_body]
pub(crate) fn num_div(a: u64, b: u64) -> (r: u64)
    ensures
        r == spec_num_div(a, b),
{
    let x = rustc_apfloat::ieee::Double::from_bits(a as u128);
    let y = rustc_apfloat::ieee::Double::from_bits(b as u128);
    (x / y).value.to_bits() as u64
}

/// Relies on `<rustc_apfloat::ieee::Double as Neg>::neg`: IEEE-754 sign
/// negation; the result depends on the operand alone.
#[verifier::external_body]
pub(crate) fn num_neg(a: u64) -> (r: u64)
    ensures
        r == spec_num_neg(a),
{
    let x = rustc_apfloat::ieee::Double::from_bits(a as u128);
    (-x).to_bits() as u64
}

/// Relies on `<rustc_apfloat::ieee::Double as PartialOrd>::lt`: IEEE-754
/// ordered comparison; the result depends on the operands alone.
#[verifier::external_body]
pub(crate) fn num_lt(a: u64, b: u64) -> (r: bool)
    ensures
        r == spec_num_lt(a, b),
{
    let x = rustc_apfloat::ieee::Double::from_bits(a as u128);
    let y = rustc_apfloat::ieee::Double::from_bits(b as u128);
    x < y
}

/// Relies on `<rustc_apfloat::ieee::Double as PartialOrd>::le`: IEEE-754
/// ordered comparison; the result depends on the operands alone.
#[verifier::external_body]
pub(crate) fn num_le(a: u64, b: u64) -> (r: bool)
    ensures
        r == spec_num_le(a, b),
{
    let x = rustc_apfloat::ieee::Double::from_bits(a as u128);
    let y = rustc_apfloat::ieee::Double::from_bits(b as u128);
    x <= y
}

/// Relies on `<rustc_apfloat::ieee::Double as PartialOrd>::gt`: IEEE-754
/// ordered comparison; the result depends on the operands alone.
#[verifier::external_body]
pub(crate) fn num_gt(a: u64, b: u64) -> (r: bool)
    ensures
        r == spec_num_gt(a, b),
{
    let x = rustc_apfloat::ieee::Double::from_bits(a as u128);
    let y = rustc_apfloat::ieee::Double::from_bits(b as u128);
    x > y
}

/// Relies on `<rustc_apfloat::ieee::Double as PartialOrd>::ge`: IEEE-754
/// ordered comparison; the result depends on the operands alone.
#[verifier::external_body]
pub(crate) fn num_ge(a: u64, b: u64) -> (r: bool)
    ensures
        r == spec_num_ge(a, b),
{
    let x = rustc_apfloat::ieee::Double::from_bits(a as u128);
    let y = rustc_apfloat::ieee::Double::from_bits(b as u128);
    x >= y
}

/// Relies on `<rustc_apfloat::ieee::Double as PartialEq>::eq`: IEEE-754
/// equality (distinct from bit equality); the result depends on the operands
/// alone.
#[verifier::external_body]
pub(crate) fn num_eq(a: u64, b: u64) -> (r: bool)
    ensures
        r == spec_num_eq(a, b),
{
    let x = rustc_apfloat::ieee::Double::from_bits(a as u128);
    let y = rustc_apfloat::ieee::Double::from_bits(b as u128);
    x == y
}

/// Relies on `<rustc_apfloat::ieee::Double as Display>::fmt`: the decimal
/// rendering depends on the bit pattern alone.
#[verifier::external_body]
pub(crate) fn num_format(a: u64) -> (r: String)
    ensures
        r@ == spec_num_format(a),
{
    let x = rustc_apfloat::ieee::Double::from_bits(a as u128);
    format!("{}", x)
}

} // verus!
