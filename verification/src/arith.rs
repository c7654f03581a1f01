//! The trusted boundary around the arbitrary-precision integer crate.
//!
//! Every executable operation on `num_bigint::BigInt` that the library
//! performs goes through one of the wrappers below. Each wrapper's contract
//! speaks of `value_of`, the mathematical integer a `BigInt` stands for, and
//! states only what num-bigint's source and documentation show.

use vstd::prelude::*;
use vstd::arithmetic::power::pow;
use vstd::arithmetic::power2::pow2;
use vstd::math::abs;
use num_integer::Integer;
use num_traits::ToPrimitive;
use rand::RngCore;

verus! {

#[verifier::external_type_specification]
#[verifier::external_body]
pub struct ExBigInt(num_bigint::BigInt);

/// The mathematical integer that a `num_bigint::BigInt` holds. Only the
/// trusted wrappers below give it meaning.
pub uninterp spec fn value_of(n: num_bigint::BigInt) -> int;

/// Greatest common divisor, by Euclid's recursion.
pub open spec fn gcd(a: nat, b: nat) -> nat
    decreases b,
{
    if b == 0 {
        a
    } else {
        gcd(b, a % b)
    }
}

/// The unsigned big-endian reading of a byte string.
pub open spec fn be_bytes_value(s: Seq<u8>) -> int
    decreases s.len(),
{
    if s.len() == 0 {
        0
    } else {
        be_bytes_value(s.drop_last()) * 256 + s.last()
    }
}

/// The bit of `n` with weight `pow2(k)`: under flooring division this is the
/// two's-complement bit for negative `n` as well.
pub open spec fn bit_of(n: int, k: nat) -> int {
    (n / pow2(k) as int) % 2
}

/// `n` with the bit of weight `pow2(k)` forced to `v`.
pub open spec fn with_bit(n: int, k: nat, v: bool) -> int {
    n + ((if v {
        1int
    } else {
        0int
    }) - bit_of(n, k)) * pow2(k) as int
}

/// Relies on `From<u64> for num_bigint::BigInt`: an exact conversion.
#[verifier::external_body]
pub(crate) fn big_from_u64(v: u64) -> (r: num_bigint::BigInt)
    ensures
        value_of(r) == v,
{
    num_bigint::BigInt::from(v)
}

/// Relies on `Add for &num_bigint::BigInt`: exact integer addition.
#[verifier::external_body]
pub(crate) fn big_add(a: &num_bigint::BigInt, b: &num_bigint::BigInt) -> (r: num_bigint::BigInt)
    ensures
        value_of(r) == value_of(*a) + value_of(*b),
{
    a + b
}

/// Relies on `Sub for &num_bigint::BigInt`: exact integer subtraction.
#[verifier::external_body]
pub(crate) fn big_sub(a: &num_bigint::BigInt, b: &num_bigint::BigInt) -> (r: num_bigint::BigInt)
    ensures
        value_of(r) == value_of(*a) - value_of(*b),
{
    a - b
}

/// Relies on `Mul for &num_bigint::BigInt`: exact integer multiplication.
#[verifier::external_body]
pub(crate) fn big_mul(a: &num_bigint::BigInt, b: &num_bigint::BigInt) -> (r: num_bigint::BigInt)
    ensures
        value_of(r) == value_of(*a) * value_of(*b),
{
    a * b
}

/// Relies on `num_integer::Integer::mod_floor` for `BigInt`: for a positive
/// modulus the result is the canonical residue in `[0, modulus)`.
#[verifier::external_body]
pub(crate) fn big_mod_floor(a: &num_bigint::BigInt, m: &num_bigint::BigInt) -> (r:
    num_bigint::BigInt)
    requires
        value_of(*m) > 0,
    ensures
        value_of(r) == value_of(*a) % value_of(*m),
{
    a.mod_floor(m)
}

/// Relies on `num_bigint::BigInt::modpow`: `(base ^ exponent) mod modulus`,
/// rounded like `mod_floor`. It panics only on a negative exponent or a zero
/// modulus, which the precondition rules out.
#[verifier::external_body]
pub(crate) fn big_modpow(
    base: &num_bigint::BigInt,
    exponent: &num_bigint::BigInt,
    modulus: &num_bigint::BigInt,
) -> (r: num_bigint::BigInt)
    requires
        value_of(*exponent) >= 0,
        value_of(*modulus) > 0,
    ensures
        value_of(r) == pow(value_of(*base), value_of(*exponent) as nat) % value_of(*modulus),
{
    base.modpow(exponent, modulus)
}

/// Relies on `num_bigint::BigInt::modinv`: the inverse exists if and only if
/// `gcd(a, modulus) == 1`, and for a modulus above one lies in `[0, modulus)`.
/// A modulus of one is excluded: there `modinv` returns a value, but nothing
/// is its own inverse in the trivial ring.
#[verifier::external_body]
pub(crate) fn big_modinv(a: &num_bigint::BigInt, m: &num_bigint::BigInt) -> (r: Option<
    num_bigint::BigInt,
>)
    requires
        value_of(*m) > 1,
    ensures
        r is Some <==> gcd(abs(value_of(*a)), abs(value_of(*m))) == 1,
        r matches Some(v) ==> 0 <= value_of(v) < value_of(*m) && (value_of(*a) * value_of(v))
            % value_of(*m) == 1,
{
    a.modinv(m)
}

/// Relies on `num_integer::Integer::gcd` for `BigInt`: the non-negative
/// greatest common divisor of the two magnitudes.
#[verifier::external_body]
pub(crate) fn big_gcd(a: &num_bigint::BigInt, b: &num_bigint::BigInt) -> (r: num_bigint::BigInt)
    ensures
        value_of(r) == gcd(abs(value_of(*a)), abs(value_of(*b))),
{
    a.gcd(b)
}

/// Relies on `num_bigint::BigInt::pow`: exact exponentiation by a `u32`.
#[verifier::external_body]
pub(crate) fn big_pow(base: &num_bigint::BigInt, exponent: u32) -> (r: num_bigint::BigInt)
    ensures
        value_of(r) == pow(value_of(*base), exponent as nat),
{
    base.pow(exponent)
}

/// Relies on `Shr<usize> for &num_bigint::BigInt`: an arithmetic right shift,
/// which on a non-negative value divides by `pow2(shift)`, rounding down.
#[verifier::external_body]
pub(crate) fn big_shr(n: &num_bigint::BigInt, shift: usize) -> (r: num_bigint::BigInt)
    requires
        value_of(*n) >= 0,
    ensures
        value_of(r) == value_of(*n) / pow2(shift as nat) as int,
{
    n >> shift
}

/// Relies on `num_bigint::BigInt::from_bytes_be` with a plus sign: the bytes
/// are read as an unsigned big-endian integer.
#[verifier::external_body]
pub(crate) fn big_from_bytes_be(bytes: &[u8]) -> (r: num_bigint::BigInt)
    ensures
        value_of(r) == be_bytes_value(bytes@),
{
    num_bigint::BigInt::from_bytes_be(num_bigint::Sign::Plus, bytes)
}

/// Relies on `num_bigint::BigInt::bits`: the fewest bits that express the
/// magnitude, so a positive value lies in `[pow2(bits - 1), pow2(bits))`.
#[verifier::external_body]
pub(crate) fn big_bits(n: &num_bigint::BigInt) -> (r: u64)
    requires
        value_of(*n) >= 0,
    ensures
        value_of(*n) == 0 ==> r == 0,
        value_of(*n) > 0 ==> 1 <= r && pow2((r - 1) as nat) <= value_of(*n) < pow2(r as nat),
{
    n.bits()
}

/// Relies on `num_bigint::BigInt::set_bit`: sets or clears one bit, reading a
/// negative value in two's complement, which is exactly what `with_bit` says
/// under flooring division.
#[verifier::external_body]
pub(crate) fn big_set_bit(n: &mut num_bigint::BigInt, bit: u64, value: bool)
    ensures
        value_of(*final (n)) == with_bit(value_of(*old(n)), bit as nat, value),
{
    n.set_bit(bit, value)
}

/// Relies on `num_integer::Integer::is_multiple_of` for `BigInt`: whether the
/// first magnitude is a multiple of the second.
#[verifier::external_body]
pub(crate) fn big_is_multiple_of(a: &num_bigint::BigInt, b: &num_bigint::BigInt) -> (r: bool)
    requires
        value_of(*b) > 0,
    ensures
        r == (value_of(*a) % value_of(*b) == 0),
{
    a.is_multiple_of(b)
}

/// Relies on `PartialOrd for num_bigint::BigInt`: the order of the values.
#[verifier::external_body]
pub(crate) fn big_lt(a: &num_bigint::BigInt, b: &num_bigint::BigInt) -> (r: bool)
    ensures
        r == (value_of(*a) < value_of(*b)),
{
    a < b
}

/// Relies on `PartialEq for num_bigint::BigInt`: the representation is
/// canonical, so equality of values is equality of representations.
#[verifier::external_body]
pub(crate) fn big_eq(a: &num_bigint::BigInt, b: &num_bigint::BigInt) -> (r: bool)
    ensures
        r == (value_of(*a) == value_of(*b)),
{
    a == b
}

/// Relies on `num_traits::ToPrimitive::to_u64` for `BigInt`: `Some` exactly
/// when the value fits in a `u64`.
#[verifier::external_body]
pub(crate) fn big_to_u64(n: &num_bigint::BigInt) -> (r: Option<u64>)
    ensures
        r is Some <==> 0 <= value_of(*n) <= u64::MAX,
        r matches Some(v) ==> v == value_of(*n),
{
    n.to_u64()
}

/// Relies on `rand::thread_rng` and `RngCore::fill_bytes`: a buffer of `len`
/// bytes from the process-wide cryptographically secure generator. Nothing is
/// assumed of the bytes' values.
#[verifier::external_body]
pub(crate) fn random_bytes(len: usize) -> (r: Vec<u8>)
    ensures
        r@.len() == len,
{
    let mut buf: Vec<u8> = vec![0; len];
    rand::thread_rng().fill_bytes(&mut buf);
    buf
}

} // verus!
