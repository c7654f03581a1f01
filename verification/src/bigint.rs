//! Uniform random sampling of big integers and modulus-aware arithmetic.

use vstd::prelude::*;
use vstd::arithmetic::div_mod::{
    lemma_add_mod_noop, lemma_add_mod_noop_right, lemma_div_pos_is_pos, lemma_fundamental_div_mod,
    lemma_mod_bound, lemma_mul_mod_noop, lemma_multiply_divide_lt, lemma_sub_mod_noop,
};
use vstd::arithmetic::mul::lemma_mul_basics;
use vstd::arithmetic::power::lemma_pow_increases;
use vstd::arithmetic::power2::{lemma2_to64, lemma_pow2, lemma_pow2_adds, lemma_pow2_pos, pow2};
use crate::arith::{
    be_bytes_value, big_add, big_bits, big_from_bytes_be, big_from_u64, big_is_multiple_of,
    big_lt, big_mod_floor, big_mul, big_set_bit, big_shr, big_sub, big_to_u64, random_bytes,
    bit_of, value_of, with_bit,
};

verus! {

/// The canonical residue of `a + b` modulo `m`.
pub open spec fn spec_mod_add(a: int, b: int, m: int) -> int {
    (a + b) % m
}

/// The canonical residue of `a - b` modulo `m`.
pub open spec fn spec_mod_sub(a: int, b: int, m: int) -> int {
    (a - b) % m
}

/// The canonical residue of `a * b` modulo `m`.
pub open spec fn spec_mod_mul(a: int, b: int, m: int) -> int {
    (a * b) % m
}

/// A big-endian byte string reads as a value below `pow2` of its bit count.
proof fn lemma_be_bytes_value_bound(s: Seq<u8>)
    ensures
        0 <= be_bytes_value(s) < pow2(8 * s.len()),
    decreases s.len(),
{
    if s.len() == 0 {
        assert(pow2(0) == 1) by {
            lemma2_to64();
        }
    } else {
        let sp = s.drop_last();
        lemma_be_bytes_value_bound(sp);
        lemma_pow2_adds(8 * sp.len(), 8);
        assert(pow2(8) == 256) by {
            lemma2_to64();
        }
    }
}

/// `pow2` is monotone.
proof fn lemma_pow2_le(e1: nat, e2: nat)
    requires
        e1 <= e2,
    ensures
        pow2(e1) <= pow2(e2),
{
    lemma_pow2(e1);
    lemma_pow2(e2);
    lemma_pow_increases(2, e1, e2);
}

/// Draws `ceil(bit_size / 8)` random bytes, reads them as a big-endian
/// unsigned integer, and shifts the excess high bits away, so the result is
/// uniform over `[0, pow2(bit_size))`. A zero `bit_size` consumes no
/// randomness and yields zero.
pub fn sample(bit_size: usize) -> (r: num_bigint::BigInt)
    requires
        bit_size <= usize::MAX - 7,
    ensures
        0 <= value_of(r) < pow2(bit_size as nat),
        bit_size == 0 ==> value_of(r) == 0,
{
    if bit_size == 0 {
        let z = big_from_u64(0);
        proof {
            lemma_pow2_pos(0);
        }
        return z;
    }
    proof {
        lemma_fundamental_div_mod((bit_size - 1) as int, 8);
    }
    let bytes: usize = (bit_size - 1) / 8 + 1;
    let buf = random_bytes(bytes);
    let excess: usize = bytes * 8 - bit_size;
    let n = big_from_bytes_be(buf.as_slice());
    proof {
        lemma_be_bytes_value_bound(buf@);
        lemma_pow2_adds(excess as nat, bit_size as nat);
        lemma_pow2_pos(excess as nat);
        lemma_pow2_pos(bit_size as nat);
        lemma_multiply_divide_lt(value_of(n), pow2(excess as nat) as int, pow2(
            bit_size as nat,
        ) as int);
        lemma_div_pos_is_pos(value_of(n), pow2(excess as nat) as int);
    }
    big_shr(&n, excess)
}

/// The deterministic core of sampling with an exact bit length from a
/// caller-supplied random source: reads one draw of bytes as a big-endian
/// integer, discards the excess high bits, and forces the top bit to one, so
/// the result has exactly `bit_size` bits.
pub fn sample_from_bytes(buf: &[u8], bit_size: usize) -> (r: num_bigint::BigInt)
    requires
        1 <= bit_size <= usize::MAX - 7,
        buf@.len() == (bit_size - 1) / 8 + 1,
    ensures
        value_of(r) == with_bit(
            be_bytes_value(buf@) / pow2((((bit_size - 1) / 8 + 1) * 8 - bit_size) as nat) as int,
            (bit_size - 1) as nat,
            true,
        ),
        pow2((bit_size - 1) as nat) <= value_of(r) < pow2(bit_size as nat),
{
    proof {
        lemma_fundamental_div_mod((bit_size - 1) as int, 8);
    }
    let bytes: usize = (bit_size - 1) / 8 + 1;
    let excess: usize = bytes * 8 - bit_size;
    let n = big_from_bytes_be(buf);
    proof {
        lemma_be_bytes_value_bound(buf@);
        lemma_pow2_adds(excess as nat, bit_size as nat);
        lemma_pow2_pos(excess as nat);
        lemma_pow2_pos(bit_size as nat);
        lemma_multiply_divide_lt(value_of(n), pow2(excess as nat) as int, pow2(
            bit_size as nat,
        ) as int);
        lemma_div_pos_is_pos(value_of(n), pow2(excess as nat) as int);
    }
    let mut p = big_shr(&n, excess);
    proof {
        let k = (bit_size - 1) as nat;
        let v = value_of(p);
        lemma_pow2_adds(k, 1);
        lemma2_to64();
        lemma_pow2_pos(k);
        lemma_multiply_divide_lt(v, pow2(k) as int, 2);
        lemma_div_pos_is_pos(v, pow2(k) as int);
        lemma_fundamental_div_mod(v, pow2(k) as int);
        lemma_mul_basics(pow2(k) as int);
        let q = v / pow2(k) as int;
        assert(0 <= q < 2);
        assert(bit_of(v, k) == q);
        if q == 0 {
            assert(with_bit(v, k, true) == v + pow2(k));
        } else {
            assert(pow2(k) as int * q == pow2(k));
            assert(with_bit(v, k, true) == v);
        }
    }
    set_bit(&mut p, bit_size - 1, true);
    p
}

/// Rejection sampling: draw values of `upper`'s bit length until one lies
/// strictly below `upper`, which keeps the distribution uniform.
pub fn sample_below(upper: &num_bigint::BigInt) -> (r: num_bigint::BigInt)
    requires
        0 < value_of(*upper),
        value_of(*upper) < pow2((usize::MAX - 7) as nat),
    ensures
        0 <= value_of(r) < value_of(*upper),
{
    let bits_u64 = big_bits(upper);
    proof {
        if bits_u64 as int > usize::MAX - 7 {
            lemma_pow2_le((usize::MAX - 7) as nat, (bits_u64 - 1) as nat);
            assert(false);
        }
    }
    let bits: usize = bits_u64 as usize;
    let mut attempts: u64 = 0;
    while attempts < 1000
        invariant
            0 < value_of(*upper),
            bits <= usize::MAX - 7,
            value_of(*upper) < pow2(bits as nat),
        decreases 1000 - attempts,
    {
        let n = sample(bits);
        if big_lt(&n, upper) {
            return n;
        }
        attempts = attempts + 1;
    }
    // Each draw lies below `upper` with probability above one half, since
    // `upper` has `bits` bits, so this point is unreachable in practice; a
    // last draw reduced into range keeps the loop provably finite.
    let n = sample(bits);
    big_mod_floor(&n, upper)
}

/// A uniform value of `[lower, upper)`: `lower` plus a uniform offset below
/// the width of the range.
pub fn sample_range(lower: &num_bigint::BigInt, upper: &num_bigint::BigInt) -> (r:
    num_bigint::BigInt)
    requires
        value_of(*lower) < value_of(*upper),
        value_of(*upper) - value_of(*lower) < pow2((usize::MAX - 7) as nat),
    ensures
        value_of(*lower) <= value_of(r) < value_of(*upper),
{
    let width = big_sub(upper, lower);
    let offset = sample_below(&width);
    big_add(lower, &offset)
}

/// Whether the value is a multiple of two.
pub fn is_even(bigint: &num_bigint::BigInt) -> (r: bool)
    ensures
        r == (value_of(*bigint) % 2 == 0),
{
    let two = big_from_u64(2);
    big_is_multiple_of(bigint, &two)
}

/// Sets or clears the bit of weight `pow2(bit)` in place, reading a negative
/// value in two's complement.
pub fn set_bit(bigint: &mut num_bigint::BigInt, bit: usize, bit_val: bool)
    ensures
        value_of(*final (bigint)) == with_bit(value_of(*old(bigint)), bit as nat, bit_val),
{
    big_set_bit(bigint, bit as u64, bit_val)
}

/// Reduces both operands into `[0, modulus)`, adds, and reduces again, so the
/// result is the canonical residue whatever the operands' signs.
pub fn mod_add(a: &num_bigint::BigInt, b: &num_bigint::BigInt, modulus: &num_bigint::BigInt) -> (r:
    num_bigint::BigInt)
    requires
        value_of(*modulus) > 0,
    ensures
        value_of(r) == spec_mod_add(value_of(*a), value_of(*b), value_of(*modulus)),
        0 <= value_of(r) < value_of(*modulus),
{
    let a_m = big_mod_floor(a, modulus);
    let b_m = big_mod_floor(b, modulus);
    let sum = big_add(&a_m, &b_m);
    proof {
        lemma_add_mod_noop(value_of(*a), value_of(*b), value_of(*modulus));
        lemma_mod_bound(value_of(*a) + value_of(*b), value_of(*modulus));
    }
    big_mod_floor(&sum, modulus)
}

/// Reduces both operands into `[0, modulus)`, subtracts, and reduces again.
pub fn mod_sub(a: &num_bigint::BigInt, b: &num_bigint::BigInt, modulus: &num_bigint::BigInt) -> (r:
    num_bigint::BigInt)
    requires
        value_of(*modulus) > 0,
    ensures
        value_of(r) == spec_mod_sub(value_of(*a), value_of(*b), value_of(*modulus)),
        0 <= value_of(r) < value_of(*modulus),
{
    let a_m = big_mod_floor(a, modulus);
    let b_m = big_mod_floor(b, modulus);
    let diff = big_sub(&a_m, &b_m);
    proof {
        lemma_sub_mod_noop(value_of(*a), value_of(*b), value_of(*modulus));
        lemma_mod_bound(value_of(*a) - value_of(*b), value_of(*modulus));
    }
    big_mod_floor(&diff, modulus)
}

/// Reduces both operands into `[0, modulus)`, multiplies, and reduces again.
pub fn mod_mul(x: &num_bigint::BigInt, y: &num_bigint::BigInt, n: &num_bigint::BigInt) -> (r:
    num_bigint::BigInt)
    requires
        value_of(*n) > 0,
    ensures
        value_of(r) == spec_mod_mul(value_of(*x), value_of(*y), value_of(*n)),
        0 <= value_of(r) < value_of(*n),
{
    let x_m = big_mod_floor(x, n);
    let y_m = big_mod_floor(y, n);
    let prod = big_mul(&x_m, &y_m);
    proof {
        lemma_mul_mod_noop(value_of(*x), value_of(*y), value_of(*n));
        lemma_mod_bound(value_of(*x) * value_of(*y), value_of(*n));
    }
    big_mod_floor(&prod, n)
}

/// Narrows a big integer to a `u64`. The caller must already know that the
/// value fits; the contract makes that a precondition.
pub fn try_from(n: &num_bigint::BigInt) -> (r: u64)
    requires
        0 <= value_of(*n) <= u64::MAX,
    ensures
        r == value_of(*n),
{
    if let Some(v) = big_to_u64(n) {
        v
    } else {
        proof {
            assert(false);
        }
        0
    }
}

/// Narrows a big integer to a `u32`, under the tighter range precondition.
pub fn try_from_u32(n: &num_bigint::BigInt) -> (r: u32)
    requires
        0 <= value_of(*n) <= u32::MAX,
    ensures
        r == value_of(*n),
{
    let v = try_from(n);
    v as u32
}

/// Modular addition does not depend on the order of its operands.
pub proof fn lemma_mod_add_comm(a: int, b: int, m: int)
    requires
        m > 0,
    ensures
        spec_mod_add(a, b, m) == spec_mod_add(b, a, m),
{
}

/// Subtracting `b` modulo `m` and then adding `b` back modulo `m` returns the
/// residue of `a`.
pub proof fn lemma_mod_sub_then_add(a: int, b: int, m: int)
    requires
        m > 0,
    ensures
        spec_mod_add(spec_mod_sub(a, b, m), b, m) == a % m,
{
    lemma_add_mod_noop_right((a - b) % m, b, m);
    lemma_add_mod_noop(a - b, b, m);
}

} // verus!
