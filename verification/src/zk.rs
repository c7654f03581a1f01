//! Zero-knowledge proofs, and the Fiat-Shamir digest they share.

pub mod wi_dlog_proof;

use vstd::prelude::*;
use vstd::arithmetic::power2::pow2;
use sha2::Digest;
use crate::arith::value_of;

verus! {

/// The challenge that the Fiat-Shamir digest derives from a transcript of
/// three integers. Only the trusted wrapper below gives it meaning: the same
/// triple always hashes to the same challenge.
pub uninterp spec fn digest_of(x: int, g: int, n: int) -> int;

/// Relies on sha2's `Sha256`, fed the canonical big-endian bytes of each
/// value in order: the digest is a function of the three values alone, and
/// its 32 bytes read as an integer below `pow2(256)`.
#[verifier::external_body]
pub(crate) fn compute_digest(
    x: &num_bigint::BigInt,
    g: &num_bigint::BigInt,
    n: &num_bigint::BigInt,
) -> (r: num_bigint::BigInt)
    ensures
        value_of(r) == digest_of(value_of(*x), value_of(*g), value_of(*n)),
        0 <= value_of(r) < pow2(256),
{
    let mut hasher = sha2::Sha256::new();
    hasher.update(&x.to_bytes_be().1);
    hasher.update(&g.to_bytes_be().1);
    hasher.update(&n.to_bytes_be().1);
    let digest = hasher.finalize();
    num_bigint::BigInt::from_bytes_be(num_bigint::Sign::Plus, &digest)
}

} // verus!
