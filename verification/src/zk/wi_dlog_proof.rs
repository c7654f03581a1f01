//! A witness-indistinguishable proof of knowledge of a discrete logarithm
//! with a composite modulus, after Girault's protocol as presented by
//! Pointcheval. The prover knows a secret `s` with `ni == g^(-s) mod N` and
//! convinces a verifier of that without revealing `s`.

use vstd::prelude::*;
use vstd::arithmetic::div_mod::{
    lemma_add_mod_noop_right, lemma_fundamental_div_mod, lemma_mod_multiples_vanish,
    lemma_mul_mod_noop, lemma_mul_mod_noop_right, lemma_small_mod,
};
use vstd::arithmetic::mul::{lemma_mul_is_associative, lemma_mul_nonnegative, lemma_mul_upper_bound};
use vstd::arithmetic::power::{
    lemma1_pow, lemma_pow_adds, lemma_pow_distributes, lemma_pow_mod_noop, lemma_pow_multiplies,
    pow,
};
use vstd::arithmetic::power2::{
    lemma2_to64, lemma_pow2, lemma_pow2_adds, lemma_pow2_pos, lemma_pow2_strictly_increases, pow2,
};
use vstd::math::abs;
use crate::arith::{
    big_eq, big_from_u64, big_gcd, big_lt, big_modinv, big_modpow, big_pow, big_sub, gcd,
    value_of,
};
use crate::bigint::{mod_add, mod_mul, sample_below, spec_mod_add, spec_mod_mul};
use super::{compute_digest, digest_of};

verus! {

/// The soundness parameter: a statement's modulus must exceed `pow2(K)`.
pub const K: usize = 128;

/// Statistical hiding slack for the commitment randomness.
pub const K_PRIME: usize = 128;

/// The assumed upper bound on the secret's bit length.
pub const SAMPLE_S: usize = 256;

/// A proof transcript: the commitment `x = g^r mod N` and the response `y`.
pub struct CompositeDLogProof {
    pub x: num_bigint::BigInt,
    pub y: num_bigint::BigInt,
}

/// The public statement: a composite modulus `N`, a base `g`, and the public
/// value `ni = g^(-secret) mod N`.
#[allow(non_snake_case)]
pub struct DLogStatement {
    pub N: num_bigint::BigInt,
    pub g: num_bigint::BigInt,
    pub ni: num_bigint::BigInt,
}

/// Why `verify` rejected.
#[derive(Clone, Copy, Debug, PartialEq, Eq)]
pub enum ProofError {
    /// The statement's base or public value is not a unit of `Z_N`.
    InvalidArgument,
    /// The statement's modulus does not exceed `pow2(K)`.
    ModulusTooSmall,
    /// The algebraic check failed: the expected outcome for an invalid proof.
    VerificationFailed,
}

/// The Fiat-Shamir challenge for commitment value `x` under a statement.
pub open spec fn challenge(stmt: DLogStatement, x: int) -> int {
    digest_of(x, value_of(stmt.g), value_of(stmt.N))
}

/// Whether the statement's base and public value are units of `Z_N`.
pub open spec fn units_ok(stmt: DLogStatement) -> bool {
    &&& gcd(abs(value_of(stmt.g)), abs(value_of(stmt.N))) == 1
    &&& gcd(abs(value_of(stmt.ni)), abs(value_of(stmt.N))) == 1
}

/// A well-formed statement: a modulus wide enough for the soundness
/// parameter, and `g`, `ni` units of `Z_N`.
pub open spec fn statement_wf(stmt: DLogStatement) -> bool {
    &&& pow2(K as nat) < value_of(stmt.N)
    &&& units_ok(stmt)
}

/// The algebraic identity that `verify` checks: the commitment equals
/// `g^y * ni^e mod N`, with `e` the challenge recomputed from the transcript.
pub open spec fn verify_equation(stmt: DLogStatement, prf: CompositeDLogProof) -> bool {
    value_of(prf.x) == (pow(value_of(stmt.g), value_of(prf.y) as nat) * pow(
        value_of(stmt.ni),
        challenge(stmt, value_of(prf.x)) as nat,
    )) % value_of(stmt.N)
}

/// Exactly the proofs that `verify` accepts for a statement.
pub open spec fn verify_accepts(stmt: DLogStatement, prf: CompositeDLogProof) -> bool {
    &&& statement_wf(stmt)
    &&& 0 <= value_of(prf.y)
    &&& verify_equation(stmt, prf)
}

/// A transcript that `prove` can emit for secret `s` and commitment
/// randomness `r`.
pub open spec fn is_honest_transcript(
    stmt: DLogStatement,
    s: int,
    r: int,
    prf: CompositeDLogProof,
) -> bool {
    &&& 0 <= r < pow2((K + K_PRIME + SAMPLE_S) as nat)
    &&& value_of(prf.x) == pow(value_of(stmt.g), r as nat) % value_of(stmt.N)
    &&& value_of(prf.y) == spec_mod_add(
        r,
        spec_mod_mul(challenge(stmt, value_of(prf.x)), s, value_of(stmt.N)),
        value_of(stmt.N),
    )
}

/// A statement honestly built from the secret `s`: `ni` inverts `g^s` modulo
/// `N`, the secret is within the assumed bit bound, both are units, and the
/// modulus is wide enough that the response arithmetic cannot wrap.
pub open spec fn honest_statement(stmt: DLogStatement, s: int) -> bool {
    &&& pow2((K + K_PRIME + SAMPLE_S + 1) as nat) < value_of(stmt.N)
    &&& 0 <= s < pow2(SAMPLE_S as nat)
    &&& (pow(value_of(stmt.g), s as nat) * value_of(stmt.ni)) % value_of(stmt.N) == 1
    &&& units_ok(stmt)
}

/// Completeness of the protocol: whenever `ni` inverts `g^s` modulo `n` and
/// the exponent sum `r + e * s` cannot wrap modulo `n`, the response
/// `(r + e * s) mod n` satisfies the verifier's equation for the commitment
/// `g^r mod n`.
pub proof fn lemma_completeness(g: int, ni: int, n: int, s: int, r: int, e: int)
    requires
        0 < n,
        0 <= r,
        0 <= e,
        0 <= s,
        r + e * s < n,
        (pow(g, s as nat) * ni) % n == 1,
    ensures
        (pow(g, spec_mod_add(r, spec_mod_mul(e, s, n), n) as nat) * pow(ni, e as nat)) % n == pow(
            g,
            r as nat,
        ) % n,
{
    let es = e * s;
    lemma_mul_nonnegative(e, s);
    lemma_add_mod_noop_right(r, es, n);
    lemma_small_mod((r + es) as nat, n as nat);
    assert(spec_mod_add(r, spec_mod_mul(e, s, n), n) == r + es);
    lemma_pow_adds(g, r as nat, es as nat);
    lemma_pow_multiplies(g, s as nat, e as nat);
    assert(s * e == e * s) by (nonlinear_arith);
    assert(pow(g, es as nat) == pow(pow(g, s as nat), e as nat));
    lemma_pow_distributes(pow(g, s as nat), ni, e as nat);
    lemma_mul_is_associative(pow(g, r as nat), pow(g, es as nat), pow(ni, e as nat));
    assert(pow(g, (r + es) as nat) * pow(ni, e as nat) == pow(g, r as nat) * pow(
        pow(g, s as nat) * ni,
        e as nat,
    ));
    lemma_mul_mod_noop_right(pow(g, r as nat), pow(pow(g, s as nat) * ni, e as nat), n);
    lemma_pow_mod_noop(pow(g, s as nat) * ni, e as nat, n);
    lemma1_pow(e as nat);
    lemma_mul_mod_noop_right(pow(g, r as nat), 1, n);
}

impl CompositeDLogProof {
    /// Samples wide commitment randomness, commits with `g^r mod N`, derives
    /// the Fiat-Shamir challenge from the transcript, and responds with
    /// `(r + e * secret) mod N`. Every result is an honest transcript, and
    /// against an honestly built statement the verifier accepts it.
    pub fn prove(statement: &DLogStatement, secret: &num_bigint::BigInt) -> (res:
        CompositeDLogProof)
        requires
            0 < value_of(statement.N),
        ensures
            exists|r: int| is_honest_transcript(*statement, value_of(*secret), r, res),
            honest_statement(*statement, value_of(*secret)) ==> verify_accepts(*statement, res),
    {
        let two = big_from_u64(2);
        let r_bound = big_pow(&two, (K + K_PRIME + SAMPLE_S) as u32);
        proof {
            lemma_pow2((K + K_PRIME + SAMPLE_S) as nat);
            lemma_pow2_pos((K + K_PRIME + SAMPLE_S) as nat);
            lemma_pow2_strictly_increases(
                (K + K_PRIME + SAMPLE_S) as nat,
                (usize::MAX - 7) as nat,
            );
        }
        let r = sample_below(&r_bound);
        let x = big_modpow(&statement.g, &r, &statement.N);
        let e = compute_digest(&x, &statement.g, &statement.N);
        let t = mod_mul(&e, secret, &statement.N);
        let y = mod_add(&r, &t, &statement.N);
        let res = CompositeDLogProof { x, y };
        proof {
            let stmt = *statement;
            let s = value_of(*secret);
            let rv = value_of(r);
            let ev = value_of(e);
            let nv = value_of(statement.N);
            assert(is_honest_transcript(stmt, s, rv, res));
            if honest_statement(stmt, s) {
                lemma_pow2_adds(256, 256);
                lemma_pow2_adds(512, 1);
                lemma2_to64();
                lemma_mul_nonnegative(ev, s);
                lemma_mul_upper_bound(ev, pow2(256) - 1, s, pow2(256) - 1);
                assert((pow2(256) - 1) * (pow2(256) - 1) < pow2(256) * pow2(256))
                    by (nonlinear_arith)
                    requires
                        pow2(256) >= 1,
                ;
                assert(rv + ev * s < nv);
                lemma_completeness(value_of(stmt.g), value_of(stmt.ni), nv, s, rv, ev);
                lemma_pow2_strictly_increases(K as nat, (K + K_PRIME + SAMPLE_S + 1) as nat);
            }
        }
        res
    }

    /// Recomputes the challenge from the proof's own commitment and checks
    /// the algebraic identity `x == g^y * ni^e mod N`, after rejecting a
    /// modulus that is too small for the soundness parameter and a base or
    /// public value that is not a unit.
    pub fn verify(&self, statement: &DLogStatement) -> (res: Result<(), ProofError>)
        ensures
            res is Ok <==> verify_accepts(*statement, *self),
            res == Err::<(), ProofError>(ProofError::ModulusTooSmall) <==> value_of(statement.N)
                <= pow2(K as nat),
            res == Err::<(), ProofError>(ProofError::InvalidArgument) <==> (pow2(K as nat)
                < value_of(statement.N) && !units_ok(*statement)),
            res == Err::<(), ProofError>(ProofError::VerificationFailed) <==> (statement_wf(
                *statement,
            ) && !(0 <= value_of(self.y) && verify_equation(*statement, *self))),
    {
        let two = big_from_u64(2);
        let threshold = big_pow(&two, K as u32);
        proof {
            lemma_pow2(K as nat);
            lemma_pow2_pos(K as nat);
        }
        if !big_lt(&threshold, &statement.N) {
            return Err(ProofError::ModulusTooSmall);
        }
        let one = big_from_u64(1);
        let gcd_g = big_gcd(&statement.g, &statement.N);
        let gcd_ni = big_gcd(&statement.ni, &statement.N);
        if !big_eq(&gcd_g, &one) || !big_eq(&gcd_ni, &one) {
            return Err(ProofError::InvalidArgument);
        }
        let zero = big_from_u64(0);
        if big_lt(&self.y, &zero) {
            return Err(ProofError::VerificationFailed);
        }
        let e = compute_digest(&self.x, &statement.g, &statement.N);
        let ni_e = big_modpow(&statement.ni, &e, &statement.N);
        let g_y = big_modpow(&statement.g, &self.y, &statement.N);
        let check = mod_mul(&g_y, &ni_e, &statement.N);
        proof {
            lemma_mul_mod_noop(
                pow(value_of(statement.g), value_of(self.y) as nat),
                pow(value_of(statement.ni), value_of(e) as nat),
                value_of(statement.N),
            );
        }
        if big_eq(&self.x, &check) {
            Ok(())
        } else {
            Err(ProofError::VerificationFailed)
        }
    }
}

/// Euler's criterion exponentiation: the residue of `a^((p - 1) / 2)`
/// modulo `p`.
pub open spec fn euler_criterion(a: int, p: int) -> int {
    pow(a, ((p - 1) / 2) as nat) % p
}

/// For an odd `p` above two, two and `p` are coprime.
proof fn lemma_gcd_two_odd(p: int)
    requires
        2 < p,
        p % 2 == 1,
    ensures
        gcd(2, abs(p)) == 1,
{
    let pn = abs(p);
    lemma_small_mod(2, pn);
    assert(gcd(2, pn) == gcd(pn, 2nat % pn));
    assert(gcd(pn, 2) == gcd(2, pn % 2));
    assert(pn % 2 == 1);
    assert(gcd(2, 1) == gcd(1, 2nat % 1));
    assert(gcd(1, 0) == 1);
}

/// The inverse of two modulo an odd `p` above two is `(p + 1) / 2`.
proof fn lemma_inverse_of_two(p: int, v: int)
    requires
        2 < p,
        p % 2 == 1,
        0 <= v < p,
        (2 * v) % p == 1,
    ensures
        v == (p + 1) / 2,
{
    let q = (2 * v) / p;
    lemma_fundamental_div_mod(2 * v, p);
    assert(q == 0 || q == 1) by (nonlinear_arith)
        requires
            2 < p,
            0 <= v < p,
            2 * v == p * q + 1,
    ;
    assert(q != 0);
    assert(2 * v == p + 1);
}

/// Multiplying `p - 1` by the inverse of two modulo `p` yields the Euler
/// exponent `(p - 1) / 2`.
proof fn lemma_half_exponent(p: int, v: int)
    requires
        2 < p,
        p % 2 == 1,
        v == (p + 1) / 2,
    ensures
        spec_mod_mul(p - 1, v, p) == (p - 1) / 2,
{
    let h = (p - 1) / 2;
    assert(p == 2 * h + 1);
    assert(v == h + 1);
    assert((p - 1) * v == p * h + h) by (nonlinear_arith)
        requires
            p == 2 * h + 1,
            v == h + 1,
    ;
    lemma_mod_multiples_vanish(h, h, p);
    lemma_small_mod(h as nat, p as nat);
}

/// Computes `a^((p - 1) / 2) mod p` by Euler's criterion, obtaining the
/// exponent as `(p - 1)` times the inverse of two modulo `p`; `1` marks a
/// quadratic residue, `-1` a non-residue. An input whose criterion value is
/// neither `1` nor `p - 1` is invalid and excluded by precondition.
pub fn legendre_symbol(a: &num_bigint::BigInt, p: &num_bigint::BigInt) -> (r: i32)
    requires
        2 < value_of(*p),
        value_of(*p) % 2 == 1,
        euler_criterion(value_of(*a), value_of(*p)) == 1 || euler_criterion(
            value_of(*a),
            value_of(*p),
        ) == value_of(*p) - 1,
    ensures
        r == 1 || r == -1,
        r == 1 <==> euler_criterion(value_of(*a), value_of(*p)) == 1,
        r == -1 <==> euler_criterion(value_of(*a), value_of(*p)) == value_of(*p) - 1,
{
    let one = big_from_u64(1);
    let two = big_from_u64(2);
    let p_minus_1 = big_sub(p, &one);
    proof {
        lemma_gcd_two_odd(value_of(*p));
    }
    let inv2 = match big_modinv(&two, p) {
        Some(v) => v,
        None => {
            proof {
                assert(false);
            }
            big_from_u64(0)
        },
    };
    proof {
        lemma_inverse_of_two(value_of(*p), value_of(inv2));
        lemma_half_exponent(value_of(*p), value_of(inv2));
    }
    let exponent = mod_mul(&p_minus_1, &inv2, p);
    let ls = big_modpow(a, &exponent, p);
    if big_eq(&ls, &one) {
        1
    } else {
        -1
    }
}

} // verus!

