use composite_dlog::bigint;
use composite_dlog::zk::wi_dlog_proof::{
    legendre_symbol, CompositeDLogProof, DLogStatement, ProofError,
};
use num_bigint::BigInt;

// A composite modulus built from two Mersenne primes, standing in for an
// RSA-style keypair: p = 2^607 - 1 and q = 2^1279 - 1 are both prime, so
// N = p * q is a hard-to-factor composite of about 1886 bits.
fn test_keypair() -> (BigInt, BigInt, BigInt) {
    let one = BigInt::from(1u32);
    let p = (BigInt::from(1u32) << 607usize) - &one;
    let q = (BigInt::from(1u32) << 1279usize) - &one;
    let n = &p * &q;
    (n, p, q)
}

fn sample_secret() -> BigInt {
    let s_bound = BigInt::from(2u32).pow(256u32);
    bigint::sample_below(&s_bound)
}

// A base with Jacobi symbol -1 with respect to the two prime factors, as the
// protocol's security analysis asks of an asymmetric basis.
fn sample_asymmetric_base(n: &BigInt, p: &BigInt, q: &BigInt) -> BigInt {
    let one = BigInt::from(1u32);
    let upper = n - &one;
    let mut h1 = bigint::sample_range(&one, &upper);
    let mut jacobi_symbol = legendre_symbol(&h1, p) * legendre_symbol(&h1, q);
    while jacobi_symbol != -1 {
        h1 = bigint::sample_range(&one, &upper);
        jacobi_symbol = legendre_symbol(&h1, p) * legendre_symbol(&h1, q);
    }
    h1
}

#[test]
fn test_correct_dlog_proof() {
    let (n, p, q) = test_keypair();
    let h1 = sample_asymmetric_base(&n, &p, &q);
    let secret = sample_secret();
    // ni = h1^(-secret) mod N
    let h2 = h1.modinv(&n).unwrap().modpow(&secret, &n);
    let statement = DLogStatement {
        N: n,
        g: h1,
        ni: h2,
    };
    let proof = CompositeDLogProof::prove(&statement, &secret);
    let v = proof.verify(&statement);
    assert!(v.is_ok());
}

#[test]
#[should_panic]
fn test_bad_dlog_proof() {
    let (n, p, q) = test_keypair();
    let h1 = sample_asymmetric_base(&n, &p, &q);
    let secret = sample_secret();
    // here we use "+secret", instead of "-secret".
    let h2 = h1.modpow(&secret, &n);
    let statement = DLogStatement {
        N: n,
        g: h1,
        ni: h2,
    };
    let proof = CompositeDLogProof::prove(&statement, &secret);
    let v = proof.verify(&statement);
    assert!(v.is_ok());
}

#[test]
#[should_panic]
fn test_bad_dlog_proof_2() {
    let (n, p, q) = test_keypair();
    let h1 = sample_asymmetric_base(&n, &p, &q);
    let secret = sample_secret();
    // here we let h2 be sampled at random, unrelated to the secret
    let one = BigInt::from(1u32);
    let h2 = bigint::sample_range(&one, &(&n - &one));
    let statement = DLogStatement {
        N: n,
        g: h1,
        ni: h2,
    };
    let proof = CompositeDLogProof::prove(&statement, &secret);
    let v = proof.verify(&statement);
    assert!(v.is_ok());
}

#[test]
fn prove_is_probabilistic() {
    let (n, _, _) = test_keypair();
    let g = BigInt::from(3u32);
    let secret = sample_secret();
    let ni = g.modinv(&n).unwrap().modpow(&secret, &n);
    let statement = DLogStatement { N: n, g, ni };
    let proof_1 = CompositeDLogProof::prove(&statement, &secret);
    let proof_2 = CompositeDLogProof::prove(&statement, &secret);
    assert!(proof_1.verify(&statement).is_ok());
    assert!(proof_2.verify(&statement).is_ok());
    assert!(proof_1.x != proof_2.x || proof_1.y != proof_2.y);
}

#[test]
fn verify_rejects_small_modulus() {
    // N == 2^128 does not exceed the soundness bound.
    let n = BigInt::from(2u32).pow(128u32);
    let statement = DLogStatement {
        N: n,
        g: BigInt::from(3u32),
        ni: BigInt::from(5u32),
    };
    let proof = CompositeDLogProof {
        x: BigInt::from(1u32),
        y: BigInt::from(1u32),
    };
    assert_eq!(
        proof.verify(&statement),
        Err(ProofError::ModulusTooSmall)
    );
}

#[test]
fn verify_rejects_non_unit_base() {
    // N is even, so g == 2 shares a factor with it.
    let n = BigInt::from(2u32).pow(200u32);
    let statement = DLogStatement {
        N: n,
        g: BigInt::from(2u32),
        ni: BigInt::from(5u32),
    };
    let proof = CompositeDLogProof {
        x: BigInt::from(1u32),
        y: BigInt::from(1u32),
    };
    assert_eq!(
        proof.verify(&statement),
        Err(ProofError::InvalidArgument)
    );
}

#[test]
fn verify_rejects_forged_proof() {
    let (n, _, _) = test_keypair();
    let statement = DLogStatement {
        N: n,
        g: BigInt::from(3u32),
        ni: BigInt::from(5u32),
    };
    let forged = CompositeDLogProof {
        x: BigInt::from(1u32),
        y: BigInt::from(1u32),
    };
    assert_eq!(
        forged.verify(&statement),
        Err(ProofError::VerificationFailed)
    );
}

#[test]
fn verify_rejects_negative_response() {
    let (n, _, _) = test_keypair();
    let statement = DLogStatement {
        N: n,
        g: BigInt::from(3u32),
        ni: BigInt::from(5u32),
    };
    let proof = CompositeDLogProof {
        x: BigInt::from(1u32),
        y: BigInt::from(-1i32),
    };
    assert_eq!(
        proof.verify(&statement),
        Err(ProofError::VerificationFailed)
    );
}

#[test]
fn legendre_symbol_known_values() {
    let seven = BigInt::from(7u32);
    // 4 == 2^2 is a quadratic residue modulo 7.
    assert_eq!(legendre_symbol(&BigInt::from(4u32), &seven), 1);
    // 3 is not a quadratic residue modulo 7.
    assert_eq!(legendre_symbol(&BigInt::from(3u32), &seven), -1);
}

#[test]
fn legendre_symbol_mersenne_prime() {
    let p = (BigInt::from(1u32) << 607usize) - BigInt::from(1u32);
    // A square is always a residue.
    let a = BigInt::from(123456u32);
    let sq = (&a * &a) % &p;
    assert_eq!(legendre_symbol(&sq, &p), 1);
}
