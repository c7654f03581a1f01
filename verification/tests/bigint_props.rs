use composite_dlog::bigint;
use num_bigint::BigInt;

#[test]
fn sample_stays_below_bit_bound() {
    let bound = BigInt::from(1u32) << 24usize;
    let zero = BigInt::from(0u32);
    for _ in 0..200 {
        let v = bigint::sample(24);
        assert!(v >= zero);
        assert!(v < bound);
    }
    assert_eq!(bigint::sample(0), zero);
}

#[test]
fn sample_one_bit_sees_both_values() {
    let mut seen_zero = false;
    let mut seen_one = false;
    for _ in 0..200 {
        let v = bigint::sample(1);
        if v == BigInt::from(0u32) {
            seen_zero = true;
        } else {
            assert_eq!(v, BigInt::from(1u32));
            seen_one = true;
        }
    }
    assert!(seen_zero && seen_one);
}

#[test]
fn sample_from_bytes_exact_values() {
    // 0xff read big-endian is 255; five bits keep 255 >> 3 == 31, whose top
    // bit is already set.
    assert_eq!(
        composite_dlog::bigint::sample_from_bytes(&[0xffu8], 5),
        BigInt::from(31u32)
    );
    // A zero draw still gets the top bit forced to one.
    assert_eq!(
        composite_dlog::bigint::sample_from_bytes(&[0x00u8], 5),
        BigInt::from(16u32)
    );
    // Two bytes, 12 bits: 0xabcd >> 4 == 0xabc, top bit already set.
    assert_eq!(
        composite_dlog::bigint::sample_from_bytes(&[0xabu8, 0xcdu8], 12),
        BigInt::from(0xabcu32)
    );
}

#[test]
fn sample_below_covers_range() {
    let upper = BigInt::from(10u32);
    let zero = BigInt::from(0u32);
    let mut seen = [false; 10];
    for _ in 0..500 {
        let v = bigint::sample_below(&upper);
        assert!(v >= zero && v < upper);
        let idx = bigint::try_from(&v);
        seen[idx as usize] = true;
    }
    let hits = seen.iter().filter(|&&b| b).count();
    assert!(hits >= 8);
}

#[test]
fn sample_range_stays_in_range() {
    let lower = BigInt::from(-5i32);
    let upper = BigInt::from(7i32);
    for _ in 0..200 {
        let v = bigint::sample_range(&lower, &upper);
        assert!(v >= lower && v < upper);
    }
}

#[test]
fn mod_ops_return_canonical_residues() {
    let m = BigInt::from(7u32);
    assert_eq!(
        bigint::mod_add(&BigInt::from(5u32), &BigInt::from(3u32), &m),
        BigInt::from(1u32)
    );
    assert_eq!(
        bigint::mod_add(&BigInt::from(-5i32), &BigInt::from(3i32), &m),
        BigInt::from(5u32)
    );
    assert_eq!(
        bigint::mod_sub(&BigInt::from(3u32), &BigInt::from(5u32), &m),
        BigInt::from(5u32)
    );
    assert_eq!(
        bigint::mod_sub(&BigInt::from(-1i32), &BigInt::from(-8i32), &m),
        BigInt::from(0u32)
    );
    assert_eq!(
        bigint::mod_mul(&BigInt::from(-4i32), &BigInt::from(5i32), &m),
        BigInt::from(1u32)
    );
    assert_eq!(
        bigint::mod_mul(&BigInt::from(6u32), &BigInt::from(6u32), &m),
        BigInt::from(1u32)
    );
}

#[test]
fn mod_add_is_commutative() {
    let m = BigInt::from(11u32);
    let pairs = [(3i32, 9i32), (-4, 6), (25, -13), (0, 10)];
    for (a, b) in pairs {
        let a = BigInt::from(a);
        let b = BigInt::from(b);
        assert_eq!(bigint::mod_add(&a, &b, &m), bigint::mod_add(&b, &a, &m));
    }
}

#[test]
fn mod_sub_then_add_restores_residue() {
    let m = BigInt::from(11u32);
    let pairs = [(3i32, 9i32), (-4, 6), (25, -13), (0, 10)];
    for (a, b) in pairs {
        let a = BigInt::from(a);
        let b = BigInt::from(b);
        let diff = bigint::mod_sub(&a, &b, &m);
        let back = bigint::mod_add(&diff, &b, &m);
        assert_eq!(back, bigint::mod_add(&a, &BigInt::from(0u32), &m));
    }
}

#[test]
fn is_even_matches_parity() {
    assert!(bigint::is_even(&BigInt::from(4u32)));
    assert!(!bigint::is_even(&BigInt::from(7u32)));
    assert!(bigint::is_even(&BigInt::from(-4i32)));
    assert!(bigint::is_even(&BigInt::from(0u32)));
}

#[test]
fn set_bit_sets_and_clears() {
    let mut n = BigInt::from(8u32);
    bigint::set_bit(&mut n, 1, true);
    assert_eq!(n, BigInt::from(10u32));
    bigint::set_bit(&mut n, 3, false);
    assert_eq!(n, BigInt::from(2u32));
    bigint::set_bit(&mut n, 1, true);
    assert_eq!(n, BigInt::from(2u32));
}

#[test]
fn set_bit_on_negative_uses_twos_complement() {
    // -4 is ...11111100 in two's complement; setting bit 1 gives ...11111110,
    // which is -2.
    let mut n = BigInt::from(-4i32);
    bigint::set_bit(&mut n, 1, true);
    assert_eq!(n, BigInt::from(-2i32));
    // -4 has bit 2 set; clearing it gives ...11111000, which is -8.
    let mut m = BigInt::from(-4i32);
    bigint::set_bit(&mut m, 2, false);
    assert_eq!(m, BigInt::from(-8i32));
}

#[test]
fn try_from_narrows_exactly() {
    let n = BigInt::from(123456789u64);
    assert_eq!(bigint::try_from(&n), 123456789u64);
    assert_eq!(bigint::try_from(&BigInt::from(0u32)), 0u64);
    assert_eq!(bigint::try_from(&BigInt::from(u64::MAX)), u64::MAX);
    assert_eq!(bigint::try_from_u32(&BigInt::from(98765u32)), 98765u32);
    assert_eq!(bigint::try_from_u32(&BigInt::from(u32::MAX)), u32::MAX);
}
