use mining_core::base::{
    badd, badd_batch, bdiv, binv, bmul, bmul_batch, bneg, bpow, bsub, based_check, reduce, H,
    ORDER, PRIME,
};

#[test]
fn test_binv() {
    assert_eq!(bmul(binv(888), 888), 1);
}

#[test]
fn base_test_optimized_operations() {
    let a = 12345678901234567890u64 % PRIME;
    let b = (98765432109876543210u128 % (PRIME as u128)) as u64;

    let sum = badd(a, b);
    let diff = bsub(a, b);
    let prod = bmul(a, b);
    let pow = bpow(a, 17);
    let inv = binv(a);

    assert_eq!(bmul(a, inv), 1);
    assert_eq!(badd(diff, b), a);
    assert!(sum < PRIME);
    assert!(diff < PRIME);
    assert!(prod < PRIME);
    assert!(pow < PRIME);
}

#[test]
fn test_reduce() {
    let large_num = (PRIME as u128) * 5 + 123;
    let reduced = reduce(large_num);
    assert!(reduced < PRIME);
    assert_eq!(reduced, 123);
}

#[test]
fn base_test_batch_operations() {
    let a = vec![1, 2, 3, 4, 5, 6, 7, 8];
    let b = vec![8, 7, 6, 5, 4, 3, 2, 1];
    let mut result = vec![0; 8];

    badd_batch(&a, &b, &mut result);

    for i in 0..8 {
        assert_eq!(result[i], badd(a[i], b[i]));
    }
}

#[test]
fn add_identity_and_commutativity() {
    assert_eq!(badd(5, 0), 5);
    assert_eq!(badd(PRIME - 7, 0), PRIME - 7);
    assert_eq!(badd(3, 4), badd(4, 3));
    assert_eq!(badd(PRIME - 1, 12345), badd(12345, PRIME - 1));
}

#[test]
fn add_negation_cancels() {
    assert_eq!(badd(12345, bneg(12345)), 0);
    assert_eq!(badd(0, bneg(0)), 0);
    assert_eq!(badd(PRIME - 1, bneg(PRIME - 1)), 0);
}

#[test]
fn sub_agrees_with_add_neg() {
    let pairs = [(0u64, 1u64), (1, 0), (12345, 678), (678, 12345), (PRIME - 1, PRIME - 2)];
    for (a, b) in pairs {
        assert_eq!(bsub(a, b), badd(a, bneg(b)));
    }
}

#[test]
fn mul_identity_commutativity_zero() {
    assert_eq!(bmul(7, 1), 7);
    assert_eq!(bmul(PRIME - 1, 1), PRIME - 1);
    assert_eq!(bmul(123, 456), bmul(456, 123));
    assert_eq!(bmul(PRIME - 1, PRIME - 2), bmul(PRIME - 2, PRIME - 1));
    assert_eq!(bmul(9, 0), 0);
}

#[test]
fn add_wraps_at_prime() {
    assert_eq!(badd(PRIME - 1, 1), 0);
}

#[test]
fn sub_borrows_through_zero() {
    assert_eq!(bsub(0, 1), PRIME - 1);
}

#[test]
fn pow_of_subgroup_generator_has_order_two_to_32() {
    assert_eq!(ORDER, 1u64 << 32);
    assert_eq!(bpow(H, ORDER), 1);
    assert_ne!(bpow(H, ORDER / 2), 1);
}

#[test]
fn mul_of_inverse_is_one() {
    for a in [888u64, 2, 3, 65537, PRIME - 1, 20033703337] {
        assert_eq!(bmul(a, binv(a)), 1);
    }
}

#[test]
fn fermat_exponent_is_identity() {
    for a in [1u64, 2, 888, PRIME - 1] {
        assert_eq!(bpow(a, PRIME - 1), 1);
    }
}

#[test]
fn reduce_handles_full_width_values() {
    assert_eq!(reduce(0), 0);
    assert_eq!(reduce((PRIME as u128) - 1), PRIME - 1);
    assert_eq!(reduce(PRIME as u128), 0);
    // (p - 1)^2 = (p - 1) * (p - 1) mod p = 1
    let pm1 = (PRIME - 1) as u128;
    assert_eq!(reduce(pm1 * pm1), 1);
    // 2^128 - 1 mod p, checked against the prime's structure
    assert_eq!(reduce(u128::MAX), 18446744065119617024);
}

#[test]
fn div_is_mul_by_inverse() {
    assert_eq!(bdiv(10, 2), 5);
    assert_eq!(bdiv(888, 888), 1);
    assert_eq!(bdiv(0, 77), 0);
    assert_eq!(bmul(bdiv(123456, 789), 789), 123456);
}

#[test]
fn based_check_is_the_field_bound() {
    assert!(based_check(0));
    assert!(based_check(PRIME - 1));
    assert!(!based_check(PRIME));
    assert!(!based_check(u64::MAX));
}

#[test]
fn mul_batch_matches_scalar() {
    let a = vec![1u64, 2, 3, PRIME - 1, 5, 6, 7, 8];
    let b = vec![8u64, 7, 6, PRIME - 1, 4, 3, 2, 1];
    let mut result = vec![0; 8];

    bmul_batch(&a, &b, &mut result);

    for i in 0..8 {
        assert_eq!(result[i], bmul(a[i], b[i]));
    }
}
