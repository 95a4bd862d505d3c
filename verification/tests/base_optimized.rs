use mining_core::base_optimized::{
    badd, badd_batch, badd_fast, bdiv, binv, binv_fast, bmul, bmul_fast, bneg, bpow, bpow_fast,
    bsub, bsub_fast, from_mont, mont_mul, reduce, reduce_fast, to_mont, MONT_R2, PRIME,
};

#[test]
fn base_optimized_test_optimized_operations() {
    let a = 12345678901234567890u64 % PRIME;
    let b = (98765432109876543210u128 % (PRIME as u128)) as u64;

    assert_eq!(badd(a, b), badd_fast(a, b));
    assert_eq!(bsub(a, b), bsub_fast(a, b));
    assert_eq!(bmul(a, b), bmul_fast(a, b));
    assert_eq!(bpow(a, 17), bpow_fast(a, 17));
}

#[test]
fn base_optimized_test_batch_operations() {
    let a = vec![1, 2, 3, 4, 5, 6, 7, 8];
    let b = vec![8, 7, 6, 5, 4, 3, 2, 1];
    let mut result = vec![0; 8];

    badd_batch(&a, &b, &mut result);

    for i in 0..8 {
        assert_eq!(result[i], badd(a[i], b[i]));
    }
}

#[test]
fn fast_paths_agree_with_portable_ones() {
    let a = 9876543210u64;
    let b = PRIME - 2;
    assert_eq!(badd(a, b), mining_core::base::badd(a, b));
    assert_eq!(bsub(a, b), mining_core::base::bsub(a, b));
    assert_eq!(bmul(a, b), mining_core::base::bmul(a, b));
    assert_eq!(bneg(a), mining_core::base::bneg(a));
    assert_eq!(binv(a), mining_core::base::binv(a));
    assert_eq!(bdiv(a, b), mining_core::base::bdiv(a, b));
    assert_eq!(reduce(u128::MAX / 3), mining_core::base::reduce(u128::MAX / 3));
    assert_eq!(reduce_fast(12345678901234567890u128), reduce(12345678901234567890u128));
}

#[test]
fn mont_round_trip_is_identity() {
    for a in [0u64, 1, 2, 888, 4294967295, PRIME - 1] {
        assert_eq!(from_mont(to_mont(a)), a);
    }
}

#[test]
fn mont_form_of_one_is_two_to_64_mod_p() {
    // 2^64 mod p = 2^32 - 1
    assert_eq!(to_mont(1), 4294967295);
    assert_eq!(from_mont(4294967295), 1);
}

#[test]
fn mont_mul_matches_plain_mul() {
    let pairs = [(888u64, 999u64), (PRIME - 1, PRIME - 1), (12345, 67890), (0, 5)];
    for (a, b) in pairs {
        let am = to_mont(a);
        let bm = to_mont(b);
        assert_eq!(from_mont(mont_mul(am, bm)), bmul(a, b));
    }
}

#[test]
fn mont_r2_is_two_to_128_mod_p() {
    // to_mont multiplies by R2 = 2^128 mod p inside the reduction
    assert_eq!(to_mont(1), mont_mul(1, MONT_R2));
}

#[test]
fn binv_fast_shortcut_agrees() {
    assert_eq!(binv_fast(1), 1);
    assert_eq!(binv_fast(888), binv(888));
    assert_eq!(bmul(binv_fast(888), 888), 1);
}
