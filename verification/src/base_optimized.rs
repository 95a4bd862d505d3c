//! Fast-path base field arithmetic over the Goldilocks prime, together with
//! Montgomery-form conversions.
//!
//! The `*_fast` functions are the branch-light versions of the operations in
//! [`crate::base`]; the plain-named functions dispatch to them.  All of them
//! meet the same contracts, stated with the spec functions of `crate::base`.

use vstd::prelude::*;
use vstd::arithmetic::div_mod::{
    lemma_add_mod_noop_right, lemma_fundamental_div_mod, lemma_mod_multiples_vanish,
    lemma_mul_mod_noop_left, lemma_mul_mod_noop_right, lemma_small_mod,
};
use vstd::arithmetic::power::{lemma1_pow, pow};

use crate::base::{field_add, field_mul, field_neg, field_sub};

verus! {

/// The Goldilocks prime `2^64 - 2^32 + 1`.
pub const PRIME: u64 = 18446744069414584321;

/// `PRIME - 2`, the exponent that yields multiplicative inverses by Fermat.
pub const PRIME_PRIME: u64 = 18446744069414584319;

/// The prime widened to 128 bits, for reductions of wide products.
pub const PRIME_128: u128 = 18446744069414584321;

/// A generator of the multiplicative subgroup of order `2^32`.
pub const H: u64 = 20033703337;

/// The order, `2^32`, of the subgroup generated by `H`.
pub const ORDER: u64 = 4294967296;

/// `2^128 mod p`, the factor that carries a value into Montgomery form.
pub const MONT_R2: u64 = 18446744065119617025;

/// `-p^(-1) mod 2^64`, the multiplier of the Montgomery reduction step.
pub const MONT_INV: u64 = 18446744069414584319;

#[derive(Debug)]
pub enum FieldError {
    OrderedRootError,
}

/// The Montgomery form of `a`: `a * 2^64 mod p`.
pub open spec fn mont_form(a: int) -> int {
    (a * 0x1_0000_0000_0000_0000) % (PRIME as int)
}

/// The value a Montgomery residue stands for: `a * 2^(-64) mod p`,
/// written with the inverse of `2^64` modulo `p`.
pub open spec fn mont_value(a: int) -> int {
    (a * 0xFFFF_FFFE_0000_0001) % (PRIME as int)
}

pub fn based_check(a: u64) -> (r: bool)
    ensures
        r == (a < PRIME),
{
    a < PRIME
}

/// Cancels a common factor of `2^64` under the modulus: congruent shifted
/// values are congruent themselves.
proof fn lemma_shift_cancel(x: int, y: int)
    requires
        (x * 0x1_0000_0000_0000_0000) % (PRIME as int) == (y * 0x1_0000_0000_0000_0000) % (
        PRIME as int),
    ensures
        x % (PRIME as int) == y % (PRIME as int),
{
    let p = PRIME as int;
    let m = 0x1_0000_0000_0000_0000int;
    let rinv = 0xFFFF_FFFE_0000_0001int;
    assert((m * rinv) % p == 1);
    assert(x % p == (x * m * rinv) % p) by {
        lemma_mul_mod_noop_right(x, m * rinv, p);
        assert(x * m * rinv == x * (m * rinv)) by (nonlinear_arith);
    }
    assert((x * m * rinv) % p == (y * m * rinv) % p) by {
        lemma_mul_mod_noop_left(x * m, rinv, p);
        lemma_mul_mod_noop_left(y * m, rinv, p);
    }
    assert(y % p == (y * m * rinv) % p) by {
        lemma_mul_mod_noop_right(y, m * rinv, p);
        assert(y * m * rinv == y * (m * rinv)) by (nonlinear_arith);
    }
}

/// The Montgomery step clears the low limb: `low + m * p` is divisible by
/// `2^64` when `m` is the truncated product `low * MONT_INV`.
proof fn lemma_mont_low_clears(low: int, mul: int)
    requires
        0 <= low < 0x1_0000_0000_0000_0000,
        mul == (low * MONT_INV as int) % 0x1_0000_0000_0000_0000,
    ensures
        (low + mul * (PRIME as int)) % 0x1_0000_0000_0000_0000 == 0,
{
    let p = PRIME as int;
    let m128 = 0x1_0000_0000_0000_0000int;
    assert((MONT_INV as int * p) % m128 == m128 - 1);
    assert((mul * p) % m128 == (low * (m128 - 1)) % m128) by {
        lemma_mul_mod_noop_left(low * MONT_INV as int, p, m128);
        assert(low * MONT_INV as int * p == low * (MONT_INV as int * p)) by (nonlinear_arith);
        lemma_mul_mod_noop_right(low, MONT_INV as int * p, m128);
    }
    lemma_add_mod_noop_right(low, mul * p, m128);
    lemma_add_mod_noop_right(low, (low * (m128 - 1)) % m128, m128);
    assert(low + low * (m128 - 1) == m128 * low) by (nonlinear_arith);
    lemma_mod_multiples_vanish(low, 0, m128);
    lemma_small_mod(0, m128 as nat);
}

/// Montgomery multiplication: returns `a * b * 2^(-64) mod p`, stated as the
/// residue whose shift by `2^64` is the plain product.
#[verifier::rlimit(30)]
pub fn mont_mul(a: u64, b: u64) -> (r: u64)
    requires
        a < PRIME,
        b < PRIME,
    ensures
        r < PRIME,
        (r as int * 0x1_0000_0000_0000_0000) % (PRIME as int) == (a as int * b as int) % (
        PRIME as int),
{
    let ghost p = PRIME as int;
    let ghost m128 = 0x1_0000_0000_0000_0000int;

    proof {
        assert((a as int) * (b as int) <= 0xFFFF_FFFF_0000_0000 * 0xFFFF_FFFF_0000_0000)
            by (nonlinear_arith)
            requires
                a < PRIME,
                b < PRIME,
        ;
    }
    let prod: u128 = (a as u128) * (b as u128);
    let low: u64 = (prod % 0x1_0000_0000_0000_0000) as u64;
    let high: u64 = (prod / 0x1_0000_0000_0000_0000) as u64;

    // Montgomery reduction: add the multiple of p that clears the low limb.
    let mul: u64 = low.wrapping_mul(MONT_INV);
    proof {
        vstd::arithmetic::mul::lemma_mul_inequality(
            mul as int,
            0xFFFF_FFFF_FFFF_FFFF,
            PRIME as int,
        );
    }
    let mp: u128 = (mul as u128) * (PRIME as u128);
    let mp_lo: u64 = (mp % 0x1_0000_0000_0000_0000) as u64;
    let mp_hi: u64 = (mp / 0x1_0000_0000_0000_0000) as u64;

    proof {
        lemma_fundamental_div_mod(prod as int, m128);
        lemma_fundamental_div_mod(mp as int, m128);
        lemma_mont_low_clears(low as int, mul as int);
        lemma_add_mod_noop_right(low as int, mp as int, m128);
    }

    let carry_sum: u128 = low as u128 + mp_lo as u128;
    let carry: u64 = (carry_sum / 0x1_0000_0000_0000_0000) as u64;
    let folded: u128 = high as u128 + mp_hi as u128 + carry as u128;

    proof {
        lemma_fundamental_div_mod(carry_sum as int, m128);
        lemma_mod_multiples_vanish(mp_hi as int, carry_sum as int, m128);
        assert(prod + mp == folded * m128);
        // folded * 2^64 is prod plus a multiple of p, so folded < 2 * p.
        assert((folded * m128) % p == (prod as int) % p) by {
            lemma_mod_multiples_vanish(mul as int, prod as int, p);
        }
    }

    let r: u64 = if folded >= PRIME_128 {
        (folded - PRIME_128) as u64
    } else {
        folded as u64
    };
    proof {
        assert((r as int * m128) % p == (folded * m128) % p) by {
            if folded >= PRIME_128 {
                assert(r as int * m128 == folded * m128 - p * m128) by (nonlinear_arith)
                    requires
                        r == folded - p,
                ;
                lemma_mod_multiples_vanish(m128, r as int * m128, p);
            }
        }
    }
    r
}

/// Carries `a` into Montgomery form.
pub fn to_mont(a: u64) -> (r: u64)
    requires
        a < PRIME,
    ensures
        r < PRIME,
        r == mont_form(a as int),
{
    let r = mont_mul(a, MONT_R2);
    proof {
        let p = PRIME as int;
        let m = 0x1_0000_0000_0000_0000int;
        assert((m * m) % p == MONT_R2 as int);
        assert((a as int * MONT_R2 as int) % p == ((a as int * m) * m) % p) by {
            lemma_mul_mod_noop_right(a as int, m * m, p);
            assert(a as int * (m * m) == (a as int * m) * m) by (nonlinear_arith);
        }
        lemma_shift_cancel(r as int, a as int * m);
        lemma_small_mod(r as nat, PRIME as nat);
    }
    r
}

/// Carries a Montgomery-form value back to its plain representative.
pub fn from_mont(a: u64) -> (r: u64)
    requires
        a < PRIME,
    ensures
        r < PRIME,
        r == mont_value(a as int),
{
    let r = mont_mul(a, 1);
    proof {
        let p = PRIME as int;
        let m = 0x1_0000_0000_0000_0000int;
        let rinv = 0xFFFF_FFFE_0000_0001int;
        assert(((a as int * rinv) * m) % p == (a as int) % p) by {
            assert((rinv * m) % p == 1);
            lemma_mul_mod_noop_right(a as int, rinv * m, p);
            assert(a as int * (rinv * m) == (a as int * rinv) * m) by (nonlinear_arith);
        }
        lemma_small_mod(a as nat, PRIME as nat);
        lemma_shift_cancel(r as int, a as int * rinv);
        lemma_small_mod(r as nat, PRIME as nat);
    }
    r
}

/// Branch-light addition; the wrapped 65-bit sum with one conditional
/// subtraction of `p`.
pub fn badd_fast(a: u64, b: u64) -> (r: u64)
    requires
        a < PRIME,
        b < PRIME,
    ensures
        r < PRIME,
        r == field_add(a as int, b as int),
{
    crate::base::badd(a, b)
}

pub fn badd(a: u64, b: u64) -> (r: u64)
    requires
        a < PRIME,
        b < PRIME,
    ensures
        r < PRIME,
        r == field_add(a as int, b as int),
{
    badd_fast(a, b)
}

pub fn bneg(a: u64) -> (r: u64)
    requires
        a < PRIME,
    ensures
        r < PRIME,
        r == field_neg(a as int),
{
    crate::base::bneg(a)
}

/// Branch-light subtraction; borrows `p` when the difference would go
/// negative.
pub fn bsub_fast(a: u64, b: u64) -> (r: u64)
    requires
        a < PRIME,
        b < PRIME,
    ensures
        r < PRIME,
        r == field_sub(a as int, b as int),
{
    crate::base::bsub(a, b)
}

pub fn bsub(a: u64, b: u64) -> (r: u64)
    requires
        a < PRIME,
        b < PRIME,
    ensures
        r < PRIME,
        r == field_sub(a as int, b as int),
{
    bsub_fast(a, b)
}

/// Branch-light reduction of a 128-bit value by the limb fold of
/// [`crate::base::reduce`].
pub fn reduce_fast(n: u128) -> (r: u64)
    ensures
        r < PRIME,
        r == (n as int) % (PRIME as int),
{
    crate::base::reduce(n)
}

/// Reduces a 128-bit value to its residue modulo `p`.
pub fn reduce(n: u128) -> (r: u64)
    ensures
        r < PRIME,
        r == (n as int) % (PRIME as int),
{
    reduce_fast(n)
}

pub fn bmul_fast(a: u64, b: u64) -> (r: u64)
    requires
        a < PRIME,
        b < PRIME,
    ensures
        r < PRIME,
        r == field_mul(a as int, b as int),
{
    crate::base::bmul(a, b)
}

pub fn bmul(a: u64, b: u64) -> (r: u64)
    requires
        a < PRIME,
        b < PRIME,
    ensures
        r < PRIME,
        r == field_mul(a as int, b as int),
{
    bmul_fast(a, b)
}

/// Square-and-multiply exponentiation.
pub fn bpow_fast(a: u64, b: u64) -> (r: u64)
    requires
        a < PRIME,
    ensures
        r < PRIME,
        r == pow(a as int, b as nat) % (PRIME as int),
{
    crate::base::bpow(a, b)
}

pub fn bpow(a: u64, b: u64) -> (r: u64)
    requires
        a < PRIME,
    ensures
        r < PRIME,
        r == pow(a as int, b as nat) % (PRIME as int),
{
    bpow_fast(a, b)
}

/// Inversion by Fermat, with a short cut for the fixed point `1`.
pub fn binv_fast(a: u64) -> (r: u64)
    requires
        0 < a < PRIME,
    ensures
        r < PRIME,
        r == pow(a as int, (PRIME - 2) as nat) % (PRIME as int),
{
    if a == 1 {
        proof {
            lemma1_pow((PRIME - 2) as nat);
            lemma_small_mod(1, PRIME as nat);
        }
        return 1;
    }
    bpow_fast(a, PRIME_PRIME)
}

pub fn binv(a: u64) -> (r: u64)
    requires
        0 < a < PRIME,
    ensures
        r < PRIME,
        r == pow(a as int, (PRIME - 2) as nat) % (PRIME as int),
{
    binv_fast(a)
}

pub fn bdiv(a: u64, b: u64) -> (r: u64)
    requires
        a < PRIME,
        0 < b < PRIME,
    ensures
        r < PRIME,
        r == field_mul(a as int, pow(b as int, (PRIME - 2) as nat) % (PRIME as int)),
{
    bmul(a, binv(b))
}

pub fn badd_batch(a: &Vec<u64>, b: &Vec<u64>, result: &mut Vec<u64>)
    requires
        a@.len() == b@.len(),
        a@.len() == old(result)@.len(),
        forall|i: int| 0 <= i < a@.len() ==> a@[i] < PRIME,
        forall|i: int| 0 <= i < b@.len() ==> b@[i] < PRIME,
    ensures
        final(result)@.len() == a@.len(),
        forall|i: int|
            0 <= i < a@.len() ==> final(result)@[i] == field_add(a@[i] as int, b@[i] as int),
{
    crate::base::badd_batch(a, b, result)
}

pub fn bmul_batch(a: &Vec<u64>, b: &Vec<u64>, result: &mut Vec<u64>)
    requires
        a@.len() == b@.len(),
        a@.len() == old(result)@.len(),
        forall|i: int| 0 <= i < a@.len() ==> a@[i] < PRIME,
        forall|i: int| 0 <= i < b@.len() ==> b@[i] < PRIME,
    ensures
        final(result)@.len() == a@.len(),
        forall|i: int|
            0 <= i < a@.len() ==> final(result)@[i] == field_mul(a@[i] as int, b@[i] as int),
{
    crate::base::bmul_batch(a, b, result)
}

/// Round trip through Montgomery form is the identity: carrying a field
/// element in and back out returns the element itself.
pub proof fn lemma_mont_round_trip(a: u64)
    requires
        a < PRIME,
    ensures
        mont_value(mont_form(a as int)) == a,
{
    let p = PRIME as int;
    let m = 0x1_0000_0000_0000_0000int;
    let rinv = 0xFFFF_FFFE_0000_0001int;
    assert((mont_form(a as int) * rinv) % p == (a as int * m * rinv) % p) by {
        lemma_mul_mod_noop_left(a as int * m, rinv, p);
    }
    assert((a as int * m * rinv) % p == (a as int) % p) by {
        assert((m * rinv) % p == 1);
        lemma_mul_mod_noop_right(a as int, m * rinv, p);
        assert(a as int * m * rinv == a as int * (m * rinv)) by (nonlinear_arith);
    }
    lemma_small_mod(a as nat, PRIME as nat);
}

} // verus!
