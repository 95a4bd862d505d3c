//! Base field arithmetic over the Goldilocks prime `p = 2^64 - 2^32 + 1`.
//!
//! Every operation takes field elements (64-bit values below `p`) and returns
//! a field element; the contracts state the results as mathematical residues
//! modulo `p`.

use vstd::prelude::*;
use vstd::arithmetic::div_mod::{
    lemma_fundamental_div_mod, lemma_mod_multiples_vanish, lemma_mul_mod_noop_left,
    lemma_mul_mod_noop_right, lemma_small_mod,
};
use vstd::arithmetic::power::{
    lemma_pow0, lemma_pow1, lemma_pow_adds, lemma_pow_mod_noop, lemma_pow_multiplies, pow,
};

verus! {

/// The Goldilocks prime `2^64 - 2^32 + 1`.
pub const PRIME: u64 = 18446744069414584321;

/// `PRIME - 2`, the exponent that yields multiplicative inverses by Fermat.
pub const PRIME_PRIME: u64 = 18446744069414584319;

/// The prime widened to 128 bits, for reductions of wide products.
pub const PRIME_128: u128 = 18446744069414584321;

/// A generator of the multiplicative subgroup of order `2^32`.
pub const H: u64 = 20033703337;

/// The order, `2^32`, of the subgroup generated by `H`.
pub const ORDER: u64 = 4294967296;

#[derive(Debug)]
pub enum FieldError {
    OrderedRootError,
}

/// `a + b` as a residue modulo `p`.
pub open spec fn field_add(a: int, b: int) -> int {
    (a + b) % (PRIME as int)
}

/// `a - b` as a residue modulo `p`.
pub open spec fn field_sub(a: int, b: int) -> int {
    (a - b) % (PRIME as int)
}

/// `a * b` as a residue modulo `p`.
pub open spec fn field_mul(a: int, b: int) -> int {
    (a * b) % (PRIME as int)
}

/// The additive inverse of `a` as a residue modulo `p`.
pub open spec fn field_neg(a: int) -> int {
    (- a) % (PRIME as int)
}

pub fn based_check(a: u64) -> (r: bool)
    ensures
        r == (a < PRIME),
{
    a < PRIME
}

pub fn badd(a: u64, b: u64) -> (r: u64)
    requires
        a < PRIME,
        b < PRIME,
    ensures
        r < PRIME,
        r == field_add(a as int, b as int),
{
    let sum = a.wrapping_add(b);
    if sum >= PRIME || sum < a {
        proof {
            lemma_mod_multiples_vanish(-1, a + b - PRIME, PRIME as int);
            lemma_small_mod((a + b - PRIME) as nat, PRIME as nat);
        }
        sum.wrapping_sub(PRIME)
    } else {
        proof {
            lemma_small_mod((a + b) as nat, PRIME as nat);
        }
        sum
    }
}

pub fn bneg(a: u64) -> (r: u64)
    requires
        a < PRIME,
    ensures
        r < PRIME,
        r == field_neg(a as int),
{
    if a != 0 {
        proof {
            lemma_mod_multiples_vanish(1, -(a as int), PRIME as int);
            lemma_small_mod((PRIME - a) as nat, PRIME as nat);
        }
        PRIME - a
    } else {
        proof {
            lemma_small_mod(0, PRIME as nat);
        }
        0
    }
}

pub fn bsub(a: u64, b: u64) -> (r: u64)
    requires
        a < PRIME,
        b < PRIME,
    ensures
        r < PRIME,
        r == field_sub(a as int, b as int),
{
    if a >= b {
        proof {
            lemma_small_mod((a - b) as nat, PRIME as nat);
        }
        a - b
    } else {
        proof {
            lemma_mod_multiples_vanish(1, a - b, PRIME as int);
            lemma_small_mod((a + (PRIME - b)) as nat, PRIME as nat);
        }
        a.wrapping_add(PRIME - b)
    }
}

/// Zero is the additive identity: `add(a, 0) == a` for every field element.
pub proof fn lemma_add_zero(a: u64)
    requires
        a < PRIME,
    ensures
        field_add(a as int, 0) == a,
{
    lemma_small_mod(a as nat, PRIME as nat);
}

/// Addition is commutative: `add(a, b) == add(b, a)`.
pub proof fn lemma_add_commutes(a: u64, b: u64)
    ensures
        field_add(a as int, b as int) == field_add(b as int, a as int),
{
}

/// Negation inverts addition: `add(a, neg(a)) == 0` for every field element.
pub proof fn lemma_add_neg(a: u64)
    requires
        a < PRIME,
    ensures
        field_add(a as int, field_neg(a as int)) == 0,
{
    let p = PRIME as int;
    if a == 0 {
        lemma_small_mod(0, PRIME as nat);
    } else {
        lemma_mod_multiples_vanish(1, -(a as int), p);
        lemma_small_mod((PRIME - a) as nat, PRIME as nat);
        lemma_mod_multiples_vanish(1, 0, p);
        lemma_small_mod(0, PRIME as nat);
    }
}

/// Subtraction agrees with adding the negation: `sub(a, b) == add(a, neg(b))`.
pub proof fn lemma_sub_is_add_neg(a: u64, b: u64)
    requires
        a < PRIME,
        b < PRIME,
    ensures
        field_sub(a as int, b as int) == field_add(a as int, field_neg(b as int)),
{
    let p = PRIME as int;
    if b == 0 {
        lemma_small_mod(0, PRIME as nat);
    } else {
        lemma_mod_multiples_vanish(1, -(b as int), p);
        lemma_small_mod((PRIME - b) as nat, PRIME as nat);
        lemma_mod_multiples_vanish(1, a - b, p);
    }
}

/// One is the multiplicative identity: `mul(a, 1) == a` for every field element.
pub proof fn lemma_mul_one(a: u64)
    requires
        a < PRIME,
    ensures
        field_mul(a as int, 1) == a,
{
    lemma_small_mod(a as nat, PRIME as nat);
}

/// Multiplication is commutative: `mul(a, b) == mul(b, a)`.
pub proof fn lemma_mul_commutes(a: u64, b: u64)
    ensures
        field_mul(a as int, b as int) == field_mul(b as int, a as int),
{
    vstd::arithmetic::mul::lemma_mul_is_commutative(a as int, b as int);
}

/// Zero absorbs multiplication: `mul(a, 0) == 0`.
pub proof fn lemma_mul_zero(a: u64)
    ensures
        field_mul(a as int, 0) == 0,
{
    lemma_small_mod(0, PRIME as nat);
}

/// Reduces a 128-bit value to its residue modulo `p`.
///
/// Splits `n` into 32-bit limbs `n = hh * 2^96 + hl * 2^64 + lo` (with `lo`
/// the low 64 bits) and folds the high limbs in by `2^64 = 2^32 - 1 (mod p)`
/// and `2^96 = -1 (mod p)`.
pub fn reduce(n: u128) -> (r: u64)
    ensures
        r < PRIME,
        r == (n as int) % (PRIME as int),
{
    let lo: u64 = (n % 0x1_0000_0000_0000_0000) as u64;
    let hi: u64 = (n / 0x1_0000_0000_0000_0000) as u64;
    let hi_lo: u64 = hi % 0x1_0000_0000;
    let hi_hi: u64 = hi / 0x1_0000_0000;

    proof {
        lemma_fundamental_div_mod(n as int, 0x1_0000_0000_0000_0000);
        lemma_fundamental_div_mod(hi as int, 0x1_0000_0000);
    }

    // lo - hi_hi, wrapped back into the field when it would go negative.
    let t0: u64 = if lo >= hi_hi {
        lo - hi_hi
    } else {
        lo + (PRIME - hi_hi)
    };
    // hi_lo * (2^32 - 1) fits in 64 bits.
    let t1: u64 = hi_lo * 0xFFFF_FFFF;

    let sum: u128 = t0 as u128 + t1 as u128;
    let r: u64 = if sum >= PRIME_128 {
        (sum - PRIME_128) as u64
    } else {
        sum as u64
    };

    proof {
        let p = PRIME as int;
        // n differs from lo + hi_lo * (2^32 - 1) - hi_hi by a multiple of p.
        let folded = lo + hi_lo * 0xFFFF_FFFF - hi_hi;
        let k = hi_hi * 0x1_0000_0001 + hi_lo;
        assert(n == folded + p * k);
        assert((r as int) % p == folded % p) by {
            if lo >= hi_hi {
                if sum >= p {
                    lemma_mod_multiples_vanish(1, r as int, p);
                } else {
                }
            } else {
                if sum >= p {
                    lemma_mod_multiples_vanish(0, r as int, p);
                } else {
                    lemma_mod_multiples_vanish(1, folded, p);
                }
            }
            lemma_small_mod(r as nat, PRIME as nat);
        }
        lemma_mod_multiples_vanish(k, folded, p);
        lemma_small_mod(r as nat, PRIME as nat);
    }
    r
}

pub fn bmul(a: u64, b: u64) -> (r: u64)
    requires
        a < PRIME,
        b < PRIME,
    ensures
        r < PRIME,
        r == field_mul(a as int, b as int),
{
    proof {
        assert((a as int) * (b as int) <= 0xFFFF_FFFF_0000_0000 * 0xFFFF_FFFF_0000_0000)
            by (nonlinear_arith)
            requires
                a < PRIME,
                b < PRIME,
        ;
    }
    reduce((a as u128) * (b as u128))
}

/// One step of square-and-multiply: `b^e == b^(e % 2) * (b * b)^(e / 2)`.
proof fn lemma_pow_split(b: int, e: nat)
    ensures
        e % 2 == 0 ==> pow(b, e) == pow(b * b, e / 2),
        e % 2 == 1 ==> pow(b, e) == b * pow(b * b, e / 2),
{
    lemma_pow_multiplies(b, 2, e / 2);
    assert(pow(b, 2) == b * b) by {
        lemma_pow1(b);
        lemma_pow_adds(b, 1, 1);
    }
    if e % 2 == 0 {
        assert(2 * (e / 2) == e);
    } else {
        assert(2 * (e / 2) + 1 == e);
        lemma_pow1(b);
        lemma_pow_adds(b, 1, (2 * (e / 2)) as nat);
    }
}

pub fn bpow(a: u64, b: u64) -> (r: u64)
    requires
        a < PRIME,
    ensures
        r < PRIME,
        r == pow(a as int, b as nat) % (PRIME as int),
{
    if b == 0 {
        proof {
            lemma_pow0(a as int);
            lemma_small_mod(1, PRIME as nat);
        }
        return 1;
    }
    if b == 1 {
        proof {
            lemma_pow1(a as int);
            lemma_small_mod(a as nat, PRIME as nat);
        }
        return a;
    }

    let mut result: u64 = 1;
    let mut base: u64 = a;
    let mut e: u64 = b;

    proof {
        lemma_small_mod(a as nat, PRIME as nat);
    }
    while e > 0
        invariant
            base < PRIME,
            result < PRIME,
            (result * pow(base as int, e as nat)) % (PRIME as int) == pow(a as int, b as nat) % (
            PRIME as int),
        decreases e,
    {
        let ghost result0 = result as int;
        let ghost base0 = base as int;
        let ghost e0 = e as nat;
        if e % 2 == 1 {
            result = bmul(result, base);
        }
        base = bmul(base, base);
        e = e / 2;
        proof {
            let p = PRIME as int;
            let k = e0 / 2;
            let sq = base0 * base0;
            lemma_pow_split(base0, e0);
            lemma_pow_mod_noop(sq, k, p);
            if e0 % 2 == 1 {
                assert((result * pow(base as int, e as nat)) % p == (result0 * pow(
                    base0,
                    e0,
                )) % p) by {
                    lemma_mul_mod_noop_left(result0 * base0, pow(sq % p, k), p);
                    lemma_mul_mod_noop_right(result0 * base0, pow(sq % p, k), p);
                    lemma_mul_mod_noop_right(result0 * base0, pow(sq, k), p);
                    assert(result0 * (base0 * pow(sq, k)) == (result0 * base0) * pow(sq, k))
                        by (nonlinear_arith);
                }
            } else {
                assert((result * pow(base as int, e as nat)) % p == (result0 * pow(
                    base0,
                    e0,
                )) % p) by {
                    lemma_mul_mod_noop_right(result0, pow(sq % p, k), p);
                    lemma_mul_mod_noop_right(result0, pow(sq, k), p);
                }
            }
        }
    }
    proof {
        lemma_pow0(base as int);
        lemma_small_mod(result as nat, PRIME as nat);
    }
    result
}

pub fn binv(a: u64) -> (r: u64)
    requires
        0 < a < PRIME,
    ensures
        r < PRIME,
        r == pow(a as int, (PRIME - 2) as nat) % (PRIME as int),
{
    // By Fermat's little theorem a^(p - 1) == 1 (mod p), so a^(p - 2) inverts a.
    bpow(a, PRIME_PRIME)
}

pub fn bdiv(a: u64, b: u64) -> (r: u64)
    requires
        a < PRIME,
        0 < b < PRIME,
    ensures
        r < PRIME,
        r == field_mul(a as int, pow(b as int, (PRIME - 2) as nat) % (PRIME as int)),
{
    bmul(a, binv(b))
}

pub fn badd_batch(a: &Vec<u64>, b: &Vec<u64>, result: &mut Vec<u64>)
    requires
        a@.len() == b@.len(),
        a@.len() == old(result)@.len(),
        forall|i: int| 0 <= i < a@.len() ==> a@[i] < PRIME,
        forall|i: int| 0 <= i < b@.len() ==> b@[i] < PRIME,
    ensures
        final(result)@.len() == a@.len(),
        forall|i: int|
            0 <= i < a@.len() ==> final(result)@[i] == field_add(a@[i] as int, b@[i] as int),
{
    let n = a.len();
    let mut i: usize = 0;
    while i < n
        invariant
            n == a@.len(),
            a@.len() == b@.len(),
            a@.len() == result@.len(),
            i <= n,
            forall|j: int| 0 <= j < a@.len() ==> a@[j] < PRIME,
            forall|j: int| 0 <= j < b@.len() ==> b@[j] < PRIME,
            forall|j: int| 0 <= j < i ==> result@[j] == field_add(a@[j] as int, b@[j] as int),
        decreases n - i,
    {
        let v = badd(a[i], b[i]);
        result.set(i, v);
        i = i + 1;
    }
}

pub fn bmul_batch(a: &Vec<u64>, b: &Vec<u64>, result: &mut Vec<u64>)
    requires
        a@.len() == b@.len(),
        a@.len() == old(result)@.len(),
        forall|i: int| 0 <= i < a@.len() ==> a@[i] < PRIME,
        forall|i: int| 0 <= i < b@.len() ==> b@[i] < PRIME,
    ensures
        final(result)@.len() == a@.len(),
        forall|i: int|
            0 <= i < a@.len() ==> final(result)@[i] == field_mul(a@[i] as int, b@[i] as int),
{
    let n = a.len();
    let mut i: usize = 0;
    while i < n
        invariant
            n == a@.len(),
            a@.len() == b@.len(),
            a@.len() == result@.len(),
            i <= n,
            forall|j: int| 0 <= j < a@.len() ==> a@[j] < PRIME,
            forall|j: int| 0 <= j < b@.len() ==> b@[j] < PRIME,
            forall|j: int| 0 <= j < i ==> result@[j] == field_mul(a@[j] as int, b@[j] as int),
        decreases n - i,
    {
        let v = bmul(a[i], b[i]);
        result.set(i, v);
        i = i + 1;
    }
}

} // verus!
