//! Amount arithmetic: percentage shares with floor rounding and the
//! conversion between display units and a token's base units.

use vstd::prelude::*;
use vstd::arithmetic::power::{pow, lemma_pow_adds, lemma_pow_positive, lemma_pow0, lemma_pow1};
use crate::types::{zero_address_text, Address};

verus! {

/// Platform fee charged on a bounty reward, in percent.
pub const PLATFORM_FEE_PERCENT: u32 = 5;

/// `floor(amount * percent / 100)`.
///
/// Division in ghost code is Euclidean, which for the positive divisor
/// 100 is the floor on every integer, negative ones included.
pub open spec fn percent_of(amount: int, percent: int) -> int {
    (amount * percent) / 100
}

/// `amount * 10^decimals`: a display amount expressed in base units.
pub open spec fn base_units(amount: int, decimals: nat) -> int {
    amount * pow(10, decimals)
}

/// Whether `v` can be held in an `i128`.
pub open spec fn fits_i128(v: int) -> bool {
    i128::MIN <= v <= i128::MAX
}

/// Quotient rounded toward zero.
pub open spec fn div_toward_zero(x: int, d: int) -> int {
    if x >= 0 {
        x / d
    } else {
        -((-x) / d)
    }
}

/// Splitting `amount` as `100 * q + r` splits the share the same way.
pub proof fn lemma_percent_of_split(q: int, r: int, percent: int)
    ensures
        percent_of(100 * q + r, percent) == q * percent + (r * percent) / 100,
{
    let x = r * percent;
    let k = q * percent;
    assert((100 * q + r) * percent == 100 * k + x) by (nonlinear_arith)
        requires
            x == r * percent,
            k == q * percent,
    ;
    assert((100 * k + x) / 100 == k + x / 100);
}

/// A share of at most one hundred percent of a non-negative amount lies
/// between zero and the amount.
pub proof fn lemma_percent_of_bounds(amount: int, percent: int)
    requires
        0 <= amount,
        0 <= percent <= 100,
    ensures
        0 <= percent_of(amount, percent) <= amount,
{
    assert(0 <= amount * percent <= amount * 100) by (nonlinear_arith)
        requires
            0 <= amount,
            0 <= percent <= 100,
    ;
}

/// A share of at most one hundred percent of any `i128` fits in an `i128`.
pub proof fn lemma_percent_of_fits(amount: int, percent: int)
    requires
        fits_i128(amount),
        0 <= percent <= 100,
    ensures
        fits_i128(percent_of(amount, percent)),
{
    if amount >= 0 {
        lemma_percent_of_bounds(amount, percent);
    } else {
        assert(amount * 100 <= amount * percent <= 0) by (nonlinear_arith)
            requires
                amount < 0,
                0 <= percent <= 100,
        ;
    }
}

/// Shares grow with the percentage.
pub proof fn lemma_percent_of_monotone(amount: int, p1: int, p2: int)
    requires
        0 <= amount,
        p1 <= p2,
    ensures
        percent_of(amount, p1) <= percent_of(amount, p2),
{
    assert(amount * p1 <= amount * p2) by (nonlinear_arith)
        requires
            0 <= amount,
            p1 <= p2,
    ;
}

/// The shares of two percentages together never exceed the share of their sum.
pub proof fn lemma_percent_of_superadditive(amount: int, p1: int, p2: int)
    ensures
        percent_of(amount, p1) + percent_of(amount, p2) <= percent_of(amount, p1 + p2),
{
    let a = amount * p1;
    let b = amount * p2;
    assert(amount * (p1 + p2) == a + b) by (nonlinear_arith)
        requires
            a == amount * p1,
            b == amount * p2,
    ;
    assert(a / 100 + b / 100 <= (a + b) / 100);
}

/// Converting to base units keeps the order of non-negative amounts.
pub proof fn lemma_base_units_monotone(a: int, b: int, decimals: nat)
    requires
        a <= b,
    ensures
        base_units(a, decimals) <= base_units(b, decimals),
        0 <= a ==> 0 <= base_units(a, decimals),
{
    lemma_pow_positive(10, decimals);
    let p = pow(10, decimals);
    assert(a * p <= b * p) by (nonlinear_arith)
        requires
            a <= b,
            0 < p,
    ;
    assert(0 <= a ==> 0 <= a * p) by (nonlinear_arith)
        requires
            0 < p,
    ;
}

/// An amount between zero and one that fits in base units fits as well.
pub proof fn lemma_base_units_fits_below(a: int, b: int, decimals: nat)
    requires
        0 <= a <= b,
        fits_i128(base_units(b, decimals)),
    ensures
        fits_i128(base_units(a, decimals)),
{
    lemma_base_units_monotone(a, b, decimals);
    lemma_base_units_monotone(0, a, decimals);
}

/// Base units of a sum are the sum of the base units.
pub proof fn lemma_base_units_add(a: int, b: int, decimals: nat)
    ensures
        base_units(a + b, decimals) == base_units(a, decimals) + base_units(b, decimals),
{
    let p = pow(10, decimals);
    assert((a + b) * p == a * p + b * p) by (nonlinear_arith);
}

/// A positive amount that does not fit in an `i128` does not fit in base
/// units either.
pub proof fn lemma_base_units_grow(amount: int, decimals: nat)
    requires
        amount > i128::MAX,
    ensures
        !fits_i128(base_units(amount, decimals)),
{
    lemma_pow_positive(10, decimals);
    let p = pow(10, decimals);
    assert(amount * p >= amount) by (nonlinear_arith)
        requires
            amount > 0,
            p >= 1,
    ;
}

/// The platform fee on a reward: `floor(reward * percent / 100)`.
///
/// The result is computed without forming `reward * percent`, so it is exact
/// whenever it fits in an `i128`.
pub fn fee(reward: i128, percent: u32) -> (r: i128)
    requires
        fits_i128(percent_of(reward as int, percent as int)),
    ensures
        r == percent_of(reward as int, percent as int),
{
    let q: i128 = reward.checked_div_euclid(100).unwrap();
    let rem: i128 = reward.checked_rem_euclid(100).unwrap();
    let p: i128 = percent as i128;
    assert(0 <= rem * p <= 99 * p) by (nonlinear_arith)
        requires
            0 <= rem <= 99,
            0 <= p,
    ;
    let s: i128 = (rem * p) / 100;
    proof {
        lemma_percent_of_split(q as int, rem as int, p as int);
        assert(reward as int == 100 * (q as int) + rem as int);
    }
    if q >= 0 {
        assert(0 <= q * p <= q * p + s) by (nonlinear_arith)
            requires
                0 <= q,
                0 <= p,
                0 <= s,
        ;
        q * p + s
    } else {
        let q1: i128 = q + 1;
        assert(q1 * p == q * p + p && q1 * p <= 0) by (nonlinear_arith)
            requires
                q1 == q + 1,
                q1 <= 0,
                0 <= p,
        ;
        q1 * p - (p - s)
    }
}

/// The platform fee on a bounty reward at the standard rate.
pub fn calculate_fee(reward: i128) -> (r: i128)
    ensures
        r == percent_of(reward as int, PLATFORM_FEE_PERCENT as int),
{
    proof {
        lemma_percent_of_fits(reward as int, PLATFORM_FEE_PERCENT as int);
    }
    fee(reward, PLATFORM_FEE_PERCENT)
}

/// Once a product has left the `i128` range, multiplying it by a further
/// positive power of ten cannot bring it back.
proof fn lemma_overflow_is_final(acc: int, done: nat, decimals: nat)
    requires
        done < decimals,
        !fits_i128(acc * 10),
    ensures
        !fits_i128(acc * pow(10, (decimals - done) as nat)),
{
    let rest = (decimals - done - 1) as nat;
    lemma_pow_adds(10, 1, rest);
    lemma_pow1(10);
    lemma_pow_positive(10, rest);
    let p = pow(10, rest);
    assert(pow(10, (decimals - done) as nat) == 10 * p);
    let x = acc * 10;
    assert(acc * (10 * p) == x * p) by (nonlinear_arith)
        requires
            x == acc * 10,
    ;
    assert(x > i128::MAX ==> x * p >= x) by (nonlinear_arith)
        requires
            p >= 1,
    ;
    assert(x < i128::MIN ==> x * p <= x) by (nonlinear_arith)
        requires
            p >= 1,
    ;
}

/// Converts a display amount to base units, `amount * 10^decimals`, or
/// returns `None` when the product cannot be held in an `i128`.
pub fn to_base_units(amount: i128, decimals: u32) -> (r: Option<i128>)
    ensures
        match r {
            Some(v) => v == base_units(amount as int, decimals as nat),
            None => !fits_i128(base_units(amount as int, decimals as nat)),
        },
{
    if amount == 0 {
        assert(base_units(0, decimals as nat) == 0) by (nonlinear_arith);
        return Some(0);
    }
    let mut acc: i128 = amount;
    let mut i: u32 = 0;
    proof {
        lemma_pow0(10);
    }
    while i < decimals
        invariant
            i <= decimals,
            acc == base_units(amount as int, i as nat),
        decreases decimals - i,
    {
        proof {
            lemma_pow_adds(10, i as nat, 1);
            lemma_pow1(10);
            let p = pow(10, i as nat);
            assert(amount * (p * 10) == (amount * p) * 10) by (nonlinear_arith);
        }
        match acc.checked_mul(10) {
            Some(next) => {
                acc = next;
                i = i + 1;
            },
            None => {
                proof {
                    lemma_overflow_is_final(acc as int, i as nat, decimals as nat);
                    lemma_pow_adds(10, i as nat, (decimals - i) as nat);
                    let p = pow(10, i as nat);
                    let rest = pow(10, (decimals - i) as nat);
                    assert(amount * (p * rest) == (amount * p) * rest) by (nonlinear_arith);
                }
                return None;
            },
        }
    }
    Some(acc)
}

/// Converts a display amount to base units, `amount * 10^decimals`.
pub fn adjust_for_decimals(amount: i128, decimals: u32) -> (r: i128)
    requires
        fits_i128(base_units(amount as int, decimals as nat)),
    ensures
        r == base_units(amount as int, decimals as nat),
{
    to_base_units(amount, decimals).unwrap()
}

/// Converts base units back to whole display units, dropping the fraction:
/// `amount / 10^decimals` rounded toward zero.
pub fn _convert_from_token_amount(amount: i128, decimals: u32) -> (r: i128)
    ensures
        r == div_toward_zero(amount as int, pow(10, decimals as nat)),
{
    proof {
        lemma_pow_positive(10, decimals as nat);
    }
    match to_base_units(1, decimals) {
        Some(divisor) => {
            assert(divisor == pow(10, decimals as nat));
            amount / divisor
        },
        None => {
            // The divisor exceeds every i128 magnitude.
            let ghost d = pow(10, decimals as nat);
            assert(d > i128::MAX);
            proof {
                if amount >= 0 {
                    vstd::arithmetic::div_mod::lemma_basic_div(amount as int, d);
                } else if amount > i128::MIN {
                    vstd::arithmetic::div_mod::lemma_basic_div(-(amount as int), d);
                } else {
                    // 10^decimals is a multiple of ten, so it also exceeds 2^127.
                    assert(decimals > 0) by {
                        lemma_pow0(10);
                    }
                    lemma_pow_adds(10, 1, (decimals - 1) as nat);
                    lemma_pow1(10);
                    assert(d % 10 == 0) by (nonlinear_arith)
                        requires
                            d == 10 * pow(10, (decimals - 1) as nat),
                    ;
                    assert(d != i128::MAX + 1);
                    vstd::arithmetic::div_mod::lemma_basic_div(-(amount as int), d);
                }
            }
            0
        },
    }
}

/// Whether `addr` is the account whose key is all zero bytes, which nobody
/// controls.
pub fn is_zero_address(addr: &Address) -> (r: bool)
    ensures
        r == (addr@ == zero_address_text()),
{
    let zero: String = "GAAAAAAAAAAAAAAAAAAAAAAAAAAAAAAAAAAAAAAAAAAAAAAAAAAAAWHF".to_owned();
    addr.strkey == zero
}

} // verus!
