use vstd::prelude::*;
use num_rational::Ratio;
use num_traits::CheckedMul;
use vstd::arithmetic::div_mod::{
    lemma_div_is_ordered_by_denominator, lemma_div_multiples_vanish, lemma_fundamental_div_mod,
    lemma_fundamental_div_mod_converse,
};
use crate::errors::SolanaCoreError;

verus! {

/// Greatest common divisor, by Euclid's rule.
pub open spec fn gcd(a: nat, b: nat) -> nat
    decreases b,
{
    if b == 0 {
        a
    } else {
        gcd(b, a % b)
    }
}

/// The greatest common divisor of two numbers, not both zero, is positive and divides both.
pub proof fn lemma_gcd_divides(a: nat, b: nat)
    requires
        a > 0 || b > 0,
    ensures
        gcd(a, b) > 0,
        a == gcd(a, b) * (a / gcd(a, b)),
        b == gcd(a, b) * (b / gcd(a, b)),
    decreases b,
{
    if b == 0 {
        lemma_fundamental_div_mod_converse(a as int, a as int, 1, 0);
        lemma_fundamental_div_mod_converse(0, a as int, 0, 0);
    } else {
        let r = a % b;
        lemma_gcd_divides(b, r);
        let g = gcd(b, r) as int;
        lemma_fundamental_div_mod(a as int, b as int);
        let k = (b as int / g) * (a as int / b as int) + (r as int) / g;
        assert(a == k * g) by (nonlinear_arith)
            requires
                a == (b as int) * (a as int / b as int) + r,
                b == g * (b as int / g),
                r == g * (r as int / g),
                k == (b as int / g) * (a as int / b as int) + (r as int) / g,
        ;
        lemma_fundamental_div_mod_converse(a as int, g, k, 0);
        lemma_fundamental_div_mod_converse(b as int, g, b as int / g, 0);
    }
}

/// The floor of `n * s / d` never exceeds the numerator that `num_rational` holds for the
/// product, so a product whose numerator fits has a floor that fits.
pub proof fn lemma_floor_at_most_scaled_numerator(n: nat, d: nat, s: nat)
    requires
        d > 0,
    ensures
        (n as int) * (s as int) / (d as int) <= scaled_numerator(n, d, s),
{
    let g = gcd(n, d);
    lemma_gcd_divides(n, d);
    let n1 = n / g;
    let d1 = d / g;
    assert(d1 > 0) by (nonlinear_arith)
        requires
            d == g * d1,
            d > 0,
    ;
    let g2 = gcd(d1, s);
    lemma_gcd_divides(d1, s);
    let s1 = s / g2;
    let d2 = d1 / g2;
    let x = (n as int) * (s as int);
    assert(x == (g * g2) * (n1 * s1)) by (nonlinear_arith)
        requires
            n == g * n1,
            s == g2 * s1,
            x == (n as int) * (s as int),
    ;
    assert(d == (g * g2) * d2) by (nonlinear_arith)
        requires
            d == g * d1,
            d1 == g2 * d2,
    ;
    assert(d2 >= 1) by (nonlinear_arith)
        requires
            d == (g * g2) * d2,
            d > 0,
    ;
    assert(g * g2 >= 1) by (nonlinear_arith)
        requires
            g > 0,
            g2 > 0,
    ;
    assert((g * g2) as int <= d) by (nonlinear_arith)
        requires
            d == (g * g2) * d2,
            d2 >= 1,
            g * g2 >= 1,
    ;
    lemma_div_is_ordered_by_denominator(x, (g * g2) as int, d as int);
    lemma_div_multiples_vanish((n1 * s1) as int, (g * g2) as int);
}

/// The numerator that `num_rational` holds for `(n / d) * s`: the fraction `n / d` is first put
/// in lowest terms, then the factor that its denominator shares with `s` is cancelled.
pub open spec fn scaled_numerator(n: nat, d: nat, s: nat) -> nat {
    let g = gcd(n, d);
    let d_low = d / g;
    (n / g) * (s / gcd(d_low, s))
}

/// Relies on num_rational's ordering of `Ratio<u64>`: `Ratio::new(a, b) > Ratio::new(c, d)`
/// compares the two fractions by value, without overflow.
#[verifier::external_body]
fn ratio_greater(a: u64, b: u64, c: u64, d: u64) -> (r: bool)
    requires
        b > 0,
        d > 0,
    ensures
        r == (a * d > c * b),
{
    Ratio::new(a, b) > Ratio::new(c, d)
}

/// Relies on num_rational: `Ratio::new(n, d)` reduces to lowest terms, `checked_mul` by
/// `Ratio::from_integer(s)` cancels common factors and fails only when the numerator overflows,
/// and `to_integer` truncates, which for unsigned values is the floor.
#[verifier::external_body]
fn ratio_scale_floor(n: u64, d: u64, s: u64) -> (r: Option<u64>)
    requires
        d > 0,
    ensures
        r is Some <==> scaled_numerator(n as nat, d as nat, s as nat) <= u64::MAX,
        r matches Some(v) ==> v == (n as int) * (s as int) / (d as int),
{
    match Ratio::new(n, d).checked_mul(&Ratio::from_integer(s)) {
        Some(q) => Some(q.to_integer()),
        None => None,
    }
}


/// Whether, for an amount pair `(a0, a1)` against reserves `(r0, r1)`, token 1 is the binding
/// side: its share `a1 / r1` is strictly below the share `a0 / r0` of token 0.
pub open spec fn token_1_binds(a0: u64, a1: u64, r0: u64, r1: u64) -> bool {
    a0 * r1 > a1 * r0
}

/// The share of the pool that an amount pair stands for, as `(lp, used_0, used_1)`: the smaller
/// of the two ratios decides, the LP amount is that ratio of the supply, and the other token is
/// taken at the pool's price, all floored.
pub open spec fn proportional_share(a0: u64, a1: u64, r0: u64, r1: u64, supply: u64) -> (
    int,
    int,
    int,
) {
    if token_1_binds(a0, a1, r0, r1) {
        ((a1 as int) * (supply as int) / (r1 as int), (r0 as int) * (a1 as int) / (r1 as int), a1 as int)
    } else {
        ((a0 as int) * (supply as int) / (r0 as int), a0 as int, (r1 as int) * (a0 as int) / (r0 as int))
    }
}

/// Whether the two ratio products of `proportional_share` fit in 64 bits as `num_rational`
/// computes them.
pub open spec fn share_fits(a0: u64, a1: u64, r0: u64, r1: u64, supply: u64) -> bool {
    if token_1_binds(a0, a1, r0, r1) {
        &&& scaled_numerator(a1 as nat, r1 as nat, supply as nat) <= u64::MAX
        &&& scaled_numerator(r0 as nat, r1 as nat, a1 as nat) <= u64::MAX
    } else {
        &&& scaled_numerator(a0 as nat, r0 as nat, supply as nat) <= u64::MAX
        &&& scaled_numerator(r1 as nat, r0 as nat, a0 as nat) <= u64::MAX
    }
}

/// The outcome of a proportional liquidity change: a math error on an empty reserve or when a
/// product overflows, else the share.
pub open spec fn share_result(a0: u64, a1: u64, r0: u64, r1: u64, supply: u64) -> Result<
    (u64, u64, u64),
    SolanaCoreError,
> {
    if r0 == 0 || r1 == 0 || !share_fits(a0, a1, r0, r1, supply) {
        Err(SolanaCoreError::MathError)
    } else {
        let s = proportional_share(a0, a1, r0, r1, supply);
        Ok((s.0 as u64, s.1 as u64, s.2 as u64))
    }
}

fn proportional_amounts(a0: u64, a1: u64, r0: u64, r1: u64, supply: u64) -> (r: Result<
    (u64, u64, u64),
    SolanaCoreError,
>)
    ensures
        r == share_result(a0, a1, r0, r1, supply),
{
    if r0 == 0 || r1 == 0 {
        return Err(SolanaCoreError::MathError);
    }
    if ratio_greater(a0, r0, a1, r1) {
        let lp = match ratio_scale_floor(a1, r1, supply) {
            Some(v) => v,
            None => return Err(SolanaCoreError::MathError),
        };
        let used_0 = match ratio_scale_floor(r0, r1, a1) {
            Some(v) => v,
            None => return Err(SolanaCoreError::MathError),
        };
        Ok((lp, used_0, a1))
    } else {
        let lp = match ratio_scale_floor(a0, r0, supply) {
            Some(v) => v,
            None => return Err(SolanaCoreError::MathError),
        };
        let used_1 = match ratio_scale_floor(r1, r0, a0) {
            Some(v) => v,
            None => return Err(SolanaCoreError::MathError),
        };
        Ok((lp, a0, used_1))
    }
}

/// LP shares to mint for a deposit, with the amounts of each token that the deposit may use
/// without moving the pool's price: `(lp_minted, used_0, used_1)`.
pub fn lp_to_mint(
    deposit_token_0_amount: u64,
    deposit_token_1_amount: u64,
    token_0_amount: u64,
    token_1_amount: u64,
    lp_supply: u64,
) -> (r: Result<(u64, u64, u64), SolanaCoreError>)
    ensures
        r == share_result(
            deposit_token_0_amount,
            deposit_token_1_amount,
            token_0_amount,
            token_1_amount,
            lp_supply,
        ),
{
    proportional_amounts(
        deposit_token_0_amount,
        deposit_token_1_amount,
        token_0_amount,
        token_1_amount,
        lp_supply,
    )
}

/// LP shares to burn for a withdrawal, with the amounts of each token that leave the pool:
/// `(lp_burned, used_0, used_1)`, by the same rule as `lp_to_mint`.
pub fn lp_to_burn(
    withdraw_token_0_amount: u64,
    withdraw_token_1_amount: u64,
    token_0_amount: u64,
    token_1_amount: u64,
    lp_supply: u64,
) -> (r: Result<(u64, u64, u64), SolanaCoreError>)
    ensures
        r == share_result(
            withdraw_token_0_amount,
            withdraw_token_1_amount,
            token_0_amount,
            token_1_amount,
            lp_supply,
        ),
{
    proportional_amounts(
        withdraw_token_0_amount,
        withdraw_token_1_amount,
        token_0_amount,
        token_1_amount,
        lp_supply,
    )
}

/// Basis points in a whole.
pub const BPS_DENOMINATOR: u64 = 10_000;

/// What the constant-product rule pays out for `amount_in` of token 0 against reserves
/// `(l0, l1)`: `l1 - floor(l0 * l1 / (l0 + amount_in))`.
pub open spec fn constant_product_out(amount_in: u64, l0: u64, l1: u64) -> int {
    l1 - (l0 as int) * (l1 as int) / ((l0 as int) + (amount_in as int))
}

/// Whether `out` is within a slippage tolerance of `slippage_bps` below `expected`:
/// `out * 10_000 >= expected * (10_000 - slippage_bps)`, compared without rounding.
pub open spec fn within_tolerance(out: int, expected: u64, slippage_bps: u64) -> bool {
    out * 10_000 >= (expected as int) * (10_000 - slippage_bps)
}

/// The outcome of a swap quote, checks in order: the invariant `k` and the new reserve must fit
/// in 64 bits, the new reserve must not be zero, the tolerance must be at most 100%, and the
/// output must be within the tolerance of the expected amount.
pub open spec fn token_out_result(
    amount_in: u64,
    expected: u64,
    slippage_bps: u64,
    l0: u64,
    l1: u64,
) -> Result<u64, SolanaCoreError> {
    if l0 * l1 > u64::MAX || amount_in + l0 > u64::MAX {
        Err(SolanaCoreError::OverFlowDetected)
    } else if amount_in + l0 == 0 || slippage_bps > 10_000 {
        Err(SolanaCoreError::MathError)
    } else if !within_tolerance(constant_product_out(amount_in, l0, l1), expected, slippage_bps) {
        Err(SolanaCoreError::Slippage)
    } else {
        Ok(constant_product_out(amount_in, l0, l1) as u64)
    }
}

proof fn lemma_quotient_at_most(k: int, l0: int, l1: int, sum: int)
    requires
        0 <= l0,
        0 <= l1,
        k == l0 * l1,
        l0 <= sum,
        0 < sum,
    ensures
        0 <= k / sum <= l1,
{
    assert(0 <= k / sum <= l1) by (nonlinear_arith)
        requires
            0 <= l0,
            0 <= l1,
            k == l0 * l1,
            l0 <= sum,
            0 < sum,
    ;
}

/// Output of token 1 for `token_0_amount` of token 0 (already net of the fee) against reserves
/// `(token_0_liquidity, token_1_liquidity)`, by the constant-product rule, rejected when it falls
/// short of `expected_token_1_amount` by more than `slippage_bps`.
pub fn calculate_token_out(
    token_0_amount: u64,
    expected_token_1_amount: u64,
    slippage_bps: u64,
    token_0_liquidity: u64,
    token_1_liquidity: u64,
) -> (r: Result<u64, SolanaCoreError>)
    ensures
        r == token_out_result(
            token_0_amount,
            expected_token_1_amount,
            slippage_bps,
            token_0_liquidity,
            token_1_liquidity,
        ),
{
    let k = match token_0_liquidity.checked_mul(token_1_liquidity) {
        Some(v) => v,
        None => return Err(SolanaCoreError::OverFlowDetected),
    };
    let new_liquidity = match token_0_amount.checked_add(token_0_liquidity) {
        Some(v) => v,
        None => return Err(SolanaCoreError::OverFlowDetected),
    };
    if new_liquidity == 0 || slippage_bps > BPS_DENOMINATOR {
        return Err(SolanaCoreError::MathError);
    }
    let q = k / new_liquidity;
    proof {
        lemma_quotient_at_most(
            k as int,
            token_0_liquidity as int,
            token_1_liquidity as int,
            new_liquidity as int,
        );
    }
    let token_1_out = token_1_liquidity - q;
    let tolerated = (BPS_DENOMINATOR - slippage_bps) as u128;
    assert((expected_token_1_amount as int) * (tolerated as int) <= u64::MAX * 10_000)
        by (nonlinear_arith)
        requires
            tolerated <= 10_000,
    ;
    let least = (expected_token_1_amount as u128) * tolerated;
    if (token_1_out as u128) * (BPS_DENOMINATOR as u128) < least {
        return Err(SolanaCoreError::Slippage);
    }
    Ok(token_1_out)
}

/// The fee that a swap of `amount_in` pays at `fee_bps`: `floor(amount_in * fee_bps / 10_000)`.
pub open spec fn swap_fee(amount_in: u64, fee_bps: u64) -> int {
    (amount_in as int) * (fee_bps as int) / 10_000
}

/// The part of `amount_in` that reaches the constant-product rule once the fee is taken.
pub fn net_of_fee(amount_in: u64, fee_bps: u64) -> (r: u64)
    requires
        fee_bps <= 10_000,
    ensures
        r == amount_in - swap_fee(amount_in, fee_bps),
{
    assert((amount_in as int) * (fee_bps as int) <= (amount_in as int) * 10_000)
        by (nonlinear_arith)
        requires
            fee_bps <= 10_000,
            amount_in >= 0,
    ;
    let product = (amount_in as u128) * (fee_bps as u128);
    assert(product / 10_000 <= amount_in) by (nonlinear_arith)
        requires
            product <= (amount_in as int) * 10_000,
            amount_in >= 0,
    ;
    let fee = (product / (BPS_DENOMINATOR as u128)) as u64;
    amount_in - fee
}

/// Integer square root: the largest `r` with `r * r <= n`.
pub fn integer_sqrt(n: u128) -> (r: u64)
    ensures
        (r as int) * (r as int) <= n,
        n < (r as int + 1) * (r as int + 1),
{
    let mut lo: u128 = 0;
    let mut hi: u128 = 0x1_0000_0000_0000_0000;
    assert(n < hi * hi) by (nonlinear_arith)
        requires
            hi == 0x1_0000_0000_0000_0000u128,
            n <= u128::MAX,
    ;
    while hi - lo > 1
        invariant
            lo < hi <= 0x1_0000_0000_0000_0000,
            lo * lo <= n,
            n < hi * hi,
        decreases hi - lo,
    {
        let mid = lo + (hi - lo) / 2;
        assert(mid * mid <= u128::MAX) by (nonlinear_arith)
            requires
                mid < 0x1_0000_0000_0000_0000,
        ;
        if mid * mid <= n {
            lo = mid;
        } else {
            hi = mid;
        }
    }
    lo as u64
}

/// LP shares issued when a pool is created: `floor(sqrt(amount_0 * amount_1))`.
pub fn initial_lp_amount(amount_0: u64, amount_1: u64) -> (r: u64)
    ensures
        (r as int) * (r as int) <= (amount_0 as int) * (amount_1 as int),
        (amount_0 as int) * (amount_1 as int) < (r as int + 1) * (r as int + 1),
{
    assert((amount_0 as int) * (amount_1 as int) <= u128::MAX) by (nonlinear_arith);
    integer_sqrt((amount_0 as u128) * (amount_1 as u128))
}

/// The LP amount of a successful deposit or withdrawal never stands for a larger share of the
/// supply than the binding token's amount stands for of its reserve:
/// `lp * reserve <= amount * supply` on the binding side. (The other token is taken at the pool
/// price rounded down, so it can fall short of the share by less than one unit.)
pub proof fn lemma_lp_share_within_binding_amount(
    a0: u64,
    a1: u64,
    r0: u64,
    r1: u64,
    supply: u64,
)
    requires
        share_result(a0, a1, r0, r1, supply) is Ok,
    ensures
        ({
            let t = share_result(a0, a1, r0, r1, supply)->Ok_0;
            if token_1_binds(a0, a1, r0, r1) {
                (t.0 as int) * (r1 as int) <= (a1 as int) * (supply as int)
            } else {
                (t.0 as int) * (r0 as int) <= (a0 as int) * (supply as int)
            }
        }),
{
    let (a, r) = if token_1_binds(a0, a1, r0, r1) {
        (a1, r1)
    } else {
        (a0, r0)
    };
    lemma_floor_at_most_scaled_numerator(a as nat, r as nat, supply as nat);
    let x = (a as int) * (supply as int);
    lemma_fundamental_div_mod(x, r as int);
    assert((x / (r as int)) * (r as int) <= x) by (nonlinear_arith)
        requires
            x == (r as int) * (x / (r as int)) + x % (r as int),
            x % (r as int) >= 0,
    ;
}

} // verus!
