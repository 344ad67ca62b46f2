use vstd::prelude::*;
use vstd::arithmetic::div_mod::{lemma_fundamental_div_mod, lemma_mod_pos_bound};
use crate::amm::{
    add_result, authorities_hold, init_result, remove_result, reserves_fit, swap_result,
};
use crate::instructions::{
    liquidity_outcome, pool_data_valid, swap_outcome, AccountState, LiquidityPlan, SwapPlan,
    LIQUIDITY_ACCOUNTS, SWAP_ACCOUNTS,
};
use crate::states::{u64_at, LIQUIDITY_LEN, SWAP_LEN};
use crate::errors::SolanaCoreError;
use crate::maths::{swap_fee, token_out_result};
use crate::pda::{lp_mint_address, pool_address};
use crate::states::InitPool;
use crate::states::{Pool, Swap};

verus! {

proof fn lemma_floor_bounds(x: int, d: int)
    requires
        0 <= x,
        0 < d,
    ensures
        d * (x / d) <= x < d * (x / d) + d,
{
    lemma_fundamental_div_mod(x, d);
    lemma_mod_pos_bound(x, d);
}

/// The price drift of moving from reserves `(r0, r1)` to `(n0, n1)`: `n0 * r1 - n1 * r0`, zero
/// exactly when the ratio of the reserves is unchanged.
pub open spec fn price_drift(r0: u64, r1: u64, n0: u64, n1: u64) -> int {
    (n0 as int) * (r1 as int) - (n1 as int) * (r0 as int)
}

/// A deposit in the pool's own proportion leaves the ratio of the reserves exactly as it was.
pub proof fn lemma_proportional_deposit_keeps_ratio(
    pool: Pool,
    pool_key: Seq<u8>,
    lp_mint: Seq<u8>,
    program_id: Seq<u8>,
    deposit_0: u64,
    deposit_1: u64,
    lp_supply: u64,
)
    requires
        (deposit_0 as int) * (pool.token_1_amount as int) == (deposit_1 as int) * (
        pool.token_0_amount as int),
        add_result(pool, pool_key, lp_mint, program_id, deposit_0, deposit_1, lp_supply) is Ok,
    ensures
        ({
            let p = add_result(pool, pool_key, lp_mint, program_id, deposit_0, deposit_1, lp_supply)->Ok_0.0;
            price_drift(pool.token_0_amount, pool.token_1_amount, p.token_0_amount, p.token_1_amount) == 0
        }),
{
    let r0 = pool.token_0_amount as int;
    let r1 = pool.token_1_amount as int;
    let d0 = deposit_0 as int;
    let d1 = deposit_1 as int;
    assert(r0 > 0);
    assert(r1 * d0 == r0 * d1) by (nonlinear_arith)
        requires
            d0 * r1 == d1 * r0,
    ;
    assert((r1 * d0) / r0 == d1) by (nonlinear_arith)
        requires
            r1 * d0 == r0 * d1,
            r0 > 0,
    ;
    assert((r0 + d0) * r1 - (r1 + d1) * r0 == 0) by (nonlinear_arith)
        requires
            d0 * r1 == d1 * r0,
    ;
}

/// A withdrawal in the pool's own proportion leaves the ratio of the reserves exactly as it
/// was.
pub proof fn lemma_proportional_withdrawal_keeps_ratio(
    pool: Pool,
    pool_key: Seq<u8>,
    lp_mint: Seq<u8>,
    program_id: Seq<u8>,
    withdraw_0: u64,
    withdraw_1: u64,
    lp_supply: u64,
)
    requires
        (withdraw_0 as int) * (pool.token_1_amount as int) == (withdraw_1 as int) * (
        pool.token_0_amount as int),
        remove_result(pool, pool_key, lp_mint, program_id, withdraw_0, withdraw_1, lp_supply) is Ok,
    ensures
        ({
            let p = remove_result(pool, pool_key, lp_mint, program_id, withdraw_0, withdraw_1, lp_supply)->Ok_0.0;
            price_drift(pool.token_0_amount, pool.token_1_amount, p.token_0_amount, p.token_1_amount) == 0
        }),
{
    let r0 = pool.token_0_amount as int;
    let r1 = pool.token_1_amount as int;
    let w0 = withdraw_0 as int;
    let w1 = withdraw_1 as int;
    assert(r0 > 0);
    assert(r1 * w0 == r0 * w1) by (nonlinear_arith)
        requires
            w0 * r1 == w1 * r0,
    ;
    assert((r1 * w0) / r0 == w1) by (nonlinear_arith)
        requires
            r1 * w0 == r0 * w1,
            r0 > 0,
    ;
    assert((r0 - w0) * r1 - (r1 - w1) * r0 == 0) by (nonlinear_arith)
        requires
            w0 * r1 == w1 * r0,
    ;
}

/// One deposit (`true`) or withdrawal (`false`) of `(amount_0, amount_1)` against an LP supply.
pub type LiquidityStep = (bool, u64, u64, u64);

/// The pool after running `steps` in order, each in the proportion of the reserves it meets;
/// `None` when a step is not proportional or fails.
pub open spec fn proportional_run(
    pool: Pool,
    pool_key: Seq<u8>,
    lp_mint: Seq<u8>,
    program_id: Seq<u8>,
    steps: Seq<LiquidityStep>,
) -> Option<Pool>
    decreases steps.len(),
{
    if steps.len() == 0 {
        Some(pool)
    } else {
        let (deposit, a0, a1, supply) = steps[0];
        if (a0 as int) * (pool.token_1_amount as int) != (a1 as int) * (pool.token_0_amount as int) {
            None
        } else {
            let r = if deposit {
                add_result(pool, pool_key, lp_mint, program_id, a0, a1, supply)
            } else {
                remove_result(pool, pool_key, lp_mint, program_id, a0, a1, supply)
            };
            match r {
                Ok((p, _)) => proportional_run(p, pool_key, lp_mint, program_id, steps.drop_first()),
                Err(_) => None,
            }
        }
    }
}

/// Any sequence of deposits and withdrawals made in the pool's own proportion ends with the
/// reserves in the ratio they started in.
pub proof fn lemma_proportional_sequence_keeps_ratio(
    pool: Pool,
    pool_key: Seq<u8>,
    lp_mint: Seq<u8>,
    program_id: Seq<u8>,
    steps: Seq<LiquidityStep>,
)
    requires
        proportional_run(pool, pool_key, lp_mint, program_id, steps) is Some,
    ensures
        ({
            let p = proportional_run(pool, pool_key, lp_mint, program_id, steps)->Some_0;
            price_drift(pool.token_0_amount, pool.token_1_amount, p.token_0_amount, p.token_1_amount) == 0
        }),
    decreases steps.len(),
{
    if steps.len() > 0 {
        let (deposit, a0, a1, supply) = steps[0];
        let rest = steps.drop_first();
        let next = if deposit {
            lemma_proportional_deposit_keeps_ratio(pool, pool_key, lp_mint, program_id, a0, a1, supply);
            add_result(pool, pool_key, lp_mint, program_id, a0, a1, supply)->Ok_0.0
        } else {
            lemma_proportional_withdrawal_keeps_ratio(pool, pool_key, lp_mint, program_id, a0, a1, supply);
            remove_result(pool, pool_key, lp_mint, program_id, a0, a1, supply)->Ok_0.0
        };
        lemma_proportional_sequence_keeps_ratio(next, pool_key, lp_mint, program_id, rest);
        let p = proportional_run(next, pool_key, lp_mint, program_id, rest)->Some_0;
        if rest.len() > 0 {
            assert(next.token_0_amount > 0 && next.token_1_amount > 0);
            let (x0, x1) = (pool.token_0_amount as int, pool.token_1_amount as int);
            let (y0, y1) = (next.token_0_amount as int, next.token_1_amount as int);
            let (z0, z1) = (p.token_0_amount as int, p.token_1_amount as int);
            assert(z0 * x1 == z1 * x0) by (nonlinear_arith)
                requires
                    y0 * x1 == y1 * x0,
                    z0 * y1 == z1 * y0,
                    y0 > 0,
                    y1 > 0,
            ;
        }
    }
}

/// Any deposit moves the ratio of the reserves by less than one unit of rounding: the price
/// drift lies strictly between `-r1` and `r0`.
pub proof fn lemma_deposit_drift_bounded(
    pool: Pool,
    pool_key: Seq<u8>,
    lp_mint: Seq<u8>,
    program_id: Seq<u8>,
    deposit_0: u64,
    deposit_1: u64,
    lp_supply: u64,
)
    requires
        add_result(pool, pool_key, lp_mint, program_id, deposit_0, deposit_1, lp_supply) is Ok,
    ensures
        ({
            let p = add_result(pool, pool_key, lp_mint, program_id, deposit_0, deposit_1, lp_supply)->Ok_0.0;
            let drift = price_drift(pool.token_0_amount, pool.token_1_amount, p.token_0_amount, p.token_1_amount);
            -(pool.token_1_amount as int) < drift < pool.token_0_amount as int
        }),
{
    let r0 = pool.token_0_amount as int;
    let r1 = pool.token_1_amount as int;
    let d0 = deposit_0 as int;
    let d1 = deposit_1 as int;
    if d0 * r1 > d1 * r0 {
        lemma_floor_bounds(r0 * d1, r1);
        let u0 = (r0 * d1) / r1;
        assert(u0 < d0) by (nonlinear_arith)
            requires
                r1 * u0 <= r0 * d1,
                d0 * r1 > d1 * r0,
                r1 > 0,
        ;
        let p = add_result(pool, pool_key, lp_mint, program_id, deposit_0, deposit_1, lp_supply)->Ok_0.0;
        assert(p.token_0_amount == r0 + u0 && p.token_1_amount == r1 + d1);
        assert((r0 + u0) * r1 - (r1 + d1) * r0 == u0 * r1 - r0 * d1) by (nonlinear_arith);
        assert(u0 * r1 == r1 * u0) by (nonlinear_arith);
    } else {
        lemma_floor_bounds(r1 * d0, r0);
        let u1 = (r1 * d0) / r0;
        assert(u1 <= d1) by (nonlinear_arith)
            requires
                r0 * u1 <= r1 * d0,
                d0 * r1 <= d1 * r0,
                r0 > 0,
        ;
        let p = add_result(pool, pool_key, lp_mint, program_id, deposit_0, deposit_1, lp_supply)->Ok_0.0;
        assert(p.token_0_amount == r0 + d0 && p.token_1_amount == r1 + u1);
        assert((r0 + d0) * r1 - (r1 + u1) * r0 == r1 * d0 - r0 * u1) by (nonlinear_arith);
    }
}

/// Any withdrawal moves the ratio of the reserves by less than one unit of rounding: the price
/// drift lies strictly between `-r0` and `r1`.
pub proof fn lemma_withdrawal_drift_bounded(
    pool: Pool,
    pool_key: Seq<u8>,
    lp_mint: Seq<u8>,
    program_id: Seq<u8>,
    withdraw_0: u64,
    withdraw_1: u64,
    lp_supply: u64,
)
    requires
        remove_result(pool, pool_key, lp_mint, program_id, withdraw_0, withdraw_1, lp_supply) is Ok,
    ensures
        ({
            let p = remove_result(pool, pool_key, lp_mint, program_id, withdraw_0, withdraw_1, lp_supply)->Ok_0.0;
            let drift = price_drift(pool.token_0_amount, pool.token_1_amount, p.token_0_amount, p.token_1_amount);
            -(pool.token_0_amount as int) < drift < pool.token_1_amount as int
        }),
{
    let r0 = pool.token_0_amount as int;
    let r1 = pool.token_1_amount as int;
    let w0 = withdraw_0 as int;
    let w1 = withdraw_1 as int;
    if w0 * r1 > w1 * r0 {
        lemma_floor_bounds(r0 * w1, r1);
        let u0 = (r0 * w1) / r1;
        assert(u0 < w0) by (nonlinear_arith)
            requires
                r1 * u0 <= r0 * w1,
                w0 * r1 > w1 * r0,
                r1 > 0,
        ;
        let p = remove_result(pool, pool_key, lp_mint, program_id, withdraw_0, withdraw_1, lp_supply)->Ok_0.0;
        assert(p.token_0_amount == r0 - u0 && p.token_1_amount == r1 - w1);
        assert((r0 - u0) * r1 - (r1 - w1) * r0 == r0 * w1 - u0 * r1) by (nonlinear_arith);
        assert(u0 * r1 == r1 * u0) by (nonlinear_arith);
    } else {
        lemma_floor_bounds(r1 * w0, r0);
        let u1 = (r1 * w0) / r0;
        assert(u1 <= w1) by (nonlinear_arith)
            requires
                r0 * u1 <= r1 * w0,
                w0 * r1 <= w1 * r0,
                r0 > 0,
        ;
        let p = remove_result(pool, pool_key, lp_mint, program_id, withdraw_0, withdraw_1, lp_supply)->Ok_0.0;
        assert(p.token_0_amount == r0 - w0 && p.token_1_amount == r1 - u1);
        assert((r0 - w0) * r1 - (r1 - u1) * r0 == r0 * u1 - r1 * w0) by (nonlinear_arith);
    }
}

/// A swap never lowers the product of the reserves by a whole unit of token 1: with one more
/// unit of token 1 left in the pool the product would exceed the old one. When the divisor of
/// the constant-product rule divides the old product, nothing is lost to rounding and the
/// product does not fall at all.
pub proof fn lemma_swap_keeps_product(pool: Pool, pool_key: Seq<u8>, program_id: Seq<u8>, ix: Swap)
    requires
        pool.wf(),
        swap_result(pool, pool_key, program_id, ix) is Ok,
    ensures
        ({
            let p = swap_result(pool, pool_key, program_id, ix)->Ok_0.0;
            let k = (pool.token_0_amount as int) * (pool.token_1_amount as int);
            let net = ix.token_0_amount - swap_fee(ix.token_0_amount, pool.fees_bps);
            &&& (p.token_0_amount as int) * (p.token_1_amount as int + 1) > k
            &&& k % (pool.token_0_amount + net) == 0 ==> (p.token_0_amount as int) * (
            p.token_1_amount as int) >= k
        }),
{
    let r0 = pool.token_0_amount as int;
    let r1 = pool.token_1_amount as int;
    let a = ix.token_0_amount as int;
    let fee = swap_fee(ix.token_0_amount, pool.fees_bps);
    assert(0 <= fee <= a) by (nonlinear_arith)
        requires
            fee == a * (pool.fees_bps as int) / 10_000,
            0 <= pool.fees_bps <= 500,
            0 <= a,
    ;
    let net = a - fee;
    let s = r0 + net;
    let k = r0 * r1;
    assert(k >= 0) by (nonlinear_arith)
        requires
            r0 >= 0,
            r1 >= 0,
            k == r0 * r1,
    ;
    lemma_floor_bounds(k, s);
    lemma_fundamental_div_mod(k, s);
    let q = k / s;
    assert(0 <= q <= r1) by (nonlinear_arith)
        requires
            k == r0 * r1,
            r0 <= s,
            0 < s,
            0 <= r0,
            0 <= r1,
            q == k / s,
    ;
    let p = swap_result(pool, pool_key, program_id, ix)->Ok_0.0;
    assert(p.token_0_amount == r0 + a);
    assert(p.token_1_amount == q);
    assert((r0 + a) * (q + 1) >= s * (q + 1)) by (nonlinear_arith)
        requires
            r0 + a >= s,
            q >= 0,
    ;
    assert(s * (q + 1) == s * q + s) by (nonlinear_arith);
    assert((r0 + a) * (q + 1) > k);
    assert(k % s == 0 ==> (r0 + a) * q >= k) by (nonlinear_arith)
        requires
            r0 + a >= s,
            q >= 0,
            k == s * q + k % s,
    ;
}

/// An address that the pool's recorded seeds do not re-derive is refused: deposits and
/// withdrawals fail with `PdaMismatch` when either the pool or its LP mint does not match, and
/// swaps when the pool does not; the operations then leave the pool unchanged (see their
/// contracts).
pub proof fn lemma_foreign_authority_rejected(
    pool: Pool,
    pool_key: Seq<u8>,
    lp_mint: Seq<u8>,
    program_id: Seq<u8>,
    amount_0: u64,
    amount_1: u64,
    lp_supply: u64,
    ix: Swap,
)
    requires
        !authorities_hold(pool, pool_key, lp_mint, program_id),
    ensures
        add_result(pool, pool_key, lp_mint, program_id, amount_0, amount_1, lp_supply) == Err::<
            (Pool, (u64, u64, u64)),
            SolanaCoreError,
        >(SolanaCoreError::PdaMismatch),
        remove_result(pool, pool_key, lp_mint, program_id, amount_0, amount_1, lp_supply) == Err::<
            (Pool, (u64, u64, u64)),
            SolanaCoreError,
        >(SolanaCoreError::PdaMismatch),
        pool_key != pool_address(
            pool.token_0_mint@,
            pool.token_1_mint@,
            pool.fees_bps,
            pool.pool_bump,
            program_id,
        ) ==> swap_result(pool, pool_key, program_id, ix) == Err::<(Pool, (u64, u64)), SolanaCoreError>(
            SolanaCoreError::PdaMismatch,
        ),
{
}

/// Pool creation refuses proposed bumps that do not re-derive the claimed pool address or the
/// claimed LP mint.
pub proof fn lemma_forged_bump_rejected(pool_key: Seq<u8>, ix: InitPool, program_id: Seq<u8>)
    requires
        pool_key != pool_address(
            ix.token_0_mint@,
            ix.token_1_mint@,
            ix.fees_bps,
            ix.pool_bump,
            program_id,
        ) || ix.lp_mint@ != lp_mint_address(pool_key, ix.lp_bump, program_id),
    ensures
        init_result(pool_key, ix, program_id) is Err,
{
}

/// Reserves whose product does not fit in 64 bits make every swap quote fail with an overflow
/// error instead of wrapping.
pub proof fn lemma_overflowing_reserves_rejected(
    amount_in: u64,
    expected: u64,
    slippage_bps: u64,
    token_0_liquidity: u64,
    token_1_liquidity: u64,
)
    requires
        (token_0_liquidity as int) * (token_1_liquidity as int) > u64::MAX,
    ensures
        token_out_result(amount_in, expected, slippage_bps, token_0_liquidity, token_1_liquidity)
            == Err::<u64, SolanaCoreError>(SolanaCoreError::OverFlowDetected),
{
}

/// Every pool that creation, a deposit or a swap yields has reserves whose product fits in 64
/// bits, and a withdrawal keeps that true of a pool that had it: no stored pool reaches a state
/// on which the constant-product invariant would overflow.
pub proof fn lemma_reserve_product_stays_in_range(
    pool: Pool,
    pool_key: Seq<u8>,
    lp_mint: Seq<u8>,
    program_id: Seq<u8>,
    init: InitPool,
    amount_0: u64,
    amount_1: u64,
    lp_supply: u64,
    ix: Swap,
)
    ensures
        init_result(pool_key, init, program_id) matches Ok(p) ==> reserves_fit(
            p.token_0_amount as int,
            p.token_1_amount as int,
        ),
        add_result(pool, pool_key, lp_mint, program_id, amount_0, amount_1, lp_supply) matches Ok(
            (p, _),
        ) ==> reserves_fit(p.token_0_amount as int, p.token_1_amount as int),
        swap_result(pool, pool_key, program_id, ix) matches Ok((p, _)) ==> reserves_fit(
            p.token_0_amount as int,
            p.token_1_amount as int,
        ),
        reserves_fit(pool.token_0_amount as int, pool.token_1_amount as int) ==> (remove_result(
            pool,
            pool_key,
            lp_mint,
            program_id,
            amount_0,
            amount_1,
            lp_supply,
        ) matches Ok((p, _)) ==> reserves_fit(p.token_0_amount as int, p.token_1_amount as int)),
{
    if remove_result(pool, pool_key, lp_mint, program_id, amount_0, amount_1, lp_supply) is Ok {
        let p = remove_result(pool, pool_key, lp_mint, program_id, amount_0, amount_1, lp_supply)->Ok_0.0;
        let (r0, r1) = (pool.token_0_amount as int, pool.token_1_amount as int);
        let (n0, n1) = (p.token_0_amount as int, p.token_1_amount as int);
        assert(n0 * n1 <= r0 * r1) by (nonlinear_arith)
            requires
                0 <= n0 <= r0,
                0 <= n1 <= r1,
        ;
    }
}

/// A deposit or withdrawal that passes the account, signature, payload and record checks is
/// refused with `PdaMismatch` when the stored pool's seeds do not re-derive the pool account or
/// the LP mint account; no plan, and so no new pool record, comes out.
pub proof fn lemma_liquidity_handlers_reject_foreign_authority(
    accounts: Seq<AccountState>,
    pool_data: Seq<u8>,
    data: Seq<u8>,
    lp_supply: u64,
    program_id: Seq<u8>,
    pool: Pool,
    added: Result<LiquidityPlan, SolanaCoreError>,
    removed: Result<LiquidityPlan, SolanaCoreError>,
)
    requires
        accounts.len() >= LIQUIDITY_ACCOUNTS,
        accounts[0].is_signer,
        accounts[1].is_writable,
        data.len() == LIQUIDITY_LEN,
        pool_data_valid(pool_data),
        pool.encoded_by(pool_data),
        !authorities_hold(pool, accounts[1].key@, accounts[8].key@, program_id),
        liquidity_outcome(
            accounts,
            pool_data,
            data,
            added,
            |q: Pool|
                add_result(
                    q,
                    accounts[1].key@,
                    accounts[8].key@,
                    program_id,
                    u64_at(data, 32),
                    u64_at(data, 40),
                    lp_supply,
                ),
        ),
        liquidity_outcome(
            accounts,
            pool_data,
            data,
            removed,
            |q: Pool|
                remove_result(
                    q,
                    accounts[1].key@,
                    accounts[8].key@,
                    program_id,
                    u64_at(data, 32),
                    u64_at(data, 40),
                    lp_supply,
                ),
        ),
    ensures
        added == Err::<LiquidityPlan, SolanaCoreError>(SolanaCoreError::PdaMismatch),
        removed == Err::<LiquidityPlan, SolanaCoreError>(SolanaCoreError::PdaMismatch),
{
}

/// A swap that passes the account, signature, payload and record checks is refused with
/// `PdaMismatch` when the stored pool's seeds do not re-derive the pool account.
pub proof fn lemma_swap_handler_rejects_foreign_authority(
    accounts: Seq<AccountState>,
    pool_data: Seq<u8>,
    data: Seq<u8>,
    program_id: Seq<u8>,
    pool: Pool,
    r: Result<SwapPlan, SolanaCoreError>,
)
    requires
        accounts.len() >= SWAP_ACCOUNTS,
        accounts[0].is_signer,
        data.len() == SWAP_LEN,
        pool_data_valid(pool_data),
        pool.encoded_by(pool_data),
        accounts[1].key@ != pool_address(
            pool.token_0_mint@,
            pool.token_1_mint@,
            pool.fees_bps,
            pool.pool_bump,
            program_id,
        ),
        swap_outcome(accounts, pool_data, data, program_id, r),
    ensures
        r == Err::<SwapPlan, SolanaCoreError>(SolanaCoreError::PdaMismatch),
{
}

/// Pool creation whose proposed addresses both re-derive refuses a fee above the cap with
/// `InvalidInstructionData`.
pub proof fn lemma_fee_above_cap_rejected(pool_key: Seq<u8>, ix: InitPool, program_id: Seq<u8>)
    requires
        pool_key == pool_address(
            ix.token_0_mint@,
            ix.token_1_mint@,
            ix.fees_bps,
            ix.pool_bump,
            program_id,
        ),
        ix.lp_mint@ == lp_mint_address(pool_key, ix.lp_bump, program_id),
        ix.fees_bps > crate::states::MAX_FEE_BPS,
    ensures
        init_result(pool_key, ix, program_id) == Err::<Pool, SolanaCoreError>(
            SolanaCoreError::InvalidInstructionData,
        ),
{
}

/// A swap on reserves whose product does not fit in 64 bits, or whose input would push reserve
/// 0 past 64 bits, never succeeds: it fails (with an overflow error in the first case) and,
/// by the contract of `Pool::swap`, leaves the pool as it was.
pub proof fn lemma_overflowing_swap_rejected(
    pool: Pool,
    pool_key: Seq<u8>,
    program_id: Seq<u8>,
    ix: Swap,
)
    requires
        pool.wf(),
        (pool.token_0_amount as int) * (pool.token_1_amount as int) > u64::MAX || (
        pool.token_0_amount as int) + (ix.token_0_amount as int) > u64::MAX,
    ensures
        swap_result(pool, pool_key, program_id, ix) is Err,
        pool_key == pool_address(
            pool.token_0_mint@,
            pool.token_1_mint@,
            pool.fees_bps,
            pool.pool_bump,
            program_id,
        ) && (pool.token_0_amount as int) * (pool.token_1_amount as int) > u64::MAX
            ==> swap_result(pool, pool_key, program_id, ix) == Err::<(Pool, (u64, u64)), SolanaCoreError>(
            SolanaCoreError::OverFlowDetected,
        ),
{
}

} // verus!
