use amm_pool::errors::SolanaCoreError;
use amm_pool::instructions::{
    deliquidate_pool, init_pool, liquidate_pool, swap, AccountState, LiquidityPlan,
};
use amm_pool::pda::{validate_lp_authority, validate_pda, validate_pool_authority};
use amm_pool::states::{DeliquidatePool, InitPool, LiquidatePool, Pool, Swap};

const PROGRAM: [u8; 32] = [
    1, 2, 3, 4, 5, 6, 7, 8, 9, 10, 11, 12, 13, 14, 15, 16, 17, 18, 19, 20, 21, 22, 23, 24, 25, 26,
    27, 28, 29, 30, 31, 32,
];
const MINT_0: [u8; 32] = [7u8; 32];
const MINT_1: [u8; 32] = [9u8; 32];

fn derive_pool(fee: u64, bump: u8) -> [u8; 32] {
    let fee_bytes = fee.to_le_bytes();
    let seeds: [&[u8]; 4] = [b"pool", &MINT_0, &MINT_1, &fee_bytes];
    pinocchio_pubkey::derive_address_const(&seeds, Some(bump), &PROGRAM)
}

fn derive_lp(pool: &[u8; 32], bump: u8) -> [u8; 32] {
    let seeds: [&[u8]; 2] = [b"lp", pool];
    pinocchio_pubkey::derive_address_const(&seeds, Some(bump), &PROGRAM)
}

fn init_payload(fee: u64, amount_0: u64, amount_1: u64) -> InitPool {
    let pool = derive_pool(fee, 254);
    InitPool {
        token_0_mint: MINT_0,
        token_1_mint: MINT_1,
        token_0_amount: amount_0,
        token_1_amount: amount_1,
        vault_0: [3u8; 32],
        vault_1: [4u8; 32],
        pool_bump: 254,
        fees_bps: fee,
        lp_mint: derive_lp(&pool, 253),
        lp_bump: 253,
    }
}

fn accounts(pool: [u8; 32], lp_mint: [u8; 32], n: usize) -> Vec<AccountState> {
    let mut v = Vec::new();
    for i in 0..n {
        let key = if i == 1 {
            pool
        } else if i == 8 {
            lp_mint
        } else {
            [100 + i as u8; 32]
        };
        v.push(AccountState { key, is_signer: i == 0, is_writable: i <= 1 });
    }
    v
}

fn created_pool(fee: u64, amount_0: u64, amount_1: u64) -> Pool {
    let ix = init_payload(fee, amount_0, amount_1);
    let pool_key = derive_pool(fee, 254);
    Pool::init_pool(&pool_key, &ix, &PROGRAM).unwrap()
}

#[test]
fn derivation_matches_known_addresses() {
    let pool: [u8; 32] = [
        61, 0, 107, 233, 15, 125, 34, 148, 255, 76, 132, 19, 18, 247, 215, 209, 80, 185, 208,
        189, 127, 211, 93, 161, 145, 28, 236, 238, 149, 22, 249, 230,
    ];
    let lp: [u8; 32] = [
        61, 223, 97, 238, 193, 48, 144, 28, 240, 212, 237, 104, 108, 240, 145, 73, 48, 243, 162,
        193, 180, 55, 135, 132, 29, 196, 136, 190, 64, 144, 247, 65,
    ];
    assert_eq!(validate_pool_authority(&MINT_0, &MINT_1, 30, 254, &pool, &PROGRAM), Ok(()));
    assert_eq!(validate_lp_authority(&pool, 253, &lp, &PROGRAM), Ok(()));
    assert_eq!(
        validate_pool_authority(&MINT_0, &MINT_1, 30, 254, &PROGRAM, &PROGRAM),
        Err(SolanaCoreError::PdaMismatch)
    );
    let seeds: [&[u8]; 2] = [b"lp", &pool];
    assert_eq!(validate_pda(&seeds, 253, &lp, &PROGRAM), Ok(()));
    assert_eq!(validate_pda(&seeds, 252, &lp, &PROGRAM), Err(SolanaCoreError::PdaMismatch));
}

#[test]
fn create_pool_records_payload_and_issues_sqrt() {
    let ix = init_payload(30, 1_000_000, 2_000_000);
    let pool_key = derive_pool(30, 254);
    let accs = accounts(pool_key, ix.lp_mint, 13);
    let plan = init_pool(&accs, 0, &ix.to_bytes(), &PROGRAM).unwrap();
    assert_eq!(plan.lp_amount, 1_414_213);
    assert_eq!(plan.pool.token_0_amount, 1_000_000);
    assert_eq!(plan.pool.token_1_amount, 2_000_000);
    assert_eq!(plan.pool.fees_bps, 30);
    assert_eq!(plan.pool.lp_mint, ix.lp_mint);
    assert_eq!(Pool::from_bytes(&plan.pool.to_bytes()), Ok(plan.pool));
}

#[test]
fn fee_above_cap_is_rejected_at_creation() {
    let ix = init_payload(600, 1_000, 1_000);
    let pool_key = derive_pool(600, 254);
    assert_eq!(
        Pool::init_pool(&pool_key, &ix, &PROGRAM),
        Err(SolanaCoreError::InvalidInstructionData)
    );
    let accs = accounts(pool_key, ix.lp_mint, 13);
    assert_eq!(
        init_pool(&accs, 0, &ix.to_bytes(), &PROGRAM),
        Err(SolanaCoreError::InvalidInstructionData)
    );
    assert_eq!(created_pool(500, 1, 1).fees_bps, 500);
}

#[test]
fn forged_bumps_are_rejected_at_creation() {
    let mut ix = init_payload(30, 1_000, 1_000);
    let pool_key = derive_pool(30, 254);
    ix.pool_bump = 200;
    assert_eq!(Pool::init_pool(&pool_key, &ix, &PROGRAM), Err(SolanaCoreError::PdaMismatch));
    let mut ix = init_payload(30, 1_000, 1_000);
    ix.lp_bump = 200;
    assert_eq!(Pool::init_pool(&pool_key, &ix, &PROGRAM), Err(SolanaCoreError::PdaMismatch));
}

#[test]
fn creation_checks_accounts_and_signature() {
    let ix = init_payload(30, 1_000, 1_000);
    let pool_key = derive_pool(30, 254);
    let data = ix.to_bytes();
    assert_eq!(
        init_pool(&accounts(pool_key, ix.lp_mint, 12), 0, &data, &PROGRAM),
        Err(SolanaCoreError::NotEnoughAccountKeys)
    );
    let mut accs = accounts(pool_key, ix.lp_mint, 13);
    assert_eq!(
        init_pool(&accs, 0, &data[..199], &PROGRAM),
        Err(SolanaCoreError::InvalidInstructionData)
    );
    assert_eq!(
        init_pool(&accs, 200, &data, &PROGRAM),
        Err(SolanaCoreError::AccountAlreadyInitialized)
    );
    accs[8].key = [0u8; 32];
    assert_eq!(init_pool(&accs, 0, &data, &PROGRAM), Err(SolanaCoreError::PdaMismatch));
    accs[0].is_signer = false;
    assert_eq!(
        init_pool(&accs, 0, &data, &PROGRAM),
        Err(SolanaCoreError::MissingRequiredSignature)
    );
}

#[test]
fn deposit_updates_reserves_by_used_amounts() {
    let mut pool = created_pool(30, 1000, 2000);
    let pool_key = derive_pool(30, 254);
    let lp = pool.lp_mint;
    assert_eq!(pool.add_liquidity(&pool_key, &lp, &PROGRAM, 100, 300, 1000), Ok((100, 100, 200)));
    assert_eq!((pool.token_0_amount, pool.token_1_amount), (1100, 2200));
    assert_eq!(pool.remove_liquidity(&pool_key, &lp, &PROGRAM, 110, 330, 1100), Ok((110, 110, 220)));
    assert_eq!((pool.token_0_amount, pool.token_1_amount), (990, 1980));
}

#[test]
fn wrong_authority_leaves_pool_unchanged() {
    let mut pool = created_pool(30, 1000, 2000);
    let before = pool;
    let pool_key = derive_pool(30, 254);
    let lp = pool.lp_mint;
    let other = derive_pool(30, 250);
    assert_eq!(
        pool.add_liquidity(&other, &lp, &PROGRAM, 100, 300, 1000),
        Err(SolanaCoreError::PdaMismatch)
    );
    assert_eq!(
        pool.remove_liquidity(&pool_key, &other, &PROGRAM, 100, 300, 1000),
        Err(SolanaCoreError::PdaMismatch)
    );
    let ix = Swap { token_0_amount: 100, expected_token_1_amount: 0, slippage_bps: 0 };
    assert_eq!(pool.swap(&other, &PROGRAM, &ix), Err(SolanaCoreError::PdaMismatch));
    assert_eq!(pool, before);
}

#[test]
fn withdrawal_beyond_reserves_is_a_math_error() {
    let mut pool = created_pool(30, 1000, 2000);
    let before = pool;
    let pool_key = derive_pool(30, 254);
    let lp = pool.lp_mint;
    assert_eq!(
        pool.remove_liquidity(&pool_key, &lp, &PROGRAM, 2000, 4000, 1000),
        Err(SolanaCoreError::MathError)
    );
    assert_eq!(pool, before);
}

#[test]
fn deposit_overflowing_reserve_is_rejected() {
    let mut pool = created_pool(30, u64::MAX, 1);
    let pool_key = derive_pool(30, 254);
    let lp = pool.lp_mint;
    assert_eq!(
        pool.add_liquidity(&pool_key, &lp, &PROGRAM, 1, 1, 1),
        Err(SolanaCoreError::OverFlowDetected)
    );
}

#[test]
fn proportional_operations_keep_the_ratio() {
    let mut pool = created_pool(30, 1000, 3000);
    let pool_key = derive_pool(30, 254);
    let lp = pool.lp_mint;
    let steps: [(bool, u64, u64); 4] = [(true, 10, 30), (true, 500, 1500), (false, 70, 210), (true, 1, 3)];
    for (add, a0, a1) in steps {
        let r = if add {
            pool.add_liquidity(&pool_key, &lp, &PROGRAM, a0, a1, 1000)
        } else {
            pool.remove_liquidity(&pool_key, &lp, &PROGRAM, a0, a1, 1000)
        };
        assert!(r.is_ok());
        assert_eq!(pool.token_0_amount as u128 * 3000, pool.token_1_amount as u128 * 1000);
    }
    // a lopsided deposit moves the price by less than one unit
    let (r0, r1) = (pool.token_0_amount as i128, pool.token_1_amount as i128);
    pool.add_liquidity(&pool_key, &lp, &PROGRAM, 7, 1000, 1000).unwrap();
    let drift = pool.token_0_amount as i128 * r1 - pool.token_1_amount as i128 * r0;
    assert!(-r1 < drift && drift < r0);
}

#[test]
fn swap_moves_reserves_and_keeps_product_within_rounding() {
    let mut pool = created_pool(30, 1000, 2000);
    let pool_key = derive_pool(30, 254);
    let ix = Swap { token_0_amount: 100, expected_token_1_amount: 182, slippage_bps: 0 };
    assert_eq!(pool.swap(&pool_key, &PROGRAM, &ix), Ok((100, 182)));
    assert_eq!((pool.token_0_amount, pool.token_1_amount), (1100, 1818));
    // floor rounding can cost the product less than one unit of token 1
    assert!(1100u128 * 1818 < 2_000_000);
    assert!(1100u128 * 1819 > 2_000_000);

    let mut pool = created_pool(300, 1_000_000, 1_000_000);
    let pool_key = derive_pool(300, 254);
    let ix = Swap { token_0_amount: 10_000, expected_token_1_amount: 0, slippage_bps: 10_000 };
    let (_, out) = pool.swap(&pool_key, &PROGRAM, &ix).unwrap();
    // net 9_700: out = 1_000_000 - floor(10^12 / 1_009_700) = 1_000_000 - 990_393
    assert_eq!(out, 9_607);
    assert!(pool.token_0_amount as u128 * pool.token_1_amount as u128 >= 1_000_000_000_000);
}

#[test]
fn handlers_round_trip_through_bytes() {
    let pool = created_pool(30, 1000, 2000);
    let pool_key = derive_pool(30, 254);
    let data = pool.to_bytes();
    let accs = accounts(pool_key, pool.lp_mint, 13);

    let add = LiquidatePool { pool_key, deposit_token_0_amount: 100, deposit_token_1_amount: 300 };
    let plan = liquidate_pool(&accs, &data, &add.to_bytes(), 1000, &PROGRAM).unwrap();
    assert_eq!(
        (plan.lp_amount, plan.token_0_amount, plan.token_1_amount),
        (100, 100, 200)
    );
    assert_eq!((plan.pool.token_0_amount, plan.pool.token_1_amount), (1100, 2200));

    let data = plan.pool.to_bytes();
    let remove =
        DeliquidatePool { pool_key, withdraw_token_0_amount: 110, withdraw_token_1_amount: 330 };
    let plan: LiquidityPlan =
        deliquidate_pool(&accs, &data, &remove.to_bytes(), 1100, &PROGRAM).unwrap();
    assert_eq!(
        (plan.lp_amount, plan.token_0_amount, plan.token_1_amount),
        (110, 110, 220)
    );

    let data = pool.to_bytes();
    let ix = Swap { token_0_amount: 100, expected_token_1_amount: 182, slippage_bps: 0 };
    let plan = swap(&accs[..10], &data, &ix.to_bytes(), &PROGRAM).unwrap();
    assert_eq!((plan.amount_in, plan.amount_out), (100, 182));
    assert_eq!(Swap::from_bytes(&ix.to_bytes()), Ok(ix));
}

#[test]
fn handlers_check_accounts_payload_and_record() {
    let pool = created_pool(30, 1000, 2000);
    let pool_key = derive_pool(30, 254);
    let data = pool.to_bytes();
    let mut accs = accounts(pool_key, pool.lp_mint, 13);
    let add = LiquidatePool { pool_key, deposit_token_0_amount: 1, deposit_token_1_amount: 2 };
    let payload = add.to_bytes();
    assert_eq!(
        liquidate_pool(&accs[..12], &data, &payload, 10, &PROGRAM),
        Err(SolanaCoreError::NotEnoughAccountKeys)
    );
    assert_eq!(
        liquidate_pool(&accs, &data, &payload[..47], 10, &PROGRAM),
        Err(SolanaCoreError::InvalidInstructionData)
    );
    assert_eq!(
        liquidate_pool(&accs, &data[..199], &payload, 10, &PROGRAM),
        Err(SolanaCoreError::InvalidAccountData)
    );
    let mut bad_fee = data.clone();
    bad_fee[153] = 0xff;
    assert_eq!(
        deliquidate_pool(&accs, &bad_fee, &payload, 10, &PROGRAM),
        Err(SolanaCoreError::InvalidAccountData)
    );
    assert_eq!(
        swap(&accs[..9], &data, &[0u8; 24], &PROGRAM),
        Err(SolanaCoreError::NotEnoughAccountKeys)
    );
    accs[1].is_writable = false;
    assert_eq!(
        liquidate_pool(&accs, &data, &payload, 10, &PROGRAM),
        Err(SolanaCoreError::PoolAccountNotWritable)
    );
    accs[0].is_signer = false;
    assert_eq!(
        deliquidate_pool(&accs, &data, &payload, 10, &PROGRAM),
        Err(SolanaCoreError::SignerRequired)
    );
    assert_eq!(
        swap(&accs, &data, &[0u8; 24], &PROGRAM),
        Err(SolanaCoreError::SignerRequired)
    );
}

#[test]
fn creation_rejects_reserves_whose_product_overflows() {
    let ix = init_payload(30, u64::MAX, 2);
    let pool_key = derive_pool(30, 254);
    assert_eq!(Pool::init_pool(&pool_key, &ix, &PROGRAM), Err(SolanaCoreError::MathError));
    let accs = accounts(pool_key, ix.lp_mint, 13);
    assert_eq!(init_pool(&accs, 0, &ix.to_bytes(), &PROGRAM), Err(SolanaCoreError::MathError));
    let ix = init_payload(30, u64::MAX, 1);
    assert_eq!(init_pool(&accs, 0, &ix.to_bytes(), &PROGRAM).map(|p| p.lp_amount), Ok(4294967295));
}

#[test]
fn deposit_whose_reserve_product_overflows_is_a_math_error() {
    let mut pool = created_pool(30, 1 << 32, 1 << 31);
    let before = pool;
    let pool_key = derive_pool(30, 254);
    let lp = pool.lp_mint;
    assert_eq!(
        pool.add_liquidity(&pool_key, &lp, &PROGRAM, 1 << 32, 1 << 31, 1000),
        Err(SolanaCoreError::MathError)
    );
    assert_eq!(pool, before);
}

#[test]
fn signature_is_checked_before_payload() {
    let ix = init_payload(30, 1_000, 1_000);
    let pool_key = derive_pool(30, 254);
    let mut accs = accounts(pool_key, ix.lp_mint, 13);
    accs[0].is_signer = false;
    assert_eq!(
        init_pool(&accs, 0, &[0u8; 3], &PROGRAM),
        Err(SolanaCoreError::MissingRequiredSignature)
    );
    let data = created_pool(30, 1000, 2000).to_bytes();
    assert_eq!(
        deliquidate_pool(&accs, &data, &[0u8; 3], 10, &PROGRAM),
        Err(SolanaCoreError::SignerRequired)
    );
    assert_eq!(
        liquidate_pool(&accs, &data, &[0u8; 3], 10, &PROGRAM),
        Err(SolanaCoreError::SignerRequired)
    );
    accs[0].is_signer = true;
    accs[1].is_writable = false;
    assert_eq!(
        deliquidate_pool(&accs, &data, &[0u8; 3], 10, &PROGRAM),
        Err(SolanaCoreError::PoolAccountNotWritable)
    );
}

#[test]
fn encoded_records_pad_with_zeros() {
    let mut pool = created_pool(30, 1000, 2000);
    pool.pool_bump = 0xff;
    pool.lp_bump = 0xff;
    let bytes = pool.to_bytes();
    assert_eq!(bytes.len(), 200);
    assert_eq!(bytes[144], 0xff);
    assert!(bytes[145..152].iter().all(|b| *b == 0));
    assert_eq!(bytes[192], 0xff);
    assert!(bytes[193..200].iter().all(|b| *b == 0));
}

#[test]
fn derivations_are_checked_before_fee_cap() {
    let mut ix = init_payload(600, 1_000, 1_000);
    let pool_key = derive_pool(600, 254);
    ix.lp_bump = 200;
    assert_eq!(Pool::init_pool(&pool_key, &ix, &PROGRAM), Err(SolanaCoreError::PdaMismatch));
    let accs = accounts(pool_key, ix.lp_mint, 13);
    assert_eq!(init_pool(&accs, 0, &ix.to_bytes(), &PROGRAM), Err(SolanaCoreError::PdaMismatch));
}

#[test]
fn error_codes_follow_declaration_order() {
    assert_eq!(SolanaCoreError::InvalidInstructionData.code(), 0);
    assert_eq!(SolanaCoreError::PdaMismatch.code(), 1);
    assert_eq!(SolanaCoreError::MathError.code(), 3);
    assert_eq!(SolanaCoreError::OverFlowDetected.code(), 10);
    assert_eq!(SolanaCoreError::Slippage.code(), 11);
}
