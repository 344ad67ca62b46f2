use vstd::prelude::*;
use crate::amm::{add_result, init_result, pool_of, remove_result, swap_result};
use crate::errors::SolanaCoreError;
use crate::maths::initial_lp_amount;
use crate::states::{
    lemma_record_encoding_unique, u64_at, DeliquidatePool, InitPool, LiquidatePool, Pool, Swap,
    LIQUIDITY_LEN, MAX_FEE_BPS, POOL_LEN, SWAP_LEN,
};

verus! {

/// Selector of the instruction that creates a pool.
pub const INIT_POOL_DISCRIMINATOR: u8 = 0;

/// Selector of the instruction that deposits liquidity.
pub const LIQUIDATE_POOL_DISCRIMINATOR: u8 = 1;

/// Selector of the instruction that withdraws liquidity.
pub const DELIQUIDATE_POOL_DISCRIMINATOR: u8 = 2;

/// Selector of the instruction that swaps token 0 for token 1.
pub const SWAP_DISCRIMINATOR: u8 = 3;

/// Accounts that pool creation and the liquidity instructions take.
pub const LIQUIDITY_ACCOUNTS: usize = 13;

/// Accounts that a swap takes: the liquidity list without its LP slots.
pub const SWAP_ACCOUNTS: usize = 10;

/// The four operations of the program.
#[derive(Clone, Copy, Debug, PartialEq, Eq, Structural)]
pub enum SolanaCoreInstruction {
    InitPool,
    LiquidatePool,
    DeliquidatePool,
    Swap,
}

/// The operation that a selector byte names, if any.
pub open spec fn instruction_of(selector: u8) -> Option<SolanaCoreInstruction> {
    if selector == INIT_POOL_DISCRIMINATOR {
        Some(SolanaCoreInstruction::InitPool)
    } else if selector == LIQUIDATE_POOL_DISCRIMINATOR {
        Some(SolanaCoreInstruction::LiquidatePool)
    } else if selector == DELIQUIDATE_POOL_DISCRIMINATOR {
        Some(SolanaCoreInstruction::DeliquidatePool)
    } else if selector == SWAP_DISCRIMINATOR {
        Some(SolanaCoreInstruction::Swap)
    } else {
        None
    }
}

impl SolanaCoreInstruction {
    /// The selector byte of this operation.
    pub fn discriminator(&self) -> (r: u8)
        ensures
            instruction_of(r) == Some(*self),
    {
        match self {
            SolanaCoreInstruction::InitPool => INIT_POOL_DISCRIMINATOR,
            SolanaCoreInstruction::LiquidatePool => LIQUIDATE_POOL_DISCRIMINATOR,
            SolanaCoreInstruction::DeliquidatePool => DELIQUIDATE_POOL_DISCRIMINATOR,
            SolanaCoreInstruction::Swap => SWAP_DISCRIMINATOR,
        }
    }

    /// Reads the operation from the first byte of instruction data; the rest is its payload.
    pub fn from_instruction_data(data: &[u8]) -> (r: Result<SolanaCoreInstruction, SolanaCoreError>)
        ensures
            data@.len() == 0 ==> r == Err::<SolanaCoreInstruction, SolanaCoreError>(
                SolanaCoreError::InvalidInstructionData,
            ),
            data@.len() > 0 ==> r == match instruction_of(data@[0]) {
                Some(i) => Ok::<SolanaCoreInstruction, SolanaCoreError>(i),
                None => Err(SolanaCoreError::InvalidInstructionData),
            },
    {
        if data.len() == 0 {
            return Err(SolanaCoreError::InvalidInstructionData);
        }
        let selector = data[0];
        if selector == INIT_POOL_DISCRIMINATOR {
            Ok(SolanaCoreInstruction::InitPool)
        } else if selector == LIQUIDATE_POOL_DISCRIMINATOR {
            Ok(SolanaCoreInstruction::LiquidatePool)
        } else if selector == DELIQUIDATE_POOL_DISCRIMINATOR {
            Ok(SolanaCoreInstruction::DeliquidatePool)
        } else if selector == SWAP_DISCRIMINATOR {
            Ok(SolanaCoreInstruction::Swap)
        } else {
            Err(SolanaCoreError::InvalidInstructionData)
        }
    }
}

/// What the runtime reports of one account passed to an instruction.
#[derive(Clone, Copy, Debug, PartialEq, Eq)]
pub struct AccountState {
    pub key: [u8; 32],
    pub is_signer: bool,
    pub is_writable: bool,
}

/// What creating a pool asks of the ledger once every check has passed: create the pool
/// account, the vaults and the LP mint, move both initial amounts in, mint `lp_amount` to the
/// creator and store `pool`.
#[derive(Clone, Copy, Debug, PartialEq, Eq)]
pub struct InitPlan {
    pub pool: Pool,
    pub lp_amount: u64,
}

/// What a deposit or a withdrawal asks of the ledger: move `token_0_amount` and
/// `token_1_amount`, mint or burn `lp_amount`, and store `pool`.
#[derive(Clone, Copy, Debug, PartialEq, Eq)]
pub struct LiquidityPlan {
    pub pool: Pool,
    pub lp_amount: u64,
    pub token_0_amount: u64,
    pub token_1_amount: u64,
}

/// What a swap asks of the ledger: move `amount_in` of token 0 into the vault, `amount_out` of
/// token 1 out of it, and store `pool`.
#[derive(Clone, Copy, Debug, PartialEq, Eq)]
pub struct SwapPlan {
    pub pool: Pool,
    pub amount_in: u64,
    pub amount_out: u64,
}

/// Whether `r` is the floor of the square root of `n`.
pub open spec fn is_floor_sqrt(r: u64, n: int) -> bool {
    (r as int) * (r as int) <= n < (r as int + 1) * (r as int + 1)
}

/// Whether bytes hold a valid stored pool.
pub open spec fn pool_data_valid(b: Seq<u8>) -> bool {
    b.len() == POOL_LEN && u64_at(b, 152) <= MAX_FEE_BPS
}

/// The outcome of pool creation. Checks in order: the account list, the creator's signature,
/// the payload length, that the pool account is still empty, the two proposed derivations, the
/// fee cap, the product of the initial amounts, and that the LP mint account is the derived
/// one.
pub open spec fn init_pool_outcome(
    accounts: Seq<AccountState>,
    pool_data_len: usize,
    data: Seq<u8>,
    program_id: Seq<u8>,
    r: Result<InitPlan, SolanaCoreError>,
) -> bool {
    if accounts.len() < LIQUIDITY_ACCOUNTS {
        r == Err::<InitPlan, SolanaCoreError>(SolanaCoreError::NotEnoughAccountKeys)
    } else if !accounts[0].is_signer {
        r == Err::<InitPlan, SolanaCoreError>(SolanaCoreError::MissingRequiredSignature)
    } else if data.len() != POOL_LEN {
        r == Err::<InitPlan, SolanaCoreError>(SolanaCoreError::InvalidInstructionData)
    } else if pool_data_len != 0 {
        r == Err::<InitPlan, SolanaCoreError>(SolanaCoreError::AccountAlreadyInitialized)
    } else {
        forall|ix: InitPool|
            #![trigger ix.encoded_by(data)]
            ix.encoded_by(data) ==> match init_result(accounts[1].key@, ix, program_id) {
                Err(e) => r == Err::<InitPlan, SolanaCoreError>(e),
                Ok(p) => if accounts[8].key@ != ix.lp_mint@ {
                    r == Err::<InitPlan, SolanaCoreError>(SolanaCoreError::PdaMismatch)
                } else {
                    &&& r matches Ok(plan)
                    &&& plan.pool == p
                    &&& is_floor_sqrt(
                        plan.lp_amount,
                        (ix.token_0_amount as int) * (ix.token_1_amount as int),
                    )
                },
            }
    }
}

/// Validates pool creation and computes its effects. `pool_data_len` is the current data length
/// of the pool account; the ledger work is left to the caller.
pub fn init_pool(
    accounts: &[AccountState],
    pool_data_len: usize,
    data: &[u8],
    program_id: &[u8; 32],
) -> (r: Result<InitPlan, SolanaCoreError>)
    ensures
        init_pool_outcome(accounts@, pool_data_len, data@, program_id@, r),
{
    if accounts.len() < LIQUIDITY_ACCOUNTS {
        return Err(SolanaCoreError::NotEnoughAccountKeys);
    }
    if !accounts[0].is_signer {
        return Err(SolanaCoreError::MissingRequiredSignature);
    }
    let ix = InitPool::from_bytes(data)?;
    if pool_data_len != 0 {
        return Err(SolanaCoreError::AccountAlreadyInitialized);
    }
    proof {
        assert forall|jx: InitPool| #[trigger] jx.encoded_by(data@) implies jx == ix by {
            lemma_record_encoding_unique(pool_of(jx), pool_of(ix), data@);
        }
    }
    let pool = Pool::init_pool(&accounts[1].key, &ix, program_id)?;
    if !crate::pda::same_address(&accounts[8].key, &ix.lp_mint) {
        return Err(SolanaCoreError::PdaMismatch);
    }
    let lp_amount = initial_lp_amount(ix.token_0_amount, ix.token_1_amount);
    Ok(InitPlan { pool, lp_amount })
}

/// The outcome of a deposit or a withdrawal, given what the pool operation yields for the
/// stored pool. Checks in order: the account list, the signature, that the pool account is
/// writable, the payload length, and the stored record.
pub open spec fn liquidity_outcome(
    accounts: Seq<AccountState>,
    pool_data: Seq<u8>,
    data: Seq<u8>,
    r: Result<LiquidityPlan, SolanaCoreError>,
    step: spec_fn(Pool) -> Result<(Pool, (u64, u64, u64)), SolanaCoreError>,
) -> bool {
    if accounts.len() < LIQUIDITY_ACCOUNTS {
        r == Err::<LiquidityPlan, SolanaCoreError>(SolanaCoreError::NotEnoughAccountKeys)
    } else if !accounts[0].is_signer {
        r == Err::<LiquidityPlan, SolanaCoreError>(SolanaCoreError::SignerRequired)
    } else if !accounts[1].is_writable {
        r == Err::<LiquidityPlan, SolanaCoreError>(SolanaCoreError::PoolAccountNotWritable)
    } else if data.len() != LIQUIDITY_LEN {
        r == Err::<LiquidityPlan, SolanaCoreError>(SolanaCoreError::InvalidInstructionData)
    } else if !pool_data_valid(pool_data) {
        r == Err::<LiquidityPlan, SolanaCoreError>(SolanaCoreError::InvalidAccountData)
    } else {
        forall|pool: Pool|
            #![trigger pool.encoded_by(pool_data)]
            pool.encoded_by(pool_data) ==> match step(pool) {
                Err(e) => r == Err::<LiquidityPlan, SolanaCoreError>(e),
                Ok((p, t)) => r == Ok::<LiquidityPlan, SolanaCoreError>(
                    LiquidityPlan {
                        pool: p,
                        lp_amount: t.0,
                        token_0_amount: t.1,
                        token_1_amount: t.2,
                    },
                ),
            }
    }
}

/// Validates a deposit and computes its effects against the stored pool. Accounts:
/// `[signer, pool, trader_0, trader_1, mint_0, mint_1, vault_0, vault_1, lp_mint, trader_lp,
/// rent, system_program, token_program]`; `lp_supply` is the LP mint's current supply.
pub fn liquidate_pool(
    accounts: &[AccountState],
    pool_data: &[u8],
    data: &[u8],
    lp_supply: u64,
    program_id: &[u8; 32],
) -> (r: Result<LiquidityPlan, SolanaCoreError>)
    ensures
        liquidity_outcome(
            accounts@,
            pool_data@,
            data@,
            r,
            |pool: Pool|
                add_result(
                    pool,
                    accounts@[1].key@,
                    accounts@[8].key@,
                    program_id@,
                    u64_at(data@, 32),
                    u64_at(data@, 40),
                    lp_supply,
                ),
        ),
{
    if accounts.len() < LIQUIDITY_ACCOUNTS {
        return Err(SolanaCoreError::NotEnoughAccountKeys);
    }
    if !accounts[0].is_signer {
        return Err(SolanaCoreError::SignerRequired);
    }
    if !accounts[1].is_writable {
        return Err(SolanaCoreError::PoolAccountNotWritable);
    }
    let ix = LiquidatePool::from_bytes(data)?;
    let mut pool = Pool::from_bytes(pool_data)?;
    proof {
        assert forall|q: Pool| #[trigger] q.encoded_by(pool_data@) implies q == pool by {
            lemma_record_encoding_unique(q, pool, pool_data@);
        }
    }
    let (lp_amount, token_0_amount, token_1_amount) = pool.add_liquidity(
        &accounts[1].key,
        &accounts[8].key,
        program_id,
        ix.deposit_token_0_amount,
        ix.deposit_token_1_amount,
        lp_supply,
    )?;
    Ok(LiquidityPlan { pool, lp_amount, token_0_amount, token_1_amount })
}

/// Validates a withdrawal and computes its effects against the stored pool; the accounts are
/// those of `liquidate_pool`.
pub fn deliquidate_pool(
    accounts: &[AccountState],
    pool_data: &[u8],
    data: &[u8],
    lp_supply: u64,
    program_id: &[u8; 32],
) -> (r: Result<LiquidityPlan, SolanaCoreError>)
    ensures
        liquidity_outcome(
            accounts@,
            pool_data@,
            data@,
            r,
            |pool: Pool|
                remove_result(
                    pool,
                    accounts@[1].key@,
                    accounts@[8].key@,
                    program_id@,
                    u64_at(data@, 32),
                    u64_at(data@, 40),
                    lp_supply,
                ),
        ),
{
    if accounts.len() < LIQUIDITY_ACCOUNTS {
        return Err(SolanaCoreError::NotEnoughAccountKeys);
    }
    if !accounts[0].is_signer {
        return Err(SolanaCoreError::SignerRequired);
    }
    if !accounts[1].is_writable {
        return Err(SolanaCoreError::PoolAccountNotWritable);
    }
    let ix = DeliquidatePool::from_bytes(data)?;
    let mut pool = Pool::from_bytes(pool_data)?;
    proof {
        assert forall|q: Pool| #[trigger] q.encoded_by(pool_data@) implies q == pool by {
            lemma_record_encoding_unique(q, pool, pool_data@);
        }
    }
    let (lp_amount, token_0_amount, token_1_amount) = pool.remove_liquidity(
        &accounts[1].key,
        &accounts[8].key,
        program_id,
        ix.withdraw_token_0_amount,
        ix.withdraw_token_1_amount,
        lp_supply,
    )?;
    Ok(LiquidityPlan { pool, lp_amount, token_0_amount, token_1_amount })
}

/// The outcome of a swap. Checks in order: the account list, the payload length, the
/// signature, and the stored record; then the pool operation decides.
pub open spec fn swap_outcome(
    accounts: Seq<AccountState>,
    pool_data: Seq<u8>,
    data: Seq<u8>,
    program_id: Seq<u8>,
    r: Result<SwapPlan, SolanaCoreError>,
) -> bool {
    if accounts.len() < SWAP_ACCOUNTS {
        r == Err::<SwapPlan, SolanaCoreError>(SolanaCoreError::NotEnoughAccountKeys)
    } else if data.len() != SWAP_LEN {
        r == Err::<SwapPlan, SolanaCoreError>(SolanaCoreError::InvalidInstructionData)
    } else if !accounts[0].is_signer {
        r == Err::<SwapPlan, SolanaCoreError>(SolanaCoreError::SignerRequired)
    } else if !pool_data_valid(pool_data) {
        r == Err::<SwapPlan, SolanaCoreError>(SolanaCoreError::InvalidAccountData)
    } else {
        let ix = Swap {
            token_0_amount: u64_at(data, 0),
            expected_token_1_amount: u64_at(data, 8),
            slippage_bps: u64_at(data, 16),
        };
        forall|pool: Pool|
            #![trigger pool.encoded_by(pool_data)]
            pool.encoded_by(pool_data) ==> match swap_result(pool, accounts[1].key@, program_id, ix) {
                Err(e) => r == Err::<SwapPlan, SolanaCoreError>(e),
                Ok((p, t)) => r == Ok::<SwapPlan, SolanaCoreError>(
                    SwapPlan { pool: p, amount_in: t.0, amount_out: t.1 },
                ),
            }
    }
}

/// Validates a swap and computes its effects against the stored pool. Accounts:
/// `[signer, pool, trader_0, trader_1, mint_0, mint_1, vault_0, vault_1, system_program,
/// token_program]`.
pub fn swap(accounts: &[AccountState], pool_data: &[u8], data: &[u8], program_id: &[u8; 32]) -> (r:
    Result<SwapPlan, SolanaCoreError>)
    ensures
        swap_outcome(accounts@, pool_data@, data@, program_id@, r),
{
    if accounts.len() < SWAP_ACCOUNTS {
        return Err(SolanaCoreError::NotEnoughAccountKeys);
    }
    let ix = Swap::from_bytes(data)?;
    if !accounts[0].is_signer {
        return Err(SolanaCoreError::SignerRequired);
    }
    let mut pool = Pool::from_bytes(pool_data)?;
    proof {
        assert forall|q: Pool| #[trigger] q.encoded_by(pool_data@) implies q == pool by {
            lemma_record_encoding_unique(q, pool, pool_data@);
        }
    }
    let (amount_in, amount_out) = pool.swap(&accounts[1].key, program_id, &ix)?;
    Ok(SwapPlan { pool, amount_in, amount_out })
}

} // verus!
