use vstd::prelude::*;
use crate::errors::SolanaCoreError;
use crate::maths::{
    calculate_token_out, lp_to_burn, lp_to_mint, net_of_fee, share_result, swap_fee,
    token_out_result,
};
use crate::pda::{lp_mint_address, pool_address, validate_lp_authority, validate_pool_authority};
use crate::states::{InitPool, Pool, Swap, MAX_FEE_BPS};

verus! {

/// The pool record that an initialization payload describes.
pub open spec fn pool_of(ix: InitPool) -> Pool {
    Pool {
        token_0_mint: ix.token_0_mint,
        token_1_mint: ix.token_1_mint,
        token_0_amount: ix.token_0_amount,
        token_1_amount: ix.token_1_amount,
        vault_0: ix.vault_0,
        vault_1: ix.vault_1,
        pool_bump: ix.pool_bump,
        fees_bps: ix.fees_bps,
        lp_mint: ix.lp_mint,
        lp_bump: ix.lp_bump,
    }
}

/// The outcome of creating a pool at `pool_key`: the pool address must re-derive from the
/// proposed seeds and bump, the LP mint must re-derive from the pool address and the proposed
/// LP bump, the fee must be within the cap, and the product of the initial reserves must fit in
/// 64 bits.
pub open spec fn init_result(pool_key: Seq<u8>, ix: InitPool, program_id: Seq<u8>) -> Result<
    Pool,
    SolanaCoreError,
> {
    if pool_key != pool_address(
        ix.token_0_mint@,
        ix.token_1_mint@,
        ix.fees_bps,
        ix.pool_bump,
        program_id,
    ) {
        Err(SolanaCoreError::PdaMismatch)
    } else if ix.lp_mint@ != lp_mint_address(pool_key, ix.lp_bump, program_id) {
        Err(SolanaCoreError::PdaMismatch)
    } else if ix.fees_bps > MAX_FEE_BPS {
        Err(SolanaCoreError::InvalidInstructionData)
    } else if !reserves_fit(ix.token_0_amount as int, ix.token_1_amount as int) {
        Err(SolanaCoreError::MathError)
    } else {
        Ok(pool_of(ix))
    }
}

/// Whether the product of two reserves fits in 64 bits.
pub open spec fn reserves_fit(r0: int, r1: int) -> bool {
    r0 * r1 <= u64::MAX
}

/// Whether `pool_key` and `lp_mint` are the addresses that the pool's own recorded seeds derive.
pub open spec fn authorities_hold(
    pool: Pool,
    pool_key: Seq<u8>,
    lp_mint: Seq<u8>,
    program_id: Seq<u8>,
) -> bool {
    &&& pool_key == pool_address(
        pool.token_0_mint@,
        pool.token_1_mint@,
        pool.fees_bps,
        pool.pool_bump,
        program_id,
    )
    &&& lp_mint == lp_mint_address(pool_key, pool.lp_bump, program_id)
}

/// The pool with new reserves.
pub open spec fn with_reserves(pool: Pool, r0: int, r1: int) -> Pool {
    Pool { token_0_amount: r0 as u64, token_1_amount: r1 as u64, ..pool }
}

/// The outcome of a deposit: the new pool and `(lp_minted, used_0, used_1)`. Each new reserve
/// and their product must fit in 64 bits.
pub open spec fn add_result(
    pool: Pool,
    pool_key: Seq<u8>,
    lp_mint: Seq<u8>,
    program_id: Seq<u8>,
    deposit_0: u64,
    deposit_1: u64,
    lp_supply: u64,
) -> Result<(Pool, (u64, u64, u64)), SolanaCoreError> {
    if !authorities_hold(pool, pool_key, lp_mint, program_id) {
        Err(SolanaCoreError::PdaMismatch)
    } else {
        match share_result(deposit_0, deposit_1, pool.token_0_amount, pool.token_1_amount, lp_supply) {
            Err(e) => Err(e),
            Ok(t) => {
                let r0 = pool.token_0_amount + t.1;
                let r1 = pool.token_1_amount + t.2;
                if r0 > u64::MAX || r1 > u64::MAX {
                    Err(SolanaCoreError::OverFlowDetected)
                } else if !reserves_fit(r0, r1) {
                    Err(SolanaCoreError::MathError)
                } else {
                    Ok((with_reserves(pool, r0, r1), t))
                }
            },
        }
    }
}

/// The outcome of a withdrawal: the new pool and `(lp_burned, used_0, used_1)`.
pub open spec fn remove_result(
    pool: Pool,
    pool_key: Seq<u8>,
    lp_mint: Seq<u8>,
    program_id: Seq<u8>,
    withdraw_0: u64,
    withdraw_1: u64,
    lp_supply: u64,
) -> Result<(Pool, (u64, u64, u64)), SolanaCoreError> {
    if !authorities_hold(pool, pool_key, lp_mint, program_id) {
        Err(SolanaCoreError::PdaMismatch)
    } else {
        match share_result(withdraw_0, withdraw_1, pool.token_0_amount, pool.token_1_amount, lp_supply) {
            Err(e) => Err(e),
            Ok(t) => {
                let r0 = pool.token_0_amount - t.1;
                let r1 = pool.token_1_amount - t.2;
                if r0 < 0 || r1 < 0 {
                    Err(SolanaCoreError::MathError)
                } else {
                    Ok((with_reserves(pool, r0, r1), t))
                }
            },
        }
    }
}

/// The outcome of a swap: the new pool and `(amount_in, amount_out)`. The fee is taken from the
/// input before the constant-product rule; the whole input stays in the pool, and the new
/// reserve 0 and the product of the new reserves must fit in 64 bits.
pub open spec fn swap_result(pool: Pool, pool_key: Seq<u8>, program_id: Seq<u8>, ix: Swap) -> Result<
    (Pool, (u64, u64)),
    SolanaCoreError,
> {
    if pool_key != pool_address(
        pool.token_0_mint@,
        pool.token_1_mint@,
        pool.fees_bps,
        pool.pool_bump,
        program_id,
    ) {
        Err(SolanaCoreError::PdaMismatch)
    } else {
        let net = (ix.token_0_amount - swap_fee(ix.token_0_amount, pool.fees_bps)) as u64;
        match token_out_result(
            net,
            ix.expected_token_1_amount,
            ix.slippage_bps,
            pool.token_0_amount,
            pool.token_1_amount,
        ) {
            Err(e) => Err(e),
            Ok(out) => {
                let r0 = pool.token_0_amount + ix.token_0_amount;
                if r0 > u64::MAX {
                    Err(SolanaCoreError::OverFlowDetected)
                } else if !reserves_fit(r0, pool.token_1_amount - out) {
                    Err(SolanaCoreError::MathError)
                } else {
                    Ok(
                        (
                            with_reserves(pool, r0, pool.token_1_amount - out),
                            (ix.token_0_amount, out),
                        ),
                    )
                }
            },
        }
    }
}

impl Pool {
    /// Builds the record of a new pool from its initialization payload, after checking both
    /// proposed derivations and the fee cap.
    pub fn init_pool(pool_key: &[u8; 32], ix_data: &InitPool, program_id: &[u8; 32]) -> (r: Result<
        Pool,
        SolanaCoreError,
    >)
        ensures
            r == init_result(pool_key@, *ix_data, program_id@),
            r matches Ok(p) ==> p.wf(),
    {
        validate_pool_authority(
            &ix_data.token_0_mint,
            &ix_data.token_1_mint,
            ix_data.fees_bps,
            ix_data.pool_bump,
            pool_key,
            program_id,
        )?;
        validate_lp_authority(pool_key, ix_data.lp_bump, &ix_data.lp_mint, program_id)?;
        if ix_data.fees_bps > MAX_FEE_BPS {
            return Err(SolanaCoreError::InvalidInstructionData);
        }
        if ix_data.token_0_amount.checked_mul(ix_data.token_1_amount).is_none() {
            return Err(SolanaCoreError::MathError);
        }
        Ok(
            Pool {
                token_0_mint: ix_data.token_0_mint,
                token_1_mint: ix_data.token_1_mint,
                token_0_amount: ix_data.token_0_amount,
                token_1_amount: ix_data.token_1_amount,
                vault_0: ix_data.vault_0,
                vault_1: ix_data.vault_1,
                pool_bump: ix_data.pool_bump,
                fees_bps: ix_data.fees_bps,
                lp_mint: ix_data.lp_mint,
                lp_bump: ix_data.lp_bump,
            },
        )
    }

    fn check_authorities(
        &self,
        pool_key: &[u8; 32],
        lp_mint: &[u8; 32],
        program_id: &[u8; 32],
    ) -> (r: Result<(), SolanaCoreError>)
        ensures
            r is Ok <==> authorities_hold(*self, pool_key@, lp_mint@, program_id@),
            r is Err ==> r == Err::<(), SolanaCoreError>(SolanaCoreError::PdaMismatch),
    {
        validate_pool_authority(
            &self.token_0_mint,
            &self.token_1_mint,
            self.fees_bps,
            self.pool_bump,
            pool_key,
            program_id,
        )?;
        validate_lp_authority(pool_key, self.lp_bump, lp_mint, program_id)
    }

    /// Takes a deposit into the pool: re-derives both authorities from the recorded seeds,
    /// computes the shares to mint, and adds the used amounts to the reserves. On any error the
    /// pool is left as it was.
    pub fn add_liquidity(
        &mut self,
        pool_key: &[u8; 32],
        lp_mint: &[u8; 32],
        program_id: &[u8; 32],
        deposit_token_0_amount: u64,
        deposit_token_1_amount: u64,
        lp_supply: u64,
    ) -> (r: Result<(u64, u64, u64), SolanaCoreError>)
        ensures
            match add_result(
                *old(self),
                pool_key@,
                lp_mint@,
                program_id@,
                deposit_token_0_amount,
                deposit_token_1_amount,
                lp_supply,
            ) {
                Ok((p, t)) => r == Ok::<(u64, u64, u64), SolanaCoreError>(t) && *final(self) == p,
                Err(e) => r == Err::<(u64, u64, u64), SolanaCoreError>(e) && *final(self) == *old(
                    self,
                ),
            },
    {
        self.check_authorities(pool_key, lp_mint, program_id)?;
        let (lp, used_0, used_1) = lp_to_mint(
            deposit_token_0_amount,
            deposit_token_1_amount,
            self.token_0_amount,
            self.token_1_amount,
            lp_supply,
        )?;
        let r0 = match self.token_0_amount.checked_add(used_0) {
            Some(v) => v,
            None => return Err(SolanaCoreError::OverFlowDetected),
        };
        let r1 = match self.token_1_amount.checked_add(used_1) {
            Some(v) => v,
            None => return Err(SolanaCoreError::OverFlowDetected),
        };
        if r0.checked_mul(r1).is_none() {
            return Err(SolanaCoreError::MathError);
        }
        self.token_0_amount = r0;
        self.token_1_amount = r1;
        Ok((lp, used_0, used_1))
    }

    /// Pays a withdrawal out of the pool: re-derives both authorities from the recorded seeds,
    /// computes the shares to burn, and takes the used amounts from the reserves. On any error
    /// the pool is left as it was.
    pub fn remove_liquidity(
        &mut self,
        pool_key: &[u8; 32],
        lp_mint: &[u8; 32],
        program_id: &[u8; 32],
        withdraw_token_0_amount: u64,
        withdraw_token_1_amount: u64,
        lp_supply: u64,
    ) -> (r: Result<(u64, u64, u64), SolanaCoreError>)
        ensures
            match remove_result(
                *old(self),
                pool_key@,
                lp_mint@,
                program_id@,
                withdraw_token_0_amount,
                withdraw_token_1_amount,
                lp_supply,
            ) {
                Ok((p, t)) => r == Ok::<(u64, u64, u64), SolanaCoreError>(t) && *final(self) == p,
                Err(e) => r == Err::<(u64, u64, u64), SolanaCoreError>(e) && *final(self) == *old(
                    self,
                ),
            },
    {
        self.check_authorities(pool_key, lp_mint, program_id)?;
        let (lp, used_0, used_1) = lp_to_burn(
            withdraw_token_0_amount,
            withdraw_token_1_amount,
            self.token_0_amount,
            self.token_1_amount,
            lp_supply,
        )?;
        let r0 = match self.token_0_amount.checked_sub(used_0) {
            Some(v) => v,
            None => return Err(SolanaCoreError::MathError),
        };
        let r1 = match self.token_1_amount.checked_sub(used_1) {
            Some(v) => v,
            None => return Err(SolanaCoreError::MathError),
        };
        self.token_0_amount = r0;
        self.token_1_amount = r1;
        Ok((lp, used_0, used_1))
    }

    /// Swaps token 0 for token 1: re-derives the pool authority from the recorded seeds, takes
    /// the fee from the input, prices the rest by the constant-product rule under the slippage
    /// tolerance, and moves the reserves. Returns `(amount_in, amount_out)`. On any error the
    /// pool is left as it was.
    pub fn swap(&mut self, pool_key: &[u8; 32], program_id: &[u8; 32], ix_data: &Swap) -> (r:
        Result<(u64, u64), SolanaCoreError>)
        requires
            old(self).wf(),
        ensures
            match swap_result(*old(self), pool_key@, program_id@, *ix_data) {
                Ok((p, t)) => r == Ok::<(u64, u64), SolanaCoreError>(t) && *final(self) == p,
                Err(e) => r == Err::<(u64, u64), SolanaCoreError>(e) && *final(self) == *old(self),
            },
    {
        validate_pool_authority(
            &self.token_0_mint,
            &self.token_1_mint,
            self.fees_bps,
            self.pool_bump,
            pool_key,
            program_id,
        )?;
        let net = net_of_fee(ix_data.token_0_amount, self.fees_bps);
        let out = calculate_token_out(
            net,
            ix_data.expected_token_1_amount,
            ix_data.slippage_bps,
            self.token_0_amount,
            self.token_1_amount,
        )?;
        let r0 = match self.token_0_amount.checked_add(ix_data.token_0_amount) {
            Some(v) => v,
            None => return Err(SolanaCoreError::OverFlowDetected),
        };
        let r1 = self.token_1_amount - out;
        if r0.checked_mul(r1).is_none() {
            return Err(SolanaCoreError::MathError);
        }
        self.token_0_amount = r0;
        self.token_1_amount = r1;
        Ok((ix_data.token_0_amount, out))
    }
}

} // verus!
