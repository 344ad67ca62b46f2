use vstd::prelude::*;
use vstd::bytes::{spec_u64_to_le_bytes, u64_to_le_bytes};
use vstd::string::StringSliceAdditionalSpecFns;
use crate::errors::SolanaCoreError;

verus! {

/// The address that the program `program_id` derives from `seeds` followed by the one-byte
/// `bump`: a digest of the seeds, the bump, the program id and a fixed marker.
pub uninterp spec fn program_address(seeds: Seq<Seq<u8>>, bump: u8, program_id: Seq<u8>) -> Seq<
    u8,
>;

/// The contents of a list of seeds.
pub open spec fn seed_bytes<const N: usize>(seeds: &[&[u8]; N]) -> Seq<Seq<u8>> {
    seeds@.map_values(|s: &[u8]| s@)
}

/// Relies on pinocchio_pubkey::derive_address_const: SHA-256 over the seeds, the bump, the
/// program id and the PDA marker; it depends on those bytes alone.
#[verifier::external_body]
fn derive_address<const N: usize>(seeds: &[&[u8]; N], bump: u8, program_id: &[u8; 32]) -> (r: [u8; 32])
    requires
        N < 16,
    ensures
        r@ == program_address(seed_bytes(seeds), bump, program_id@),
{
    pinocchio_pubkey::derive_address_const(seeds, Some(bump), program_id)
}

/// Byte-wise equality of two addresses.
pub fn same_address(a: &[u8; 32], b: &[u8; 32]) -> (r: bool)
    ensures
        r == (a@ == b@),
{
    let mut i: usize = 0;
    while i < 32
        invariant
            i <= 32,
            forall|j: int| 0 <= j < i ==> a@[j] == b@[j],
        decreases 32 - i,
    {
        if a[i] != b[i] {
            return false;
        }
        i = i + 1;
    }
    assert(a@ =~= b@);
    true
}

/// Checks that `address` is the one that `program_id` derives from `seeds` and `bump`.
pub fn validate_pda<const N: usize>(
    seeds: &[&[u8]; N],
    bump: u8,
    address: &[u8; 32],
    program_id: &[u8; 32],
) -> (r: Result<(), SolanaCoreError>)
    requires
        N < 16,
    ensures
        r is Ok <==> address@ == program_address(seed_bytes(seeds), bump, program_id@),
        r is Err ==> r == Err::<(), SolanaCoreError>(SolanaCoreError::PdaMismatch),
{
    let derived = derive_address(seeds, bump, program_id);
    if same_address(&derived, address) {
        Ok(())
    } else {
        Err(SolanaCoreError::PdaMismatch)
    }
}

/// Seed that opens a pool's derivation.
pub const POOL_SEED: &'static str = "pool";

/// Seed that opens the derivation of a pool's LP mint.
pub const LP_SEED: &'static str = "lp";

/// The seeds of a pool: `"pool"`, both mints and the fee in little-endian bytes.
pub open spec fn pool_seeds(token_0_mint: Seq<u8>, token_1_mint: Seq<u8>, fees_bps: u64) -> Seq<
    Seq<u8>,
> {
    seq![POOL_SEED.spec_bytes(), token_0_mint, token_1_mint, spec_u64_to_le_bytes(fees_bps)]
}

/// The seeds of a pool's LP mint: `"lp"` and the pool's address.
pub open spec fn lp_seeds(pool: Seq<u8>) -> Seq<Seq<u8>> {
    seq![LP_SEED.spec_bytes(), pool]
}

/// The address of the pool for a pair of mints and a fee tier, completed by `pool_bump`.
pub open spec fn pool_address(
    token_0_mint: Seq<u8>,
    token_1_mint: Seq<u8>,
    fees_bps: u64,
    pool_bump: u8,
    program_id: Seq<u8>,
) -> Seq<u8> {
    program_address(pool_seeds(token_0_mint, token_1_mint, fees_bps), pool_bump, program_id)
}

/// The address of the LP mint of the pool at `pool`, completed by `lp_bump`.
pub open spec fn lp_mint_address(pool: Seq<u8>, lp_bump: u8, program_id: Seq<u8>) -> Seq<u8> {
    program_address(lp_seeds(pool), lp_bump, program_id)
}

/// Checks that `pool_key` is the pool address derived for the mints, the fee and the bump.
pub fn validate_pool_authority(
    token_0_mint: &[u8; 32],
    token_1_mint: &[u8; 32],
    fees_bps: u64,
    pool_bump: u8,
    pool_key: &[u8; 32],
    program_id: &[u8; 32],
) -> (r: Result<(), SolanaCoreError>)
    ensures
        r is Ok <==> pool_key@ == pool_address(
            token_0_mint@,
            token_1_mint@,
            fees_bps,
            pool_bump,
            program_id@,
        ),
        r is Err ==> r == Err::<(), SolanaCoreError>(SolanaCoreError::PdaMismatch),
{
    let fee_bytes = u64_to_le_bytes(fees_bps);
    let seeds: [&[u8]; 4] = [
        POOL_SEED.as_bytes(),
        token_0_mint.as_slice(),
        token_1_mint.as_slice(),
        fee_bytes.as_slice(),
    ];
    assert(seed_bytes(&seeds) =~= pool_seeds(token_0_mint@, token_1_mint@, fees_bps));
    validate_pda(&seeds, pool_bump, pool_key, program_id)
}

/// Checks that `lp_mint` is the LP mint address derived for the pool at `pool_key` and the bump.
pub fn validate_lp_authority(
    pool_key: &[u8; 32],
    lp_bump: u8,
    lp_mint: &[u8; 32],
    program_id: &[u8; 32],
) -> (r: Result<(), SolanaCoreError>)
    ensures
        r is Ok <==> lp_mint@ == lp_mint_address(pool_key@, lp_bump, program_id@),
        r is Err ==> r == Err::<(), SolanaCoreError>(SolanaCoreError::PdaMismatch),
{
    let seeds: [&[u8]; 2] = [LP_SEED.as_bytes(), pool_key.as_slice()];
    assert(seed_bytes(&seeds) =~= lp_seeds(pool_key@));
    validate_pda(&seeds, lp_bump, lp_mint, program_id)
}

} // verus!
