use vstd::prelude::*;
use vstd::bytes::{spec_u64_from_le_bytes, spec_u64_to_le_bytes, u64_from_le_bytes, u64_to_le_bytes};
use vstd::slice::slice_subrange;
use crate::errors::SolanaCoreError;

verus! {

/// Fixed byte length of a record's encoding.
pub trait DataLen {
    const LEN: usize;
}

/// Encoded length of a pool record, in natural C layout: 32+32+8+8+32+32+1 (+7 padding)+8+32+1
/// (+7 padding).
pub const POOL_LEN: usize = 200;

/// Encoded length of a liquidity payload: a key and two amounts.
pub const LIQUIDITY_LEN: usize = 48;

/// Encoded length of a swap payload: three amounts.
pub const SWAP_LEN: usize = 24;

/// The 32 bytes of a key at `off`.
pub open spec fn key_at(b: Seq<u8>, off: int) -> Seq<u8> {
    b.subrange(off, off + 32)
}

/// The little-endian `u64` at `off`.
pub open spec fn u64_at(b: Seq<u8>, off: int) -> u64 {
    spec_u64_from_le_bytes(b.subrange(off, off + 8))
}

fn read_key(data: &[u8], off: usize) -> (r: [u8; 32])
    requires
        off + 32 <= data.len(),
    ensures
        r@ == key_at(data@, off as int),
{
    let mut k: [u8; 32] = [0u8; 32];
    let mut i: usize = 0;
    while i < 32
        invariant
            i <= 32,
            off + 32 <= data.len(),
            forall|j: int| 0 <= j < i ==> k@[j] == data@[off + j],
        decreases 32 - i,
    {
        k[i] = data[off + i];
        i = i + 1;
    }
    assert(k@ =~= key_at(data@, off as int));
    k
}

fn read_u64(data: &[u8], off: usize) -> (r: u64)
    requires
        off + 8 <= data.len(),
    ensures
        r == u64_at(data@, off as int),
{
    u64_from_le_bytes(slice_subrange(data, off, off + 8))
}

fn push_key(out: &mut Vec<u8>, k: &[u8; 32])
    ensures
        final(out)@ == old(out)@ + k@,
{
    out.extend_from_slice(k.as_slice());
}

fn push_u64(out: &mut Vec<u8>, x: u64)
    ensures
        final(out)@ == old(out)@ + spec_u64_to_le_bytes(x),
{
    let b = u64_to_le_bytes(x);
    out.extend_from_slice(b.as_slice());
}

fn push_byte_padded(out: &mut Vec<u8>, x: u8)
    ensures
        final(out)@ == old(out)@ + seq![x, 0u8, 0u8, 0u8, 0u8, 0u8, 0u8, 0u8],
{
    out.push(x);
    let mut i: usize = 0;
    while i < 7
        invariant
            i <= 7,
            out@ == old(out)@ + seq![x] + Seq::new(i as nat, |j: int| 0u8),
        decreases 7 - i,
    {
        out.push(0u8);
        i = i + 1;
        assert(out@ =~= old(out)@ + seq![x] + Seq::new(i as nat, |j: int| 0u8));
    }
    assert(out@ =~= old(out)@ + seq![x, 0u8, 0u8, 0u8, 0u8, 0u8, 0u8, 0u8]);
}

/// Highest swap fee a pool may charge, in basis points (5%).
pub const MAX_FEE_BPS: u64 = 500;

/// The persisted state of one pool.
#[derive(Clone, Copy, Debug, PartialEq, Eq)]
pub struct Pool {
    pub token_0_mint: [u8; 32],
    pub token_1_mint: [u8; 32],
    pub token_0_amount: u64,
    pub token_1_amount: u64,
    pub vault_0: [u8; 32],
    pub vault_1: [u8; 32],
    pub pool_bump: u8,
    pub fees_bps: u64,
    pub lp_mint: [u8; 32],
    pub lp_bump: u8,
}

impl DataLen for Pool {
    const LEN: usize = POOL_LEN;
}

/// Whether the fields of a pool record, in order, are those that `b` encodes.
pub open spec fn record_encodes(
    b: Seq<u8>,
    token_0_mint: [u8; 32],
    token_1_mint: [u8; 32],
    token_0_amount: u64,
    token_1_amount: u64,
    vault_0: [u8; 32],
    vault_1: [u8; 32],
    pool_bump: u8,
    fees_bps: u64,
    lp_mint: [u8; 32],
    lp_bump: u8,
) -> bool {
    &&& b.len() == POOL_LEN
    &&& token_0_mint@ == key_at(b, 0)
    &&& token_1_mint@ == key_at(b, 32)
    &&& token_0_amount == u64_at(b, 64)
    &&& token_1_amount == u64_at(b, 72)
    &&& vault_0@ == key_at(b, 80)
    &&& vault_1@ == key_at(b, 112)
    &&& pool_bump == b[144]
    &&& fees_bps == u64_at(b, 152)
    &&& lp_mint@ == key_at(b, 160)
    &&& lp_bump == b[192]
}

/// An encoding fixes every field of a record.
pub proof fn lemma_record_encoding_unique(p: Pool, q: Pool, b: Seq<u8>)
    requires
        p.encoded_by(b),
        q.encoded_by(b),
    ensures
        p == q,
{
    assert(p.token_0_mint =~= q.token_0_mint);
    assert(p.token_1_mint =~= q.token_1_mint);
    assert(p.vault_0 =~= q.vault_0);
    assert(p.vault_1 =~= q.vault_1);
    assert(p.lp_mint =~= q.lp_mint);
}

/// Whether the padding bytes of a pool record, after each bump, are zero.
pub open spec fn record_padding_zero(b: Seq<u8>) -> bool {
    &&& forall|i: int| 145 <= i < 152 ==> b[i] == 0
    &&& forall|i: int| 193 <= i < 200 ==> b[i] == 0
}

impl Pool {
    /// A pool never charges more than the fee cap.
    pub open spec fn wf(&self) -> bool {
        self.fees_bps <= MAX_FEE_BPS
    }

    /// Whether `b` is an encoding of this pool.
    pub open spec fn encoded_by(&self, b: Seq<u8>) -> bool {
        record_encodes(
            b,
            self.token_0_mint,
            self.token_1_mint,
            self.token_0_amount,
            self.token_1_amount,
            self.vault_0,
            self.vault_1,
            self.pool_bump,
            self.fees_bps,
            self.lp_mint,
            self.lp_bump,
        )
    }

    fn read_record(data: &[u8]) -> (r: Pool)
        requires
            data@.len() == POOL_LEN,
        ensures
            r.encoded_by(data@),
    {
        Pool {
            token_0_mint: read_key(data, 0),
            token_1_mint: read_key(data, 32),
            token_0_amount: read_u64(data, 64),
            token_1_amount: read_u64(data, 72),
            vault_0: read_key(data, 80),
            vault_1: read_key(data, 112),
            pool_bump: data[144],
            fees_bps: read_u64(data, 152),
            lp_mint: read_key(data, 160),
            lp_bump: data[192],
        }
    }

    /// Decodes a stored pool record; it must have the exact length and a fee within the cap.
    pub fn from_bytes(data: &[u8]) -> (r: Result<Pool, SolanaCoreError>)
        ensures
            r is Ok <==> data@.len() == POOL_LEN && u64_at(data@, 152) <= MAX_FEE_BPS,
            r matches Ok(p) ==> p.encoded_by(data@) && p.wf(),
            r is Err ==> r == Err::<Pool, SolanaCoreError>(SolanaCoreError::InvalidAccountData),
    {
        if data.len() != POOL_LEN {
            return Err(SolanaCoreError::InvalidAccountData);
        }
        let p = Pool::read_record(data);
        if p.fees_bps > MAX_FEE_BPS {
            return Err(SolanaCoreError::InvalidAccountData);
        }
        Ok(p)
    }

    /// Encodes the pool record, padding bytes zero.
    pub fn to_bytes(&self) -> (r: Vec<u8>)
        ensures
            self.encoded_by(r@),
            record_padding_zero(r@),
    {
        let mut out: Vec<u8> = Vec::new();
        push_key(&mut out, &self.token_0_mint);
        push_key(&mut out, &self.token_1_mint);
        push_u64(&mut out, self.token_0_amount);
        push_u64(&mut out, self.token_1_amount);
        push_key(&mut out, &self.vault_0);
        push_key(&mut out, &self.vault_1);
        push_byte_padded(&mut out, self.pool_bump);
        push_u64(&mut out, self.fees_bps);
        push_key(&mut out, &self.lp_mint);
        push_byte_padded(&mut out, self.lp_bump);
        proof {
            vstd::bytes::lemma_auto_spec_u64_to_from_le_bytes();
            let b = out@;
            assert(key_at(b, 0) =~= self.token_0_mint@);
            assert(key_at(b, 32) =~= self.token_1_mint@);
            assert(b.subrange(64, 72) =~= spec_u64_to_le_bytes(self.token_0_amount));
            assert(b.subrange(72, 80) =~= spec_u64_to_le_bytes(self.token_1_amount));
            assert(key_at(b, 80) =~= self.vault_0@);
            assert(key_at(b, 112) =~= self.vault_1@);
            assert(b.subrange(152, 160) =~= spec_u64_to_le_bytes(self.fees_bps));
            assert(key_at(b, 160) =~= self.lp_mint@);
        }
        out
    }
}

/// Payload of the instruction that creates a pool; it shares the pool record's layout.
#[derive(Clone, Copy, Debug, PartialEq, Eq)]
pub struct InitPool {
    pub token_0_mint: [u8; 32],
    pub token_1_mint: [u8; 32],
    pub token_0_amount: u64,
    pub token_1_amount: u64,
    pub vault_0: [u8; 32],
    pub vault_1: [u8; 32],
    pub pool_bump: u8,
    pub fees_bps: u64,
    pub lp_mint: [u8; 32],
    pub lp_bump: u8,
}

impl DataLen for InitPool {
    const LEN: usize = POOL_LEN;
}

impl InitPool {
    /// Whether `b` is an encoding of this payload.
    pub open spec fn encoded_by(&self, b: Seq<u8>) -> bool {
        record_encodes(
            b,
            self.token_0_mint,
            self.token_1_mint,
            self.token_0_amount,
            self.token_1_amount,
            self.vault_0,
            self.vault_1,
            self.pool_bump,
            self.fees_bps,
            self.lp_mint,
            self.lp_bump,
        )
    }

    /// Decodes the payload; any other length than the record's is refused.
    pub fn from_bytes(data: &[u8]) -> (r: Result<InitPool, SolanaCoreError>)
        ensures
            r is Ok <==> data@.len() == POOL_LEN,
            r matches Ok(p) ==> p.encoded_by(data@),
            r is Err ==> r == Err::<InitPool, SolanaCoreError>(
                SolanaCoreError::InvalidInstructionData,
            ),
    {
        if data.len() != POOL_LEN {
            return Err(SolanaCoreError::InvalidInstructionData);
        }
        let p = Pool::read_record(data);
        Ok(
            InitPool {
                token_0_mint: p.token_0_mint,
                token_1_mint: p.token_1_mint,
                token_0_amount: p.token_0_amount,
                token_1_amount: p.token_1_amount,
                vault_0: p.vault_0,
                vault_1: p.vault_1,
                pool_bump: p.pool_bump,
                fees_bps: p.fees_bps,
                lp_mint: p.lp_mint,
                lp_bump: p.lp_bump,
            },
        )
    }

    /// Encodes the payload, padding bytes zero.
    pub fn to_bytes(&self) -> (r: Vec<u8>)
        ensures
            self.encoded_by(r@),
            record_padding_zero(r@),
    {
        let p = Pool {
            token_0_mint: self.token_0_mint,
            token_1_mint: self.token_1_mint,
            token_0_amount: self.token_0_amount,
            token_1_amount: self.token_1_amount,
            vault_0: self.vault_0,
            vault_1: self.vault_1,
            pool_bump: self.pool_bump,
            fees_bps: self.fees_bps,
            lp_mint: self.lp_mint,
            lp_bump: self.lp_bump,
        };
        p.to_bytes()
    }
}

/// Whether `b` encodes a key followed by two amounts.
pub open spec fn triple_encodes(b: Seq<u8>, key: [u8; 32], a: u64, c: u64) -> bool {
    &&& b.len() == LIQUIDITY_LEN
    &&& key@ == key_at(b, 0)
    &&& a == u64_at(b, 32)
    &&& c == u64_at(b, 40)
}

fn encode_key_and_amounts(key: &[u8; 32], a: u64, c: u64) -> (r: Vec<u8>)
    ensures
        triple_encodes(r@, *key, a, c),
{
    let mut out: Vec<u8> = Vec::new();
    push_key(&mut out, key);
    push_u64(&mut out, a);
    push_u64(&mut out, c);
    proof {
        vstd::bytes::lemma_auto_spec_u64_to_from_le_bytes();
        assert(key_at(out@, 0) =~= key@);
        assert(out@.subrange(32, 40) =~= spec_u64_to_le_bytes(a));
        assert(out@.subrange(40, 48) =~= spec_u64_to_le_bytes(c));
    }
    out
}

/// Payload of a deposit: the pool and the most of each token the depositor offers.
#[derive(Clone, Copy, Debug, PartialEq, Eq)]
pub struct LiquidatePool {
    pub pool_key: [u8; 32],
    pub deposit_token_0_amount: u64,
    pub deposit_token_1_amount: u64,
}

impl DataLen for LiquidatePool {
    const LEN: usize = LIQUIDITY_LEN;
}

impl LiquidatePool {
    /// Whether `b` is an encoding of this payload.
    pub open spec fn encoded_by(&self, b: Seq<u8>) -> bool {
        triple_encodes(b, self.pool_key, self.deposit_token_0_amount, self.deposit_token_1_amount)
    }

    /// Decodes the payload; any other length is refused.
    pub fn from_bytes(data: &[u8]) -> (r: Result<LiquidatePool, SolanaCoreError>)
        ensures
            r is Ok <==> data@.len() == LIQUIDITY_LEN,
            r matches Ok(p) ==> p.encoded_by(data@),
            r is Err ==> r == Err::<LiquidatePool, SolanaCoreError>(
                SolanaCoreError::InvalidInstructionData,
            ),
    {
        if data.len() != LIQUIDITY_LEN {
            return Err(SolanaCoreError::InvalidInstructionData);
        }
        Ok(
            LiquidatePool {
                pool_key: read_key(data, 0),
                deposit_token_0_amount: read_u64(data, 32),
                deposit_token_1_amount: read_u64(data, 40),
            },
        )
    }

    /// Encodes the payload.
    pub fn to_bytes(&self) -> (r: Vec<u8>)
        ensures
            self.encoded_by(r@),
    {
        encode_key_and_amounts(&self.pool_key, self.deposit_token_0_amount, self.deposit_token_1_amount)
    }
}

/// Payload of a withdrawal: the pool and the most of each token the holder asks back.
#[derive(Clone, Copy, Debug, PartialEq, Eq)]
pub struct DeliquidatePool {
    pub pool_key: [u8; 32],
    pub withdraw_token_0_amount: u64,
    pub withdraw_token_1_amount: u64,
}

impl DataLen for DeliquidatePool {
    const LEN: usize = LIQUIDITY_LEN;
}

impl DeliquidatePool {
    /// Whether `b` is an encoding of this payload.
    pub open spec fn encoded_by(&self, b: Seq<u8>) -> bool {
        triple_encodes(b, self.pool_key, self.withdraw_token_0_amount, self.withdraw_token_1_amount)
    }

    /// Decodes the payload; any other length is refused.
    pub fn from_bytes(data: &[u8]) -> (r: Result<DeliquidatePool, SolanaCoreError>)
        ensures
            r is Ok <==> data@.len() == LIQUIDITY_LEN,
            r matches Ok(p) ==> p.encoded_by(data@),
            r is Err ==> r == Err::<DeliquidatePool, SolanaCoreError>(
                SolanaCoreError::InvalidInstructionData,
            ),
    {
        if data.len() != LIQUIDITY_LEN {
            return Err(SolanaCoreError::InvalidInstructionData);
        }
        Ok(
            DeliquidatePool {
                pool_key: read_key(data, 0),
                withdraw_token_0_amount: read_u64(data, 32),
                withdraw_token_1_amount: read_u64(data, 40),
            },
        )
    }

    /// Encodes the payload.
    pub fn to_bytes(&self) -> (r: Vec<u8>)
        ensures
            self.encoded_by(r@),
    {
        encode_key_and_amounts(&self.pool_key, self.withdraw_token_0_amount, self.withdraw_token_1_amount)
    }
}

/// Payload of a swap of token 0 for token 1.
#[derive(Clone, Copy, Debug, PartialEq, Eq, Structural)]
pub struct Swap {
    pub token_0_amount: u64,
    pub expected_token_1_amount: u64,
    pub slippage_bps: u64,
}

impl DataLen for Swap {
    const LEN: usize = SWAP_LEN;
}

impl Swap {
    /// Whether `b` is an encoding of this payload.
    pub open spec fn encoded_by(&self, b: Seq<u8>) -> bool {
        &&& b.len() == SWAP_LEN
        &&& self.token_0_amount == u64_at(b, 0)
        &&& self.expected_token_1_amount == u64_at(b, 8)
        &&& self.slippage_bps == u64_at(b, 16)
    }

    /// Decodes the payload; any other length is refused.
    pub fn from_bytes(data: &[u8]) -> (r: Result<Swap, SolanaCoreError>)
        ensures
            r is Ok <==> data@.len() == SWAP_LEN,
            r matches Ok(p) ==> p.encoded_by(data@),
            r is Err ==> r == Err::<Swap, SolanaCoreError>(SolanaCoreError::InvalidInstructionData),
    {
        if data.len() != SWAP_LEN {
            return Err(SolanaCoreError::InvalidInstructionData);
        }
        Ok(
            Swap {
                token_0_amount: read_u64(data, 0),
                expected_token_1_amount: read_u64(data, 8),
                slippage_bps: read_u64(data, 16),
            },
        )
    }

    /// Encodes the payload.
    pub fn to_bytes(&self) -> (r: Vec<u8>)
        ensures
            self.encoded_by(r@),
    {
        let mut out: Vec<u8> = Vec::new();
        push_u64(&mut out, self.token_0_amount);
        push_u64(&mut out, self.expected_token_1_amount);
        push_u64(&mut out, self.slippage_bps);
        proof {
            vstd::bytes::lemma_auto_spec_u64_to_from_le_bytes();
            assert(out@.subrange(0, 8) =~= spec_u64_to_le_bytes(self.token_0_amount));
            assert(out@.subrange(8, 16) =~= spec_u64_to_le_bytes(self.expected_token_1_amount));
            assert(out@.subrange(16, 24) =~= spec_u64_to_le_bytes(self.slippage_bps));
        }
        out
    }
}

} // verus!
