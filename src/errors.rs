use vstd::prelude::*;

verus! {

/// The errors that pool operations report, each surfaced to callers as one numeric code.
#[derive(Debug, Clone, Copy, PartialEq, Eq, Structural)]
pub enum SolanaCoreError {
    InvalidInstructionData,
    PdaMismatch,
    InvalidOwner,
    MathError,
    NotEnoughAccountKeys,
    PoolAccountNotWritable,
    SignerRequired,
    InvalidAccountData,
    AccountAlreadyInitialized,
    MissingRequiredSignature,
    OverFlowDetected,
    Slippage,
}

/// The numeric code of each error: its position in the list of variants.
pub open spec fn error_code(e: SolanaCoreError) -> u32 {
    match e {
        SolanaCoreError::InvalidInstructionData => 0,
        SolanaCoreError::PdaMismatch => 1,
        SolanaCoreError::InvalidOwner => 2,
        SolanaCoreError::MathError => 3,
        SolanaCoreError::NotEnoughAccountKeys => 4,
        SolanaCoreError::PoolAccountNotWritable => 5,
        SolanaCoreError::SignerRequired => 6,
        SolanaCoreError::InvalidAccountData => 7,
        SolanaCoreError::AccountAlreadyInitialized => 8,
        SolanaCoreError::MissingRequiredSignature => 9,
        SolanaCoreError::OverFlowDetected => 10,
        SolanaCoreError::Slippage => 11,
    }
}

impl SolanaCoreError {
    /// The numeric code under which this error leaves the program.
    pub fn code(&self) -> (r: u32)
        ensures
            r == error_code(*self),
    {
        match self {
            SolanaCoreError::InvalidInstructionData => 0,
            SolanaCoreError::PdaMismatch => 1,
            SolanaCoreError::InvalidOwner => 2,
            SolanaCoreError::MathError => 3,
            SolanaCoreError::NotEnoughAccountKeys => 4,
            SolanaCoreError::PoolAccountNotWritable => 5,
            SolanaCoreError::SignerRequired => 6,
            SolanaCoreError::InvalidAccountData => 7,
            SolanaCoreError::AccountAlreadyInitialized => 8,
            SolanaCoreError::MissingRequiredSignature => 9,
            SolanaCoreError::OverFlowDetected => 10,
            SolanaCoreError::Slippage => 11,
        }
    }
}

} // verus!
