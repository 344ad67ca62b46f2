use amm_pool::errors::SolanaCoreError;
use amm_pool::instructions::{
    SolanaCoreInstruction, DELIQUIDATE_POOL_DISCRIMINATOR, INIT_POOL_DISCRIMINATOR,
    LIQUIDATE_POOL_DISCRIMINATOR, SWAP_DISCRIMINATOR,
};
use amm_pool::states::{DataLen, InitPool};

#[test]
fn test_entrypoint_routing() {
    println!("Testing Entrypoint Instruction Routing");

    assert_eq!(INIT_POOL_DISCRIMINATOR, 0);
    assert_eq!(LIQUIDATE_POOL_DISCRIMINATOR, 1);
    assert_eq!(DELIQUIDATE_POOL_DISCRIMINATOR, 2);
    assert_eq!(SWAP_DISCRIMINATOR, 3);

    println!("All discriminator constants are correct!");
}

#[test]
fn test_invalid_discriminator() {
    let ser_ix_data = vec![99];

    println!("Testing Invalid Discriminator");

    let result = SolanaCoreInstruction::from_instruction_data(&ser_ix_data);
    assert_eq!(result, Err(SolanaCoreError::InvalidInstructionData));
    assert_eq!(SolanaCoreError::InvalidInstructionData.code(), 0);

    println!("Invalid discriminator test result: {:?}", result);
}

#[test]
fn test_empty_instruction_data() {
    let ser_ix_data: Vec<u8> = vec![];

    println!("Testing Empty Instruction Data");

    let result = SolanaCoreInstruction::from_instruction_data(&ser_ix_data);
    assert_eq!(result, Err(SolanaCoreError::InvalidInstructionData));

    println!("Empty instruction data test result: {:?}", result);
}

#[test]
fn test_init_pool_discriminator_only() {
    println!("Testing InitPool discriminator routing");

    let ix_data = InitPool {
        token_0_mint: [1u8; 32],
        token_1_mint: [2u8; 32],
        token_0_amount: 1000000,
        token_1_amount: 2000000,
        vault_0: [3u8; 32],
        vault_1: [4u8; 32],
        pool_bump: 254,
        fees_bps: 30,
        lp_mint: [5u8; 32],
        lp_bump: 253,
    };

    let mut ser_ix_data = vec![INIT_POOL_DISCRIMINATOR];
    ser_ix_data.extend_from_slice(&ix_data.to_bytes());

    println!(" InitPool instruction data serialized successfully!");
    println!(" Discriminator: {}", INIT_POOL_DISCRIMINATOR);
    println!(" Data length: {} bytes", ser_ix_data.len());

    assert_eq!(ser_ix_data.len(), 1 + InitPool::LEN);
    assert_eq!(
        SolanaCoreInstruction::from_instruction_data(&ser_ix_data),
        Ok(SolanaCoreInstruction::InitPool)
    );
    assert_eq!(InitPool::from_bytes(&ser_ix_data[1..]), Ok(ix_data));
}
