use spl_token_program::{serialize_token_instruction, DecodeError, Pubkey, TokenInstruction};

const MINT_AUTHORITY: [u8; 32] = [
    155, 22, 161, 0, 165, 161, 89, 151, 69, 21, 189, 198, 115, 47, 220, 42, 56, 108, 222, 27, 178,
    156, 220, 16, 176, 224, 163, 9, 165, 49, 153, 117,
];

fn pk(byte: u8) -> Pubkey {
    Pubkey::new_from_array([byte; 32])
}

fn every_instruction() -> Vec<TokenInstruction> {
    vec![
        TokenInstruction::InitializeMint {
            decimals: 9,
            mint_authority: Pubkey::new_from_array(MINT_AUTHORITY),
            freeze_authority: None,
        },
        TokenInstruction::InitializeMint {
            decimals: 0,
            mint_authority: pk(1),
            freeze_authority: Some(pk(2)),
        },
        TokenInstruction::InitializeAccount,
        TokenInstruction::MintTo { amount: 1000 },
        TokenInstruction::Transfer { amount: 0 },
        TokenInstruction::Burn { amount: u64::MAX },
        TokenInstruction::SetMintAuthority { new_authority: None },
        TokenInstruction::SetMintAuthority { new_authority: Some(pk(3)) },
    ]
}

#[test]
fn initialize_mint_wire_format() {
    let wire = serialize_token_instruction(&TokenInstruction::InitializeMint {
        decimals: 9,
        mint_authority: Pubkey::new_from_array(MINT_AUTHORITY),
        freeze_authority: None,
    });
    assert_eq!(wire.len(), 1 + 1 + 32 + 1 + 32);
    assert_eq!(wire[0], 0);
    assert_eq!(wire[1], 9);
    assert_eq!(&wire[2..34], &MINT_AUTHORITY[..]);
    assert_eq!(wire[34], 0);
    assert_eq!(&wire[35..67], &[0u8; 32][..]);
}

#[test]
fn initialize_mint_with_freeze_authority_wire_format() {
    let wire = serialize_token_instruction(&TokenInstruction::InitializeMint {
        decimals: 2,
        mint_authority: pk(0x10),
        freeze_authority: Some(pk(0x20)),
    });
    let mut expected = vec![0u8, 2];
    expected.extend_from_slice(&[0x10; 32]);
    expected.push(1);
    expected.extend_from_slice(&[0x20; 32]);
    assert_eq!(wire, expected);
}

#[test]
fn short_wire_formats() {
    assert_eq!(serialize_token_instruction(&TokenInstruction::InitializeAccount), vec![1u8]);
    assert_eq!(
        serialize_token_instruction(&TokenInstruction::MintTo { amount: 1000 }),
        vec![2u8, 0xe8, 0x03, 0, 0, 0, 0, 0, 0]
    );
    assert_eq!(
        serialize_token_instruction(&TokenInstruction::Transfer { amount: 400 }),
        vec![3u8, 0x90, 0x01, 0, 0, 0, 0, 0, 0]
    );
    assert_eq!(
        serialize_token_instruction(&TokenInstruction::Burn { amount: u64::MAX }),
        vec![4u8, 0xff, 0xff, 0xff, 0xff, 0xff, 0xff, 0xff, 0xff]
    );
}

#[test]
fn set_mint_authority_wire_format() {
    let mut expected = vec![5u8, 1];
    expected.extend_from_slice(&[0x33; 32]);
    assert_eq!(
        serialize_token_instruction(&TokenInstruction::SetMintAuthority {
            new_authority: Some(pk(0x33))
        }),
        expected
    );
    let mut expected = vec![5u8, 0];
    expected.extend_from_slice(&[0; 32]);
    assert_eq!(
        serialize_token_instruction(&TokenInstruction::SetMintAuthority { new_authority: None }),
        expected
    );
}

#[test]
fn instruction_round_trip() {
    for instruction in every_instruction() {
        let wire = serialize_token_instruction(&instruction);
        assert_eq!(TokenInstruction::try_from_slice(&wire), Ok(instruction));
    }
}

#[test]
fn empty_message_is_refused() {
    assert_eq!(TokenInstruction::try_from_slice(&[]), Err(DecodeError));
}

#[test]
fn unknown_tag_is_refused() {
    assert_eq!(TokenInstruction::try_from_slice(&[6]), Err(DecodeError));
    assert_eq!(TokenInstruction::try_from_slice(&[255, 0, 0, 0, 0, 0, 0, 0, 0]), Err(DecodeError));
}

#[test]
fn truncated_message_is_refused() {
    for instruction in every_instruction() {
        let wire = serialize_token_instruction(&instruction);
        for cut in 0..wire.len() {
            assert_eq!(TokenInstruction::try_from_slice(&wire[..cut]), Err(DecodeError));
        }
    }
}

#[test]
fn trailing_bytes_are_refused() {
    for instruction in every_instruction() {
        let mut wire = serialize_token_instruction(&instruction);
        wire.push(0);
        assert_eq!(TokenInstruction::try_from_slice(&wire), Err(DecodeError));
    }
}

#[test]
fn presence_byte_in_a_message_must_be_a_flag() {
    let mut wire =
        serialize_token_instruction(&TokenInstruction::SetMintAuthority { new_authority: None });
    wire[1] = 2;
    assert_eq!(TokenInstruction::try_from_slice(&wire), Err(DecodeError));
    let mut wire = serialize_token_instruction(&TokenInstruction::InitializeMint {
        decimals: 1,
        mint_authority: pk(1),
        freeze_authority: None,
    });
    wire[34] = 9;
    assert_eq!(TokenInstruction::try_from_slice(&wire), Err(DecodeError));
}

#[test]
fn absent_key_in_a_message_ignores_its_bytes() {
    let mut wire = vec![5u8, 0];
    wire.extend_from_slice(&[0xab; 32]);
    assert_eq!(
        TokenInstruction::try_from_slice(&wire),
        Ok(TokenInstruction::SetMintAuthority { new_authority: None })
    );
}

#[test]
fn amount_messages_agree_with_borsh() {
    for amount in [0u64, 1, 1000, 1 << 40, u64::MAX] {
        let mut reference = vec![2u8];
        reference.extend_from_slice(&borsh::to_vec(&amount).unwrap());
        assert_eq!(serialize_token_instruction(&TokenInstruction::MintTo { amount }), reference);
    }
}

#[test]
fn sample_initialize_mint_message() {
    let mint_authority: solana_program::pubkey::Pubkey =
        "5higFJ6xCuganUCvFFLDnZhL4Jb28KYEfBrVzCDGpGt8".parse().unwrap();
    let freeze_authority: solana_program::pubkey::Pubkey =
        "GjphYQcbP1m3SYTXkHC1E3MJrCEeH8vL6f3HuoZ9fJ2x".parse().unwrap();
    let instruction = TokenInstruction::InitializeMint {
        decimals: 9,
        mint_authority: Pubkey::new_from_array(mint_authority.to_bytes()),
        freeze_authority: Some(Pubkey::new_from_array(freeze_authority.to_bytes())),
    };
    let wire = serialize_token_instruction(&instruction);
    assert_eq!(wire.len(), 67);
    assert_eq!(wire[0], 0);
    assert_eq!(wire[1], 9);
    assert_eq!(&wire[2..34], &mint_authority.to_bytes()[..]);
    assert_eq!(wire[34], 1);
    assert_eq!(&wire[35..67], &freeze_authority.to_bytes()[..]);
    assert_eq!(TokenInstruction::try_from_slice(&wire), Ok(instruction));
    assert_eq!(
        &wire[2..34],
        &[
            69, 221, 26, 161, 42, 52, 73, 117, 249, 192, 74, 159, 254, 244, 27, 177, 244, 185, 67,
            110, 79, 187, 255, 199, 149, 37, 40, 139, 85, 89, 126, 185
        ][..]
    );
}
