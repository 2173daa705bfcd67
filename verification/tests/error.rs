use spl_token_program::{ProgramError, TokenError};

#[test]
fn token_error_codes() {
    assert_eq!(TokenError::InvalidInstruction.code(), 0);
    assert_eq!(TokenError::NotRentExempt.code(), 1);
    assert_eq!(TokenError::InsufficientFunds.code(), 2);
    assert_eq!(TokenError::Unauthorized.code(), 3);
    assert_eq!(TokenError::MintMismatch.code(), 4);
    assert_eq!(TokenError::AccountFrozen.code(), 5);
}

#[test]
fn token_error_becomes_a_program_error() {
    assert_eq!(
        ProgramError::from(TokenError::Unauthorized),
        ProgramError::Custom(TokenError::Unauthorized)
    );
    let converted: ProgramError = TokenError::MintMismatch.into();
    assert_eq!(converted, ProgramError::Custom(TokenError::MintMismatch));
}
