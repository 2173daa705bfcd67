use spl_token_program::transition::{
    burn, initialize_account, initialize_mint, mint_to, set_mint_authority, transfer,
};
use spl_token_program::{Mint, ProgramError, Pubkey, TokenAccount, TokenError};

fn k(byte: u8) -> Pubkey {
    Pubkey::new_from_array([byte; 32])
}

const A: u8 = 0xa0;
const M: u8 = 0x30;
const O: u8 = 0x0f;
const P: u8 = 0x9e;

fn mint_with(supply: u64) -> [u8; 76] {
    Mint {
        is_initialized: true,
        decimals: 9,
        mint_authority: Some(k(A)),
        supply,
        freeze_authority: None,
    }
    .encode()
}

fn account_with(owner: u8, amount: u64) -> [u8; 74] {
    TokenAccount { is_initialized: true, mint: k(M), owner: k(owner), amount, is_frozen: false }
        .encode()
}

fn frozen_account(owner: u8, amount: u64) -> [u8; 74] {
    TokenAccount { is_initialized: true, mint: k(M), owner: k(owner), amount, is_frozen: true }
        .encode()
}

fn token(error: TokenError) -> ProgramError {
    ProgramError::Custom(error)
}

#[test]
fn scenario_initialize_mint() {
    let bytes = initialize_mint(&[0u8; 76], true, 9, k(A), None).unwrap();
    assert_eq!(
        Mint::decode(&bytes),
        Ok(Mint {
            is_initialized: true,
            decimals: 9,
            mint_authority: Some(k(A)),
            supply: 0,
            freeze_authority: None,
        })
    );
    assert_eq!(bytes.len(), 76);
    assert_eq!(bytes[0], 1);
    assert_eq!(bytes[1], 9);
    assert_eq!(bytes[2], 1);
    assert_eq!(&bytes[3..35], &[A; 32][..]);
    assert_eq!(bytes[35], 0);
    assert_eq!(&bytes[36..68], &[0u8; 32][..]);
}

#[test]
fn initialize_mint_keeps_the_freeze_authority_given() {
    let bytes = initialize_mint(&[0u8; 80], true, 3, k(A), Some(k(P))).unwrap();
    let mint = Mint::decode(&bytes).unwrap();
    assert_eq!(mint.freeze_authority, Some(k(P)));
    assert_eq!(mint.decimals, 3);
}

#[test]
fn scenario_initialize_account() {
    let bytes = initialize_account(&[0u8; 74], &k(M), &k(O), true).unwrap();
    assert_eq!(
        TokenAccount::decode(&bytes),
        Ok(TokenAccount {
            is_initialized: true,
            mint: k(M),
            owner: k(O),
            amount: 0,
            is_frozen: false,
        })
    );
}

#[test]
fn scenario_mint_transfer_burn() {
    let mint = initialize_mint(&[0u8; 76], true, 9, k(A), None).unwrap();
    let first = initialize_account(&[0u8; 74], &k(M), &k(O), true).unwrap();
    let second = initialize_account(&[0u8; 74], &k(M), &k(P), true).unwrap();

    let (mint, first) = mint_to(&k(M), &mint, &first, &k(A), true, 1000).unwrap();
    assert_eq!(Mint::decode(&mint).unwrap().supply, 1000);
    assert_eq!(TokenAccount::decode(&first).unwrap().amount, 1000);

    let (first, second) = transfer(&first, &second, &k(O), true, 400).unwrap();
    assert_eq!(TokenAccount::decode(&first).unwrap().amount, 600);
    assert_eq!(TokenAccount::decode(&second).unwrap().amount, 400);

    let (first, mint) = burn(&first, &k(M), &mint, &k(O), true, 600).unwrap();
    assert_eq!(TokenAccount::decode(&first).unwrap().amount, 0);
    assert_eq!(Mint::decode(&mint).unwrap().supply, 400);
    assert_eq!(
        Mint::decode(&mint).unwrap().supply,
        TokenAccount::decode(&first).unwrap().amount + TokenAccount::decode(&second).unwrap().amount
    );
}

#[test]
fn scenario_mint_to_by_another_principal() {
    let mint = mint_with(1000);
    let account = account_with(O, 1000);
    assert_eq!(
        mint_to(&k(M), &mint, &account, &k(P), true, 5),
        Err(token(TokenError::Unauthorized))
    );
    assert_eq!(Mint::decode(&mint).unwrap().supply, 1000);
    assert_eq!(TokenAccount::decode(&account).unwrap().amount, 1000);
}

#[test]
fn success_changes_the_amounts_only() {
    let mint_before = Mint {
        is_initialized: true,
        decimals: 4,
        mint_authority: Some(k(A)),
        supply: 10,
        freeze_authority: Some(k(P)),
    };
    let account_before = TokenAccount {
        is_initialized: true,
        mint: k(M),
        owner: k(O),
        amount: 10,
        is_frozen: false,
    };
    let (mint, account) =
        mint_to(&k(M), &mint_before.encode(), &account_before.encode(), &k(A), true, 5).unwrap();
    assert_eq!(Mint::decode(&mint), Ok(Mint { supply: 15, ..mint_before }));
    assert_eq!(TokenAccount::decode(&account), Ok(TokenAccount { amount: 15, ..account_before }));
}

#[test]
fn initialize_refuses_a_record_in_use() {
    assert_eq!(
        initialize_mint(&mint_with(0), true, 9, k(A), None),
        Err(ProgramError::AccountAlreadyInitialized)
    );
    assert_eq!(
        initialize_account(&account_with(O, 0), &k(M), &k(O), true),
        Err(ProgramError::AccountAlreadyInitialized)
    );
}

#[test]
fn initialize_refuses_an_ineligible_buffer() {
    assert_eq!(
        initialize_mint(&[0u8; 76], false, 9, k(A), None),
        Err(token(TokenError::NotRentExempt))
    );
    assert_eq!(
        initialize_account(&[0u8; 74], &k(M), &k(O), false),
        Err(token(TokenError::NotRentExempt))
    );
}

#[test]
fn initialize_refuses_a_buffer_that_holds_no_record() {
    assert_eq!(
        initialize_mint(&[0u8; 75], true, 9, k(A), None),
        Err(ProgramError::InvalidAccountData)
    );
    assert_eq!(
        initialize_mint(&[7u8; 76], true, 9, k(A), None),
        Err(ProgramError::InvalidAccountData)
    );
    assert_eq!(
        initialize_account(&[0u8; 73], &k(M), &k(O), true),
        Err(ProgramError::InvalidAccountData)
    );
}

#[test]
fn missing_signature_is_unauthorized() {
    let mint = mint_with(10);
    let account = account_with(O, 10);
    let other = account_with(P, 0);
    assert_eq!(
        mint_to(&k(M), &mint, &account, &k(A), false, 1),
        Err(token(TokenError::Unauthorized))
    );
    assert_eq!(transfer(&account, &other, &k(O), false, 1), Err(token(TokenError::Unauthorized)));
    assert_eq!(
        burn(&account, &k(M), &mint, &k(O), false, 1),
        Err(token(TokenError::Unauthorized))
    );
    assert_eq!(
        set_mint_authority(&mint, &k(A), false, None),
        Err(token(TokenError::Unauthorized))
    );
}

#[test]
fn wrong_principal_is_unauthorized() {
    let mint = mint_with(10);
    let account = account_with(O, 10);
    let other = account_with(P, 0);
    assert_eq!(transfer(&account, &other, &k(P), true, 1), Err(token(TokenError::Unauthorized)));
    assert_eq!(burn(&account, &k(M), &mint, &k(P), true, 1), Err(token(TokenError::Unauthorized)));
    assert_eq!(
        set_mint_authority(&mint, &k(O), true, Some(k(O))),
        Err(token(TokenError::Unauthorized))
    );
}

#[test]
fn authorization_is_checked_before_funds_and_the_other_buffer() {
    let account = account_with(O, 10);
    assert_eq!(
        transfer(&account, &[9u8; 3], &k(P), true, 11),
        Err(token(TokenError::Unauthorized))
    );
    assert_eq!(
        burn(&account, &k(1), &[9u8; 3], &k(P), true, 11),
        Err(token(TokenError::Unauthorized))
    );
    assert_eq!(
        mint_to(&k(M), &mint_with(u64::MAX), &[9u8; 3], &k(P), true, 1),
        Err(token(TokenError::Unauthorized))
    );
}

#[test]
fn overdraft_is_insufficient_funds() {
    let mint = mint_with(10);
    let account = account_with(O, 10);
    let other = account_with(P, 0);
    assert_eq!(
        transfer(&account, &other, &k(O), true, 11),
        Err(token(TokenError::InsufficientFunds))
    );
    assert_eq!(
        burn(&account, &k(M), &mint, &k(O), true, 11),
        Err(token(TokenError::InsufficientFunds))
    );
    assert!(transfer(&account, &other, &k(O), true, 10).is_ok());
    assert!(burn(&account, &k(M), &mint, &k(O), true, 10).is_ok());
}

#[test]
fn mint_to_does_not_wrap() {
    let account = account_with(O, 0);
    assert_eq!(
        mint_to(&k(M), &mint_with(u64::MAX), &account, &k(A), true, 1),
        Err(ProgramError::ArithmeticOverflow)
    );
    assert_eq!(
        mint_to(&k(M), &mint_with(1), &account, &k(A), true, u64::MAX),
        Err(ProgramError::ArithmeticOverflow)
    );
    assert_eq!(
        mint_to(&k(M), &mint_with(0), &account_with(O, u64::MAX), &k(A), true, 1),
        Err(ProgramError::ArithmeticOverflow)
    );
    let (mint, account) = mint_to(&k(M), &mint_with(1), &account, &k(A), true, u64::MAX - 1).unwrap();
    assert_eq!(Mint::decode(&mint).unwrap().supply, u64::MAX);
    assert_eq!(TokenAccount::decode(&account).unwrap().amount, u64::MAX - 1);
}

#[test]
fn transfer_and_burn_do_not_wrap() {
    assert_eq!(
        transfer(&account_with(O, 5), &account_with(P, u64::MAX - 1), &k(O), true, 2),
        Err(ProgramError::ArithmeticOverflow)
    );
    assert_eq!(
        burn(&account_with(O, 5), &k(M), &mint_with(4), &k(O), true, 5),
        Err(ProgramError::ArithmeticOverflow)
    );
}

#[test]
fn other_mint_is_a_mismatch() {
    let account = account_with(O, 10);
    let foreign = TokenAccount {
        is_initialized: true,
        mint: k(0x31),
        owner: k(P),
        amount: 0,
        is_frozen: false,
    }
    .encode();
    assert_eq!(
        mint_to(&k(0x31), &mint_with(10), &account, &k(A), true, 1),
        Err(token(TokenError::MintMismatch))
    );
    assert_eq!(transfer(&account, &foreign, &k(O), true, 1), Err(token(TokenError::MintMismatch)));
    assert_eq!(
        burn(&account, &k(0x31), &mint_with(10), &k(O), true, 1),
        Err(token(TokenError::MintMismatch))
    );
}

#[test]
fn frozen_accounts_do_not_move() {
    let mint = mint_with(10);
    assert_eq!(
        transfer(&frozen_account(O, 10), &account_with(P, 0), &k(O), true, 1),
        Err(token(TokenError::AccountFrozen))
    );
    assert_eq!(
        transfer(&account_with(O, 10), &frozen_account(P, 0), &k(O), true, 1),
        Err(token(TokenError::AccountFrozen))
    );
    assert_eq!(
        burn(&frozen_account(O, 10), &k(M), &mint, &k(O), true, 1),
        Err(token(TokenError::AccountFrozen))
    );
    assert_eq!(
        mint_to(&k(M), &mint, &frozen_account(O, 10), &k(A), true, 1),
        Err(token(TokenError::AccountFrozen))
    );
}

#[test]
fn unused_records_take_no_operation() {
    let unused_account = [0u8; 74];
    let zero = k(0);
    assert_eq!(
        mint_to(&k(M), &mint_with(0), &unused_account, &k(A), true, 1),
        Err(ProgramError::UninitializedAccount)
    );
    assert_eq!(
        transfer(&unused_account, &account_with(P, 0), &zero, true, 0),
        Err(ProgramError::UninitializedAccount)
    );
    assert_eq!(
        transfer(&account_with(O, 1), &unused_account, &k(O), true, 1),
        Err(ProgramError::UninitializedAccount)
    );
    assert_eq!(
        burn(&unused_account, &k(M), &mint_with(0), &zero, true, 0),
        Err(ProgramError::UninitializedAccount)
    );
    let unused_mint = Mint {
        is_initialized: false,
        decimals: 0,
        mint_authority: Some(k(A)),
        supply: 0,
        freeze_authority: None,
    }
    .encode();
    assert_eq!(
        mint_to(&k(M), &unused_mint, &account_with(O, 0), &k(A), true, 1),
        Err(ProgramError::UninitializedAccount)
    );
    assert_eq!(
        set_mint_authority(&unused_mint, &k(A), true, None),
        Err(ProgramError::UninitializedAccount)
    );
    assert_eq!(
        burn(&account_with(O, 1), &k(M), &unused_mint, &k(O), true, 1),
        Err(ProgramError::UninitializedAccount)
    );
    assert_eq!(
        mint_to(&k(M), &[0u8; 76], &account_with(O, 0), &k(A), true, 1),
        Err(token(TokenError::Unauthorized))
    );
}

#[test]
fn buffers_that_hold_no_record_are_refused() {
    assert_eq!(
        mint_to(&k(M), &[0u8; 10], &account_with(O, 0), &k(A), true, 1),
        Err(ProgramError::InvalidAccountData)
    );
    assert_eq!(
        mint_to(&k(M), &mint_with(0), &[0u8; 10], &k(A), true, 1),
        Err(ProgramError::InvalidAccountData)
    );
    assert_eq!(
        transfer(&[0u8; 10], &account_with(P, 0), &k(O), true, 1),
        Err(ProgramError::InvalidAccountData)
    );
    assert_eq!(
        transfer(&account_with(O, 1), &[0u8; 10], &k(O), true, 1),
        Err(ProgramError::InvalidAccountData)
    );
    assert_eq!(
        burn(&account_with(O, 1), &k(M), &[0u8; 10], &k(O), true, 1),
        Err(ProgramError::InvalidAccountData)
    );
    assert_eq!(set_mint_authority(&[2u8; 76], &k(A), true, None), Err(ProgramError::InvalidAccountData));
}

#[test]
fn set_mint_authority_hands_the_right_on() {
    let mint = set_mint_authority(&mint_with(7), &k(A), true, Some(k(P))).unwrap();
    let decoded = Mint::decode(&mint).unwrap();
    assert_eq!(decoded.mint_authority, Some(k(P)));
    assert_eq!(decoded.supply, 7);
    assert_eq!(decoded.decimals, 9);
    let account = account_with(O, 0);
    assert_eq!(
        mint_to(&k(M), &mint, &account, &k(A), true, 1),
        Err(token(TokenError::Unauthorized))
    );
    assert!(mint_to(&k(M), &mint, &account, &k(P), true, 1).is_ok());
}

#[test]
fn giving_up_the_mint_authority_is_final() {
    let mint = set_mint_authority(&mint_with(7), &k(A), true, None).unwrap();
    assert_eq!(Mint::decode(&mint).unwrap().mint_authority, None);
    let account = account_with(O, 0);
    for principal in [k(A), k(0), k(P)] {
        assert_eq!(
            mint_to(&k(M), &mint, &account, &principal, true, 1),
            Err(token(TokenError::Unauthorized))
        );
        assert_eq!(
            set_mint_authority(&mint, &principal, true, Some(principal)),
            Err(token(TokenError::Unauthorized))
        );
    }
}

#[test]
fn transfer_of_nothing_and_of_everything() {
    let (s, d) = transfer(&account_with(O, 9), &account_with(P, 1), &k(O), true, 0).unwrap();
    assert_eq!(TokenAccount::decode(&s).unwrap().amount, 9);
    assert_eq!(TokenAccount::decode(&d).unwrap().amount, 1);
    let (s, d) = transfer(&account_with(O, 9), &account_with(P, 1), &k(O), true, 9).unwrap();
    assert_eq!(TokenAccount::decode(&s).unwrap().amount, 0);
    assert_eq!(TokenAccount::decode(&d).unwrap().amount, 10);
}

#[test]
fn operations_read_only_the_record_prefix() {
    let mut mint = mint_with(1).to_vec();
    mint.extend_from_slice(&[0xee; 20]);
    let mut account = account_with(O, 1).to_vec();
    account.extend_from_slice(&[0xdd; 20]);
    let (m, a) = mint_to(&k(M), &mint, &account, &k(A), true, 2).unwrap();
    assert_eq!(Mint::decode(&m).unwrap().supply, 3);
    assert_eq!(TokenAccount::decode(&a).unwrap().amount, 3);
}

#[test]
fn ineligible_buffer_is_refused_whatever_it_holds() {
    let not_exempt = Err(token(TokenError::NotRentExempt));
    assert_eq!(initialize_mint(&[0u8; 75], false, 9, k(A), None), not_exempt);
    assert_eq!(initialize_mint(&[], false, 9, k(A), None), not_exempt);
    assert_eq!(initialize_mint(&[7u8; 76], false, 9, k(A), None), not_exempt);
    assert_eq!(initialize_mint(&mint_with(5), false, 9, k(A), Some(k(P))), not_exempt);

    let not_exempt = Err(token(TokenError::NotRentExempt));
    assert_eq!(initialize_account(&[0u8; 73], &k(M), &k(O), false), not_exempt);
    assert_eq!(initialize_account(&[], &k(M), &k(O), false), not_exempt);
    assert_eq!(initialize_account(&[3u8; 74], &k(M), &k(O), false), not_exempt);
    assert_eq!(initialize_account(&account_with(O, 5), &k(M), &k(O), false), not_exempt);
}

#[test]
fn eligible_buffer_must_hold_an_unused_record() {
    assert_eq!(
        initialize_mint(&[0u8; 75], true, 9, k(A), None),
        Err(ProgramError::InvalidAccountData)
    );
    assert_eq!(
        initialize_mint(&mint_with(5), true, 9, k(A), None),
        Err(ProgramError::AccountAlreadyInitialized)
    );
    assert_eq!(
        initialize_account(&[0u8; 73], &k(M), &k(O), true),
        Err(ProgramError::InvalidAccountData)
    );
    assert_eq!(
        initialize_account(&account_with(O, 5), &k(M), &k(O), true),
        Err(ProgramError::AccountAlreadyInitialized)
    );
}
