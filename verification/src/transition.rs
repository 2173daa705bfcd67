use vstd::prelude::*;
use crate::codec::spec_option_key_view;
use crate::error::{ProgramError, TokenError};
use crate::pubkey::Pubkey;
use crate::state::{Mint, MintView, TokenAccount, TokenAccountView};

verus! {

/// InitializeMint on the record that the mint buffer decodes to (`None`
/// where it does not decode). A buffer that is not storage-eligible is
/// refused whatever it holds; an eligible one must hold a record that is
/// not in use. The new mint has nothing issued.
pub open spec fn spec_initialize_mint(
    mint: Option<MintView>,
    rent_exempt: bool,
    decimals: u8,
    mint_authority: Seq<u8>,
    freeze_authority: Option<Seq<u8>>,
) -> Result<MintView, ProgramError> {
    if !rent_exempt {
        Err(ProgramError::Custom(TokenError::NotRentExempt))
    } else if mint is None {
        Err(ProgramError::InvalidAccountData)
    } else if mint->0.is_initialized {
        Err(ProgramError::AccountAlreadyInitialized)
    } else {
        Ok(
            MintView {
                is_initialized: true,
                decimals,
                mint_authority: Some(mint_authority),
                supply: 0,
                freeze_authority,
            },
        )
    }
}

/// InitializeAccount on the record that the account buffer decodes to. A
/// buffer that is not storage-eligible is refused whatever it holds; an
/// eligible one must hold a record that is not in use. The new account is
/// empty and not frozen.
pub open spec fn spec_initialize_account(
    account: Option<TokenAccountView>,
    mint: Seq<u8>,
    owner: Seq<u8>,
    rent_exempt: bool,
) -> Result<TokenAccountView, ProgramError> {
    if !rent_exempt {
        Err(ProgramError::Custom(TokenError::NotRentExempt))
    } else if account is None {
        Err(ProgramError::InvalidAccountData)
    } else if account->0.is_initialized {
        Err(ProgramError::AccountAlreadyInitialized)
    } else {
        Ok(TokenAccountView { is_initialized: true, mint, owner, amount: 0, is_frozen: false })
    }
}

/// MintTo on the records that the two buffers decode to. `mint_key` names
/// the mint record; `authority` is the principal that asks, `is_signer`
/// whether it signed. The checks run in the order written: the first that
/// fails names the error.
pub open spec fn spec_mint_to(
    mint: Option<MintView>,
    account: Option<TokenAccountView>,
    mint_key: Seq<u8>,
    authority: Seq<u8>,
    is_signer: bool,
    amount: u64,
) -> Result<(MintView, TokenAccountView), ProgramError> {
    if !is_signer {
        Err(ProgramError::Custom(TokenError::Unauthorized))
    } else if mint is None {
        Err(ProgramError::InvalidAccountData)
    } else if mint->0.mint_authority != Some(authority) {
        Err(ProgramError::Custom(TokenError::Unauthorized))
    } else if !mint->0.is_initialized {
        Err(ProgramError::UninitializedAccount)
    } else if account is None {
        Err(ProgramError::InvalidAccountData)
    } else if !account->0.is_initialized {
        Err(ProgramError::UninitializedAccount)
    } else if account->0.mint != mint_key {
        Err(ProgramError::Custom(TokenError::MintMismatch))
    } else if account->0.is_frozen {
        Err(ProgramError::Custom(TokenError::AccountFrozen))
    } else if mint->0.supply + amount > u64::MAX || account->0.amount + amount > u64::MAX {
        Err(ProgramError::ArithmeticOverflow)
    } else {
        Ok(
            (
                MintView { supply: (mint->0.supply + amount) as u64, ..mint->0 },
                TokenAccountView { amount: (account->0.amount + amount) as u64, ..account->0 },
            ),
        )
    }
}

/// Transfer on the records that the two buffers decode to. `owner` is the
/// principal that asks, `is_signer` whether it signed. The checks run in
/// the order written: the first that fails names the error.
pub open spec fn spec_transfer(
    source: Option<TokenAccountView>,
    destination: Option<TokenAccountView>,
    owner: Seq<u8>,
    is_signer: bool,
    amount: u64,
) -> Result<(TokenAccountView, TokenAccountView), ProgramError> {
    if !is_signer {
        Err(ProgramError::Custom(TokenError::Unauthorized))
    } else if source is None {
        Err(ProgramError::InvalidAccountData)
    } else if source->0.owner != owner {
        Err(ProgramError::Custom(TokenError::Unauthorized))
    } else if !source->0.is_initialized {
        Err(ProgramError::UninitializedAccount)
    } else if source->0.is_frozen {
        Err(ProgramError::Custom(TokenError::AccountFrozen))
    } else if source->0.amount < amount {
        Err(ProgramError::Custom(TokenError::InsufficientFunds))
    } else if destination is None {
        Err(ProgramError::InvalidAccountData)
    } else if !destination->0.is_initialized {
        Err(ProgramError::UninitializedAccount)
    } else if destination->0.mint != source->0.mint {
        Err(ProgramError::Custom(TokenError::MintMismatch))
    } else if destination->0.is_frozen {
        Err(ProgramError::Custom(TokenError::AccountFrozen))
    } else if destination->0.amount + amount > u64::MAX {
        Err(ProgramError::ArithmeticOverflow)
    } else {
        Ok(
            (
                TokenAccountView { amount: (source->0.amount - amount) as u64, ..source->0 },
                TokenAccountView {
                    amount: (destination->0.amount + amount) as u64,
                    ..destination->0
                },
            ),
        )
    }
}

/// Burn on the records that the two buffers decode to. `mint_key` names
/// the mint record; `owner` is the principal that asks, `is_signer` whether
/// it signed. The checks run in the order written: the first that fails
/// names the error.
pub open spec fn spec_burn(
    account: Option<TokenAccountView>,
    mint: Option<MintView>,
    mint_key: Seq<u8>,
    owner: Seq<u8>,
    is_signer: bool,
    amount: u64,
) -> Result<(TokenAccountView, MintView), ProgramError> {
    if !is_signer {
        Err(ProgramError::Custom(TokenError::Unauthorized))
    } else if account is None {
        Err(ProgramError::InvalidAccountData)
    } else if account->0.owner != owner {
        Err(ProgramError::Custom(TokenError::Unauthorized))
    } else if !account->0.is_initialized {
        Err(ProgramError::UninitializedAccount)
    } else if account->0.is_frozen {
        Err(ProgramError::Custom(TokenError::AccountFrozen))
    } else if account->0.amount < amount {
        Err(ProgramError::Custom(TokenError::InsufficientFunds))
    } else if account->0.mint != mint_key {
        Err(ProgramError::Custom(TokenError::MintMismatch))
    } else if mint is None {
        Err(ProgramError::InvalidAccountData)
    } else if !mint->0.is_initialized {
        Err(ProgramError::UninitializedAccount)
    } else if mint->0.supply < amount {
        Err(ProgramError::ArithmeticOverflow)
    } else {
        Ok(
            (
                TokenAccountView { amount: (account->0.amount - amount) as u64, ..account->0 },
                MintView { supply: (mint->0.supply - amount) as u64, ..mint->0 },
            ),
        )
    }
}

/// SetMintAuthority on the record that the mint buffer decodes to.
/// `authority` is the principal that asks, `is_signer` whether it signed.
/// The checks run in the order written: the first that fails names the
/// error.
pub open spec fn spec_set_mint_authority(
    mint: Option<MintView>,
    authority: Seq<u8>,
    is_signer: bool,
    new_authority: Option<Seq<u8>>,
) -> Result<MintView, ProgramError> {
    if !is_signer {
        Err(ProgramError::Custom(TokenError::Unauthorized))
    } else if mint is None {
        Err(ProgramError::InvalidAccountData)
    } else if mint->0.mint_authority != Some(authority) {
        Err(ProgramError::Custom(TokenError::Unauthorized))
    } else if !mint->0.is_initialized {
        Err(ProgramError::UninitializedAccount)
    } else {
        Ok(MintView { mint_authority: new_authority, ..mint->0 })
    }
}

/// The outcome `got` of an operation on one mint is the one that `want`
/// describes: the same error, or the encoding of the same record.
pub open spec fn mint_outcome(
    got: Result<[u8; 76], ProgramError>,
    want: Result<MintView, ProgramError>,
) -> bool {
    match want {
        Ok(m) => got is Ok && got->Ok_0@ == Mint::spec_encode(m),
        Err(e) => got == Err::<[u8; 76], ProgramError>(e),
    }
}

/// The outcome `got` of an operation on one token account is the one that
/// `want` describes.
pub open spec fn account_outcome(
    got: Result<[u8; 74], ProgramError>,
    want: Result<TokenAccountView, ProgramError>,
) -> bool {
    match want {
        Ok(a) => got is Ok && got->Ok_0@ == TokenAccount::spec_encode(a),
        Err(e) => got == Err::<[u8; 74], ProgramError>(e),
    }
}

/// Creates a mint in the buffer `mint_data`, which the host judges
/// storage-eligible or not (`rent_exempt`), and returns the bytes to write
/// back.
pub fn initialize_mint(
    mint_data: &[u8],
    rent_exempt: bool,
    decimals: u8,
    mint_authority: Pubkey,
    freeze_authority: Option<Pubkey>,
) -> (outcome: Result<[u8; 76], ProgramError>)
    ensures
        mint_outcome(
            outcome,
            spec_initialize_mint(
                Mint::spec_decode(mint_data@),
                rent_exempt,
                decimals,
                mint_authority@,
                spec_option_key_view(freeze_authority),
            ),
        ),
{
    if !rent_exempt {
        return Err(ProgramError::Custom(TokenError::NotRentExempt));
    }
    let old_mint = match Mint::decode(mint_data) {
        Ok(m) => m,
        Err(_) => {
            return Err(ProgramError::InvalidAccountData);
        },
    };
    if old_mint.is_initialized {
        return Err(ProgramError::AccountAlreadyInitialized);
    }
    let mint = Mint::new(decimals, mint_authority, freeze_authority);
    Ok(mint.encode())
}

/// Creates a token account of `owner` in `mint` in the buffer
/// `account_data`, which the host judges storage-eligible or not
/// (`rent_exempt`), and returns the bytes to write back.
pub fn initialize_account(
    account_data: &[u8],
    mint: &Pubkey,
    owner: &Pubkey,
    rent_exempt: bool,
) -> (outcome: Result<[u8; 74], ProgramError>)
    ensures
        account_outcome(
            outcome,
            spec_initialize_account(
                TokenAccount::spec_decode(account_data@),
                mint@,
                owner@,
                rent_exempt,
            ),
        ),
{
    if !rent_exempt {
        return Err(ProgramError::Custom(TokenError::NotRentExempt));
    }
    let old_account = match TokenAccount::decode(account_data) {
        Ok(a) => a,
        Err(_) => {
            return Err(ProgramError::InvalidAccountData);
        },
    };
    if old_account.is_initialized {
        return Err(ProgramError::AccountAlreadyInitialized);
    }
    let account = TokenAccount::new(*mint, *owner);
    Ok(account.encode())
}

/// The outcome `got` of MintTo is the one that `want` describes: the same
/// error, or the encodings of the same two records.
pub open spec fn mint_to_outcome(
    got: Result<([u8; 76], [u8; 74]), ProgramError>,
    want: Result<(MintView, TokenAccountView), ProgramError>,
) -> bool {
    match want {
        Ok((m, a)) => got is Ok && got->Ok_0.0@ == Mint::spec_encode(m) && got->Ok_0.1@
            == TokenAccount::spec_encode(a),
        Err(e) => got == Err::<([u8; 76], [u8; 74]), ProgramError>(e),
    }
}

/// The outcome `got` of Transfer is the one that `want` describes.
pub open spec fn transfer_outcome(
    got: Result<([u8; 74], [u8; 74]), ProgramError>,
    want: Result<(TokenAccountView, TokenAccountView), ProgramError>,
) -> bool {
    match want {
        Ok((s, d)) => got is Ok && got->Ok_0.0@ == TokenAccount::spec_encode(s) && got->Ok_0.1@
            == TokenAccount::spec_encode(d),
        Err(e) => got == Err::<([u8; 74], [u8; 74]), ProgramError>(e),
    }
}

/// The outcome `got` of Burn is the one that `want` describes.
pub open spec fn burn_outcome(
    got: Result<([u8; 74], [u8; 76]), ProgramError>,
    want: Result<(TokenAccountView, MintView), ProgramError>,
) -> bool {
    match want {
        Ok((a, m)) => got is Ok && got->Ok_0.0@ == TokenAccount::spec_encode(a) && got->Ok_0.1@
            == Mint::spec_encode(m),
        Err(e) => got == Err::<([u8; 74], [u8; 76]), ProgramError>(e),
    }
}

/// Whether `recorded` names `principal`.
fn is_authority(recorded: &Option<Pubkey>, principal: &Pubkey) -> (same: bool)
    ensures
        same == (spec_option_key_view(*recorded) == Some(principal@)),
{
    match recorded {
        Some(key) => {
            proof {
                Pubkey::lemma_view_injective(*key, *principal);
            }
            *key == *principal
        },
        None => false,
    }
}

/// Whether the two keys are the same.
fn same_key(a: &Pubkey, b: &Pubkey) -> (same: bool)
    ensures
        same == (a@ == b@),
{
    proof {
        Pubkey::lemma_view_injective(*a, *b);
    }
    *a == *b
}

/// Issues `amount` new units of the mint in `mint_data`, whose record is
/// named `mint_key`, to the token account in `account_data`, on the word
/// of `authority`. Returns the bytes to write back to the two buffers, in
/// that order.
pub fn mint_to(
    mint_key: &Pubkey,
    mint_data: &[u8],
    account_data: &[u8],
    authority: &Pubkey,
    is_signer: bool,
    amount: u64,
) -> (outcome: Result<([u8; 76], [u8; 74]), ProgramError>)
    ensures
        mint_to_outcome(
            outcome,
            spec_mint_to(
                Mint::spec_decode(mint_data@),
                TokenAccount::spec_decode(account_data@),
                mint_key@,
                authority@,
                is_signer,
                amount,
            ),
        ),
{
    if !is_signer {
        return Err(ProgramError::Custom(TokenError::Unauthorized));
    }
    let mut mint = match Mint::decode(mint_data) {
        Ok(m) => m,
        Err(_) => {
            return Err(ProgramError::InvalidAccountData);
        },
    };
    if !is_authority(&mint.mint_authority, authority) {
        return Err(ProgramError::Custom(TokenError::Unauthorized));
    }
    if !mint.is_initialized {
        return Err(ProgramError::UninitializedAccount);
    }
    let mut account = match TokenAccount::decode(account_data) {
        Ok(a) => a,
        Err(_) => {
            return Err(ProgramError::InvalidAccountData);
        },
    };
    if !account.is_initialized {
        return Err(ProgramError::UninitializedAccount);
    }
    if !same_key(&account.mint, mint_key) {
        return Err(ProgramError::Custom(TokenError::MintMismatch));
    }
    if account.is_frozen {
        return Err(ProgramError::Custom(TokenError::AccountFrozen));
    }
    let supply = match mint.supply.checked_add(amount) {
        Some(sum) => sum,
        None => {
            return Err(ProgramError::ArithmeticOverflow);
        },
    };
    let balance = match account.amount.checked_add(amount) {
        Some(sum) => sum,
        None => {
            return Err(ProgramError::ArithmeticOverflow);
        },
    };
    mint.supply = supply;
    account.amount = balance;
    Ok((mint.encode(), account.encode()))
}

/// Moves `amount` units from the token account in `source_data` to the one
/// in `destination_data`, on the word of `owner`. Returns the bytes to
/// write back to the two buffers, in that order.
pub fn transfer(
    source_data: &[u8],
    destination_data: &[u8],
    owner: &Pubkey,
    is_signer: bool,
    amount: u64,
) -> (outcome: Result<([u8; 74], [u8; 74]), ProgramError>)
    ensures
        transfer_outcome(
            outcome,
            spec_transfer(
                TokenAccount::spec_decode(source_data@),
                TokenAccount::spec_decode(destination_data@),
                owner@,
                is_signer,
                amount,
            ),
        ),
{
    if !is_signer {
        return Err(ProgramError::Custom(TokenError::Unauthorized));
    }
    let mut source = match TokenAccount::decode(source_data) {
        Ok(a) => a,
        Err(_) => {
            return Err(ProgramError::InvalidAccountData);
        },
    };
    if !same_key(&source.owner, owner) {
        return Err(ProgramError::Custom(TokenError::Unauthorized));
    }
    if !source.is_initialized {
        return Err(ProgramError::UninitializedAccount);
    }
    if source.is_frozen {
        return Err(ProgramError::Custom(TokenError::AccountFrozen));
    }
    if source.amount < amount {
        return Err(ProgramError::Custom(TokenError::InsufficientFunds));
    }
    let mut destination = match TokenAccount::decode(destination_data) {
        Ok(a) => a,
        Err(_) => {
            return Err(ProgramError::InvalidAccountData);
        },
    };
    if !destination.is_initialized {
        return Err(ProgramError::UninitializedAccount);
    }
    if !same_key(&destination.mint, &source.mint) {
        return Err(ProgramError::Custom(TokenError::MintMismatch));
    }
    if destination.is_frozen {
        return Err(ProgramError::Custom(TokenError::AccountFrozen));
    }
    let credited = match destination.amount.checked_add(amount) {
        Some(sum) => sum,
        None => {
            return Err(ProgramError::ArithmeticOverflow);
        },
    };
    source.amount = source.amount - amount;
    destination.amount = credited;
    Ok((source.encode(), destination.encode()))
}

/// Destroys `amount` units held by the token account in `account_data`,
/// and takes them off the supply of the mint in `mint_data`, whose record
/// is named `mint_key`, on the word of `owner`. Returns the bytes to write
/// back to the two buffers, in that order.
pub fn burn(
    account_data: &[u8],
    mint_key: &Pubkey,
    mint_data: &[u8],
    owner: &Pubkey,
    is_signer: bool,
    amount: u64,
) -> (outcome: Result<([u8; 74], [u8; 76]), ProgramError>)
    ensures
        burn_outcome(
            outcome,
            spec_burn(
                TokenAccount::spec_decode(account_data@),
                Mint::spec_decode(mint_data@),
                mint_key@,
                owner@,
                is_signer,
                amount,
            ),
        ),
{
    if !is_signer {
        return Err(ProgramError::Custom(TokenError::Unauthorized));
    }
    let mut account = match TokenAccount::decode(account_data) {
        Ok(a) => a,
        Err(_) => {
            return Err(ProgramError::InvalidAccountData);
        },
    };
    if !same_key(&account.owner, owner) {
        return Err(ProgramError::Custom(TokenError::Unauthorized));
    }
    if !account.is_initialized {
        return Err(ProgramError::UninitializedAccount);
    }
    if account.is_frozen {
        return Err(ProgramError::Custom(TokenError::AccountFrozen));
    }
    if account.amount < amount {
        return Err(ProgramError::Custom(TokenError::InsufficientFunds));
    }
    if !same_key(&account.mint, mint_key) {
        return Err(ProgramError::Custom(TokenError::MintMismatch));
    }
    let mut mint = match Mint::decode(mint_data) {
        Ok(m) => m,
        Err(_) => {
            return Err(ProgramError::InvalidAccountData);
        },
    };
    if !mint.is_initialized {
        return Err(ProgramError::UninitializedAccount);
    }
    if mint.supply < amount {
        return Err(ProgramError::ArithmeticOverflow);
    }
    account.amount = account.amount - amount;
    mint.supply = mint.supply - amount;
    Ok((account.encode(), mint.encode()))
}

/// Replaces the mint authority of the mint in `mint_data` by
/// `new_authority`, on the word of the current `authority`. Returns the
/// bytes to write back.
pub fn set_mint_authority(
    mint_data: &[u8],
    authority: &Pubkey,
    is_signer: bool,
    new_authority: Option<Pubkey>,
) -> (outcome: Result<[u8; 76], ProgramError>)
    ensures
        mint_outcome(
            outcome,
            spec_set_mint_authority(
                Mint::spec_decode(mint_data@),
                authority@,
                is_signer,
                spec_option_key_view(new_authority),
            ),
        ),
{
    if !is_signer {
        return Err(ProgramError::Custom(TokenError::Unauthorized));
    }
    let mut mint = match Mint::decode(mint_data) {
        Ok(m) => m,
        Err(_) => {
            return Err(ProgramError::InvalidAccountData);
        },
    };
    if !is_authority(&mint.mint_authority, authority) {
        return Err(ProgramError::Custom(TokenError::Unauthorized));
    }
    if !mint.is_initialized {
        return Err(ProgramError::UninitializedAccount);
    }
    mint.mint_authority = new_authority;
    Ok(mint.encode())
}

/// An initialize operation on a buffer that is not storage-eligible fails
/// with `NotRentExempt`, whatever the buffer holds and whatever is asked
/// for.
pub proof fn lemma_not_rent_exempt(
    mint: Option<MintView>,
    account: Option<TokenAccountView>,
    decimals: u8,
    mint_key: Seq<u8>,
    principal: Seq<u8>,
    freeze_authority: Option<Seq<u8>>,
)
    ensures
        spec_initialize_mint(mint, false, decimals, principal, freeze_authority) == Err::<
            MintView,
            ProgramError,
        >(ProgramError::Custom(TokenError::NotRentExempt)),
        spec_initialize_account(account, mint_key, principal, false) == Err::<
            TokenAccountView,
            ProgramError,
        >(ProgramError::Custom(TokenError::NotRentExempt)),
{
}

/// Authorization comes first: where the principal did not sign, or is not
/// the one that the record names, MintTo, Transfer, Burn and
/// SetMintAuthority are refused as unauthorized, whatever the amount and
/// the other buffer.
pub proof fn lemma_unauthorized(
    mint: Option<MintView>,
    account: Option<TokenAccountView>,
    other: Option<TokenAccountView>,
    mint_key: Seq<u8>,
    principal: Seq<u8>,
    is_signer: bool,
    amount: u64,
    new_authority: Option<Seq<u8>>,
)
    ensures
        !is_signer || (mint matches Some(m) && m.mint_authority != Some(principal)) ==> spec_mint_to(
            mint,
            account,
            mint_key,
            principal,
            is_signer,
            amount,
        ) == Err::<(MintView, TokenAccountView), ProgramError>(
            ProgramError::Custom(TokenError::Unauthorized),
        ),
        !is_signer || (mint matches Some(m) && m.mint_authority != Some(principal))
            ==> spec_set_mint_authority(mint, principal, is_signer, new_authority) == Err::<
            MintView,
            ProgramError,
        >(ProgramError::Custom(TokenError::Unauthorized)),
        !is_signer || (account matches Some(a) && a.owner != principal) ==> spec_transfer(
            account,
            other,
            principal,
            is_signer,
            amount,
        ) == Err::<(TokenAccountView, TokenAccountView), ProgramError>(
            ProgramError::Custom(TokenError::Unauthorized),
        ),
        !is_signer || (account matches Some(a) && a.owner != principal) ==> spec_burn(
            account,
            mint,
            mint_key,
            principal,
            is_signer,
            amount,
        ) == Err::<(TokenAccountView, MintView), ProgramError>(
            ProgramError::Custom(TokenError::Unauthorized),
        ),
{
}

/// A debit of more than the balance is refused for want of funds: where
/// the owner signed and the account is in use and not frozen, Transfer and
/// Burn of more than it holds fail with `InsufficientFunds`, whatever the
/// other buffer holds.
pub proof fn lemma_insufficient_funds(
    account: TokenAccountView,
    other: Option<TokenAccountView>,
    mint: Option<MintView>,
    mint_key: Seq<u8>,
    amount: u64,
)
    requires
        account.is_initialized,
        !account.is_frozen,
        amount > account.amount,
    ensures
        spec_transfer(Some(account), other, account.owner, true, amount) == Err::<
            (TokenAccountView, TokenAccountView),
            ProgramError,
        >(ProgramError::Custom(TokenError::InsufficientFunds)),
        spec_burn(Some(account), mint, mint_key, account.owner, true, amount) == Err::<
            (TokenAccountView, MintView),
            ProgramError,
        >(ProgramError::Custom(TokenError::InsufficientFunds)),
{
}

/// No amount wraps. MintTo fails where the supply or the balance would
/// leave the 64-bit range, Transfer and Burn fail where the debit exceeds
/// the balance, Transfer where the credit would leave the range, Burn
/// where the supply is less than the amount.
pub proof fn lemma_no_wrapping(
    mint: MintView,
    account: TokenAccountView,
    other: TokenAccountView,
    mint_key: Seq<u8>,
    principal: Seq<u8>,
    is_signer: bool,
    amount: u64,
)
    ensures
        mint.supply + amount > u64::MAX || account.amount + amount > u64::MAX ==> spec_mint_to(
            Some(mint),
            Some(account),
            mint_key,
            principal,
            is_signer,
            amount,
        ) is Err,
        amount > account.amount || other.amount + amount > u64::MAX ==> spec_transfer(
            Some(account),
            Some(other),
            principal,
            is_signer,
            amount,
        ) is Err,
        amount > account.amount || amount > mint.supply ==> spec_burn(
            Some(account),
            Some(mint),
            mint_key,
            principal,
            is_signer,
            amount,
        ) is Err,
{
}

/// What success means. MintTo adds the amount to the supply and to the
/// balance; Transfer takes it from the source and adds it to the
/// destination; Burn takes it from the balance and from the supply. The
/// sums and differences are those of the integers, and no other field
/// changes.
pub proof fn lemma_effect(
    mint: Option<MintView>,
    account: Option<TokenAccountView>,
    other: Option<TokenAccountView>,
    mint_key: Seq<u8>,
    principal: Seq<u8>,
    is_signer: bool,
    amount: u64,
)
    ensures
        spec_mint_to(mint, account, mint_key, principal, is_signer, amount) matches Ok((m, a)) ==> {
            &&& mint is Some && account is Some
            &&& m.supply == mint->0.supply + amount
            &&& a.amount == account->0.amount + amount
            &&& m == MintView { supply: m.supply, ..mint->0 }
            &&& a == TokenAccountView { amount: a.amount, ..account->0 }
        },
        spec_transfer(account, other, principal, is_signer, amount) matches Ok((s, d)) ==> {
            &&& account is Some && other is Some
            &&& s.amount == account->0.amount - amount
            &&& d.amount == other->0.amount + amount
            &&& s == TokenAccountView { amount: s.amount, ..account->0 }
            &&& d == TokenAccountView { amount: d.amount, ..other->0 }
        },
        spec_burn(account, mint, mint_key, principal, is_signer, amount) matches Ok((a, m)) ==> {
            &&& mint is Some && account is Some
            &&& a.amount == account->0.amount - amount
            &&& m.supply == mint->0.supply - amount
            &&& a == TokenAccountView { amount: a.amount, ..account->0 }
            &&& m == MintView { supply: m.supply, ..mint->0 }
        },
{
}

/// Giving up the mint authority is final: on a mint without one, MintTo
/// and SetMintAuthority fail for every principal.
pub proof fn lemma_no_authority_is_terminal(
    mint: MintView,
    account: Option<TokenAccountView>,
    mint_key: Seq<u8>,
    principal: Seq<u8>,
    is_signer: bool,
    amount: u64,
    new_authority: Option<Seq<u8>>,
)
    requires
        mint.mint_authority is None,
    ensures
        spec_mint_to(Some(mint), account, mint_key, principal, is_signer, amount) is Err,
        spec_set_mint_authority(Some(mint), principal, is_signer, new_authority) is Err,
{
}

} // verus!
