use vstd::prelude::*;
use crate::codec::{spec_option_key_view, spec_overwrite, write_prefix};
use crate::error::{ProgramError, TokenError};
use crate::instruction::{TokenInstruction, TokenInstructionView};
use crate::pubkey::Pubkey;
use crate::state::{Mint, MintView, TokenAccount, TokenAccountView};
use crate::transition::{
    burn, initialize_account, initialize_mint, mint_to, set_mint_authority, spec_burn,
    spec_initialize_account, spec_initialize_mint, spec_mint_to, spec_set_mint_authority,
    spec_transfer, transfer,
};

verus! {

/// One account as the host hands it to a call: who it is, what the host
/// knows of it, and its record buffer.
#[derive(Debug, Clone, PartialEq, Eq)]
pub struct AccountInfo {
    /// The account's identity.
    pub key: Pubkey,
    /// The program that the buffer belongs to.
    pub owner: Pubkey,
    /// Whether this account signed the request.
    pub is_signer: bool,
    /// Where this account is the rent sysvar: whether, by its word, the
    /// first account of the call is storage-eligible. `None` for an
    /// account that cannot tell.
    pub rent_exempt: Option<bool>,
    /// The record buffer. A call reads and writes no more than the
    /// record's size at its start.
    pub data: Vec<u8>,
}

/// The mathematical content of an [`AccountInfo`].
pub struct AccountInfoView {
    pub key: Seq<u8>,
    pub owner: Seq<u8>,
    pub is_signer: bool,
    pub rent_exempt: Option<bool>,
    pub data: Seq<u8>,
}

impl View for AccountInfo {
    type V = AccountInfoView;

    open spec fn view(&self) -> AccountInfoView {
        AccountInfoView {
            key: self.key@,
            owner: self.owner@,
            is_signer: self.is_signer,
            rent_exempt: self.rent_exempt,
            data: self.data@,
        }
    }
}

impl AccountInfoView {
    /// This account with `bytes` written over the start of its buffer.
    pub open spec fn with_record(self, bytes: Seq<u8>) -> AccountInfoView {
        AccountInfoView { data: spec_overwrite(self.data, 0, bytes), ..self }
    }
}

/// The models of the accounts of a call, in their order.
pub open spec fn spec_views(accounts: Seq<AccountInfo>) -> Seq<AccountInfoView> {
    Seq::new(accounts.len(), |i: int| accounts[i]@)
}

/// What a call did (`got`, and the accounts `before` and `after` it) is
/// what `want` describes: on success the accounts are those of `want`; on
/// failure the error is that of `want` and no account has changed.
pub open spec fn process_outcome(
    got: Result<(), ProgramError>,
    before: Seq<AccountInfo>,
    after: Seq<AccountInfo>,
    want: Result<Seq<AccountInfoView>, ProgramError>,
) -> bool {
    match want {
        Ok(views) => got is Ok && spec_views(after) == views,
        Err(e) => got == Err::<(), ProgramError>(e) && after == before,
    }
}

/// InitializeMint on the accounts of a call: the mint, then the rent
/// sysvar.
pub open spec fn spec_process_initialize_mint(
    program_id: Seq<u8>,
    accounts: Seq<AccountInfoView>,
    decimals: u8,
    mint_authority: Seq<u8>,
    freeze_authority: Option<Seq<u8>>,
) -> Result<Seq<AccountInfoView>, ProgramError> {
    if accounts.len() < 2 {
        Err(ProgramError::NotEnoughAccountKeys)
    } else if accounts[0].owner != program_id {
        Err(ProgramError::IncorrectProgramId)
    } else if accounts[1].rent_exempt is None {
        Err(ProgramError::InvalidArgument)
    } else {
        match spec_initialize_mint(
            Mint::spec_decode(accounts[0].data),
            accounts[1].rent_exempt->0,
            decimals,
            mint_authority,
            freeze_authority,
        ) {
            Ok(mint) => Ok(accounts.update(0, accounts[0].with_record(Mint::spec_encode(mint)))),
            Err(e) => Err(e),
        }
    }
}

/// InitializeAccount on the accounts of a call: the token account, its
/// mint, its owner, then the rent sysvar.
pub open spec fn spec_process_initialize_account(
    program_id: Seq<u8>,
    accounts: Seq<AccountInfoView>,
) -> Result<Seq<AccountInfoView>, ProgramError> {
    if accounts.len() < 4 {
        Err(ProgramError::NotEnoughAccountKeys)
    } else if accounts[0].owner != program_id {
        Err(ProgramError::IncorrectProgramId)
    } else if accounts[3].rent_exempt is None {
        Err(ProgramError::InvalidArgument)
    } else {
        match spec_initialize_account(
            TokenAccount::spec_decode(accounts[0].data),
            accounts[1].key,
            accounts[2].key,
            accounts[3].rent_exempt->0,
        ) {
            Ok(account) => Ok(
                accounts.update(0, accounts[0].with_record(TokenAccount::spec_encode(account))),
            ),
            Err(e) => Err(e),
        }
    }
}

/// MintTo on the accounts of a call: the mint, the token account that
/// receives, then the mint authority. Where the operation itself finds no
/// fault, one account in both places that it writes is refused.
pub open spec fn spec_process_mint_to(accounts: Seq<AccountInfoView>, amount: u64) -> Result<
    Seq<AccountInfoView>,
    ProgramError,
> {
    if accounts.len() < 3 {
        Err(ProgramError::NotEnoughAccountKeys)
    } else {
        match spec_mint_to(
            Mint::spec_decode(accounts[0].data),
            TokenAccount::spec_decode(accounts[1].data),
            accounts[0].key,
            accounts[2].key,
            accounts[2].is_signer,
            amount,
        ) {
            Ok((mint, account)) => if accounts[0].key == accounts[1].key {
                Err(ProgramError::AccountBorrowFailed)
            } else {
                Ok(
                    accounts.update(0, accounts[0].with_record(Mint::spec_encode(mint))).update(
                        1,
                        accounts[1].with_record(TokenAccount::spec_encode(account)),
                    ),
                )
            },
            Err(e) => Err(e),
        }
    }
}

/// Transfer on the accounts of a call: the source, the destination, then
/// the owner of the source. Where the operation itself finds no fault, one
/// account in both places that it writes is refused.
pub open spec fn spec_process_transfer(accounts: Seq<AccountInfoView>, amount: u64) -> Result<
    Seq<AccountInfoView>,
    ProgramError,
> {
    if accounts.len() < 3 {
        Err(ProgramError::NotEnoughAccountKeys)
    } else {
        match spec_transfer(
            TokenAccount::spec_decode(accounts[0].data),
            TokenAccount::spec_decode(accounts[1].data),
            accounts[2].key,
            accounts[2].is_signer,
            amount,
        ) {
            Ok((source, destination)) => if accounts[0].key == accounts[1].key {
                Err(ProgramError::AccountBorrowFailed)
            } else {
                Ok(
                    accounts.update(
                        0,
                        accounts[0].with_record(TokenAccount::spec_encode(source)),
                    ).update(1, accounts[1].with_record(TokenAccount::spec_encode(destination))),
                )
            },
            Err(e) => Err(e),
        }
    }
}

/// Burn on the accounts of a call: the token account, its mint, then the
/// owner of the token account. Where the operation itself finds no fault,
/// one account in both places that it writes is refused.
pub open spec fn spec_process_burn(accounts: Seq<AccountInfoView>, amount: u64) -> Result<
    Seq<AccountInfoView>,
    ProgramError,
> {
    if accounts.len() < 3 {
        Err(ProgramError::NotEnoughAccountKeys)
    } else {
        match spec_burn(
            TokenAccount::spec_decode(accounts[0].data),
            Mint::spec_decode(accounts[1].data),
            accounts[1].key,
            accounts[2].key,
            accounts[2].is_signer,
            amount,
        ) {
            Ok((account, mint)) => if accounts[0].key == accounts[1].key {
                Err(ProgramError::AccountBorrowFailed)
            } else {
                Ok(
                    accounts.update(
                        0,
                        accounts[0].with_record(TokenAccount::spec_encode(account)),
                    ).update(1, accounts[1].with_record(Mint::spec_encode(mint))),
                )
            },
            Err(e) => Err(e),
        }
    }
}

/// SetMintAuthority on the accounts of a call: the mint, then its current
/// authority.
pub open spec fn spec_process_set_mint_authority(
    accounts: Seq<AccountInfoView>,
    new_authority: Option<Seq<u8>>,
) -> Result<Seq<AccountInfoView>, ProgramError> {
    if accounts.len() < 2 {
        Err(ProgramError::NotEnoughAccountKeys)
    } else {
        match spec_set_mint_authority(
            Mint::spec_decode(accounts[0].data),
            accounts[1].key,
            accounts[1].is_signer,
            new_authority,
        ) {
            Ok(mint) => Ok(accounts.update(0, accounts[0].with_record(Mint::spec_encode(mint)))),
            Err(e) => Err(e),
        }
    }
}

/// What `instruction` does to the accounts of a call.
pub open spec fn spec_process(
    program_id: Seq<u8>,
    accounts: Seq<AccountInfoView>,
    instruction: TokenInstructionView,
) -> Result<Seq<AccountInfoView>, ProgramError> {
    match instruction {
        TokenInstructionView::InitializeMint { decimals, mint_authority, freeze_authority } => {
            spec_process_initialize_mint(
                program_id,
                accounts,
                decimals,
                mint_authority,
                freeze_authority,
            )
        },
        TokenInstructionView::InitializeAccount => spec_process_initialize_account(
            program_id,
            accounts,
        ),
        TokenInstructionView::MintTo { amount } => spec_process_mint_to(accounts, amount),
        TokenInstructionView::Transfer { amount } => spec_process_transfer(accounts, amount),
        TokenInstructionView::Burn { amount } => spec_process_burn(accounts, amount),
        TokenInstructionView::SetMintAuthority { new_authority } => {
            spec_process_set_mint_authority(accounts, new_authority)
        },
    }
}

/// What the wire message `instruction_data` does to the accounts of a
/// call: a message that is no instruction is refused, any other does what
/// its instruction does.
pub open spec fn spec_process_instruction(
    program_id: Seq<u8>,
    accounts: Seq<AccountInfoView>,
    instruction_data: Seq<u8>,
) -> Result<Seq<AccountInfoView>, ProgramError> {
    match TokenInstruction::spec_decode(instruction_data) {
        Some(instruction) => spec_process(program_id, accounts, instruction),
        None => Err(ProgramError::Custom(TokenError::InvalidInstruction)),
    }
}

/// Writes `bytes` over the start of the buffer of the account at `place`.
fn write_record(accounts: &mut [AccountInfo], place: usize, bytes: &[u8])
    requires
        place < old(accounts)@.len(),
        bytes@.len() <= old(accounts)@[place as int].data@.len(),
    ensures
        final(accounts)@.len() == old(accounts)@.len(),
        final(accounts)@[place as int]@ == old(accounts)@[place as int]@.with_record(bytes@),
        forall|i: int|
            0 <= i < old(accounts)@.len() && i != place ==> final(accounts)@[i] == old(
                accounts,
            )@[i],
{
    write_prefix(&mut accounts[place].data, bytes);
}

/// Whether the first two accounts of a call are one account.
fn one_account_twice(accounts: &[AccountInfo]) -> (same: bool)
    requires
        accounts@.len() >= 2,
    ensures
        same == (accounts@[0].key@ == accounts@[1].key@),
{
    proof {
        Pubkey::lemma_view_injective(accounts[0].key, accounts[1].key);
    }
    accounts[0].key == accounts[1].key
}

/// Creates a mint in the first account.
pub fn process_initialize_mint(
    program_id: &Pubkey,
    accounts: &mut [AccountInfo],
    decimals: u8,
    mint_authority: Pubkey,
    freeze_authority: Option<Pubkey>,
) -> (outcome: Result<(), ProgramError>)
    ensures
        process_outcome(
            outcome,
            old(accounts)@,
            final(accounts)@,
            spec_process_initialize_mint(
                program_id@,
                spec_views(old(accounts)@),
                decimals,
                mint_authority@,
                spec_option_key_view(freeze_authority),
            ),
        ),
{
    if accounts.len() < 2 {
        return Err(ProgramError::NotEnoughAccountKeys);
    }
    proof {
        Pubkey::lemma_view_injective(accounts[0].owner, *program_id);
    }
    if accounts[0].owner != *program_id {
        return Err(ProgramError::IncorrectProgramId);
    }
    let rent_exempt = match accounts[1].rent_exempt {
        Some(fact) => fact,
        None => {
            return Err(ProgramError::InvalidArgument);
        },
    };
    let bytes = match initialize_mint(
        accounts[0].data.as_slice(),
        rent_exempt,
        decimals,
        mint_authority,
        freeze_authority,
    ) {
        Ok(bytes) => bytes,
        Err(e) => {
            return Err(e);
        },
    };
    let ghost before = spec_views(accounts@);
    write_record(accounts, 0, &bytes);
    assert(spec_views(accounts@) =~= before.update(0, before[0].with_record(bytes@)));
    Ok(())
}

/// Creates a token account in the first account, in the mint that the
/// second account is, for the owner that the third account is.
pub fn process_initialize_account(program_id: &Pubkey, accounts: &mut [AccountInfo]) -> (outcome:
    Result<(), ProgramError>)
    ensures
        process_outcome(
            outcome,
            old(accounts)@,
            final(accounts)@,
            spec_process_initialize_account(program_id@, spec_views(old(accounts)@)),
        ),
{
    if accounts.len() < 4 {
        return Err(ProgramError::NotEnoughAccountKeys);
    }
    proof {
        Pubkey::lemma_view_injective(accounts[0].owner, *program_id);
    }
    if accounts[0].owner != *program_id {
        return Err(ProgramError::IncorrectProgramId);
    }
    let rent_exempt = match accounts[3].rent_exempt {
        Some(fact) => fact,
        None => {
            return Err(ProgramError::InvalidArgument);
        },
    };
    let bytes = match initialize_account(
        accounts[0].data.as_slice(),
        &accounts[1].key,
        &accounts[2].key,
        rent_exempt,
    ) {
        Ok(bytes) => bytes,
        Err(e) => {
            return Err(e);
        },
    };
    let ghost before = spec_views(accounts@);
    write_record(accounts, 0, &bytes);
    assert(spec_views(accounts@) =~= before.update(0, before[0].with_record(bytes@)));
    Ok(())
}

/// Issues `amount` units of the mint in the first account to the token
/// account in the second, on the word of the third.
pub fn process_mint_to(accounts: &mut [AccountInfo], amount: u64) -> (outcome: Result<
    (),
    ProgramError,
>)
    ensures
        process_outcome(
            outcome,
            old(accounts)@,
            final(accounts)@,
            spec_process_mint_to(spec_views(old(accounts)@), amount),
        ),
{
    if accounts.len() < 3 {
        return Err(ProgramError::NotEnoughAccountKeys);
    }
    let (mint_bytes, account_bytes) = match mint_to(
        &accounts[0].key,
        accounts[0].data.as_slice(),
        accounts[1].data.as_slice(),
        &accounts[2].key,
        accounts[2].is_signer,
        amount,
    ) {
        Ok(bytes) => bytes,
        Err(e) => {
            return Err(e);
        },
    };
    if one_account_twice(accounts) {
        return Err(ProgramError::AccountBorrowFailed);
    }
    let ghost before = spec_views(accounts@);
    write_record(accounts, 0, &mint_bytes);
    write_record(accounts, 1, &account_bytes);
    assert(spec_views(accounts@) =~= before.update(0, before[0].with_record(mint_bytes@)).update(
        1,
        before[1].with_record(account_bytes@),
    ));
    Ok(())
}

/// Moves `amount` units from the token account in the first account to
/// the one in the second, on the word of the third.
pub fn process_transfer(accounts: &mut [AccountInfo], amount: u64) -> (outcome: Result<
    (),
    ProgramError,
>)
    ensures
        process_outcome(
            outcome,
            old(accounts)@,
            final(accounts)@,
            spec_process_transfer(spec_views(old(accounts)@), amount),
        ),
{
    if accounts.len() < 3 {
        return Err(ProgramError::NotEnoughAccountKeys);
    }
    let (source_bytes, destination_bytes) = match transfer(
        accounts[0].data.as_slice(),
        accounts[1].data.as_slice(),
        &accounts[2].key,
        accounts[2].is_signer,
        amount,
    ) {
        Ok(bytes) => bytes,
        Err(e) => {
            return Err(e);
        },
    };
    if one_account_twice(accounts) {
        return Err(ProgramError::AccountBorrowFailed);
    }
    let ghost before = spec_views(accounts@);
    write_record(accounts, 0, &source_bytes);
    write_record(accounts, 1, &destination_bytes);
    assert(spec_views(accounts@) =~= before.update(0, before[0].with_record(source_bytes@)).update(
        1,
        before[1].with_record(destination_bytes@),
    ));
    Ok(())
}

/// Destroys `amount` units held by the token account in the first
/// account, of the mint in the second, on the word of the third.
pub fn process_burn(accounts: &mut [AccountInfo], amount: u64) -> (outcome: Result<
    (),
    ProgramError,
>)
    ensures
        process_outcome(
            outcome,
            old(accounts)@,
            final(accounts)@,
            spec_process_burn(spec_views(old(accounts)@), amount),
        ),
{
    if accounts.len() < 3 {
        return Err(ProgramError::NotEnoughAccountKeys);
    }
    let (account_bytes, mint_bytes) = match burn(
        accounts[0].data.as_slice(),
        &accounts[1].key,
        accounts[1].data.as_slice(),
        &accounts[2].key,
        accounts[2].is_signer,
        amount,
    ) {
        Ok(bytes) => bytes,
        Err(e) => {
            return Err(e);
        },
    };
    if one_account_twice(accounts) {
        return Err(ProgramError::AccountBorrowFailed);
    }
    let ghost before = spec_views(accounts@);
    write_record(accounts, 0, &account_bytes);
    write_record(accounts, 1, &mint_bytes);
    assert(spec_views(accounts@) =~= before.update(0, before[0].with_record(account_bytes@)).update(
        1,
        before[1].with_record(mint_bytes@),
    ));
    Ok(())
}

/// Replaces the mint authority of the mint in the first account, on the
/// word of the second.
pub fn process_set_mint_authority(
    accounts: &mut [AccountInfo],
    new_authority: Option<Pubkey>,
) -> (outcome: Result<(), ProgramError>)
    ensures
        process_outcome(
            outcome,
            old(accounts)@,
            final(accounts)@,
            spec_process_set_mint_authority(
                spec_views(old(accounts)@),
                spec_option_key_view(new_authority),
            ),
        ),
{
    if accounts.len() < 2 {
        return Err(ProgramError::NotEnoughAccountKeys);
    }
    let bytes = match set_mint_authority(
        accounts[0].data.as_slice(),
        &accounts[1].key,
        accounts[1].is_signer,
        new_authority,
    ) {
        Ok(bytes) => bytes,
        Err(e) => {
            return Err(e);
        },
    };
    let ghost before = spec_views(accounts@);
    write_record(accounts, 0, &bytes);
    assert(spec_views(accounts@) =~= before.update(0, before[0].with_record(bytes@)));
    Ok(())
}

/// Runs one wire message against the accounts of a call. On failure no
/// account has changed.
pub fn process_instruction(
    program_id: &Pubkey,
    accounts: &mut [AccountInfo],
    instruction_data: &[u8],
) -> (outcome: Result<(), ProgramError>)
    ensures
        process_outcome(
            outcome,
            old(accounts)@,
            final(accounts)@,
            spec_process_instruction(program_id@, spec_views(old(accounts)@), instruction_data@),
        ),
{
    let instruction = match TokenInstruction::try_from_slice(instruction_data) {
        Ok(instruction) => instruction,
        Err(_) => {
            return Err(ProgramError::Custom(TokenError::InvalidInstruction));
        },
    };
    match instruction {
        TokenInstruction::InitializeMint { decimals, mint_authority, freeze_authority } => {
            process_initialize_mint(program_id, accounts, decimals, mint_authority, freeze_authority)
        },
        TokenInstruction::InitializeAccount => process_initialize_account(program_id, accounts),
        TokenInstruction::MintTo { amount } => process_mint_to(accounts, amount),
        TokenInstruction::Transfer { amount } => process_transfer(accounts, amount),
        TokenInstruction::Burn { amount } => process_burn(accounts, amount),
        TokenInstruction::SetMintAuthority { new_authority } => process_set_mint_authority(
            accounts,
            new_authority,
        ),
    }
}

/// The principal of a call did not sign, or is not the owner or the
/// authority that the record in the first account names.
pub open spec fn spec_signer_mismatch(
    accounts: Seq<AccountInfoView>,
    instruction: TokenInstructionView,
) -> bool {
    match instruction {
        TokenInstructionView::MintTo { .. } => {
            &&& accounts.len() >= 3
            &&& !accounts[2].is_signer || (Mint::spec_decode(accounts[0].data) matches Some(m)
                && m.mint_authority != Some(accounts[2].key))
        },
        TokenInstructionView::Transfer { .. } | TokenInstructionView::Burn { .. } => {
            &&& accounts.len() >= 3
            &&& !accounts[2].is_signer || (TokenAccount::spec_decode(accounts[0].data) matches Some(
                a,
            ) && a.owner != accounts[2].key)
        },
        TokenInstructionView::SetMintAuthority { .. } => {
            &&& accounts.len() >= 2
            &&& !accounts[1].is_signer || (Mint::spec_decode(accounts[0].data) matches Some(m)
                && m.mint_authority != Some(accounts[1].key))
        },
        _ => false,
    }
}

/// A call whose principal did not sign, or is not the one that the record
/// names, fails as unauthorized and changes no account, whatever the
/// amount and the other buffers.
pub proof fn lemma_unauthorized_call(
    got: Result<(), ProgramError>,
    before: Seq<AccountInfo>,
    after: Seq<AccountInfo>,
    program_id: Seq<u8>,
    instruction: TokenInstructionView,
)
    requires
        process_outcome(got, before, after, spec_process(program_id, spec_views(before), instruction)),
        spec_signer_mismatch(spec_views(before), instruction),
    ensures
        got == Err::<(), ProgramError>(ProgramError::Custom(TokenError::Unauthorized)),
        after == before,
{
}

/// The amount that `instruction` takes from the first account of its call.
pub open spec fn spec_debit(instruction: TokenInstructionView) -> int {
    match instruction {
        TokenInstructionView::Transfer { amount } => amount as int,
        TokenInstructionView::Burn { amount } => amount as int,
        _ => 0,
    }
}

/// A Transfer or a Burn of more than the first account holds, asked by
/// its owner while it is in use and not frozen, fails for want of funds
/// and changes no account.
pub proof fn lemma_insufficient_funds_call(
    got: Result<(), ProgramError>,
    before: Seq<AccountInfo>,
    after: Seq<AccountInfo>,
    program_id: Seq<u8>,
    instruction: TokenInstructionView,
)
    requires
        process_outcome(got, before, after, spec_process(program_id, spec_views(before), instruction)),
        before.len() >= 3,
        before[2].is_signer,
        TokenAccount::spec_decode(before[0].data@) matches Some(a) && a.owner == before[2].key@
            && a.is_initialized && !a.is_frozen && spec_debit(instruction) > a.amount,
    ensures
        got == Err::<(), ProgramError>(ProgramError::Custom(TokenError::InsufficientFunds)),
        after == before,
{
}

/// The host's word on whether the buffer that `instruction` creates a
/// record in is storage-eligible: that of the account in the place of the
/// rent sysvar, where the call has one.
pub open spec fn spec_rent_fact(
    accounts: Seq<AccountInfoView>,
    instruction: TokenInstructionView,
) -> Option<bool> {
    match instruction {
        TokenInstructionView::InitializeMint { .. } => if accounts.len() >= 2 {
            accounts[1].rent_exempt
        } else {
            None
        },
        TokenInstructionView::InitializeAccount => if accounts.len() >= 4 {
            accounts[3].rent_exempt
        } else {
            None
        },
        _ => None,
    }
}

/// An initialize call on a buffer of this program that the host judges not
/// storage-eligible fails with `NotRentExempt` and changes no account,
/// whatever the buffer holds and whatever is asked for.
pub proof fn lemma_not_rent_exempt_call(
    got: Result<(), ProgramError>,
    before: Seq<AccountInfo>,
    after: Seq<AccountInfo>,
    program_id: Seq<u8>,
    instruction: TokenInstructionView,
)
    requires
        process_outcome(got, before, after, spec_process(program_id, spec_views(before), instruction)),
        spec_rent_fact(spec_views(before), instruction) == Some(false),
        before[0].owner@ == program_id,
    ensures
        got == Err::<(), ProgramError>(ProgramError::Custom(TokenError::NotRentExempt)),
        after == before,
{
}

/// A call that would write one account in two places fails and changes
/// no account: where the first two accounts of a MintTo, a Transfer or a
/// Burn have one key, the call does not succeed.
pub proof fn lemma_one_account_twice_call(
    got: Result<(), ProgramError>,
    before: Seq<AccountInfo>,
    after: Seq<AccountInfo>,
    program_id: Seq<u8>,
    instruction: TokenInstructionView,
)
    requires
        process_outcome(got, before, after, spec_process(program_id, spec_views(before), instruction)),
        instruction is MintTo || instruction is Transfer || instruction is Burn,
        before.len() >= 2,
        before[0].key@ == before[1].key@,
    ensures
        got is Err,
        after == before,
{
}

/// What a successful InitializeMint leaves behind: the first buffer reads
/// back as the new mint, and no other account has changed.
pub proof fn lemma_initialize_mint_call(
    program_id: Seq<u8>,
    accounts: Seq<AccountInfoView>,
    decimals: u8,
    mint_authority: Seq<u8>,
    freeze_authority: Option<Seq<u8>>,
)
    requires
        mint_authority.len() == 32,
        freeze_authority matches Some(k) ==> k.len() == 32,
    ensures
        spec_process_initialize_mint(
            program_id,
            accounts,
            decimals,
            mint_authority,
            freeze_authority,
        ) matches Ok(after) ==> {
            &&& after.len() == accounts.len()
            &&& Mint::spec_decode(after[0].data) == Some(
                MintView {
                    is_initialized: true,
                    decimals,
                    mint_authority: Some(mint_authority),
                    supply: 0,
                    freeze_authority,
                },
            )
            &&& forall|i: int| 1 <= i < accounts.len() ==> after[i] == accounts[i]
        },
{
    if accounts.len() >= 2 && accounts[0].data.len() >= 76 {
        Mint::lemma_written_reads_back(
            accounts[0].data,
            MintView {
                is_initialized: true,
                decimals,
                mint_authority: Some(mint_authority),
                supply: 0,
                freeze_authority,
            },
        );
    }
}

/// What a successful InitializeAccount leaves behind: the first buffer
/// reads back as the new token account, and no other account has changed.
pub proof fn lemma_initialize_account_call(program_id: Seq<u8>, accounts: Seq<AccountInfoView>)
    requires
        forall|i: int| 0 <= i < accounts.len() ==> (#[trigger] accounts[i]).key.len() == 32,
    ensures
        spec_process_initialize_account(program_id, accounts) matches Ok(after) ==> {
            &&& after.len() == accounts.len()
            &&& TokenAccount::spec_decode(after[0].data) == Some(
                TokenAccountView {
                    is_initialized: true,
                    mint: accounts[1].key,
                    owner: accounts[2].key,
                    amount: 0,
                    is_frozen: false,
                },
            )
            &&& forall|i: int| 1 <= i < accounts.len() ==> after[i] == accounts[i]
        },
{
    if accounts.len() >= 4 && accounts[0].data.len() >= 74 {
        TokenAccount::lemma_written_reads_back(
            accounts[0].data,
            TokenAccountView {
                is_initialized: true,
                mint: accounts[1].key,
                owner: accounts[2].key,
                amount: 0,
                is_frozen: false,
            },
        );
    }
}

/// What a successful MintTo leaves behind: the first two accounts are two
/// accounts, their buffers read back as the records that the operation
/// gives, and no other account has changed.
pub proof fn lemma_mint_to_call(accounts: Seq<AccountInfoView>, amount: u64)
    ensures
        spec_process_mint_to(accounts, amount) matches Ok(after) ==> {
            &&& after.len() == accounts.len()
            &&& accounts[0].key != accounts[1].key
            &&& spec_mint_to(
                Mint::spec_decode(accounts[0].data),
                TokenAccount::spec_decode(accounts[1].data),
                accounts[0].key,
                accounts[2].key,
                accounts[2].is_signer,
                amount,
            ) == Ok::<(MintView, TokenAccountView), ProgramError>(
                (
                    Mint::spec_decode(after[0].data)->0,
                    TokenAccount::spec_decode(after[1].data)->0,
                ),
            )
            &&& Mint::spec_decode(after[0].data) is Some
            &&& TokenAccount::spec_decode(after[1].data) is Some
            &&& forall|i: int| 2 <= i < accounts.len() ==> after[i] == accounts[i]
        },
{
    if accounts.len() >= 3 {
        let records = spec_mint_to(
            Mint::spec_decode(accounts[0].data),
            TokenAccount::spec_decode(accounts[1].data),
            accounts[0].key,
            accounts[2].key,
            accounts[2].is_signer,
            amount,
        );
        if records is Ok {
            Mint::lemma_decode_wf(accounts[0].data);
            TokenAccount::lemma_decode_wf(accounts[1].data);
            Mint::lemma_written_reads_back(accounts[0].data, records->Ok_0.0);
            TokenAccount::lemma_written_reads_back(accounts[1].data, records->Ok_0.1);
        }
    }
}

/// What a successful Transfer leaves behind: the first two accounts are
/// two accounts, their buffers read back as the records that the operation
/// gives, and no other account has changed.
pub proof fn lemma_transfer_call(accounts: Seq<AccountInfoView>, amount: u64)
    ensures
        spec_process_transfer(accounts, amount) matches Ok(after) ==> {
            &&& after.len() == accounts.len()
            &&& accounts[0].key != accounts[1].key
            &&& spec_transfer(
                TokenAccount::spec_decode(accounts[0].data),
                TokenAccount::spec_decode(accounts[1].data),
                accounts[2].key,
                accounts[2].is_signer,
                amount,
            ) == Ok::<(TokenAccountView, TokenAccountView), ProgramError>(
                (
                    TokenAccount::spec_decode(after[0].data)->0,
                    TokenAccount::spec_decode(after[1].data)->0,
                ),
            )
            &&& TokenAccount::spec_decode(after[0].data) is Some
            &&& TokenAccount::spec_decode(after[1].data) is Some
            &&& forall|i: int| 2 <= i < accounts.len() ==> after[i] == accounts[i]
        },
{
    if accounts.len() >= 3 {
        let records = spec_transfer(
            TokenAccount::spec_decode(accounts[0].data),
            TokenAccount::spec_decode(accounts[1].data),
            accounts[2].key,
            accounts[2].is_signer,
            amount,
        );
        if records is Ok {
            TokenAccount::lemma_decode_wf(accounts[0].data);
            TokenAccount::lemma_decode_wf(accounts[1].data);
            TokenAccount::lemma_written_reads_back(accounts[0].data, records->Ok_0.0);
            TokenAccount::lemma_written_reads_back(accounts[1].data, records->Ok_0.1);
        }
    }
}

/// What a successful Burn leaves behind: the first two accounts are two
/// accounts, their buffers read back as the records that the operation
/// gives, and no other account has changed.
pub proof fn lemma_burn_call(accounts: Seq<AccountInfoView>, amount: u64)
    ensures
        spec_process_burn(accounts, amount) matches Ok(after) ==> {
            &&& after.len() == accounts.len()
            &&& accounts[0].key != accounts[1].key
            &&& spec_burn(
                TokenAccount::spec_decode(accounts[0].data),
                Mint::spec_decode(accounts[1].data),
                accounts[1].key,
                accounts[2].key,
                accounts[2].is_signer,
                amount,
            ) == Ok::<(TokenAccountView, MintView), ProgramError>(
                (
                    TokenAccount::spec_decode(after[0].data)->0,
                    Mint::spec_decode(after[1].data)->0,
                ),
            )
            &&& TokenAccount::spec_decode(after[0].data) is Some
            &&& Mint::spec_decode(after[1].data) is Some
            &&& forall|i: int| 2 <= i < accounts.len() ==> after[i] == accounts[i]
        },
{
    if accounts.len() >= 3 {
        let records = spec_burn(
            TokenAccount::spec_decode(accounts[0].data),
            Mint::spec_decode(accounts[1].data),
            accounts[1].key,
            accounts[2].key,
            accounts[2].is_signer,
            amount,
        );
        if records is Ok {
            TokenAccount::lemma_decode_wf(accounts[0].data);
            Mint::lemma_decode_wf(accounts[1].data);
            TokenAccount::lemma_written_reads_back(accounts[0].data, records->Ok_0.0);
            Mint::lemma_written_reads_back(accounts[1].data, records->Ok_0.1);
        }
    }
}

/// What a successful SetMintAuthority leaves behind: the first buffer
/// reads back as the mint under its new authority, and no other account
/// has changed.
pub proof fn lemma_set_mint_authority_call(
    accounts: Seq<AccountInfoView>,
    new_authority: Option<Seq<u8>>,
)
    requires
        new_authority matches Some(k) ==> k.len() == 32,
    ensures
        spec_process_set_mint_authority(accounts, new_authority) matches Ok(after) ==> {
            &&& after.len() == accounts.len()
            &&& Mint::spec_decode(accounts[0].data) is Some
            &&& Mint::spec_decode(after[0].data) == Some(
                MintView {
                    mint_authority: new_authority,
                    ..Mint::spec_decode(accounts[0].data)->0
                },
            )
            &&& forall|i: int| 1 <= i < accounts.len() ==> after[i] == accounts[i]
        },
{
    if accounts.len() >= 2 {
        let record = spec_set_mint_authority(
            Mint::spec_decode(accounts[0].data),
            accounts[1].key,
            accounts[1].is_signer,
            new_authority,
        );
        if record is Ok {
            Mint::lemma_decode_wf(accounts[0].data);
            Mint::lemma_written_reads_back(accounts[0].data, record->Ok_0);
        }
    }
}

} // verus!
