use vstd::prelude::*;
use crate::error::ProgramError;
use crate::state::{MintView, TokenAccountView};
use crate::transition::{
    lemma_effect, spec_burn, spec_initialize_account, spec_initialize_mint, spec_mint_to,
    spec_set_mint_authority, spec_transfer,
};

verus! {

/// A set of records: the mint records by their keys, and the token
/// account records in some order. A record that is not in use is one with
/// `is_initialized` false.
pub struct Ledger {
    pub mints: Map<Seq<u8>, MintView>,
    pub accounts: Seq<TokenAccountView>,
}

/// One operation on the records of a ledger. A mint record is named by
/// its key, a token account record by its place.
pub enum LedgerOp {
    InitializeMint {
        mint: Seq<u8>,
        rent_exempt: bool,
        decimals: u8,
        mint_authority: Seq<u8>,
        freeze_authority: Option<Seq<u8>>,
    },
    InitializeAccount { account: int, mint: Seq<u8>, owner: Seq<u8>, rent_exempt: bool },
    MintTo { mint: Seq<u8>, account: int, authority: Seq<u8>, is_signer: bool, amount: u64 },
    Transfer { source: int, destination: int, owner: Seq<u8>, is_signer: bool, amount: u64 },
    Burn { account: int, mint: Seq<u8>, owner: Seq<u8>, is_signer: bool, amount: u64 },
    SetMintAuthority {
        mint: Seq<u8>,
        authority: Seq<u8>,
        is_signer: bool,
        new_authority: Option<Seq<u8>>,
    },
}

/// What `account` holds of the mint `mint`: its balance where it is in
/// use and belongs to that mint, nothing otherwise.
pub open spec fn spec_holding(account: TokenAccountView, mint: Seq<u8>) -> int {
    if account.is_initialized && account.mint == mint {
        account.amount as int
    } else {
        0
    }
}

/// What all of `accounts` together hold of the mint `mint`.
pub open spec fn spec_held(accounts: Seq<TokenAccountView>, mint: Seq<u8>) -> int
    decreases accounts.len(),
{
    if accounts.len() == 0 {
        0
    } else {
        spec_held(accounts.drop_last(), mint) + spec_holding(accounts.last(), mint)
    }
}

impl Ledger {
    /// The supply of the mint `mint`: that of its record where there is
    /// one in use, nothing otherwise.
    pub open spec fn supply(self, mint: Seq<u8>) -> int {
        if self.mints.dom().contains(mint) && self.mints[mint].is_initialized {
            self.mints[mint].supply as int
        } else {
            0
        }
    }

    /// Conservation: of every mint, the supply is what the token accounts
    /// hold of it.
    pub open spec fn conserved(self) -> bool {
        forall|mint: Seq<u8>| #[trigger] self.supply(mint) == spec_held(self.accounts, mint)
    }

    /// The ledger after `op`. An operation that fails, or that names a
    /// record that is not there, or one token account twice, changes
    /// nothing.
    pub open spec fn apply(self, op: LedgerOp) -> Ledger {
        match op {
            LedgerOp::InitializeMint {
                mint,
                rent_exempt,
                decimals,
                mint_authority,
                freeze_authority,
            } => {
                if self.mints.dom().contains(mint) {
                    match spec_initialize_mint(
                        Some(self.mints[mint]),
                        rent_exempt,
                        decimals,
                        mint_authority,
                        freeze_authority,
                    ) {
                        Ok(m) => Ledger { mints: self.mints.insert(mint, m), ..self },
                        Err(_) => self,
                    }
                } else {
                    self
                }
            },
            LedgerOp::InitializeAccount { account, mint, owner, rent_exempt } => {
                if 0 <= account < self.accounts.len() {
                    match spec_initialize_account(
                        Some(self.accounts[account]),
                        mint,
                        owner,
                        rent_exempt,
                    ) {
                        Ok(a) => Ledger { accounts: self.accounts.update(account, a), ..self },
                        Err(_) => self,
                    }
                } else {
                    self
                }
            },
            LedgerOp::MintTo { mint, account, authority, is_signer, amount } => {
                if self.mints.dom().contains(mint) && 0 <= account < self.accounts.len() {
                    match spec_mint_to(
                        Some(self.mints[mint]),
                        Some(self.accounts[account]),
                        mint,
                        authority,
                        is_signer,
                        amount,
                    ) {
                        Ok((m, a)) => Ledger {
                            mints: self.mints.insert(mint, m),
                            accounts: self.accounts.update(account, a),
                        },
                        Err(_) => self,
                    }
                } else {
                    self
                }
            },
            LedgerOp::Transfer { source, destination, owner, is_signer, amount } => {
                if 0 <= source < self.accounts.len() && 0 <= destination < self.accounts.len()
                    && source != destination {
                    match spec_transfer(
                        Some(self.accounts[source]),
                        Some(self.accounts[destination]),
                        owner,
                        is_signer,
                        amount,
                    ) {
                        Ok((s, d)) => Ledger {
                            accounts: self.accounts.update(source, s).update(destination, d),
                            ..self
                        },
                        Err(_) => self,
                    }
                } else {
                    self
                }
            },
            LedgerOp::Burn { account, mint, owner, is_signer, amount } => {
                if self.mints.dom().contains(mint) && 0 <= account < self.accounts.len() {
                    match spec_burn(
                        Some(self.accounts[account]),
                        Some(self.mints[mint]),
                        mint,
                        owner,
                        is_signer,
                        amount,
                    ) {
                        Ok((a, m)) => Ledger {
                            mints: self.mints.insert(mint, m),
                            accounts: self.accounts.update(account, a),
                        },
                        Err(_) => self,
                    }
                } else {
                    self
                }
            },
            LedgerOp::SetMintAuthority { mint, authority, is_signer, new_authority } => {
                if self.mints.dom().contains(mint) {
                    match spec_set_mint_authority(
                        Some(self.mints[mint]),
                        authority,
                        is_signer,
                        new_authority,
                    ) {
                        Ok(m) => Ledger { mints: self.mints.insert(mint, m), ..self },
                        Err(_) => self,
                    }
                } else {
                    self
                }
            },
        }
    }

    /// The ledger after the operations `ops`, one after the other.
    pub open spec fn apply_all(self, ops: Seq<LedgerOp>) -> Ledger
        decreases ops.len(),
    {
        if ops.len() == 0 {
            self
        } else {
            self.apply_all(ops.drop_last()).apply(ops.last())
        }
    }

    /// One operation keeps conservation.
    pub proof fn lemma_apply_conserves(self, op: LedgerOp)
        requires
            self.conserved(),
        ensures
            self.apply(op).conserved(),
    {
        let after = self.apply(op);
        assert forall|k: Seq<u8>| #[trigger] after.supply(k) == spec_held(after.accounts, k) by {
            assert(self.supply(k) == spec_held(self.accounts, k));
            match op {
                LedgerOp::InitializeMint { .. } => {},
                LedgerOp::InitializeAccount { account, .. } => {
                    if 0 <= account < self.accounts.len() {
                        lemma_held_update(self.accounts, account, after.accounts[account], k);
                    }
                },
                LedgerOp::MintTo { mint, account, authority, is_signer, amount } => {
                    if self.mints.dom().contains(mint) && 0 <= account < self.accounts.len() {
                        lemma_effect(
                            Some(self.mints[mint]),
                            Some(self.accounts[account]),
                            None,
                            mint,
                            authority,
                            is_signer,
                            amount,
                        );
                        lemma_held_update(self.accounts, account, after.accounts[account], k);
                    }
                },
                LedgerOp::Transfer { source, destination, owner, is_signer, amount } => {
                    if 0 <= source < self.accounts.len() && 0 <= destination
                        < self.accounts.len() && source != destination {
                        lemma_effect(
                            None,
                            Some(self.accounts[source]),
                            Some(self.accounts[destination]),
                            k,
                            owner,
                            is_signer,
                            amount,
                        );
                        let mid = self.accounts.update(source, after.accounts[source]);
                        lemma_held_update(self.accounts, source, after.accounts[source], k);
                        lemma_held_update(mid, destination, after.accounts[destination], k);
                    }
                },
                LedgerOp::Burn { account, mint, owner, is_signer, amount } => {
                    if self.mints.dom().contains(mint) && 0 <= account < self.accounts.len() {
                        lemma_effect(
                            Some(self.mints[mint]),
                            Some(self.accounts[account]),
                            None,
                            mint,
                            owner,
                            is_signer,
                            amount,
                        );
                        lemma_held_update(self.accounts, account, after.accounts[account], k);
                    }
                },
                LedgerOp::SetMintAuthority { .. } => {},
            }
        }
    }

    /// Conservation holds after any sequence of operations on a set of
    /// records in which it held: the supply of every mint is still what
    /// the token accounts hold of it.
    pub proof fn lemma_conservation(self, ops: Seq<LedgerOp>)
        requires
            self.conserved(),
        ensures
            self.apply_all(ops).conserved(),
        decreases ops.len(),
    {
        if ops.len() > 0 {
            self.lemma_conservation(ops.drop_last());
            self.apply_all(ops.drop_last()).lemma_apply_conserves(ops.last());
        }
    }

    /// Where conservation holds, the supply bounds what any two token
    /// accounts of a mint hold together, so no Transfer is refused for the
    /// 64-bit range.
    pub proof fn lemma_transfer_in_range(
        self,
        source: int,
        destination: int,
        owner: Seq<u8>,
        is_signer: bool,
        amount: u64,
    )
        requires
            self.conserved(),
            0 <= source < self.accounts.len(),
            0 <= destination < self.accounts.len(),
            source != destination,
        ensures
            spec_transfer(
                Some(self.accounts[source]),
                Some(self.accounts[destination]),
                owner,
                is_signer,
                amount,
            ) != Err::<(TokenAccountView, TokenAccountView), ProgramError>(
                ProgramError::ArithmeticOverflow,
            ),
    {
        let mint = self.accounts[source].mint;
        assert(self.supply(mint) == spec_held(self.accounts, mint));
        lemma_two_holdings_bound(self.accounts, source, destination, mint);
    }

    /// Where conservation holds, the supply of a mint is at least what any
    /// token account holds of it, so no Burn is refused for the 64-bit
    /// range.
    pub proof fn lemma_burn_in_range(
        self,
        account: int,
        mint: Seq<u8>,
        owner: Seq<u8>,
        is_signer: bool,
        amount: u64,
    )
        requires
            self.conserved(),
            0 <= account < self.accounts.len(),
            self.mints.dom().contains(mint),
        ensures
            spec_burn(
                Some(self.accounts[account]),
                Some(self.mints[mint]),
                mint,
                owner,
                is_signer,
                amount,
            ) != Err::<(TokenAccountView, MintView), ProgramError>(ProgramError::ArithmeticOverflow),
    {
        assert(self.supply(mint) == spec_held(self.accounts, mint));
        lemma_holding_bound(self.accounts, account, mint);
    }
}

/// What accounts hold of a mint is never negative.
pub proof fn lemma_held_nonnegative(accounts: Seq<TokenAccountView>, mint: Seq<u8>)
    ensures
        spec_held(accounts, mint) >= 0,
    decreases accounts.len(),
{
    if accounts.len() > 0 {
        lemma_held_nonnegative(accounts.drop_last(), mint);
    }
}

/// What one account holds of a mint is part of what all hold of it.
pub proof fn lemma_holding_bound(accounts: Seq<TokenAccountView>, place: int, mint: Seq<u8>)
    requires
        0 <= place < accounts.len(),
    ensures
        0 <= spec_holding(accounts[place], mint) <= spec_held(accounts, mint),
{
    let unused = TokenAccountView { is_initialized: false, ..accounts[place] };
    lemma_held_update(accounts, place, unused, mint);
    lemma_held_nonnegative(accounts.update(place, unused), mint);
}

/// What two accounts hold of a mint is part of what all hold of it.
pub proof fn lemma_two_holdings_bound(
    accounts: Seq<TokenAccountView>,
    first: int,
    second: int,
    mint: Seq<u8>,
)
    requires
        0 <= first < accounts.len(),
        0 <= second < accounts.len(),
        first != second,
    ensures
        spec_holding(accounts[first], mint) + spec_holding(accounts[second], mint) <= spec_held(
            accounts,
            mint,
        ),
{
    let unused = TokenAccountView { is_initialized: false, ..accounts[first] };
    lemma_held_update(accounts, first, unused, mint);
    lemma_holding_bound(accounts.update(first, unused), second, mint);
}

/// Replacing one account changes what is held of a mint by the difference
/// of the two holdings.
pub proof fn lemma_held_update(
    accounts: Seq<TokenAccountView>,
    place: int,
    account: TokenAccountView,
    mint: Seq<u8>,
)
    requires
        0 <= place < accounts.len(),
    ensures
        spec_held(accounts.update(place, account), mint) == spec_held(accounts, mint)
            - spec_holding(accounts[place], mint) + spec_holding(account, mint),
    decreases accounts.len(),
{
    let updated = accounts.update(place, account);
    if place == accounts.len() - 1 {
        assert(updated.drop_last() =~= accounts.drop_last());
    } else {
        lemma_held_update(accounts.drop_last(), place, account, mint);
        assert(updated.drop_last() =~= accounts.drop_last().update(place, account));
    }
}

} // verus!
