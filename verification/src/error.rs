use vstd::prelude::*;
use vstd::std_specs::convert::FromSpecImpl;

verus! {

/// Bytes that do not spell a record or a wire message.
#[derive(Debug, Clone, Copy, PartialEq, Eq)]
pub struct DecodeError;

/// Why the token rules refused an operation.
#[derive(Debug, Clone, Copy, PartialEq, Eq)]
pub enum TokenError {
    /// The wire message has an unknown tag, or is too short or too long.
    InvalidInstruction,
    /// The buffer to initialize is not storage-eligible.
    NotRentExempt,
    /// A debit asks for more than the balance.
    InsufficientFunds,
    /// The signer is missing, or is not the recorded owner or authority.
    Unauthorized,
    /// A token account belongs to another mint than the one in play.
    MintMismatch,
    /// The token account is frozen.
    AccountFrozen,
}

impl TokenError {
    /// The error's number: its place in the list of the token errors.
    pub open spec fn spec_code(self) -> u32 {
        match self {
            TokenError::InvalidInstruction => 0,
            TokenError::NotRentExempt => 1,
            TokenError::InsufficientFunds => 2,
            TokenError::Unauthorized => 3,
            TokenError::MintMismatch => 4,
            TokenError::AccountFrozen => 5,
        }
    }

    /// The number under which a host reports this error.
    pub fn code(&self) -> (code: u32)
        ensures
            code == self.spec_code(),
    {
        match self {
            TokenError::InvalidInstruction => 0,
            TokenError::NotRentExempt => 1,
            TokenError::InsufficientFunds => 2,
            TokenError::Unauthorized => 3,
            TokenError::MintMismatch => 4,
            TokenError::AccountFrozen => 5,
        }
    }
}

/// Every way in which an operation can fail.
#[derive(Debug, Clone, Copy, PartialEq, Eq)]
pub enum ProgramError {
    /// One of the token rules was broken.
    Custom(TokenError),
    /// A fact that the operation needs was not supplied.
    InvalidArgument,
    /// A record buffer does not decode, or is too small for the record.
    InvalidAccountData,
    /// The buffer to initialize belongs to another program.
    IncorrectProgramId,
    /// Fewer accounts were passed than the operation has roles.
    NotEnoughAccountKeys,
    /// The record was never initialized.
    UninitializedAccount,
    /// The record to initialize is already in use.
    AccountAlreadyInitialized,
    /// A balance or a supply would leave the 64-bit range.
    ArithmeticOverflow,
    /// One account stands in both places that the operation writes.
    AccountBorrowFailed,
}

impl From<TokenError> for ProgramError {
    /// A token error as one of the failures of an operation.
    fn from(e: TokenError) -> (error: ProgramError) {
        ProgramError::Custom(e)
    }
}

impl FromSpecImpl<TokenError> for ProgramError {
    open spec fn obeys_from_spec() -> bool {
        true
    }

    open spec fn from_spec(e: TokenError) -> ProgramError {
        ProgramError::Custom(e)
    }
}

} // verus!
