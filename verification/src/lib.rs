//! A fungible-token ledger: the byte formats of mint and token-account
//! records and of the instructions, and the rules by which an instruction
//! changes the records, each function with a verified contract.

pub mod codec;
pub mod error;
pub mod instruction;
pub mod ledger;
pub mod processor;
pub mod pubkey;
pub mod state;
pub mod transition;

pub use crate::error::{DecodeError, ProgramError, TokenError};
pub use crate::instruction::{serialize_token_instruction, TokenInstruction, TokenInstructionView};
pub use crate::processor::{process_instruction, AccountInfo, AccountInfoView};
pub use crate::pubkey::Pubkey;
pub use crate::state::{Mint, MintView, TokenAccount, TokenAccountView};
