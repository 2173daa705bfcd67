use vstd::prelude::*;
use crate::codec::{
    lemma_option_key_round_trip, lemma_option_key_view, lemma_u64_round_trip, read_key,
    read_option_key, read_u64, spec_option_key_from_bytes, spec_option_key_to_bytes,
    spec_option_key_view, spec_u64_from_le, spec_u64_to_le, write_key, write_option_key,
    write_u64,
};
use crate::error::DecodeError;
use crate::pubkey::Pubkey;

verus! {

/// What a caller can ask of the ledger.
#[derive(Debug, Clone, Copy, PartialEq, Eq)]
pub enum TokenInstruction {
    /// Create a mint. Accounts: the mint, the rent sysvar.
    InitializeMint { decimals: u8, mint_authority: Pubkey, freeze_authority: Option<Pubkey> },
    /// Create a token account. Accounts: the token account, its mint, its
    /// owner, the rent sysvar.
    InitializeAccount,
    /// Issue new units. Accounts: the mint, the token account that
    /// receives them, the mint authority (signer).
    MintTo { amount: u64 },
    /// Move units. Accounts: the source, the destination, the owner of the
    /// source (signer).
    Transfer { amount: u64 },
    /// Destroy units. Accounts: the token account, the mint, the owner of
    /// the token account (signer).
    Burn { amount: u64 },
    /// Hand the right to mint on, or give it up. Accounts: the mint, the
    /// current mint authority (signer).
    SetMintAuthority { new_authority: Option<Pubkey> },
}

/// The mathematical content of a [`TokenInstruction`].
pub enum TokenInstructionView {
    InitializeMint { decimals: u8, mint_authority: Seq<u8>, freeze_authority: Option<Seq<u8>> },
    InitializeAccount,
    MintTo { amount: u64 },
    Transfer { amount: u64 },
    Burn { amount: u64 },
    SetMintAuthority { new_authority: Option<Seq<u8>> },
}

impl TokenInstructionView {
    /// Every key in the payload has 32 bytes.
    pub open spec fn wf(self) -> bool {
        match self {
            TokenInstructionView::InitializeMint { mint_authority, freeze_authority, .. } => {
                &&& mint_authority.len() == 32
                &&& freeze_authority matches Some(k) ==> k.len() == 32
            },
            TokenInstructionView::SetMintAuthority { new_authority } => {
                new_authority matches Some(k) ==> k.len() == 32
            },
            _ => true,
        }
    }
}

impl View for TokenInstruction {
    type V = TokenInstructionView;

    open spec fn view(&self) -> TokenInstructionView {
        match *self {
            TokenInstruction::InitializeMint { decimals, mint_authority, freeze_authority } => {
                TokenInstructionView::InitializeMint {
                    decimals,
                    mint_authority: mint_authority@,
                    freeze_authority: spec_option_key_view(freeze_authority),
                }
            },
            TokenInstruction::InitializeAccount => TokenInstructionView::InitializeAccount,
            TokenInstruction::MintTo { amount } => TokenInstructionView::MintTo { amount },
            TokenInstruction::Transfer { amount } => TokenInstructionView::Transfer { amount },
            TokenInstruction::Burn { amount } => TokenInstructionView::Burn { amount },
            TokenInstruction::SetMintAuthority { new_authority } => {
                TokenInstructionView::SetMintAuthority {
                    new_authority: spec_option_key_view(new_authority),
                }
            },
        }
    }
}

impl TokenInstruction {
    /// The wire message: a tag byte, then the payload with nothing between
    /// or behind its fields.
    pub open spec fn spec_encode(v: TokenInstructionView) -> Seq<u8> {
        match v {
            TokenInstructionView::InitializeMint { decimals, mint_authority, freeze_authority } => {
                seq![0u8, decimals] + mint_authority + spec_option_key_to_bytes(freeze_authority)
            },
            TokenInstructionView::InitializeAccount => seq![1u8],
            TokenInstructionView::MintTo { amount } => seq![2u8] + spec_u64_to_le(amount),
            TokenInstructionView::Transfer { amount } => seq![3u8] + spec_u64_to_le(amount),
            TokenInstructionView::Burn { amount } => seq![4u8] + spec_u64_to_le(amount),
            TokenInstructionView::SetMintAuthority { new_authority } => {
                seq![5u8] + spec_option_key_to_bytes(new_authority)
            },
        }
    }

    /// The length of the wire message that starts with `tag`, if `tag` is
    /// one of the six.
    pub open spec fn spec_wire_len(tag: u8) -> Option<nat> {
        if tag == 0 {
            Some(67)
        } else if tag == 1 {
            Some(1)
        } else if tag == 2 || tag == 3 || tag == 4 {
            Some(9)
        } else if tag == 5 {
            Some(34)
        } else {
            None
        }
    }

    /// The instruction that `s` spells, if it spells one: the tag is
    /// known, `s` is exactly as long as that tag's message, and a presence
    /// byte in it is 0 or 1.
    pub open spec fn spec_decode(s: Seq<u8>) -> Option<TokenInstructionView> {
        if s.len() == 0 || TokenInstruction::spec_wire_len(s[0]) != Some(s.len()) {
            None
        } else if s[0] == 0 {
            match spec_option_key_from_bytes(s.subrange(34, 67)) {
                Some(freeze_authority) => Some(
                    TokenInstructionView::InitializeMint {
                        decimals: s[1],
                        mint_authority: s.subrange(2, 34),
                        freeze_authority,
                    },
                ),
                None => None,
            }
        } else if s[0] == 1 {
            Some(TokenInstructionView::InitializeAccount)
        } else if s[0] == 2 {
            Some(TokenInstructionView::MintTo { amount: spec_u64_from_le(s.subrange(1, 9)) })
        } else if s[0] == 3 {
            Some(TokenInstructionView::Transfer { amount: spec_u64_from_le(s.subrange(1, 9)) })
        } else if s[0] == 4 {
            Some(TokenInstructionView::Burn { amount: spec_u64_from_le(s.subrange(1, 9)) })
        } else {
            match spec_option_key_from_bytes(s.subrange(1, 34)) {
                Some(new_authority) => Some(TokenInstructionView::SetMintAuthority { new_authority }),
                None => None,
            }
        }
    }

    /// Reads an instruction from a wire message. The whole of `data` must
    /// be the message.
    pub fn try_from_slice(data: &[u8]) -> (decoded: Result<TokenInstruction, DecodeError>)
        ensures
            match decoded {
                Ok(instruction) => TokenInstruction::spec_decode(data@) == Some(instruction@),
                Err(_) => TokenInstruction::spec_decode(data@) is None,
            },
    {
        if data.len() == 0 {
            return Err(DecodeError);
        }
        let tag = data[0];
        if tag == 0 {
            if data.len() != 67 {
                return Err(DecodeError);
            }
            let mint_authority = read_key(data, 2);
            match read_option_key(data, 34) {
                Ok(freeze_authority) => Ok(
                    TokenInstruction::InitializeMint {
                        decimals: data[1],
                        mint_authority,
                        freeze_authority,
                    },
                ),
                Err(e) => Err(e),
            }
        } else if tag == 1 {
            if data.len() != 1 {
                return Err(DecodeError);
            }
            Ok(TokenInstruction::InitializeAccount)
        } else if tag == 2 || tag == 3 || tag == 4 {
            if data.len() != 9 {
                return Err(DecodeError);
            }
            let amount = read_u64(data, 1);
            if tag == 2 {
                Ok(TokenInstruction::MintTo { amount })
            } else if tag == 3 {
                Ok(TokenInstruction::Transfer { amount })
            } else {
                Ok(TokenInstruction::Burn { amount })
            }
        } else if tag == 5 {
            if data.len() != 34 {
                return Err(DecodeError);
            }
            match read_option_key(data, 1) {
                Ok(new_authority) => Ok(TokenInstruction::SetMintAuthority { new_authority }),
                Err(e) => Err(e),
            }
        } else {
            Err(DecodeError)
        }
    }

    /// A wire message read back is the instruction that was written.
    pub proof fn lemma_round_trip(v: TokenInstructionView)
        requires
            v.wf(),
        ensures
            TokenInstruction::spec_decode(TokenInstruction::spec_encode(v)) == Some(v),
    {
        let s = TokenInstruction::spec_encode(v);
        match v {
            TokenInstructionView::InitializeMint { mint_authority, freeze_authority, .. } => {
                lemma_option_key_round_trip(freeze_authority);
                assert(s.subrange(2, 34) =~= mint_authority);
                assert(s.subrange(34, 67) =~= spec_option_key_to_bytes(freeze_authority));
            },
            TokenInstructionView::InitializeAccount => {},
            TokenInstructionView::MintTo { amount }
            | TokenInstructionView::Transfer { amount }
            | TokenInstructionView::Burn { amount } => {
                lemma_u64_round_trip(amount);
            },
            TokenInstructionView::SetMintAuthority { new_authority } => {
                lemma_option_key_round_trip(new_authority);
                assert(s.subrange(1, 34) =~= spec_option_key_to_bytes(new_authority));
            },
        }
    }

    /// The model of an instruction is well formed, and two instructions
    /// with one model are the same instruction.
    pub proof fn lemma_view(a: TokenInstruction, b: TokenInstruction)
        ensures
            a@.wf(),
            (a@ == b@) <==> (a == b),
    {
        match (a, b) {
            (
                TokenInstruction::InitializeMint { mint_authority: ma, freeze_authority: fa, .. },
                TokenInstruction::InitializeMint { mint_authority: mb, freeze_authority: fb, .. },
            ) => {
                Pubkey::lemma_view_injective(ma, mb);
                lemma_option_key_view(fa, fb);
            },
            (
                TokenInstruction::SetMintAuthority { new_authority: na },
                TokenInstruction::SetMintAuthority { new_authority: nb },
            ) => {
                lemma_option_key_view(na, nb);
            },
            (TokenInstruction::InitializeMint { mint_authority: ma, freeze_authority: fa, .. }, _) => {
                Pubkey::lemma_view_injective(ma, ma);
                lemma_option_key_view(fa, fa);
            },
            (TokenInstruction::SetMintAuthority { new_authority: na }, _) => {
                lemma_option_key_view(na, na);
            },
            _ => {},
        }
    }
}

/// The wire message that asks for `instruction`.
pub fn serialize_token_instruction(instruction: &TokenInstruction) -> (wire: Vec<u8>)
    ensures
        wire@ == TokenInstruction::spec_encode(instruction@),
        TokenInstruction::spec_decode(wire@) == Some(instruction@),
{
    proof {
        TokenInstruction::lemma_view(*instruction, *instruction);
        TokenInstruction::lemma_round_trip(instruction@);
    }
    match instruction {
        TokenInstruction::InitializeMint { decimals, mint_authority, freeze_authority } => {
            let mut wire: Vec<u8> = vec![0u8; 67];
            wire[1] = *decimals;
            write_key(&mut wire, 2, mint_authority);
            write_option_key(&mut wire, 34, freeze_authority);
            wire
        },
        TokenInstruction::InitializeAccount => {
            let wire: Vec<u8> = vec![1u8; 1];
            wire
        },
        TokenInstruction::MintTo { amount } => {
            let mut wire: Vec<u8> = vec![2u8; 9];
            write_u64(&mut wire, 1, *amount);
            wire
        },
        TokenInstruction::Transfer { amount } => {
            let mut wire: Vec<u8> = vec![3u8; 9];
            write_u64(&mut wire, 1, *amount);
            wire
        },
        TokenInstruction::Burn { amount } => {
            let mut wire: Vec<u8> = vec![4u8; 9];
            write_u64(&mut wire, 1, *amount);
            wire
        },
        TokenInstruction::SetMintAuthority { new_authority } => {
            let mut wire: Vec<u8> = vec![5u8; 34];
            write_option_key(&mut wire, 1, new_authority);
            wire
        },
    }
}

} // verus!
