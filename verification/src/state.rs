use vstd::prelude::*;
use crate::codec::{
    lemma_option_key_round_trip, lemma_option_key_view, lemma_u64_round_trip, read_key,
    read_option_key, read_u64, spec_bool_byte, spec_option_key_from_bytes,
    spec_option_key_to_bytes, spec_option_key_view, spec_overwrite, spec_u64_from_le,
    spec_u64_to_le, write_bool, write_key, write_option_key, write_u64,
};
use crate::error::{DecodeError, ProgramError};
use crate::pubkey::Pubkey;

verus! {

/// One token class.
#[derive(Debug, Clone, Copy, PartialEq, Eq)]
pub struct Mint {
    /// True once the record was created.
    pub is_initialized: bool,
    /// Display scaling, not read by any rule.
    pub decimals: u8,
    /// Who may raise the supply; `None` ends minting for good.
    pub mint_authority: Option<Pubkey>,
    /// Units outstanding.
    pub supply: u64,
    /// Who may freeze token accounts of this mint.
    pub freeze_authority: Option<Pubkey>,
}

/// The mathematical content of a [`Mint`].
pub struct MintView {
    pub is_initialized: bool,
    pub decimals: u8,
    pub mint_authority: Option<Seq<u8>>,
    pub supply: u64,
    pub freeze_authority: Option<Seq<u8>>,
}

impl MintView {
    /// Every key that is present has 32 bytes.
    pub open spec fn wf(self) -> bool {
        &&& self.mint_authority matches Some(k) ==> k.len() == 32
        &&& self.freeze_authority matches Some(k) ==> k.len() == 32
    }
}

impl View for Mint {
    type V = MintView;

    open spec fn view(&self) -> MintView {
        MintView {
            is_initialized: self.is_initialized,
            decimals: self.decimals,
            mint_authority: spec_option_key_view(self.mint_authority),
            supply: self.supply,
            freeze_authority: spec_option_key_view(self.freeze_authority),
        }
    }
}

impl Mint {
    /// Size of an encoded mint: the flag, the decimals, two optional keys
    /// of 33 bytes each, and the supply.
    pub const LEN: usize = 76;

    /// The record as bytes: `is_initialized`, `decimals`, `mint_authority`,
    /// `supply` (little-endian), `freeze_authority`.
    pub open spec fn spec_encode(v: MintView) -> Seq<u8> {
        seq![spec_bool_byte(v.is_initialized), v.decimals] + spec_option_key_to_bytes(
            v.mint_authority,
        ) + spec_u64_to_le(v.supply) + spec_option_key_to_bytes(v.freeze_authority)
    }

    /// The record that the first 76 bytes of `s` spell, if they spell one:
    /// `s` has that many bytes, and the flag and the two presence bytes are
    /// each 0 or 1. Bytes behind the 76th are not looked at.
    pub open spec fn spec_decode(s: Seq<u8>) -> Option<MintView> {
        if s.len() < 76 || s[0] > 1 {
            None
        } else {
            match (
                spec_option_key_from_bytes(s.subrange(2, 35)),
                spec_option_key_from_bytes(s.subrange(43, 76)),
            ) {
                (Some(mint_authority), Some(freeze_authority)) => Some(
                    MintView {
                        is_initialized: s[0] == 1,
                        decimals: s[1],
                        mint_authority,
                        supply: spec_u64_from_le(s.subrange(35, 43)),
                        freeze_authority,
                    },
                ),
                _ => None,
            }
        }
    }

    /// A fresh mint under `mint_authority`, with nothing issued yet.
    pub fn new(decimals: u8, mint_authority: Pubkey, freeze_authority: Option<Pubkey>) -> (mint:
        Mint)
        ensures
            mint == (Mint {
                is_initialized: true,
                decimals,
                mint_authority: Some(mint_authority),
                supply: 0,
                freeze_authority,
            }),
    {
        Mint {
            is_initialized: true,
            decimals,
            mint_authority: Some(mint_authority),
            supply: 0,
            freeze_authority,
        }
    }

    fn write_into(&self, data: &mut [u8])
        requires
            old(data)@.len() >= 76,
        ensures
            final(data)@ == spec_overwrite(old(data)@, 0, Mint::spec_encode(self@)),
    {
        write_bool(data, 0, self.is_initialized);
        data[1] = self.decimals;
        write_option_key(data, 2, &self.mint_authority);
        write_u64(data, 35, self.supply);
        write_option_key(data, 43, &self.freeze_authority);
    }

    /// The 76 bytes that stand for this mint.
    pub fn encode(&self) -> (bytes: [u8; 76])
        ensures
            bytes@ == Mint::spec_encode(self@),
    {
        let mut bytes: [u8; 76] = [0u8; 76];
        self.write_into(&mut bytes);
        bytes
    }

    /// Reads a mint from the first 76 bytes of `data`; what follows them is
    /// not looked at.
    pub fn decode(data: &[u8]) -> (decoded: Result<Mint, DecodeError>)
        ensures
            match decoded {
                Ok(mint) => Mint::spec_decode(data@) == Some(mint@),
                Err(_) => Mint::spec_decode(data@) is None,
            },
    {
        if data.len() < Mint::LEN {
            return Err(DecodeError);
        }
        let flag = data[0];
        if flag > 1 {
            return Err(DecodeError);
        }
        let mint_authority = match read_option_key(data, 2) {
            Ok(key) => key,
            Err(e) => {
                return Err(e);
            },
        };
        let freeze_authority = match read_option_key(data, 43) {
            Ok(key) => key,
            Err(e) => {
                return Err(e);
            },
        };
        let supply = read_u64(data, 35);
        Ok(
            Mint {
                is_initialized: flag == 1,
                decimals: data[1],
                mint_authority,
                supply,
                freeze_authority,
            },
        )
    }

    /// Writes this mint over the first 76 bytes of `data` and leaves the
    /// rest as it was. A buffer shorter than that is refused and not
    /// touched.
    pub fn serialize(&self, data: &mut [u8]) -> (written: Result<(), ProgramError>)
        ensures
            old(data)@.len() >= 76 ==> written is Ok && final(data)@ == spec_overwrite(
                old(data)@,
                0,
                Mint::spec_encode(self@),
            ),
            old(data)@.len() < 76 ==> written == Err::<(), ProgramError>(
                ProgramError::InvalidAccountData,
            ) && final(data)@ == old(data)@,
    {
        if data.len() < Mint::LEN {
            return Err(ProgramError::InvalidAccountData);
        }
        self.write_into(data);
        Ok(())
    }

    /// Reads a mint from the first 76 bytes of `data`.
    pub fn deserialize(data: &[u8]) -> (decoded: Result<Mint, ProgramError>)
        ensures
            match decoded {
                Ok(mint) => Mint::spec_decode(data@) == Some(mint@),
                Err(e) => e == ProgramError::InvalidAccountData && Mint::spec_decode(data@) is None,
            },
    {
        match Mint::decode(data) {
            Ok(mint) => Ok(mint),
            Err(_) => Err(ProgramError::InvalidAccountData),
        }
    }

    /// Decoding what `encode` wrote gives the record back, whatever follows
    /// the 76 bytes in the buffer.
    pub proof fn lemma_round_trip(v: MintView, rest: Seq<u8>)
        requires
            v.wf(),
        ensures
            Mint::spec_encode(v).len() == 76,
            Mint::spec_decode(Mint::spec_encode(v) + rest) == Some(v),
    {
        let s = Mint::spec_encode(v) + rest;
        lemma_option_key_round_trip(v.mint_authority);
        lemma_option_key_round_trip(v.freeze_authority);
        lemma_u64_round_trip(v.supply);
        assert(s.subrange(2, 35) =~= spec_option_key_to_bytes(v.mint_authority));
        assert(s.subrange(43, 76) =~= spec_option_key_to_bytes(v.freeze_authority));
    }

    /// A record that a buffer decodes to is well formed.
    pub proof fn lemma_decode_wf(s: Seq<u8>)
        ensures
            Mint::spec_decode(s) matches Some(v) ==> v.wf() && s.len() >= 76,
    {
    }

    /// A mint written over the start of a buffer reads back from it, and
    /// the bytes behind the record are as they were.
    pub proof fn lemma_written_reads_back(data: Seq<u8>, v: MintView)
        requires
            data.len() >= 76,
            v.wf(),
        ensures
            spec_overwrite(data, 0, Mint::spec_encode(v)).len() == data.len(),
            Mint::spec_decode(spec_overwrite(data, 0, Mint::spec_encode(v))) == Some(v),
            spec_overwrite(data, 0, Mint::spec_encode(v)).subrange(76, data.len() as int)
                == data.subrange(76, data.len() as int),
    {
        Mint::lemma_round_trip(v, data.subrange(76, data.len() as int));
    }

    /// The model of a mint is well formed, and two mints with one model are
    /// the same mint.
    pub proof fn lemma_view(a: Mint, b: Mint)
        ensures
            a@.wf(),
            (a@ == b@) <==> (a == b),
    {
        lemma_option_key_view(a.mint_authority, b.mint_authority);
        lemma_option_key_view(a.freeze_authority, b.freeze_authority);
    }
}

/// One owner's balance in one mint.
#[derive(Debug, Clone, Copy, PartialEq, Eq)]
pub struct TokenAccount {
    /// True once the record was created.
    pub is_initialized: bool,
    /// The mint whose units this account holds.
    pub mint: Pubkey,
    /// Who may debit the account.
    pub owner: Pubkey,
    /// The balance.
    pub amount: u64,
    /// While true, the balance cannot change.
    pub is_frozen: bool,
}

/// The mathematical content of a [`TokenAccount`].
pub struct TokenAccountView {
    pub is_initialized: bool,
    pub mint: Seq<u8>,
    pub owner: Seq<u8>,
    pub amount: u64,
    pub is_frozen: bool,
}

impl TokenAccountView {
    /// Both keys have 32 bytes.
    pub open spec fn wf(self) -> bool {
        &&& self.mint.len() == 32
        &&& self.owner.len() == 32
    }
}

impl View for TokenAccount {
    type V = TokenAccountView;

    open spec fn view(&self) -> TokenAccountView {
        TokenAccountView {
            is_initialized: self.is_initialized,
            mint: self.mint@,
            owner: self.owner@,
            amount: self.amount,
            is_frozen: self.is_frozen,
        }
    }
}

impl TokenAccount {
    /// Size of an encoded token account: two flags, two keys and the
    /// balance.
    pub const LEN: usize = 74;

    /// The record as bytes: `is_initialized`, `mint`, `owner`, `amount`
    /// (little-endian), `is_frozen`.
    pub open spec fn spec_encode(v: TokenAccountView) -> Seq<u8> {
        seq![spec_bool_byte(v.is_initialized)] + v.mint + v.owner + spec_u64_to_le(v.amount)
            + seq![spec_bool_byte(v.is_frozen)]
    }

    /// The record that the first 74 bytes of `s` spell, if they spell one:
    /// `s` has that many bytes, and the two flags are each 0 or 1. Bytes
    /// behind the 74th are not looked at.
    pub open spec fn spec_decode(s: Seq<u8>) -> Option<TokenAccountView> {
        if s.len() < 74 || s[0] > 1 || s[73] > 1 {
            None
        } else {
            Some(
                TokenAccountView {
                    is_initialized: s[0] == 1,
                    mint: s.subrange(1, 33),
                    owner: s.subrange(33, 65),
                    amount: spec_u64_from_le(s.subrange(65, 73)),
                    is_frozen: s[73] == 1,
                },
            )
        }
    }

    /// A fresh, empty account of `owner` in `mint`.
    pub fn new(mint: Pubkey, owner: Pubkey) -> (account: TokenAccount)
        ensures
            account == (TokenAccount {
                is_initialized: true,
                mint,
                owner,
                amount: 0,
                is_frozen: false,
            }),
    {
        TokenAccount { is_initialized: true, mint, owner, amount: 0, is_frozen: false }
    }

    fn write_into(&self, data: &mut [u8])
        requires
            old(data)@.len() >= 74,
        ensures
            final(data)@ == spec_overwrite(old(data)@, 0, TokenAccount::spec_encode(self@)),
    {
        write_bool(data, 0, self.is_initialized);
        write_key(data, 1, &self.mint);
        write_key(data, 33, &self.owner);
        write_u64(data, 65, self.amount);
        write_bool(data, 73, self.is_frozen);
    }

    /// The 74 bytes that stand for this account.
    pub fn encode(&self) -> (bytes: [u8; 74])
        ensures
            bytes@ == TokenAccount::spec_encode(self@),
    {
        let mut bytes: [u8; 74] = [0u8; 74];
        self.write_into(&mut bytes);
        bytes
    }

    /// Reads a token account from the first 74 bytes of `data`; what
    /// follows them is not looked at.
    pub fn decode(data: &[u8]) -> (decoded: Result<TokenAccount, DecodeError>)
        ensures
            match decoded {
                Ok(account) => TokenAccount::spec_decode(data@) == Some(account@),
                Err(_) => TokenAccount::spec_decode(data@) is None,
            },
    {
        if data.len() < TokenAccount::LEN {
            return Err(DecodeError);
        }
        let flag = data[0];
        let frozen = data[73];
        if flag > 1 || frozen > 1 {
            return Err(DecodeError);
        }
        let mint = read_key(data, 1);
        let owner = read_key(data, 33);
        let amount = read_u64(data, 65);
        Ok(TokenAccount { is_initialized: flag == 1, mint, owner, amount, is_frozen: frozen == 1 })
    }

    /// Writes this account over the first 74 bytes of `data` and leaves the
    /// rest as it was. A buffer shorter than that is refused and not
    /// touched.
    pub fn serialize(&self, data: &mut [u8]) -> (written: Result<(), ProgramError>)
        ensures
            old(data)@.len() >= 74 ==> written is Ok && final(data)@ == spec_overwrite(
                old(data)@,
                0,
                TokenAccount::spec_encode(self@),
            ),
            old(data)@.len() < 74 ==> written == Err::<(), ProgramError>(
                ProgramError::InvalidAccountData,
            ) && final(data)@ == old(data)@,
    {
        if data.len() < TokenAccount::LEN {
            return Err(ProgramError::InvalidAccountData);
        }
        self.write_into(data);
        Ok(())
    }

    /// Reads a token account from the first 74 bytes of `data`.
    pub fn deserialize(data: &[u8]) -> (decoded: Result<TokenAccount, ProgramError>)
        ensures
            match decoded {
                Ok(account) => TokenAccount::spec_decode(data@) == Some(account@),
                Err(e) => e == ProgramError::InvalidAccountData && TokenAccount::spec_decode(data@)
                    is None,
            },
    {
        match TokenAccount::decode(data) {
            Ok(account) => Ok(account),
            Err(_) => Err(ProgramError::InvalidAccountData),
        }
    }

    /// Decoding what `encode` wrote gives the record back, whatever follows
    /// the 74 bytes in the buffer.
    pub proof fn lemma_round_trip(v: TokenAccountView, rest: Seq<u8>)
        requires
            v.wf(),
        ensures
            TokenAccount::spec_encode(v).len() == 74,
            TokenAccount::spec_decode(TokenAccount::spec_encode(v) + rest) == Some(v),
    {
        let s = TokenAccount::spec_encode(v) + rest;
        lemma_u64_round_trip(v.amount);
        assert(s.subrange(1, 33) =~= v.mint);
        assert(s.subrange(33, 65) =~= v.owner);
    }

    /// A record that a buffer decodes to is well formed.
    pub proof fn lemma_decode_wf(s: Seq<u8>)
        ensures
            TokenAccount::spec_decode(s) matches Some(v) ==> v.wf() && s.len() >= 74,
    {
    }

    /// A token account written over the start of a buffer reads back from
    /// it, and the bytes behind the record are as they were.
    pub proof fn lemma_written_reads_back(data: Seq<u8>, v: TokenAccountView)
        requires
            data.len() >= 74,
            v.wf(),
        ensures
            spec_overwrite(data, 0, TokenAccount::spec_encode(v)).len() == data.len(),
            TokenAccount::spec_decode(spec_overwrite(data, 0, TokenAccount::spec_encode(v)))
                == Some(v),
            spec_overwrite(data, 0, TokenAccount::spec_encode(v)).subrange(74, data.len() as int)
                == data.subrange(74, data.len() as int),
    {
        TokenAccount::lemma_round_trip(v, data.subrange(74, data.len() as int));
    }

    /// The model of a token account is well formed, and two accounts with
    /// one model are the same account.
    pub proof fn lemma_view(a: TokenAccount, b: TokenAccount)
        ensures
            a@.wf(),
            (a@ == b@) <==> (a == b),
    {
        Pubkey::lemma_view_injective(a.mint, b.mint);
        Pubkey::lemma_view_injective(a.owner, b.owner);
    }
}

} // verus!
