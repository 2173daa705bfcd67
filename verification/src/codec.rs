use vstd::prelude::*;
use crate::error::DecodeError;
use crate::pubkey::Pubkey;

verus! {

/// The byte that stands for a flag.
pub open spec fn spec_bool_byte(b: bool) -> u8 {
    if b {
        1u8
    } else {
        0u8
    }
}

/// The eight bytes of `x`, least significant first.
pub open spec fn spec_u64_to_le(x: u64) -> Seq<u8> {
    seq![
        (x % 0x100) as u8,
        ((x / 0x100) % 0x100) as u8,
        ((x / 0x1_0000) % 0x100) as u8,
        ((x / 0x100_0000) % 0x100) as u8,
        ((x / 0x1_0000_0000) % 0x100) as u8,
        ((x / 0x100_0000_0000) % 0x100) as u8,
        ((x / 0x1_0000_0000_0000) % 0x100) as u8,
        ((x / 0x100_0000_0000_0000) % 0x100) as u8,
    ]
}

/// The number whose little-endian digits in base 256 are the first eight
/// bytes of `s`.
pub open spec fn spec_u64_from_le(s: Seq<u8>) -> u64
    recommends
        s.len() >= 8,
{
    (s[0] + s[1] * 0x100 + s[2] * 0x1_0000 + s[3] * 0x100_0000 + s[4] * 0x1_0000_0000 + s[5]
        * 0x100_0000_0000 + s[6] * 0x1_0000_0000_0000 + s[7] * 0x100_0000_0000_0000) as u64
}

/// Thirty-two zero bytes.
pub open spec fn spec_zero_key() -> Seq<u8> {
    Seq::new(32, |i: int| 0u8)
}

/// An optional key on the wire: a presence byte, then 32 bytes that hold the
/// key, or zeros when there is none.
pub open spec fn spec_option_key_to_bytes(key: Option<Seq<u8>>) -> Seq<u8> {
    match key {
        Some(k) => seq![1u8] + k,
        None => seq![0u8] + spec_zero_key(),
    }
}

/// Reads an optional key from the first 33 bytes of `s`. The outer `None`
/// says that the presence byte is neither 0 nor 1. When the presence byte is
/// 0, the 32 bytes behind it are not looked at.
pub open spec fn spec_option_key_from_bytes(s: Seq<u8>) -> Option<Option<Seq<u8>>>
    recommends
        s.len() >= 33,
{
    if s[0] == 0 {
        Some(None)
    } else if s[0] == 1 {
        Some(Some(s.subrange(1, 33)))
    } else {
        None
    }
}

/// What an optional key is to its model.
pub open spec fn spec_option_key_view(key: Option<Pubkey>) -> Option<Seq<u8>> {
    match key {
        Some(k) => Some(k@),
        None => None,
    }
}

/// `s` with the bytes from `offset` on replaced by `part`.
pub open spec fn spec_overwrite(s: Seq<u8>, offset: int, part: Seq<u8>) -> Seq<u8>
    recommends
        0 <= offset,
        offset + part.len() <= s.len(),
{
    s.subrange(0, offset) + part + s.subrange(offset + part.len(), s.len() as int)
}

/// Decoding the encoding of a number gives the number back.
pub proof fn lemma_u64_round_trip(x: u64)
    ensures
        spec_u64_to_le(x).len() == 8,
        spec_u64_from_le(spec_u64_to_le(x)) == x,
{
    let s = spec_u64_to_le(x);
    let x1 = x / 0x100;
    let x2 = x1 / 0x100;
    let x3 = x2 / 0x100;
    let x4 = x3 / 0x100;
    let x5 = x4 / 0x100;
    let x6 = x5 / 0x100;
    let x7 = x6 / 0x100;
    assert(x2 == x / 0x1_0000);
    assert(x3 == x / 0x100_0000);
    assert(x4 == x / 0x1_0000_0000);
    assert(x5 == x / 0x100_0000_0000);
    assert(x6 == x / 0x1_0000_0000_0000);
    assert(x7 == x / 0x100_0000_0000_0000);
    assert(x7 < 0x100);
    assert(s[0] == x % 0x100);
    assert(s[1] == x1 % 0x100);
    assert(s[2] == x2 % 0x100);
    assert(s[3] == x3 % 0x100);
    assert(s[4] == x4 % 0x100);
    assert(s[5] == x5 % 0x100);
    assert(s[6] == x6 % 0x100);
    assert(s[7] == x7);
}

/// Encoding the number that eight bytes decode to gives the bytes back.
pub proof fn lemma_u64_bytes_round_trip(s: Seq<u8>)
    requires
        s.len() == 8,
    ensures
        spec_u64_to_le(spec_u64_from_le(s)) == s,
{
    let x = spec_u64_from_le(s);
    let t = spec_u64_to_le(x);
    let x0: int = s[0] + s[1] * 0x100 + s[2] * 0x1_0000 + s[3] * 0x100_0000 + s[4] * 0x1_0000_0000
        + s[5] * 0x100_0000_0000 + s[6] * 0x1_0000_0000_0000 + s[7] * 0x100_0000_0000_0000;
    assert(x == x0);
    let x1: int = s[1] + s[2] * 0x100 + s[3] * 0x1_0000 + s[4] * 0x100_0000 + s[5] * 0x1_0000_0000
        + s[6] * 0x100_0000_0000 + s[7] * 0x1_0000_0000_0000;
    let x2: int = s[2] + s[3] * 0x100 + s[4] * 0x1_0000 + s[5] * 0x100_0000 + s[6] * 0x1_0000_0000
        + s[7] * 0x100_0000_0000;
    let x3: int = s[3] + s[4] * 0x100 + s[5] * 0x1_0000 + s[6] * 0x100_0000 + s[7] * 0x1_0000_0000;
    let x4: int = s[4] + s[5] * 0x100 + s[6] * 0x1_0000 + s[7] * 0x100_0000;
    let x5: int = s[5] + s[6] * 0x100 + s[7] * 0x1_0000;
    let x6: int = s[6] + s[7] * 0x100;
    let x7: int = s[7] as int;
    assert(x0 == s[0] + x1 * 0x100);
    assert(x1 == s[1] + x2 * 0x100);
    assert(x2 == s[2] + x3 * 0x100);
    assert(x3 == s[3] + x4 * 0x100);
    assert(x4 == s[4] + x5 * 0x100);
    assert(x5 == s[5] + x6 * 0x100);
    assert(x6 == s[6] + x7 * 0x100);
    assert(x0 / 0x100 == x1 && x0 % 0x100 == s[0]);
    assert(x1 / 0x100 == x2 && x1 % 0x100 == s[1]);
    assert(x2 / 0x100 == x3 && x2 % 0x100 == s[2]);
    assert(x3 / 0x100 == x4 && x3 % 0x100 == s[3]);
    assert(x4 / 0x100 == x5 && x4 % 0x100 == s[4]);
    assert(x5 / 0x100 == x6 && x5 % 0x100 == s[5]);
    assert(x6 / 0x100 == x7 && x6 % 0x100 == s[6]);
    assert(x0 / 0x1_0000 == x2);
    assert(x0 / 0x100_0000 == x3);
    assert(x0 / 0x1_0000_0000 == x4);
    assert(x0 / 0x100_0000_0000 == x5);
    assert(x0 / 0x1_0000_0000_0000 == x6);
    assert(x0 / 0x100_0000_0000_0000 == x7);
    assert(t =~= s);
}

/// An optional key read back from its encoding is the key that was written.
pub proof fn lemma_option_key_round_trip(key: Option<Seq<u8>>)
    requires
        key matches Some(k) ==> k.len() == 32,
    ensures
        spec_option_key_to_bytes(key).len() == 33,
        spec_option_key_from_bytes(spec_option_key_to_bytes(key)) == Some(key),
{
}

/// What the presence byte alone decides: with 0 there is no key, whatever the
/// 32 bytes behind it hold; with 1 the key is those 32 bytes.
pub proof fn lemma_option_key_presence(s: Seq<u8>)
    requires
        s.len() >= 33,
    ensures
        s[0] == 0 ==> spec_option_key_from_bytes(s) == Some(None::<Seq<u8>>),
        s[0] == 1 ==> spec_option_key_from_bytes(s) == Some(Some(s.subrange(1, 33))),
        s[0] > 1 ==> spec_option_key_from_bytes(s) is None,
{
}

/// The model of an optional key tells the keys apart.
pub proof fn lemma_option_key_view(a: Option<Pubkey>, b: Option<Pubkey>)
    ensures
        spec_option_key_view(a) matches Some(k) ==> k.len() == 32,
        (spec_option_key_view(a) == spec_option_key_view(b)) <==> (a == b),
{
    match (a, b) {
        (Some(x), Some(y)) => {
            Pubkey::lemma_view_injective(x, y);
        },
        (Some(x), None) => {
            Pubkey::lemma_view_injective(x, x);
        },
        _ => {},
    }
}

/// The number that the eight bytes of `data` from `offset` on stand for.
pub fn read_u64(data: &[u8], offset: usize) -> (x: u64)
    requires
        offset + 8 <= data@.len(),
    ensures
        x == spec_u64_from_le(data@.subrange(offset as int, offset + 8)),
{
    let b0: u64 = data[offset] as u64;
    let b1: u64 = data[offset + 1] as u64;
    let b2: u64 = data[offset + 2] as u64;
    let b3: u64 = data[offset + 3] as u64;
    let b4: u64 = data[offset + 4] as u64;
    let b5: u64 = data[offset + 5] as u64;
    let b6: u64 = data[offset + 6] as u64;
    let b7: u64 = data[offset + 7] as u64;
    b0 + b1 * 0x100 + b2 * 0x1_0000 + b3 * 0x100_0000 + b4 * 0x1_0000_0000 + b5 * 0x100_0000_0000
        + b6 * 0x1_0000_0000_0000 + b7 * 0x100_0000_0000_0000
}

/// The key that the 32 bytes of `data` from `offset` on spell.
pub fn read_key(data: &[u8], offset: usize) -> (key: Pubkey)
    requires
        offset + 32 <= data@.len(),
    ensures
        key@ == data@.subrange(offset as int, offset + 32),
{
    let mut bytes: [u8; 32] = [0u8; 32];
    let mut i: usize = 0;
    while i < 32
        invariant
            i <= 32,
            offset + 32 <= data.len(),
            forall|j: int| 0 <= j < i ==> bytes@[j] == data@[offset + j],
        decreases 32 - i,
    {
        bytes[i] = data[offset + i];
        i += 1;
    }
    Pubkey::new_from_array(bytes)
}

/// Reads the optional key that the 33 bytes of `data` from `offset` on hold,
/// and refuses a presence byte that is neither 0 nor 1.
pub fn read_option_key(data: &[u8], offset: usize) -> (key: Result<Option<Pubkey>, DecodeError>)
    requires
        offset + 33 <= data@.len(),
    ensures
        match key {
            Ok(k) => spec_option_key_from_bytes(data@.subrange(offset as int, offset + 33))
                == Some(spec_option_key_view(k)),
            Err(_) => spec_option_key_from_bytes(data@.subrange(offset as int, offset + 33))
                is None,
        },
{
    let presence = data[offset];
    if presence == 0 {
        Ok(None)
    } else if presence == 1 {
        Ok(Some(read_key(data, offset + 1)))
    } else {
        Err(DecodeError)
    }
}

/// Writes a flag at `offset`.
pub fn write_bool(data: &mut [u8], offset: usize, flag: bool)
    requires
        offset < old(data)@.len(),
    ensures
        final(data)@ == old(data)@.update(offset as int, spec_bool_byte(flag)),
{
    if flag {
        data[offset] = 1;
    } else {
        data[offset] = 0;
    }
}

/// Writes the eight bytes of `x` from `offset` on, least significant first.
pub fn write_u64(data: &mut [u8], offset: usize, x: u64)
    requires
        offset + 8 <= old(data)@.len(),
    ensures
        final(data)@ == spec_overwrite(old(data)@, offset as int, spec_u64_to_le(x)),
{
    data[offset] = (x % 0x100) as u8;
    data[offset + 1] = ((x / 0x100) % 0x100) as u8;
    data[offset + 2] = ((x / 0x1_0000) % 0x100) as u8;
    data[offset + 3] = ((x / 0x100_0000) % 0x100) as u8;
    data[offset + 4] = ((x / 0x1_0000_0000) % 0x100) as u8;
    data[offset + 5] = ((x / 0x100_0000_0000) % 0x100) as u8;
    data[offset + 6] = ((x / 0x1_0000_0000_0000) % 0x100) as u8;
    data[offset + 7] = ((x / 0x100_0000_0000_0000) % 0x100) as u8;
}

/// Writes the 32 bytes of `key` from `offset` on.
pub fn write_key(data: &mut [u8], offset: usize, key: &Pubkey)
    requires
        offset + 32 <= old(data)@.len(),
    ensures
        final(data)@ == spec_overwrite(old(data)@, offset as int, key@),
{
    let ghost before = data@;
    let mut i: usize = 0;
    while i < 32
        invariant
            i <= 32,
            offset + 32 <= data.len(),
            data@.len() == before.len(),
            forall|j: int| 0 <= j < data@.len() ==> data@[j] == if offset <= j < offset + i {
                key@[j - offset]
            } else {
                before[j]
            },
        decreases 32 - i,
    {
        data[offset + i] = key.bytes[i];
        i += 1;
    }
}

/// Writes 32 zero bytes from `offset` on.
pub fn write_zero_key(data: &mut [u8], offset: usize)
    requires
        offset + 32 <= old(data)@.len(),
    ensures
        final(data)@ == spec_overwrite(old(data)@, offset as int, spec_zero_key()),
{
    let ghost before = data@;
    let mut i: usize = 0;
    while i < 32
        invariant
            i <= 32,
            offset + 32 <= data.len(),
            data@.len() == before.len(),
            forall|j: int| 0 <= j < data@.len() ==> data@[j] == if offset <= j < offset + i {
                0u8
            } else {
                before[j]
            },
        decreases 32 - i,
    {
        data[offset + i] = 0;
        i += 1;
    }
}

/// Writes an optional key from `offset` on: the presence byte, then the key
/// or 32 zero bytes.
pub fn write_option_key(data: &mut [u8], offset: usize, key: &Option<Pubkey>)
    requires
        offset + 33 <= old(data)@.len(),
    ensures
        final(data)@ == spec_overwrite(
            old(data)@,
            offset as int,
            spec_option_key_to_bytes(spec_option_key_view(*key)),
        ),
{
    match key {
        Some(k) => {
            data[offset] = 1;
            write_key(data, offset + 1, k);
        },
        None => {
            data[offset] = 0;
            write_zero_key(data, offset + 1);
        },
    }
}

/// Writes `bytes` over the first bytes of `data` and leaves the rest as it
/// was.
pub fn write_prefix(data: &mut [u8], bytes: &[u8])
    requires
        bytes@.len() <= old(data)@.len(),
    ensures
        final(data)@ == spec_overwrite(old(data)@, 0, bytes@),
{
    let ghost before = data@;
    let n = bytes.len();
    let mut i: usize = 0;
    while i < n
        invariant
            i <= n,
            n == bytes@.len(),
            n <= data@.len(),
            data@.len() == before.len(),
            forall|j: int| 0 <= j < data@.len() ==> data@[j] == if j < i {
                bytes@[j]
            } else {
                before[j]
            },
        decreases n - i,
    {
        data[i] = bytes[i];
        i += 1;
    }
}

} // verus!
