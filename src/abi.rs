//! Hex text and ABI words: their meaning as plain values, and the calls into
//! array-bytes and ethabi that decode them.
use ethabi::ethereum_types::H256;
use ethabi::{ParamType, Token};
use vstd::prelude::*;

verus! {

/// The value of one hex digit as array-bytes reads it: it lowers the case of
/// an ASCII byte by setting bit 5, so U+0010 to U+0019 read as `0` to `9`.
pub open spec fn hex_digit(c: char) -> Option<u8> {
    let v = c as u32;
    if 48 <= v <= 57 {
        Some((v - 48) as u8)
    } else if 16 <= v <= 25 {
        Some((v - 16) as u8)
    } else if 97 <= v <= 102 {
        Some((v - 87) as u8)
    } else if 65 <= v <= 70 {
        Some((v - 55) as u8)
    } else {
        None
    }
}

/// The bytes that an even run of hex digits spells, or `None`.
pub open spec fn hex_bytes(t: Seq<char>) -> Option<Seq<u8>>
    decreases t.len(),
{
    if t.len() == 0 {
        Some(Seq::empty())
    } else if t.len() == 1 {
        None
    } else {
        match (hex_digit(t[0]), hex_digit(t[1]), hex_bytes(t.subrange(2, t.len() as int))) {
            (Some(h), Some(l), Some(rest)) => Some(seq![(h * 16 + l) as u8] + rest),
            _ => None,
        }
    }
}

/// The 32 bytes that the hex text `s` spells, with or without a `0x` prefix,
/// or `None` when it is not hex or not 32 bytes long.
pub open spec fn hex_word(s: Seq<char>) -> Option<Seq<u8>> {
    let t = if s.len() >= 2 && s[0] == '0' && s[1] == 'x' {
        s.subrange(2, s.len() as int)
    } else {
        s
    };
    if t.len() != 64 {
        None
    } else {
        hex_bytes(t)
    }
}

pub open spec fn lower_hex_digit(d: int) -> char {
    seq!['0', '1', '2', '3', '4', '5', '6', '7', '8', '9', 'a', 'b', 'c', 'd', 'e', 'f'][d]
}

/// Two lower-case hex digits for each byte.
pub open spec fn lower_hex(b: Seq<u8>) -> Seq<char>
    decreases b.len(),
{
    if b.len() == 0 {
        Seq::empty()
    } else {
        lower_hex(b.drop_last()) + seq![
            lower_hex_digit(b.last() as int / 16),
            lower_hex_digit(b.last() as int % 16),
        ]
    }
}

/// `0x` followed by the bytes in lower-case hex.
pub open spec fn prefixed_hex(b: Seq<u8>) -> Seq<char> {
    seq!['0', 'x'] + lower_hex(b)
}

/// The number that the bytes spell, most significant first.
pub open spec fn be_value(b: Seq<u8>) -> nat
    decreases b.len(),
{
    if b.len() == 0 {
        0
    } else {
        be_value(b.drop_last()) * 256 + b.last() as nat
    }
}

pub open spec fn decimal_digit(d: nat) -> char {
    seq!['0', '1', '2', '3', '4', '5', '6', '7', '8', '9'][d as int]
}

/// The base-10 text of `n`, without leading zeros.
pub open spec fn decimal_text(n: nat) -> Seq<char>
    decreases n,
{
    if n < 10 {
        seq![decimal_digit(n)]
    } else {
        decimal_text(n / 10) + seq![decimal_digit(n % 10)]
    }
}

/// Each two hex digits spell one byte.
pub proof fn lemma_hex_bytes_len(t: Seq<char>)
    ensures
        hex_bytes(t).is_some() ==> hex_bytes(t).unwrap().len() * 2 == t.len(),
    decreases t.len(),
{
    if t.len() >= 2 {
        lemma_hex_bytes_len(t.subrange(2, t.len() as int));
    }
}

/// A hex word is 32 bytes long.
pub proof fn lemma_hex_word_len(s: Seq<char>)
    ensures
        hex_word(s).is_some() ==> hex_word(s).unwrap().len() == 32,
{
    if s.len() >= 2 && s[0] == '0' && s[1] == 'x' {
        lemma_hex_bytes_len(s.subrange(2, s.len() as int));
    } else {
        lemma_hex_bytes_len(s);
    }
}

/// The parameter types of an event that the decoder knows.
#[derive(Clone, Copy, Debug, PartialEq, Eq)]
pub enum AbiKind {
    Address,
    Uint256,
}

pub open spec fn kind_text(k: AbiKind) -> Seq<char> {
    match k {
        AbiKind::Address => seq!['a', 'd', 'd', 'r', 'e', 's', 's'],
        AbiKind::Uint256 => seq!['u', 'i', 'n', 't', '2', '5', '6'],
    }
}

pub open spec fn kinds_text(kinds: Seq<AbiKind>) -> Seq<char>
    decreases kinds.len(),
{
    if kinds.len() == 0 {
        Seq::empty()
    } else if kinds.len() == 1 {
        kind_text(kinds[0])
    } else {
        kinds_text(kinds.drop_last()) + seq![','] + kind_text(kinds.last())
    }
}

/// The canonical text of an event signature, such as `Transfer(address,uint256)`.
pub open spec fn signature_text(name: Seq<char>, kinds: Seq<AbiKind>) -> Seq<char> {
    name + seq!['('] + kinds_text(kinds) + seq![')']
}

/// The Keccak-256 digest of the UTF-8 bytes of a text.
pub uninterp spec fn keccak256_of(text: Seq<char>) -> Seq<u8>;

/// The topic that identifies an event: its signature's digest in `0x` hex.
pub open spec fn event_topic_text(name: Seq<char>, kinds: Seq<AbiKind>) -> Seq<char> {
    prefixed_hex(keccak256_of(signature_text(name, kinds)))
}

/// Relies on array_bytes::hex_n_into: strips an optional `0x`, reads pairs of
/// hex digits, and succeeds only on exactly 32 bytes.
#[verifier::external_body]
pub(crate) fn hex_to_word(s: &String) -> (r: Option<Vec<u8>>)
    ensures
        r.is_some() == hex_word(s@).is_some(),
        r.is_some() ==> r.unwrap()@ == hex_word(s@).unwrap(),
{
    match array_bytes::hex_n_into::<&String, H256, 32>(s) {
        Ok(h) => Some(h.as_bytes().to_vec()),
        Err(_) => None,
    }
}

/// Relies on ethabi::long_signature, which hashes `name(types)` with
/// Keccak-256, and on the `Debug` text of `H256`: `0x` and 64 lower-case digits.
#[verifier::external_body]
pub(crate) fn event_topic(name: &str, kinds: &Vec<AbiKind>) -> (r: String)
    ensures
        r@ == prefixed_hex(keccak256_of(signature_text(name@, kinds@))),
{
    let types: Vec<ParamType> = kinds.iter().map(|k| match k {
        AbiKind::Address => ParamType::Address,
        AbiKind::Uint256 => ParamType::Uint(256),
    }).collect();
    format!("{:?}", ethabi::long_signature(name, &types))
}

/// Relies on ethabi::decode of one address: it takes the first 32 bytes and
/// keeps the low 20; `Debug` of `H160` writes them as `0x` and lower-case hex.
#[verifier::external_body]
pub(crate) fn decode_address(word: &Vec<u8>) -> (r: Option<String>)
    ensures
        r.is_some() == (word@.len() >= 32),
        r.is_some() ==> r.unwrap()@ == prefixed_hex(word@.subrange(12, 32)),
{
    match ethabi::decode(&[ParamType::Address], word) {
        Ok(tokens) => match tokens.into_iter().next() {
            Some(Token::Address(a)) => Some(format!("{:?}", a)),
            _ => None,
        },
        Err(_) => None,
    }
}

/// Relies on ethabi::decode of one `uint256`: it reads the first 32 bytes
/// big-endian; `Debug` of `U256` writes the number in base 10.
#[verifier::external_body]
pub(crate) fn decode_uint256(word: &Vec<u8>) -> (r: Option<String>)
    ensures
        r.is_some() == (word@.len() >= 32),
        r.is_some() ==> r.unwrap()@ == decimal_text(be_value(word@.subrange(0, 32))),
{
    match ethabi::decode(&[ParamType::Uint(256)], word) {
        Ok(tokens) => match tokens.into_iter().next() {
            Some(Token::Uint(v)) => Some(format!("{:?}", v)),
            _ => None,
        },
        Err(_) => None,
    }
}

} // verus!
