//! Hex text, Keccak-256 and the derivation of a staker's custody sub-account
//! from its Ethereum address.
use vstd::prelude::*;
use vstd::utf8::encode_utf8;

verus! {

/// An ASCII hex digit, in either case.
pub open spec fn is_hex_digit(b: u8) -> bool {
    (48 <= b && b <= 57) || (65 <= b && b <= 70) || (97 <= b && b <= 102)
}

/// The value of a hex digit.
pub open spec fn hex_value(b: u8) -> int {
    if 48 <= b && b <= 57 {
        b - 48
    } else if 65 <= b && b <= 70 {
        b - 55
    } else {
        b - 87
    }
}

/// Text that decodes as hex: an even number of hex digits.
pub open spec fn is_hex_text(t: Seq<u8>) -> bool {
    t.len() % 2 == 0 && forall|i: int| 0 <= i < t.len() ==> is_hex_digit(#[trigger] t[i])
}

/// The bytes that hex text stands for, two digits per byte, high digit first.
pub open spec fn hex_decoded(t: Seq<u8>) -> Seq<u8> {
    Seq::new(t.len() / 2, |i: int| (hex_value(t[2 * i]) * 16 + hex_value(t[2 * i + 1])) as u8)
}

/// The lower-case hex digit for a value below sixteen.
pub open spec fn lower_hex_digit(n: int) -> u8 {
    if n < 10 {
        (48 + n) as u8
    } else {
        (87 + n) as u8
    }
}

/// Lower-case hex text of bytes, two digits per byte, high digit first.
pub open spec fn hex_encoded(b: Seq<u8>) -> Seq<u8> {
    Seq::new(
        2 * b.len(),
        |i: int|
            lower_hex_digit(if i % 2 == 0 { (b[i / 2] / 16) as int } else { (b[i / 2] % 16) as int }),
    )
}

/// The Keccak-256 digest of some bytes.
pub uninterp spec fn keccak256_of(data: Seq<u8>) -> Seq<u8>;

/// Relies on `sha3::Keccak256` (through `Digest::digest`): the 32-byte digest
/// depends on the input bytes alone.
#[verifier::external_body]
pub fn keccak256(input: &[u8]) -> (r: [u8; 32])
    ensures
        r@ == keccak256_of(input@),
{
    <sha3::Keccak256 as sha3::Digest>::digest(input).into()
}

/// Relies on `hex::decode`: it accepts exactly an even number of hex digits of
/// either case and returns the bytes that they stand for.
#[verifier::external_body]
fn decode_hex(text: &[u8]) -> (r: Option<Vec<u8>>)
    ensures
        r.is_some() == is_hex_text(text@),
        r matches Some(b) ==> b@ == hex_decoded(text@),
{
    hex::decode(text).ok()
}

/// Relies on `hex::encode`: two lower-case hex digits per byte.
#[verifier::external_body]
pub(crate) fn encode_hex(data: &[u8]) -> (r: Vec<u8>)
    ensures
        r@ == hex_encoded(data@),
{
    hex::encode(data).into_bytes()
}

/// The text of an Ethereum address: forty hex digits, without a prefix.
pub open spec fn is_eth_address_text(t: Seq<u8>) -> bool {
    t.len() == 40 && is_hex_text(t)
}

/// The custody sub-account of an address given as text: the Keccak-256 digest
/// of the twenty bytes it stands for, or nothing where the text is no address.
pub open spec fn sub_identity_of(t: Seq<u8>) -> Option<Seq<u8>> {
    if is_eth_address_text(t) {
        Some(keccak256_of(hex_decoded(t)))
    } else {
        None
    }
}

/// The address text was not forty hex digits.
#[derive(Debug, Clone, Copy, PartialEq, Eq)]
pub struct InvalidEthereumAddress;

/// Derives the 32-byte custody sub-account of an Ethereum address.
pub fn convert_eth_address_to_subaccount(eth_address: &str) -> (r: Result<
    [u8; 32],
    InvalidEthereumAddress,
>)
    ensures
        match r {
            Ok(s) => sub_identity_of(encode_utf8(eth_address@)) == Some(s@),
            Err(_) => sub_identity_of(encode_utf8(eth_address@)) is None,
        },
{
    let text = eth_address.as_bytes();
    if text.len() != 40 {
        return Err(InvalidEthereumAddress);
    }
    match decode_hex(text) {
        Some(raw) => {
            assert(raw@.len() == 20);
            Ok(keccak256(raw.as_slice()))
        },
        None => Err(InvalidEthereumAddress),
    }
}

/// ASCII lower case of a character; other characters stay.
pub open spec fn ascii_lower_char(c: char) -> char {
    if 'A' <= c && c <= 'Z' {
        ((c as u32) + 32) as char
    } else {
        c
    }
}

/// The key a staker's record is filed under: its address in ASCII lower case.
pub open spec fn address_key(a: Seq<char>) -> Seq<char> {
    a.map_values(|c: char| ascii_lower_char(c))
}

/// Relies on `str::to_ascii_lowercase`: ASCII capitals become small letters
/// and every other character stays.
#[verifier::external_body]
pub(crate) fn ascii_lowercase(s: &str) -> (r: String)
    ensures
        r@ == address_key(s@),
{
    s.to_ascii_lowercase()
}

} // verus!
