//! Account addresses: 32 bytes, written as base58 text.

use solana_sdk::pubkey::Pubkey;
use std::str::FromStr;
use vstd::prelude::*;

verus! {

/// Whether `c` belongs to the base58 alphabet: the digits but `0`, and the
/// letters but `I`, `O` and `l`.
pub open spec fn is_base58_char(c: char) -> bool {
    ||| '1' <= c <= '9'
    ||| 'A' <= c <= 'Z' && c != 'I' && c != 'O'
    ||| 'a' <= c <= 'z' && c != 'l'
}

/// The 32 bytes that text `s` stands for as an address, if it stands for one.
pub uninterp spec fn decoded_address(s: Seq<char>) -> Option<Seq<u8>>;

/// The base58 text of the address with bytes `b`.
pub uninterp spec fn address_text(b: Seq<u8>) -> Seq<char>;

/// Relies on `Pubkey::from_str` of solana-pubkey to decode a base58 address.
/// Its source refuses text of more than 44 bytes, text with a byte outside
/// the base58 alphabet, and empty text (too short for 32 bytes).
#[verifier::external_body]
pub(crate) fn parse_address(s: &str) -> (r: Option<[u8; 32]>)
    ensures
        match r {
            Some(b) => decoded_address(s@) == Some(b@),
            None => decoded_address(s@) is None,
        },
        s@.len() > 44 ==> r is None,
        s@.len() == 0 ==> r is None,
        (exists|i: int| 0 <= i < s@.len() && !is_base58_char(#[trigger] s@[i])) ==> r is None,
{
    Pubkey::from_str(s).ok().map(|p| p.to_bytes())
}

/// Relies on the `Display` impl of solana-pubkey's `Pubkey`, which writes the
/// base58 text of the address.
#[verifier::external_body]
pub(crate) fn format_address(b: &[u8; 32]) -> (r: String)
    ensures
        r@ == address_text(b@),
{
    Pubkey::new_from_array(*b).to_string()
}

} // verus!
