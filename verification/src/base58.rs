//! Base58, the text form of addresses and of key material.

use vstd::prelude::*;

verus! {

/// The bytes that a base58 text stands for, or nothing where the text is
/// not base58.
pub uninterp spec fn base58_decoded(text: Seq<char>) -> Option<Seq<u8>>;

/// The base58 text of a sequence of bytes.
pub uninterp spec fn base58_encoded(bytes: Seq<u8>) -> Seq<char>;

/// Calls `bs58::decode` and collects the result with `into_vec`. Whether the
/// text is accepted, and the bytes it yields, are a function of the text
/// alone, which the contract names.
#[verifier::external_body]
pub(crate) fn decode_base58(text: &str) -> (bytes: Option<Vec<u8>>)
    ensures
        bytes.deep_view() == base58_decoded(text@),
{
    bs58::decode(text).into_vec().ok()
}

/// Calls `bs58::encode` and collects the result with `into_string`. The
/// text is a function of the bytes alone, which the contract names.
#[verifier::external_body]
pub(crate) fn encode_base58(bytes: &[u8]) -> (text: String)
    ensures
        text@ == base58_encoded(bytes@),
{
    bs58::encode(bytes).into_string()
}

} // verus!
