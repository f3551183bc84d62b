//! Base-58 text, as the `bs58` crate writes and reads it with its default
//! (Bitcoin) alphabet.

use vstd::prelude::*;

verus! {

/// The error of `bs58`'s decoder, carried through as an opaque value.
#[verifier::external_type_specification]
#[verifier::external_body]
pub struct ExBase58DecodeError(bs58::decode::Error);

/// The text that `bs58::encode(bytes).into_string()` returns.
pub uninterp spec fn base58_text(bytes: Seq<u8>) -> Seq<char>;

/// The bytes that `bs58::decode(text).into_vec()` returns, or `None` where it
/// returns an error.
pub uninterp spec fn base58_bytes(text: Seq<char>) -> Option<Seq<u8>>;

/// Calls `bs58::encode(bytes).into_string()`.
///
/// Trusted, not proved: the result is the crate's base-58 text of `bytes`, and
/// the crate's decoder reads that text back as `bytes`, the two being the
/// halves of one codec.
#[verifier::external_body]
pub(crate) fn encode_base58(bytes: &[u8]) -> (text: String)
    ensures
        text@ == base58_text(bytes@),
        base58_bytes(text@) == Some(bytes@),
{
    bs58::encode(bytes).into_string()
}

/// Calls `bs58::decode(text).into_vec()`.
///
/// Trusted, not proved: the outcome depends on `text` alone, and is an error
/// exactly where `base58_bytes` has no value.
#[verifier::external_body]
pub(crate) fn decode_base58(text: &str) -> (bytes: Result<Vec<u8>, bs58::decode::Error>)
    ensures
        match bytes {
            Ok(b) => base58_bytes(text@) == Some(b@),
            Err(_) => base58_bytes(text@) is None,
        },
{
    bs58::decode(text).into_vec()
}

} // verus!
