//! Trusted bindings to the cryptographic routines of outside crates.
//!
//! The digest and the Base58 text are named rather than written out:
//! both are functions of their input alone, and their definitions are
//! far too large to restate here.

use vstd::prelude::*;
use sha2::Digest;

verus! {

/// The SHA-256 digest of a byte sequence, by name only.
pub uninterp spec fn sha256_of(bytes: Seq<u8>) -> Seq<u8>;

/// The Base58 text of a byte sequence, by name only.
pub uninterp spec fn base58_of(bytes: Seq<u8>) -> Seq<char>;

/// Relies on sha2::Sha256 (`Digest::update`, `Digest::finalize`): the
/// digest depends on the input bytes alone and is exactly 32 bytes long.
#[verifier::external_body]
pub(crate) fn sha256(bytes: &[u8]) -> (r: Vec<u8>)
    ensures
        r@ == sha256_of(bytes@),
        r@.len() == 32,
{
    let mut hasher = sha2::Sha256::new();
    hasher.update(bytes);
    hasher.finalize().to_vec()
}

/// Relies on bs58::encode (`EncodeBuilder::into_string`): the Base58
/// text of the bytes, a function of the bytes alone.
#[verifier::external_body]
pub(crate) fn base58_string(bytes: &[u8]) -> (r: String)
    ensures
        r@ == base58_of(bytes@),
{
    bs58::encode(bytes).into_string()
}

} // verus!
