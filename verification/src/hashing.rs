//! The outside computations a block's hash is built from, behind trusted
//! wrappers: the SHA-256 digest, its base64 rendering, and the clock.

use vstd::prelude::*;
use base64::Engine;
use sha2::Digest;

verus! {

/// The SHA-256 digest of a byte sequence. The digest is a pure function of
/// the input bytes; its value is left abstract.
pub uninterp spec fn sha256_of(bytes: Seq<u8>) -> Seq<u8>;

/// The standard base64 rendering (with padding) of a byte sequence. The
/// rendering is a pure function of the input bytes; beyond its length, its
/// value is left abstract.
pub uninterp spec fn base64_of(bytes: Seq<u8>) -> Seq<char>;

/// Relies on sha2's `Sha256` (through `Digest::digest`): the digest depends
/// on the input bytes alone and is 32 bytes long.
#[verifier::external_body]
pub(crate) fn sha256(data: &Vec<u8>) -> (r: Vec<u8>)
    ensures
        r@ == sha256_of(data@),
        r@.len() == 32,
{
    sha2::Sha256::digest(data.as_slice()).to_vec()
}

/// Relies on base64's standard engine with padding: the rendering depends on
/// the input bytes alone and takes four characters for every started group of
/// three bytes.
#[verifier::external_body]
pub(crate) fn base64_encode(data: &Vec<u8>) -> (r: String)
    ensures
        r@ == base64_of(data@),
        r@.len() == 4 * ((data@.len() + 2) / 3),
{
    base64::engine::general_purpose::STANDARD.encode(data.as_slice())
}

/// Relies on chrono's `Utc::now`, rendered as text: a wall-clock reading, of
/// whose value nothing is assumed.
#[verifier::external_body]
pub(crate) fn now_timestamp() -> String {
    chrono::Utc::now().to_string()
}

} // verus!
