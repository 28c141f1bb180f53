//! Trusted wrappers around the cryptographic and encoding primitives
//! that thumbprinting and key extraction rely on: SHA-256, base64url
//! without padding, and Ed25519 verifying-key validation.

use vstd::prelude::*;

use base64::Engine;
use sha2::Digest;

verus! {

/// The SHA-256 digest of the UTF-8 bytes of a character sequence.
/// Left unmodeled: the digest is a function of the input alone.
pub uninterp spec fn sha256_of(s: Seq<char>) -> Seq<u8>;

/// Relies on sha2's `Sha256::digest`: a 32-byte digest computed from
/// the input bytes alone.
#[verifier::external_body]
pub(crate) fn sha256_digest(s: &str) -> (r: Vec<u8>)
    ensures
        r@ == sha256_of(s@),
        r@.len() == 32,
{
    sha2::Sha256::digest(s.as_bytes()).to_vec()
}

/// The base64url-no-pad encoding of a byte sequence. Left unmodeled:
/// the encoding is a function of the input bytes alone.
pub uninterp spec fn b64url_of(b: Seq<u8>) -> Seq<char>;

/// Relies on base64's `Engine::encode` with the `URL_SAFE_NO_PAD`
/// engine: the encoding is a function of the input bytes alone.
#[verifier::external_body]
pub(crate) fn b64url_encode(b: &[u8]) -> (r: String)
    ensures
        r@ == b64url_of(b@),
{
    base64::engine::general_purpose::URL_SAFE_NO_PAD.encode(b)
}

/// What base64url-no-pad decoding yields on a character sequence: the
/// decoded bytes, or nothing when the input is not a valid encoding.
/// Left unmodeled: a function of the input alone.
pub uninterp spec fn b64url_decoding(s: Seq<char>) -> Option<Seq<u8>>;

/// Relies on base64's `Engine::decode` with the `URL_SAFE_NO_PAD`
/// engine: decoding succeeds exactly on valid base64url-no-pad input,
/// and what it yields is a function of that input alone.
#[verifier::external_body]
pub(crate) fn b64url_decode(s: &str) -> (r: Result<Vec<u8>, base64::DecodeError>)
    ensures
        r is Ok <==> b64url_decoding(s@) is Some,
        r matches Ok(v) ==> b64url_decoding(s@) == Some(v@),
{
    base64::engine::general_purpose::URL_SAFE_NO_PAD.decode(s)
}

/// Whether a byte sequence is a well-formed Ed25519 verifying key:
/// exactly 32 bytes that encode a decompressible curve point. Left
/// unmodeled: acceptance is a function of the bytes alone.
pub uninterp spec fn ed25519_accepts(b: Seq<u8>) -> bool;

/// Relies on ed25519-dalek's `VerifyingKey::try_from`, which accepts
/// exactly the 32-byte encodings of valid curve points, and on
/// `VerifyingKey::to_bytes`, which returns the same bytes the key was
/// built from.
#[verifier::external_body]
pub(crate) fn ed25519_verifying_key_bytes(b: &Vec<u8>) -> (r: Result<
    Vec<u8>,
    ed25519_dalek::ed25519::signature::Error,
>)
    ensures
        r is Ok <==> ed25519_accepts(b@),
        r matches Ok(v) ==> v@ == b@ && b@.len() == 32,
{
    ed25519_dalek::VerifyingKey::try_from(b.as_slice()).map(|key| key.to_bytes().to_vec())
}

} // verus!
