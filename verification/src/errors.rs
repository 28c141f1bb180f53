use vstd::prelude::*;

verus! {

/// Declares base64's decode error type, so that a failure to decode a
/// base64url key field can be carried inside [`ImportError`].
#[verifier::external_type_specification]
#[verifier::external_body]
pub struct ExDecodeError(base64::DecodeError);

/// Declares the signature error type that ed25519-dalek returns when
/// bytes do not form a valid verifying key, so that it can be carried
/// inside [`ImportError`].
#[verifier::external_type_specification]
#[verifier::external_body]
pub struct ExSignatureError(ed25519_dalek::ed25519::signature::Error);

/// Failures that importing a JSON Web Key can report.
#[derive(Debug)]
pub enum ImportError {
    /// The key names an algorithm or curve that is not supported.
    UnsupportedAlgorithm,
    /// A key field is not valid base64url-no-pad.
    ParsingError(base64::DecodeError),
    /// The decoded bytes do not form a valid public key.
    ConversionError(ed25519_dalek::ed25519::signature::Error),
    /// The identifier is already bound in the ring.
    KeyAlreadyExists,
}

} // verus!
