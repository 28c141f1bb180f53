//! JSON Web Key representations, their RFC 7638 thumbprints, and
//! extraction of raw Ed25519 verifying-key bytes.

use vstd::prelude::*;

use crate::crypto::b64url_decode;
use crate::crypto::b64url_decoding;
use crate::crypto::b64url_encode;
use crate::crypto::b64url_of;
use crate::crypto::ed25519_accepts;
use crate::crypto::ed25519_verifying_key_bytes;
use crate::crypto::sha256_digest;
use crate::crypto::sha256_of;
use crate::errors::ImportError;
use vstd::string::StringExecFns;

verus! {

/// A JSON Web Key holding only the members that RFC 7638 requires for
/// thumbprinting; all other JWK members are discarded upstream.
#[derive(Eq, PartialEq, Debug, Clone)]
pub enum Thumbprintable {
    /// An elliptic curve key
    EC {
        /// Corresponding crv
        crv: String,
        /// Corresponding x
        x: String,
        /// Corresponding y
        y: String,
    },
    /// An OKP key, supporting Ed25519 keys
    OKP {
        /// Corresponding crv
        crv: String,
        /// Corresponding x
        x: String,
    },
    /// An RSA key
    RSA {
        /// Corresponding e
        e: String,
        /// Corresponding n
        n: String,
    },
    /// A symmetric key
    OCT {
        /// Corresponding k
        k: String,
    },
}

/// Representation of a JSON Web Key Set: an ordered sequence of keys.
#[derive(Eq, PartialEq, Debug, Clone)]
pub struct JSONWebKeySet {
    /// The keys of the set, in document order.
    pub keys: Vec<Thumbprintable>,
}

/// The RFC 7638 canonical JSON form of a key: exactly the required
/// members of its kind, in lexicographic member order, with no
/// whitespace.
pub open spec fn spec_canonical_json(jwk: Thumbprintable) -> Seq<char> {
    match jwk {
        Thumbprintable::EC { crv, x, y } => "{\"crv\":\""@ + crv@ + "\",\"kty\":\"EC\",\"x\":\""@
            + x@ + "\",\"y\":\""@ + y@ + "\"}"@,
        Thumbprintable::OKP { crv, x } => "{\"crv\":\""@ + crv@ + "\",\"kty\":\"OKP\",\"x\":\""@
            + x@ + "\"}"@,
        Thumbprintable::RSA { e, n } => "{\"e\":\""@ + e@ + "\",\"kty\":\"RSA\",\"n\":\""@ + n@
            + "\"}"@,
        Thumbprintable::OCT { k } => "{\"k\":\""@ + k@ + "\",\"kty\":\"oct\"}"@,
    }
}

/// The RFC 7638 thumbprint of a key: SHA-256 over the canonical JSON
/// form, base64url-no-pad encoded.
pub open spec fn spec_thumbprint(jwk: Thumbprintable) -> Seq<char> {
    b64url_of(sha256_of(spec_canonical_json(jwk)))
}

/// Whether the key belongs to the one supported family: an OKP key on
/// the Ed25519 curve.
pub open spec fn spec_supported(jwk: Thumbprintable) -> bool {
    match jwk {
        Thumbprintable::OKP { crv, x } => crv@ == "Ed25519"@,
        _ => false,
    }
}

/// The `x` member of an OKP key, the base64url encoding of its public
/// key bytes.
pub open spec fn spec_x_field(jwk: Thumbprintable) -> Seq<char> {
    match jwk {
        Thumbprintable::OKP { crv, x } => x@,
        _ => Seq::empty(),
    }
}

/// Whether the `x` member decodes as base64url-no-pad.
pub open spec fn spec_decodes(jwk: Thumbprintable) -> bool {
    b64url_decoding(spec_x_field(jwk)) is Some
}

/// The bytes the `x` member decodes to, when it decodes.
pub open spec fn spec_decoded_bytes(jwk: Thumbprintable) -> Seq<u8> {
    b64url_decoding(spec_x_field(jwk))->Some_0
}

/// Whether raw public-key bytes can be extracted from the key: it is a
/// supported key whose `x` member decodes to a well-formed Ed25519
/// verifying key.
pub open spec fn spec_extractable(jwk: Thumbprintable) -> bool {
    spec_supported(jwk) && spec_decodes(jwk) && ed25519_accepts(spec_decoded_bytes(jwk))
}

/// The raw public-key bytes of an extractable key.
pub open spec fn spec_public_key(jwk: Thumbprintable) -> Seq<u8> {
    spec_decoded_bytes(jwk)
}

/// Whether an error value reports exactly why extraction failed on a
/// key: which failure it names tells which stage rejected the key.
pub open spec fn spec_extract_error_matches(e: ImportError, jwk: Thumbprintable) -> bool {
    &&& (e is UnsupportedAlgorithm <==> !spec_supported(jwk))
    &&& (e is ParsingError <==> spec_supported(jwk) && !spec_decodes(jwk))
    &&& (e is ConversionError <==> spec_supported(jwk) && spec_decodes(jwk) && !ed25519_accepts(
        spec_decoded_bytes(jwk),
    ))
    &&& !(e is KeyAlreadyExists)
}

impl Thumbprintable {
    /// The canonical JSON form of the key, built by hand so that the
    /// byte layout is exact: member order and absence of whitespace
    /// are what the thumbprint is computed over.
    fn canonical_json(&self) -> (r: String)
        ensures
            r@ == spec_canonical_json(*self),
    {
        match self {
            Thumbprintable::EC { crv, x, y } => {
                let mut s: String = "{\"crv\":\"".to_owned();
                s.append(crv.as_str());
                s.append("\",\"kty\":\"EC\",\"x\":\"");
                s.append(x.as_str());
                s.append("\",\"y\":\"");
                s.append(y.as_str());
                s.append("\"}");
                s
            },
            Thumbprintable::OKP { crv, x } => {
                let mut s: String = "{\"crv\":\"".to_owned();
                s.append(crv.as_str());
                s.append("\",\"kty\":\"OKP\",\"x\":\"");
                s.append(x.as_str());
                s.append("\"}");
                s
            },
            Thumbprintable::RSA { e, n } => {
                let mut s: String = "{\"e\":\"".to_owned();
                s.append(e.as_str());
                s.append("\",\"kty\":\"RSA\",\"n\":\"");
                s.append(n.as_str());
                s.append("\"}");
                s
            },
            Thumbprintable::OCT { k } => {
                let mut s: String = "{\"k\":\"".to_owned();
                s.append(k.as_str());
                s.append("\",\"kty\":\"oct\"}");
                s
            },
        }
    }

    /// Calculate the base64-encoded URL safe JWK thumbprint associated
    /// with the key. Deterministic: the result is a function of the
    /// key's members alone.
    pub fn b64_thumbprint(&self) -> (r: String)
        ensures
            r@ == spec_thumbprint(*self),
    {
        let canonical = self.canonical_json();
        let digest = sha256_digest(canonical.as_str());
        b64url_encode(digest.as_slice())
    }

    /// Attempt to cast into a public key: exactly the OKP/Ed25519 keys
    /// whose `x` member decodes to a well-formed verifying key yield
    /// bytes, and each failure reports the stage that rejected the key.
    pub fn public_key(&self) -> (r: Result<Vec<u8>, ImportError>)
        ensures
            r is Ok <==> spec_extractable(*self),
            r matches Ok(v) ==> v@ == spec_public_key(*self),
            r matches Ok(v) ==> v@.len() == 32,
            r matches Err(e) ==> spec_extract_error_matches(e, *self),
    {
        match self {
            Thumbprintable::OKP { crv, x } => {
                let ed25519_name: String = "Ed25519".to_owned();
                if *crv == ed25519_name {
                    match b64url_decode(x.as_str()) {
                        Ok(decoded) => match ed25519_verifying_key_bytes(&decoded) {
                            Ok(key_bytes) => Ok(key_bytes),
                            Err(e) => Err(ImportError::ConversionError(e)),
                        },
                        Err(e) => Err(ImportError::ParsingError(e)),
                    }
                } else {
                    Err(ImportError::UnsupportedAlgorithm)
                }
            },
            _ => Err(ImportError::UnsupportedAlgorithm),
        }
    }
}

} // verus!
