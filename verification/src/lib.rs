//! A verified keyring for JSON Web Keys.
//!
//! JWKs are fingerprinted with the RFC 7638 canonical thumbprint
//! (SHA-256 over a canonical JSON form, base64url-no-pad encoded),
//! validated as Ed25519 verifying keys, and stored in a ring that maps
//! each identifier to raw public-key bytes and never silently
//! overwrites an existing entry on import.

pub mod crypto;
pub mod errors;
pub mod jwk;
pub mod keyring;

pub use errors::ImportError;
pub use jwk::JSONWebKeySet;
pub use jwk::Thumbprintable;
pub use keyring::KeyRing;
