use base64::Engine;
use jwk_keyring::ImportError;
use jwk_keyring::JSONWebKeySet;
use jwk_keyring::KeyRing;
use jwk_keyring::Thumbprintable;

const KNOWN_X: &str = "JrQLj5P_89iXES9-vFgrIy29clF9CC_oPPsw3c5D0bs";
const KNOWN_THUMBPRINT: &str = "poqkLGiymh_W0uP6PZFw-dvez3QJT5SolqXBCW38r0U";

fn known_jwk() -> Thumbprintable {
    Thumbprintable::OKP {
        crv: String::from("Ed25519"),
        x: String::from(KNOWN_X),
    }
}

/// A second valid Ed25519 verifying key: the encoding of the point with
/// y = 1, which decompresses successfully.
fn other_jwk() -> Thumbprintable {
    let mut bytes = vec![0u8; 32];
    bytes[0] = 1;
    let x = base64::engine::general_purpose::URL_SAFE_NO_PAD.encode(&bytes);
    Thumbprintable::OKP {
        crv: String::from("Ed25519"),
        x,
    }
}

#[test]
fn test_importing_ed25519_key_from_jwks() {
    let mut keyring = KeyRing::default();
    let jwks = JSONWebKeySet {
        keys: vec![known_jwk()],
    };
    for (index, result) in keyring.import_jwks(jwks).into_iter().enumerate() {
        assert_eq!(index, 0);
        assert!(result.is_none());
    }
    assert!(keyring
        .get(&String::from("poqkLGiymh_W0uP6PZFw-dvez3QJT5SolqXBCW38r0U"))
        .is_some());
    assert!(keyring.rename_key(
        String::from("poqkLGiymh_W0uP6PZFw-dvez3QJT5SolqXBCW38r0U"),
        String::from("test-key-ed25519")
    ));
    assert!(keyring.get(&String::from("test-key-ed25519")).is_some());
}

#[test]
fn thumbprint_known_vector() {
    assert_eq!(known_jwk().b64_thumbprint(), KNOWN_THUMBPRINT);
}

#[test]
fn thumbprint_is_deterministic() {
    let jwk = known_jwk();
    assert_eq!(jwk.b64_thumbprint(), jwk.b64_thumbprint());

    let ec = Thumbprintable::EC {
        crv: String::from("P-256"),
        x: String::from("f83OJ3D2xF1Bg8vub9tLe1gHMzV76e8Tus9uPHvRVEU"),
        y: String::from("x_FEzRu9m36HLN_tue659LNpXW6pCyStikYjKIWI5a0"),
    };
    assert_eq!(ec.b64_thumbprint(), ec.b64_thumbprint());
}

#[test]
fn thumbprints_of_distinct_variants_differ() {
    let okp = known_jwk();
    let oct = Thumbprintable::OCT {
        k: String::from(KNOWN_X),
    };
    assert_ne!(okp.b64_thumbprint(), oct.b64_thumbprint());
}

#[test]
fn public_key_returns_decoded_bytes() {
    let key = known_jwk().public_key().unwrap();
    let expected = base64::engine::general_purpose::URL_SAFE_NO_PAD
        .decode(KNOWN_X)
        .unwrap();
    assert_eq!(key, expected);
    assert_eq!(key.len(), 32);
}

#[test]
fn public_key_rejects_unsupported_variants() {
    let ec = Thumbprintable::EC {
        crv: String::from("P-256"),
        x: String::from("abc"),
        y: String::from("def"),
    };
    assert!(matches!(
        ec.public_key(),
        Err(ImportError::UnsupportedAlgorithm)
    ));

    let rsa = Thumbprintable::RSA {
        e: String::from("AQAB"),
        n: String::from("abc"),
    };
    assert!(matches!(
        rsa.public_key(),
        Err(ImportError::UnsupportedAlgorithm)
    ));

    let oct = Thumbprintable::OCT {
        k: String::from("abc"),
    };
    assert!(matches!(
        oct.public_key(),
        Err(ImportError::UnsupportedAlgorithm)
    ));

    let wrong_curve = Thumbprintable::OKP {
        crv: String::from("X25519"),
        x: String::from(KNOWN_X),
    };
    assert!(matches!(
        wrong_curve.public_key(),
        Err(ImportError::UnsupportedAlgorithm)
    ));
}

#[test]
fn public_key_reports_bad_base64() {
    let jwk = Thumbprintable::OKP {
        crv: String::from("Ed25519"),
        x: String::from("!!!not-base64!!!"),
    };
    assert!(matches!(jwk.public_key(), Err(ImportError::ParsingError(_))));
}

#[test]
fn public_key_reports_invalid_key_bytes() {
    // Decodes fine, but to 3 bytes: no 32-byte verifying key.
    let jwk = Thumbprintable::OKP {
        crv: String::from("Ed25519"),
        x: String::from("AAAA"),
    };
    assert!(matches!(
        jwk.public_key(),
        Err(ImportError::ConversionError(_))
    ));
}

#[test]
fn import_raw_fresh_then_duplicate() {
    let mut keyring = KeyRing::default();
    assert!(keyring.import_raw(String::from("id"), vec![1, 2, 3]));
    assert_eq!(keyring.get(&String::from("id")), Some(&vec![1, 2, 3]));

    // A second insert under the same identifier is refused, whatever
    // the bytes, and the original value stays.
    assert!(!keyring.import_raw(String::from("id"), vec![9, 9, 9]));
    assert_eq!(keyring.get(&String::from("id")), Some(&vec![1, 2, 3]));
}

#[test]
fn get_unknown_identifier_returns_none() {
    let keyring = KeyRing::default();
    assert!(keyring.get(&String::from("nobody")).is_none());

    let mut keyring = KeyRing::default();
    keyring.import_raw(String::from("known"), vec![1]);
    assert!(keyring.get(&String::from("unknown")).is_none());
}

#[test]
fn rename_key_absent_source_mutates_nothing() {
    let mut keyring = KeyRing::default();
    assert!(keyring.import_raw(String::from("keep"), vec![7]));
    assert!(!keyring.rename_key(String::from("absent"), String::from("target")));
    assert_eq!(keyring.get(&String::from("keep")), Some(&vec![7]));
    assert!(keyring.get(&String::from("absent")).is_none());
    assert!(keyring.get(&String::from("target")).is_none());
}

#[test]
fn rename_key_moves_entry() {
    let mut keyring = KeyRing::default();
    assert!(keyring.import_raw(String::from("old"), vec![4, 2]));
    assert!(keyring.rename_key(String::from("old"), String::from("new")));
    assert!(keyring.get(&String::from("old")).is_none());
    assert_eq!(keyring.get(&String::from("new")), Some(&vec![4, 2]));
}

#[test]
fn rename_key_onto_existing_target_overwrites_but_reports_false() {
    // Rename is a removal followed by an insert: the source entry is
    // removed, the target's value is overwritten, and the call still
    // reports false because the target was occupied.
    let mut keyring = KeyRing::default();
    assert!(keyring.import_raw(String::from("src"), vec![1]));
    assert!(keyring.import_raw(String::from("dst"), vec![2]));
    assert!(!keyring.rename_key(String::from("src"), String::from("dst")));
    assert!(keyring.get(&String::from("src")).is_none());
    assert_eq!(keyring.get(&String::from("dst")), Some(&vec![1]));
}

#[test]
fn rename_key_onto_itself_succeeds() {
    // Remove-then-insert means the slot is free again by the time the
    // entry is re-inserted under its own name.
    let mut keyring = KeyRing::default();
    assert!(keyring.import_raw(String::from("same"), vec![5]));
    assert!(keyring.rename_key(String::from("same"), String::from("same")));
    assert_eq!(keyring.get(&String::from("same")), Some(&vec![5]));
}

#[test]
fn try_import_jwk_then_reimport_fails_with_key_already_exists() {
    let mut keyring = KeyRing::default();
    assert!(keyring.try_import_jwk(&known_jwk()).is_ok());
    assert!(keyring.get(&String::from(KNOWN_THUMBPRINT)).is_some());

    // Same JWK, same thumbprint: the identifier is already bound.
    assert!(matches!(
        keyring.try_import_jwk(&known_jwk()),
        Err(ImportError::KeyAlreadyExists)
    ));
    // The stored bytes are untouched.
    let expected = base64::engine::general_purpose::URL_SAFE_NO_PAD
        .decode(KNOWN_X)
        .unwrap();
    assert_eq!(
        keyring.get(&String::from(KNOWN_THUMBPRINT)),
        Some(&expected)
    );
}

#[test]
fn try_import_jwk_propagates_extraction_errors() {
    let mut keyring = KeyRing::default();
    let oct = Thumbprintable::OCT {
        k: String::from("abc"),
    };
    assert!(matches!(
        keyring.try_import_jwk(&oct),
        Err(ImportError::UnsupportedAlgorithm)
    ));
    // A failed import binds nothing, not even the thumbprint.
    assert!(keyring.get(&oct.b64_thumbprint()).is_none());
}

#[test]
fn import_jwks_outcomes_are_index_aligned() {
    let mut keyring = KeyRing::default();
    let jwks = JSONWebKeySet {
        keys: vec![
            known_jwk(),
            Thumbprintable::EC {
                crv: String::from("P-256"),
                x: String::from("abc"),
                y: String::from("def"),
            },
            other_jwk(),
        ],
    };
    let outcomes = keyring.import_jwks(jwks);
    assert_eq!(outcomes.len(), 3);
    assert!(outcomes[0].is_none());
    assert!(matches!(
        outcomes[1],
        Some(ImportError::UnsupportedAlgorithm)
    ));
    assert!(outcomes[2].is_none());

    // Both valid keys are retrievable under their thumbprints.
    assert!(keyring.get(&known_jwk().b64_thumbprint()).is_some());
    assert!(keyring.get(&other_jwk().b64_thumbprint()).is_some());
}

#[test]
fn import_jwks_empty_set_returns_no_outcomes() {
    let mut keyring = KeyRing::default();
    let outcomes = keyring.import_jwks(JSONWebKeySet { keys: vec![] });
    assert!(outcomes.is_empty());
}

#[test]
fn import_jwks_duplicate_in_batch_fails_at_second_index() {
    let mut keyring = KeyRing::default();
    let jwks = JSONWebKeySet {
        keys: vec![known_jwk(), known_jwk()],
    };
    let outcomes = keyring.import_jwks(jwks);
    assert_eq!(outcomes.len(), 2);
    assert!(outcomes[0].is_none());
    assert!(matches!(outcomes[1], Some(ImportError::KeyAlreadyExists)));
}
