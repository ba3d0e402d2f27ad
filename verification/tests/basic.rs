use keri::derivation::basic::Basic;
use keri::derivation::DerivationCode;
use keri::keys::PublicKey;
use keri::prefix::Prefix;

#[test]
fn test_code_len() {
    assert_eq!(Basic::Ed25519.code_len(), 1);
    assert_eq!(Basic::Ed25519NT.code_len(), 1);
    assert_eq!(Basic::X25519.code_len(), 1);
    assert_eq!(Basic::X448.code_len(), 1);

    assert_eq!(Basic::ECDSAsecp256k1NT.code_len(), 4);
    assert_eq!(Basic::ECDSAsecp256k1.code_len(), 4);
    assert_eq!(Basic::Ed448NT.code_len(), 4);
    assert_eq!(Basic::Ed448.code_len(), 4);
}

#[test]
fn test_derivative_b64_len() {
    assert_eq!(Basic::Ed25519NT.derivative_b64_len(), 43);
    assert_eq!(Basic::Ed25519.derivative_b64_len(), 43);
    assert_eq!(Basic::X25519.derivative_b64_len(), 43);

    assert_eq!(Basic::X448.derivative_b64_len(), 75);

    assert_eq!(Basic::ECDSAsecp256k1NT.derivative_b64_len(), 47);
    assert_eq!(Basic::ECDSAsecp256k1.derivative_b64_len(), 47);

    assert_eq!(Basic::Ed448NT.derivative_b64_len(), 76);
    assert_eq!(Basic::Ed448.derivative_b64_len(), 76);
}

#[test]
fn test_to_str() {
    assert_eq!(Basic::Ed25519NT.to_str(), "B");
    assert_eq!(Basic::X25519.to_str(), "C");
    assert_eq!(Basic::Ed25519.to_str(), "D");
    assert_eq!(Basic::X448.to_str(), "L");
    assert_eq!(Basic::ECDSAsecp256k1NT.to_str(), "1AAA");
    assert_eq!(Basic::ECDSAsecp256k1.to_str(), "1AAB");
    assert_eq!(Basic::Ed448NT.to_str(), "1AAC");
    assert_eq!(Basic::Ed448.to_str(), "1AAD");
}

#[test]
fn basic_test_from_str() {
    assert_eq!(Basic::from_str(&"B").unwrap(), Basic::Ed25519NT);
    assert_eq!(Basic::from_str(&"C").unwrap(), Basic::X25519);
    assert_eq!(Basic::from_str(&"D").unwrap(), Basic::Ed25519);
    assert_eq!(Basic::from_str(&"L").unwrap(), Basic::X448);

    assert_eq!(Basic::from_str(&"1AAA").unwrap(), Basic::ECDSAsecp256k1NT);
    assert_eq!(Basic::from_str(&"1AAB").unwrap(), Basic::ECDSAsecp256k1);
    assert_eq!(Basic::from_str(&"1AAC").unwrap(), Basic::Ed448NT);
    assert_eq!(Basic::from_str(&"1AAD").unwrap(), Basic::Ed448);
}

#[test]
fn test_basic() {
    let der = Basic::ECDSAsecp256k1NT.derive(PublicKey::new([0; 33].to_vec()));
    assert_eq!(der.to_str(), ["1AAA".to_string(), "A".repeat(47)].join(""));

    let der = Basic::ECDSAsecp256k1.derive(PublicKey::new([0; 33].to_vec()));
    assert_eq!(der.to_str(), ["1AAB".to_string(), "A".repeat(47)].join(""));

    let der = Basic::Ed25519NT.derive(PublicKey::new([0; 32].to_vec()));
    assert_eq!(der.to_str(), ["B".to_string(), "A".repeat(43)].join(""));

    let der = Basic::Ed25519.derive(PublicKey::new([0; 32].to_vec()));
    assert_eq!(der.to_str(), ["D".to_string(), "A".repeat(43)].join(""));

    let der = Basic::Ed448NT.derive(PublicKey::new([0; 57].to_vec()));
    assert_eq!(der.to_str(), ["1AAC".to_string(), "A".repeat(76)].join(""));

    let der = Basic::Ed448.derive(PublicKey::new([0; 57].to_vec()));
    assert_eq!(der.to_str(), ["1AAD".to_string(), "A".repeat(76)].join(""));

    let der = Basic::X25519.derive(PublicKey::new([0; 32].to_vec()));
    assert_eq!(der.to_str(), ["C".to_string(), "A".repeat(43)].join(""));

    let der = Basic::X448.derive(PublicKey::new([0; 56].to_vec()));
    assert_eq!(der.to_str(), ["L".to_string(), "A".repeat(75)].join(""));
}
