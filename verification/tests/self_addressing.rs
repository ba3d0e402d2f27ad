use base64::{encode_config, URL_SAFE};
use keri::derivation::self_addressing::SelfAddressing;
use keri::derivation::DerivationCode;
use keri::error::Error;
use keri::prefix::{Prefix, SelfAddressingPrefix};

fn unhex(text: &str) -> Vec<u8> {
    let digits: Vec<u8> = text.chars().map(|c| c.to_digit(16).unwrap() as u8).collect();
    digits.chunks(2).map(|pair| pair[0] * 16 + pair[1]).collect()
}

#[test]
fn test_self_addressing() {
    let pre = SelfAddressingPrefix::from_str("ELC5L3iBVD77d_MYbYGGCUQgqQBju1o4x1Ud-z2sL-ux").unwrap();
    assert_eq!(pre.derivation, SelfAddressing::Blake3_256);
    assert_eq!(encode_config(pre.digest, URL_SAFE), "ALC5L3iBVD77d_MYbYGGCUQgqQBju1o4x1Ud-z2sL-ux");
}

#[test]
fn decoded_digest_bytes() {
    let pre = SelfAddressingPrefix::from_str("ELC5L3iBVD77d_MYbYGGCUQgqQBju1o4x1Ud-z2sL-ux").unwrap();
    assert_eq!(
        pre.digest,
        unhex("00b0b92f7881543efb77f3186d8186094420a90063bb5a38c7551dfb3dac2febb1")
    );
    assert_eq!(pre.derivative(), pre.digest);
    assert_eq!(pre.derivation_code(), "E");
    assert_eq!(pre.to_str(), "ELC5L3iBVD77d_MYbYGGCUQgqQBju1o4x1Ud-z2sL-ux");
}

#[test]
fn digest_code_table() {
    let all = [
        (SelfAddressing::Blake3_256, "E"),
        (SelfAddressing::Blake2B256, "F"),
        (SelfAddressing::Blake2S256, "G"),
        (SelfAddressing::SHA3_256, "H"),
        (SelfAddressing::SHA2_256, "I"),
    ];
    for (code, text) in all {
        assert_eq!(code.to_str(), text);
        assert_eq!(code.code_len(), 1);
        assert_eq!(code.derivative_b64_len(), 43);
        assert_eq!(code.prefix_b64_len(), 44);
        assert_eq!(SelfAddressing::from_str(text), Ok(code));
        assert_eq!(text.parse::<SelfAddressing>(), Ok(code));
    }
    assert_eq!(SelfAddressing::from_str(""), Err(Error::UnknownPrefixCode));
    assert_eq!(SelfAddressing::from_str("D"), Err(Error::UnknownPrefixCode));
    assert_eq!(SelfAddressing::from_str("1AAA"), Err(Error::UnknownDerivationCode));
    assert_eq!(SelfAddressing::from_str("1"), Err(Error::UnknownDerivationCode));
}

#[test]
fn known_digests() {
    assert_eq!(
        SelfAddressing::SHA2_256.digest(b"abc"),
        unhex("ba7816bf8f01cfea414140de5dae2223b00361a396177a9cb410ff61f20015ad")
    );
    assert_eq!(
        SelfAddressing::SHA3_256.digest(b"abc"),
        unhex("3a985da74fe225b2045c172d6bd390bd855f086e3e9d525b46bfe24511431532")
    );
    assert_eq!(
        SelfAddressing::Blake2S256.digest(b"abc"),
        unhex("508c5e8c327c14e2e1a72ba34eeb452f37458b209ed63a294d999b4c86675982")
    );
    assert_eq!(
        SelfAddressing::Blake2B256.digest(b"abc"),
        unhex("bddd813c634239723171ef3fee98579b94964e3bb1cb3e427262c8c068d52319")
    );
    assert_eq!(
        SelfAddressing::Blake3_256.digest(b""),
        unhex("af1349b9f5f9a1a6a0404dea36dcc9499bcb25c9adc112b7cc9a93cae41f3262")
    );
}

#[test]
fn binding_holds_for_the_content_and_for_no_other() {
    let all = [
        SelfAddressing::Blake3_256,
        SelfAddressing::Blake2B256,
        SelfAddressing::Blake2S256,
        SelfAddressing::SHA3_256,
        SelfAddressing::SHA2_256,
    ];
    let content = b"the quick brown fox".to_vec();
    for code in all {
        let pre = SelfAddressingPrefix::new(code, code.digest(&content));
        assert!(pre.verify_binding(&content));
        assert_eq!(code.derive(&content), pre);
        for i in 0..content.len() {
            let mut other = content.clone();
            other[i] ^= 1;
            assert!(!pre.verify_binding(&other));
        }
        assert!(!pre.verify_binding(b""));
    }
    let wrong = SelfAddressingPrefix::new(
        SelfAddressing::SHA2_256,
        SelfAddressing::SHA3_256.digest(&content),
    );
    assert!(!wrong.verify_binding(&content));
}

#[test]
fn holds_digest_compares_all_bytes() {
    let pre = SelfAddressingPrefix::new(SelfAddressing::SHA2_256, vec![1, 2, 3]);
    assert!(pre.holds_digest(&[1, 2, 3]));
    assert!(!pre.holds_digest(&[1, 2, 4]));
    assert!(!pre.holds_digest(&[1, 2]));
    assert!(!pre.holds_digest(&[1, 2, 3, 0]));
    assert!(!pre.holds_digest(&[]));
}

#[test]
fn derived_prefix_text() {
    let pre = SelfAddressing::SHA2_256.derive(b"abc");
    assert_eq!(pre.to_str(), "ILp4Fr-PAc_qQUFA3l2uIiOwA2Gjlhd6nLQQ_2HyABWt");
    let read = SelfAddressingPrefix::from_str(&pre.to_str()).unwrap();
    assert_eq!(read.derivation, SelfAddressing::SHA2_256);
    let mut held = vec![0u8];
    held.extend_from_slice(&pre.digest);
    assert_eq!(read.digest, held);
    assert_eq!(read.to_str(), pre.to_str());
}

#[test]
fn default_prefix() {
    let pre = SelfAddressingPrefix::default();
    assert_eq!(pre.derivation, SelfAddressing::Blake3_256);
    assert!(pre.digest.is_empty());
    assert_eq!(pre.to_str(), ["E".to_string(), "A".repeat(43)].join(""));
}

#[test]
fn equality_is_by_code_and_digest() {
    let a = SelfAddressingPrefix::new(SelfAddressing::SHA2_256, vec![7; 32]);
    let b = SelfAddressingPrefix::new(SelfAddressing::SHA2_256, vec![7; 32]);
    let c = SelfAddressingPrefix::new(SelfAddressing::SHA3_256, vec![7; 32]);
    let d = SelfAddressingPrefix::new(SelfAddressing::SHA2_256, vec![8; 32]);
    assert_eq!(a, b);
    assert_ne!(a, c);
    assert_ne!(a, d);
    let mut set = std::collections::HashSet::new();
    set.insert(a.clone());
    assert!(set.contains(&b));
    assert!(!set.contains(&c));
}

#[test]
fn digest_codes_and_key_codes_are_apart() {
    let key = ["D".to_string(), "A".repeat(43)].join("");
    let digest = ["E".to_string(), "A".repeat(43)].join("");
    assert_eq!(SelfAddressingPrefix::from_str(&key), Err(Error::UnknownPrefixCode));
    assert_eq!(keri::prefix::BasicPrefix::from_str(&digest), Err(Error::UnknownPrefixCode));
    assert!(SelfAddressingPrefix::from_str(&digest).is_ok());
    assert!(keri::prefix::BasicPrefix::from_str(&key).is_ok());
}
