//! The tagged wire codec: round trips, exact bytes, and the failure cases.

use ssh_pubkey::{
    DssPublicKey, EcDsaPublicKey, Ed25519PublicKey, ProtoError, PublicKey, RsaPublicKey,
    SkEcDsaPublicKey, SkEd25519PublicKey,
};

/// One length-prefixed run: 32-bit big-endian length, then the bytes.
fn run(d: &[u8]) -> Vec<u8> {
    let n = d.len() as u32;
    let mut out = vec![
        ((n >> 24) & 0xff) as u8,
        ((n >> 16) & 0xff) as u8,
        ((n >> 8) & 0xff) as u8,
        (n & 0xff) as u8,
    ];
    out.extend_from_slice(d);
    out
}

fn round_trip(k: &PublicKey) -> PublicKey {
    let bytes = k.serialize();
    PublicKey::deserialize(&bytes).unwrap()
}

#[test]
fn rsa_round_trip() {
    let k = PublicKey::Rsa(RsaPublicKey {
        e: vec![1, 0, 1],
        n: vec![0, 0xff, 1, 2],
    });
    assert!(round_trip(&k) == k);
}

#[test]
fn dss_round_trip() {
    let k = PublicKey::Dss(DssPublicKey {
        p: vec![0, 0x80, 1, 2],
        q: vec![7],
        g: vec![],
        y: vec![9, 9, 9],
    });
    assert!(round_trip(&k) == k);
}

#[test]
fn ed25519_round_trip_empty_buffer() {
    let k = PublicKey::Ed25519(Ed25519PublicKey { enc_a: vec![] });
    assert!(round_trip(&k) == k);
}

#[test]
fn sk_ed25519_round_trip() {
    let k = PublicKey::SkEd25519(SkEd25519PublicKey {
        enc_a: vec![0xde, 0xad],
        application: String::from("ssh:пример"),
    });
    assert!(round_trip(&k) == k);
}

#[test]
fn ecdsa_round_trip() {
    let k = PublicKey::EcDsa(EcDsaPublicKey {
        identifier: String::from("nistp256"),
        q: vec![4, 1, 2, 3],
    });
    assert!(round_trip(&k) == k);
}

#[test]
fn sk_ecdsa_round_trip() {
    let k = PublicKey::SkEcDsa(SkEcDsaPublicKey {
        identifier: String::from("nistp384"),
        q: vec![4, 9, 8],
        application: String::from("ssh:example.org"),
    });
    assert!(round_trip(&k) == k);
}

#[test]
fn sk_ecdsa_identifier_containing_suffix_round_trips() {
    let k = PublicKey::SkEcDsa(SkEcDsaPublicKey {
        identifier: String::from("nistp256@openssh.com"),
        q: vec![4],
        application: String::from("app"),
    });
    assert!(round_trip(&k) == k);
}

#[test]
fn long_identifier_round_trip() {
    let k = PublicKey::EcDsa(EcDsaPublicKey {
        identifier: "x".repeat(10_000),
        q: vec![1],
    });
    assert!(round_trip(&k) == k);
}

#[test]
fn rsa_exact_wire_bytes() {
    let k = PublicKey::Rsa(RsaPublicKey { e: vec![1], n: vec![2, 3] });
    let mut expected = run(b"ssh-rsa");
    expected.extend_from_slice(&run(&[1]));
    expected.extend_from_slice(&run(&[2, 3]));
    assert_eq!(k.serialize(), expected);
}

#[test]
fn ecdsa_tag_carries_identifier_and_payload_does_not() {
    let k = PublicKey::EcDsa(EcDsaPublicKey {
        identifier: String::from("nistp256"),
        q: vec![4, 5],
    });
    let mut expected = run(b"ecdsa-sha2-nistp256");
    expected.extend_from_slice(&run(&[4, 5]));
    assert_eq!(k.serialize(), expected);
}

#[test]
fn unknown_discriminant_is_rejected() {
    let bytes = run(b"ssh-unknown-type");
    match PublicKey::deserialize(&bytes) {
        Err(ProtoError::UnknownAlgorithm(s)) => assert_eq!(s, "ssh-unknown-type"),
        other => panic!("expected UnknownAlgorithm, got {:?}", other),
    }
}

#[test]
fn truncated_rsa_payload_is_malformed() {
    let k = PublicKey::Rsa(RsaPublicKey { e: vec![1, 0, 1], n: vec![0, 9, 9] });
    let mut bytes = k.serialize();
    bytes.pop();
    assert!(matches!(
        PublicKey::deserialize(&bytes),
        Err(ProtoError::MalformedPayload)
    ));
}

#[test]
fn missing_rsa_field_is_malformed() {
    let mut bytes = run(b"ssh-rsa");
    bytes.extend_from_slice(&run(&[1]));
    assert!(matches!(
        PublicKey::deserialize(&bytes),
        Err(ProtoError::MalformedPayload)
    ));
}

#[test]
fn trailing_bytes_are_malformed() {
    let k = PublicKey::Ed25519(Ed25519PublicKey { enc_a: vec![1, 2] });
    let mut bytes = k.serialize();
    bytes.push(0);
    assert!(matches!(
        PublicKey::deserialize(&bytes),
        Err(ProtoError::MalformedPayload)
    ));
}

#[test]
fn empty_input_is_malformed() {
    assert!(matches!(
        PublicKey::deserialize(&[]),
        Err(ProtoError::MalformedPayload)
    ));
}

#[test]
fn non_utf8_discriminant_is_malformed() {
    let bytes = run(&[0xff, 0xfe, 0xfd]);
    assert!(matches!(
        PublicKey::deserialize(&bytes),
        Err(ProtoError::MalformedPayload)
    ));
}

#[test]
fn empty_ecdsa_identifier_is_unknown() {
    let mut bytes = run(b"ecdsa-sha2-");
    bytes.extend_from_slice(&run(&[4]));
    match PublicKey::deserialize(&bytes) {
        Err(ProtoError::UnknownAlgorithm(s)) => assert_eq!(s, "ecdsa-sha2-"),
        other => panic!("expected UnknownAlgorithm, got {:?}", other),
    }
}

#[test]
fn sk_ecdsa_without_suffix_is_unknown() {
    let mut bytes = run(b"sk-ecdsa-sha2-nistp256");
    bytes.extend_from_slice(&run(&[4]));
    bytes.extend_from_slice(&run(b"app"));
    assert!(matches!(
        PublicKey::deserialize(&bytes),
        Err(ProtoError::UnknownAlgorithm(_))
    ));
}
