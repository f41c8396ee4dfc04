//! Algorithm names, private-to-public projection, and equality/hashing.

use std::collections::hash_map::DefaultHasher;
use std::hash::{Hash, Hasher};

use ssh_pubkey::{
    DssPrivateKey, DssPublicKey, EcDsaPrivateKey, EcDsaPublicKey, Ed25519PrivateKey,
    Ed25519PublicKey, KeyType, PrivateKey, PublicKey, RsaPrivateKey, RsaPublicKey,
    SkEcDsaPrivateKey, SkEcDsaPublicKey, SkEd25519PrivateKey, SkEd25519PublicKey,
};

fn hash_of(k: &PublicKey) -> u64 {
    let mut h = DefaultHasher::new();
    k.hash(&mut h);
    h.finish()
}

#[test]
fn key_type_literals() {
    let rsa = RsaPublicKey { e: vec![1], n: vec![2] };
    assert_eq!(rsa.key_type(), "ssh-rsa");
    let dss = DssPublicKey { p: vec![], q: vec![], g: vec![], y: vec![] };
    assert_eq!(dss.key_type(), "ssh-dss");
    let ed = Ed25519PublicKey { enc_a: vec![1] };
    assert_eq!(ed.key_type(), "ssh-ed25519");
    let sk_ed = SkEd25519PublicKey { enc_a: vec![1], application: String::from("a") };
    assert_eq!(sk_ed.key_type(), "sk-ssh-ed25519@openssh.com");
    let ec = EcDsaPublicKey { identifier: String::from("nistp256"), q: vec![4] };
    assert_eq!(ec.key_type(), "ecdsa-sha2-nistp256");
    let sk_ec = SkEcDsaPublicKey {
        identifier: String::from("nistp256"),
        q: vec![4],
        application: String::from("a"),
    };
    assert_eq!(sk_ec.key_type(), "sk-ecdsa-sha2-nistp256@openssh.com");
}

#[test]
fn enum_key_type_delegates() {
    let k = PublicKey::EcDsa(EcDsaPublicKey { identifier: String::from("nistp521"), q: vec![] });
    assert_eq!(k.key_type(), "ecdsa-sha2-nistp521");
    let k = PublicKey::Rsa(RsaPublicKey { e: vec![], n: vec![] });
    assert_eq!(k.key_type(), "ssh-rsa");
}

#[test]
fn rsa_projection_copies_public_fields() {
    let private = RsaPrivateKey {
        n: vec![0, 9, 8],
        e: vec![1, 0, 1],
        d: vec![42],
        iqmp: vec![43],
        p: vec![44],
        q: vec![45],
    };
    let public = RsaPublicKey::from(&private);
    assert_eq!(public.e, private.e);
    assert_eq!(public.n, private.n);
    let consumed = RsaPublicKey::from(private);
    assert!(consumed == public);
}

#[test]
fn dss_projection_copies_public_fields() {
    let private = DssPrivateKey {
        p: vec![1],
        q: vec![2],
        g: vec![3],
        y: vec![4],
        x: vec![5],
    };
    let public = DssPublicKey::from(&private);
    assert_eq!((public.p, public.q, public.g, public.y), (vec![1], vec![2], vec![3], vec![4]));
}

#[test]
fn every_private_family_projects_to_its_public_family() {
    let cases = vec![
        PrivateKey::Rsa(RsaPrivateKey {
            n: vec![9],
            e: vec![1],
            d: vec![],
            iqmp: vec![],
            p: vec![],
            q: vec![],
        }),
        PrivateKey::Dss(DssPrivateKey {
            p: vec![1],
            q: vec![2],
            g: vec![3],
            y: vec![4],
            x: vec![5],
        }),
        PrivateKey::EcDsa(EcDsaPrivateKey {
            identifier: String::from("nistp256"),
            q: vec![4],
            d: vec![9],
        }),
        PrivateKey::SkEcDsa(SkEcDsaPrivateKey {
            identifier: String::from("nistp256"),
            q: vec![4],
            application: String::from("app"),
            flags: 1,
            key_handle: vec![1],
            reserved: vec![],
        }),
        PrivateKey::Ed25519(Ed25519PrivateKey { enc_a: vec![7], k_enc_a: vec![8] }),
        PrivateKey::SkEd25519(SkEd25519PrivateKey {
            enc_a: vec![7],
            application: String::from("app"),
            flags: 1,
            key_handle: vec![1],
            reserved: vec![],
        }),
    ];
    for private in cases {
        let by_ref = PublicKey::from(&private);
        let by_value = PublicKey::from(private.clone());
        assert!(by_ref == by_value);
        let matched = matches!(
            (&private, &by_value),
            (PrivateKey::Rsa(_), PublicKey::Rsa(_))
                | (PrivateKey::Dss(_), PublicKey::Dss(_))
                | (PrivateKey::EcDsa(_), PublicKey::EcDsa(_))
                | (PrivateKey::SkEcDsa(_), PublicKey::SkEcDsa(_))
                | (PrivateKey::Ed25519(_), PublicKey::Ed25519(_))
                | (PrivateKey::SkEd25519(_), PublicKey::SkEd25519(_))
        );
        assert!(matched);
    }
}

#[test]
fn sk_projection_keeps_application_and_drops_secrets() {
    let private = SkEcDsaPrivateKey {
        identifier: String::from("nistp256"),
        q: vec![4, 4],
        application: String::from("ssh:token"),
        flags: 0x11,
        key_handle: vec![9, 9],
        reserved: vec![1],
    };
    let public = SkEcDsaPublicKey::from(private);
    assert_eq!(public.identifier, "nistp256");
    assert_eq!(public.q, vec![4, 4]);
    assert_eq!(public.application, "ssh:token");
}

#[test]
fn equality_and_hash_agree_across_construction_paths() {
    let direct = PublicKey::EcDsa(EcDsaPublicKey {
        identifier: String::from("nistp256"),
        q: vec![4, 1, 2],
    });
    let decoded = PublicKey::deserialize(&direct.serialize()).unwrap();
    let projected = PublicKey::from(PrivateKey::EcDsa(EcDsaPrivateKey {
        identifier: String::from("nistp256"),
        q: vec![4, 1, 2],
        d: vec![0xaa],
    }));
    assert!(direct == decoded);
    assert!(direct == projected);
    assert_eq!(hash_of(&direct), hash_of(&decoded));
    assert_eq!(hash_of(&direct), hash_of(&projected));
}

#[test]
fn field_difference_breaks_equality() {
    let a = PublicKey::Rsa(RsaPublicKey { e: vec![1], n: vec![2] });
    let b = PublicKey::Rsa(RsaPublicKey { e: vec![1], n: vec![2, 0] });
    let c = PublicKey::Dss(DssPublicKey { p: vec![1], q: vec![2], g: vec![], y: vec![] });
    assert!(a != b);
    assert!(a != c);
}
