//! Private-key material for the six supported families, and its total,
//! infallible projection to the public side.
//!
//! Each private struct carries the public-facing fields its public
//! counterpart copies, plus secret material that the projection drops
//! entirely.  The conversions exist for owned values and, as the wider
//! protocol uses them, for borrowed ones; both produce the same public key.

use vstd::prelude::*;

use crate::public_key::{
    DssPublicKey, EcDsaPublicKey, Ed25519PublicKey, MpInt, PublicKey, RsaPublicKey,
    SkEcDsaPublicKey, SkEd25519PublicKey,
};
use crate::wire::clone_bytes;

verus! {

#[derive(Clone, Debug)]
pub struct RsaPrivateKey {
    pub n: MpInt,
    pub e: MpInt,
    /// Private exponent; never copied to the public side.
    pub d: MpInt,
    pub iqmp: MpInt,
    pub p: MpInt,
    pub q: MpInt,
}

#[derive(Clone, Debug)]
pub struct DssPrivateKey {
    pub p: MpInt,
    pub q: MpInt,
    pub g: MpInt,
    pub y: MpInt,
    /// Private value; never copied to the public side.
    pub x: MpInt,
}

#[derive(Clone, Debug)]
pub struct EcDsaPrivateKey {
    pub identifier: String,
    pub q: MpInt,
    /// Private scalar; never copied to the public side.
    pub d: MpInt,
}

#[derive(Clone, Debug)]
pub struct Ed25519PrivateKey {
    pub enc_a: Vec<u8>,
    /// Private half of the key pair; never copied to the public side.
    pub k_enc_a: Vec<u8>,
}

#[derive(Clone, Debug)]
pub struct SkEcDsaPrivateKey {
    pub identifier: String,
    pub q: MpInt,
    pub application: String,
    pub flags: u8,
    pub key_handle: Vec<u8>,
    pub reserved: Vec<u8>,
}

#[derive(Clone, Debug)]
pub struct SkEd25519PrivateKey {
    pub enc_a: Vec<u8>,
    pub application: String,
    pub flags: u8,
    pub key_handle: Vec<u8>,
    pub reserved: Vec<u8>,
}

/// The closed set of private-key families, mirroring [`PublicKey`] member
/// for member.
#[derive(Clone, Debug)]
pub enum PrivateKey {
    Dss(DssPrivateKey),
    Ed25519(Ed25519PrivateKey),
    SkEd25519(SkEd25519PrivateKey),
    Rsa(RsaPrivateKey),
    EcDsa(EcDsaPrivateKey),
    SkEcDsa(SkEcDsaPrivateKey),
}

/// The public projection of a private key: the public-facing fields,
/// unchanged, in the matching public variant.  The match is exhaustive on
/// purpose: a new family cannot be added without extending it here.
pub open spec fn spec_project(k: PrivateKey) -> PublicKey {
    match k {
        PrivateKey::Dss(x) => PublicKey::Dss(DssPublicKey { p: x.p, q: x.q, g: x.g, y: x.y }),
        PrivateKey::Ed25519(x) => PublicKey::Ed25519(Ed25519PublicKey { enc_a: x.enc_a }),
        PrivateKey::SkEd25519(x) => PublicKey::SkEd25519(
            SkEd25519PublicKey { enc_a: x.enc_a, application: x.application },
        ),
        PrivateKey::Rsa(x) => PublicKey::Rsa(RsaPublicKey { e: x.e, n: x.n }),
        PrivateKey::EcDsa(x) => PublicKey::EcDsa(
            EcDsaPublicKey { identifier: x.identifier, q: x.q },
        ),
        PrivateKey::SkEcDsa(x) => PublicKey::SkEcDsa(
            SkEcDsaPublicKey { identifier: x.identifier, q: x.q, application: x.application },
        ),
    }
}

impl From<RsaPrivateKey> for RsaPublicKey {
    fn from(key: RsaPrivateKey) -> (r: Self) {
        RsaPublicKey { e: key.e, n: key.n }
    }
}

impl vstd::std_specs::convert::FromSpecImpl<RsaPrivateKey> for RsaPublicKey {
    open spec fn obeys_from_spec() -> bool {
        true
    }

    open spec fn from_spec(k: RsaPrivateKey) -> Self {
        RsaPublicKey { e: k.e, n: k.n }
    }
}

impl From<DssPrivateKey> for DssPublicKey {
    fn from(key: DssPrivateKey) -> (r: Self) {
        DssPublicKey { p: key.p, q: key.q, g: key.g, y: key.y }
    }
}

impl vstd::std_specs::convert::FromSpecImpl<DssPrivateKey> for DssPublicKey {
    open spec fn obeys_from_spec() -> bool {
        true
    }

    open spec fn from_spec(k: DssPrivateKey) -> Self {
        DssPublicKey { p: k.p, q: k.q, g: k.g, y: k.y }
    }
}

impl From<EcDsaPrivateKey> for EcDsaPublicKey {
    fn from(key: EcDsaPrivateKey) -> (r: Self) {
        EcDsaPublicKey { identifier: key.identifier, q: key.q }
    }
}

impl vstd::std_specs::convert::FromSpecImpl<EcDsaPrivateKey> for EcDsaPublicKey {
    open spec fn obeys_from_spec() -> bool {
        true
    }

    open spec fn from_spec(k: EcDsaPrivateKey) -> Self {
        EcDsaPublicKey { identifier: k.identifier, q: k.q }
    }
}

impl From<SkEcDsaPrivateKey> for SkEcDsaPublicKey {
    fn from(key: SkEcDsaPrivateKey) -> (r: Self) {
        SkEcDsaPublicKey { identifier: key.identifier, q: key.q, application: key.application }
    }
}

impl vstd::std_specs::convert::FromSpecImpl<SkEcDsaPrivateKey> for SkEcDsaPublicKey {
    open spec fn obeys_from_spec() -> bool {
        true
    }

    open spec fn from_spec(k: SkEcDsaPrivateKey) -> Self {
        SkEcDsaPublicKey { identifier: k.identifier, q: k.q, application: k.application }
    }
}

impl From<Ed25519PrivateKey> for Ed25519PublicKey {
    fn from(key: Ed25519PrivateKey) -> (r: Self) {
        Ed25519PublicKey { enc_a: key.enc_a }
    }
}

impl vstd::std_specs::convert::FromSpecImpl<Ed25519PrivateKey> for Ed25519PublicKey {
    open spec fn obeys_from_spec() -> bool {
        true
    }

    open spec fn from_spec(k: Ed25519PrivateKey) -> Self {
        Ed25519PublicKey { enc_a: k.enc_a }
    }
}

impl From<SkEd25519PrivateKey> for SkEd25519PublicKey {
    fn from(key: SkEd25519PrivateKey) -> (r: Self) {
        SkEd25519PublicKey { enc_a: key.enc_a, application: key.application }
    }
}

impl vstd::std_specs::convert::FromSpecImpl<SkEd25519PrivateKey> for SkEd25519PublicKey {
    open spec fn obeys_from_spec() -> bool {
        true
    }

    open spec fn from_spec(k: SkEd25519PrivateKey) -> Self {
        SkEd25519PublicKey { enc_a: k.enc_a, application: k.application }
    }
}

impl From<PrivateKey> for PublicKey {
    /// Dispatches on the active private variant; every family has its own
    /// arm, with no default.
    fn from(key: PrivateKey) -> (r: Self) {
        match key {
            PrivateKey::Dss(k) => PublicKey::Dss(DssPublicKey::from(k)),
            PrivateKey::Ed25519(k) => PublicKey::Ed25519(Ed25519PublicKey::from(k)),
            PrivateKey::SkEd25519(k) => PublicKey::SkEd25519(SkEd25519PublicKey::from(k)),
            PrivateKey::Rsa(k) => PublicKey::Rsa(RsaPublicKey::from(k)),
            PrivateKey::EcDsa(k) => PublicKey::EcDsa(EcDsaPublicKey::from(k)),
            PrivateKey::SkEcDsa(k) => PublicKey::SkEcDsa(SkEcDsaPublicKey::from(k)),
        }
    }
}

impl vstd::std_specs::convert::FromSpecImpl<PrivateKey> for PublicKey {
    open spec fn obeys_from_spec() -> bool {
        true
    }

    open spec fn from_spec(k: PrivateKey) -> Self {
        spec_project(k)
    }
}

impl From<&RsaPrivateKey> for RsaPublicKey {
    /// The borrowing form copies the shared fields and leaves the source
    /// untouched.
    fn from(key: &RsaPrivateKey) -> (r: Self)
        ensures
            r.e@ == key.e@,
            r.n@ == key.n@,
    {
        RsaPublicKey { e: clone_bytes(&key.e), n: clone_bytes(&key.n) }
    }
}

impl vstd::std_specs::convert::FromSpecImpl<&RsaPrivateKey> for RsaPublicKey {
    open spec fn obeys_from_spec() -> bool {
        false
    }

    open spec fn from_spec(k: &RsaPrivateKey) -> Self {
        RsaPublicKey { e: k.e, n: k.n }
    }
}

impl From<&DssPrivateKey> for DssPublicKey {
    fn from(key: &DssPrivateKey) -> (r: Self)
        ensures
            r.p@ == key.p@,
            r.q@ == key.q@,
            r.g@ == key.g@,
            r.y@ == key.y@,
    {
        DssPublicKey {
            p: clone_bytes(&key.p),
            q: clone_bytes(&key.q),
            g: clone_bytes(&key.g),
            y: clone_bytes(&key.y),
        }
    }
}

impl vstd::std_specs::convert::FromSpecImpl<&DssPrivateKey> for DssPublicKey {
    open spec fn obeys_from_spec() -> bool {
        false
    }

    open spec fn from_spec(k: &DssPrivateKey) -> Self {
        DssPublicKey { p: k.p, q: k.q, g: k.g, y: k.y }
    }
}

impl From<&EcDsaPrivateKey> for EcDsaPublicKey {
    fn from(key: &EcDsaPrivateKey) -> (r: Self)
        ensures
            r.identifier@ == key.identifier@,
            r.q@ == key.q@,
    {
        EcDsaPublicKey { identifier: key.identifier.clone(), q: clone_bytes(&key.q) }
    }
}

impl vstd::std_specs::convert::FromSpecImpl<&EcDsaPrivateKey> for EcDsaPublicKey {
    open spec fn obeys_from_spec() -> bool {
        false
    }

    open spec fn from_spec(k: &EcDsaPrivateKey) -> Self {
        EcDsaPublicKey { identifier: k.identifier, q: k.q }
    }
}

impl From<&Ed25519PrivateKey> for Ed25519PublicKey {
    fn from(key: &Ed25519PrivateKey) -> (r: Self)
        ensures
            r.enc_a@ == key.enc_a@,
    {
        Ed25519PublicKey { enc_a: clone_bytes(&key.enc_a) }
    }
}

impl vstd::std_specs::convert::FromSpecImpl<&Ed25519PrivateKey> for Ed25519PublicKey {
    open spec fn obeys_from_spec() -> bool {
        false
    }

    open spec fn from_spec(k: &Ed25519PrivateKey) -> Self {
        Ed25519PublicKey { enc_a: k.enc_a }
    }
}

impl From<&PrivateKey> for PublicKey {
    /// Same projection as the consuming form, from a borrow: the result is
    /// byte-identical to `PublicKey::from` of the owned value.
    fn from(key: &PrivateKey) -> (r: Self)
        ensures
            crate::public_key::key_eq(r, spec_project(*key)),
    {
        match key {
            PrivateKey::Dss(k) => PublicKey::Dss(
                DssPublicKey {
                    p: clone_bytes(&k.p),
                    q: clone_bytes(&k.q),
                    g: clone_bytes(&k.g),
                    y: clone_bytes(&k.y),
                },
            ),
            PrivateKey::Ed25519(k) => PublicKey::Ed25519(
                Ed25519PublicKey { enc_a: clone_bytes(&k.enc_a) },
            ),
            PrivateKey::SkEd25519(k) => PublicKey::SkEd25519(
                SkEd25519PublicKey {
                    enc_a: clone_bytes(&k.enc_a),
                    application: k.application.clone(),
                },
            ),
            PrivateKey::Rsa(k) => PublicKey::Rsa(
                RsaPublicKey { e: clone_bytes(&k.e), n: clone_bytes(&k.n) },
            ),
            PrivateKey::EcDsa(k) => PublicKey::EcDsa(
                EcDsaPublicKey { identifier: k.identifier.clone(), q: clone_bytes(&k.q) },
            ),
            PrivateKey::SkEcDsa(k) => PublicKey::SkEcDsa(
                SkEcDsaPublicKey {
                    identifier: k.identifier.clone(),
                    q: clone_bytes(&k.q),
                    application: k.application.clone(),
                },
            ),
        }
    }
}

impl vstd::std_specs::convert::FromSpecImpl<&PrivateKey> for PublicKey {
    open spec fn obeys_from_spec() -> bool {
        false
    }

    open spec fn from_spec(k: &PrivateKey) -> Self {
        spec_project(*k)
    }
}

/// Projection fidelity and exhaustiveness: every private family projects to
/// exactly its public counterpart, and each shared field comes through
/// byte-identical.  The private-only fields do not appear in the result at
/// all.
pub proof fn lemma_projection_fidelity(k: PrivateKey)
    ensures
        match k {
            PrivateKey::Dss(x) => spec_project(k) matches PublicKey::Dss(y) && y.p@ == x.p@ && y.q@
                == x.q@ && y.g@ == x.g@ && y.y@ == x.y@,
            PrivateKey::Ed25519(x) => spec_project(k) matches PublicKey::Ed25519(y) && y.enc_a@
                == x.enc_a@,
            PrivateKey::SkEd25519(x) => spec_project(k) matches PublicKey::SkEd25519(y) && y.enc_a@
                == x.enc_a@ && y.application@ == x.application@,
            PrivateKey::Rsa(x) => spec_project(k) matches PublicKey::Rsa(y) && y.e@ == x.e@ && y.n@
                == x.n@,
            PrivateKey::EcDsa(x) => spec_project(k) matches PublicKey::EcDsa(y) && y.identifier@
                == x.identifier@ && y.q@ == x.q@,
            PrivateKey::SkEcDsa(x) => spec_project(k) matches PublicKey::SkEcDsa(y) && y.identifier@
                == x.identifier@ && y.q@ == x.q@ && y.application@ == x.application@,
        },
{
}

} // verus!
