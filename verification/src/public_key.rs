//! The public-key variant structs, the closed [`PublicKey`] enum over them,
//! and the tagged wire codec.
//!
//! A key serializes as two elements: the algorithm-name discriminant from
//! [`KeyType`], then the active variant's fields in their fixed order, each
//! framed as a length-prefixed run ([`crate::wire`]).  Deserialization reads
//! the discriminant first and picks the variant from it alone.

use vstd::prelude::*;
use vstd::string::{StrSliceExecFns, StringExecFns};
use vstd::utf8::encode_utf8;

use crate::error::ProtoError;
use crate::key_type::KeyType;
use crate::strutil::{str_eq_chars, str_has_prefix, str_has_suffix};
use crate::wire::{
    bytes_to_string, enc_run, lemma_enc_run_peel, lemma_read_run_sound, read_run, spec_read_run,
    write_run,
};

verus! {

/// A multi-precision integer in the wire encoding: big-endian bytes,
/// sign-extended with a leading zero byte where needed.  Equality is
/// byte-exact.
pub type MpInt = Vec<u8>;

#[derive(Clone, Debug, Eq, Hash)]
pub struct RsaPublicKey {
    /// Public exponent.
    pub e: MpInt,
    /// Modulus.
    pub n: MpInt,
}

#[derive(Clone, Debug, Eq, Hash)]
pub struct DssPublicKey {
    pub p: MpInt,
    pub q: MpInt,
    pub g: MpInt,
    pub y: MpInt,
}

#[derive(Clone, Debug, Eq, Hash)]
pub struct EcDsaPublicKey {
    /// Curve name, e.g. `nistp256`; part of the algorithm name itself.
    pub identifier: String,
    /// Encoded curve point.
    pub q: MpInt,
}

#[derive(Clone, Debug, Eq, Hash)]
pub struct SkEcDsaPublicKey {
    pub identifier: String,
    pub q: MpInt,
    /// Relying-party identifier the hardware security key is bound to;
    /// opaque here and passed through unchanged.
    pub application: String,
}

#[derive(Clone, Debug, Eq, Hash)]
pub struct Ed25519PublicKey {
    /// Encoded curve point.
    pub enc_a: Vec<u8>,
}

#[derive(Clone, Debug, Eq, Hash)]
pub struct SkEd25519PublicKey {
    pub enc_a: Vec<u8>,
    pub application: String,
}

/// The closed set of supported key families: exactly one variant is active
/// per instance.
#[derive(Clone, Debug, Eq, Hash)]
pub enum PublicKey {
    Dss(DssPublicKey),
    Ed25519(Ed25519PublicKey),
    SkEd25519(SkEd25519PublicKey),
    Rsa(RsaPublicKey),
    EcDsa(EcDsaPublicKey),
    SkEcDsa(SkEcDsaPublicKey),
}

impl KeyType for RsaPublicKey {
    open spec fn spec_key_type(&self) -> Seq<char> {
        "ssh-rsa"@
    }

    fn key_type(&self) -> (r: String) {
        String::from_str("ssh-rsa")
    }
}

impl KeyType for DssPublicKey {
    open spec fn spec_key_type(&self) -> Seq<char> {
        "ssh-dss"@
    }

    fn key_type(&self) -> (r: String) {
        String::from_str("ssh-dss")
    }
}

impl KeyType for Ed25519PublicKey {
    open spec fn spec_key_type(&self) -> Seq<char> {
        "ssh-ed25519"@
    }

    fn key_type(&self) -> (r: String) {
        String::from_str("ssh-ed25519")
    }
}

impl KeyType for SkEd25519PublicKey {
    open spec fn spec_key_type(&self) -> Seq<char> {
        "sk-ssh-ed25519@openssh.com"@
    }

    fn key_type(&self) -> (r: String) {
        String::from_str("sk-ssh-ed25519@openssh.com")
    }
}

impl KeyType for EcDsaPublicKey {
    /// The name is data-dependent: base name, dash, curve identifier.
    open spec fn spec_key_type(&self) -> Seq<char> {
        "ecdsa-sha2-"@ + self.identifier@
    }

    fn key_type(&self) -> (r: String) {
        let mut s = String::from_str("ecdsa-sha2-");
        s.append(self.identifier.as_str());
        s
    }
}

impl KeyType for SkEcDsaPublicKey {
    /// Curve identifier in the middle, security-key suffix at the end.
    open spec fn spec_key_type(&self) -> Seq<char> {
        "sk-ecdsa-sha2-"@ + self.identifier@ + "@openssh.com"@
    }

    fn key_type(&self) -> (r: String) {
        let mut s = String::from_str("sk-ecdsa-sha2-");
        s.append(self.identifier.as_str());
        s.append("@openssh.com");
        s
    }
}

impl KeyType for PublicKey {
    /// Delegates to whichever variant is active.
    open spec fn spec_key_type(&self) -> Seq<char> {
        match self {
            PublicKey::Dss(k) => k.spec_key_type(),
            PublicKey::Ed25519(k) => k.spec_key_type(),
            PublicKey::SkEd25519(k) => k.spec_key_type(),
            PublicKey::Rsa(k) => k.spec_key_type(),
            PublicKey::EcDsa(k) => k.spec_key_type(),
            PublicKey::SkEcDsa(k) => k.spec_key_type(),
        }
    }

    fn key_type(&self) -> (r: String) {
        match self {
            PublicKey::Dss(k) => k.key_type(),
            PublicKey::Ed25519(k) => k.key_type(),
            PublicKey::SkEd25519(k) => k.key_type(),
            PublicKey::Rsa(k) => k.key_type(),
            PublicKey::EcDsa(k) => k.key_type(),
            PublicKey::SkEcDsa(k) => k.key_type(),
        }
    }
}

impl RsaPublicKey {
    /// Field lengths fit the 32-bit length prefixes of the wire format.
    pub open spec fn wf(&self) -> bool {
        &&& encode_utf8(self.spec_key_type()).len() < 0x1_0000_0000
        &&& self.e@.len() < 0x1_0000_0000
        &&& self.n@.len() < 0x1_0000_0000
    }
}

impl DssPublicKey {
    pub open spec fn wf(&self) -> bool {
        &&& encode_utf8(self.spec_key_type()).len() < 0x1_0000_0000
        &&& self.p@.len() < 0x1_0000_0000
        &&& self.q@.len() < 0x1_0000_0000
        &&& self.g@.len() < 0x1_0000_0000
        &&& self.y@.len() < 0x1_0000_0000
    }
}

impl EcDsaPublicKey {
    /// Besides the length-prefix bounds, the curve identifier is never
    /// empty: it is a structural part of the algorithm name.
    pub open spec fn wf(&self) -> bool {
        &&& self.identifier@.len() > 0
        &&& encode_utf8(self.spec_key_type()).len() < 0x1_0000_0000
        &&& self.q@.len() < 0x1_0000_0000
    }
}

impl SkEcDsaPublicKey {
    pub open spec fn wf(&self) -> bool {
        &&& self.identifier@.len() > 0
        &&& encode_utf8(self.spec_key_type()).len() < 0x1_0000_0000
        &&& self.q@.len() < 0x1_0000_0000
        &&& encode_utf8(self.application@).len() < 0x1_0000_0000
    }
}

impl Ed25519PublicKey {
    pub open spec fn wf(&self) -> bool {
        &&& encode_utf8(self.spec_key_type()).len() < 0x1_0000_0000
        &&& self.enc_a@.len() < 0x1_0000_0000
    }
}

impl SkEd25519PublicKey {
    pub open spec fn wf(&self) -> bool {
        &&& encode_utf8(self.spec_key_type()).len() < 0x1_0000_0000
        &&& self.enc_a@.len() < 0x1_0000_0000
        &&& encode_utf8(self.application@).len() < 0x1_0000_0000
    }
}

/// Byte-exact equality of two keys: same active variant, and every field
/// spells the same bytes (respectively characters).
pub open spec fn key_eq(a: PublicKey, b: PublicKey) -> bool {
    match (a, b) {
        (PublicKey::Dss(x), PublicKey::Dss(y)) => x.p@ == y.p@ && x.q@ == y.q@ && x.g@ == y.g@
            && x.y@ == y.y@,
        (PublicKey::Ed25519(x), PublicKey::Ed25519(y)) => x.enc_a@ == y.enc_a@,
        (PublicKey::SkEd25519(x), PublicKey::SkEd25519(y)) => x.enc_a@ == y.enc_a@ && x.application@
            == y.application@,
        (PublicKey::Rsa(x), PublicKey::Rsa(y)) => x.e@ == y.e@ && x.n@ == y.n@,
        (PublicKey::EcDsa(x), PublicKey::EcDsa(y)) => x.identifier@ == y.identifier@ && x.q@
            == y.q@,
        (PublicKey::SkEcDsa(x), PublicKey::SkEcDsa(y)) => x.identifier@ == y.identifier@ && x.q@
            == y.q@ && x.application@ == y.application@,
        _ => false,
    }
}

impl PublicKey {
    /// The active variant's fields fit the wire format's length prefixes.
    pub open spec fn wf(&self) -> bool {
        match self {
            PublicKey::Dss(k) => k.wf(),
            PublicKey::Ed25519(k) => k.wf(),
            PublicKey::SkEd25519(k) => k.wf(),
            PublicKey::Rsa(k) => k.wf(),
            PublicKey::EcDsa(k) => k.wf(),
            PublicKey::SkEcDsa(k) => k.wf(),
        }
    }
}

impl PartialEq for RsaPublicKey {
    /// Byte-exact comparison of the fields.
    fn eq(&self, other: &Self) -> (r: bool) {
        crate::wire::bytes_eq(self.e.as_slice(), other.e.as_slice()) && crate::wire::bytes_eq(
            self.n.as_slice(),
            other.n.as_slice(),
        )
    }
}

impl vstd::std_specs::cmp::PartialEqSpecImpl for RsaPublicKey {
    open spec fn obeys_eq_spec() -> bool {
        true
    }

    open spec fn eq_spec(&self, other: &Self) -> bool {
        self.e@ == other.e@ && self.n@ == other.n@
    }
}

impl PartialEq for DssPublicKey {
    fn eq(&self, other: &Self) -> (r: bool) {
        crate::wire::bytes_eq(self.p.as_slice(), other.p.as_slice()) && crate::wire::bytes_eq(
            self.q.as_slice(),
            other.q.as_slice(),
        ) && crate::wire::bytes_eq(self.g.as_slice(), other.g.as_slice()) && crate::wire::bytes_eq(
            self.y.as_slice(),
            other.y.as_slice(),
        )
    }
}

impl vstd::std_specs::cmp::PartialEqSpecImpl for DssPublicKey {
    open spec fn obeys_eq_spec() -> bool {
        true
    }

    open spec fn eq_spec(&self, other: &Self) -> bool {
        self.p@ == other.p@ && self.q@ == other.q@ && self.g@ == other.g@ && self.y@ == other.y@
    }
}

impl PartialEq for EcDsaPublicKey {
    fn eq(&self, other: &Self) -> (r: bool) {
        self.identifier == other.identifier && crate::wire::bytes_eq(
            self.q.as_slice(),
            other.q.as_slice(),
        )
    }
}

impl vstd::std_specs::cmp::PartialEqSpecImpl for EcDsaPublicKey {
    open spec fn obeys_eq_spec() -> bool {
        true
    }

    open spec fn eq_spec(&self, other: &Self) -> bool {
        self.identifier@ == other.identifier@ && self.q@ == other.q@
    }
}

impl PartialEq for SkEcDsaPublicKey {
    fn eq(&self, other: &Self) -> (r: bool) {
        self.identifier == other.identifier && crate::wire::bytes_eq(
            self.q.as_slice(),
            other.q.as_slice(),
        ) && self.application == other.application
    }
}

impl vstd::std_specs::cmp::PartialEqSpecImpl for SkEcDsaPublicKey {
    open spec fn obeys_eq_spec() -> bool {
        true
    }

    open spec fn eq_spec(&self, other: &Self) -> bool {
        self.identifier@ == other.identifier@ && self.q@ == other.q@ && self.application@
            == other.application@
    }
}

impl PartialEq for Ed25519PublicKey {
    fn eq(&self, other: &Self) -> (r: bool) {
        crate::wire::bytes_eq(self.enc_a.as_slice(), other.enc_a.as_slice())
    }
}

impl vstd::std_specs::cmp::PartialEqSpecImpl for Ed25519PublicKey {
    open spec fn obeys_eq_spec() -> bool {
        true
    }

    open spec fn eq_spec(&self, other: &Self) -> bool {
        self.enc_a@ == other.enc_a@
    }
}

impl PartialEq for SkEd25519PublicKey {
    fn eq(&self, other: &Self) -> (r: bool) {
        crate::wire::bytes_eq(self.enc_a.as_slice(), other.enc_a.as_slice()) && self.application
            == other.application
    }
}

impl vstd::std_specs::cmp::PartialEqSpecImpl for SkEd25519PublicKey {
    open spec fn obeys_eq_spec() -> bool {
        true
    }

    open spec fn eq_spec(&self, other: &Self) -> bool {
        self.enc_a@ == other.enc_a@ && self.application@ == other.application@
    }
}

impl PartialEq for PublicKey {
    /// Two keys are equal when the same variant is active and its fields
    /// are byte-identical.
    fn eq(&self, other: &Self) -> (r: bool) {
        match (self, other) {
            (PublicKey::Dss(a), PublicKey::Dss(b)) => a == b,
            (PublicKey::Ed25519(a), PublicKey::Ed25519(b)) => a == b,
            (PublicKey::SkEd25519(a), PublicKey::SkEd25519(b)) => a == b,
            (PublicKey::Rsa(a), PublicKey::Rsa(b)) => a == b,
            (PublicKey::EcDsa(a), PublicKey::EcDsa(b)) => a == b,
            (PublicKey::SkEcDsa(a), PublicKey::SkEcDsa(b)) => a == b,
            _ => false,
        }
    }
}

impl vstd::std_specs::cmp::PartialEqSpecImpl for PublicKey {
    open spec fn obeys_eq_spec() -> bool {
        true
    }

    open spec fn eq_spec(&self, other: &Self) -> bool {
        key_eq(*self, *other)
    }
}

/// The payload that follows the discriminant: the active variant's fields in
/// their fixed order, each as a length-prefixed run.  The curve identifier of
/// the ECDSA families is not repeated here: it travels inside the
/// discriminant.
pub open spec fn spec_payload(k: PublicKey) -> Seq<u8> {
    match k {
        PublicKey::Dss(x) => enc_run(x.p@) + enc_run(x.q@) + enc_run(x.g@) + enc_run(x.y@),
        PublicKey::Ed25519(x) => enc_run(x.enc_a@),
        PublicKey::SkEd25519(x) => enc_run(x.enc_a@) + enc_run(encode_utf8(x.application@)),
        PublicKey::Rsa(x) => enc_run(x.e@) + enc_run(x.n@),
        PublicKey::EcDsa(x) => enc_run(x.q@),
        PublicKey::SkEcDsa(x) => enc_run(x.q@) + enc_run(encode_utf8(x.application@)),
    }
}

/// The full wire form of a key: its algorithm name as a run of UTF-8 bytes,
/// then its payload.
pub open spec fn spec_serialize(k: PublicKey) -> Seq<u8> {
    enc_run(encode_utf8(k.spec_key_type())) + spec_payload(k)
}

impl PublicKey {
    /// Writes the key in its tagged wire form: discriminant string first,
    /// then the active variant's fields in declaration order.
    pub fn serialize(&self) -> (r: Vec<u8>)
        requires
            self.wf(),
        ensures
            r@ == spec_serialize(*self),
    {
        let mut out: Vec<u8> = Vec::new();
        let tag: String = self.key_type();
        write_run(&mut out, tag.as_str().as_bytes());
        match self {
            PublicKey::Dss(x) => {
                write_run(&mut out, x.p.as_slice());
                write_run(&mut out, x.q.as_slice());
                write_run(&mut out, x.g.as_slice());
                write_run(&mut out, x.y.as_slice());
            },
            PublicKey::Ed25519(x) => {
                write_run(&mut out, x.enc_a.as_slice());
            },
            PublicKey::SkEd25519(x) => {
                write_run(&mut out, x.enc_a.as_slice());
                write_run(&mut out, x.application.as_str().as_bytes());
            },
            PublicKey::Rsa(x) => {
                write_run(&mut out, x.e.as_slice());
                write_run(&mut out, x.n.as_slice());
            },
            PublicKey::EcDsa(x) => {
                write_run(&mut out, x.q.as_slice());
            },
            PublicKey::SkEcDsa(x) => {
                write_run(&mut out, x.q.as_slice());
                write_run(&mut out, x.application.as_str().as_bytes());
            },
        }
        assert(out@ =~= spec_serialize(*self));
        out
    }
}

impl PublicKey {
    /// Reads a key back from its tagged wire form.
    ///
    /// The first clause pins the success case: whatever comes back is a
    /// well-formed key whose wire form is exactly the input.  The second is
    /// the round-trip guarantee: on the wire form of any well-formed key the
    /// call succeeds, and by [`lemma_serialize_injective`] the key returned
    /// is byte-for-byte the one that was serialized.  The last clause
    /// separates the failures: `UnknownAlgorithm` exactly when the
    /// discriminant run is readable and spells a string that names no
    /// family, `MalformedPayload` in every other failing case.
    #[verifier::rlimit(100)]
    #[verifier::spinoff_prover]
    pub fn deserialize(b: &[u8]) -> (r: Result<PublicKey, ProtoError>)
        ensures
            r matches Ok(k) ==> k.wf() && b@ == spec_serialize(k),
            forall|k: PublicKey| k.wf() && b@ == spec_serialize(k) ==> r is Ok,
            r matches Err(e) ==> (match e {
                ProtoError::UnknownAlgorithm(s) => unknown_name_input(b@, s@),
                ProtoError::MalformedPayload => !(exists|t: Seq<char>|
                    unknown_name_input(b@, t)),
            }),
    {
        let (tv, i0) = match read_run(b, 0) {
            None => {
                proof {
                    assert forall|k: PublicKey| !(k.wf() && b@ == spec_serialize(k)) by {
                        if k.wf() && b@ == spec_serialize(k) {
                            let t = encode_utf8(k.spec_key_type());
                            assert(b@.subrange(0, b@.len() as int) =~= b@);
                            crate::wire::lemma_read_first(b@, 0, t, spec_payload(k));
                        }
                    }
                }
                return Err(ProtoError::MalformedPayload);
            },
            Some(p) => p,
        };
        let ts: String = match bytes_to_string(tv.as_slice()) {
            None => {
                proof {
                    assert forall|k: PublicKey| !(k.wf() && b@ == spec_serialize(k)) by {
                        if k.wf() && b@ == spec_serialize(k) {
                            let t = encode_utf8(k.spec_key_type());
                            assert(b@.subrange(0, b@.len() as int) =~= b@);
                            crate::wire::lemma_read_first(b@, 0, t, spec_payload(k));
                            vstd::utf8::encode_utf8_valid_utf8(k.spec_key_type());
                        }
                    }
                    assert forall|t: Seq<char>| !unknown_name_input(b@, t) by {
                        if unknown_name_input(b@, t) {
                            vstd::utf8::encode_utf8_valid_utf8(t);
                        }
                    }
                }
                return Err(ProtoError::MalformedPayload);
            },
            Some(s) => s,
        };
        let n_ts: usize = ts.as_str().unicode_len();
        if str_eq_chars(ts.as_str(), "ssh-rsa") {
            proof {
                lemma_only_rsa(b@, ts@, tv@);
            }
            let (ev, i1) = match read_run(b, i0) {
                None => {
                    proof {
                        assert forall|k: PublicKey| !(k.wf() && b@ == spec_serialize(k)) by {
                            if k.wf() && b@ == spec_serialize(k) {
                                assert(fits_two(b@, tv@));
                                assert(false);
                            }
                        }
                        lemma_not_unknown(b@, ts@, tv@);
                    }
                    return Err(ProtoError::MalformedPayload);
                },
                Some(p) => p,
            };
            let (nv, i2) = match read_run(b, i1) {
                None => {
                    proof {
                        assert forall|k: PublicKey| !(k.wf() && b@ == spec_serialize(k)) by {
                            if k.wf() && b@ == spec_serialize(k) {
                                assert(fits_two(b@, tv@));
                                assert(false);
                            }
                        }
                        lemma_not_unknown(b@, ts@, tv@);
                    }
                    return Err(ProtoError::MalformedPayload);
                },
                Some(p) => p,
            };
            if i2 != b.len() {
                    proof {
                        assert forall|k: PublicKey| !(k.wf() && b@ == spec_serialize(k)) by {
                            if k.wf() && b@ == spec_serialize(k) {
                                assert(fits_two(b@, tv@));
                                assert(false);
                            }
                        }
                        lemma_not_unknown(b@, ts@, tv@);
                    }
                    return Err(ProtoError::MalformedPayload);
            }
            let k = PublicKey::Rsa(RsaPublicKey { e: ev, n: nv });
            proof {
                lemma_read_run_sound(b@, 0, tv@, i0 as int);
                lemma_read_run_sound(b@, i0 as int, ev@, i1 as int);
                lemma_read_run_sound(b@, i1 as int, nv@, i2 as int);
                assert(k.spec_key_type() == ts@);
                assert(b@ =~= b@.subrange(0, i0 as int) + b@.subrange(i0 as int, i1 as int)
                    + b@.subrange(i1 as int, b@.len() as int));
                assert(b@ == enc_run(tv@) + enc_run(ev@) + enc_run(nv@));
                assert(spec_serialize(k) =~= enc_run(tv@) + enc_run(ev@) + enc_run(nv@));
            }
            return Ok(k);
        }
        if str_eq_chars(ts.as_str(), "ssh-dss") {
            proof {
                lemma_only_dss(b@, ts@, tv@);
            }
            let (pv, i1) = match read_run(b, i0) {
                None => {
                    proof {
                        assert forall|k: PublicKey| !(k.wf() && b@ == spec_serialize(k)) by {
                            if k.wf() && b@ == spec_serialize(k) {
                                assert(fits_four(b@, tv@));
                                assert(false);
                            }
                        }
                        lemma_not_unknown(b@, ts@, tv@);
                    }
                    return Err(ProtoError::MalformedPayload);
                },
                Some(p) => p,
            };
            let (qv, i2) = match read_run(b, i1) {
                None => {
                    proof {
                        assert forall|k: PublicKey| !(k.wf() && b@ == spec_serialize(k)) by {
                            if k.wf() && b@ == spec_serialize(k) {
                                assert(fits_four(b@, tv@));
                                assert(false);
                            }
                        }
                        lemma_not_unknown(b@, ts@, tv@);
                    }
                    return Err(ProtoError::MalformedPayload);
                },
                Some(p) => p,
            };
            let (gv, i3) = match read_run(b, i2) {
                None => {
                    proof {
                        assert forall|k: PublicKey| !(k.wf() && b@ == spec_serialize(k)) by {
                            if k.wf() && b@ == spec_serialize(k) {
                                assert(fits_four(b@, tv@));
                                assert(false);
                            }
                        }
                        lemma_not_unknown(b@, ts@, tv@);
                    }
                    return Err(ProtoError::MalformedPayload);
                },
                Some(p) => p,
            };
            let (yv, i4) = match read_run(b, i3) {
                None => {
                    proof {
                        assert forall|k: PublicKey| !(k.wf() && b@ == spec_serialize(k)) by {
                            if k.wf() && b@ == spec_serialize(k) {
                                assert(fits_four(b@, tv@));
                                assert(false);
                            }
                        }
                        lemma_not_unknown(b@, ts@, tv@);
                    }
                    return Err(ProtoError::MalformedPayload);
                },
                Some(p) => p,
            };
            if i4 != b.len() {
                    proof {
                        assert forall|k: PublicKey| !(k.wf() && b@ == spec_serialize(k)) by {
                            if k.wf() && b@ == spec_serialize(k) {
                                assert(fits_four(b@, tv@));
                                assert(false);
                            }
                        }
                        lemma_not_unknown(b@, ts@, tv@);
                    }
                    return Err(ProtoError::MalformedPayload);
            }
            let k = PublicKey::Dss(DssPublicKey { p: pv, q: qv, g: gv, y: yv });
            proof {
                lemma_read_run_sound(b@, 0, tv@, i0 as int);
                lemma_read_run_sound(b@, i0 as int, pv@, i1 as int);
                lemma_read_run_sound(b@, i1 as int, qv@, i2 as int);
                lemma_read_run_sound(b@, i2 as int, gv@, i3 as int);
                lemma_read_run_sound(b@, i3 as int, yv@, i4 as int);
                assert(k.spec_key_type() == ts@);
                assert(b@ =~= b@.subrange(0, i0 as int) + b@.subrange(i0 as int, i1 as int)
                    + b@.subrange(i1 as int, i2 as int) + b@.subrange(i2 as int, i3 as int)
                    + b@.subrange(i3 as int, b@.len() as int));
                assert(b@ == enc_run(tv@) + enc_run(pv@) + enc_run(qv@) + enc_run(gv@) + enc_run(
                    yv@,
                ));
                assert(spec_serialize(k) =~= enc_run(tv@) + enc_run(pv@) + enc_run(qv@) + enc_run(
                    gv@,
                ) + enc_run(yv@));
            }
            return Ok(k);
        }
        if str_eq_chars(ts.as_str(), "ssh-ed25519") {
            proof {
                lemma_only_ed25519(b@, ts@, tv@);
            }
            let (av, i1) = match read_run(b, i0) {
                None => {
                    proof {
                        assert forall|k: PublicKey| !(k.wf() && b@ == spec_serialize(k)) by {
                            if k.wf() && b@ == spec_serialize(k) {
                                assert(fits_one(b@, tv@));
                                assert(false);
                            }
                        }
                        lemma_not_unknown(b@, ts@, tv@);
                    }
                    return Err(ProtoError::MalformedPayload);
                },
                Some(p) => p,
            };
            if i1 != b.len() {
                    proof {
                        assert forall|k: PublicKey| !(k.wf() && b@ == spec_serialize(k)) by {
                            if k.wf() && b@ == spec_serialize(k) {
                                assert(fits_one(b@, tv@));
                                assert(false);
                            }
                        }
                        lemma_not_unknown(b@, ts@, tv@);
                    }
                    return Err(ProtoError::MalformedPayload);
            }
            let k = PublicKey::Ed25519(Ed25519PublicKey { enc_a: av });
            proof {
                lemma_read_run_sound(b@, 0, tv@, i0 as int);
                lemma_read_run_sound(b@, i0 as int, av@, i1 as int);
                assert(k.spec_key_type() == ts@);
                assert(b@ =~= b@.subrange(0, i0 as int) + b@.subrange(
                    i0 as int,
                    b@.len() as int,
                ));
                assert(b@ == enc_run(tv@) + enc_run(av@));
                assert(spec_serialize(k) =~= enc_run(tv@) + enc_run(av@));
            }
            return Ok(k);
        }
        if str_eq_chars(ts.as_str(), "sk-ssh-ed25519@openssh.com") {
            proof {
                lemma_only_sk_ed25519(b@, ts@, tv@);
            }
            let (av, i1) = match read_run(b, i0) {
                None => {
                    proof {
                        assert forall|k: PublicKey| !(k.wf() && b@ == spec_serialize(k)) by {
                            if k.wf() && b@ == spec_serialize(k) {
                                assert(fits_two_text(b@, tv@));
                                assert(false);
                            }
                        }
                        lemma_not_unknown(b@, ts@, tv@);
                    }
                    return Err(ProtoError::MalformedPayload);
                },
                Some(p) => p,
            };
            let (apv, i2) = match read_run(b, i1) {
                None => {
                    proof {
                        assert forall|k: PublicKey| !(k.wf() && b@ == spec_serialize(k)) by {
                            if k.wf() && b@ == spec_serialize(k) {
                                assert(fits_two_text(b@, tv@));
                                assert(false);
                            }
                        }
                        lemma_not_unknown(b@, ts@, tv@);
                    }
                    return Err(ProtoError::MalformedPayload);
                },
                Some(p) => p,
            };
            if i2 != b.len() {
                    proof {
                        assert forall|k: PublicKey| !(k.wf() && b@ == spec_serialize(k)) by {
                            if k.wf() && b@ == spec_serialize(k) {
                                assert(fits_two_text(b@, tv@));
                                assert(false);
                            }
                        }
                        lemma_not_unknown(b@, ts@, tv@);
                    }
                    return Err(ProtoError::MalformedPayload);
            }
            let application: String = match bytes_to_string(apv.as_slice()) {
                None => {
                    proof {
                        assert forall|k: PublicKey| !(k.wf() && b@ == spec_serialize(k)) by {
                            if k.wf() && b@ == spec_serialize(k) {
                                assert(fits_two_text(b@, tv@));
                                assert(false);
                            }
                        }
                        lemma_not_unknown(b@, ts@, tv@);
                    }
                    return Err(ProtoError::MalformedPayload);
                },
                Some(s) => s,
            };
            let k = PublicKey::SkEd25519(SkEd25519PublicKey { enc_a: av, application });
            proof {
                lemma_read_run_sound(b@, 0, tv@, i0 as int);
                lemma_read_run_sound(b@, i0 as int, av@, i1 as int);
                lemma_read_run_sound(b@, i1 as int, apv@, i2 as int);
                assert(k.spec_key_type() == ts@);
                assert(b@ =~= b@.subrange(0, i0 as int) + b@.subrange(i0 as int, i1 as int)
                    + b@.subrange(i1 as int, b@.len() as int));
                assert(b@ == enc_run(tv@) + enc_run(av@) + enc_run(apv@));
                assert(spec_serialize(k) =~= enc_run(tv@) + enc_run(av@) + enc_run(apv@));
            }
            return Ok(k);
        }
        let sk_pre: bool = str_has_prefix(ts.as_str(), "sk-ecdsa-sha2-");
        let sk_suf: bool = str_has_suffix(ts.as_str(), "@openssh.com");
        if sk_pre && sk_suf && n_ts > 26 {
            proof {
                reveal_strlit("sk-ecdsa-sha2-");
                reveal_strlit("@openssh.com");
                lemma_only_sk_ecdsa(b@, ts@, tv@);
            }
            let ident_str: &str = ts.as_str().substring_char(14, n_ts - 12);
            let identifier: String = String::from_str(ident_str);
            let (qv, i1) = match read_run(b, i0) {
                None => {
                    proof {
                        assert forall|k: PublicKey| !(k.wf() && b@ == spec_serialize(k)) by {
                            if k.wf() && b@ == spec_serialize(k) {
                                assert(fits_two_text(b@, tv@));
                                assert(false);
                            }
                        }
                        lemma_not_unknown(b@, ts@, tv@);
                    }
                    return Err(ProtoError::MalformedPayload);
                },
                Some(p) => p,
            };
            let (apv, i2) = match read_run(b, i1) {
                None => {
                    proof {
                        assert forall|k: PublicKey| !(k.wf() && b@ == spec_serialize(k)) by {
                            if k.wf() && b@ == spec_serialize(k) {
                                assert(fits_two_text(b@, tv@));
                                assert(false);
                            }
                        }
                        lemma_not_unknown(b@, ts@, tv@);
                    }
                    return Err(ProtoError::MalformedPayload);
                },
                Some(p) => p,
            };
            if i2 != b.len() {
                    proof {
                        assert forall|k: PublicKey| !(k.wf() && b@ == spec_serialize(k)) by {
                            if k.wf() && b@ == spec_serialize(k) {
                                assert(fits_two_text(b@, tv@));
                                assert(false);
                            }
                        }
                        lemma_not_unknown(b@, ts@, tv@);
                    }
                    return Err(ProtoError::MalformedPayload);
            }
            let application: String = match bytes_to_string(apv.as_slice()) {
                None => {
                    proof {
                        assert forall|k: PublicKey| !(k.wf() && b@ == spec_serialize(k)) by {
                            if k.wf() && b@ == spec_serialize(k) {
                                assert(fits_two_text(b@, tv@));
                                assert(false);
                            }
                        }
                        lemma_not_unknown(b@, ts@, tv@);
                    }
                    return Err(ProtoError::MalformedPayload);
                },
                Some(s) => s,
            };
            let k = PublicKey::SkEcDsa(SkEcDsaPublicKey { identifier, q: qv, application });
            proof {
                lemma_read_run_sound(b@, 0, tv@, i0 as int);
                lemma_read_run_sound(b@, i0 as int, qv@, i1 as int);
                lemma_read_run_sound(b@, i1 as int, apv@, i2 as int);
                assert forall|i: int| 0 <= i < 14 implies ts@[i] == "sk-ecdsa-sha2-"@[i] by {
                    crate::strutil::lemma_prefix_index("sk-ecdsa-sha2-"@, ts@, i);
                }
                assert forall|i: int| 0 <= i < 12 implies ts@[n_ts - 12 + i]
                    == "@openssh.com"@[i] by {
                    crate::strutil::lemma_suffix_index("@openssh.com"@, ts@, i);
                }
                assert(k.spec_key_type() =~= ts@);
                assert(b@ =~= b@.subrange(0, i0 as int) + b@.subrange(i0 as int, i1 as int)
                    + b@.subrange(i1 as int, b@.len() as int));
                assert(b@ == enc_run(tv@) + enc_run(qv@) + enc_run(apv@));
                assert(spec_serialize(k) =~= enc_run(tv@) + enc_run(qv@) + enc_run(apv@));
            }
            return Ok(k);
        }
        let ec_pre: bool = str_has_prefix(ts.as_str(), "ecdsa-sha2-");
        if ec_pre && n_ts > 11 {
            proof {
                reveal_strlit("ecdsa-sha2-");
                lemma_only_ecdsa(b@, ts@, tv@);
            }
            let ident_str: &str = ts.as_str().substring_char(11, n_ts);
            let identifier: String = String::from_str(ident_str);
            let (qv, i1) = match read_run(b, i0) {
                None => {
                    proof {
                        assert forall|k: PublicKey| !(k.wf() && b@ == spec_serialize(k)) by {
                            if k.wf() && b@ == spec_serialize(k) {
                                assert(fits_one(b@, tv@));
                                assert(false);
                            }
                        }
                        lemma_not_unknown(b@, ts@, tv@);
                    }
                    return Err(ProtoError::MalformedPayload);
                },
                Some(p) => p,
            };
            if i1 != b.len() {
                    proof {
                        assert forall|k: PublicKey| !(k.wf() && b@ == spec_serialize(k)) by {
                            if k.wf() && b@ == spec_serialize(k) {
                                assert(fits_one(b@, tv@));
                                assert(false);
                            }
                        }
                        lemma_not_unknown(b@, ts@, tv@);
                    }
                    return Err(ProtoError::MalformedPayload);
            }
            let k = PublicKey::EcDsa(EcDsaPublicKey { identifier, q: qv });
            proof {
                lemma_read_run_sound(b@, 0, tv@, i0 as int);
                lemma_read_run_sound(b@, i0 as int, qv@, i1 as int);
                assert forall|i: int| 0 <= i < 11 implies ts@[i] == "ecdsa-sha2-"@[i] by {
                    crate::strutil::lemma_prefix_index("ecdsa-sha2-"@, ts@, i);
                }
                assert(k.spec_key_type() =~= ts@);
                assert(b@ =~= b@.subrange(0, i0 as int) + b@.subrange(
                    i0 as int,
                    b@.len() as int,
                ));
                assert(b@ == enc_run(tv@) + enc_run(qv@));
                assert(spec_serialize(k) =~= enc_run(tv@) + enc_run(qv@));
            }
            return Ok(k);
        }
        proof {
            reveal_strlit("ecdsa-sha2-");
            reveal_strlit("sk-ecdsa-sha2-");
            reveal_strlit("@openssh.com");
            assert(!known_algorithm(ts@));
            assert forall|k: PublicKey| !(k.wf() && b@ == spec_serialize(k)) by {
                if k.wf() && b@ == spec_serialize(k) {
                    lemma_serialized_reads(k, b@, ts@, tv@);
                    lemma_key_type_determines(k, ts@);
                }
            }
        }
        Err(ProtoError::UnknownAlgorithm(ts))
    }
}

/// The discriminant strings deserialization accepts: the four fixed
/// algorithm names, and the two parameterized ECDSA shapes with a non-empty
/// embedded curve identifier.
pub open spec fn known_algorithm(s: Seq<char>) -> bool {
    ||| s == "ssh-rsa"@
    ||| s == "ssh-dss"@
    ||| s == "ssh-ed25519"@
    ||| s == "sk-ssh-ed25519@openssh.com"@
    ||| ("ecdsa-sha2-"@.is_prefix_of(s) && s.len() > "ecdsa-sha2-"@.len())
    ||| ("sk-ecdsa-sha2-"@.is_prefix_of(s) && "@openssh.com"@.is_suffix_of(s) && s.len()
        > "sk-ecdsa-sha2-"@.len() + "@openssh.com"@.len())
}

/// No two semantically distinct keys share an algorithm name: the name of a
/// well-formed key says which variant is active, and for the ECDSA families
/// it carries the exact curve identifier.
pub proof fn lemma_key_type_determines(k: PublicKey, s: Seq<char>)
    requires
        k.wf(),
        k.spec_key_type() == s,
    ensures
        known_algorithm(s),
        s == "ssh-rsa"@ ==> k is Rsa,
        s == "ssh-dss"@ ==> k is Dss,
        s == "ssh-ed25519"@ ==> k is Ed25519,
        s == "sk-ssh-ed25519@openssh.com"@ ==> k is SkEd25519,
        "ecdsa-sha2-"@.is_prefix_of(s) ==> (k matches PublicKey::EcDsa(x) && x.identifier@
            == s.subrange("ecdsa-sha2-"@.len() as int, s.len() as int)),
        ("sk-ecdsa-sha2-"@.is_prefix_of(s) && "@openssh.com"@.is_suffix_of(s) && s.len()
            > "sk-ecdsa-sha2-"@.len() + "@openssh.com"@.len()) ==> (k
            matches PublicKey::SkEcDsa(x) && x.identifier@ == s.subrange(
            "sk-ecdsa-sha2-"@.len() as int,
            s.len() - "@openssh.com"@.len(),
        )),
{
    broadcast use vstd::string::group_string_axioms;

    reveal_strlit("ssh-rsa");
    reveal_strlit("ssh-dss");
    reveal_strlit("ssh-ed25519");
    reveal_strlit("sk-ssh-ed25519@openssh.com");
    reveal_strlit("ecdsa-sha2-");
    reveal_strlit("sk-ecdsa-sha2-");
    reveal_strlit("@openssh.com");
    assert("ssh-rsa"@.len() == 7 && "ssh-dss"@.len() == 7 && "ssh-ed25519"@.len() == 11
        && "sk-ssh-ed25519@openssh.com"@.len() == 26 && "ecdsa-sha2-"@.len() == 11
        && "sk-ecdsa-sha2-"@.len() == 14 && "@openssh.com"@.len() == 12);
    assert("ssh-rsa"@[4] == 'r' && "ssh-dss"@[4] == 'd' && "ssh-ed25519"@[0] == 's'
        && "sk-ssh-ed25519@openssh.com"@[0] == 's' && "sk-ssh-ed25519@openssh.com"@[3] == 's'
        && "ecdsa-sha2-"@[0] == 'e' && "sk-ecdsa-sha2-"@[0] == 's' && "sk-ecdsa-sha2-"@[3] == 'e');
    match k {
        PublicKey::Rsa(_) => {
            if "ecdsa-sha2-"@.is_prefix_of(s) {
                crate::strutil::lemma_prefix_index("ecdsa-sha2-"@, s, 0);
            }
        },
        PublicKey::Dss(_) => {
            if "ecdsa-sha2-"@.is_prefix_of(s) {
                crate::strutil::lemma_prefix_index("ecdsa-sha2-"@, s, 0);
            }
        },
        PublicKey::Ed25519(_) => {
            if "ecdsa-sha2-"@.is_prefix_of(s) {
                crate::strutil::lemma_prefix_index("ecdsa-sha2-"@, s, 0);
            }
        },
        PublicKey::SkEd25519(_) => {
            if "ecdsa-sha2-"@.is_prefix_of(s) {
                crate::strutil::lemma_prefix_index("ecdsa-sha2-"@, s, 0);
            }
            if "sk-ecdsa-sha2-"@.is_prefix_of(s) {
                crate::strutil::lemma_prefix_index("sk-ecdsa-sha2-"@, s, 3);
            }
        },
        PublicKey::EcDsa(x) => {
            let p = "ecdsa-sha2-"@;
            assert(s.len() == 11 + x.identifier@.len());
            assert forall|i: int| 0 <= i < 11 implies s[i] == p[i] by {
                assert(s[i] == (p + x.identifier@)[i]);
            }
            assert(p.is_prefix_of(s)) by {
                assert(p =~= s.subrange(0, 11));
            }
            assert(x.identifier@ =~= s.subrange(11, s.len() as int));
            assert(s[0] == 'e');
            if "sk-ecdsa-sha2-"@.is_prefix_of(s) {
                crate::strutil::lemma_prefix_index("sk-ecdsa-sha2-"@, s, 0);
            }
        },
        PublicKey::SkEcDsa(x) => {
            let p = "sk-ecdsa-sha2-"@;
            let u = "@openssh.com"@;
            let id = x.identifier@;
            assert(s.len() == 14 + id.len() + 12);
            assert forall|i: int| 0 <= i < s.len() implies s[i] == (if i < 14 {
                p[i]
            } else if i < 14 + id.len() {
                id[i - 14]
            } else {
                u[i - 14 - id.len()]
            }) by {
                assert(s[i] == ((p + id) + u)[i]);
                if i < 14 + id.len() {
                    assert((p + id)[i] == if i < 14 {
                        p[i]
                    } else {
                        id[i - 14]
                    });
                }
            }
            assert(p.is_prefix_of(s)) by {
                assert(p =~= s.subrange(0, 14));
            }
            assert(u.is_suffix_of(s)) by {
                assert(u =~= s.subrange(s.len() - 12, s.len() as int));
            }
            assert(id =~= s.subrange(14, s.len() - 12));
            assert(s[0] == 's');
            if "ecdsa-sha2-"@.is_prefix_of(s) {
                crate::strutil::lemma_prefix_index("ecdsa-sha2-"@, s, 0);
            }
        },
    }
}

/// The inputs on which deserialization reports an unknown algorithm: the
/// first run of `b` is readable and spells the string `s`, which names no
/// supported family.
pub open spec fn unknown_name_input(b: Seq<u8>, s: Seq<char>) -> bool {
    &&& spec_read_run(b, 0) matches Some(p) && p.0 == encode_utf8(s)
    &&& !known_algorithm(s)
}

/// Every read a parser makes on the wire form of a well-formed key
/// succeeds: the discriminant run first, then one run per field of the
/// active variant, consuming the input exactly.
#[verifier::rlimit(100)]
proof fn lemma_serialized_reads(k: PublicKey, b: Seq<u8>, ts: Seq<char>, tv: Seq<u8>)
    requires
        k.wf(),
        b == spec_serialize(k),
        tv == encode_utf8(ts),
        spec_read_run(b, 0) matches Some(p) && p.0 == tv,
    ensures
        k.spec_key_type() == ts,
        spec_read_run(b, 0) == Some((tv, 4 + tv.len() as int)),
        ({
            let i0 = 4 + tv.len() as int;
            match k {
                PublicKey::Rsa(x) => {
                    let i1 = i0 + 4 + x.e@.len();
                    let i2 = i1 + 4 + x.n@.len();
                    &&& spec_read_run(b, i0) == Some((x.e@, i1))
                    &&& spec_read_run(b, i1) == Some((x.n@, i2))
                    &&& i2 == b.len()
                },
                PublicKey::Dss(x) => {
                    let i1 = i0 + 4 + x.p@.len();
                    let i2 = i1 + 4 + x.q@.len();
                    let i3 = i2 + 4 + x.g@.len();
                    let i4 = i3 + 4 + x.y@.len();
                    &&& spec_read_run(b, i0) == Some((x.p@, i1))
                    &&& spec_read_run(b, i1) == Some((x.q@, i2))
                    &&& spec_read_run(b, i2) == Some((x.g@, i3))
                    &&& spec_read_run(b, i3) == Some((x.y@, i4))
                    &&& i4 == b.len()
                },
                PublicKey::Ed25519(x) => {
                    let i1 = i0 + 4 + x.enc_a@.len();
                    &&& spec_read_run(b, i0) == Some((x.enc_a@, i1))
                    &&& i1 == b.len()
                },
                PublicKey::SkEd25519(x) => {
                    let i1 = i0 + 4 + x.enc_a@.len();
                    let i2 = i1 + 4 + encode_utf8(x.application@).len();
                    &&& spec_read_run(b, i0) == Some((x.enc_a@, i1))
                    &&& spec_read_run(b, i1) == Some((encode_utf8(x.application@), i2))
                    &&& i2 == b.len()
                },
                PublicKey::EcDsa(x) => {
                    let i1 = i0 + 4 + x.q@.len();
                    &&& spec_read_run(b, i0) == Some((x.q@, i1))
                    &&& i1 == b.len()
                },
                PublicKey::SkEcDsa(x) => {
                    let i1 = i0 + 4 + x.q@.len();
                    let i2 = i1 + 4 + encode_utf8(x.application@).len();
                    &&& spec_read_run(b, i0) == Some((x.q@, i1))
                    &&& spec_read_run(b, i1) == Some((encode_utf8(x.application@), i2))
                    &&& i2 == b.len()
                },
            }
        }),
{
    let t = encode_utf8(k.spec_key_type());
    assert(b.subrange(0, b.len() as int) =~= b);
    crate::wire::lemma_read_first(b, 0, t, spec_payload(k));
    assert(t == tv);
    vstd::utf8::encode_utf8_decode_utf8(k.spec_key_type());
    vstd::utf8::encode_utf8_decode_utf8(ts);
    let i0 = 4 + tv.len() as int;
    assert(b.subrange(i0, b.len() as int) == spec_payload(k));
    match k {
        PublicKey::Rsa(x) => {
            crate::wire::lemma_read_first(b, i0, x.e@, enc_run(x.n@));
            let i1 = i0 + 4 + x.e@.len();
            assert(b.subrange(i1, b.len() as int) =~= enc_run(x.n@) + Seq::<u8>::empty());
            crate::wire::lemma_read_first(b, i1, x.n@, Seq::<u8>::empty());
            let i2 = i1 + 4 + x.n@.len();
            assert(b.subrange(i2, b.len() as int).len() == 0);
        },
        PublicKey::Dss(x) => {
            assert(b.subrange(i0, b.len() as int) =~= enc_run(x.p@) + (enc_run(x.q@) + (enc_run(
                x.g@,
            ) + enc_run(x.y@))));
            crate::wire::lemma_read_first(
                b,
                i0,
                x.p@,
                enc_run(x.q@) + (enc_run(x.g@) + enc_run(x.y@)),
            );
            let i1 = i0 + 4 + x.p@.len();
            crate::wire::lemma_read_first(b, i1, x.q@, enc_run(x.g@) + enc_run(x.y@));
            let i2 = i1 + 4 + x.q@.len();
            crate::wire::lemma_read_first(b, i2, x.g@, enc_run(x.y@));
            let i3 = i2 + 4 + x.g@.len();
            assert(b.subrange(i3, b.len() as int) =~= enc_run(x.y@) + Seq::<u8>::empty());
            crate::wire::lemma_read_first(b, i3, x.y@, Seq::<u8>::empty());
            let i4 = i3 + 4 + x.y@.len();
            assert(b.subrange(i4, b.len() as int).len() == 0);
        },
        PublicKey::Ed25519(x) => {
            assert(b.subrange(i0, b.len() as int) =~= enc_run(x.enc_a@) + Seq::<u8>::empty());
            crate::wire::lemma_read_first(b, i0, x.enc_a@, Seq::<u8>::empty());
            let i1 = i0 + 4 + x.enc_a@.len();
            assert(b.subrange(i1, b.len() as int).len() == 0);
        },
        PublicKey::SkEd25519(x) => {
            crate::wire::lemma_read_first(b, i0, x.enc_a@, enc_run(encode_utf8(x.application@)));
            let i1 = i0 + 4 + x.enc_a@.len();
            assert(b.subrange(i1, b.len() as int) =~= enc_run(encode_utf8(x.application@))
                + Seq::<u8>::empty());
            crate::wire::lemma_read_first(b, i1, encode_utf8(x.application@), Seq::<u8>::empty());
            let i2 = i1 + 4 + encode_utf8(x.application@).len();
            assert(b.subrange(i2, b.len() as int).len() == 0);
        },
        PublicKey::EcDsa(x) => {
            assert(b.subrange(i0, b.len() as int) =~= enc_run(x.q@) + Seq::<u8>::empty());
            crate::wire::lemma_read_first(b, i0, x.q@, Seq::<u8>::empty());
            let i1 = i0 + 4 + x.q@.len();
            assert(b.subrange(i1, b.len() as int).len() == 0);
        },
        PublicKey::SkEcDsa(x) => {
            crate::wire::lemma_read_first(b, i0, x.q@, enc_run(encode_utf8(x.application@)));
            let i1 = i0 + 4 + x.q@.len();
            assert(b.subrange(i1, b.len() as int) =~= enc_run(encode_utf8(x.application@))
                + Seq::<u8>::empty());
            crate::wire::lemma_read_first(b, i1, encode_utf8(x.application@), Seq::<u8>::empty());
            let i2 = i1 + 4 + encode_utf8(x.application@).len();
            assert(b.subrange(i2, b.len() as int).len() == 0);
        },
    }
}

/// Once the discriminant has been read and names a known family, no input
/// can count as carrying an unknown algorithm name.
proof fn lemma_not_unknown(b: Seq<u8>, ts: Seq<char>, tv: Seq<u8>)
    requires
        spec_read_run(b, 0) matches Some(p) && p.0 == tv,
        tv == encode_utf8(ts),
        known_algorithm(ts),
    ensures
        !(exists|t: Seq<char>| unknown_name_input(b, t)),
{
    assert forall|t: Seq<char>| !unknown_name_input(b, t) by {
        if unknown_name_input(b, t) {
            vstd::utf8::encode_utf8_decode_utf8(t);
            vstd::utf8::encode_utf8_decode_utf8(ts);
            assert(t == ts);
        }
    }
}

/// Serialization is injective: two well-formed keys with the same wire form
/// are byte-for-byte the same key.  Together with the contracts of
/// [`PublicKey::serialize`] and [`PublicKey::deserialize`] this is the
/// round-trip law: what was serialized is exactly what deserialization
/// gives back.
pub proof fn lemma_serialize_injective(a: PublicKey, b: PublicKey)
    requires
        a.wf(),
        b.wf(),
        spec_serialize(a) == spec_serialize(b),
    ensures
        key_eq(a, b),
{
    let ta = encode_utf8(a.spec_key_type());
    let tb = encode_utf8(b.spec_key_type());
    lemma_enc_run_peel(ta, spec_payload(a), tb, spec_payload(b));
    vstd::utf8::encode_utf8_decode_utf8(a.spec_key_type());
    vstd::utf8::encode_utf8_decode_utf8(b.spec_key_type());
    let s = a.spec_key_type();
    assert(b.spec_key_type() == s);
    lemma_key_type_determines(a, s);
    lemma_key_type_determines(b, s);
    match (a, b) {
        (PublicKey::Rsa(x), PublicKey::Rsa(y)) => {
            assert(spec_payload(a) == enc_run(x.e@) + enc_run(x.n@));
            lemma_enc_run_peel(x.e@, enc_run(x.n@), y.e@, enc_run(y.n@));
            
                assert(enc_run(x.n@) + Seq::<u8>::empty() =~= enc_run(x.n@));
                assert(enc_run(y.n@) + Seq::<u8>::empty() =~= enc_run(y.n@));
            lemma_enc_run_peel(x.n@, Seq::<u8>::empty(), y.n@, Seq::<u8>::empty());
        },
        (PublicKey::Dss(x), PublicKey::Dss(y)) => {
            assert(spec_payload(a) =~= enc_run(x.p@) + (enc_run(x.q@) + (enc_run(x.g@) + enc_run(
                x.y@,
            ))));
            assert(spec_payload(b) =~= enc_run(y.p@) + (enc_run(y.q@) + (enc_run(y.g@) + enc_run(
                y.y@,
            ))));
            lemma_enc_run_peel(
                x.p@,
                enc_run(x.q@) + (enc_run(x.g@) + enc_run(x.y@)),
                y.p@,
                enc_run(y.q@) + (enc_run(y.g@) + enc_run(y.y@)),
            );
            lemma_enc_run_peel(
                x.q@,
                enc_run(x.g@) + enc_run(x.y@),
                y.q@,
                enc_run(y.g@) + enc_run(y.y@),
            );
            lemma_enc_run_peel(x.g@, enc_run(x.y@), y.g@, enc_run(y.y@));
            
                assert(enc_run(x.y@) + Seq::<u8>::empty() =~= enc_run(x.y@));
                assert(enc_run(y.y@) + Seq::<u8>::empty() =~= enc_run(y.y@));
            lemma_enc_run_peel(x.y@, Seq::<u8>::empty(), y.y@, Seq::<u8>::empty());
        },
        (PublicKey::Ed25519(x), PublicKey::Ed25519(y)) => {
            
                assert(enc_run(x.enc_a@) + Seq::<u8>::empty() =~= enc_run(x.enc_a@));
                assert(enc_run(y.enc_a@) + Seq::<u8>::empty() =~= enc_run(y.enc_a@));
            lemma_enc_run_peel(x.enc_a@, Seq::<u8>::empty(), y.enc_a@, Seq::<u8>::empty());
        },
        (PublicKey::SkEd25519(x), PublicKey::SkEd25519(y)) => {
            lemma_enc_run_peel(
                x.enc_a@,
                enc_run(encode_utf8(x.application@)),
                y.enc_a@,
                enc_run(encode_utf8(y.application@)),
            );
            
                assert(enc_run(encode_utf8(x.application@)) + Seq::<u8>::empty() =~= enc_run(
                    encode_utf8(x.application@),
                ));
                assert(enc_run(encode_utf8(y.application@)) + Seq::<u8>::empty() =~= enc_run(
                    encode_utf8(y.application@),
                ));
            lemma_enc_run_peel(
                encode_utf8(x.application@),
                Seq::<u8>::empty(),
                encode_utf8(y.application@),
                Seq::<u8>::empty(),
            );
            vstd::utf8::encode_utf8_decode_utf8(x.application@);
            vstd::utf8::encode_utf8_decode_utf8(y.application@);
        },
        (PublicKey::EcDsa(x), PublicKey::EcDsa(y)) => {
            
                assert(enc_run(x.q@) + Seq::<u8>::empty() =~= enc_run(x.q@));
                assert(enc_run(y.q@) + Seq::<u8>::empty() =~= enc_run(y.q@));
            lemma_enc_run_peel(x.q@, Seq::<u8>::empty(), y.q@, Seq::<u8>::empty());
        },
        (PublicKey::SkEcDsa(x), PublicKey::SkEcDsa(y)) => {
            lemma_enc_run_peel(
                x.q@,
                enc_run(encode_utf8(x.application@)),
                y.q@,
                enc_run(encode_utf8(y.application@)),
            );
            
                assert(enc_run(encode_utf8(x.application@)) + Seq::<u8>::empty() =~= enc_run(
                    encode_utf8(x.application@),
                ));
                assert(enc_run(encode_utf8(y.application@)) + Seq::<u8>::empty() =~= enc_run(
                    encode_utf8(y.application@),
                ));
            lemma_enc_run_peel(
                encode_utf8(x.application@),
                Seq::<u8>::empty(),
                encode_utf8(y.application@),
                Seq::<u8>::empty(),
            );
            vstd::utf8::encode_utf8_decode_utf8(x.application@);
            vstd::utf8::encode_utf8_decode_utf8(y.application@);
        },
        _ => {
            assert(false);
        },
    }
}

/// Shape of a payload of one run that consumes the input exactly.
spec fn fits_one(b: Seq<u8>, tv: Seq<u8>) -> bool {
    let i0 = 4 + tv.len() as int;
    spec_read_run(b, i0) matches Some(p1) && p1.1 == b.len()
}

/// Shape of a payload of two runs that consumes the input exactly.
spec fn fits_two(b: Seq<u8>, tv: Seq<u8>) -> bool {
    let i0 = 4 + tv.len() as int;
    spec_read_run(b, i0) matches Some(p1) && (spec_read_run(b, p1.1) matches Some(p2) && p2.1
        == b.len())
}

/// Like [`fits_two`], with the second run holding UTF-8 text.
spec fn fits_two_text(b: Seq<u8>, tv: Seq<u8>) -> bool {
    let i0 = 4 + tv.len() as int;
    spec_read_run(b, i0) matches Some(p1) && (spec_read_run(b, p1.1) matches Some(p2) && p2.1
        == b.len() && vstd::utf8::valid_utf8(p2.0))
}

/// Shape of a payload of four runs that consumes the input exactly.
spec fn fits_four(b: Seq<u8>, tv: Seq<u8>) -> bool {
    let i0 = 4 + tv.len() as int;
    spec_read_run(b, i0) matches Some(p1) && (spec_read_run(b, p1.1) matches Some(p2) && (
    spec_read_run(b, p2.1) matches Some(p3) && (spec_read_run(b, p3.1) matches Some(p4) && p4.1
        == b.len())))
}

proof fn lemma_only_rsa(b: Seq<u8>, ts: Seq<char>, tv: Seq<u8>)
    requires
        spec_read_run(b, 0) matches Some(p) && p.0 == tv,
        tv == encode_utf8(ts),
        ts == "ssh-rsa"@,
    ensures
        forall|k: PublicKey| #![trigger spec_serialize(k)]
            (k.wf() && b == spec_serialize(k)) ==> fits_two(b, tv),
{
    assert forall|k: PublicKey| (k.wf() && b == spec_serialize(k)) implies fits_two(b, tv) by {
        lemma_serialized_reads(k, b, ts, tv);
        lemma_key_type_determines(k, ts);
    }
}

proof fn lemma_only_dss(b: Seq<u8>, ts: Seq<char>, tv: Seq<u8>)
    requires
        spec_read_run(b, 0) matches Some(p) && p.0 == tv,
        tv == encode_utf8(ts),
        ts == "ssh-dss"@,
    ensures
        forall|k: PublicKey| #![trigger spec_serialize(k)]
            (k.wf() && b == spec_serialize(k)) ==> fits_four(b, tv),
{
    assert forall|k: PublicKey| (k.wf() && b == spec_serialize(k)) implies fits_four(b, tv) by {
        lemma_serialized_reads(k, b, ts, tv);
        lemma_key_type_determines(k, ts);
    }
}

proof fn lemma_only_ed25519(b: Seq<u8>, ts: Seq<char>, tv: Seq<u8>)
    requires
        spec_read_run(b, 0) matches Some(p) && p.0 == tv,
        tv == encode_utf8(ts),
        ts == "ssh-ed25519"@,
    ensures
        forall|k: PublicKey| #![trigger spec_serialize(k)]
            (k.wf() && b == spec_serialize(k)) ==> fits_one(b, tv),
{
    assert forall|k: PublicKey| (k.wf() && b == spec_serialize(k)) implies fits_one(b, tv) by {
        lemma_serialized_reads(k, b, ts, tv);
        lemma_key_type_determines(k, ts);
    }
}

proof fn lemma_only_sk_ed25519(b: Seq<u8>, ts: Seq<char>, tv: Seq<u8>)
    requires
        spec_read_run(b, 0) matches Some(p) && p.0 == tv,
        tv == encode_utf8(ts),
        ts == "sk-ssh-ed25519@openssh.com"@,
    ensures
        forall|k: PublicKey| #![trigger spec_serialize(k)]
            (k.wf() && b == spec_serialize(k)) ==> fits_two_text(b, tv),
{
    assert forall|k: PublicKey| (k.wf() && b == spec_serialize(k)) implies fits_two_text(
        b,
        tv,
    ) by {
        lemma_serialized_reads(k, b, ts, tv);
        lemma_key_type_determines(k, ts);
        match k {
            PublicKey::SkEd25519(x) => {
                vstd::utf8::encode_utf8_valid_utf8(x.application@);
            },
            _ => {},
        }
    }
}

proof fn lemma_only_sk_ecdsa(b: Seq<u8>, ts: Seq<char>, tv: Seq<u8>)
    requires
        spec_read_run(b, 0) matches Some(p) && p.0 == tv,
        tv == encode_utf8(ts),
        "sk-ecdsa-sha2-"@.is_prefix_of(ts),
        "@openssh.com"@.is_suffix_of(ts),
        ts.len() > 26,
    ensures
        forall|k: PublicKey| #![trigger spec_serialize(k)]
            (k.wf() && b == spec_serialize(k)) ==> fits_two_text(b, tv),
{
    reveal_strlit("sk-ecdsa-sha2-");
    reveal_strlit("@openssh.com");
    assert forall|k: PublicKey| (k.wf() && b == spec_serialize(k)) implies fits_two_text(
        b,
        tv,
    ) by {
        lemma_serialized_reads(k, b, ts, tv);
        lemma_key_type_determines(k, ts);
        match k {
            PublicKey::SkEcDsa(x) => {
                vstd::utf8::encode_utf8_valid_utf8(x.application@);
            },
            _ => {},
        }
    }
}

proof fn lemma_only_ecdsa(b: Seq<u8>, ts: Seq<char>, tv: Seq<u8>)
    requires
        spec_read_run(b, 0) matches Some(p) && p.0 == tv,
        tv == encode_utf8(ts),
        "ecdsa-sha2-"@.is_prefix_of(ts),
        ts.len() > 11,
    ensures
        forall|k: PublicKey| #![trigger spec_serialize(k)]
            (k.wf() && b == spec_serialize(k)) ==> fits_one(b, tv),
{
    reveal_strlit("ecdsa-sha2-");
    assert forall|k: PublicKey| (k.wf() && b == spec_serialize(k)) implies fits_one(b, tv) by {
        lemma_serialized_reads(k, b, ts, tv);
        lemma_key_type_determines(k, ts);
    }
}

/// Equality agrees with the wire form: two well-formed keys are
/// byte-for-byte equal (the meaning of `==` on [`PublicKey`]) exactly when
/// they serialize to the same bytes.  However a key was built — directly,
/// by projection, or by deserialization — only its field bytes decide
/// equality.
pub proof fn lemma_eq_matches_serialization(a: PublicKey, b: PublicKey)
    requires
        a.wf(),
        b.wf(),
    ensures
        key_eq(a, b) <==> spec_serialize(a) == spec_serialize(b),
{
    if key_eq(a, b) {
        match (a, b) {
            (PublicKey::Dss(x), PublicKey::Dss(y)) => {
                assert(spec_serialize(a) == spec_serialize(b));
            },
            (PublicKey::Ed25519(x), PublicKey::Ed25519(y)) => {
                assert(spec_serialize(a) == spec_serialize(b));
            },
            (PublicKey::SkEd25519(x), PublicKey::SkEd25519(y)) => {
                assert(spec_serialize(a) == spec_serialize(b));
            },
            (PublicKey::Rsa(x), PublicKey::Rsa(y)) => {
                assert(spec_serialize(a) == spec_serialize(b));
            },
            (PublicKey::EcDsa(x), PublicKey::EcDsa(y)) => {
                assert(x.spec_key_type() == y.spec_key_type());
                assert(spec_serialize(a) == spec_serialize(b));
            },
            (PublicKey::SkEcDsa(x), PublicKey::SkEcDsa(y)) => {
                assert(x.spec_key_type() == y.spec_key_type());
                assert(spec_serialize(a) == spec_serialize(b));
            },
            _ => {
                assert(false);
            },
        }
    }
    if spec_serialize(a) == spec_serialize(b) {
        lemma_serialize_injective(a, b);
    }
}


} // verus!
