//! Public-key side of an SSH-style authentication protocol.
//!
//! One struct per supported algorithm family holds the algorithm's public
//! material as opaque big-endian byte buffers; the [`PublicKey`] enum closes
//! the set.  Every family carries a canonical algorithm name (its wire
//! discriminant), and a key serializes as that name followed by its fields,
//! each framed as a length-prefixed run of bytes.  Deserialization dispatches
//! on the name alone and rejects anything unrecognized.

pub mod error;
pub mod key_type;
pub mod private_key;
pub mod public_key;
pub mod strutil;
pub mod wire;

pub use error::ProtoError;
pub use key_type::KeyType;
pub use private_key::{
    DssPrivateKey, EcDsaPrivateKey, Ed25519PrivateKey, PrivateKey, RsaPrivateKey,
    SkEcDsaPrivateKey, SkEd25519PrivateKey,
};
pub use public_key::{
    DssPublicKey, EcDsaPublicKey, Ed25519PublicKey, MpInt, PublicKey, RsaPublicKey,
    SkEcDsaPublicKey, SkEd25519PublicKey,
};
