//! Failures that deserialization can report.

use vstd::prelude::*;

verus! {

/// Why a byte sequence failed to deserialize into a [`crate::PublicKey`].
///
/// Deserialization never yields a partial key: on any failure the whole
/// input is rejected with one of these values.
#[derive(Debug)]
pub enum ProtoError {
    /// The algorithm-name discriminant was read and spells a string, but
    /// that string names no supported algorithm family.  Carries the
    /// offending name for diagnostics.
    UnknownAlgorithm(String),
    /// The bytes do not have the shape the format demands: a truncated or
    /// overlong run, a discriminant that is not a string, or a payload that
    /// does not match the named family's field layout.
    MalformedPayload,
}

} // verus!
