//! The algorithm-name capability.

use vstd::prelude::*;

verus! {

/// Capability of producing the canonical algorithm name used as the wire
/// discriminant.
///
/// Every key struct (and the enum over them) implements this.  The name is a
/// pure function of the value's fields: fixed for the simple families, and
/// composed from the embedded curve identifier for the parameterized ones.
pub trait KeyType {
    /// The algorithm name as a mathematical character sequence.
    spec fn spec_key_type(&self) -> Seq<char>;

    /// The canonical algorithm name a protocol peer must see on the wire.
    fn key_type(&self) -> (r: String)
        ensures
            r@ == self.spec_key_type(),
    ;
}

} // verus!
