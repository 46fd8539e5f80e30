use vstd::prelude::*;

verus! {

/// An error aborting an entire encode: no partial output is ever valid, a
/// single malformed key anywhere in a record invalidates the whole document.
#[derive(Clone, Copy, PartialEq, Eq, Structural, Debug)]
pub enum EncodeError {
    /// A fast-path key is not a text object.
    KeyMustBeStr,
    /// A key or attribute name could not be decoded as valid text.
    InvalidStr,
    /// A host object-model call (metadata resolution, classification,
    /// attribute access) failed unexpectedly.
    HostCallFailure,
}

} // verus!
