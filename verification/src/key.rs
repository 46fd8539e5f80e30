use vstd::prelude::*;

use crate::error::EncodeError;

verus! {

/// A key or attribute name whose first byte is this one (an ASCII underscore)
/// marks a private field. Such names are unconditionally excluded from output;
/// the convention is fixed, never configurable.
pub const RESERVED_PREFIX: u8 = 95;

/// Whether a decoded name falls under the private-field exclusion convention.
/// An empty name does not: it begins with nothing, so it is emitted.
pub open spec fn is_reserved(name: Seq<u8>) -> bool {
    name.len() > 0 && name[0] == RESERVED_PREFIX
}

/// Executable check of the private-field exclusion convention.
pub fn starts_with_reserved_prefix(name: &Vec<u8>) -> (r: bool)
    ensures
        r == is_reserved(name@),
{
    name.len() > 0 && name[0] == RESERVED_PREFIX
}

/// Copies a decoded name, byte for byte.
pub fn clone_bytes(v: &Vec<u8>) -> (r: Vec<u8>)
    ensures
        r@ == v@,
{
    let mut r: Vec<u8> = Vec::new();
    let mut i: usize = 0;
    while i < v.len()
        invariant
            i <= v@.len(),
            r@ == v@.take(i as int),
        decreases v@.len() - i,
    {
        r.push(v[i]);
        i = i + 1;
        proof {
            assert(r@ =~= v@.take(i as int));
        }
    }
    proof {
        assert(v@.take(v@.len() as int) =~= v@);
    }
    r
}

/// What validating one candidate key or attribute name decided.
#[derive(Clone, PartialEq, Eq, Debug)]
pub enum KeyOutcome {
    /// The name is valid text without the reserved prefix: emit it.
    Emit(Vec<u8>),
    /// The name carries the reserved prefix: drop this entry silently.
    Skip,
    /// The whole encode is aborted with this error.
    Fail(EncodeError),
}

/// Shared validator of a decoded key or attribute name, used by both encoding
/// paths: a failed decode aborts the whole encode with `InvalidStr`, a name
/// under the private-field exclusion convention is skipped, any other name is
/// emitted as it stands.
pub fn validate_text_key(name: &Option<Vec<u8>>) -> (r: KeyOutcome)
    ensures
        match *name {
            Option::None => r == KeyOutcome::Fail(EncodeError::InvalidStr),
            Option::Some(b) => {
                &&& is_reserved(b@) ==> r == KeyOutcome::Skip
                &&& !is_reserved(b@) ==> (r matches KeyOutcome::Emit(k) && k@ == b@)
            },
        },
{
    match name {
        Option::None => KeyOutcome::Fail(EncodeError::InvalidStr),
        Option::Some(b) => {
            if starts_with_reserved_prefix(b) {
                KeyOutcome::Skip
            } else {
                KeyOutcome::Emit(clone_bytes(b))
            }
        },
    }
}

} // verus!
