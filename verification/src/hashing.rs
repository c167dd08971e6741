//! What this library takes from the hashing of the standard library.

use vstd::prelude::*;

verus! {

/// `Hash::hash` of an array in the standard library, which hashes the
/// array as the slice of its elements. Nothing is claimed here of the state
/// in which the hasher is left, so nothing that is proved in this library
/// rests on it.
pub assume_specification<Elem: core::hash::Hash, const N: usize, H: core::hash::Hasher>[ <[Elem; N] as core::hash::Hash>::hash::<H> ](
    array: &[Elem; N],
    state: &mut H,
);

} // verus!
