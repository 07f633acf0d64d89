//! The marker supertrait that keeps [`crate::SymmetricExt`] closed to
//! re-implementation by foreign types.

use vstd::prelude::*;

verus! {

/// Implemented only inside this crate: foreign types cannot satisfy the
/// extension trait's bound, so networks are built only through the provided
/// constructors.
pub trait Sealed<T> {

}

} // verus!
