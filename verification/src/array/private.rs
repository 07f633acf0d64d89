//! The marker supertrait that keeps [`crate::ArrayExt`] closed to
//! re-implementation by foreign types.

use vstd::prelude::*;

verus! {

/// Implemented only inside this crate: foreign types cannot satisfy the
/// extension trait's bound, so array networks are built only through the
/// provided constructors, where the half lengths are fixed.
pub trait Sealed<T> {

}

} // verus!
