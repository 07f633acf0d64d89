//! Exclusive-or combination for block halves.

use vstd::prelude::*;

verus! {

/// A value that can be exclusive-or-combined with another value of the same
/// type. The operation is described at the level of views by [`Xor::spec_xor`]
/// and must satisfy the cancellation law `a ^ (a ^ b) == b`, which is what
/// makes one Feistel round undo itself.
pub trait Xor: View + Sized {
    /// What [`Xor::xor`] computes, over views.
    spec fn spec_xor(a: Self::V, b: Self::V) -> Self::V;

    /// Combine `self` into `other` by exclusive-or.
    fn xor(self, other: Self) -> (r: Self)
        ensures
            r@ == Self::spec_xor(self@, other@),
    ;

    /// The cancellation law: folding the same value in twice is the identity.
    proof fn lemma_xor_cancel(a: Self::V, b: Self::V)
        ensures
            Self::spec_xor(a, Self::spec_xor(a, b)) == b,
    ;
}

impl Xor for u8 {
    open spec fn spec_xor(a: u8, b: u8) -> u8 {
        a ^ b
    }

    fn xor(self, other: u8) -> (r: u8) {
        self ^ other
    }

    proof fn lemma_xor_cancel(a: u8, b: u8) {
        assert(a ^ (a ^ b) == b) by (bit_vector);
    }
}

impl Xor for u64 {
    open spec fn spec_xor(a: u64, b: u64) -> u64 {
        a ^ b
    }

    fn xor(self, other: u64) -> (r: u64) {
        self ^ other
    }

    proof fn lemma_xor_cancel(a: u64, b: u64) {
        assert(a ^ (a ^ b) == b) by (bit_vector);
    }
}

} // verus!
