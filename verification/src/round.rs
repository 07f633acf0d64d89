//! The single-round abstraction.

use vstd::prelude::*;

use crate::xor::Xor;

verus! {

/// One keyed round of a Feistel network. A round value is used once: it
/// consumes itself, inspects one half of the block, and returns a value of
/// the other half's type, which the network folds in by exclusive-or.
///
/// [`Round::spec_run`] is the mathematical description of the round, over
/// views; it makes the determinism of a round explicit, which the round-trip
/// proof depends on.
pub trait Round<R: View>: Sized {
    /// The type of the half that receives this round's output.
    type L: Xor;

    /// What [`Round::run`] computes, over views.
    spec fn spec_run(self, right: R::V) -> <Self::L as View>::V;

    /// Consume the round, inspect the source half, and produce the value to
    /// fold into the other half.
    fn run(self, right: &R) -> (v: Self::L)
        ensures
            v@ == self.spec_run(right@),
    ;
}

} // verus!
