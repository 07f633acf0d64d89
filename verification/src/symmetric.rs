//! The symmetric specialization: both halves share one type and the two
//! inter-round permutations are one self-inverse `swap`.

use vstd::prelude::*;

use core::marker::PhantomData;

use crate::round::Round;
use crate::xor::Xor;
use crate::{BlockView, Network};

mod private;

pub use private::Sealed;

verus! {

/// A [`Network`] whose halves share one type `T` and whose `forward` and
/// `backward` are both one permutation `swap`, required to be self-inverse
/// ([`SymmetricNetwork::lemma_swap_involutive`]). The customary `swap` is
/// plain transposition of the two halves, as in [`Symmetric`].
pub trait SymmetricNetwork: Sized {
    /// Half of a block.
    type T: Xor;

    /// The round type.
    type F: Round<Self::T, L = Self::T>;

    /// The network's rounds, in encryption order.
    spec fn spec_rounds(self) -> Seq<Self::F>;

    /// Surrender the rounds, in encryption order.
    fn rounds(self) -> (v: Vec<Self::F>)
        ensures
            v@ == self.spec_rounds(),
    ;

    /// What [`SymmetricNetwork::swap`] computes, over views. The plain
    /// choice is transposition of the two halves, as in [`Symmetric`].
    spec fn spec_swap(b: BlockView<Self::T, Self::T>) -> BlockView<Self::T, Self::T>;

    /// Rearrange the halves between rounds; must be self-inverse.
    fn swap(block: (Self::T, Self::T)) -> (r: (Self::T, Self::T))
        ensures
            (r.0@, r.1@) == Self::spec_swap((block.0@, block.1@)),
    ;

    /// The structural obligation: `swap(swap(block)) == block`.
    proof fn lemma_swap_involutive(b: BlockView<Self::T, Self::T>)
        ensures
            Self::spec_swap(Self::spec_swap(b)) == b,
    ;
}

impl<I: SymmetricNetwork> Network for I {
    type L = I::T;

    type R = I::T;

    type F = I::F;

    open spec fn spec_rounds(self) -> Seq<I::F> {
        <I as SymmetricNetwork>::spec_rounds(self)
    }

    fn rounds(self) -> (v: Vec<I::F>) {
        <I as SymmetricNetwork>::rounds(self)
    }

    open spec fn spec_forward(b: BlockView<I::T, I::T>) -> BlockView<I::T, I::T> {
        I::spec_swap(b)
    }

    open spec fn spec_backward(b: BlockView<I::T, I::T>) -> BlockView<I::T, I::T> {
        I::spec_swap(b)
    }

    fn forward(block: (I::T, I::T)) -> (r: (I::T, I::T)) {
        I::swap(block)
    }

    fn backward(block: (I::T, I::T)) -> (r: (I::T, I::T)) {
        I::swap(block)
    }

    proof fn lemma_backward_forward(b: BlockView<I::T, I::T>) {
        I::lemma_swap_involutive(b);
        I::lemma_swap_involutive(I::spec_swap(b));
    }
}

/// Swap involution, restated for callers: for every symmetric network,
/// swapping twice returns the original block.
pub proof fn lemma_swap_involution<S: SymmetricNetwork>(b: BlockView<S::T, S::T>)
    ensures
        S::spec_swap(S::spec_swap(b)) == b,
{
    S::lemma_swap_involutive(b);
}

/// [`SymmetricNetwork`] wrapper around a vector of rounds, using the default
/// transposition `swap`.
#[derive(Debug)]
pub struct Symmetric<F, T>(Vec<F>, PhantomData<T>);

impl<F: Clone, T> Clone for Symmetric<F, T> {
    fn clone(&self) -> Self {
        Symmetric(self.0.clone(), PhantomData)
    }
}

impl<T: Xor, F: Round<T, L = T>> Symmetric<F, T> {
    /// Make a [`SymmetricNetwork`] out of a vector of rounds.
    pub fn new(rounds: Vec<F>) -> (n: Self)
        ensures
            <Self as SymmetricNetwork>::spec_rounds(n) == rounds@,
    {
        Symmetric(rounds, PhantomData)
    }
}

impl<T: Xor, F: Round<T, L = T>> SymmetricNetwork for Symmetric<F, T> {
    type T = T;

    type F = F;

    closed spec fn spec_rounds(self) -> Seq<F> {
        self.0@
    }

    fn rounds(self) -> (v: Vec<F>) {
        self.0
    }

    open spec fn spec_swap(b: BlockView<T, T>) -> BlockView<T, T> {
        (b.1, b.0)
    }

    fn swap(block: (T, T)) -> (r: (T, T)) {
        (block.1, block.0)
    }

    proof fn lemma_swap_involutive(b: BlockView<T, T>) {
    }
}

/// Extension trait for creating [`SymmetricNetwork`]s from a vector of
/// rounds. Sealed: only the crate's own round containers qualify, so the
/// wrapper's contract cannot be bypassed.
pub trait SymmetricExt<T: Xor>: Sized + Sealed<T> {
    /// The round type.
    type F: Round<T, L = T>;

    /// The rounds this value holds, in encryption order.
    spec fn spec_to_rounds(self) -> Seq<Self::F>;

    /// Make a [`SymmetricNetwork`] from this sequence of rounds.
    fn feistel_symmetric(self) -> (n: Symmetric<Self::F, T>)
        ensures
            <Symmetric<Self::F, T> as SymmetricNetwork>::spec_rounds(n) == self.spec_to_rounds(),
    ;
}

impl<T: Xor, F: Round<T, L = T>> Sealed<T> for Vec<F> {

}

impl<T: Xor, F: Round<T, L = T>> SymmetricExt<T> for Vec<F> {
    type F = F;

    open spec fn spec_to_rounds(self) -> Seq<F> {
        self@
    }

    fn feistel_symmetric(self) -> (n: Symmetric<F, T>) {
        Symmetric::new(self)
    }
}

} // verus!
