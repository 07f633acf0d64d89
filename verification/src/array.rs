//! The array specialization: both halves are [`XorArray`]s of one element
//! type, with declared lengths summing to the whole block's length, and
//! encryption operating directly on whole blocks.

use vstd::prelude::*;

use core::marker::PhantomData;

use crate::round::Round;
use crate::xor::Xor;
use crate::xor_array::XorArray;
use crate::{
    feistel_step, lemma_network_round_trip, run_rounds, spec_decrypt, spec_encrypt, BlockView,
    Network,
};

mod private;

pub use private::Sealed;

verus! {

/// A [`Network`] over [`XorArray`] halves that also encrypts and decrypts
/// whole blocks: a block is split at [`ArrayNetwork::spec_boundary`] into the
/// left and right halves, transformed by the generic algorithm, and
/// concatenated back.
pub trait ArrayNetwork: Network<L = XorArray<Self::T>, R = XorArray<Self::T>> {
    /// Element of an array.
    type T: Xor;

    /// The declared length of the left half: where whole blocks are split.
    spec fn spec_boundary(self) -> int;

    /// The declared total block length: the two halves' lengths summed.
    spec fn spec_block_len(self) -> int;

    /// Where whole blocks are split.
    fn boundary(&self) -> (n: usize)
        ensures
            n == self.spec_boundary(),
    ;

    /// Encrypt a whole block: split it at the boundary, encrypt the halves,
    /// and concatenate the result.
    fn array_encrypt(self, block: XorArray<Self::T>) -> (r: XorArray<Self::T>)
        requires
            block@.len() == self.spec_block_len(),
            0 <= self.spec_boundary() <= block@.len(),
        ensures
            ({
                let p = spec_encrypt(
                    self,
                    (block@.take(self.spec_boundary()), block@.skip(self.spec_boundary())),
                );
                r@ == p.0 + p.1
            }),
    {
        let at = self.boundary();
        let p = block.split(at);
        let q = self.encrypt((p.0, p.1));
        q.0.concat(q.1)
    }

    /// Decrypt a whole block: split it at the boundary, decrypt the halves,
    /// and concatenate the result.
    fn array_decrypt(self, block: XorArray<Self::T>) -> (r: XorArray<Self::T>)
        requires
            block@.len() == self.spec_block_len(),
            0 <= self.spec_boundary() <= block@.len(),
        ensures
            ({
                let p = spec_decrypt(
                    self,
                    (block@.take(self.spec_boundary()), block@.skip(self.spec_boundary())),
                );
                r@ == p.0 + p.1
            }),
    {
        let at = self.boundary();
        let p = block.split(at);
        let q = self.decrypt((p.0, p.1));
        q.0.concat(q.1)
    }
}

/// What [`ArrayNetwork::array_encrypt`] computes, over views.
pub open spec fn spec_array_encrypt<N: ArrayNetwork>(n: N, b: Seq<<N::T as View>::V>) -> Seq<
    <N::T as View>::V,
> {
    let p = spec_encrypt(n, (b.take(n.spec_boundary()), b.skip(n.spec_boundary())));
    p.0 + p.1
}

/// What [`ArrayNetwork::array_decrypt`] computes, over views.
pub open spec fn spec_array_decrypt<N: ArrayNetwork>(n: N, b: Seq<<N::T as View>::V>) -> Seq<
    <N::T as View>::V,
> {
    let p = spec_decrypt(n, (b.take(n.spec_boundary()), b.skip(n.spec_boundary())));
    p.0 + p.1
}

/// [`ArrayNetwork`] wrapper around a vector of rounds, with the two halves'
/// lengths declared at construction.
#[derive(Debug)]
pub struct Array<F, T> {
    rounds: Vec<F>,
    left_len: usize,
    right_len: usize,
    elem: PhantomData<T>,
}

impl<F: Clone, T> Clone for Array<F, T> {
    fn clone(&self) -> Self {
        Array {
            rounds: self.rounds.clone(),
            left_len: self.left_len,
            right_len: self.right_len,
            elem: PhantomData,
        }
    }
}

impl<F, T> Array<F, T> {
    /// The declared length of the left half.
    pub closed spec fn spec_left_len(self) -> int {
        self.left_len as int
    }

    /// The declared length of the right half.
    pub closed spec fn spec_right_len(self) -> int {
        self.right_len as int
    }
}

impl<T: Xor, F: Round<XorArray<T>, L = XorArray<T>>> Array<F, T> {
    /// Make an [`ArrayNetwork`] out of a vector of rounds and the two
    /// halves' lengths. Blocks handed to [`ArrayNetwork::array_encrypt`] and
    /// [`ArrayNetwork::array_decrypt`] must have exactly
    /// `left_len + right_len` elements.
    pub fn new(rounds: Vec<F>, left_len: usize, right_len: usize) -> (n: Self)
        ensures
            <Self as Network>::spec_rounds(n) == rounds@,
            n.spec_left_len() == left_len,
            n.spec_right_len() == right_len,
    {
        Array { rounds, left_len, right_len, elem: PhantomData }
    }
}

impl<T: Xor, F: Round<XorArray<T>, L = XorArray<T>>> Network for Array<F, T> {
    type L = XorArray<T>;

    type R = XorArray<T>;

    type F = F;

    closed spec fn spec_rounds(self) -> Seq<F> {
        self.rounds@
    }

    fn rounds(self) -> (v: Vec<F>) {
        self.rounds
    }

    /// Concatenate the halves in the order (right, left) and re-split the
    /// buffer so the new left half keeps the old left length: the two
    /// sub-arrays exchange their positions inside the combined buffer.
    open spec fn spec_forward(b: BlockView<XorArray<T>, XorArray<T>>) -> BlockView<
        XorArray<T>,
        XorArray<T>,
    > {
        let buf = b.1 + b.0;
        (buf.take(b.0.len() as int), buf.skip(b.0.len() as int))
    }

    /// The exact inverse of `spec_forward`: concatenate in the order
    /// (left, right) and re-split from the other end.
    open spec fn spec_backward(b: BlockView<XorArray<T>, XorArray<T>>) -> BlockView<
        XorArray<T>,
        XorArray<T>,
    > {
        let buf = b.0 + b.1;
        (buf.skip(b.1.len() as int), buf.take(b.1.len() as int))
    }

    fn forward(block: (XorArray<T>, XorArray<T>)) -> (r: (XorArray<T>, XorArray<T>)) {
        let (l, rg) = block;
        let at = l.len();
        let buf = rg.concat(l);
        let p = buf.split(at);
        (p.0, p.1)
    }

    fn backward(block: (XorArray<T>, XorArray<T>)) -> (r: (XorArray<T>, XorArray<T>)) {
        let (l, rg) = block;
        let at = rg.len();
        let buf = l.concat(rg);
        let p = buf.split(at);
        (p.1, p.0)
    }

    proof fn lemma_backward_forward(b: BlockView<XorArray<T>, XorArray<T>>) {
        let f = Self::spec_forward(b);
        assert(f.0 + f.1 =~= b.1 + b.0);
        assert(f.1.len() == b.1.len());
        assert((b.1 + b.0).skip(b.1.len() as int) =~= b.0);
        assert((b.1 + b.0).take(b.1.len() as int) =~= b.1);
        assert(Self::spec_backward(f) == (b.0, b.1));
        assert(b == (b.0, b.1));
        let g = Self::spec_backward(b);
        assert(g.1 + g.0 =~= b.0 + b.1);
        assert(g.0.len() == b.0.len());
        assert((b.0 + b.1).take(b.0.len() as int) =~= b.0);
        assert((b.0 + b.1).skip(b.0.len() as int) =~= b.1);
        assert(Self::spec_forward(g) == (b.0, b.1));
    }
}

impl<T: Xor, F: Round<XorArray<T>, L = XorArray<T>>> ArrayNetwork for Array<F, T> {
    type T = T;

    open spec fn spec_boundary(self) -> int {
        self.spec_left_len()
    }

    open spec fn spec_block_len(self) -> int {
        self.spec_left_len() + self.spec_right_len()
    }

    fn boundary(&self) -> (n: usize) {
        self.left_len
    }
}

/// Extension trait for creating [`ArrayNetwork`]s from a vector of rounds.
/// Sealed: only the crate's own round containers qualify, so the wrapper's
/// contract cannot be bypassed.
pub trait ArrayExt<T: Xor>: Sized + Sealed<T> {
    /// The round type.
    type F: Round<XorArray<T>, L = XorArray<T>>;

    /// The rounds this value holds, in encryption order.
    spec fn spec_to_rounds(self) -> Seq<Self::F>;

    /// Make an [`ArrayNetwork`] from this sequence of rounds and the two
    /// halves' lengths.
    fn feistel_array(self, left_len: usize, right_len: usize) -> (n: Array<Self::F, T>)
        ensures
            <Array<Self::F, T> as Network>::spec_rounds(n) == self.spec_to_rounds(),
            n.spec_left_len() == left_len,
            n.spec_right_len() == right_len,
    ;
}

impl<T: Xor, F: Round<XorArray<T>, L = XorArray<T>>> Sealed<T> for Vec<F> {

}

impl<T: Xor, F: Round<XorArray<T>, L = XorArray<T>>> ArrayExt<T> for Vec<F> {
    type F = F;

    open spec fn spec_to_rounds(self) -> Seq<F> {
        self@
    }

    fn feistel_array(self, left_len: usize, right_len: usize) -> (n: Array<F, T>) {
        Array::new(self, left_len, right_len)
    }
}

/// Any permutation that preserves the two halves' lengths keeps them through
/// every round: a round rewrites the left half elementwise and passes the
/// right half through.
proof fn lemma_run_rounds_preserves_lens<T: Xor, F: Round<XorArray<T>, L = XorArray<T>>>(
    perm: spec_fn(BlockView<XorArray<T>, XorArray<T>>) -> BlockView<XorArray<T>, XorArray<T>>,
    rounds: Seq<F>,
    b: BlockView<XorArray<T>, XorArray<T>>,
    first: bool,
)
    requires
        forall|x: BlockView<XorArray<T>, XorArray<T>>|
            (#[trigger] perm(x)).0.len() == x.0.len() && perm(x).1.len() == x.1.len(),
    ensures
        run_rounds::<XorArray<T>, F>(perm, rounds, b, first).0.len() == b.0.len(),
        run_rounds::<XorArray<T>, F>(perm, rounds, b, first).1.len() == b.1.len(),
    decreases rounds.len(),
{
    if rounds.len() > 0 {
        let b0 = if first {
            b
        } else {
            perm(b)
        };
        let b1 = feistel_step::<XorArray<T>, F>(rounds[0], b0);
        assert(b1.0.len() == b0.0.len());
        lemma_run_rounds_preserves_lens::<T, F>(perm, rounds.drop_first(), b1, false);
    }
}

/// The two inter-round permutations of an array network preserve the halves'
/// lengths.
proof fn lemma_array_perms_preserve_lens<T: Xor, F: Round<XorArray<T>, L = XorArray<T>>>()
    ensures
        forall|x: BlockView<XorArray<T>, XorArray<T>>|
            (#[trigger] <Array<F, T> as Network>::spec_forward(x)).0.len() == x.0.len()
                && <Array<F, T> as Network>::spec_forward(x).1.len() == x.1.len(),
        forall|x: BlockView<XorArray<T>, XorArray<T>>|
            (#[trigger] <Array<F, T> as Network>::spec_backward(x)).0.len() == x.0.len()
                && <Array<F, T> as Network>::spec_backward(x).1.len() == x.1.len(),
{
}

/// Round-trip on whole blocks: for every array network and every block of
/// the declared total length, decrypting an encryption — and encrypting a
/// decryption — returns the original block.
pub proof fn lemma_array_round_trip<T: Xor, F: Round<XorArray<T>, L = XorArray<T>>>(
    n: Array<F, T>,
    b: Seq<<T as View>::V>,
)
    requires
        b.len() == n.spec_left_len() + n.spec_right_len(),
    ensures
        spec_array_decrypt(n, spec_array_encrypt(n, b)) == b,
        spec_array_encrypt(n, spec_array_decrypt(n, b)) == b,
{
    let at = n.spec_boundary();
    let bv = (b.take(at), b.skip(at));
    let fwd = |x: BlockView<XorArray<T>, XorArray<T>>| <Array<F, T> as Network>::spec_forward(x);
    let bwd = |x: BlockView<XorArray<T>, XorArray<T>>| <Array<F, T> as Network>::spec_backward(x);
    lemma_array_perms_preserve_lens::<T, F>();
    lemma_network_round_trip(n, bv);

    let p = spec_encrypt(n, bv);
    lemma_run_rounds_preserves_lens::<T, F>(fwd, n.spec_rounds(), bv, true);
    assert(p.0.len() == at && p.1.len() == b.len() - at);
    let enc = p.0 + p.1;
    assert(enc.take(at) =~= p.0);
    assert(enc.skip(at) =~= p.1);
    assert(p == (p.0, p.1));
    assert(spec_decrypt(n, (enc.take(at), enc.skip(at))) == bv);
    assert(bv.0 + bv.1 =~= b);

    let q = spec_decrypt(n, bv);
    lemma_run_rounds_preserves_lens::<T, F>(bwd, n.spec_rounds().reverse(), bv, true);
    assert(q.0.len() == at && q.1.len() == b.len() - at);
    let dec = q.0 + q.1;
    assert(dec.take(at) =~= q.0);
    assert(dec.skip(at) =~= q.1);
    assert(q == (q.0, q.1));
    assert(spec_encrypt(n, (dec.take(at), dec.skip(at))) == bv);
}

} // verus!
