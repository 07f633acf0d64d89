//! A generic Feistel-style construction: block-cipher-like encrypt/decrypt
//! transforms built from an arbitrary finite sequence of caller-supplied
//! round functions, following the classical alternating-halves pattern.
//!
//! A [`Network`] owns an ordered sequence of [`Round`] values together with a
//! pair of mutually inverse permutations (`forward`/`backward`) that say how
//! the two halves of a block are rearranged between rounds. The generic
//! [`Network::encrypt`] folds each round's output into the left half by
//! exclusive-or; [`Network::decrypt`] runs the same algorithm with the rounds
//! in reverse order and `backward` in place of `forward`, which is also what
//! encrypting through the [`Reverse`] adapter does. The round-trip property —
//! decrypting an encryption returns the original block — is proved once, for
//! every network, in [`lemma_network_round_trip`].

use vstd::prelude::*;

mod array;
mod round;
mod rounds;
mod symmetric;
mod xor;
mod xor_array;

pub use array::{
    lemma_array_round_trip, spec_array_decrypt, spec_array_encrypt, Array, ArrayExt, ArrayNetwork,
};
pub use round::Round;
pub use rounds::{sha256_of, HashRound, MulAddRound, SubSwapNet};
pub use symmetric::{lemma_swap_involution, Symmetric, SymmetricExt, SymmetricNetwork};
pub use xor::Xor;
pub use xor_array::XorArray;

verus! {

/// The views of a block's two halves: the mathematical value a network's
/// specification functions operate on.
pub type BlockView<L, R> = (<L as View>::V, <R as View>::V);

/// One round applied to a block: the round's output, computed from the right
/// half, is folded into the left half by exclusive-or; the right half passes
/// through unchanged.
pub open spec fn feistel_step<R: View, F: Round<R>>(
    round: F,
    b: BlockView<F::L, R>,
) -> BlockView<F::L, R> {
    (<F::L as Xor>::spec_xor(round.spec_run(b.1), b.0), b.1)
}

/// The rounds of `rounds` applied in order to `b`. The permutation `perm` is
/// applied before every round, except before the first round when `first`
/// holds.
pub open spec fn run_rounds<R: View, F: Round<R>>(
    perm: spec_fn(BlockView<F::L, R>) -> BlockView<F::L, R>,
    rounds: Seq<F>,
    b: BlockView<F::L, R>,
    first: bool,
) -> BlockView<F::L, R>
    decreases rounds.len(),
{
    if rounds.len() == 0 {
        b
    } else {
        let b0 = if first {
            b
        } else {
            perm(b)
        };
        run_rounds::<R, F>(perm, rounds.drop_first(), feistel_step::<R, F>(rounds[0], b0), false)
    }
}

/// A Feistel network: an ordered, finite sequence of rounds over half types
/// `L` and `R`, plus two mutually inverse permutations applied between
/// rounds. The inverse law is a proof obligation of every implementation
/// ([`Network::lemma_backward_forward`]), so `decrypt` provably undoes
/// `encrypt` for every network.
pub trait Network: Sized {
    /// The left half of a block: the half that rounds update.
    type L: Xor;

    /// The right half of a block: the half that rounds read.
    type R: View;

    /// The round type.
    type F: Round<Self::R, L = Self::L>;

    /// The network's rounds, in encryption order.
    spec fn spec_rounds(self) -> Seq<Self::F>;

    /// Surrender the rounds, in encryption order.
    fn rounds(self) -> (v: Vec<Self::F>)
        ensures
            v@ == self.spec_rounds(),
    ;

    /// What [`Network::forward`] computes, over views.
    spec fn spec_forward(b: BlockView<Self::L, Self::R>) -> BlockView<Self::L, Self::R>;

    /// What [`Network::backward`] computes, over views.
    spec fn spec_backward(b: BlockView<Self::L, Self::R>) -> BlockView<Self::L, Self::R>;

    /// Rearrange the halves between two consecutive rounds.
    ///
    /// Note: returning `block` unchanged is generally incorrect, since then
    /// every round after the first reads the same source half.
    fn forward(block: (Self::L, Self::R)) -> (r: (Self::L, Self::R))
        ensures
            (r.0@, r.1@) == Self::spec_forward((block.0@, block.1@)),
    ;

    /// Inverse of [`Network::forward`].
    fn backward(block: (Self::L, Self::R)) -> (r: (Self::L, Self::R))
        ensures
            (r.0@, r.1@) == Self::spec_backward((block.0@, block.1@)),
    ;

    /// The structural obligation on every network: `forward` and `backward`
    /// are mutual inverses.
    proof fn lemma_backward_forward(b: BlockView<Self::L, Self::R>)
        ensures
            Self::spec_backward(Self::spec_forward(b)) == b,
            Self::spec_forward(Self::spec_backward(b)) == b,
    ;

    /// Encrypt a block represented as halves: iterate the rounds in order,
    /// applying `forward` before every round except the first, and folding
    /// each round's output into the left half by exclusive-or.
    #[verifier::loop_isolation(false)]
    fn encrypt(self, block: (Self::L, Self::R)) -> (r: (Self::L, Self::R))
        ensures
            (r.0@, r.1@) == run_rounds::<Self::R, Self::F>(
                |x: BlockView<Self::L, Self::R>| Self::spec_forward(x),
                self.spec_rounds(),
                (block.0@, block.1@),
                true,
            ),
    {
        let ghost fwd = |x: BlockView<Self::L, Self::R>| Self::spec_forward(x);
        let ghost target = run_rounds::<Self::R, Self::F>(
            fwd,
            self.spec_rounds(),
            (block.0@, block.1@),
            true,
        );
        let mut rounds = self.rounds();
        let mut left = block.0;
        let mut right = block.1;
        let mut first = true;
        while rounds.len() > 0
            invariant
                run_rounds::<Self::R, Self::F>(fwd, rounds@, (left@, right@), first) == target,
            decreases rounds@.len(),
        {
            let ghost prev_rounds = rounds@;
            let ghost prev = (left@, right@);
            let ghost prev_first = first;
            let round = rounds.remove(0);
            if !first {
                let p = Self::forward((left, right));
                left = p.0;
                right = p.1;
            }
            let v = round.run(&right);
            left = v.xor(left);
            first = false;
            proof {
                assert(rounds@ =~= prev_rounds.drop_first());
                let b0 = if prev_first {
                    prev
                } else {
                    fwd(prev)
                };
                assert((left@, right@) == feistel_step::<Self::R, Self::F>(round, b0));
            }
        }
        (left, right)
    }

    /// Decrypt a block represented as halves: run the encryption algorithm
    /// with the rounds in reverse order and `backward` between rounds, which
    /// exactly undoes [`Network::encrypt`].
    #[verifier::loop_isolation(false)]
    fn decrypt(self, block: (Self::L, Self::R)) -> (r: (Self::L, Self::R))
        ensures
            (r.0@, r.1@) == run_rounds::<Self::R, Self::F>(
                |x: BlockView<Self::L, Self::R>| Self::spec_backward(x),
                self.spec_rounds().reverse(),
                (block.0@, block.1@),
                true,
            ),
    {
        let ghost bwd = |x: BlockView<Self::L, Self::R>| Self::spec_backward(x);
        let ghost target = run_rounds::<Self::R, Self::F>(
            bwd,
            self.spec_rounds().reverse(),
            (block.0@, block.1@),
            true,
        );
        let mut rounds = reverse_vec(self.rounds());
        let mut left = block.0;
        let mut right = block.1;
        let mut first = true;
        while rounds.len() > 0
            invariant
                run_rounds::<Self::R, Self::F>(bwd, rounds@, (left@, right@), first) == target,
            decreases rounds@.len(),
        {
            let ghost prev_rounds = rounds@;
            let ghost prev = (left@, right@);
            let ghost prev_first = first;
            let round = rounds.remove(0);
            if !first {
                let p = Self::backward((left, right));
                left = p.0;
                right = p.1;
            }
            let v = round.run(&right);
            left = v.xor(left);
            first = false;
            proof {
                assert(rounds@ =~= prev_rounds.drop_first());
                let b0 = if prev_first {
                    prev
                } else {
                    bwd(prev)
                };
                assert((left@, right@) == feistel_step::<Self::R, Self::F>(round, b0));
            }
        }
        (left, right)
    }
}

/// What [`Network::encrypt`] computes, over views.
pub open spec fn spec_encrypt<N: Network>(n: N, b: BlockView<N::L, N::R>) -> BlockView<
    N::L,
    N::R,
> {
    run_rounds::<N::R, N::F>(
        |x: BlockView<N::L, N::R>| N::spec_forward(x),
        n.spec_rounds(),
        b,
        true,
    )
}

/// What [`Network::decrypt`] computes, over views: the rounds in reverse
/// order, with `backward` in place of `forward`.
pub open spec fn spec_decrypt<N: Network>(n: N, b: BlockView<N::L, N::R>) -> BlockView<
    N::L,
    N::R,
> {
    run_rounds::<N::R, N::F>(
        |x: BlockView<N::L, N::R>| N::spec_backward(x),
        n.spec_rounds().reverse(),
        b,
        true,
    )
}

/// Reverse a vector of rounds.
fn reverse_vec<T>(v: Vec<T>) -> (r: Vec<T>)
    ensures
        r@ == v@.reverse(),
{
    let ghost vs = v@;
    let mut inner = v;
    let mut out: Vec<T> = Vec::new();
    while inner.len() > 0
        invariant
            inner@.len() <= vs.len(),
            inner@ == vs.take(inner@.len() as int),
            out@ == vs.skip(inner@.len() as int).reverse(),
        decreases inner@.len(),
    {
        let ghost k = inner@.len() as int;
        let x = inner.pop().unwrap();
        out.push(x);
        proof {
            assert(inner@ =~= vs.take(k - 1));
            assert(out@ =~= vs.skip(k - 1).reverse());
        }
    }
    proof {
        assert(out@ =~= vs.reverse());
    }
    out
}

/// A network that iterates another network's rounds back to front and
/// exchanges the roles of `forward` and `backward`. Purely structural
/// delegation: encrypting through `Reverse` is decrypting with the wrapped
/// network, and vice versa ([`lemma_reverse_adapter`]).
pub struct Reverse<I>(pub I);

impl<I: Network> Network for Reverse<I> {
    type L = I::L;

    type R = I::R;

    type F = I::F;

    open spec fn spec_rounds(self) -> Seq<I::F> {
        self.0.spec_rounds().reverse()
    }

    fn rounds(self) -> (v: Vec<I::F>) {
        reverse_vec(self.0.rounds())
    }

    open spec fn spec_forward(b: BlockView<I::L, I::R>) -> BlockView<I::L, I::R> {
        I::spec_backward(b)
    }

    open spec fn spec_backward(b: BlockView<I::L, I::R>) -> BlockView<I::L, I::R> {
        I::spec_forward(b)
    }

    fn forward(block: (I::L, I::R)) -> (r: (I::L, I::R)) {
        I::backward(block)
    }

    fn backward(block: (I::L, I::R)) -> (r: (I::L, I::R)) {
        I::forward(block)
    }

    proof fn lemma_backward_forward(b: BlockView<I::L, I::R>) {
        I::lemma_backward_forward(b);
    }
}

/// Running the same rounds with pointwise equal permutations gives the same
/// result.
proof fn lemma_run_rounds_congruence<R: View, F: Round<R>>(
    p1: spec_fn(BlockView<F::L, R>) -> BlockView<F::L, R>,
    p2: spec_fn(BlockView<F::L, R>) -> BlockView<F::L, R>,
    rounds: Seq<F>,
    b: BlockView<F::L, R>,
    first: bool,
)
    requires
        forall|x: BlockView<F::L, R>| #[trigger] p1(x) == p2(x),
    ensures
        run_rounds::<R, F>(p1, rounds, b, first) == run_rounds::<R, F>(p2, rounds, b, first),
    decreases rounds.len(),
{
    if rounds.len() > 0 {
        let b0 = if first {
            b
        } else {
            p1(b)
        };
        lemma_run_rounds_congruence::<R, F>(
            p1,
            p2,
            rounds.drop_first(),
            feistel_step::<R, F>(rounds[0], b0),
            false,
        );
    }
}

/// The reverse adapter exchanges the roles of encryption and decryption:
/// encrypting through [`Reverse`] is decrypting with the wrapped network,
/// and vice versa.
pub proof fn lemma_reverse_adapter<N: Network>(n: N, b: BlockView<N::L, N::R>)
    ensures
        spec_encrypt(Reverse(n), b) == spec_decrypt(n, b),
        spec_decrypt(Reverse(n), b) == spec_encrypt(n, b),
{
    let fwd = |x: BlockView<N::L, N::R>| N::spec_forward(x);
    let bwd = |x: BlockView<N::L, N::R>| N::spec_backward(x);
    let rev_fwd = |x: BlockView<N::L, N::R>| <Reverse<N> as Network>::spec_forward(x);
    let rev_bwd = |x: BlockView<N::L, N::R>| <Reverse<N> as Network>::spec_backward(x);
    lemma_run_rounds_congruence::<N::R, N::F>(
        rev_fwd,
        bwd,
        n.spec_rounds().reverse(),
        b,
        true,
    );
    lemma_run_rounds_congruence::<N::R, N::F>(
        rev_bwd,
        fwd,
        n.spec_rounds().reverse().reverse(),
        b,
        true,
    );
    assert(n.spec_rounds().reverse().reverse() =~= n.spec_rounds());
}

/// Appending one more round applies that round last, after the permutation
/// if any earlier round ran.
proof fn lemma_run_rounds_snoc<R: View, F: Round<R>>(
    perm: spec_fn(BlockView<F::L, R>) -> BlockView<F::L, R>,
    rounds: Seq<F>,
    q: F,
    b: BlockView<F::L, R>,
    first: bool,
)
    ensures
        run_rounds::<R, F>(perm, rounds.push(q), b, first) == ({
            let m = run_rounds::<R, F>(perm, rounds, b, first);
            let m2 = if rounds.len() == 0 && first {
                m
            } else {
                perm(m)
            };
            feistel_step::<R, F>(q, m2)
        }),
    decreases rounds.len(),
{
    let pq = rounds.push(q);
    let b0 = if first {
        b
    } else {
        perm(b)
    };
    if rounds.len() == 0 {
        assert(pq[0] == q);
        assert(pq.drop_first() =~= Seq::<F>::empty());
        assert(run_rounds::<R, F>(perm, pq, b, first) == run_rounds::<R, F>(
            perm,
            pq.drop_first(),
            feistel_step::<R, F>(q, b0),
            false,
        ));
        assert(run_rounds::<R, F>(perm, pq.drop_first(), feistel_step::<R, F>(q, b0), false)
            == feistel_step::<R, F>(q, b0));
        assert(run_rounds::<R, F>(perm, rounds, b, first) == b);
    } else {
        let b1 = feistel_step::<R, F>(rounds[0], b0);
        lemma_run_rounds_snoc::<R, F>(perm, rounds.drop_first(), q, b1, false);
        assert(pq.drop_first() =~= rounds.drop_first().push(q));
        assert(pq[0] == rounds[0]);
        assert(run_rounds::<R, F>(perm, pq, b, first) == run_rounds::<R, F>(
            perm,
            pq.drop_first(),
            b1,
            false,
        ));
        assert(run_rounds::<R, F>(perm, rounds, b, first) == run_rounds::<R, F>(
            perm,
            rounds.drop_first(),
            b1,
            false,
        ));
    }
}

/// Running the rounds in reverse order with the inverse permutation undoes
/// running them forward: the generic Feistel round-trip.
proof fn lemma_run_round_trip<R: View, F: Round<R>>(
    fwd: spec_fn(BlockView<F::L, R>) -> BlockView<F::L, R>,
    bwd: spec_fn(BlockView<F::L, R>) -> BlockView<F::L, R>,
    rounds: Seq<F>,
    b: BlockView<F::L, R>,
)
    requires
        forall|x: BlockView<F::L, R>| #[trigger] bwd(fwd(x)) == x,
    ensures
        run_rounds::<R, F>(bwd, rounds.reverse(), run_rounds::<R, F>(fwd, rounds, b, true), true)
            == b,
    decreases rounds.len(),
{
    if rounds.len() == 0 {
        assert(rounds.reverse() =~= rounds);
    } else {
        let rs1 = rounds.drop_last();
        let q = rounds.last();
        assert(rounds =~= rs1.push(q));
        lemma_run_rounds_snoc::<R, F>(fwd, rs1, q, b, true);
        let y = run_rounds::<R, F>(fwd, rs1, b, true);
        let x = if rs1.len() == 0 {
            y
        } else {
            fwd(y)
        };
        let e = run_rounds::<R, F>(fwd, rounds, b, true);
        assert(e == feistel_step::<R, F>(q, x));
        assert(rounds.reverse()[0] == q);
        assert(rounds.reverse().drop_first() =~= rs1.reverse());
        let v = q.spec_run(x.1);
        <F::L as Xor>::lemma_xor_cancel(v, x.0);
        assert(feistel_step::<R, F>(q, e) == (x.0, x.1));
        assert(x == (x.0, x.1));
        assert(run_rounds::<R, F>(bwd, rounds.reverse(), e, true) == run_rounds::<R, F>(
            bwd,
            rs1.reverse(),
            x,
            false,
        ));
        if rs1.len() == 0 {
            assert(rs1.reverse() =~= rs1);
            assert(run_rounds::<R, F>(bwd, rs1.reverse(), x, false) == x);
            assert(run_rounds::<R, F>(fwd, rs1, b, true) == b);
        } else {
            lemma_run_round_trip::<R, F>(fwd, bwd, rs1, b);
            let q1 = rs1.reverse()[0];
            assert(bwd(fwd(y)) == y);
            assert(run_rounds::<R, F>(bwd, rs1.reverse(), x, false) == run_rounds::<R, F>(
                bwd,
                rs1.reverse().drop_first(),
                feistel_step::<R, F>(q1, y),
                false,
            ));
            assert(run_rounds::<R, F>(bwd, rs1.reverse(), y, true) == run_rounds::<R, F>(
                bwd,
                rs1.reverse().drop_first(),
                feistel_step::<R, F>(q1, y),
                false,
            ));
        }
    }
}

/// Round-trip: for every network and every block of matching shape,
/// decrypting an encryption — and encrypting a decryption — returns the
/// original block.
pub proof fn lemma_network_round_trip<N: Network>(n: N, b: BlockView<N::L, N::R>)
    ensures
        spec_decrypt(n, spec_encrypt(n, b)) == b,
        spec_encrypt(n, spec_decrypt(n, b)) == b,
{
    let fwd = |x: BlockView<N::L, N::R>| N::spec_forward(x);
    let bwd = |x: BlockView<N::L, N::R>| N::spec_backward(x);
    assert forall|x: BlockView<N::L, N::R>| #[trigger] bwd(fwd(x)) == x by {
        N::lemma_backward_forward(x);
    }
    assert forall|x: BlockView<N::L, N::R>| #[trigger] fwd(bwd(x)) == x by {
        N::lemma_backward_forward(x);
    }
    lemma_run_round_trip::<N::R, N::F>(fwd, bwd, n.spec_rounds(), b);
    lemma_run_round_trip::<N::R, N::F>(bwd, fwd, n.spec_rounds().reverse(), b);
    assert(n.spec_rounds().reverse().reverse() =~= n.spec_rounds());
}

/// With an empty round sequence, both encryption and decryption are the
/// identity.
pub proof fn lemma_zero_rounds_identity<N: Network>(n: N, b: BlockView<N::L, N::R>)
    requires
        n.spec_rounds().len() == 0,
    ensures
        spec_encrypt(n, b) == b,
        spec_decrypt(n, b) == b,
{
    assert(n.spec_rounds().reverse() =~= n.spec_rounds());
}

} // verus!
