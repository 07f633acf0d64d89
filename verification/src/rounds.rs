//! Ready-made round functions: hash-driven rounds over byte arrays, and
//! affine rounds over 64-bit words with a sample custom-swap network.

use vstd::prelude::*;

use crate::round::Round;
use crate::symmetric::SymmetricNetwork;
use crate::xor_array::XorArray;

verus! {

/// The 32-byte SHA-256 digest of a byte sequence.
pub uninterp spec fn sha256_of(bytes: Seq<u8>) -> Seq<u8>;

/// Relies on sha2::Sha256 through the Digest trait: the SHA-256 digest of
/// the input, 32 bytes, a function of the input bytes alone.
#[verifier::external_body]
fn sha256(bytes: &Vec<u8>) -> (r: Vec<u8>)
    ensures
        r@ == sha256_of(bytes@),
        r@.len() == 32,
{
    <sha2::Sha256 as sha2::Digest>::digest(bytes.as_slice()).to_vec()
}

/// One hash-driven round: the source half concatenated with this round's
/// key chunk is hashed with SHA-256, and the 32-byte digest is folded into
/// the other half. Typically each round's chunk is a slice of key material.
#[derive(Clone, Debug)]
pub struct HashRound {
    /// The key material mixed into the digest after the source half.
    pub chunk: Vec<u8>,
}

impl Round<XorArray<u8>> for HashRound {
    type L = XorArray<u8>;

    open spec fn spec_run(self, right: Seq<u8>) -> Seq<u8> {
        sha256_of(right + self.chunk@)
    }

    #[verifier::loop_isolation(false)]
    fn run(self, right: &XorArray<u8>) -> (v: XorArray<u8>) {
        let ghost chv = self.chunk@;
        let mut buf: Vec<u8> = Vec::new();
        let n = right.0.len();
        let mut i: usize = 0;
        while i < n
            invariant
                i <= n,
                buf@ == right.0@.take(i as int),
            decreases n - i,
        {
            buf.push(right.0[i]);
            i += 1;
        }
        let mut c = self.chunk;
        buf.append(&mut c);
        let d = sha256(&buf);
        let r = XorArray(d);
        proof {
            assert(right@ =~= right.0@);
            assert(buf@ =~= right.0@ + chv);
            assert(r@ =~= d@);
        }
        r
    }
}

/// One affine round over 64-bit words: the source half is multiplied by
/// this round's coefficient and 991 is added, with wraparound.
#[derive(Clone, Copy, Debug)]
pub struct MulAddRound {
    /// The multiplier applied to the source half.
    pub k: u64,
}

impl Round<u64> for MulAddRound {
    type L = u64;

    open spec fn spec_run(self, right: u64) -> u64 {
        ((self.k * right + 991) % 0x1_0000_0000_0000_0000) as u64
    }

    fn run(self, right: &u64) -> (v: u64) {
        let m = self.k.wrapping_mul(*right);
        let v = m.wrapping_add(991);
        proof {
            let big: int = 0x1_0000_0000_0000_0000;
            let prod = self.k * (*right as int);
            assert(m == prod % big);
            vstd::arithmetic::div_mod::lemma_small_mod(991nat, big as nat);
            vstd::arithmetic::div_mod::lemma_add_mod_noop(prod, 991, big);
            if m + 991 <= u64::MAX {
                vstd::arithmetic::div_mod::lemma_small_mod((m + 991) as nat, big as nat);
            } else {
                vstd::arithmetic::div_mod::lemma_mod_add_multiples_vanish(m + 991 - big, big);
                vstd::arithmetic::div_mod::lemma_small_mod((m + 991 - big) as nat, big as nat);
            }
        }
        v
    }
}

/// A sample symmetric network over 64-bit words with a custom self-inverse
/// swap: each half is subtracted from a fixed constant, with wraparound.
#[derive(Clone, Debug)]
pub struct SubSwapNet(pub Vec<MulAddRound>);

impl SymmetricNetwork for SubSwapNet {
    type T = u64;

    type F = MulAddRound;

    open spec fn spec_rounds(self) -> Seq<MulAddRound> {
        self.0@
    }

    fn rounds(self) -> (v: Vec<MulAddRound>) {
        self.0
    }

    open spec fn spec_swap(b: (u64, u64)) -> (u64, u64) {
        (
            vstd::wrapping::u64_specs::wrapping_sub(23u64, b.0),
            vstd::wrapping::u64_specs::wrapping_sub(101u64, b.1),
        )
    }

    fn swap(block: (u64, u64)) -> (r: (u64, u64)) {
        (23u64.wrapping_sub(block.0), 101u64.wrapping_sub(block.1))
    }

    proof fn lemma_swap_involutive(b: (u64, u64)) {
    }
}

} // verus!
