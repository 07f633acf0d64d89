//! A variable-content array wrapper with elementwise exclusive-or.

use vstd::prelude::*;

use crate::xor::Xor;

verus! {

/// An array of elements supporting elementwise exclusive-or, used as the
/// half type of array networks. Its view is the sequence of element views.
///
/// Exclusive-or of two arrays of equal length is elementwise; applying it to
/// operands of different lengths leaves the right operand unchanged, a total
/// extension of the partial elementwise operation under which the
/// cancellation law still holds for every pair of operands.
#[derive(Clone, Debug, PartialEq, Eq)]
pub struct XorArray<T>(pub Vec<T>);

impl<T: View> View for XorArray<T> {
    type V = Seq<T::V>;

    open spec fn view(&self) -> Seq<T::V> {
        Seq::new(self.0@.len(), |i: int| self.0@[i]@)
    }
}

impl<T: View> XorArray<T> {
    /// The number of elements.
    pub fn len(&self) -> (n: usize)
        ensures
            n == self@.len(),
    {
        self.0.len()
    }

    /// Concatenate two arrays.
    pub fn concat(self, other: Self) -> (r: Self)
        ensures
            r@ == self@ + other@,
    {
        let ghost sv = self@;
        let ghost ov = other@;
        let mut a = self.0;
        let mut b = other.0;
        a.append(&mut b);
        let r = XorArray(a);
        proof {
            assert(r@ =~= sv + ov);
        }
        r
    }

    /// Split an array at `at`: the leading `at` elements, and the rest.
    pub fn split(self, at: usize) -> (r: (Self, Self))
        requires
            at <= self@.len(),
        ensures
            r.0@ == self@.take(at as int),
            r.1@ == self@.skip(at as int),
    {
        let ghost sv = self@;
        let mut a = self.0;
        let b = a.split_off(at);
        let r = (XorArray(a), XorArray(b));
        proof {
            assert(r.0@ =~= sv.take(at as int));
            assert(r.1@ =~= sv.skip(at as int));
        }
        r
    }
}

impl<T: Xor> Xor for XorArray<T> {
    open spec fn spec_xor(a: Seq<T::V>, b: Seq<T::V>) -> Seq<T::V> {
        if a.len() == b.len() {
            Seq::new(b.len(), |i: int| T::spec_xor(a[i], b[i]))
        } else {
            b
        }
    }

    #[verifier::loop_isolation(false)]
    fn xor(self, other: Self) -> (r: Self) {
        let ghost av = self@;
        let ghost bv = other@;
        if self.0.len() != other.0.len() {
            other
        } else {
            let mut a = self.0;
            let mut b = other.0;
            let mut out: Vec<T> = Vec::new();
            while a.len() > 0
                invariant
                    a@.len() == b@.len(),
                    a@.len() + out@.len() == av.len(),
                    forall|j: int|
                        0 <= j < a@.len() ==> (#[trigger] a@[j])@ == av[out@.len() + j],
                    forall|j: int|
                        0 <= j < b@.len() ==> (#[trigger] b@[j])@ == bv[out@.len() + j],
                    forall|j: int|
                        0 <= j < out@.len() ==> (#[trigger] out@[j])@ == T::spec_xor(
                            av[j],
                            bv[j],
                        ),
                decreases a@.len(),
            {
                let x = a.remove(0);
                let y = b.remove(0);
                let z = x.xor(y);
                out.push(z);
            }
            let r = XorArray(out);
            proof {
                assert(r@ =~= Self::spec_xor(av, bv));
            }
            r
        }
    }

    proof fn lemma_xor_cancel(a: Seq<T::V>, b: Seq<T::V>) {
        if a.len() == b.len() {
            let inner = Self::spec_xor(a, b);
            assert forall|i: int| 0 <= i < b.len() implies T::spec_xor(
                a[i],
                #[trigger] inner[i],
            ) == b[i] by {
                T::lemma_xor_cancel(a[i], b[i]);
            }
            assert(Self::spec_xor(a, Self::spec_xor(a, b)) =~= b);
        }
    }
}

} // verus!
