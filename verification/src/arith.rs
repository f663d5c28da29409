//! The scalar arithmetic that a product is computed with.
//!
//! The kernels never look inside a scalar. They are handed a zero, a
//! multiplication and an addition, and promise results in terms of what those
//! two operations return. An operation may be able to return more than one
//! value for the same operands; where it cannot, the arithmetic is
//! `deterministic`, which is what makes a product unique.

use vstd::prelude::*;

verus! {

/// A zero and the two operations of a dot product.
pub struct Arithmetic<T, M, A> {
    /// What an empty sum is.
    pub zero: T,
    /// Multiplies a stored value by a vector element.
    pub mul: M,
    /// Adds a product to a running sum.
    pub add: A,
}

impl<T, M: Fn(T, T) -> T, A: Fn(T, T) -> T> Arithmetic<T, M, A> {
    /// Both operations accept every pair of operands.
    pub open spec fn total(&self) -> bool {
        &&& forall|p: T, q: T| #[trigger] self.mul.requires((p, q))
        &&& forall|p: T, q: T| #[trigger] self.add.requires((p, q))
    }

    /// Each operation has at most one result for given operands.
    pub open spec fn deterministic(&self) -> bool {
        &&& forall|p: T, q: T, r1: T, r2: T|
            #![trigger self.mul.ensures((p, q), r1), self.mul.ensures((p, q), r2)]
            self.mul.ensures((p, q), r1) && self.mul.ensures((p, q), r2) ==> r1 == r2
        &&& forall|p: T, q: T, r1: T, r2: T|
            #![trigger self.add.ensures((p, q), r1), self.add.ensures((p, q), r2)]
            self.add.ensures((p, q), r1) && self.add.ensures((p, q), r2) ==> r1 == r2
    }

    /// `one` times anything is that thing.
    pub open spec fn left_unit(&self, one: T) -> bool {
        forall|q: T, r: T| #[trigger] self.mul.ensures((one, q), r) ==> r == q
    }

    /// Zero plus anything is that thing.
    pub open spec fn zero_neutral(&self) -> bool {
        forall|q: T, r: T| #[trigger] self.add.ensures((self.zero, q), r) ==> r == q
    }

    /// `next` is a value that the running sum `acc` can take when the product
    /// of `v` and `xv` is added to it.
    pub open spec fn step(&self, acc: T, v: T, xv: T, next: T) -> bool {
        exists|term: T|
            #![trigger self.add.ensures((acc, term), next)]
            self.mul.ensures((v, xv), term) && self.add.ensures((acc, term), next)
    }

    /// Bundles a zero with a multiplication and an addition.
    pub fn new(zero: T, mul: M, add: A) -> (ar: Self)
        ensures
            ar.zero == zero,
            ar.mul == mul,
            ar.add == add,
    {
        Arithmetic { zero, mul, add }
    }

    /// One step of a dot product: multiplies, then adds to the running sum.
    pub fn accumulate(&self, acc: T, v: T, xv: T) -> (next: T)
        requires
            self.total(),
        ensures
            self.step(acc, v, xv, next),
    {
        let term = (self.mul)(v, xv);
        (self.add)(acc, term)
    }
}

} // verus!
