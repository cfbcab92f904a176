//! The affine MAC that authenticates a label under a blinding offset.
//!
//! With keys `(k0, k1)`, the MAC of a value `x` under the offset `r` is
//! `k1 * (x + r) + k0 * r`.
use crate::field::{fq_add, fq_modulus, fq_mul, Fq};
use rand::rngs::StdRng;
use vstd::prelude::*;

verus! {

/// The MAC of `x` under the offset `r` with keys `(k0, k1)`.
pub open spec fn mac_spec(k0: nat, k1: nat, x: nat, r: nat) -> nat {
    fq_add(fq_mul(k1, fq_add(x, r)), fq_mul(k0, r))
}

/// The MACs of a vector of values under a vector of offsets.
pub open spec fn macs_spec(k0: nat, k1: nat, xs: Seq<nat>, rs: Seq<nat>) -> Seq<nat> {
    Seq::new(xs.len(), |i: int| mac_spec(k0, k1, xs[i], rs[i]))
}

/// Whether `k` has a multiplicative inverse in the base field.
pub open spec fn is_unit(k: nat) -> bool {
    exists|inv: nat| #[trigger] fq_mul(k, inv) == 1
}

/// The receiver's two MAC keys.
#[derive(Clone, Copy, Debug, PartialEq, Eq)]
pub struct MacKeys {
    k0: Fq,
    k1: Fq,
}

impl View for MacKeys {
    type V = (nat, nat);

    closed spec fn view(&self) -> (nat, nat) {
        (self.k0@, self.k1@)
    }
}

impl MacKeys {
    /// The pair of keys `(k0, k1)`.
    pub fn new(k0: Fq, k1: Fq) -> (r: MacKeys)
        ensures
            r@ == (k0@, k1@),
    {
        MacKeys { k0, k1 }
    }

    /// A fresh pair of keys: two draws from the generator, `k0` first.
    /// Each is a residue of the base field; which one is left to chance.
    pub fn sample(rng: &mut StdRng) -> (r: MacKeys)
        ensures
            r@.0 < fq_modulus(),
            r@.1 < fq_modulus(),
    {
        let k0 = Fq::random(rng);
        let k1 = Fq::random(rng);
        proof {
            use_type_invariant(&k0);
            use_type_invariant(&k1);
        }
        MacKeys { k0, k1 }
    }

    /// The key that multiplies the offset alone.
    pub fn k0(&self) -> (r: Fq)
        ensures
            r@ == self@.0,
    {
        self.k0
    }

    /// The key that multiplies the blinded value.
    pub fn k1(&self) -> (r: Fq)
        ensures
            r@ == self@.1,
    {
        self.k1
    }

    /// Whether the keys bind a MAC to its value: whether `k1` is not zero,
    /// and so has an inverse.
    pub fn is_binding(&self) -> (r: bool)
        ensures
            r == (self@.1 != 0),
            r ==> is_unit(self@.1),
    {
        match self.k1.inverse() {
            Some(inv) => {
                assert(fq_mul(self@.1, inv@) == 1);
                true
            },
            None => false,
        }
    }

    /// The MAC of `x` under the offset `r`.
    pub fn mac(&self, x: &Fq, r: &Fq) -> (tag: Fq)
        ensures
            tag@ == mac_spec(self@.0, self@.1, x@, r@),
    {
        let blinded = self.k1.mul(&x.add(r));
        blinded.add(&self.k0.mul(r))
    }
}

} // verus!
