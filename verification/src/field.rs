//! Canonical elements of the two prime fields of BN254.
//!
//! An element is stored as four little-endian 64-bit limbs of its least
//! non-negative residue. Its view is that residue as a natural number, and
//! all contracts are stated over views. The arithmetic itself is done by
//! `ark-ff`; the functions that call it say so.
use ark_ff::{BigInt, Field, PrimeField};
use ark_std::UniformRand;
use rand::rngs::StdRng;
use vstd::prelude::*;

verus! {

/// The generator of randomness that every sampling function draws from.
#[verifier::external_type_specification]
#[verifier::external_body]
pub struct ExStdRng(StdRng);

/// The order of the base field: coordinates, labels, pads and MACs live here.
pub open spec fn fq_modulus() -> nat {
    21888242871839275222246405745257275088696311157297823662689037894645226208583nat
}

/// The order of the scalar field, which is also the order of the group `G1`.
pub open spec fn fr_modulus() -> nat {
    21888242871839275222246405745257275088548364400416034343698204186575808495617nat
}

/// The natural number written by four little-endian 64-bit limbs.
pub open spec fn limbs_value(l0: u64, l1: u64, l2: u64, l3: u64) -> nat {
    (l0 + l1 * 0x1_0000_0000_0000_0000int + l2 * 0x1_0000_0000_0000_0000_0000_0000_0000_0000int
        + l3 * 0x1_0000_0000_0000_0000_0000_0000_0000_0000_0000_0000_0000_0000int) as nat
}

/// Addition in the base field.
pub open spec fn fq_add(a: nat, b: nat) -> nat {
    (a + b) % fq_modulus()
}

/// Subtraction in the base field.
pub open spec fn fq_sub(a: nat, b: nat) -> nat {
    ((a - b) % (fq_modulus() as int)) as nat
}

/// Multiplication in the base field.
pub open spec fn fq_mul(a: nat, b: nat) -> nat {
    (a * b) % fq_modulus()
}

/// The residues held by a sequence of base-field elements.
pub open spec fn values(s: Seq<Fq>) -> Seq<nat> {
    s.map_values(|x: Fq| x@)
}

/// Whether every element of a sequence is a residue of the base field.
pub open spec fn all_canonical(s: Seq<nat>) -> bool {
    forall|i: int| 0 <= i < s.len() ==> #[trigger] s[i] < fq_modulus()
}

/// Two limb quadruples that write the same number are the same quadruple.
pub proof fn lemma_limbs_value_injective(
    a0: u64,
    a1: u64,
    a2: u64,
    a3: u64,
    b0: u64,
    b1: u64,
    b2: u64,
    b3: u64,
)
    requires
        limbs_value(a0, a1, a2, a3) == limbs_value(b0, b1, b2, b3),
    ensures
        a0 == b0,
        a1 == b1,
        a2 == b2,
        a3 == b3,
{
}

/// Compares two limb quadruples as numbers.
fn limbs_less(a0: u64, a1: u64, a2: u64, a3: u64, b0: u64, b1: u64, b2: u64, b3: u64) -> (r: bool)
    ensures
        r == (limbs_value(a0, a1, a2, a3) < limbs_value(b0, b1, b2, b3)),
{
    if a3 != b3 {
        a3 < b3
    } else if a2 != b2 {
        a2 < b2
    } else if a1 != b1 {
        a1 < b1
    } else {
        a0 < b0
    }
}

/// An element of the base field, in canonical form.
#[derive(Clone, Copy, Debug, PartialEq, Eq)]
pub struct Fq {
    pub(crate) limbs: [u64; 4],
}

impl View for Fq {
    type V = nat;

    closed spec fn view(&self) -> nat {
        limbs_value(self.limbs[0], self.limbs[1], self.limbs[2], self.limbs[3])
    }
}

impl Fq {
    #[verifier::type_invariant]
    pub(crate) open spec fn canonical(self) -> bool {
        self@ < fq_modulus()
    }

    /// The element written by the given limbs, if they are below the modulus.
    pub fn from_limbs(l0: u64, l1: u64, l2: u64, l3: u64) -> (r: Option<Fq>)
        ensures
            r.is_some() <==> limbs_value(l0, l1, l2, l3) < fq_modulus(),
            r matches Some(x) ==> x@ == limbs_value(l0, l1, l2, l3),
    {
        if limbs_less(
            l0,
            l1,
            l2,
            l3,
            0x3c208c16d87cfd47,
            0x97816a916871ca8d,
            0xb85045b68181585d,
            0x30644e72e131a029,
        ) {
            Some(Fq { limbs: [l0, l1, l2, l3] })
        } else {
            None
        }
    }

    /// The limbs of the element, least significant first.
    pub fn limbs(&self) -> (r: (u64, u64, u64, u64))
        ensures
            limbs_value(r.0, r.1, r.2, r.3) == self@,
            self@ < fq_modulus(),
    {
        proof {
            use_type_invariant(self);
        }
        (self.limbs[0], self.limbs[1], self.limbs[2], self.limbs[3])
    }

    /// The element `x mod q` for a 128-bit `x`, which is `x` itself.
    pub fn from_u128(x: u128) -> (r: Fq)
        ensures
            r@ == x,
    {
        let lo: u64 = (x & 0xffff_ffff_ffff_ffff) as u64;
        let hi: u64 = (x >> 64) as u64;
        assert(x == lo + hi * 0x1_0000_0000_0000_0000) by (bit_vector)
            requires
                lo == (x & 0xffff_ffff_ffff_ffff) as u64,
                hi == (x >> 64) as u64,
        ;
        Fq { limbs: [lo, hi, 0, 0] }
    }

    /// The low 128 bits of the residue.
    pub fn low_u128(&self) -> (r: u128)
        ensures
            r == self@ % 0x1_0000_0000_0000_0000_0000_0000_0000_0000nat,
    {
        let lo: u128 = self.limbs[0] as u128;
        let hi: u128 = self.limbs[1] as u128;
        lo + hi * 0x1_0000_0000_0000_0000u128
    }

    /// The additive identity.
    pub fn zero() -> (r: Fq)
        ensures
            r@ == 0,
    {
        Fq { limbs: [0, 0, 0, 0] }
    }

    /// The multiplicative identity.
    pub fn one() -> (r: Fq)
        ensures
            r@ == 1,
    {
        Fq { limbs: [1, 0, 0, 0] }
    }

    /// Whether two elements are the same residue.
    pub fn equals(&self, other: &Fq) -> (r: bool)
        ensures
            r == (self@ == other@),
    {
        proof {
            if self@ == other@ {
                lemma_limbs_value_injective(
                    self.limbs[0],
                    self.limbs[1],
                    self.limbs[2],
                    self.limbs[3],
                    other.limbs[0],
                    other.limbs[1],
                    other.limbs[2],
                    other.limbs[3],
                );
            }
        }
        self.limbs[0] == other.limbs[0] && self.limbs[1] == other.limbs[1] && self.limbs[2]
            == other.limbs[2] && self.limbs[3] == other.limbs[3]
    }
}

impl Fq {
    /// Sum of two elements. Calls `ark_ff`'s addition on `ark_bn254::Fq`,
    /// which adds modulo the field's order. The limbs of an element are
    /// below the modulus, so the conversion to the outside type does not
    /// fail; the limbs handed back are those of `into_bigint`, the least
    /// non-negative residue. The same holds of the functions below.
    #[verifier::external_body]
    pub(crate) fn add(&self, rhs: &Fq) -> (r: Fq)
        ensures
            r@ == fq_add(self@, rhs@),
    {
        let a: ark_bn254::Fq = BigInt(self.limbs).into();
        let b: ark_bn254::Fq = BigInt(rhs.limbs).into();
        Fq { limbs: (a + b).into_bigint().0 }
    }

    /// Difference of two elements. Calls `ark_ff`'s subtraction on
    /// `ark_bn254::Fq`, which subtracts modulo the field's order.
    #[verifier::external_body]
    pub(crate) fn sub(&self, rhs: &Fq) -> (r: Fq)
        ensures
            r@ == fq_sub(self@, rhs@),
    {
        let a: ark_bn254::Fq = BigInt(self.limbs).into();
        let b: ark_bn254::Fq = BigInt(rhs.limbs).into();
        Fq { limbs: (a - b).into_bigint().0 }
    }

    /// Product of two elements. Calls `ark_ff`'s multiplication on
    /// `ark_bn254::Fq`, which multiplies modulo the field's order.
    #[verifier::external_body]
    pub(crate) fn mul(&self, rhs: &Fq) -> (r: Fq)
        ensures
            r@ == fq_mul(self@, rhs@),
    {
        let a: ark_bn254::Fq = BigInt(self.limbs).into();
        let b: ark_bn254::Fq = BigInt(rhs.limbs).into();
        Fq { limbs: (a * b).into_bigint().0 }
    }

    /// Multiplicative inverse. Calls `ark_ff`'s `Field::inverse` on
    /// `ark_bn254::Fq`, which gives `None` for zero and otherwise the element
    /// whose product with the argument is one.
    #[verifier::external_body]
    pub(crate) fn inverse(&self) -> (r: Option<Fq>)
        ensures
            r.is_none() <==> self@ == 0,
            r matches Some(inv) ==> fq_mul(self@, inv@) == 1,
    {
        let a: ark_bn254::Fq = BigInt(self.limbs).into();
        match a.inverse() {
            Some(inv) => Some(Fq { limbs: inv.into_bigint().0 }),
            None => None,
        }
    }

    /// A fresh element. Calls `ark_std`'s `UniformRand::rand` for
    /// `ark_bn254::Fq`; nothing is claimed of the outcome beyond its being
    /// an element of the field.
    #[verifier::external_body]
    pub(crate) fn random(rng: &mut StdRng) -> (r: Fq) {
        Fq { limbs: ark_bn254::Fq::rand(rng).into_bigint().0 }
    }
}

/// Draws `n` elements of the base field. Each is a residue of the field;
/// which one is left to chance.
pub fn sample_elements(rng: &mut StdRng, n: usize) -> (r: Vec<Fq>)
    ensures
        r@.len() == n,
        all_canonical(values(r@)),
{
    let mut out: Vec<Fq> = Vec::new();
    let mut i: usize = 0;
    while i < n
        invariant
            i <= n,
            out@.len() == i,
            all_canonical(values(out@)),
        decreases n - i,
    {
        let x = Fq::random(rng);
        let ghost before = out@;
        out.push(x);
        proof {
            use_type_invariant(&x);
            assert forall|j: int| 0 <= j < values(out@).len() implies #[trigger] values(out@)[j]
                < fq_modulus() by {
                if j < i {
                    assert(values(out@)[j] == values(before)[j]);
                }
            }
        }
        i = i + 1;
    }
    out
}

/// An element of the scalar field, in canonical form: an exponent of `G1`.
#[derive(Clone, Copy, Debug, PartialEq, Eq)]
pub struct Fr {
    pub(crate) limbs: [u64; 4],
}

impl View for Fr {
    type V = nat;

    closed spec fn view(&self) -> nat {
        limbs_value(self.limbs[0], self.limbs[1], self.limbs[2], self.limbs[3])
    }
}

impl Fr {
    #[verifier::type_invariant]
    spec fn canonical(self) -> bool {
        self@ < fr_modulus()
    }

    /// The scalar written by the given limbs, if they are below the modulus.
    pub fn from_limbs(l0: u64, l1: u64, l2: u64, l3: u64) -> (r: Option<Fr>)
        ensures
            r.is_some() <==> limbs_value(l0, l1, l2, l3) < fr_modulus(),
            r matches Some(x) ==> x@ == limbs_value(l0, l1, l2, l3),
    {
        if limbs_less(
            l0,
            l1,
            l2,
            l3,
            0x43e1f593f0000001,
            0x2833e84879b97091,
            0xb85045b68181585d,
            0x30644e72e131a029,
        ) {
            Some(Fr { limbs: [l0, l1, l2, l3] })
        } else {
            None
        }
    }

    /// The limbs of the scalar, least significant first.
    pub fn limbs(&self) -> (r: (u64, u64, u64, u64))
        ensures
            limbs_value(r.0, r.1, r.2, r.3) == self@,
            self@ < fr_modulus(),
    {
        proof {
            use_type_invariant(self);
        }
        (self.limbs[0], self.limbs[1], self.limbs[2], self.limbs[3])
    }

    /// Whether the scalar is the additive identity.
    pub fn is_zero(&self) -> (r: bool)
        ensures
            r == (self@ == 0),
    {
        self.limbs[0] == 0 && self.limbs[1] == 0 && self.limbs[2] == 0 && self.limbs[3] == 0
    }

    /// Whether two scalars are the same residue.
    pub fn equals(&self, other: &Fr) -> (r: bool)
        ensures
            r == (self@ == other@),
    {
        proof {
            if self@ == other@ {
                lemma_limbs_value_injective(
                    self.limbs[0],
                    self.limbs[1],
                    self.limbs[2],
                    self.limbs[3],
                    other.limbs[0],
                    other.limbs[1],
                    other.limbs[2],
                    other.limbs[3],
                );
            }
        }
        self.limbs[0] == other.limbs[0] && self.limbs[1] == other.limbs[1] && self.limbs[2]
            == other.limbs[2] && self.limbs[3] == other.limbs[3]
    }

    /// A fresh scalar. Calls `ark_std`'s `UniformRand::rand` for
    /// `ark_bn254::Fr`; nothing is claimed of the outcome beyond its being
    /// an element of the field.
    #[verifier::external_body]
    pub(crate) fn random(rng: &mut StdRng) -> (r: Fr) {
        Fr { limbs: ark_bn254::Fr::rand(rng).into_bigint().0 }
    }
}

} // verus!
