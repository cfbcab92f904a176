//! The MiMC-style keyed permutation with exponent five.
//!
//! One round maps `(xl, xr)` to `(xr + (xl + c)^5, xl)`, with `c` the
//! round's constant. The hash of `(xl, xr)` is the left half after
//! [`MIMC_ROUNDS`] rounds. Pads for wire labels are hashes of a seed and a
//! counter.
use crate::field::{fq_add, fq_modulus, fq_mul, values, Fq};
use ark_ff::PrimeField;
use ark_std::UniformRand;
use rand::rngs::StdRng;
use rand::SeedableRng;
use vstd::arithmetic::div_mod::lemma_mul_mod_noop_general;
use vstd::prelude::*;

verus! {

/// The number of rounds. Both parties have to agree on it.
pub const MIMC_ROUNDS: usize = 322;

/// The seed from which the constants of the block hash are drawn.
pub const BLOCK_HASH_SEED: u64 = 0x5dbe_6259_8d31_3d76;

/// The fifth power in the base field.
pub open spec fn fq_pow5(x: nat) -> nat {
    (x * x * x * x * x) % fq_modulus()
}

/// The two halves of the state after the first `n` rounds.
pub open spec fn mimc5_rounds(xl: nat, xr: nat, constants: Seq<nat>, n: nat) -> (nat, nat)
    decreases n,
{
    if n == 0 {
        (xl, xr)
    } else {
        let prev = mimc5_rounds(xl, xr, constants, (n - 1) as nat);
        (fq_add(fq_pow5(fq_add(prev.0, constants[n - 1])), prev.1), prev.0)
    }
}

/// The hash of `(xl, xr)` under the given round constants.
pub open spec fn mimc5_spec(xl: nat, xr: nat, constants: Seq<nat>) -> nat {
    mimc5_rounds(xl, xr, constants, MIMC_ROUNDS as nat).0
}

/// The low 128 bits of a number.
pub open spec fn low_128(x: nat) -> nat {
    x % 0x1_0000_0000_0000_0000_0000_0000_0000_0000nat
}

/// Squaring twice and multiplying once more gives the fifth power.
proof fn lemma_pow5_by_squaring(x: nat)
    ensures
        fq_mul(fq_mul(fq_mul(x, x), fq_mul(x, x)), x) == fq_pow5(x),
{
    let q = fq_modulus() as int;
    let s = (x * x) as int;
    lemma_mul_mod_noop_general(s, s, q);
    lemma_mul_mod_noop_general(s * s, x as int, q);
    assert(s * s * x == x * x * x * x * x) by (nonlinear_arith)
        requires
            s == x * x,
    ;
}

/// 5-power MiMC hash: `xl, xr := xr + (xl + c_i)^5, xl` for each round `i`,
/// then the left half.
pub fn mimc5_hash(xl: &Fq, xr: &Fq, constants: &[Fq]) -> (r: Fq)
    requires
        constants@.len() >= MIMC_ROUNDS,
    ensures
        r@ == mimc5_spec(xl@, xr@, values(constants@)),
{
    let mut xli = *xl;
    let mut xri = *xr;
    let mut i: usize = 0;
    while i < MIMC_ROUNDS
        invariant
            i <= MIMC_ROUNDS,
            constants@.len() >= MIMC_ROUNDS,
            (xli@, xri@) == mimc5_rounds(xl@, xr@, values(constants@), i as nat),
        decreases MIMC_ROUNDS - i,
    {
        let xl_ci = xli.add(&constants[i]);
        let squared = xl_ci.mul(&xl_ci);
        let fourth = squared.mul(&squared);
        let fifth = fourth.mul(&xl_ci);
        proof {
            lemma_pow5_by_squaring(xl_ci@);
        }
        let next = fifth.add(&xri);
        xri = xli;
        xli = next;
        i = i + 1;
    }
    xli
}

/// The same hash for arguments passed by value and exactly
/// [`MIMC_ROUNDS`] constants.
pub fn mimc5(xl: Fq, xr: Fq, constants: &[Fq]) -> (r: Fq)
    requires
        constants@.len() == MIMC_ROUNDS,
    ensures
        r@ == mimc5_spec(xl@, xr@, values(constants@)),
{
    mimc5_hash(&xl, &xr, constants)
}

/// The residues of the first `n` elements of the base field that a
/// generator started from `seed` hands out.
pub uninterp spec fn seeded_elements(seed: u64, n: nat) -> Seq<nat>;

/// Draws `n` elements from a generator started from `seed`. Calls `rand`'s
/// `SeedableRng::seed_from_u64` for `StdRng` once, and then `ark_std`'s
/// `UniformRand::rand` for `ark_bn254::Fq` `n` times on that generator.
/// The generator is a function of its seed and every draw a function of
/// the generator's state, so the elements are a function of seed and
/// count: the contract names them. The two calls stand in one function
/// because nothing can be said of the generator between them.
#[verifier::external_body]
fn draw_seeded(seed: u64, n: usize) -> (r: Vec<Fq>)
    ensures
        r@.len() == n,
        values(r@) == seeded_elements(seed, n as nat),
{
    let mut rng = StdRng::seed_from_u64(seed);
    let mut out = Vec::with_capacity(n);
    for _ in 0..n {
        out.push(Fq { limbs: ark_bn254::Fq::rand(&mut rng).into_bigint().0 });
    }
    out
}

/// The block hash under given round constants: both blocks are read as
/// field elements, hashed, and the low 128 bits of the image are kept.
pub fn mimc5_hash_block_with(xl_block: u128, xr_block: u128, constants: &[Fq]) -> (r: u128)
    requires
        constants@.len() >= MIMC_ROUNDS,
    ensures
        r == low_128(mimc5_spec(xl_block as nat, xr_block as nat, values(constants@))),
{
    let xl = Fq::from_u128(xl_block);
    let xr = Fq::from_u128(xr_block);
    let image = mimc5_hash(&xl, &xr, constants);
    image.low_u128()
}

/// The round constants of the block hash: the first [`MIMC_ROUNDS`]
/// elements that a generator started from [`BLOCK_HASH_SEED`] hands out.
pub open spec fn block_hash_constants() -> Seq<nat> {
    seeded_elements(BLOCK_HASH_SEED, MIMC_ROUNDS as nat)
}

/// The block hash: the block hash under the constants that a generator
/// started from [`BLOCK_HASH_SEED`] hands out. Equal blocks give equal
/// hashes.
pub fn mimc5_hash_block(xl_block: u128, xr_block: u128) -> (r: u128)
    ensures
        r == low_128(mimc5_spec(xl_block as nat, xr_block as nat, block_hash_constants())),
{
    let constants = draw_seeded(BLOCK_HASH_SEED, MIMC_ROUNDS);
    mimc5_hash_block_with(xl_block, xr_block, constants.as_slice())
}

} // verus!
