use ark_ff::{BigInt, Field, PrimeField};
use pvw_cot::cot::pad;
use pvw_cot::field::{sample_elements, Fq};
use pvw_cot::mimc::{
    mimc5, mimc5_hash, mimc5_hash_block, mimc5_hash_block_with, BLOCK_HASH_SEED, MIMC_ROUNDS,
};
use rand::rngs::StdRng;
use rand::{Rng, SeedableRng};

fn to_ark(x: &Fq) -> ark_bn254::Fq {
    let (l0, l1, l2, l3) = x.limbs();
    ark_bn254::Fq::from_bigint(BigInt([l0, l1, l2, l3])).unwrap()
}

fn from_ark(x: ark_bn254::Fq) -> Fq {
    let l = x.into_bigint().0;
    Fq::from_limbs(l[0], l[1], l[2], l[3]).unwrap()
}

/// The permutation written directly over the outside field type.
fn reference_hash(xl: ark_bn254::Fq, xr: ark_bn254::Fq, constants: &[Fq]) -> ark_bn254::Fq {
    let mut l = xl;
    let mut r = xr;
    for c in constants.iter().take(MIMC_ROUNDS) {
        let next = (l + to_ark(c)).pow([5u64]) + r;
        r = l;
        l = next;
    }
    l
}

#[test]
fn test_mimc5() {
    let mut rng = StdRng::seed_from_u64(11);
    let constants = sample_elements(&mut rng, MIMC_ROUNDS);
    let xl = sample_elements(&mut rng, 1)[0];
    let xr = sample_elements(&mut rng, 1)[0];
    let image = mimc5(xl, xr, &constants);
    println!("{:?}", image);
    assert_eq!(to_ark(&image), reference_hash(to_ark(&xl), to_ark(&xr), &constants));
}

#[test]
fn test_mimc5_hash_block() {
    let x: u128 = rand::random::<u128>();
    let y: u128 = rand::random::<u128>();
    let image = mimc5_hash_block(x, y);
    println!("{:?}", image);
    assert_eq!(image, mimc5_hash_block(x, y));
}

#[test]
fn round_count_is_322() {
    assert_eq!(MIMC_ROUNDS, 322);
}

#[test]
fn hash_agrees_with_a_direct_computation() {
    let mut rng = StdRng::seed_from_u64(12);
    let constants = sample_elements(&mut rng, MIMC_ROUNDS);
    for _ in 0..4 {
        let xl = sample_elements(&mut rng, 1)[0];
        let xr = sample_elements(&mut rng, 1)[0];
        let image = mimc5_hash(&xl, &xr, &constants);
        assert_eq!(image, from_ark(reference_hash(to_ark(&xl), to_ark(&xr), &constants)));
        assert!(!image.equals(&xl));
        assert!(!image.equals(&xr));
    }
}

#[test]
fn hash_of_zero_under_zero_constants_is_zero() {
    let constants = vec![Fq::zero(); MIMC_ROUNDS];
    assert_eq!(mimc5_hash(&Fq::zero(), &Fq::zero(), &constants), Fq::zero());
}

#[test]
fn one_round_by_hand() {
    // With constants 1, 0, 0, ... and input (1, 2): the first round gives
    // ((1 + 1)^5 + 2, 1) = (34, 1), and the second (34^5 + 1, 34).
    let mut constants = vec![Fq::zero(); MIMC_ROUNDS];
    constants[0] = Fq::one();
    let image = mimc5_hash(&Fq::from_u128(1), &Fq::from_u128(2), &constants);
    let mut l = ark_bn254::Fq::from(34u64);
    let mut r = ark_bn254::Fq::from(1u64);
    for _ in 1..MIMC_ROUNDS {
        let next = l.pow([5u64]) + r;
        r = l;
        l = next;
    }
    assert_eq!(image, from_ark(l));
}

#[test]
fn constants_beyond_the_rounds_are_not_read() {
    let mut rng = StdRng::seed_from_u64(13);
    let constants = sample_elements(&mut rng, MIMC_ROUNDS);
    let mut longer = constants.clone();
    longer.extend(sample_elements(&mut rng, 10));
    let xl = Fq::from_u128(5);
    let xr = Fq::from_u128(6);
    assert_eq!(mimc5_hash(&xl, &xr, &constants), mimc5_hash(&xl, &xr, &longer));
}

#[test]
fn every_round_constant_matters() {
    let mut rng = StdRng::seed_from_u64(14);
    let constants = sample_elements(&mut rng, MIMC_ROUNDS);
    let xl = Fq::from_u128(5);
    let xr = Fq::from_u128(6);
    let image = mimc5_hash(&xl, &xr, &constants);
    for i in [0usize, 1, 109, 110, 321] {
        let mut changed = constants.clone();
        changed[i] = from_ark(to_ark(&changed[i]) + ark_bn254::Fq::from(1u64));
        assert_ne!(mimc5_hash(&xl, &xr, &changed), image);
    }
}

#[test]
fn pad_is_a_function_of_seed_and_counter() {
    let mut rng = StdRng::seed_from_u64(15);
    let constants = sample_elements(&mut rng, MIMC_ROUNDS);
    let seed = sample_elements(&mut rng, 1)[0];
    for index in [0usize, 1, 2, 15, 1000] {
        let first = pad(&seed, index, &constants);
        let second = pad(&seed, index, &constants);
        assert_eq!(first, second);
        let counter = Fq::from_u128(index as u128);
        assert_eq!(first, mimc5_hash(&seed, &counter, &constants));
    }
    assert_ne!(pad(&seed, 0, &constants), pad(&seed, 1, &constants));
}

#[test]
fn masking_round_trips_for_a_fixed_seed() {
    let mut rng = StdRng::seed_from_u64(16);
    let constants = sample_elements(&mut rng, MIMC_ROUNDS);
    let seed = sample_elements(&mut rng, 1)[0];
    for index in 0..8usize {
        let label: ark_bn254::Fq = ark_bn254::Fq::from(rng.gen::<u64>());
        let masked = label + to_ark(&pad(&seed, index, &constants));
        let unmasked = masked - to_ark(&pad(&seed, index, &constants));
        assert_eq!(unmasked, label);
    }
}

#[test]
fn block_hash_is_the_hash_under_the_seeded_constants() {
    let mut rng = StdRng::seed_from_u64(BLOCK_HASH_SEED);
    let constants = sample_elements(&mut rng, MIMC_ROUNDS);
    let x: u128 = 0x0123_4567_89ab_cdef_0011_2233_4455_6677;
    let y: u128 = 0xffff_ffff_ffff_ffff_ffff_ffff_ffff_ffff;
    assert_eq!(mimc5_hash_block(x, y), mimc5_hash_block_with(x, y, &constants));
}

#[test]
fn block_hash_keeps_the_low_half_of_the_image() {
    let mut rng = StdRng::seed_from_u64(17);
    let constants = sample_elements(&mut rng, MIMC_ROUNDS);
    let x: u128 = 3;
    let y: u128 = u128::MAX;
    let image = reference_hash(
        ark_bn254::Fq::from(x),
        ark_bn254::Fq::from(y),
        &constants,
    );
    let limbs = image.into_bigint().0;
    let expected = (limbs[0] as u128) | ((limbs[1] as u128) << 64);
    assert_eq!(mimc5_hash_block_with(x, y, &constants), expected);
}

#[test]
fn equal_blocks_give_equal_hashes() {
    for (x, y) in [(0u128, 0u128), (1, 2), (u128::MAX, 7), (7, u128::MAX)] {
        assert_eq!(mimc5_hash_block(x, y), mimc5_hash_block(x, y));
    }
    assert_ne!(mimc5_hash_block(1, 2), mimc5_hash_block(2, 1));
    assert_ne!(mimc5_hash_block(1, 2), mimc5_hash_block(1, 3));
}

#[test]
fn block_hash_constants_do_not_depend_on_the_blocks() {
    let mut rng = StdRng::seed_from_u64(BLOCK_HASH_SEED);
    let constants = sample_elements(&mut rng, MIMC_ROUNDS);
    for (x, y) in [(0u128, 0u128), (5, 6), (u128::MAX, u128::MAX)] {
        let image = reference_hash(ark_bn254::Fq::from(x), ark_bn254::Fq::from(y), &constants);
        let limbs = image.into_bigint().0;
        let expected = (limbs[0] as u128) | ((limbs[1] as u128) << 64);
        assert_eq!(mimc5_hash_block(x, y), expected);
    }
}
