use ark_ff::{BigInt, PrimeField};
use pvw_cot::field::{sample_elements, Fq, Fr};
use rand::rngs::StdRng;
use rand::SeedableRng;

const Q_LIMBS: [u64; 4] = [
    0x3c208c16d87cfd47,
    0x97816a916871ca8d,
    0xb85045b68181585d,
    0x30644e72e131a029,
];

const R_LIMBS: [u64; 4] = [
    0x43e1f593f0000001,
    0x2833e84879b97091,
    0xb85045b68181585d,
    0x30644e72e131a029,
];

#[test]
fn from_limbs_rejects_the_modulus() {
    assert!(Fq::from_limbs(Q_LIMBS[0], Q_LIMBS[1], Q_LIMBS[2], Q_LIMBS[3]).is_none());
    assert!(Fq::from_limbs(Q_LIMBS[0] - 1, Q_LIMBS[1], Q_LIMBS[2], Q_LIMBS[3]).is_some());
}

#[test]
fn from_limbs_compares_from_the_top_limb() {
    // A larger low limb does not matter when a higher limb is smaller.
    assert!(Fq::from_limbs(u64::MAX, u64::MAX, u64::MAX, Q_LIMBS[3] - 1).is_some());
    assert!(Fq::from_limbs(0, 0, 0, Q_LIMBS[3] + 1).is_none());
    assert!(Fq::from_limbs(0, 0, Q_LIMBS[2] + 1, Q_LIMBS[3]).is_none());
    assert!(Fq::from_limbs(u64::MAX, Q_LIMBS[1] - 1, Q_LIMBS[2], Q_LIMBS[3]).is_some());
    assert!(Fq::from_limbs(u64::MAX, u64::MAX, u64::MAX, u64::MAX).is_none());
}

#[test]
fn the_moduli_are_those_of_the_curve() {
    assert_eq!(ark_bn254::Fq::MODULUS, BigInt(Q_LIMBS));
    assert_eq!(ark_bn254::Fr::MODULUS, BigInt(R_LIMBS));
}

#[test]
fn scalar_from_limbs_rejects_its_modulus() {
    assert!(Fr::from_limbs(R_LIMBS[0], R_LIMBS[1], R_LIMBS[2], R_LIMBS[3]).is_none());
    assert!(Fr::from_limbs(R_LIMBS[0] - 1, R_LIMBS[1], R_LIMBS[2], R_LIMBS[3]).is_some());
    // Between the two moduli: a base-field element, but no scalar.
    assert!(Fr::from_limbs(R_LIMBS[0], R_LIMBS[1] + 1, R_LIMBS[2], R_LIMBS[3]).is_none());
    assert!(Fq::from_limbs(R_LIMBS[0], R_LIMBS[1] + 1, R_LIMBS[2], R_LIMBS[3]).is_some());
}

#[test]
fn limbs_round_trip() {
    let x = Fq::from_limbs(1, 2, 3, 4).unwrap();
    assert_eq!(x.limbs(), (1, 2, 3, 4));
    let s = Fr::from_limbs(5, 6, 7, 8).unwrap();
    assert_eq!(s.limbs(), (5, 6, 7, 8));
}

#[test]
fn zero_and_one() {
    assert_eq!(Fq::zero().limbs(), (0, 0, 0, 0));
    assert_eq!(Fq::one().limbs(), (1, 0, 0, 0));
    assert!(Fq::zero().equals(&Fq::from_u128(0)));
    assert!(Fq::one().equals(&Fq::from_u128(1)));
    assert!(!Fq::one().equals(&Fq::zero()));
}

#[test]
fn from_u128_splits_into_two_limbs() {
    let x = Fq::from_u128(0x0123_4567_89ab_cdef_fedc_ba98_7654_3210);
    assert_eq!(x.limbs(), (0xfedc_ba98_7654_3210, 0x0123_4567_89ab_cdef, 0, 0));
    assert_eq!(Fq::from_u128(u128::MAX).limbs(), (u64::MAX, u64::MAX, 0, 0));
}

#[test]
fn low_u128_keeps_the_two_low_limbs() {
    let x = Fq::from_limbs(7, 9, 11, 13).unwrap();
    assert_eq!(x.low_u128(), 7u128 + (9u128 << 64));
    assert_eq!(Fq::from_u128(u128::MAX).low_u128(), u128::MAX);
    assert_eq!(Fq::zero().low_u128(), 0);
}

#[test]
fn scalar_zero_test() {
    assert!(Fr::from_limbs(0, 0, 0, 0).unwrap().is_zero());
    assert!(!Fr::from_limbs(0, 0, 0, 1).unwrap().is_zero());
    assert!(!Fr::from_limbs(1, 0, 0, 0).unwrap().is_zero());
}

#[test]
fn scalar_equality() {
    let a = Fr::from_limbs(1, 2, 3, 4).unwrap();
    let b = Fr::from_limbs(1, 2, 3, 4).unwrap();
    let c = Fr::from_limbs(1, 2, 3, 5).unwrap();
    assert!(a.equals(&b));
    assert!(!a.equals(&c));
}

#[test]
fn sample_elements_gives_the_length_asked_for() {
    let mut rng = StdRng::seed_from_u64(1);
    assert_eq!(sample_elements(&mut rng, 0).len(), 0);
    let xs = sample_elements(&mut rng, 5);
    assert_eq!(xs.len(), 5);
    for x in xs.iter() {
        let (l0, l1, l2, l3) = x.limbs();
        assert!(ark_bn254::Fq::from_bigint(BigInt([l0, l1, l2, l3])).is_some());
    }
    // Five draws that all coincide would mean that nothing was drawn.
    assert!(xs.iter().any(|x| !x.equals(&xs[0])));
}
