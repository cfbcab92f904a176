use ark_ff::{BigInt, BigInteger, PrimeField};
use pvw_cot::curve::Point;
use pvw_cot::encoding::{
    ciphertext_from_bytes, ciphertext_to_bytes, decode_ciphertexts, decode_elements,
    decode_points, element_from_bytes, element_to_bytes, encode_ciphertexts, encode_elements,
    encode_points, point_from_bytes, point_to_bytes, CIPHERTEXT_BYTES, FIELD_BYTES, POINT_BYTES,
};
use pvw_cot::field::{sample_elements, Fq};
use pvw_cot::pvw::{Ciphertext, SetupMessy};
use rand::rngs::StdRng;
use rand::SeedableRng;

fn generator() -> Point {
    Point::from_coords(Fq::from_u128(1), Fq::from_u128(2)).unwrap()
}

fn modulus_bytes() -> Vec<u8> {
    ark_bn254::Fq::MODULUS.to_bytes_le()
}

#[test]
fn widths() {
    assert_eq!(FIELD_BYTES, 32);
    assert_eq!(POINT_BYTES, 65);
    assert_eq!(CIPHERTEXT_BYTES, 97);
}

#[test]
fn element_bytes_are_little_endian() {
    let x = Fq::from_limbs(0x0807_0605_0403_0201, 0x100f_0e0d_0c0b_0a09, 0x11, 0x2000_0000_0000_0000)
        .unwrap();
    let mut expected = vec![0u8; 32];
    for i in 0..17 {
        expected[i] = (i + 1) as u8;
    }
    expected[31] = 0x20;
    assert_eq!(element_to_bytes(&x), expected);
    assert_eq!(element_from_bytes(&expected), Some(x));
}

#[test]
fn element_bytes_agree_with_the_field_library() {
    let mut rng = StdRng::seed_from_u64(81);
    for x in sample_elements(&mut rng, 8) {
        let (l0, l1, l2, l3) = x.limbs();
        let reference = ark_bn254::Fq::from_bigint(BigInt([l0, l1, l2, l3])).unwrap();
        assert_eq!(element_to_bytes(&x), reference.into_bigint().to_bytes_le());
        assert_eq!(element_from_bytes(&element_to_bytes(&x)), Some(x));
    }
}

#[test]
fn element_decoding_refuses_the_modulus_and_above() {
    let q = modulus_bytes();
    assert_eq!(element_from_bytes(&q), None);
    let mut below = q.clone();
    below[0] -= 1;
    assert!(element_from_bytes(&below).is_some());
    assert_eq!(element_from_bytes(&[0xff; 32]), None);
}

#[test]
fn element_decoding_refuses_other_lengths() {
    assert_eq!(element_from_bytes(&[]), None);
    assert_eq!(element_from_bytes(&[0; 31]), None);
    assert_eq!(element_from_bytes(&[0; 33]), None);
    assert_eq!(element_from_bytes(&[0; 32]), Some(Fq::zero()));
}

#[test]
fn point_round_trip() {
    let mut rng = StdRng::seed_from_u64(82);
    let crs = SetupMessy(&mut rng).unwrap();
    for p in [crs.g0(), crs.h0(), crs.g1(), crs.h1(), generator(), Point::identity()] {
        let bytes = point_to_bytes(&p);
        assert_eq!(bytes.len(), 65);
        assert_eq!(point_from_bytes(&bytes), Some(p));
    }
}

#[test]
fn point_bytes_are_both_coordinates_and_a_flag() {
    let bytes = point_to_bytes(&generator());
    let mut expected = vec![0u8; 65];
    expected[0] = 1;
    expected[32] = 2;
    assert_eq!(bytes, expected);
    let mut identity = vec![0u8; 65];
    identity[64] = 1;
    assert_eq!(point_to_bytes(&Point::identity()), identity);
}

#[test]
fn point_decoding_refuses_what_is_no_point() {
    let good = point_to_bytes(&generator());
    let mut off_curve = good.clone();
    off_curve[32] = 3;
    assert_eq!(point_from_bytes(&off_curve), None);
    let mut bad_flag = good.clone();
    bad_flag[64] = 2;
    assert_eq!(point_from_bytes(&bad_flag), None);
    // The flag of the identity over coordinates that are not zero.
    let mut flagged = good.clone();
    flagged[64] = 1;
    assert_eq!(point_from_bytes(&flagged), None);
    // Zero coordinates without the flag: not on the curve.
    assert_eq!(point_from_bytes(&[0; 65]), None);
    assert_eq!(point_from_bytes(&good[..64]), None);
    let mut long = good.clone();
    long.push(0);
    assert_eq!(point_from_bytes(&long), None);
    let mut big = good.clone();
    big[..32].copy_from_slice(&modulus_bytes());
    assert_eq!(point_from_bytes(&big), None);
}

#[test]
fn ciphertext_round_trip() {
    let ct = Ciphertext::new(generator(), Fq::from_u128(77));
    let bytes = ciphertext_to_bytes(&ct);
    assert_eq!(bytes.len(), 97);
    assert_eq!(&bytes[..65], &point_to_bytes(&generator())[..]);
    assert_eq!(&bytes[65..], &element_to_bytes(&Fq::from_u128(77))[..]);
    assert_eq!(ciphertext_from_bytes(&bytes), Some(ct));
    assert_eq!(ciphertext_from_bytes(&bytes[..96]), None);
    let mut bad = bytes.clone();
    bad[32] = 3;
    assert_eq!(ciphertext_from_bytes(&bad), None);
    let mut big = bytes.clone();
    big[65..].copy_from_slice(&modulus_bytes());
    assert_eq!(ciphertext_from_bytes(&big), None);
}

#[test]
fn element_messages_round_trip() {
    let mut rng = StdRng::seed_from_u64(83);
    let xs = sample_elements(&mut rng, 5);
    let bytes = encode_elements(&xs);
    assert_eq!(bytes.len(), 5 * 32);
    for i in 0..5 {
        assert_eq!(&bytes[32 * i..32 * i + 32], &element_to_bytes(&xs[i])[..]);
    }
    assert_eq!(decode_elements(&bytes), Some(xs));
    assert_eq!(encode_elements(&vec![]), Vec::<u8>::new());
    assert_eq!(decode_elements(&[]), Some(vec![]));
}

#[test]
fn element_messages_of_a_wrong_shape_are_refused() {
    let mut rng = StdRng::seed_from_u64(84);
    let xs = sample_elements(&mut rng, 3);
    let bytes = encode_elements(&xs);
    assert_eq!(decode_elements(&bytes[..95]), None);
    assert_eq!(decode_elements(&bytes[..1]), None);
    let mut bad = bytes.clone();
    bad[32..64].copy_from_slice(&modulus_bytes());
    assert_eq!(decode_elements(&bad), None);
    assert_eq!(decode_elements(&bytes[..64]), Some(xs[..2].to_vec()));
}

#[test]
fn point_messages_round_trip() {
    let mut rng = StdRng::seed_from_u64(85);
    let crs = SetupMessy(&mut rng).unwrap();
    let ps = vec![crs.g0(), Point::identity(), crs.h1()];
    let bytes = encode_points(&ps);
    assert_eq!(bytes.len(), 3 * 65);
    assert_eq!(decode_points(&bytes), Some(ps));
    assert_eq!(decode_points(&bytes[..64]), None);
    let mut bad = bytes.clone();
    bad[65 + 64] = 0;
    assert_eq!(decode_points(&bad), None);
    assert_eq!(decode_points(&[]), Some(vec![]));
}

#[test]
fn ciphertext_messages_round_trip() {
    let mut rng = StdRng::seed_from_u64(86);
    let crs = SetupMessy(&mut rng).unwrap();
    let vs = sample_elements(&mut rng, 2);
    let cts = vec![Ciphertext::new(crs.g0(), vs[0]), Ciphertext::new(crs.h0(), vs[1])];
    let bytes = encode_ciphertexts(&cts);
    assert_eq!(bytes.len(), 2 * 97);
    assert_eq!(decode_ciphertexts(&bytes), Some(cts));
    assert_eq!(decode_ciphertexts(&bytes[..100]), None);
    let mut bad = bytes.clone();
    bad[97 + 64] = 7;
    assert_eq!(decode_ciphertexts(&bad), None);
}
