use pvw_cot::curve::Point;
use pvw_cot::field::Fq;

#[test]
fn the_generator_lies_on_the_curve() {
    let g = Point::from_coords(Fq::from_u128(1), Fq::from_u128(2)).unwrap();
    assert_eq!(g.x(), Fq::from_u128(1));
    assert_eq!(g.y(), Fq::from_u128(2));
    assert!(!g.is_identity());
}

#[test]
fn the_negated_generator_lies_on_the_curve() {
    // The second coordinate is q - 2.
    let minus_two = Fq::from_limbs(
        0x3c208c16d87cfd45,
        0x97816a916871ca8d,
        0xb85045b68181585d,
        0x30644e72e131a029,
    )
    .unwrap();
    assert!(Point::from_coords(Fq::from_u128(1), minus_two).is_some());
}

#[test]
fn points_off_the_curve_are_refused() {
    assert!(Point::from_coords(Fq::from_u128(1), Fq::from_u128(3)).is_none());
    assert!(Point::from_coords(Fq::from_u128(0), Fq::from_u128(0)).is_none());
    assert!(Point::from_coords(Fq::from_u128(2), Fq::from_u128(2)).is_none());
}

#[test]
fn the_identity_has_zero_coordinates() {
    let o = Point::identity();
    assert!(o.is_identity());
    assert_eq!(o.x(), Fq::zero());
    assert_eq!(o.y(), Fq::zero());
}

#[test]
fn point_equality() {
    let g = Point::from_coords(Fq::from_u128(1), Fq::from_u128(2)).unwrap();
    let h = Point::from_coords(Fq::from_u128(1), Fq::from_u128(2)).unwrap();
    assert!(g.equals(&h));
    assert!(!g.equals(&Point::identity()));
    assert!(Point::identity().equals(&Point::identity()));
}
