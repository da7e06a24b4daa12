use plonk_composer::Scalar;

#[test]
fn add_small_values() {
    assert_eq!(Scalar::from_u64(2).add(Scalar::from_u64(3)), Scalar::from_u64(5));
}

#[test]
fn sub_small_values() {
    assert_eq!(Scalar::from_u64(7).sub(Scalar::from_u64(5)), Scalar::from_u64(2));
}

#[test]
fn mul_small_values() {
    assert_eq!(Scalar::from_u64(2).mul(Scalar::from_u64(3)), Scalar::from_u64(6));
}

#[test]
fn neg_cancels() {
    let twenty = Scalar::from_u64(20);
    assert_eq!(twenty.neg().add(twenty), Scalar::zero());
    assert_ne!(twenty.neg(), twenty);
}

#[test]
fn invert_zero_is_none() {
    assert_eq!(Scalar::zero().invert(), None);
}

#[test]
fn invert_times_self_is_one() {
    let six = Scalar::from_u64(6);
    let inv = six.invert().unwrap();
    assert_eq!(inv.mul(six), Scalar::one());
    assert_ne!(inv, six);
}

#[test]
fn pow2_small_exponent() {
    assert_eq!(Scalar::pow2_mod(5), Scalar::from_u64(32));
    assert_eq!(Scalar::pow2_mod(0), Scalar::one());
}

#[test]
fn bits_of_five() {
    let bits = Scalar::from_u64(5).bits();
    assert_eq!(bits.len(), 256);
    assert_eq!(&bits[0..4], &[1, 0, 1, 0]);
    assert!(bits[4..].iter().all(|&b| b == 0));
}

#[test]
fn bitwise_and_xor() {
    let six = Scalar::from_u64(6);
    let three = Scalar::from_u64(3);
    assert_eq!(six.and(three), Scalar::from_u64(2));
    assert_eq!(six.xor(three), Scalar::from_u64(5));
}
