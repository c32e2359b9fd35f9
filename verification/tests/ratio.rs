use temperature_converter::Ratio;

#[test]
fn zero_denominator_is_refused() {
    assert_eq!(Ratio::new(1, 0), None);
    assert_eq!(Ratio::new(0, 0), None);
    assert_eq!(Ratio::new(i64::MIN, 0), None);
}

#[test]
fn fractions_are_kept_in_lowest_terms() {
    let r = Ratio::new(27315, 100).unwrap();
    assert_eq!(r.numer(), 5463);
    assert_eq!(r.denom(), 20);
    let r = Ratio::new(-6, 4).unwrap();
    assert_eq!(r.numer(), -3);
    assert_eq!(r.denom(), 2);
    let r = Ratio::new(0, 17).unwrap();
    assert_eq!(r.numer(), 0);
    assert_eq!(r.denom(), 1);
}

#[test]
fn negative_denominator_moves_the_sign() {
    let r = Ratio::new(3, -6).unwrap();
    assert_eq!(r.numer(), -1);
    assert_eq!(r.denom(), 2);
    let r = Ratio::new(-3, -6).unwrap();
    assert_eq!(r.numer(), 1);
    assert_eq!(r.denom(), 2);
    assert_eq!(Ratio::new(5, -1), Ratio::new(-5, 1));
}

#[test]
fn equal_numbers_are_equal_values() {
    assert_eq!(Ratio::new(1, 2), Ratio::new(2, 4));
    assert_eq!(Ratio::new(212, 1), Some(Ratio::from_integer(212)));
    assert_ne!(Ratio::new(1, 2), Ratio::new(1, 3));
}

#[test]
fn extreme_parts() {
    let r = Ratio::new(i64::MIN, 1).unwrap();
    assert_eq!(r.numer(), i64::MIN);
    assert_eq!(r.denom(), 1);
    let r = Ratio::new(i64::MIN, i64::MAX).unwrap();
    assert_eq!(r.numer(), i64::MIN);
    assert_eq!(r.denom(), i64::MAX);
    let r = Ratio::new(i64::MIN, i64::MIN).unwrap();
    assert_eq!(r, Ratio::from_integer(1));
    let r = Ratio::new(i64::MIN, -2).unwrap();
    assert_eq!(r.numer(), 1 << 62);
    assert_eq!(r.denom(), 1);
    let r = Ratio::new(-i64::MAX, -i64::MAX).unwrap();
    assert_eq!(r, Ratio::from_integer(1));
}

#[test]
fn parts_beyond_64_bits_are_refused() {
    // 2^63 as a numerator, or as a denominator, is out of range
    assert_eq!(Ratio::new(i64::MIN, -1), None);
    assert_eq!(Ratio::new(1, i64::MIN), None);
    assert_eq!(Ratio::new(-1, i64::MIN), None);
    assert_eq!(Ratio::new(3, i64::MIN), None);
    assert_eq!(Ratio::new(i64::MAX, i64::MIN), None);
    // an even numerator halves the denominator
    assert_eq!(Ratio::new(2, i64::MIN), Ratio::new(-1, 1 << 62));
}

#[test]
fn whole_numbers() {
    let r = Ratio::from_integer(-40);
    assert_eq!(r.numer(), -40);
    assert_eq!(r.denom(), 1);
    assert_eq!(Ratio::from_integer(i64::MIN).numer(), i64::MIN);
    assert_eq!(Ratio::from_integer(0), Ratio::new(0, 5).unwrap());
}
