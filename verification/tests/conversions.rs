use temperature_converter::{Ratio, Scales};

fn ratio(numer: i64, denom: i64) -> Ratio {
    Ratio::new(numer, denom).unwrap()
}

#[test]
fn boiling_point_in_fahrenheit() {
    let boiling = Ratio::from_integer(100);
    let converted = Scales::Celsius.convert_to(Scales::Fahrenheit, boiling);
    assert_eq!(converted, Some(Ratio::from_integer(212)));
}

#[test]
fn known_fixed_points() {
    let zero = Ratio::from_integer(0);
    assert_eq!(Scales::Celsius.convert_to(Scales::Fahrenheit, zero), Some(ratio(32, 1)));
    assert_eq!(
        Scales::Celsius.convert_to(Scales::Fahrenheit, ratio(100, 1)),
        Some(ratio(212, 1))
    );
    assert_eq!(Scales::Celsius.convert_to(Scales::Kelvin, zero), Some(ratio(27315, 100)));
    assert_eq!(Scales::Fahrenheit.convert_to(Scales::Celsius, ratio(32, 1)), Some(zero));
    assert_eq!(Scales::Celsius.convert_to(Scales::Romer, zero), Some(ratio(15, 2)));
    assert_eq!(Scales::Romer.convert_to(Scales::Celsius, ratio(15, 2)), Some(zero));
}

#[test]
fn boiling_point_on_every_scale() {
    let boiling = Ratio::from_integer(100);
    let from = Scales::Celsius;
    assert_eq!(from.convert_to(Scales::Celsius, boiling), Some(ratio(100, 1)));
    assert_eq!(from.convert_to(Scales::Fahrenheit, boiling), Some(ratio(212, 1)));
    assert_eq!(from.convert_to(Scales::Kelvin, boiling), Some(ratio(37315, 100)));
    assert_eq!(from.convert_to(Scales::Rankine, boiling), Some(ratio(67167, 100)));
    assert_eq!(from.convert_to(Scales::Delisle, boiling), Some(ratio(0, 1)));
    assert_eq!(from.convert_to(Scales::Newton, boiling), Some(ratio(33, 1)));
    assert_eq!(from.convert_to(Scales::Reaumur, boiling), Some(ratio(80, 1)));
    assert_eq!(from.convert_to(Scales::Romer, boiling), Some(ratio(60, 1)));
}

#[test]
fn identity_returns_the_reading_itself() {
    let readings = [ratio(0, 1), ratio(-7, 3), ratio(27315, 100), ratio(i64::MAX, 1), ratio(i64::MIN, 1), ratio(1, i64::MAX)];
    for scale in Scales::ALL {
        for reading in readings {
            assert_eq!(scale.convert_to(scale, reading), Some(reading));
        }
    }
}

#[test]
fn round_trip_is_exact() {
    let readings = [ratio(0, 1), ratio(-40, 1), ratio(1, 3), ratio(366, 10), ratio(-27315, 100), ratio(1_000_000, 7)];
    for a in Scales::ALL {
        for b in Scales::ALL {
            for reading in readings {
                let there = a.convert_to(b, reading).unwrap();
                assert_eq!(b.convert_to(a, there), Some(reading));
            }
        }
    }
}

#[test]
fn conversion_by_way_of_a_third_scale() {
    let readings = [ratio(0, 1), ratio(100, 1), ratio(-5, 9), ratio(22, 7)];
    for a in Scales::ALL {
        for b in Scales::ALL {
            for c in Scales::ALL {
                for reading in readings {
                    let direct = a.convert_to(c, reading).unwrap();
                    let by_way = b.convert_to(c, a.convert_to(b, reading).unwrap()).unwrap();
                    assert_eq!(by_way, direct);
                }
            }
        }
    }
}

#[test]
fn readings_below_absolute_zero_are_converted() {
    assert_eq!(
        Scales::Kelvin.convert_to(Scales::Celsius, ratio(-10, 1)),
        Some(ratio(-28315, 100))
    );
    assert_eq!(
        Scales::Celsius.convert_to(Scales::Kelvin, ratio(-1000, 1)),
        Some(ratio(-72685, 100))
    );
}

#[test]
fn result_out_of_range_is_none() {
    // 9/5 of the largest whole number is beyond 64 bits.
    assert_eq!(Scales::Celsius.convert_to(Scales::Fahrenheit, ratio(i64::MAX, 1)), None);
    assert_eq!(Scales::Celsius.convert_to(Scales::Fahrenheit, ratio(i64::MIN, 1)), None);
    // The denominator 3 * (2^63 - 1) is beyond 64 bits.
    assert_eq!(Scales::Delisle.convert_to(Scales::Celsius, ratio(1, i64::MAX)), None);
}

#[test]
fn result_at_the_edge_of_the_range_is_kept() {
    // i64::MAX = 7 * 1317624576693539401, so 4/5 of 5 * 1317624576693539401 fits.
    let reading = ratio(5 * 1317624576693539401, 1);
    assert_eq!(
        Scales::Celsius.convert_to(Scales::Reaumur, reading),
        Some(ratio(4 * 1317624576693539401, 1))
    );
    // 33 * i64::MAX is beyond 64 bits, the fraction in lowest terms is not.
    let small = Scales::Newton.convert_to(Scales::Celsius, ratio(33, i64::MAX));
    assert_eq!(small, Some(ratio(100, i64::MAX)));
    // Twenty times the reading is beyond 64 bits, and nothing cancels.
    let kelvin = Scales::Celsius.convert_to(Scales::Kelvin, ratio(i64::MAX - 300, 1));
    assert_eq!(kelvin, None);
}
