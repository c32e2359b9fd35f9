use temperature_converter::Scales;

#[test]
fn all_scales_in_fixed_order() {
    assert_eq!(
        Scales::ALL,
        [
            Scales::Celsius,
            Scales::Fahrenheit,
            Scales::Kelvin,
            Scales::Rankine,
            Scales::Delisle,
            Scales::Newton,
            Scales::Reaumur,
            Scales::Romer,
        ]
    );
}

#[test]
fn all_scales_are_distinct() {
    assert_eq!(Scales::ALL.len(), 8);
    for i in 0..8 {
        for j in 0..8 {
            assert_eq!(Scales::ALL[i] == Scales::ALL[j], i == j);
        }
    }
}

#[test]
fn all_scales_can_be_listed_again() {
    let first: Vec<Scales> = Scales::ALL.iter().copied().collect();
    let second: Vec<Scales> = Scales::ALL.iter().copied().collect();
    assert_eq!(first, second);
}

#[test]
fn symbols() {
    assert_eq!(Scales::Celsius.short(), "°C");
    assert_eq!(Scales::Fahrenheit.short(), "°F");
    assert_eq!(Scales::Kelvin.short(), "K");
    assert_eq!(Scales::Rankine.short(), "°R");
    assert_eq!(Scales::Delisle.short(), "°De");
    assert_eq!(Scales::Newton.short(), "°N");
    assert_eq!(Scales::Reaumur.short(), "°Ré");
    assert_eq!(Scales::Romer.short(), "°Rø");
}

#[test]
fn names() {
    assert_eq!(Scales::Celsius.name(), "Celsius");
    assert_eq!(Scales::Fahrenheit.name(), "Fahrenheit");
    assert_eq!(Scales::Kelvin.name(), "Kelvin");
    assert_eq!(Scales::Rankine.name(), "Rankine");
    assert_eq!(Scales::Delisle.name(), "Delisle");
    assert_eq!(Scales::Newton.name(), "Newton");
    assert_eq!(Scales::Reaumur.name(), "Réaumur");
    assert_eq!(Scales::Romer.name(), "Rømer");
}

#[test]
fn symbols_and_names_are_not_empty() {
    for scale in Scales::ALL {
        assert!(!scale.short().is_empty());
        assert!(!scale.name().is_empty());
    }
}

#[test]
fn labels() {
    assert_eq!(Scales::Celsius.label(), "°C (Celsius)");
    assert_eq!(Scales::Kelvin.label(), "K (Kelvin)");
    assert_eq!(Scales::Romer.label(), "°Rø (Rømer)");
    for scale in Scales::ALL {
        assert_eq!(scale.label(), format!("{} ({})", scale.short(), scale.name()));
    }
}

#[test]
fn celsius_is_the_default() {
    assert_eq!(Scales::default(), Scales::Celsius);
    let unset: Option<Scales> = None;
    assert_eq!(unset.unwrap_or_default(), Scales::Celsius);
}
