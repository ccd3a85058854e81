use trailing_stop::decimal::Decimal;
use trailing_stop::margin::Margin;

fn decimal(text: &str) -> Decimal {
    Decimal::parse(text).unwrap()
}

#[test]
fn a_margin_lies_strictly_between_zero_and_one() {
    assert!(Margin::from_fraction(decimal("0")).is_none());
    assert!(Margin::from_fraction(decimal("1")).is_none());
    assert!(Margin::from_fraction(decimal("-0.01")).is_none());
    assert!(Margin::from_fraction(decimal("1.5")).is_none());
    assert!(Margin::from_fraction(decimal("0.00000001")).is_some());
    assert!(Margin::from_fraction(decimal("0.99999999")).is_some());
    assert!(Margin::from_fraction(Decimal::from_atoms(i64::MAX)).is_none());
    assert!(Margin::from_fraction(Decimal::from_atoms(i64::MIN)).is_none());
}

#[test]
fn a_percentage_lies_strictly_between_zero_and_a_hundred() {
    assert!(Margin::from_percent(decimal("0")).is_none());
    assert!(Margin::from_percent(decimal("100")).is_none());
    assert!(Margin::from_percent(decimal("-1")).is_none());
    assert!(Margin::from_percent(decimal("0.00000001")).is_some());
    assert!(Margin::from_percent(decimal("99.99999999")).is_some());
}

#[test]
fn a_fraction_is_a_hundredth_of_its_percentage() {
    let by_fraction = Margin::from_fraction(decimal("0.01")).unwrap();
    let by_percent = Margin::from_percent(decimal("1")).unwrap();
    assert_eq!(by_fraction, by_percent);
    assert_eq!(by_fraction.percent(), decimal("1"));
    assert_eq!(Margin::from_fraction(decimal("0.005")).unwrap().percent(), decimal("0.5"));
    assert_eq!(Margin::from_percent(decimal("2.5")).unwrap().percent().atoms(), 250_000_000);
}
