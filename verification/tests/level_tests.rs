use trailing_stop::decimal::Decimal;
use trailing_stop::level::{Level, LEVEL_PER_ATOM, LEVEL_PLACES, QUOTE_PLACES};

#[test]
fn truncate_cuts_to_seven_places() {
    // 1.23456789123 cut to seven places is 1.2345678
    let level = Level::from_atoms(1_234_567_891_230_000_000);
    assert_eq!(level.truncate(7), Level::from_atoms(1_234_567_800_000_000_000));
    assert_eq!(level.truncate(QUOTE_PLACES).atoms(), 1_234_567_800_000_000_000);
}

#[test]
fn truncate_does_not_round_up() {
    // 1.99999999 cut to seven places is 1.9999999, not 2
    let level = Level::from_atoms(1_999_999_990_000_000_000);
    assert_eq!(level.truncate(7).atoms(), 1_999_999_900_000_000_000);
    // 0.00000009 cut to seven places is 0
    assert_eq!(Level::from_atoms(90_000_000_000).truncate(7).atoms(), 0);
}

#[test]
fn truncate_cuts_negative_levels_towards_zero() {
    let level = Level::from_atoms(-1_234_567_891_230_000_000);
    assert_eq!(level.truncate(7).atoms(), -1_234_567_800_000_000_000);
    assert_eq!(Level::from_atoms(-1).truncate(7).atoms(), 0);
}

#[test]
fn truncate_never_increases_the_magnitude() {
    let samples: [i128; 9] = [
        0,
        1,
        -1,
        99_999_999_999,
        100_000_000_000,
        -100_000_000_001,
        101_970_000_005_000_000_000,
        i128::MAX,
        i128::MIN,
    ];
    for atoms in samples {
        for places in [0u32, 1, 7, 8, 17, 18, 19, u32::MAX] {
            let cut = Level::from_atoms(atoms).truncate(places).atoms();
            assert!(cut.unsigned_abs() <= atoms.unsigned_abs());
            assert!(atoms == 0 || cut == 0 || (cut > 0) == (atoms > 0));
            assert_eq!(Level::from_atoms(cut).truncate(places).atoms(), cut);
        }
    }
}

#[test]
fn truncate_keeps_levels_on_the_grid() {
    let level = Level::from_atoms(101_970_000_000_000_000_000);
    assert_eq!(level.truncate(7), level);
    assert_eq!(level.truncate(2), level);
    assert_eq!(level.truncate(1).atoms(), 101_900_000_000_000_000_000);
    assert_eq!(level.truncate(0).atoms(), 101_000_000_000_000_000_000);
}

#[test]
fn truncate_to_every_held_digit_changes_nothing() {
    let level = Level::from_atoms(1_234_567_891_234_567_891);
    assert_eq!(level.truncate(LEVEL_PLACES), level);
    assert_eq!(level.truncate(40), level);
    assert_eq!(level.truncate(17).atoms(), 1_234_567_891_234_567_890);
}

#[test]
fn truncate_at_the_ends_of_the_range() {
    assert_eq!(
        Level::from_atoms(i128::MAX).truncate(0).atoms(),
        170_141_183_460_469_231_731_000_000_000_000_000_000
    );
    assert_eq!(
        Level::from_atoms(i128::MIN).truncate(0).atoms(),
        -170_141_183_460_469_231_731_000_000_000_000_000_000
    );
}

#[test]
fn a_decimal_becomes_a_level_of_the_same_number() {
    assert_eq!(LEVEL_PER_ATOM, 10_000_000_000);
    let price = Decimal::parse("101.97").unwrap();
    assert_eq!(Level::from_decimal(price).atoms(), 101_970_000_000_000_000_000);
    assert_eq!(Level::from_decimal(Decimal::from_atoms(-1)).atoms(), -10_000_000_000);
    assert_eq!(
        Level::from_decimal(Decimal::from_atoms(i64::MIN)).atoms(),
        -92_233_720_368_547_758_080_000_000_000
    );
    assert_eq!(Level::zero().atoms(), 0);
}
