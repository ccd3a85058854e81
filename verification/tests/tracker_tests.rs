use trailing_stop::level::Level;
use trailing_stop::tracker::TrailingStopTracker;

#[test]
fn a_tracker_starts_at_zero() {
    assert_eq!(TrailingStopTracker::new().load(), Level::zero());
}

#[test]
fn a_higher_candidate_lifts_the_watermark() {
    let mut tracker = TrailingStopTracker::new();
    assert_eq!(tracker.raise(Level::from_atoms(5)), Level::from_atoms(5));
    assert_eq!(tracker.load(), Level::from_atoms(5));
    assert_eq!(tracker.raise(Level::from_atoms(9)), Level::from_atoms(9));
    assert_eq!(tracker.load(), Level::from_atoms(9));
}

#[test]
fn a_lower_candidate_leaves_the_watermark() {
    let mut tracker = TrailingStopTracker::new();
    tracker.raise(Level::from_atoms(9));
    assert_eq!(tracker.raise(Level::from_atoms(4)), Level::from_atoms(9));
    assert_eq!(tracker.raise(Level::from_atoms(-4)), Level::from_atoms(9));
    assert_eq!(tracker.raise(Level::from_atoms(9)), Level::from_atoms(9));
    assert_eq!(tracker.raise(Level::from_atoms(i128::MIN)), Level::from_atoms(9));
    assert_eq!(tracker.load(), Level::from_atoms(9));
}

#[test]
fn the_watermark_is_the_highest_candidate_seen() {
    let mut tracker = TrailingStopTracker::new();
    let candidates: [i128; 7] = [3, 1, 4, 1, 5, 9, 2];
    let mut highest: i128 = 0;
    for candidate in candidates {
        highest = highest.max(candidate);
        assert_eq!(tracker.raise(Level::from_atoms(candidate)).atoms(), highest);
    }
    assert_eq!(tracker.raise(Level::from_atoms(i128::MAX)).atoms(), i128::MAX);
}
