use keyword_sentiment::tick::TickTracker;

#[test]
fn new_tracker_has_recorded_nothing() {
    let tracker = TickTracker::new();
    assert_eq!(tracker.seconds_count(), 0);
}

#[test]
fn runtime_of_new_tracker_is_small() {
    let tracker = TickTracker::new();
    assert!(tracker.runtime() < 5);
}

#[test]
fn advance_wins_on_a_later_second_only() {
    let mut tracker = TickTracker::new();
    assert_eq!(tracker.advance(0), None);
    assert_eq!(tracker.seconds_count(), 0);
    assert_eq!(tracker.advance(1), Some(1));
    assert_eq!(tracker.seconds_count(), 1);
    assert_eq!(tracker.advance(1), None);
    assert_eq!(tracker.advance(0), None);
    assert_eq!(tracker.seconds_count(), 1);
    assert_eq!(tracker.advance(7), Some(7));
    assert_eq!(tracker.seconds_count(), 7);
    assert_eq!(tracker.advance(3), None);
    assert_eq!(tracker.seconds_count(), 7);
}

#[test]
fn at_most_one_winner_per_second() {
    let mut tracker = TickTracker::new();
    let readings: [u64; 12] = [0, 1, 1, 1, 2, 2, 1, 3, 3, 3, 2, 3];
    let mut winners: Vec<u64> = Vec::new();
    for reading in readings {
        if let Some(second) = tracker.advance(reading) {
            winners.push(second);
        }
    }
    assert_eq!(winners, vec![1, 2, 3]);
    for second in 0..5u64 {
        assert!(winners.iter().filter(|w| **w == second).count() <= 1);
    }
}

#[test]
fn check_and_advance_right_after_start_records_nothing() {
    let mut tracker = TickTracker::new();
    let won = tracker.check_and_advance();
    match won {
        Some(second) => {
            assert!(second > 0);
            assert_eq!(tracker.seconds_count(), second);
        }
        None => assert_eq!(tracker.seconds_count(), 0),
    }
}
