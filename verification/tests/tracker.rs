use turn_pipeline::tracker::{TurnStatus, TurnTracker};

#[test]
fn new_tracker_holds_nothing() {
    let tracker = TurnTracker::new(5_000);
    assert_eq!(tracker.retention(), 5_000);
    assert!(!tracker.is_tracked(0));
    assert!(!tracker.is_tracked(42));
    assert_eq!(tracker.status(42), None);
}

#[test]
fn mark_in_flight_makes_a_fingerprint_known() {
    let mut tracker = TurnTracker::new(5_000);
    tracker.mark_in_flight(7);
    assert!(tracker.is_tracked(7));
    assert_eq!(tracker.status(7), Some(TurnStatus::InFlight));
    assert!(!tracker.is_tracked(8));
}

#[test]
fn mark_completed_records_the_time() {
    let mut tracker = TurnTracker::new(5_000);
    tracker.mark_in_flight(7);
    tracker.mark_completed(7, 1_234);
    assert!(tracker.is_tracked(7));
    assert_eq!(tracker.status(7), Some(TurnStatus::Completed { at: 1_234 }));
}

#[test]
fn mark_completed_needs_no_earlier_mark() {
    let mut tracker = TurnTracker::new(5_000);
    tracker.mark_completed(9, 10);
    assert_eq!(tracker.status(9), Some(TurnStatus::Completed { at: 10 }));
    tracker.mark_completed(9, 20);
    assert_eq!(tracker.status(9), Some(TurnStatus::Completed { at: 20 }));
}

#[test]
fn mark_in_flight_overwrites_a_completed_entry() {
    let mut tracker = TurnTracker::new(5_000);
    tracker.mark_completed(9, 10);
    tracker.mark_in_flight(9);
    assert_eq!(tracker.status(9), Some(TurnStatus::InFlight));
}

#[test]
fn claim_succeeds_once() {
    let mut tracker = TurnTracker::new(5_000);
    assert!(tracker.claim(3));
    assert_eq!(tracker.status(3), Some(TurnStatus::InFlight));
    assert!(!tracker.claim(3));
    assert_eq!(tracker.status(3), Some(TurnStatus::InFlight));
    assert!(tracker.claim(4));
}

#[test]
fn claim_fails_on_a_completed_entry_and_keeps_it() {
    let mut tracker = TurnTracker::new(5_000);
    tracker.mark_completed(3, 100);
    assert!(!tracker.claim(3));
    assert_eq!(tracker.status(3), Some(TurnStatus::Completed { at: 100 }));
}

#[test]
fn cleanup_removes_what_is_older_than_the_window() {
    let mut tracker = TurnTracker::new(2_000);
    tracker.mark_completed(1, 1_000);
    tracker.cleanup(3_001);
    assert!(!tracker.is_tracked(1));
}

#[test]
fn cleanup_keeps_an_entry_of_exactly_the_window() {
    let mut tracker = TurnTracker::new(2_000);
    tracker.mark_completed(1, 1_000);
    tracker.cleanup(3_000);
    assert_eq!(tracker.status(1), Some(TurnStatus::Completed { at: 1_000 }));
}

#[test]
fn cleanup_keeps_a_younger_entry() {
    let mut tracker = TurnTracker::new(2_000);
    tracker.mark_completed(1, 1_000);
    tracker.cleanup(1_500);
    assert_eq!(tracker.status(1), Some(TurnStatus::Completed { at: 1_000 }));
}

#[test]
fn cleanup_keeps_an_entry_completed_after_the_clock_reading() {
    let mut tracker = TurnTracker::new(0);
    tracker.mark_completed(1, 1_000);
    tracker.cleanup(10);
    assert_eq!(tracker.status(1), Some(TurnStatus::Completed { at: 1_000 }));
}

#[test]
fn cleanup_with_an_empty_window_removes_any_older_entry() {
    let mut tracker = TurnTracker::new(0);
    tracker.mark_completed(1, 1_000);
    tracker.cleanup(1_000);
    assert!(tracker.is_tracked(1));
    tracker.cleanup(1_001);
    assert!(!tracker.is_tracked(1));
}

#[test]
fn cleanup_never_removes_an_entry_in_flight() {
    let mut tracker = TurnTracker::new(2_000);
    tracker.mark_in_flight(5);
    tracker.cleanup(u64::MAX);
    assert_eq!(tracker.status(5), Some(TurnStatus::InFlight));
}

#[test]
fn cleanup_sorts_a_mixed_store() {
    let mut tracker = TurnTracker::new(100);
    tracker.mark_in_flight(1);
    tracker.mark_completed(2, 0);
    tracker.mark_completed(3, 950);
    tracker.mark_completed(4, 899);
    tracker.mark_completed(5, 900);
    tracker.mark_in_flight(6);
    tracker.cleanup(1_000);
    assert_eq!(tracker.status(1), Some(TurnStatus::InFlight));
    assert_eq!(tracker.status(2), None);
    assert_eq!(tracker.status(3), Some(TurnStatus::Completed { at: 950 }));
    assert_eq!(tracker.status(4), None);
    assert_eq!(tracker.status(5), Some(TurnStatus::Completed { at: 900 }));
    assert_eq!(tracker.status(6), Some(TurnStatus::InFlight));
}

#[test]
fn cleanup_handles_the_largest_times() {
    let mut tracker = TurnTracker::new(u64::MAX);
    tracker.mark_completed(1, 0);
    tracker.cleanup(u64::MAX);
    assert!(tracker.is_tracked(1));
    let mut strict = TurnTracker::new(u64::MAX - 1);
    strict.mark_completed(1, 0);
    strict.cleanup(u64::MAX);
    assert!(!strict.is_tracked(1));
}

#[test]
fn a_fingerprint_in_flight_blocks_claims_until_it_is_completed() {
    let mut tracker = TurnTracker::new(1_000);
    assert!(tracker.claim(11));
    tracker.cleanup(1_000_000);
    tracker.mark_in_flight(12);
    tracker.mark_completed(12, 1_000_001);
    tracker.cleanup(5_000_000);
    assert!(!tracker.claim(11));
    assert_eq!(tracker.status(11), Some(TurnStatus::InFlight));
    tracker.mark_completed(11, 5_000_000);
    assert!(!tracker.claim(11));
    tracker.cleanup(5_001_000);
    assert!(!tracker.claim(11));
    tracker.cleanup(5_001_001);
    assert!(tracker.claim(11));
}
