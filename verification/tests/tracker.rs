use smartmail::tracker::{TrackerState, TransitionEvent, TransitionKind};

#[test]
fn first_observation_never_transitions() {
    let mut tracker = TrackerState::new(300);
    assert_eq!(tracker.observe_distance(250), None);
}

#[test]
fn threshold_sequence_example() {
    // With threshold 300, the sequence 250 -> 250 -> 310 -> 150 yields
    // None, None, BecameFull, BecameEmpty.
    let mut tracker = TrackerState::new(300);
    assert_eq!(tracker.observe_distance(250), None);
    assert_eq!(tracker.observe_distance(250), None);
    assert_eq!(
        tracker.observe_distance(310),
        Some(TransitionEvent {
            kind: TransitionKind::BecameFull,
            previous: 250,
            new: 310,
        })
    );
    assert_eq!(
        tracker.observe_distance(150),
        Some(TransitionEvent {
            kind: TransitionKind::BecameEmpty,
            previous: 310,
            new: 150,
        })
    );
}

#[test]
fn exact_threshold_counts_as_empty_side() {
    // 300 -> 299 yields None then BecameEmpty: a reading of exactly the
    // threshold sits on the empty side.
    let mut tracker = TrackerState::new(300);
    assert_eq!(tracker.observe_distance(300), None);
    assert_eq!(
        tracker.observe_distance(299),
        Some(TransitionEvent {
            kind: TransitionKind::BecameEmpty,
            previous: 300,
            new: 299,
        })
    );
}

#[test]
fn equal_readings_never_transition() {
    let mut tracker = TrackerState::new(300);
    assert_eq!(tracker.observe_distance(300), None);
    assert_eq!(tracker.observe_distance(300), None);
    assert_eq!(tracker.observe_distance(299), Some(TransitionEvent {
        kind: TransitionKind::BecameEmpty,
        previous: 300,
        new: 299,
    }));
    assert_eq!(tracker.observe_distance(299), None);
}

#[test]
fn auxiliary_slots_update_without_events() {
    let mut tracker = TrackerState::new(300);
    tracker.observe_temperature(230);
    tracker.observe_voltage(378);
    assert_eq!(tracker.last_temperature, Some(230));
    assert_eq!(tracker.last_voltage, Some(378));
    assert_eq!(tracker.last_distance, None);
}
