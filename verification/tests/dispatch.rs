use smartmail::dispatch::{
    envelope_metrics, handle_uplink, process_distance, process_keepalive, MetricSample, RawMetric,
    UplinkOutcome, DISTANCE_PORT, KEEPALIVE_PORT,
};
use smartmail::tracker::{TrackerState, TransitionKind};

#[test]
fn keepalive_updates_both_slots_and_emits_two_metrics() {
    // A temperature and a voltage measurement on the keepalive port update
    // both slots and emit exactly two metric observations, independent of
    // the distance state.
    let data = [
        0x01, 0x67, 0x00, 0xE6, //
        0x04, 0x02, 0x01, 0x7A,
    ];
    let mut tracker = TrackerState::new(300);
    tracker.observe_distance(250);
    let metrics = process_keepalive(&mut tracker, &data);
    assert_eq!(
        metrics,
        vec![MetricSample::Temperature(230), MetricSample::Voltage(378)]
    );
    assert_eq!(tracker.last_temperature, Some(230));
    assert_eq!(tracker.last_voltage, Some(378));
    assert_eq!(tracker.last_distance, Some(250));
}

#[test]
fn keepalive_port_routes_to_keepalive() {
    let data = [
        0x01, 0x67, 0x00, 0xE6, //
        0x04, 0x02, 0x01, 0x7A,
    ];
    let mut tracker = TrackerState::new(300);
    match handle_uplink(&mut tracker, KEEPALIVE_PORT, &data) {
        UplinkOutcome::Keepalive(metrics) => {
            assert_eq!(metrics.len(), 2);
        }
        other => panic!("expected a keepalive outcome, got {:?}", other),
    }
    assert_eq!(tracker.last_temperature, Some(230));
    assert_eq!(tracker.last_voltage, Some(378));
}

#[test]
fn distance_port_routes_to_tracker() {
    let data = [0x01, 0x82, 0x01, 0x3D];
    let mut tracker = TrackerState::new(300);
    tracker.observe_distance(250);
    match handle_uplink(&mut tracker, DISTANCE_PORT, &data) {
        UplinkOutcome::DistanceReport(outcome) => {
            assert_eq!(outcome.distance, Some(317));
            let event = outcome.event.unwrap();
            assert_eq!(event.kind, TransitionKind::BecameFull);
            assert_eq!(event.previous, 250);
            assert_eq!(event.new, 317);
        }
        other => panic!("expected a distance report, got {:?}", other),
    }
    assert_eq!(tracker.last_distance, Some(317));
}

#[test]
fn unknown_port_is_ignored() {
    let data = [0x01, 0x82, 0x01, 0x3D];
    let mut tracker = TrackerState::new(300);
    match handle_uplink(&mut tracker, 7, &data) {
        UplinkOutcome::UnknownPort => {}
        other => panic!("expected the unknown-port outcome, got {:?}", other),
    }
    assert_eq!(tracker.last_distance, None);
}

#[test]
fn first_distance_measurement_wins() {
    // Two distance records in one payload: only the first is observed.
    let data = [
        0x01, 0x82, 0x01, 0x3D, //
        0x01, 0x82, 0x00, 0x64,
    ];
    let mut tracker = TrackerState::new(300);
    let outcome = process_distance(&mut tracker, &data);
    assert_eq!(outcome.distance, Some(317));
    assert_eq!(tracker.last_distance, Some(317));
}

#[test]
fn payload_without_distance_has_no_effect() {
    let data = [0x01, 0x67, 0x00, 0xE6];
    let mut tracker = TrackerState::new(300);
    let outcome = process_distance(&mut tracker, &data);
    assert_eq!(outcome.distance, None);
    assert_eq!(outcome.event, None);
    assert_eq!(tracker.last_distance, None);
}

#[test]
fn envelope_metrics_keep_emission_order() {
    let metrics = envelope_metrics(17, 412, Some(7), Some(125));
    assert_eq!(
        metrics,
        vec![
            RawMetric::Counter(17),
            RawMetric::Airtime(412),
            RawMetric::SpreadingFactor(7),
            RawMetric::Bandwidth(125),
        ]
    );
    let without_rate = envelope_metrics(17, 412, None, None);
    assert_eq!(
        without_rate,
        vec![RawMetric::Counter(17), RawMetric::Airtime(412)]
    );
}
