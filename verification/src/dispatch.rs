//! Ingestion dispatcher: routes a decoded uplink envelope (port number plus
//! raw payload bytes) to the decoder and the tracker by the port-number
//! convention of the device firmware, and reports the metric observations
//! and transition events that follow from it.

use vstd::prelude::*;

use crate::lpp::{decode, Channel, DataType, LppDecoder, Measurement};
use crate::tracker::{event_of, observed, TrackerState, TransitionEvent};

verus! {

/// Port the device firmware uses for keepalive payloads.
pub const KEEPALIVE_PORT: u64 = 101;

/// Port the device firmware uses for distance reports.
pub const DISTANCE_PORT: u64 = 102;

/// A metric observation derived from a decoded payload, in the order the
/// telemetry collaborator should receive it. Values keep the sensor's
/// fixed-point scale: tenths of a degree Celsius, hundredths of a volt,
/// whole millimeters.
#[derive(Debug, PartialEq, Eq, Structural, Copy, Clone)]
pub enum MetricSample {
    Temperature(i16),
    Voltage(i16),
    Distance(u16),
}

/// A metric observation taken from the envelope metadata itself, emitted
/// before any port-specific processing.
#[derive(Debug, PartialEq, Eq, Structural, Copy, Clone)]
pub enum RawMetric {
    Counter(u64),
    Airtime(u64),
    SpreadingFactor(u8),
    Bandwidth(u8),
}

/// The first distance-sensor distance measurement of a decoded sequence,
/// if any.
pub open spec fn first_distance(ms: Seq<Measurement>) -> Option<u16>
    decreases ms.len(),
{
    if ms.len() == 0 {
        None
    } else {
        match (ms[0].channel, ms[0].value) {
            (Channel::DistanceSensor, DataType::Distance(d)) => Some(d),
            _ => first_distance(ms.skip(1)),
        }
    }
}

/// The metric observations a keepalive payload produces, in measurement
/// order: one per distance-sensor temperature and one per ADC voltage.
pub open spec fn keepalive_metrics(ms: Seq<Measurement>) -> Seq<MetricSample>
    decreases ms.len(),
{
    if ms.len() == 0 {
        Seq::empty()
    } else {
        let rest = keepalive_metrics(ms.skip(1));
        match (ms[0].channel, ms[0].value) {
            (Channel::DistanceSensor, DataType::Temperature(t)) => seq![
                MetricSample::Temperature(t),
            ] + rest,
            (Channel::Adc, DataType::AnalogInput(v)) => seq![MetricSample::Voltage(v)] + rest,
            _ => rest,
        }
    }
}

/// The temperature slot after a keepalive payload: the last temperature
/// measurement of the sequence, or the prior value if there is none.
pub open spec fn last_keepalive_temperature(ms: Seq<Measurement>, init: Option<i16>) -> Option<
    i16,
>
    decreases ms.len(),
{
    if ms.len() == 0 {
        init
    } else {
        let next = match (ms[0].channel, ms[0].value) {
            (Channel::DistanceSensor, DataType::Temperature(t)) => Some(t),
            _ => init,
        };
        last_keepalive_temperature(ms.skip(1), next)
    }
}

/// The voltage slot after a keepalive payload: the last ADC voltage
/// measurement of the sequence, or the prior value if there is none.
pub open spec fn last_keepalive_voltage(ms: Seq<Measurement>, init: Option<i16>) -> Option<i16>
    decreases ms.len(),
{
    if ms.len() == 0 {
        init
    } else {
        let next = match (ms[0].channel, ms[0].value) {
            (Channel::Adc, DataType::AnalogInput(v)) => Some(v),
            _ => init,
        };
        last_keepalive_voltage(ms.skip(1), next)
    }
}

/// What a distance report produced: the distance that was observed (and
/// should be emitted as a metric whether or not a transition occurred),
/// and the transition event, if the reading crossed the threshold.
#[derive(Debug, PartialEq, Eq, Structural, Copy, Clone)]
pub struct DistanceOutcome {
    pub distance: Option<u16>,
    pub event: Option<TransitionEvent>,
}

/// What handling one uplink produced, by the port it arrived on.
#[derive(Debug)]
pub enum UplinkOutcome {
    Keepalive(Vec<MetricSample>),
    DistanceReport(DistanceOutcome),
    UnknownPort,
}

/// Runs the decoder over a keepalive payload: every distance-sensor
/// temperature updates the temperature slot and yields a temperature
/// metric, every ADC voltage updates the voltage slot and yields a voltage
/// metric. The distance slot and the threshold are never touched.
pub fn process_keepalive(state: &mut TrackerState, bytes: &[u8]) -> (r: Vec<MetricSample>)
    ensures
        r@ == keepalive_metrics(decode(bytes@)),
        final(state).last_temperature == last_keepalive_temperature(
            decode(bytes@),
            old(state).last_temperature,
        ),
        final(state).last_voltage == last_keepalive_voltage(
            decode(bytes@),
            old(state).last_voltage,
        ),
        final(state).last_distance == old(state).last_distance,
        final(state).threshold == old(state).threshold,
{
    let mut decoder = LppDecoder::new(bytes);
    let mut out: Vec<MetricSample> = Vec::new();
    loop
        invariant
            decoder.wf(),
            keepalive_metrics(decode(bytes@)) == out@ + keepalive_metrics(decoder.remaining()),
            last_keepalive_temperature(decode(bytes@), old(state).last_temperature)
                == last_keepalive_temperature(decoder.remaining(), state.last_temperature),
            last_keepalive_voltage(decode(bytes@), old(state).last_voltage)
                == last_keepalive_voltage(decoder.remaining(), state.last_voltage),
            state.last_distance == old(state).last_distance,
            state.threshold == old(state).threshold,
        decreases decoder.remaining().len(),
    {
        match decoder.next() {
            Some(m) => {
                match (m.channel, m.value) {
                    (Channel::DistanceSensor, DataType::Temperature(t)) => {
                        state.observe_temperature(t);
                        out.push(MetricSample::Temperature(t));
                    },
                    (Channel::Adc, DataType::AnalogInput(v)) => {
                        state.observe_voltage(v);
                        out.push(MetricSample::Voltage(v));
                    },
                    _ => {},
                }
            },
            None => {
                proof {
                    assert(out@ + keepalive_metrics(decoder.remaining()) =~= out@);
                }
                return out;
            },
        }
    }
}

/// Runs the decoder over a distance-report payload and hands the first
/// distance-sensor distance measurement to the tracker; later
/// measurements of the same payload are ignored. Without a distance
/// measurement the state is left untouched and nothing is reported.
pub fn process_distance(state: &mut TrackerState, bytes: &[u8]) -> (r: DistanceOutcome)
    ensures
        match first_distance(decode(bytes@)) {
            Some(d) => r.distance == Some(d) && *final(state) == observed(*old(state), d)
                && r.event == event_of(old(state).threshold, old(state).last_distance, d),
            None => r.distance is None && r.event is None && *final(state) == *old(state),
        },
{
    let mut decoder = LppDecoder::new(bytes);
    loop
        invariant
            decoder.wf(),
            first_distance(decode(bytes@)) == first_distance(decoder.remaining()),
            *state == *old(state),
        decreases decoder.remaining().len(),
    {
        match decoder.next() {
            Some(m) => {
                match (m.channel, m.value) {
                    (Channel::DistanceSensor, DataType::Distance(d)) => {
                        let event = state.observe_distance(d);
                        return DistanceOutcome { distance: Some(d), event };
                    },
                    _ => {},
                }
            },
            None => {
                return DistanceOutcome { distance: None, event: None };
            },
        }
    }
}

/// Routes one uplink by its port: keepalive payloads update the auxiliary
/// slots, distance reports go through the tracker's transition logic, any
/// other port is left alone.
pub fn handle_uplink(state: &mut TrackerState, port: u64, payload: &[u8]) -> (r: UplinkOutcome)
    ensures
        port == KEEPALIVE_PORT ==> (r matches UplinkOutcome::Keepalive(ms)
            && ms@ == keepalive_metrics(decode(payload@))
            && final(state).last_temperature == last_keepalive_temperature(
            decode(payload@),
            old(state).last_temperature,
        )
            && final(state).last_voltage == last_keepalive_voltage(
            decode(payload@),
            old(state).last_voltage,
        )
            && final(state).last_distance == old(state).last_distance
            && final(state).threshold == old(state).threshold),
        port == DISTANCE_PORT ==> (r matches UplinkOutcome::DistanceReport(o)
            && match first_distance(decode(payload@)) {
            Some(d) => o.distance == Some(d) && *final(state) == observed(*old(state), d)
                && o.event == event_of(old(state).threshold, old(state).last_distance, d),
            None => o.distance is None && o.event is None && *final(state) == *old(state),
        }),
        port != KEEPALIVE_PORT && port != DISTANCE_PORT ==> (r matches UplinkOutcome::UnknownPort
            && *final(state) == *old(state)),
{
    if port == KEEPALIVE_PORT {
        UplinkOutcome::Keepalive(process_keepalive(state, payload))
    } else if port == DISTANCE_PORT {
        UplinkOutcome::DistanceReport(process_distance(state, payload))
    } else {
        UplinkOutcome::UnknownPort
    }
}

/// The envelope metrics of one uplink, in emission order: counter and
/// airtime always, then spreading factor and bandwidth where the data-rate
/// field supplied them.
pub open spec fn envelope_metrics_of(
    counter: u64,
    airtime: u64,
    sf: Option<u8>,
    bw: Option<u8>,
) -> Seq<RawMetric> {
    seq![RawMetric::Counter(counter), RawMetric::Airtime(airtime)] + (match sf {
        Some(v) => seq![RawMetric::SpreadingFactor(v)],
        None => Seq::empty(),
    }) + (match bw {
        Some(v) => seq![RawMetric::Bandwidth(v)],
        None => Seq::empty(),
    })
}

/// Collects the envelope metrics of one uplink. These are emitted before
/// any port-specific processing.
pub fn envelope_metrics(counter: u64, airtime: u64, sf: Option<u8>, bw: Option<u8>) -> (r: Vec<
    RawMetric,
>)
    ensures
        r@ == envelope_metrics_of(counter, airtime, sf, bw),
{
    let mut out: Vec<RawMetric> = Vec::new();
    out.push(RawMetric::Counter(counter));
    out.push(RawMetric::Airtime(airtime));
    if let Some(v) = sf {
        out.push(RawMetric::SpreadingFactor(v));
    }
    if let Some(v) = bw {
        out.push(RawMetric::Bandwidth(v));
    }
    proof {
        assert(out@ =~= envelope_metrics_of(counter, airtime, sf, bw));
    }
    out
}

/// Keepalive routing law: a payload that decodes to exactly one
/// distance-sensor temperature followed by one ADC voltage yields exactly
/// those two metric observations in order and sets both auxiliary slots,
/// whatever they held before — and, by `process_keepalive`'s contract,
/// independent of the tracker's distance state.
pub proof fn lemma_keepalive_routing(
    ms: Seq<Measurement>,
    t: i16,
    v: i16,
    init_t: Option<i16>,
    init_v: Option<i16>,
)
    requires
        ms == seq![
            Measurement { channel: Channel::DistanceSensor, value: DataType::Temperature(t) },
            Measurement { channel: Channel::Adc, value: DataType::AnalogInput(v) },
        ],
    ensures
        keepalive_metrics(ms) == seq![MetricSample::Temperature(t), MetricSample::Voltage(v)],
        last_keepalive_temperature(ms, init_t) == Some(t),
        last_keepalive_voltage(ms, init_v) == Some(v),
{
    let tail = ms.skip(1);
    assert(tail =~= seq![
        Measurement { channel: Channel::Adc, value: DataType::AnalogInput(v) },
    ]);
    assert(tail.skip(1) =~= Seq::<Measurement>::empty());
    assert(keepalive_metrics(tail.skip(1)) =~= Seq::<MetricSample>::empty());
    assert(keepalive_metrics(tail) =~= seq![MetricSample::Voltage(v)]);
    assert(keepalive_metrics(ms) =~= seq![MetricSample::Temperature(t), MetricSample::Voltage(v)]);
    assert(last_keepalive_temperature(ms, init_t) == last_keepalive_temperature(tail, Some(t)));
    assert(last_keepalive_temperature(tail, Some(t)) == last_keepalive_temperature(
        tail.skip(1),
        Some(t),
    ));
    assert(last_keepalive_voltage(ms, init_v) == last_keepalive_voltage(tail, init_v));
    assert(last_keepalive_voltage(tail, init_v) == last_keepalive_voltage(tail.skip(1), Some(v)));
}

} // verus!
