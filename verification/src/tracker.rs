//! Mailbox state tracker: keeps the most recent distance, temperature and
//! voltage readings and classifies each new distance reading against a
//! hysteresis threshold.
//!
//! The threshold is a single boundary reused for both directions: a reading
//! of exactly the threshold counts as the "empty side". Updates are
//! read-modify-write on one state value; callers that observe from several
//! contexts at once must serialize the calls (e.g. behind a lock).

use vstd::prelude::*;

verus! {

/// Default hysteresis threshold in millimeters: below this distance the
/// mailbox is considered occupied by mail.
pub const DEFAULT_THRESHOLD: u16 = 300;

/// The direction of a classified distance change.
#[derive(Debug, PartialEq, Eq, Structural, Copy, Clone)]
pub enum TransitionKind {
    BecameFull,
    BecameEmpty,
}

/// A classified distance change: its direction and the distances (in
/// millimeters) before and after.
#[derive(Debug, PartialEq, Eq, Structural, Copy, Clone)]
pub struct TransitionEvent {
    pub kind: TransitionKind,
    pub previous: u16,
    pub new: u16,
}

/// How a new distance reading is classified against the stored one: the
/// first reading only establishes a baseline; afterwards a transition is
/// reported exactly when the previous and new readings straddle the
/// threshold.
pub open spec fn classify(threshold: u16, previous: Option<u16>, new: u16) -> Option<
    TransitionKind,
> {
    match previous {
        None => None,
        Some(p) => if p < threshold && new >= threshold {
            Some(TransitionKind::BecameFull)
        } else if p >= threshold && new < threshold {
            Some(TransitionKind::BecameEmpty)
        } else {
            None
        },
    }
}

/// The event a distance observation produces, if any.
pub open spec fn event_of(threshold: u16, previous: Option<u16>, new: u16) -> Option<
    TransitionEvent,
> {
    match classify(threshold, previous, new) {
        Some(kind) => Some(TransitionEvent { kind, previous: previous.unwrap(), new }),
        None => None,
    }
}

/// The most recent readings, one slot per quantity of interest. Every slot
/// starts out unknown and is overwritten unconditionally by each new
/// reading of its kind.
#[derive(Debug, Copy, Clone)]
pub struct TrackerState {
    pub threshold: u16,
    pub last_distance: Option<u16>,
    pub last_temperature: Option<i16>,
    pub last_voltage: Option<i16>,
}

/// The tracker state after a distance observation: the new distance is
/// stored unconditionally, everything else is kept.
pub open spec fn observed(s: TrackerState, new_distance: u16) -> TrackerState {
    TrackerState { last_distance: Some(new_distance), ..s }
}

impl TrackerState {
    pub fn new(threshold: u16) -> (r: Self)
        ensures
            r.threshold == threshold,
            r.last_distance is None,
            r.last_temperature is None,
            r.last_voltage is None,
    {
        TrackerState {
            threshold,
            last_distance: None,
            last_temperature: None,
            last_voltage: None,
        }
    }

    /// Classifies a new distance reading (in millimeters) against the
    /// stored one, then stores it. The first reading never produces a
    /// transition.
    pub fn observe_distance(&mut self, new_distance: u16) -> (r: Option<TransitionEvent>)
        ensures
            *final(self) == observed(*old(self), new_distance),
            r == event_of(old(self).threshold, old(self).last_distance, new_distance),
    {
        let r = match self.last_distance {
            None => None,
            Some(p) => {
                if p < self.threshold && new_distance >= self.threshold {
                    Some(TransitionEvent {
                        kind: TransitionKind::BecameFull,
                        previous: p,
                        new: new_distance,
                    })
                } else if p >= self.threshold && new_distance < self.threshold {
                    Some(TransitionEvent {
                        kind: TransitionKind::BecameEmpty,
                        previous: p,
                        new: new_distance,
                    })
                } else {
                    None
                }
            },
        };
        self.last_distance = Some(new_distance);
        r
    }

    /// Stores a new temperature reading (tenths of a degree Celsius).
    /// Auxiliary slots never produce transition events.
    pub fn observe_temperature(&mut self, tenths: i16)
        ensures
            *final(self) == (TrackerState { last_temperature: Some(tenths), ..*old(self) }),
    {
        self.last_temperature = Some(tenths);
    }

    /// Stores a new voltage reading (hundredths of a volt). Auxiliary
    /// slots never produce transition events.
    pub fn observe_voltage(&mut self, hundredths: i16)
        ensures
            *final(self) == (TrackerState { last_voltage: Some(hundredths), ..*old(self) }),
    {
        self.last_voltage = Some(hundredths);
    }
}

/// Threshold law: the first observation establishes a baseline and never
/// produces a transition; a subsequent observation of `v1` after `v0`
/// produces `BecameFull` exactly when `v0 < threshold <= v1`, `BecameEmpty`
/// exactly when `v1 < threshold <= v0`, and no event otherwise — in
/// particular never when `v1 == v0`.
pub proof fn lemma_threshold_law(threshold: u16, v0: u16, v1: u16)
    ensures
        classify(threshold, None, v0) is None,
        (classify(threshold, Some(v0), v1) == Some(TransitionKind::BecameFull)) <==> (v0
            < threshold && threshold <= v1),
        (classify(threshold, Some(v0), v1) == Some(TransitionKind::BecameEmpty)) <==> (v1
            < threshold && threshold <= v0),
        v0 == v1 ==> classify(threshold, Some(v0), v1) is None,
{
}

/// The tracker state after a sequence of distance observations, applied
/// one at a time in order.
pub open spec fn run(s: TrackerState, vs: Seq<u16>) -> TrackerState
    decreases vs.len(),
{
    if vs.len() == 0 {
        s
    } else {
        run(observed(s, vs[0]), vs.skip(1))
    }
}

/// The events a sequence of distance observations produces, one entry per
/// observation, applied one at a time in order.
pub open spec fn run_events(s: TrackerState, vs: Seq<u16>) -> Seq<Option<TransitionEvent>>
    decreases vs.len(),
{
    if vs.len() == 0 {
        Seq::empty()
    } else {
        seq![event_of(s.threshold, s.last_distance, vs[0])] + run_events(
            observed(s, vs[0]),
            vs.skip(1),
        )
    }
}

/// Serialized-observation law: when distance observations are applied one
/// at a time (as the exclusive-access region forces), the stored distance
/// afterwards is the last observed value, every observation produces
/// exactly one classification entry, and the entry of each observation is
/// determined by its own value and the value stored immediately before it
/// — no event is duplicated or lost.
pub proof fn lemma_serialized_observations(s: TrackerState, vs: Seq<u16>)
    ensures
        run(s, vs).threshold == s.threshold,
        run(s, vs).last_distance == if vs.len() == 0 {
            s.last_distance
        } else {
            Some(vs.last())
        },
        run_events(s, vs).len() == vs.len(),
        forall|i: int|
            0 <= i < vs.len() ==> #[trigger] run_events(s, vs)[i] == event_of(
                s.threshold,
                if i == 0 {
                    s.last_distance
                } else {
                    Some(vs[i - 1])
                },
                vs[i],
            ),
    decreases vs.len(),
{
    if vs.len() > 0 {
        let s1 = observed(s, vs[0]);
        let tail = vs.skip(1);
        lemma_serialized_observations(s1, tail);
        assert(vs.len() > 1 ==> tail.last() == vs.last());
        assert forall|i: int| 0 <= i < vs.len() implies #[trigger] run_events(s, vs)[i]
            == event_of(
            s.threshold,
            if i == 0 {
                s.last_distance
            } else {
                Some(vs[i - 1])
            },
            vs[i],
        ) by {
            if i > 0 {
                assert(run_events(s, vs)[i] == run_events(s1, tail)[i - 1]);
                assert(tail[i - 1] == vs[i]);
                if i > 1 {
                    assert(tail[i - 2] == vs[i - 1]);
                }
            }
        }
    }
}

} // verus!
