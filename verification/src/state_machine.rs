//! Per-stop arrival state machine with one-time announcement.

use vstd::prelude::*;
use crate::model;
use crate::model::{DistCm, FsmState, Prob8, SpeedCms};

verus! {

/// Arrival threshold: 75% probability.
pub const THETA_ARRIVAL: Prob8 = 191;

/// Distance to the stop under which the bus is arriving / may arrive (50 m).
pub const ARRIVAL_RADIUS_CM: i32 = 5000;

/// Distance past the stop beyond which the bus has departed (40 m).
pub const DEPARTURE_RADIUS_CM: i32 = 4000;

/// Event returned by a state-machine update.
#[derive(Debug, Clone, Copy, PartialEq, Eq, Structural)]
pub enum StopEvent {
    /// The bus has arrived at this stop.
    Arrived,
    /// The bus has departed from this stop.
    Departed,
    /// No event on this update.
    NoEvent,
}

/// Runtime state of one stop.
#[derive(Debug, Clone, Copy, PartialEq, Eq, Structural)]
pub struct StopState {
    /// Index of the stop in the route.
    pub index: u8,
    /// Current state.
    pub fsm_state: FsmState,
    /// Updates spent in the corridor (seconds at 1 Hz).
    pub dwell_time_s: u16,
    /// Last probability passed to `update`.
    pub last_probability: Prob8,
    /// Stop index recorded by the last announcement (`u8::MAX` before any).
    pub last_announced_stop: u8,
    /// Whether this stop has been announced (arrived) in this trip; never reset.
    pub announced: bool,
    /// Whether this stop is skipped after an off-route re-entry jumped past it.
    pub skip_on_reentry: bool,
    /// Distance to the stop at the previous trace, if recorded.
    pub previous_distance_cm: Option<DistCm>,
}

/// New state and event after one update (see `StopState::update`).
pub open spec fn spec_update(
    st: StopState,
    s_cm: int,
    stop_progress: int,
    corridor_start_cm: int,
    probability: Prob8,
) -> (StopState, StopEvent) {
    let d = model::abs(s_cm - stop_progress);
    let keep = StopState { last_probability: probability, ..st };
    match st.fsm_state {
        FsmState::Idle => {
            if s_cm >= corridor_start_cm {
                (StopState { fsm_state: FsmState::Approaching, ..keep }, StopEvent::NoEvent)
            } else {
                (keep, StopEvent::NoEvent)
            }
        },
        FsmState::Approaching => {
            if s_cm < corridor_start_cm {
                (StopState { fsm_state: FsmState::Idle, dwell_time_s: 0, ..keep }, StopEvent::NoEvent)
            } else {
                (
                    StopState {
                        fsm_state: if d < ARRIVAL_RADIUS_CM {
                            FsmState::Arriving
                        } else {
                            FsmState::Approaching
                        },
                        dwell_time_s: (st.dwell_time_s + 1) as u16,
                        ..keep
                    },
                    StopEvent::NoEvent,
                )
            }
        },
        FsmState::Arriving => {
            if d < ARRIVAL_RADIUS_CM && probability > THETA_ARRIVAL {
                (
                    StopState {
                        fsm_state: FsmState::AtStop,
                        dwell_time_s: (st.dwell_time_s + 1) as u16,
                        announced: true,
                        ..keep
                    },
                    StopEvent::Arrived,
                )
            } else {
                (StopState { dwell_time_s: (st.dwell_time_s + 1) as u16, ..keep }, StopEvent::NoEvent)
            }
        },
        FsmState::AtStop => {
            if d > DEPARTURE_RADIUS_CM && s_cm > stop_progress {
                (StopState { fsm_state: FsmState::Departed, ..keep }, StopEvent::Departed)
            } else {
                (keep, StopEvent::NoEvent)
            }
        },
        FsmState::Departed => (keep, StopEvent::NoEvent),
        FsmState::TripComplete => (keep, StopEvent::NoEvent),
    }
}

/// Inputs on which `update` does not overflow: the distance to the stop is
/// representable and the dwell counter is below its maximum whenever the
/// update increments it.
pub open spec fn update_inputs_ok(
    st: StopState,
    s_cm: int,
    stop_progress: int,
    corridor_start_cm: int,
    probability: Prob8,
) -> bool {
    let d = model::abs(s_cm - stop_progress);
    let increments = match st.fsm_state {
        FsmState::Approaching => s_cm >= corridor_start_cm,
        FsmState::Arriving => true,
        _ => false,
    };
    &&& model::diff_fits(s_cm, stop_progress)
    &&& increments ==> st.dwell_time_s < u16::MAX
}

/// Whether `should_announce` fires (see there).
pub open spec fn spec_announces(st: StopState, s_cm: int, corridor_start_cm: int) -> bool {
    &&& s_cm >= corridor_start_cm
    &&& st.last_announced_stop != st.index
    &&& (st.fsm_state == FsmState::Approaching || st.fsm_state == FsmState::Arriving
        || st.fsm_state == FsmState::AtStop)
}

impl StopState {
    /// Fresh state for stop `index`: idle, nothing announced.
    pub fn new(index: u8) -> (r: Self)
        ensures
            r.index == index,
            r.fsm_state == FsmState::Idle,
            r.dwell_time_s == 0,
            r.last_probability == 0,
            r.last_announced_stop == u8::MAX,
            !r.announced,
            !r.skip_on_reentry,
            r.previous_distance_cm is None,
    {
        StopState {
            index,
            fsm_state: FsmState::Idle,
            dwell_time_s: 0,
            last_probability: 0,
            last_announced_stop: u8::MAX,
            announced: false,
            skip_on_reentry: false,
            previous_distance_cm: None,
        }
    }

    /// Update the state and return any event.
    ///
    /// - Idle → Approaching on entering the corridor (`s_cm >= corridor_start_cm`).
    /// - Approaching: back to Idle (dwell reset) on leaving the corridor; else
    ///   dwell increments, and within 50 m of the stop → Arriving.
    /// - Arriving: within 50 m with probability above `THETA_ARRIVAL` → AtStop,
    ///   `Arrived`, and the stop is marked announced; else dwell increments.
    /// - AtStop: more than 40 m past the stop → Departed, `Departed`.
    /// - Departed and TripComplete never change.
    ///
    /// The probability is recorded in every case.
    pub fn update(
        &mut self,
        s_cm: DistCm,
        _v_cms: SpeedCms,
        stop_progress: DistCm,
        corridor_start_cm: DistCm,
        probability: Prob8,
    ) -> (ev: StopEvent)
        requires
            update_inputs_ok(
                *old(self),
                s_cm as int,
                stop_progress as int,
                corridor_start_cm as int,
                probability,
            ),
        ensures
            (*final(self), ev) == spec_update(
                *old(self),
                s_cm as int,
                stop_progress as int,
                corridor_start_cm as int,
                probability,
            ),
    {
        let d_to_stop = model::abs_diff_i32(s_cm, stop_progress);
        match self.fsm_state {
            FsmState::Idle => {
                if s_cm >= corridor_start_cm {
                    self.fsm_state = FsmState::Approaching;
                }
            },
            FsmState::Approaching => {
                if d_to_stop < ARRIVAL_RADIUS_CM {
                    self.fsm_state = FsmState::Arriving;
                }
                if s_cm < corridor_start_cm {
                    self.fsm_state = FsmState::Idle;
                    self.dwell_time_s = 0;
                } else {
                    self.dwell_time_s = self.dwell_time_s + 1;
                }
            },
            FsmState::Arriving => {
                if d_to_stop < ARRIVAL_RADIUS_CM && probability > THETA_ARRIVAL {
                    self.fsm_state = FsmState::AtStop;
                    self.dwell_time_s = self.dwell_time_s + 1;
                    self.last_probability = probability;
                    self.announced = true;
                    return StopEvent::Arrived;
                }
                self.dwell_time_s = self.dwell_time_s + 1;
            },
            FsmState::AtStop => {
                if d_to_stop > DEPARTURE_RADIUS_CM && s_cm > stop_progress {
                    self.fsm_state = FsmState::Departed;
                    self.last_probability = probability;
                    return StopEvent::Departed;
                }
            },
            FsmState::Departed => {},
            FsmState::TripComplete => {},
        }
        self.last_probability = probability;
        StopEvent::NoEvent
    }

    /// Announce on corridor entry: fires when `s_cm >= corridor_start_cm`, the
    /// stop has not been announced, and the state is Approaching, Arriving or
    /// AtStop; it then records the announcement.
    pub fn should_announce(&mut self, s_cm: DistCm, corridor_start_cm: DistCm) -> (b: bool)
        ensures
            b == spec_announces(*old(self), s_cm as int, corridor_start_cm as int),
            *final(self) == (if b {
                StopState { last_announced_stop: old(self).index, ..*old(self) }
            } else {
                *old(self)
            }),
    {
        if s_cm >= corridor_start_cm && self.last_announced_stop != self.index {
            let is_active = match self.fsm_state {
                FsmState::Approaching | FsmState::Arriving | FsmState::AtStop => true,
                _ => false,
            };
            if is_active {
                self.last_announced_stop = self.index;
                return true;
            }
        }
        false
    }

    /// A stop is never re-activated within a trip (one-time announcement).
    pub fn can_reactivate(&self, _s_cm: DistCm, _stop_progress: DistCm) -> (b: bool)
        ensures
            !b,
    {
        false
    }

    /// Whether this is the terminal trip-complete state.
    pub fn is_trip_complete(&self) -> (b: bool)
        ensures
            b == (self.fsm_state == FsmState::TripComplete),
    {
        match self.fsm_state {
            FsmState::TripComplete => true,
            _ => false,
        }
    }
}

/// TripComplete and Departed are absorbing: no update leaves them, emits an
/// event, or changes the dwell time.
pub proof fn lemma_terminal_states_absorbing(st: StopState, s: int, p: int, c: int, prob: Prob8)
    requires
        st.fsm_state == FsmState::TripComplete || st.fsm_state == FsmState::Departed,
    ensures
        spec_update(st, s, p, c, prob).0.fsm_state == st.fsm_state,
        spec_update(st, s, p, c, prob).0.dwell_time_s == st.dwell_time_s,
        spec_update(st, s, p, c, prob).1 == StopEvent::NoEvent,
{
}

/// An arrival happens only from Arriving, within 50 m, with probability above
/// the threshold; it leads to AtStop and marks the stop announced. A departure
/// happens only from AtStop, more than 40 m past the stop.
pub proof fn lemma_events_guarded(st: StopState, s: int, p: int, c: int, prob: Prob8)
    ensures
        ({
            let (st1, ev) = spec_update(st, s, p, c, prob);
            &&& ev == StopEvent::Arrived ==> {
                &&& st.fsm_state == FsmState::Arriving
                &&& model::abs(s - p) < ARRIVAL_RADIUS_CM
                &&& prob > THETA_ARRIVAL
                &&& st1.fsm_state == FsmState::AtStop
                &&& st1.announced
            }
            &&& ev == StopEvent::Departed ==> {
                &&& st.fsm_state == FsmState::AtStop
                &&& s > p
                &&& model::abs(s - p) > DEPARTURE_RADIUS_CM
                &&& st1.fsm_state == FsmState::Departed
            }
        }),
{
}

/// Updates never forget an arrival, never touch the announcement record or the
/// stop's identity, and always record the probability.
pub proof fn lemma_update_preserves_identity(st: StopState, s: int, p: int, c: int, prob: Prob8)
    ensures
        ({
            let (st1, ev) = spec_update(st, s, p, c, prob);
            &&& st.announced ==> st1.announced
            &&& st1.announced == (st.announced || ev == StopEvent::Arrived)
            &&& st1.index == st.index
            &&& st1.last_announced_stop == st.last_announced_stop
            &&& st1.skip_on_reentry == st.skip_on_reentry
            &&& st1.last_probability == prob
        }),
{
}

/// Dwell time only grows while in the corridor (Approaching or Arriving);
/// leaving the corridor from Approaching resets it, and entering the corridor
/// from Idle does not count.
pub proof fn lemma_dwell_counts_in_corridor(st: StopState, s: int, p: int, c: int, prob: Prob8)
    requires
        update_inputs_ok(st, s, p, c, prob),
    ensures
        ({
            let st1 = spec_update(st, s, p, c, prob).0;
            &&& st1.dwell_time_s > st.dwell_time_s ==> (st.fsm_state == FsmState::Approaching
                || st.fsm_state == FsmState::Arriving)
            &&& st1.dwell_time_s > st.dwell_time_s ==> st1.dwell_time_s == st.dwell_time_s + 1
            &&& (st.fsm_state == FsmState::Approaching && s < c) ==> st1.dwell_time_s == 0
                && st1.fsm_state == FsmState::Idle
            &&& st.fsm_state == FsmState::Idle ==> st1.dwell_time_s == st.dwell_time_s
        }),
{
}

/// One-time announcement: once `should_announce` fired for a stop, it never
/// fires again for that stop, whatever updates follow.
pub proof fn lemma_announce_once(st: StopState, s: int, c: int, s2: int, p2: int, c2: int, prob: Prob8, s3: int, c3: int)
    requires
        spec_announces(st, s, c),
    ensures
        ({
            let st1 = StopState { last_announced_stop: st.index, ..st };
            let st2 = spec_update(st1, s2, p2, c2, prob).0;
            &&& !spec_announces(st1, s3, c3)
            &&& !spec_announces(st2, s3, c3)
        }),
{
}

/// An announced stop has left the approach: it is at the stop, departed, or
/// the trip is complete.
pub open spec fn spec_arrival_consistent(st: StopState) -> bool {
    st.announced ==> (st.fsm_state == FsmState::AtStop || st.fsm_state == FsmState::Departed
        || st.fsm_state == FsmState::TripComplete)
}

/// One arrival per stop and trip: updates keep an announced stop past its
/// approach, so an announced stop never arrives again.
pub proof fn lemma_arrival_once(st: StopState, s: int, p: int, c: int, prob: Prob8)
    requires
        spec_arrival_consistent(st),
    ensures
        spec_arrival_consistent(spec_update(st, s, p, c, prob).0),
        st.announced ==> spec_update(st, s, p, c, prob).1 != StopEvent::Arrived,
{
}

/// A run of updates from `st`: each input is `(s_cm, stop_progress,
/// corridor_start_cm, probability)`. Gives the final state and the number of
/// arrivals among the events.
pub open spec fn spec_update_run(st: StopState, inputs: Seq<(int, int, int, Prob8)>) -> (StopState, nat)
    decreases inputs.len(),
{
    if inputs.len() == 0 {
        (st, 0)
    } else {
        let (s, p, c, prob) = inputs[0];
        let (st1, ev) = spec_update(st, s, p, c, prob);
        let (fin, n) = spec_update_run(st1, inputs.drop_first());
        (fin, n + if ev == StopEvent::Arrived { 1nat } else { 0nat })
    }
}

/// One arrival per stop and trip, over any run of updates from any state: at
/// most one update reports `Arrived`, an announced stop stays announced, and
/// the stop ends announced exactly when it was before or arrived during the
/// run. From a consistent state (a fresh one included) an already announced
/// stop never arrives, and the run stays consistent.
pub proof fn lemma_update_run_arrives_at_most_once(st: StopState, inputs: Seq<(int, int, int, Prob8)>)
    ensures
        spec_update_run(st, inputs).1 <= 1,
        st.announced ==> spec_update_run(st, inputs).0.announced,
        spec_update_run(st, inputs).0.announced == (st.announced || spec_update_run(st, inputs).1 == 1),
        spec_arrival_consistent(st) && st.announced ==> spec_update_run(st, inputs).1 == 0,
        spec_arrival_consistent(st) ==> spec_arrival_consistent(spec_update_run(st, inputs).0),
    decreases inputs.len(),
{
    if inputs.len() > 0 {
        let (s, p, c, prob) = inputs[0];
        lemma_update_preserves_identity(st, s, p, c, prob);
        lemma_events_guarded(st, s, p, c, prob);
        if spec_arrival_consistent(st) {
            lemma_arrival_once(st, s, p, c, prob);
        }
        let st1 = spec_update(st, s, p, c, prob).0;
        lemma_update_run_arrives_at_most_once(st1, inputs.drop_first());
    }
}

} // verus!
