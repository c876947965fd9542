//! Arrival detection over the whole route: off-route bookkeeping, the corridor
//! filter, the per-stop state machines and the events they emit.

use vstd::prelude::*;
use crate::corridor;
use crate::corridor::active_stops;
use crate::model;
use crate::model::{
    ArrivalEvent, ArrivalEventType, DepartureEvent, DistCm, HeadCdeg, PositionSignals, Prob8,
    RouteData, SpeedCms, Stop, TimestampMs,
};
use crate::probability;
use crate::probability::{compute_arrival_probability, GpsStatus};
use crate::state_machine;
use crate::state_machine::{StopEvent, StopState};

verus! {

/// Forward jump (cm) on re-entering the route after a detour above which the
/// stops behind the new position are skipped.
pub const DETOUR_JUMP_THRESHOLD_CM: i32 = 10000;

/// Processing status of a localized GPS record.
#[derive(Debug, Clone, Copy, PartialEq, Eq, Structural)]
pub enum RecordStatus {
    Valid,
    DrOutage,
    OffRoute,
    SuspectOffRoute,
}

impl RecordStatus {
    /// Name used in trace output.
    pub open spec fn spec_name(self) -> Seq<char> {
        match self {
            RecordStatus::Valid => "valid"@,
            RecordStatus::DrOutage => "dr_outage"@,
            RecordStatus::OffRoute => "off_route"@,
            RecordStatus::SuspectOffRoute => "suspect_off_route"@,
        }
    }

    /// GPS status handed to the probability model: a suspected off-route fix
    /// still counts as valid GPS.
    pub open spec fn spec_gps_status(self) -> GpsStatus {
        match self {
            RecordStatus::Valid => GpsStatus::Valid,
            RecordStatus::DrOutage => GpsStatus::DrOutage,
            RecordStatus::OffRoute => GpsStatus::OffRoute,
            RecordStatus::SuspectOffRoute => GpsStatus::Valid,
        }
    }

    pub fn as_str(&self) -> (s: &'static str)
        ensures
            s@ == self.spec_name(),
    {
        match self {
            RecordStatus::Valid => "valid",
            RecordStatus::DrOutage => "dr_outage",
            RecordStatus::OffRoute => "off_route",
            RecordStatus::SuspectOffRoute => "suspect_off_route",
        }
    }

    pub fn gps_status(&self) -> (g: GpsStatus)
        ensures
            g == self.spec_gps_status(),
    {
        match self {
            RecordStatus::Valid => GpsStatus::Valid,
            RecordStatus::DrOutage => GpsStatus::DrOutage,
            RecordStatus::OffRoute => GpsStatus::OffRoute,
            RecordStatus::SuspectOffRoute => GpsStatus::Valid,
        }
    }
}

/// Diagnostics of one localization step, for trace output.
#[derive(Debug, Clone)]
pub struct GpsDiagnostics {
    pub segment_idx: Option<u16>,
    pub heading_met: bool,
    pub divergence_cm: i32,
    /// HDOP times ten, when the receiver reported it.
    pub hdop_x10: Option<u16>,
    pub accuracy_cm: Option<i32>,
    pub num_sats: Option<u8>,
    pub fix_type: Option<String>,
    pub variance_cm2: i32,
}

impl GpsDiagnostics {
    /// Empty diagnostics: nothing known, heading not checked, zero divergence and variance.
    pub fn new() -> (r: Self)
        ensures
            r.segment_idx is None,
            !r.heading_met,
            r.divergence_cm == 0,
            r.hdop_x10 is None,
            r.accuracy_cm is None,
            r.num_sats is None,
            r.fix_type is None,
            r.variance_cm2 == 0,
    {
        GpsDiagnostics {
            segment_idx: None,
            heading_met: false,
            divergence_cm: 0,
            hdop_x10: None,
            accuracy_cm: None,
            num_sats: None,
            fix_type: None,
            variance_cm2: 0,
        }
    }

    pub fn with_segment_idx(self, idx: Option<u16>) -> (r: Self)
        ensures
            r == (GpsDiagnostics { segment_idx: idx, ..self }),
    {
        GpsDiagnostics { segment_idx: idx, ..self }
    }

    pub fn with_heading_met(self, met: bool) -> (r: Self)
        ensures
            r == (GpsDiagnostics { heading_met: met, ..self }),
    {
        GpsDiagnostics { heading_met: met, ..self }
    }

    pub fn with_divergence_cm(self, div: i32) -> (r: Self)
        ensures
            r == (GpsDiagnostics { divergence_cm: div, ..self }),
    {
        GpsDiagnostics { divergence_cm: div, ..self }
    }

    /// Sets the HDOP, given times ten.
    pub fn with_hdop(self, hdop_x10: Option<u16>) -> (r: Self)
        ensures
            r == (GpsDiagnostics { hdop_x10, ..self }),
    {
        GpsDiagnostics { hdop_x10, ..self }
    }

    pub fn with_accuracy_cm(self, accuracy_cm: Option<i32>) -> (r: Self)
        ensures
            r == (GpsDiagnostics { accuracy_cm, ..self }),
    {
        GpsDiagnostics { accuracy_cm, ..self }
    }

    pub fn with_num_sats(self, sats: Option<u8>) -> (r: Self)
        ensures
            r == (GpsDiagnostics { num_sats: sats, ..self }),
    {
        GpsDiagnostics { num_sats: sats, ..self }
    }

    pub fn with_fix_type(self, fix: Option<String>) -> (r: Self)
        ensures
            r == (GpsDiagnostics { fix_type: fix, ..self }),
    {
        GpsDiagnostics { fix_type: fix, ..self }
    }

    pub fn with_variance_cm2(self, var: i32) -> (r: Self)
        ensures
            r == (GpsDiagnostics { variance_cm2: var, ..self }),
    {
        GpsDiagnostics { variance_cm2: var, ..self }
    }
}

/// A localized GPS record, as handed from localization to arrival detection.
#[derive(Debug, Clone)]
pub struct GpsRecord {
    /// GPS timestamp.
    pub time: u64,
    /// Route progress (cm).
    pub s_cm: DistCm,
    /// Speed (cm/s).
    pub v_cms: SpeedCms,
    /// Heading, when known.
    pub heading_cdeg: Option<HeadCdeg>,
    pub status: RecordStatus,
    /// Matched segment (none off route).
    pub segment_idx: Option<u16>,
    /// Whether the heading constraint passed.
    pub heading_constraint_met: bool,
    /// Raw GPS projection minus filtered position (cm).
    pub divergence_cm: i32,
    /// HDOP times ten, when known.
    pub hdop_x10: Option<u16>,
    pub accuracy_cm: Option<DistCm>,
    pub num_sats: Option<u8>,
    pub fix_type: Option<String>,
    /// Filter variance (cm²).
    pub variance_cm2: i32,
}

impl GpsRecord {
    /// A record without diagnostics.
    pub fn new(
        time: u64,
        s_cm: DistCm,
        v_cms: SpeedCms,
        heading_cdeg: Option<HeadCdeg>,
        status: RecordStatus,
    ) -> (r: Self)
        ensures
            r.time == time,
            r.s_cm == s_cm,
            r.v_cms == v_cms,
            r.heading_cdeg == heading_cdeg,
            r.status == status,
            r.segment_idx is None,
            !r.heading_constraint_met,
            r.divergence_cm == 0,
            r.hdop_x10 is None,
            r.accuracy_cm is None,
            r.num_sats is None,
            r.fix_type is None,
            r.variance_cm2 == 0,
    {
        GpsRecord {
            time,
            s_cm,
            v_cms,
            heading_cdeg,
            status,
            segment_idx: None,
            heading_constraint_met: false,
            divergence_cm: 0,
            hdop_x10: None,
            accuracy_cm: None,
            num_sats: None,
            fix_type: None,
            variance_cm2: 0,
        }
    }

    /// Copies the diagnostics into the record.
    pub fn with_diagnostics(self, diag: GpsDiagnostics) -> (r: Self)
        ensures
            r == (GpsRecord {
                segment_idx: diag.segment_idx,
                heading_constraint_met: diag.heading_met,
                divergence_cm: diag.divergence_cm,
                hdop_x10: diag.hdop_x10,
                accuracy_cm: diag.accuracy_cm,
                num_sats: diag.num_sats,
                fix_type: diag.fix_type,
                variance_cm2: diag.variance_cm2,
                ..self
            }),
    {
        GpsRecord {
            segment_idx: diag.segment_idx,
            heading_constraint_met: diag.heading_met,
            divergence_cm: diag.divergence_cm,
            hdop_x10: diag.hdop_x10,
            accuracy_cm: diag.accuracy_cm,
            num_sats: diag.num_sats,
            fix_type: diag.fix_type,
            variance_cm2: diag.variance_cm2,
            ..self
        }
    }
}

/// Arrival and departure events collected over a run.
pub struct PipelineResult {
    pub arrivals: Vec<ArrivalEvent>,
    pub departures: Vec<DepartureEvent>,
}

impl PipelineResult {
    pub fn new() -> (r: Self)
        ensures
            r.arrivals@.len() == 0,
            r.departures@.len() == 0,
    {
        PipelineResult { arrivals: Vec::new(), departures: Vec::new() }
    }
}

/// Off-route flag, last off-route position, and whether the stops behind the
/// record are to be skipped, after a record with the given status.
///
/// An off-route record sets the flag and remembers its position. A valid
/// record clears both; if it ends an off-route episode with a forward jump of
/// more than `DETOUR_JUMP_THRESHOLD_CM`, the stops behind it are skipped.
/// Other records leave the off-route bookkeeping as it is.
pub open spec fn spec_status_after(off_route: bool, last: Option<DistCm>, status: RecordStatus, s_cm: int) -> (
    bool,
    Option<DistCm>,
    bool,
) {
    match status {
        RecordStatus::OffRoute => (true, Some(s_cm as DistCm), false),
        RecordStatus::Valid => (
            false,
            None,
            off_route && match last {
                Some(l) => s_cm > l + DETOUR_JUMP_THRESHOLD_CM,
                None => false,
            },
        ),
        _ => (off_route, last, false),
    }
}

/// States after marking, when `mark` holds, every stop behind `s_cm` as skipped.
pub open spec fn spec_marked(states: Seq<StopState>, stops: Seq<Stop>, mark: bool, s_cm: int) -> Seq<StopState> {
    Seq::new(
        states.len(),
        |i: int|
            if mark && stops[i].progress_cm < s_cm {
                StopState { skip_on_reentry: true, ..states[i] }
            } else {
                states[i]
            },
    )
}

/// Skip flags of the states.
pub open spec fn spec_skip_flags(states: Seq<StopState>) -> Seq<bool> {
    Seq::new(states.len(), |i: int| states[i].skip_on_reentry)
}

/// Arrival probability of a stop for a record (both position signals are the
/// record's route position).
pub open spec fn spec_stop_probability(rec: GpsRecord, stop: Stop, st: StopState, g: Seq<u8>, l: Seq<u8>) -> Prob8 {
    probability::spec_combine(
        probability::spec_features(
            PositionSignals { z_gps_cm: rec.s_cm, s_cm: rec.s_cm },
            rec.v_cms as int,
            stop,
            st.dwell_time_s as int,
            rec.status.spec_gps_status(),
            g,
            l,
        ),
        probability::spec_standard_weights(),
    ) as Prob8
}

/// Updating the first `k` active stops in order: the states, the arrival and
/// departure events emitted, and the stops that arrived.
pub open spec fn spec_run(
    states: Seq<StopState>,
    act: Seq<usize>,
    k: int,
    rec: GpsRecord,
    stops: Seq<Stop>,
    g: Seq<u8>,
    l: Seq<u8>,
) -> (Seq<StopState>, Seq<ArrivalEvent>, Seq<DepartureEvent>, Seq<u8>)
    decreases k,
{
    if k <= 0 {
        (states, Seq::empty(), Seq::empty(), Seq::empty())
    } else {
        let (st, arr, dep, ar) = spec_run(states, act, k - 1, rec, stops, g, l);
        let idx = act[k - 1] as int;
        let stop = stops[idx];
        let p = spec_stop_probability(rec, stop, st[idx], g, l);
        let (ns, ev) = state_machine::spec_update(
            st[idx],
            rec.s_cm as int,
            stop.progress_cm as int,
            stop.corridor_start_cm as int,
            p,
        );
        let st2 = st.update(idx, ns);
        match ev {
            StopEvent::Arrived => (
                st2,
                arr.push(
                    ArrivalEvent {
                        time: rec.time,
                        stop_idx: idx as u8,
                        s_cm: rec.s_cm,
                        v_cms: rec.v_cms,
                        probability: p,
                        event_type: ArrivalEventType::Arrival,
                    },
                ),
                dep,
                ar.push(idx as u8),
            ),
            StopEvent::Departed => (
                st2,
                arr,
                dep.push(
                    DepartureEvent { time: rec.time, stop_idx: idx as u8, s_cm: rec.s_cm, v_cms: rec.v_cms },
                ),
                ar,
            ),
            StopEvent::NoEvent => (st2, arr, dep, ar),
        }
    }
}

/// Inputs on which updating stop `idx` does not overflow: its distance is
/// representable and its state machine update fits.
pub open spec fn spec_stop_ok(
    states: Seq<StopState>,
    idx: int,
    rec: GpsRecord,
    stops: Seq<Stop>,
    g: Seq<u8>,
    l: Seq<u8>,
) -> bool {
    &&& model::diff_fits(rec.s_cm as int, stops[idx].progress_cm as int)
    &&& state_machine::update_inputs_ok(
        states[idx],
        rec.s_cm as int,
        stops[idx].progress_cm as int,
        stops[idx].corridor_start_cm as int,
        spec_stop_probability(rec, stops[idx], states[idx], g, l),
    )
}

/// Inputs on which updating the active stops does not overflow.
pub open spec fn spec_run_ok(
    states: Seq<StopState>,
    act: Seq<usize>,
    rec: GpsRecord,
    stops: Seq<Stop>,
    g: Seq<u8>,
    l: Seq<u8>,
) -> bool {
    forall|j: int| 0 <= j < act.len() ==> #[trigger] spec_stop_ok(states, act[j] as int, rec, stops, g, l)
}

/// Trace view of one stop.
#[derive(Debug, Clone, Copy, PartialEq, Eq, Structural)]
pub struct StopTraceState {
    pub stop_idx: u8,
    /// Raw GPS projection minus the stop position (cm).
    pub gps_distance_cm: DistCm,
    /// Filtered position minus the stop position (cm).
    pub progress_distance_cm: DistCm,
    pub fsm_state: model::FsmState,
    pub dwell_time_s: u16,
    pub probability: Prob8,
    /// Probability before the latest update.
    pub previous_probability: Prob8,
    pub features: probability::FeatureScores,
    pub announced: bool,
    pub skip_on_reentry: bool,
    pub previous_distance_cm: Option<DistCm>,
    /// Whether the stop arrived on the latest record.
    pub just_arrived: bool,
}

/// Stops `i < k` that are announced or skipped and not active, in increasing order.
pub open spec fn spec_extra_upto(states: Seq<StopState>, act: Seq<usize>, k: int) -> Seq<usize>
    decreases k,
{
    if k <= 0 {
        Seq::empty()
    } else {
        let prev = spec_extra_upto(states, act, k - 1);
        let st = states[k - 1];
        if (st.announced || st.skip_on_reentry) && !act.contains((k - 1) as usize) {
            prev.push((k - 1) as usize)
        } else {
            prev
        }
    }
}

/// Inputs on which the trace view of `stop` fits: the distances from the raw
/// and filtered positions to the stop are representable.
pub open spec fn trace_inputs_ok(rec: GpsRecord, stop: Stop) -> bool {
    &&& model::diff_fits(rec.s_cm as int, stop.progress_cm as int)
    &&& model::fits_i32(rec.s_cm + rec.divergence_cm)
    &&& model::fits_i32(rec.s_cm + rec.divergence_cm - stop.progress_cm)
}

/// First stop index `>= i` (and before the last stop) whose position lies
/// beyond `end_cm`.
pub open spec fn spec_next_stop_from(stops: Seq<Stop>, end_cm: int, i: int) -> Option<int>
    decreases stops.len() - i,
{
    if i < 0 || i >= stops.len() - 1 {
        None
    } else if stops[i].progress_cm > end_cm {
        Some(i)
    } else {
        spec_next_stop_from(stops, end_cm, i + 1)
    }
}

/// Probability of the first trace entry (from position `j`) for stop `idx`, or 0.
pub open spec fn spec_trace_probability(ts: Seq<StopTraceState>, idx: u8, j: int) -> Prob8
    decreases ts.len() - j,
{
    if j < 0 || j >= ts.len() {
        0
    } else if ts[j].stop_idx == idx {
        ts[j].probability
    } else {
        spec_trace_probability(ts, idx, j + 1)
    }
}

/// Corridor summary of a traced record.
#[derive(Debug, Clone, Copy)]
pub struct TraceSummary {
    /// Corridor of the first active stop.
    pub corridor_start_cm: Option<DistCm>,
    pub corridor_end_cm: Option<DistCm>,
    /// First stop beyond that corridor (not the last stop), with its traced probability.
    pub next_stop: Option<(u8, Prob8)>,
    /// Whether the record is off route (exactly; a suspicion does not count).
    pub off_route: bool,
    /// Off-route position kept by detection.
    pub off_route_last_s_cm: Option<DistCm>,
}

fn contains_index(v: &Vec<usize>, x: usize) -> (b: bool)
    ensures
        b == v@.contains(x),
{
    let mut i: usize = 0;
    while i < v.len()
        invariant
            i <= v@.len(),
            forall|j: int| 0 <= j < i ==> v@[j] != x,
        decreases v@.len() - i,
    {
        if v[i] == x {
            assert(v@[i as int] == x);
            return true;
        }
        i = i + 1;
    }
    false
}

fn contains_stop(v: &Vec<u8>, x: u8) -> (b: bool)
    ensures
        b == v@.contains(x),
{
    let mut i: usize = 0;
    while i < v.len()
        invariant
            i <= v@.len(),
            forall|j: int| 0 <= j < i ==> v@[j] != x,
        decreases v@.len() - i,
    {
        if v[i] == x {
            assert(v@[i as int] == x);
            return true;
        }
        i = i + 1;
    }
    false
}

/// Whether the trace distances of `stop` are representable (see `trace_inputs_ok`).
fn stop_trace_fits(record: &GpsRecord, stop: &Stop) -> (b: bool)
    ensures
        b == trace_inputs_ok(*record, *stop),
{
    let s = record.s_cm as i64;
    let z = s + record.divergence_cm as i64;
    let p = stop.progress_cm as i64;
    let fits = |x: i64| -> (r: bool)
        ensures
            r == model::fits_i32(x as int),
        { i32::MIN as i64 <= x && x <= i32::MAX as i64 };
    -(i32::MAX as i64) <= s - p && s - p <= i32::MAX as i64 && fits(z) && fits(z - p)
}

/// The extra traced stops below `k` are a prefix of those below `k2 >= k`.
proof fn lemma_extra_prefix(states: Seq<StopState>, act: Seq<usize>, k: int, k2: int)
    requires
        0 <= k <= k2,
    ensures
        spec_extra_upto(states, act, k).len() <= spec_extra_upto(states, act, k2).len(),
        forall|q: int|
            0 <= q < spec_extra_upto(states, act, k).len() ==> #[trigger] spec_extra_upto(states, act, k)[q]
                == spec_extra_upto(states, act, k2)[q],
    decreases k2 - k,
{
    if k < k2 {
        lemma_extra_prefix(states, act, k, k2 - 1);
    }
}

/// Arrival detection state over a route.
pub struct DetectionState {
    /// One state machine per stop.
    pub stop_states: Vec<StopState>,
    /// Timestamp of the latest record.
    pub current_timestamp: TimestampMs,
    /// Stops that arrived on the latest record, in order.
    pub arrived_this_frame: Vec<u8>,
    /// Stops active on the latest record, in increasing order.
    pub active_indices: Vec<usize>,
    /// Whether the bus is off route.
    pub off_route: bool,
    /// Position of the latest off-route record, while off route.
    pub off_route_last_s_cm: Option<DistCm>,
    /// Per-stop probability before the latest record's updates.
    pub previous_probabilities: Vec<Prob8>,
}

impl DetectionState {
    /// The state belongs to `route`: one state machine and one probability
    /// snapshot per stop, stop indices fit a byte, and the active list names stops.
    pub open spec fn wf(&self, route: &RouteData) -> bool {
        &&& self.stop_states@.len() == route.stops@.len()
        &&& self.previous_probabilities@.len() == route.stops@.len()
        &&& route.stops@.len() <= 256
        &&& forall|j: int|
            0 <= j < self.active_indices@.len() ==> #[trigger] self.active_indices@[j] < route.stops@.len()
    }

    /// States after the status bookkeeping of `rec`.
    pub open spec fn spec_marked_states(&self, rec: GpsRecord, stops: Seq<Stop>) -> Seq<StopState> {
        let mark = spec_status_after(self.off_route, self.off_route_last_s_cm, rec.status, rec.s_cm as int).2;
        spec_marked(self.stop_states@, stops, mark, rec.s_cm as int)
    }

    /// Stops active for `rec`: in corridor and not skipped.
    pub open spec fn spec_active_for(&self, rec: GpsRecord, stops: Seq<Stop>) -> Seq<usize> {
        corridor::spec_active(
            stops,
            Some(spec_skip_flags(self.spec_marked_states(rec, stops))),
            rec.s_cm as int,
        )
    }

    /// Inputs on which `process_gps_record` does not overflow.
    pub open spec fn record_ok(&self, rec: GpsRecord, route: &RouteData, g: Seq<u8>, l: Seq<u8>) -> bool {
        spec_run_ok(
            self.spec_marked_states(rec, route.stops@),
            self.spec_active_for(rec, route.stops@),
            rec,
            route.stops@,
            g,
            l,
        )
    }

    /// Fresh detection state for `route`: every stop idle, on route.
    pub fn new(route_data: &RouteData) -> (r: Self)
        requires
            route_data.stops@.len() <= 256,
        ensures
            r.wf(route_data),
            forall|i: int|
                0 <= i < r.stop_states@.len() ==> #[trigger] r.stop_states@[i] == (StopState {
                    index: i as u8,
                    fsm_state: model::FsmState::Idle,
                    dwell_time_s: 0,
                    last_probability: 0,
                    last_announced_stop: u8::MAX,
                    announced: false,
                    skip_on_reentry: false,
                    previous_distance_cm: None,
                }),
            forall|i: int| 0 <= i < r.previous_probabilities@.len() ==> #[trigger] r.previous_probabilities@[i] == 0,
            r.current_timestamp == 0,
            r.arrived_this_frame@.len() == 0,
            r.active_indices@.len() == 0,
            !r.off_route,
            r.off_route_last_s_cm is None,
    {
        let n = route_data.stops.len();
        let mut stop_states: Vec<StopState> = Vec::new();
        let mut previous: Vec<Prob8> = Vec::new();
        let mut i: usize = 0;
        while i < n
            invariant
                n == route_data.stops@.len(),
                n <= 256,
                i <= n,
                stop_states@.len() == i,
                previous@.len() == i,
                forall|j: int|
                    0 <= j < i ==> #[trigger] stop_states@[j] == (StopState {
                        index: j as u8,
                        fsm_state: model::FsmState::Idle,
                        dwell_time_s: 0,
                        last_probability: 0,
                        last_announced_stop: u8::MAX,
                        announced: false,
                        skip_on_reentry: false,
                        previous_distance_cm: None,
                    }),
                forall|j: int| 0 <= j < i ==> #[trigger] previous@[j] == 0,
            decreases n - i,
        {
            stop_states.push(StopState::new(i as u8));
            previous.push(0);
            i = i + 1;
        }
        DetectionState {
            stop_states,
            current_timestamp: 0,
            arrived_this_frame: Vec::new(),
            active_indices: Vec::new(),
            off_route: false,
            off_route_last_s_cm: None,
            previous_probabilities: previous,
        }
    }

    /// Advances the timestamp by one.
    pub fn tick(&mut self)
        requires
            old(self).current_timestamp < u64::MAX,
        ensures
            final(self).current_timestamp == old(self).current_timestamp + 1,
            final(self).stop_states@ == old(self).stop_states@,
            final(self).arrived_this_frame@ == old(self).arrived_this_frame@,
            final(self).active_indices@ == old(self).active_indices@,
            final(self).off_route == old(self).off_route,
            final(self).off_route_last_s_cm == old(self).off_route_last_s_cm,
            final(self).previous_probabilities@ == old(self).previous_probabilities@,
    {
        self.current_timestamp = self.current_timestamp + 1;
    }

    /// Whether `process_gps_record` is defined on `record` (see `record_ok`):
    /// every stop it would update has a representable distance and room in
    /// its dwell counter.
    pub fn record_in_range(
        &self,
        record: &GpsRecord,
        route_data: &RouteData,
        gaussian_lut: &[u8; 256],
        logistic_lut: &[u8; 128],
    ) -> (b: bool)
        requires
            self.wf(route_data),
        ensures
            b == self.record_ok(*record, route_data, gaussian_lut@, logistic_lut@),
    {
        let stops = route_data.stops();
        let n = stops.len();
        let s_cm = record.s_cm;
        let ghost g = gaussian_lut@;
        let ghost l = logistic_lut@;
        let mark = match record.status {
            RecordStatus::Valid => self.off_route && match self.off_route_last_s_cm {
                Some(last) => (s_cm as i64) > (last as i64) + (DETOUR_JUMP_THRESHOLD_CM as i64),
                None => false,
            },
            _ => false,
        };
        let ghost marked = self.spec_marked_states(*record, stops@);
        let mut states: Vec<StopState> = Vec::new();
        let mut flags: Vec<bool> = Vec::new();
        let mut i: usize = 0;
        while i < n
            invariant
                n == stops@.len(),
                n == self.stop_states@.len(),
                i <= n,
                s_cm == record.s_cm,
                marked == spec_marked(self.stop_states@, stops@, mark, s_cm as int),
                states@.len() == i,
                flags@.len() == i,
                forall|j: int| 0 <= j < i ==> #[trigger] states@[j] == marked[j],
                forall|j: int| 0 <= j < i ==> #[trigger] flags@[j] == marked[j].skip_on_reentry,
            decreases n - i,
        {
            let mut st = self.stop_states[i];
            if mark && stops[i].progress_cm < s_cm {
                st.skip_on_reentry = true;
            }
            flags.push(st.skip_on_reentry);
            states.push(st);
            i = i + 1;
        }
        assert(states@ == marked);
        assert(flags@ == spec_skip_flags(marked));
        let active = active_stops(s_cm, stops, flags.as_slice());
        let ghost act = active@;
        proof {
            corridor::lemma_active_characterized(stops@, Some(flags@), s_cm as int, n as int);
        }
        let mut k: usize = 0;
        while k < active.len()
            invariant
                n == stops@.len(),
                s_cm == record.s_cm,
                act == active@,
                k <= act.len(),
                forall|j: int| 0 <= j < act.len() ==> #[trigger] act[j] < n,
                stops@ == route_data.stops@,
                marked == self.spec_marked_states(*record, stops@),
                act == self.spec_active_for(*record, stops@),
                states@ == marked,
                states@.len() == n,
                g == gaussian_lut@,
                l == logistic_lut@,
                forall|j: int| 0 <= j < k ==> #[trigger] spec_stop_ok(marked, act[j] as int, *record, stops@, g, l),
            decreases act.len() - k,
        {
            let idx = active[k];
            let stop = stops[idx];
            let st = states[idx];
            let diff = (s_cm as i64) - (stop.progress_cm as i64);
            if diff < -(i32::MAX as i64) || diff > (i32::MAX as i64) {
                assert(!spec_stop_ok(marked, act[k as int] as int, *record, stops@, g, l));
                return false;
            }
            let p = compute_arrival_probability(
                PositionSignals::new(s_cm, s_cm),
                record.v_cms,
                &stop,
                st.dwell_time_s,
                record.status.gps_status(),
                gaussian_lut,
                logistic_lut,
            );
            let d = model::abs_diff_i32(s_cm, stop.progress_cm);
            let increments = match st.fsm_state {
                model::FsmState::Approaching => s_cm >= stop.corridor_start_cm,
                model::FsmState::Arriving => true,
                _ => false,
            };
            if increments && st.dwell_time_s == u16::MAX {
                assert(!spec_stop_ok(marked, act[k as int] as int, *record, stops@, g, l));
                return false;
            }
            assert(spec_stop_ok(marked, act[k as int] as int, *record, stops@, g, l));
            k = k + 1;
        }
        true
    }

    /// Processes one record.
    ///
    /// Snapshots every stop's probability, updates the off-route bookkeeping
    /// (see `spec_status_after`, skipping the stops behind a detour re-entry
    /// jump), finds the active stops (corridor contains the position, not
    /// skipped), and updates each active stop's state machine in increasing
    /// order with its arrival probability; each arrival and departure is
    /// appended to `result`.
    pub fn process_gps_record(
        &mut self,
        record: &GpsRecord,
        route_data: &RouteData,
        result: &mut PipelineResult,
        gaussian_lut: &[u8; 256],
        logistic_lut: &[u8; 128],
    )
        requires
            old(self).wf(route_data),
            old(self).record_ok(*record, route_data, gaussian_lut@, logistic_lut@),
        ensures
            final(self).wf(route_data),
            ({
                let stops = route_data.stops@;
                let (off, last, _mark) = spec_status_after(
                    old(self).off_route,
                    old(self).off_route_last_s_cm,
                    record.status,
                    record.s_cm as int,
                );
                let marked = old(self).spec_marked_states(*record, stops);
                let act = old(self).spec_active_for(*record, stops);
                let (st, arr, dep, ar) = spec_run(
                    marked,
                    act,
                    act.len() as int,
                    *record,
                    stops,
                    gaussian_lut@,
                    logistic_lut@,
                );
                &&& final(self).current_timestamp == record.time
                &&& final(self).off_route == off
                &&& final(self).off_route_last_s_cm == last
                &&& final(self).active_indices@ == act
                &&& final(self).stop_states@ == st
                &&& final(self).arrived_this_frame@ == ar
                &&& final(self).previous_probabilities@ == Seq::new(
                    stops.len(),
                    |i: int| old(self).stop_states@[i].last_probability,
                )
                &&& final(result).arrivals@ == old(result).arrivals@ + arr
                &&& final(result).departures@ == old(result).departures@ + dep
            }),
            ({
                let step = spec_detect_step(
                    old(self).stop_states@,
                    old(self).off_route,
                    old(self).off_route_last_s_cm,
                    *record,
                    route_data.stops@,
                    gaussian_lut@,
                    logistic_lut@,
                );
                &&& final(self).stop_states@ == step.0
                &&& final(self).off_route == step.1
                &&& final(self).off_route_last_s_cm == step.2
                &&& final(result).arrivals@ == old(result).arrivals@ + step.3
                &&& final(result).departures@ == old(result).departures@ + step.4
            }),
    {
        let stops = route_data.stops();
        let n = stops.len();
        let s_cm = record.s_cm;
        let ghost g = gaussian_lut@;
        let ghost l = logistic_lut@;

        // Probability snapshot before any update.
        let mut previous: Vec<Prob8> = Vec::new();
        let mut i: usize = 0;
        while i < n
            invariant
                n == stops@.len(),
                n == self.stop_states@.len(),
                i <= n,
                previous@.len() == i,
                forall|j: int| 0 <= j < i ==> #[trigger] previous@[j] == self.stop_states@[j].last_probability,
            decreases n - i,
        {
            previous.push(self.stop_states[i].last_probability);
            i = i + 1;
        }
        assert(previous@ == Seq::new(n as nat, |j: int| self.stop_states@[j].last_probability));

        // Off-route bookkeeping.
        let mut off_route = self.off_route;
        let mut off_route_last = self.off_route_last_s_cm;
        let mut mark = false;
        match record.status {
            RecordStatus::OffRoute => {
                off_route = true;
                off_route_last = Some(s_cm);
            },
            RecordStatus::Valid => {
                let just_reentered = self.off_route;
                let large_forward_jump = match self.off_route_last_s_cm {
                    Some(l) => (s_cm as i64) > (l as i64) + (DETOUR_JUMP_THRESHOLD_CM as i64),
                    None => false,
                };
                off_route = false;
                off_route_last = None;
                mark = just_reentered && large_forward_jump;
            },
            _ => {},
        }

        // Skip marking and skip flags.
        let ghost marked = self.spec_marked_states(*record, stops@);
        let mut states: Vec<StopState> = Vec::new();
        let mut flags: Vec<bool> = Vec::new();
        i = 0;
        while i < n
            invariant
                n == stops@.len(),
                n == self.stop_states@.len(),
                i <= n,
                s_cm == record.s_cm,
                marked == spec_marked(self.stop_states@, stops@, mark, s_cm as int),
                states@.len() == i,
                flags@.len() == i,
                forall|j: int| 0 <= j < i ==> #[trigger] states@[j] == marked[j],
                forall|j: int| 0 <= j < i ==> #[trigger] flags@[j] == marked[j].skip_on_reentry,
            decreases n - i,
        {
            let mut st = self.stop_states[i];
            if mark && stops[i].progress_cm < s_cm {
                st.skip_on_reentry = true;
            }
            flags.push(st.skip_on_reentry);
            states.push(st);
            i = i + 1;
        }
        assert(states@ == marked);
        assert(flags@ == spec_skip_flags(marked));

        let active = active_stops(s_cm, stops, flags.as_slice());
        let ghost act = active@;
        proof {
            corridor::lemma_active_characterized(stops@, Some(flags@), s_cm as int, n as int);
        }

        // Update each active stop in order.
        let mut arrived: Vec<u8> = Vec::new();
        let ghost arr0 = result.arrivals@;
        let ghost dep0 = result.departures@;
        let mut k: usize = 0;
        while k < active.len()
            invariant
                n == stops@.len(),
                n <= 256,
                s_cm == record.s_cm,
                act == active@,
                k <= act.len(),
                forall|j: int| 0 <= j < act.len() ==> #[trigger] act[j] < n,
                forall|j1: int, j2: int| 0 <= j1 < j2 < act.len() ==> #[trigger] act[j1] < #[trigger] act[j2],
                spec_run_ok(marked, act, *record, stops@, g, l),
                g == gaussian_lut@,
                l == logistic_lut@,
                states@.len() == n,
                forall|i2: int|
                    0 <= i2 < n && (forall|j: int| 0 <= j < k ==> act[j] != i2) ==> #[trigger] states@[i2]
                        == marked[i2],
                ({
                    let r = spec_run(marked, act, k as int, *record, stops@, g, l);
                    &&& states@ == r.0
                    &&& result.arrivals@ == arr0 + r.1
                    &&& result.departures@ == dep0 + r.2
                    &&& arrived@ == r.3
                }),
            decreases act.len() - k,
        {
            let idx = active[k];
            let stop = stops[idx];
            let st = states[idx];
            assert(forall|j: int| 0 <= j < k ==> act[j] != idx) by {
                assert forall|j: int| 0 <= j < k implies act[j] != idx by {
                    assert(act[j] < act[k as int]);
                }
            }
            assert(st == marked[idx as int]);
            assert(act[k as int] == idx);
            assert(spec_stop_ok(marked, act[k as int] as int, *record, stops@, g, l));
            let signals = PositionSignals::new(s_cm, s_cm);
            assert(stop == stops@[idx as int]);
            let p = compute_arrival_probability(
                signals,
                record.v_cms,
                &stop,
                st.dwell_time_s,
                record.status.gps_status(),
                gaussian_lut,
                logistic_lut,
            );
            assert(p == spec_stop_probability(*record, stop, st, g, l));
            let mut st2 = st;
            let ev = st2.update(s_cm, record.v_cms, stop.progress_cm, stop.corridor_start_cm, p);
            states.set(idx, st2);
            match ev {
                StopEvent::Arrived => {
                    arrived.push(idx as u8);
                    result.arrivals.push(
                        ArrivalEvent {
                            time: record.time,
                            stop_idx: idx as u8,
                            s_cm: record.s_cm,
                            v_cms: record.v_cms,
                            probability: p,
                            event_type: ArrivalEventType::Arrival,
                        },
                    );
                },
                StopEvent::Departed => {
                    result.departures.push(
                        DepartureEvent {
                            time: record.time,
                            stop_idx: idx as u8,
                            s_cm: record.s_cm,
                            v_cms: record.v_cms,
                        },
                    );
                },
                StopEvent::NoEvent => {},
            }
            k = k + 1;
            proof {
                let r0 = spec_run(marked, act, (k - 1) as int, *record, stops@, g, l);
                let r1 = spec_run(marked, act, k as int, *record, stops@, g, l);
                assert(r0.0[idx as int] == st);
                assert(states@ == r1.0);
                assert(result.arrivals@ == arr0 + r1.1);
                assert(result.departures@ == dep0 + r1.2);
                assert forall|i2: int|
                    0 <= i2 < n && (forall|j: int| 0 <= j < k ==> act[j] != i2) implies #[trigger] states@[i2]
                    == marked[i2] by {
                    assert(act[(k - 1) as int] != i2);
                }
            }
        }

        self.current_timestamp = record.time;
        self.off_route = off_route;
        self.off_route_last_s_cm = off_route_last;
        self.active_indices = active;
        self.stop_states = states;
        self.arrived_this_frame = arrived;
        self.previous_probabilities = previous;
    }

    /// Stops traced for the latest record: the active ones, then those
    /// announced or skipped, in increasing order.
    pub open spec fn spec_trace_indices(&self) -> Seq<usize> {
        self.active_indices@ + spec_extra_upto(
            self.stop_states@,
            self.active_indices@,
            self.stop_states@.len() as int,
        )
    }

    /// Trace view of stop `idx` for `rec`. Features are those on valid GPS
    /// with both position signals at the record's position; the probability is
    /// the standard one for the stop's position.
    pub open spec fn spec_trace_state(&self, rec: GpsRecord, stops: Seq<Stop>, idx: int, g: Seq<u8>, l: Seq<u8>) -> StopTraceState {
        let stop = stops[idx];
        let st = self.stop_states@[idx];
        let signals = PositionSignals { z_gps_cm: rec.s_cm, s_cm: rec.s_cm };
        let f = probability::spec_features(signals, rec.v_cms as int, stop, st.dwell_time_s as int, GpsStatus::Valid, g, l);
        let bare = Stop { progress_cm: stop.progress_cm, corridor_start_cm: 0, corridor_end_cm: 0 };
        StopTraceState {
            stop_idx: idx as u8,
            gps_distance_cm: (rec.s_cm + rec.divergence_cm - stop.progress_cm) as DistCm,
            progress_distance_cm: (rec.s_cm - stop.progress_cm) as DistCm,
            fsm_state: st.fsm_state,
            dwell_time_s: st.dwell_time_s,
            probability: probability::spec_combine(
                probability::spec_features(signals, rec.v_cms as int, bare, st.dwell_time_s as int, GpsStatus::Valid, g, l),
                probability::spec_standard_weights(),
            ) as Prob8,
            previous_probability: self.previous_probabilities@[idx],
            features: probability::FeatureScores { p1: f.0 as u8, p2: f.1 as u8, p3: f.2 as u8, p4: f.3 as u8 },
            announced: st.announced,
            skip_on_reentry: st.skip_on_reentry,
            previous_distance_cm: st.previous_distance_cm,
            just_arrived: self.arrived_this_frame@.contains(idx as u8),
        }
    }

    /// Whether `get_trace_info` is defined on `record`: the distances of every
    /// traced stop are representable.
    pub fn trace_in_range(&self, record: &GpsRecord, route_data: &RouteData) -> (b: bool)
        requires
            self.wf(route_data),
        ensures
            b == (forall|j: int|
                0 <= j < self.spec_trace_indices().len() ==> trace_inputs_ok(
                    *record,
                    route_data.stops@[#[trigger] self.spec_trace_indices()[j] as int],
                )),
    {
        let stops = route_data.stops();
        let n = self.stop_states.len();
        let ghost act = self.active_indices@;
        let ghost tr = self.spec_trace_indices();
        let mut j: usize = 0;
        while j < self.active_indices.len()
            invariant
                self.wf(route_data),
                act == self.active_indices@,
                tr == self.spec_trace_indices(),
                stops@ == route_data.stops@,
                j <= act.len(),
                forall|q: int| 0 <= q < j ==> trace_inputs_ok(*record, stops@[#[trigger] tr[q] as int]),
            decreases act.len() - j,
        {
            let stop = stops[self.active_indices[j]];
            assert(tr[j as int] == act[j as int]);
            if !stop_trace_fits(record, &stop) {
                return false;
            }
            j = j + 1;
        }
        let mut i: usize = 0;
        let ghost mut m: int = act.len() as int;
        while i < n
            invariant
                self.wf(route_data),
                act == self.active_indices@,
                tr == self.spec_trace_indices(),
                stops@ == route_data.stops@,
                n == self.stop_states@.len(),
                i <= n,
                m == act.len() + spec_extra_upto(self.stop_states@, act, i as int).len(),
                forall|q: int| 0 <= q < m ==> trace_inputs_ok(*record, stops@[#[trigger] tr[q] as int]),
            decreases n - i,
        {
            proof {
                lemma_extra_prefix(self.stop_states@, act, i as int + 1, n as int);
            }
            let st = self.stop_states[i];
            if (st.announced || st.skip_on_reentry) && !contains_index(&self.active_indices, i) {
                proof {
                    let e_i = spec_extra_upto(self.stop_states@, act, i as int);
                    let e_i1 = spec_extra_upto(self.stop_states@, act, i as int + 1);
                    let e_n = spec_extra_upto(self.stop_states@, act, n as int);
                    assert(e_i1 == e_i.push(i as usize));
                    assert(e_i1[e_i.len() as int] == i);
                    assert(e_n[e_i.len() as int] == i);
                    assert(tr == act + e_n);
                    assert(tr[m] == i);
                }
                if !stop_trace_fits(record, &stops[i]) {
                    return false;
                }
                proof {
                    m = m + 1;
                }
            }
            i = i + 1;
        }
        true
    }

    /// Trace information for the latest record: the active stops, and a trace
    /// view of each stop in `spec_trace_indices`.
    pub fn get_trace_info(
        &self,
        record: &GpsRecord,
        route_data: &RouteData,
        gaussian_lut: &[u8; 256],
        logistic_lut: &[u8; 128],
    ) -> (r: (Vec<u8>, Vec<StopTraceState>))
        requires
            self.wf(route_data),
            forall|j: int|
                0 <= j < self.spec_trace_indices().len() ==> trace_inputs_ok(
                    *record,
                    route_data.stops@[#[trigger] self.spec_trace_indices()[j] as int],
                ),
        ensures
            r.0@ == Seq::new(self.active_indices@.len(), |j: int| self.active_indices@[j] as u8),
            r.1@.len() == self.spec_trace_indices().len(),
            forall|j: int|
                0 <= j < r.1@.len() ==> #[trigger] r.1@[j] == self.spec_trace_state(
                    *record,
                    route_data.stops@,
                    self.spec_trace_indices()[j] as int,
                    gaussian_lut@,
                    logistic_lut@,
                ),
    {
        let stops = route_data.stops();
        let n = self.stop_states.len();
        let ghost act = self.active_indices@;

        let mut active: Vec<u8> = Vec::new();
        let mut trace: Vec<usize> = Vec::new();
        let mut j: usize = 0;
        while j < self.active_indices.len()
            invariant
                self.wf(route_data),
                act == self.active_indices@,
                n == self.stop_states@.len(),
                j <= act.len(),
                active@ == Seq::new(j as nat, |q: int| act[q] as u8),
                trace@ == act.subrange(0, j as int),
            decreases act.len() - j,
        {
            let idx = self.active_indices[j];
            active.push(idx as u8);
            trace.push(idx);
            j = j + 1;
            assert(trace@ == act.subrange(0, j as int));
        }
        assert(trace@ == act);

        let mut i: usize = 0;
        while i < n
            invariant
                self.wf(route_data),
                act == self.active_indices@,
                n == self.stop_states@.len(),
                i <= n,
                trace@ == act + spec_extra_upto(self.stop_states@, act, i as int),
                forall|q: int| 0 <= q < trace@.len() ==> #[trigger] trace@[q] < n,
            decreases n - i,
        {
            let st = self.stop_states[i];
            if (st.announced || st.skip_on_reentry) && !contains_index(&self.active_indices, i) {
                trace.push(i);
            }
            i = i + 1;
            assert(trace@ == act + spec_extra_upto(self.stop_states@, act, i as int));
        }
        let ghost tr = trace@;
        assert(tr == self.spec_trace_indices());

        let mut states: Vec<StopTraceState> = Vec::new();
        let mut q: usize = 0;
        while q < trace.len()
            invariant
                self.wf(route_data),
                tr == trace@,
                tr == self.spec_trace_indices(),
                n == self.stop_states@.len(),
                stops@ == route_data.stops@,
                forall|q2: int| 0 <= q2 < tr.len() ==> #[trigger] tr[q2] < n,
                forall|q2: int|
                    0 <= q2 < tr.len() ==> trace_inputs_ok(*record, stops@[#[trigger] tr[q2] as int]),
                q <= tr.len(),
                states@.len() == q,
                forall|q2: int|
                    0 <= q2 < q ==> #[trigger] states@[q2] == self.spec_trace_state(
                        *record,
                        stops@,
                        tr[q2] as int,
                        gaussian_lut@,
                        logistic_lut@,
                    ),
            decreases tr.len() - q,
        {
            let idx = trace[q];
            assert(tr[q as int] == idx);
            let stop = stops[idx];
            let st = self.stop_states[idx];
            let signals = PositionSignals::new(record.s_cm, record.s_cm);
            let features = probability::compute_feature_scores(
                signals,
                record.v_cms,
                &stop,
                st.dwell_time_s,
                gaussian_lut,
                logistic_lut,
            );
            let p = probability::compute_probability_with_luts(
                record.s_cm,
                record.v_cms,
                stop.progress_cm,
                st.dwell_time_s,
                gaussian_lut,
                logistic_lut,
            );
            let z_gps_cm = record.s_cm + record.divergence_cm;
            let ts = StopTraceState {
                stop_idx: idx as u8,
                gps_distance_cm: z_gps_cm - stop.progress_cm,
                progress_distance_cm: record.s_cm - stop.progress_cm,
                fsm_state: st.fsm_state,
                dwell_time_s: st.dwell_time_s,
                probability: p,
                previous_probability: self.previous_probabilities[idx],
                features,
                announced: st.announced,
                skip_on_reentry: st.skip_on_reentry,
                previous_distance_cm: st.previous_distance_cm,
                just_arrived: contains_stop(&self.arrived_this_frame, idx as u8),
            };
            assert(ts == self.spec_trace_state(*record, stops@, idx as int, gaussian_lut@, logistic_lut@));
            states.push(ts);
            q = q + 1;
        }
        (active, states)
    }

    /// Corridor summary of a traced record: the corridor of the first active
    /// stop, the first stop beyond it (not the last stop) with the probability
    /// traced for it (0 if not traced), and the off-route flags.
    pub fn trace_summary(
        &self,
        record: &GpsRecord,
        route_data: &RouteData,
        stop_states: &[StopTraceState],
    ) -> (r: TraceSummary)
        requires
            self.wf(route_data),
        ensures
            ({
                let stops = route_data.stops@;
                let act = self.active_indices@;
                &&& r.off_route == (record.status == RecordStatus::OffRoute)
                &&& r.off_route_last_s_cm == self.off_route_last_s_cm
                &&& if act.len() == 0 {
                    &&& r.corridor_start_cm is None
                    &&& r.corridor_end_cm is None
                    &&& r.next_stop is None
                } else {
                    let first = stops[act[0] as int];
                    &&& r.corridor_start_cm == Some(first.corridor_start_cm)
                    &&& r.corridor_end_cm == Some(first.corridor_end_cm)
                    &&& r.next_stop == match spec_next_stop_from(stops, first.corridor_end_cm as int, 0) {
                        Some(i) => Some((i as u8, spec_trace_probability(stop_states@, i as u8, 0))),
                        None => None,
                    }
                }
            }),
    {
        let stops = route_data.stops();
        let off_route = match record.status {
            RecordStatus::OffRoute => true,
            _ => false,
        };
        if self.active_indices.len() == 0 {
            return TraceSummary {
                corridor_start_cm: None,
                corridor_end_cm: None,
                next_stop: None,
                off_route,
                off_route_last_s_cm: self.off_route_last_s_cm,
            };
        }
        let first = stops[self.active_indices[0]];
        let end = first.corridor_end_cm;
        let n = stops.len();
        let mut next_stop: Option<(u8, Prob8)> = None;
        let mut i: usize = 0;
        while i + 1 < n
            invariant
                n == stops@.len(),
                n <= 256,
                i <= n,
                off_route == (record.status == RecordStatus::OffRoute),
                stops@ == route_data.stops@,
                self.active_indices@.len() > 0,
                first == stops@[self.active_indices@[0] as int],
                end == first.corridor_end_cm,
                spec_next_stop_from(stops@, end as int, 0) == spec_next_stop_from(stops@, end as int, i as int),
                next_stop is None,
            decreases n - i,
        {
            if stops[i].progress_cm > end {
                let idx = i as u8;
                let mut prob: Prob8 = 0;
                let mut j: usize = stop_states.len();
                while j > 0
                    invariant
                        j <= stop_states@.len(),
                        prob == spec_trace_probability(stop_states@, idx, j as int),
                    decreases j,
                {
                    j = j - 1;
                    if stop_states[j].stop_idx == idx {
                        prob = stop_states[j].probability;
                    }
                }
                return TraceSummary {
                    corridor_start_cm: Some(first.corridor_start_cm),
                    corridor_end_cm: Some(end),
                    next_stop: Some((idx, prob)),
                    off_route,
                    off_route_last_s_cm: self.off_route_last_s_cm,
                };
            }
            i = i + 1;
        }
        TraceSummary {
            corridor_start_cm: Some(first.corridor_start_cm),
            corridor_end_cm: Some(end),
            next_stop,
            off_route,
            off_route_last_s_cm: self.off_route_last_s_cm,
        }
    }

    /// Active stop indices of the latest record.
    pub fn active_indices(&self) -> (r: &[usize])
        ensures
            r@ == self.active_indices@,
    {
        self.active_indices.as_slice()
    }

    /// Whether the bus is off route.
    pub fn is_off_route(&self) -> (b: bool)
        ensures
            b == self.off_route,
    {
        self.off_route
    }

    /// Route position of the latest off-route record, while off route.
    pub fn off_route_last_s_cm(&self) -> (r: Option<DistCm>)
        ensures
            r == self.off_route_last_s_cm,
    {
        self.off_route_last_s_cm
    }
}

/// Frame and arrival facts of running the first `k` active stops.
proof fn lemma_run_facts(
    states: Seq<StopState>,
    act: Seq<usize>,
    k: int,
    rec: GpsRecord,
    stops: Seq<Stop>,
    g: Seq<u8>,
    l: Seq<u8>,
)
    requires
        0 <= k <= act.len(),
        states.len() == stops.len(),
        stops.len() <= 256,
        forall|j: int| 0 <= j < act.len() ==> #[trigger] act[j] < states.len(),
        forall|j1: int, j2: int| 0 <= j1 < j2 < act.len() ==> #[trigger] act[j1] < #[trigger] act[j2],
        forall|i: int| 0 <= i < states.len() ==> state_machine::spec_arrival_consistent(#[trigger] states[i]),
    ensures
        ({
            let r = spec_run(states, act, k, rec, stops, g, l);
            &&& r.0.len() == states.len()
            &&& forall|i: int|
                0 <= i < states.len() && (forall|j: int| 0 <= j < k ==> act[j] != i) ==> #[trigger] r.0[i]
                    == states[i]
            &&& forall|i: int| 0 <= i < states.len() ==> state_machine::spec_arrival_consistent(#[trigger] r.0[i])
            &&& forall|i: int| 0 <= i < states.len() && states[i].announced ==> #[trigger] r.0[i].announced
            &&& forall|i: int| 0 <= i < states.len() ==> #[trigger] r.0[i].skip_on_reentry == states[i].skip_on_reentry
            &&& forall|j: int|
                0 <= j < r.1.len() ==> {
                    &&& (#[trigger] r.1[j]).stop_idx < states.len()
                    &&& !states[r.1[j].stop_idx as int].announced
                    &&& r.0[r.1[j].stop_idx as int].announced
                }
        }),
    decreases k,
{
    if k > 0 {
        lemma_run_facts(states, act, k - 1, rec, stops, g, l);
        let r0 = spec_run(states, act, k - 1, rec, stops, g, l);
        let idx = act[k - 1] as int;
        assert forall|j: int| 0 <= j < k - 1 implies act[j] != idx by {
            assert(act[j] < act[k - 1]);
        }
        assert(r0.0[idx] == states[idx]);
        let p = spec_stop_probability(rec, stops[idx], r0.0[idx], g, l);
        state_machine::lemma_arrival_once(
            r0.0[idx],
            rec.s_cm as int,
            stops[idx].progress_cm as int,
            stops[idx].corridor_start_cm as int,
            p,
        );
        state_machine::lemma_update_preserves_identity(
            r0.0[idx],
            rec.s_cm as int,
            stops[idx].progress_cm as int,
            stops[idx].corridor_start_cm as int,
            p,
        );
        let r = spec_run(states, act, k, rec, stops, g, l);
        assert((idx as u8) as int == idx);
        assert forall|j: int| 0 <= j < r.1.len() implies {
            &&& (#[trigger] r.1[j]).stop_idx < states.len()
            &&& !states[r.1[j].stop_idx as int].announced
            &&& r.0[r.1[j].stop_idx as int].announced
        } by {
            if j < r0.1.len() {
                assert(r.1[j] == r0.1[j]);
                let i = r0.1[j].stop_idx as int;
                assert(r0.0[i].announced);
                if i == idx {
                    assert(!states[idx].announced);
                }
            }
        }
    }
}

/// One arrival per stop and trip, and skips are permanent. When every
/// announced stop has left its approach, processing a record keeps that so,
/// emits arrivals only for stops not announced before, leaves each arrived
/// stop announced, never forgets an announcement or a skip, and never
/// activates a skipped stop.
pub proof fn lemma_detection_arrives_once(
    det: DetectionState,
    rec: GpsRecord,
    route: &RouteData,
    g: Seq<u8>,
    l: Seq<u8>,
)
    requires
        det.wf(route),
        forall|i: int|
            0 <= i < det.stop_states@.len() ==> state_machine::spec_arrival_consistent(
                #[trigger] det.stop_states@[i],
            ),
    ensures
        ({
            let stops = route.stops@;
            let marked = det.spec_marked_states(rec, stops);
            let act = det.spec_active_for(rec, stops);
            let (st, arr, _dep, _ar) = spec_run(marked, act, act.len() as int, rec, stops, g, l);
            &&& forall|i: int| 0 <= i < st.len() ==> state_machine::spec_arrival_consistent(#[trigger] st[i])
            &&& forall|j: int|
                0 <= j < arr.len() ==> !det.stop_states@[(#[trigger] arr[j]).stop_idx as int].announced
                    && st[arr[j].stop_idx as int].announced
            &&& forall|i: int|
                0 <= i < st.len() && det.stop_states@[i].announced ==> (#[trigger] st[i]).announced
            &&& forall|i: int|
                0 <= i < st.len() && det.stop_states@[i].skip_on_reentry ==> (#[trigger] st[i]).skip_on_reentry
            &&& forall|i: int| 0 <= i < st.len() && st[i].skip_on_reentry ==> !act.contains(i as usize)
        }),
{
    let stops = route.stops@;
    let marked = det.spec_marked_states(rec, stops);
    let flags = spec_skip_flags(marked);
    let act = det.spec_active_for(rec, stops);
    corridor::lemma_active_characterized(stops, Some(flags), rec.s_cm as int, stops.len() as int);
    assert forall|i: int| 0 <= i < marked.len() implies state_machine::spec_arrival_consistent(
        #[trigger] marked[i],
    ) by {
        assert(state_machine::spec_arrival_consistent(det.stop_states@[i]));
    }
    lemma_run_facts(marked, act, act.len() as int, rec, stops, g, l);
    let st = spec_run(marked, act, act.len() as int, rec, stops, g, l).0;
    assert forall|i: int| 0 <= i < st.len() && st[i].skip_on_reentry implies !act.contains(i as usize) by {
        if act.contains(i as usize) {
            let j = choose|j: int| 0 <= j < act.len() && act[j] == i as usize;
            assert(corridor::spec_is_active(stops, Some(flags), rec.s_cm as int, act[j] as int));
        }
    }
}

/// One record's effect on the detection bookkeeping: the stop states, the
/// off-route flag and last off-route position after it, and the arrivals and
/// departures it emits (as `process_gps_record` states them).
pub open spec fn spec_detect_step(
    states: Seq<StopState>,
    off_route: bool,
    last: Option<DistCm>,
    rec: GpsRecord,
    stops: Seq<Stop>,
    g: Seq<u8>,
    l: Seq<u8>,
) -> (Seq<StopState>, bool, Option<DistCm>, Seq<ArrivalEvent>, Seq<DepartureEvent>) {
    let (off2, last2, mark) = spec_status_after(off_route, last, rec.status, rec.s_cm as int);
    let marked = spec_marked(states, stops, mark, rec.s_cm as int);
    let act = corridor::spec_active(stops, Some(spec_skip_flags(marked)), rec.s_cm as int);
    let (st, arr, dep, _ar) = spec_run(marked, act, act.len() as int, rec, stops, g, l);
    (st, off2, last2, arr, dep)
}

/// Records processed in order: the final bookkeeping and all events emitted.
pub open spec fn spec_detect_run(
    states: Seq<StopState>,
    off_route: bool,
    last: Option<DistCm>,
    recs: Seq<GpsRecord>,
    stops: Seq<Stop>,
    g: Seq<u8>,
    l: Seq<u8>,
) -> (Seq<StopState>, bool, Option<DistCm>, Seq<ArrivalEvent>, Seq<DepartureEvent>)
    decreases recs.len(),
{
    if recs.len() == 0 {
        (states, off_route, last, Seq::empty(), Seq::empty())
    } else {
        let (st1, off1, last1, arr1, dep1) = spec_detect_step(states, off_route, last, recs[0], stops, g, l);
        let (st, off, lst, arr, dep) = spec_detect_run(st1, off1, last1, recs.drop_first(), stops, g, l);
        (st, off, lst, arr1 + arr, dep1 + dep)
    }
}

/// Running the first `k` active stops touches no other stop, keeps every skip
/// flag, and emits events only for the stops it ran.
proof fn lemma_run_touches_only_active(
    states: Seq<StopState>,
    act: Seq<usize>,
    k: int,
    rec: GpsRecord,
    stops: Seq<Stop>,
    g: Seq<u8>,
    l: Seq<u8>,
    i: int,
)
    requires
        0 <= k <= act.len(),
        states.len() == stops.len(),
        stops.len() <= 256,
        0 <= i < states.len(),
        forall|j: int| 0 <= j < act.len() ==> #[trigger] act[j] < states.len(),
        forall|j: int| 0 <= j < k ==> act[j] != i,
    ensures
        ({
            let r = spec_run(states, act, k, rec, stops, g, l);
            &&& r.0.len() == states.len()
            &&& r.0[i] == states[i]
            &&& forall|j: int| 0 <= j < r.1.len() ==> (#[trigger] r.1[j]).stop_idx != i
            &&& forall|j: int| 0 <= j < r.2.len() ==> (#[trigger] r.2[j]).stop_idx != i
        }),
    decreases k,
{
    if k > 0 {
        lemma_run_touches_only_active(states, act, k - 1, rec, stops, g, l, i);
        let idx = act[k - 1] as int;
        assert((idx as u8) as int == idx);
        let r0 = spec_run(states, act, k - 1, rec, stops, g, l);
        let r = spec_run(states, act, k, rec, stops, g, l);
        assert forall|j: int| 0 <= j < r.1.len() implies (#[trigger] r.1[j]).stop_idx != i by {
            if j < r0.1.len() {
                assert(r.1[j] == r0.1[j]);
            }
        }
        assert forall|j: int| 0 <= j < r.2.len() implies (#[trigger] r.2[j]).stop_idx != i by {
            if j < r0.2.len() {
                assert(r.2[j] == r0.2[j]);
            }
        }
    }
}

/// A stop whose skip flag is set stays exactly as it is through any run of
/// records: it is never active, never updated, and no arrival or departure is
/// ever emitted for it.
pub proof fn lemma_skipped_stop_stays_silent(
    states: Seq<StopState>,
    off_route: bool,
    last: Option<DistCm>,
    recs: Seq<GpsRecord>,
    stops: Seq<Stop>,
    g: Seq<u8>,
    l: Seq<u8>,
    i: int,
)
    requires
        states.len() == stops.len(),
        stops.len() <= 256,
        0 <= i < states.len(),
        states[i].skip_on_reentry,
    ensures
        ({
            let (st, _off, _last, arr, dep) = spec_detect_run(states, off_route, last, recs, stops, g, l);
            &&& st.len() == states.len()
            &&& st[i] == states[i]
            &&& forall|j: int| 0 <= j < arr.len() ==> (#[trigger] arr[j]).stop_idx != i
            &&& forall|j: int| 0 <= j < dep.len() ==> (#[trigger] dep[j]).stop_idx != i
        }),
    decreases recs.len(),
{
    if recs.len() > 0 {
        let rec = recs[0];
        let (off2, last2, mark) = spec_status_after(off_route, last, rec.status, rec.s_cm as int);
        let marked = spec_marked(states, stops, mark, rec.s_cm as int);
        let flags = spec_skip_flags(marked);
        let act = corridor::spec_active(stops, Some(flags), rec.s_cm as int);
        assert(marked[i] == states[i]);
        corridor::lemma_active_characterized(stops, Some(flags), rec.s_cm as int, stops.len() as int);
        assert forall|j: int| 0 <= j < act.len() implies act[j] != i by {
            assert(corridor::spec_is_active(stops, Some(flags), rec.s_cm as int, act[j] as int));
        }
        lemma_run_touches_only_active(marked, act, act.len() as int, rec, stops, g, l, i);
        let (st1, off1, last1, arr1, dep1) = spec_detect_step(states, off_route, last, rec, stops, g, l);
        lemma_skipped_stop_stays_silent(st1, off1, last1, recs.drop_first(), stops, g, l, i);
        let (st, off, lst, arr, dep) = spec_detect_run(st1, off1, last1, recs.drop_first(), stops, g, l);
        let all = spec_detect_run(states, off_route, last, recs, stops, g, l);
        assert forall|j: int| 0 <= j < all.3.len() implies (#[trigger] all.3[j]).stop_idx != i by {
            if j < arr1.len() {
                assert(all.3[j] == arr1[j]);
            } else {
                assert(all.3[j] == arr[j - arr1.len()]);
            }
        }
        assert forall|j: int| 0 <= j < all.4.len() implies (#[trigger] all.4[j]).stop_idx != i by {
            if j < dep1.len() {
                assert(all.4[j] == dep1[j]);
            } else {
                assert(all.4[j] == dep[j - dep1.len()]);
            }
        }
    }
}

/// Detour re-entry: when a valid record ends an off-route episode with a
/// forward jump of more than `DETOUR_JUMP_THRESHOLD_CM`, every stop behind it
/// is skipped for the rest of the trip: it is not active for that record or
/// any later one, and no arrival or departure is emitted for it by that record
/// or any later one.
pub proof fn lemma_detour_skips_stops_behind(
    states: Seq<StopState>,
    last_off_route_s: DistCm,
    recs: Seq<GpsRecord>,
    stops: Seq<Stop>,
    g: Seq<u8>,
    l: Seq<u8>,
    i: int,
)
    requires
        states.len() == stops.len(),
        stops.len() <= 256,
        recs.len() > 0,
        recs[0].status == RecordStatus::Valid,
        recs[0].s_cm > last_off_route_s + DETOUR_JUMP_THRESHOLD_CM,
        0 <= i < states.len(),
        stops[i].progress_cm < recs[0].s_cm,
    ensures
        ({
            let rec = recs[0];
            let marked = spec_marked(states, stops, true, rec.s_cm as int);
            let act = corridor::spec_active(stops, Some(spec_skip_flags(marked)), rec.s_cm as int);
            let (st, _off, _last, arr, dep) = spec_detect_run(
                states,
                true,
                Some(last_off_route_s),
                recs,
                stops,
                g,
                l,
            );
            &&& !act.contains(i as usize)
            &&& st[i].skip_on_reentry
            &&& forall|j: int| 0 <= j < arr.len() ==> (#[trigger] arr[j]).stop_idx != i
            &&& forall|j: int| 0 <= j < dep.len() ==> (#[trigger] dep[j]).stop_idx != i
        }),
{
    let rec = recs[0];
    let marked = spec_marked(states, stops, true, rec.s_cm as int);
    lemma_skipped_stop_stays_silent(marked, true, Some(last_off_route_s), recs, stops, g, l, i);
    let flags = spec_skip_flags(marked);
    let act = corridor::spec_active(stops, Some(flags), rec.s_cm as int);
    corridor::lemma_active_characterized(stops, Some(flags), rec.s_cm as int, stops.len() as int);
    if act.contains(i as usize) {
        let j = choose|j: int| 0 <= j < act.len() && act[j] == i as usize;
        assert(corridor::spec_is_active(stops, Some(flags), rec.s_cm as int, act[j] as int));
    }
    // The first step re-marks the same stops, so the run from `states` is the
    // run from `marked`.
    let (off2, last2, mark) = spec_status_after(true, Some(last_off_route_s), rec.status, rec.s_cm as int);
    assert(mark);
    assert(spec_marked(marked, stops, true, rec.s_cm as int) =~= marked);
    assert(spec_detect_step(states, true, Some(last_off_route_s), rec, stops, g, l) == spec_detect_step(
        marked,
        true,
        Some(last_off_route_s),
        rec,
        stops,
        g,
        l,
    ));
}

/// Each arrival emitted by running the first `k` active stops (sorted, distinct)
/// is for a stop that was Arriving, within 50 m, with the probability computed
/// from that stop's state before the record, which is above the threshold.
proof fn lemma_run_arrival_events(
    states: Seq<StopState>,
    act: Seq<usize>,
    k: int,
    rec: GpsRecord,
    stops: Seq<Stop>,
    g: Seq<u8>,
    l: Seq<u8>,
)
    requires
        0 <= k <= act.len(),
        states.len() == stops.len(),
        stops.len() <= 256,
        forall|j: int| 0 <= j < act.len() ==> #[trigger] act[j] < states.len(),
        forall|j1: int, j2: int| 0 <= j1 < j2 < act.len() ==> #[trigger] act[j1] < #[trigger] act[j2],
    ensures
        ({
            let r = spec_run(states, act, k, rec, stops, g, l);
            forall|j: int|
                0 <= j < r.1.len() ==> {
                    let e = #[trigger] r.1[j];
                    let i = e.stop_idx as int;
                    &&& 0 <= i < states.len()
                    &&& e.time == rec.time
                    &&& e.s_cm == rec.s_cm
                    &&& e.v_cms == rec.v_cms
                    &&& e.event_type == ArrivalEventType::Arrival
                    &&& e.probability == spec_stop_probability(rec, stops[i], states[i], g, l)
                    &&& e.probability > state_machine::THETA_ARRIVAL
                    &&& states[i].fsm_state == model::FsmState::Arriving
                    &&& model::abs(rec.s_cm - stops[i].progress_cm) < state_machine::ARRIVAL_RADIUS_CM
                }
        }),
    decreases k,
{
    if k > 0 {
        lemma_run_arrival_events(states, act, k - 1, rec, stops, g, l);
        let idx = act[k - 1] as int;
        assert forall|j: int| 0 <= j < k - 1 implies act[j] != idx by {
            assert(act[j] < act[k - 1]);
        }
        lemma_run_touches_only_active(states, act, k - 1, rec, stops, g, l, idx);
        let r0 = spec_run(states, act, k - 1, rec, stops, g, l);
        assert(r0.0[idx] == states[idx]);
        let p = spec_stop_probability(rec, stops[idx], r0.0[idx], g, l);
        state_machine::lemma_events_guarded(
            r0.0[idx],
            rec.s_cm as int,
            stops[idx].progress_cm as int,
            stops[idx].corridor_start_cm as int,
            p,
        );
        assert((idx as u8) as int == idx);
        let r = spec_run(states, act, k, rec, stops, g, l);
        assert forall|j: int| 0 <= j < r.1.len() && j < r0.1.len() implies r.1[j] == r0.1[j] by {}
    }
}

/// Every arrival a record emits is for a stop that was Arriving, within 50 m of
/// the position, and carries the stop's arrival probability computed from its
/// own state (dwell time included) before the record, which is above the
/// arrival threshold.
pub proof fn lemma_arrivals_carry_stop_probability(
    states: Seq<StopState>,
    off_route: bool,
    last: Option<DistCm>,
    rec: GpsRecord,
    stops: Seq<Stop>,
    g: Seq<u8>,
    l: Seq<u8>,
)
    requires
        states.len() == stops.len(),
        stops.len() <= 256,
    ensures
        ({
            let mark = spec_status_after(off_route, last, rec.status, rec.s_cm as int).2;
            let marked = spec_marked(states, stops, mark, rec.s_cm as int);
            let arr = spec_detect_step(states, off_route, last, rec, stops, g, l).3;
            forall|j: int|
                0 <= j < arr.len() ==> {
                    let e = #[trigger] arr[j];
                    let i = e.stop_idx as int;
                    &&& 0 <= i < stops.len()
                    &&& e.time == rec.time
                    &&& e.s_cm == rec.s_cm
                    &&& e.probability == spec_stop_probability(rec, stops[i], marked[i], g, l)
                    &&& e.probability > state_machine::THETA_ARRIVAL
                    &&& marked[i].fsm_state == model::FsmState::Arriving
                    &&& marked[i].dwell_time_s == states[i].dwell_time_s
                    &&& model::abs(rec.s_cm - stops[i].progress_cm) < state_machine::ARRIVAL_RADIUS_CM
                }
        }),
{
    let mark = spec_status_after(off_route, last, rec.status, rec.s_cm as int).2;
    let marked = spec_marked(states, stops, mark, rec.s_cm as int);
    let flags = spec_skip_flags(marked);
    let act = corridor::spec_active(stops, Some(flags), rec.s_cm as int);
    corridor::lemma_active_characterized(stops, Some(flags), rec.s_cm as int, stops.len() as int);
    lemma_run_arrival_events(marked, act, act.len() as int, rec, stops, g, l);
}

/// The probability handed to a stop's state machine counts the stop's own
/// dwell time: it never decreases as the dwell time grows, and a dwell of ten
/// seconds or more adds at least 23 (out of 255) over no dwell at all, all
/// else equal.
pub proof fn lemma_stop_probability_counts_dwell(
    rec: GpsRecord,
    stop: Stop,
    st: StopState,
    g: Seq<u8>,
    l: Seq<u8>,
    d1: u16,
    d2: u16,
)
    requires
        d1 <= d2,
    ensures
        spec_stop_probability(rec, stop, StopState { dwell_time_s: d1, ..st }, g, l) <= spec_stop_probability(
            rec,
            stop,
            StopState { dwell_time_s: d2, ..st },
            g,
            l,
        ),
        d2 >= 10 ==> spec_stop_probability(rec, stop, StopState { dwell_time_s: 0, ..st }, g, l) + 23
            <= spec_stop_probability(rec, stop, StopState { dwell_time_s: d2, ..st }, g, l),
{
    let sig = PositionSignals { z_gps_cm: rec.s_cm, s_cm: rec.s_cm };
    let gs = rec.status.spec_gps_status();
    let f1 = probability::spec_features(sig, rec.v_cms as int, stop, d1 as int, gs, g, l);
    let f2 = probability::spec_features(sig, rec.v_cms as int, stop, d2 as int, gs, g, l);
    let f0 = probability::spec_features(sig, rec.v_cms as int, stop, 0, gs, g, l);
    assert((d1 as int) * 255 / 10 <= (d2 as int) * 255 / 10) by (nonlinear_arith)
        requires
            d1 <= d2,
    ;
    assert(d2 >= 10 ==> (d2 as int) * 255 / 10 >= 255) by (nonlinear_arith);
    assert(0 <= (d1 as int) * 255 / 10) by (nonlinear_arith);
    assert(f1.0 == f2.0 && f1.1 == f2.1 && f1.2 == f2.2 && f0.0 == f2.0 && f0.1 == f2.1 && f0.2 == f2.2);
    assert(0 <= f1.0 <= 255 && 0 <= f1.1 <= 255 && 0 <= f1.2 <= 255);
    probability::lemma_probability_range(f1);
    probability::lemma_probability_range(f2);
    probability::lemma_probability_range(f0);
}

} // verus!
