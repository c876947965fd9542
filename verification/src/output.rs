//! Localization output: per-fix records with the active stops, and the JSON
//! form of arrival events.

use vstd::prelude::*;
use vstd::string::StringExecFns;
use crate::corridor;
use crate::corridor::find_active_stops;
use crate::kalman::{ProcessResult, RejectReason};
use crate::model::{ArrivalEvent, ArrivalEventType, DistCm, HeadCdeg, RouteData, Stop};

verus! {

/// Distance from the position to an active stop.
#[derive(Debug, Clone, Copy, PartialEq, Eq, Structural)]
pub struct StopDistance {
    pub stop_idx: u8,
    /// Stop position minus route position (cm).
    pub distance_cm: i32,
}

/// Distance entries for the active stops that exist, in the given order.
pub open spec fn spec_stop_distances_upto(s_cm: int, active: Seq<usize>, stops: Seq<Stop>, k: int) -> Seq<
    StopDistance,
>
    decreases k,
{
    if k <= 0 {
        Seq::empty()
    } else {
        let prev = spec_stop_distances_upto(s_cm, active, stops, k - 1);
        let idx = active[k - 1];
        if idx < stops.len() {
            prev.push(
                StopDistance {
                    stop_idx: idx as u8,
                    distance_cm: (stops[idx as int].progress_cm - s_cm) as i32,
                },
            )
        } else {
            prev
        }
    }
}

/// Distance entries for the listed stops: one per index that names a stop,
/// in order, with the stop position minus `s_cm`.
pub fn create_stop_states(s_cm: DistCm, active_stops: &[usize], stops: &[Stop]) -> (r: Vec<StopDistance>)
    requires
        forall|j: int|
            0 <= j < active_stops@.len() && #[trigger] active_stops@[j] < stops@.len() ==> crate::model::fits_i32(
                stops@[active_stops@[j] as int].progress_cm - s_cm,
            ),
    ensures
        r@ == spec_stop_distances_upto(s_cm as int, active_stops@, stops@, active_stops@.len() as int),
{
    let mut out: Vec<StopDistance> = Vec::new();
    let mut k: usize = 0;
    while k < active_stops.len()
        invariant
            k <= active_stops@.len(),
            forall|j: int|
                0 <= j < active_stops@.len() && #[trigger] active_stops@[j] < stops@.len()
                    ==> crate::model::fits_i32(stops@[active_stops@[j] as int].progress_cm - s_cm),
            out@ == spec_stop_distances_upto(s_cm as int, active_stops@, stops@, k as int),
        decreases active_stops@.len() - k,
    {
        let idx = active_stops[k];
        if idx < stops.len() {
            assert(active_stops@[k as int] == idx);
            let stop = stops[idx];
            out.push(StopDistance { stop_idx: idx as u8, distance_cm: stop.progress_cm - s_cm });
        }
        k = k + 1;
    }
    out
}

/// Status of an output record.
#[derive(Debug, Clone, Copy, PartialEq, Eq, Structural)]
pub enum OutputStatus {
    Valid,
    Rejected(RejectReason),
    DrOutage,
    OffRoute,
    SuspectOffRoute,
}

impl OutputStatus {
    /// Status text in output records; a rejection reads `rejected_` followed
    /// by its reason.
    pub open spec fn spec_text(self) -> Seq<char> {
        match self {
            OutputStatus::Valid => "valid"@,
            OutputStatus::Rejected(reason) => "rejected_"@ + reason.spec_text(),
            OutputStatus::DrOutage => "dr_outage"@,
            OutputStatus::OffRoute => "off_route"@,
            OutputStatus::SuspectOffRoute => "suspect_off_route"@,
        }
    }

    pub fn text(&self) -> (s: String)
        ensures
            s@ == self.spec_text(),
    {
        match self {
            OutputStatus::Valid => String::from_str("valid"),
            OutputStatus::Rejected(reason) => {
                let mut s = String::from_str("rejected_");
                s.append(reason.as_str());
                s
            },
            OutputStatus::DrOutage => String::from_str("dr_outage"),
            OutputStatus::OffRoute => String::from_str("off_route"),
            OutputStatus::SuspectOffRoute => String::from_str("suspect_off_route"),
        }
    }
}

/// One localization output record (position fields other than the route
/// position are the caller's).
#[derive(Debug, Clone)]
pub struct OutputRecord {
    pub time: u64,
    pub s_cm: i64,
    pub v_cms: i32,
    pub heading_cdeg: Option<HeadCdeg>,
    pub status: OutputStatus,
    pub seg_idx: Option<usize>,
    pub active_stops: Vec<usize>,
    pub stop_states: Vec<StopDistance>,
    pub gps_jump: bool,
    pub recovery_idx: Option<u8>,
}

/// Route position the active stops are computed from: that of a valid,
/// dead-reckoned or off-route outcome.
pub open spec fn spec_output_position(result: ProcessResult) -> Option<DistCm> {
    match result {
        ProcessResult::Valid { signals, .. } => Some(signals.s_cm),
        ProcessResult::DrOutage { s_cm, .. } => Some(s_cm),
        ProcessResult::OffRoute { last_valid_s, .. } => Some(last_valid_s),
        _ => None,
    }
}

/// Inputs on which the record's stop distances are representable.
pub open spec fn output_inputs_ok(result: ProcessResult, stops: Seq<Stop>) -> bool {
    match spec_output_position(result) {
        Some(s) => forall|i: int|
            0 <= i < stops.len() && corridor::spec_in_corridor(stops[i], s as int)
                ==> crate::model::fits_i32(#[trigger] stops[i].progress_cm - s),
        None => true,
    }
}

/// Record for an outcome: the active stops and their distances (none when
/// the outcome has no position); route position, speed, heading, status and
/// segment by outcome — valid: its values, the heading and segment; rejected
/// or long outage: zero position and speed (heading kept when rejected);
/// dead-reckoned and off-route: their position and speed, no heading; a
/// suspected off-route outcome likewise.
pub fn output_record(time: u64, heading_cdeg: HeadCdeg, result: &ProcessResult, route_data: &RouteData) -> (r:
    OutputRecord)
    requires
        output_inputs_ok(*result, route_data.stops@),
    ensures
        r.time == time,
        !r.gps_jump,
        r.recovery_idx is None,
        match spec_output_position(*result) {
            Some(s) => {
                &&& r.active_stops@ == corridor::spec_active(route_data.stops@, None, s as int)
                &&& r.stop_states@ == spec_stop_distances_upto(
                    s as int,
                    r.active_stops@,
                    route_data.stops@,
                    r.active_stops@.len() as int,
                )
            },
            None => r.active_stops@.len() == 0 && r.stop_states@.len() == 0,
        },
        match *result {
            ProcessResult::Valid { signals, v_cms, seg_idx, .. } => r.s_cm == signals.s_cm && r.v_cms == v_cms
                && r.heading_cdeg == Some(heading_cdeg) && r.status == OutputStatus::Valid && r.seg_idx == Some(
                seg_idx,
            ),
            ProcessResult::Rejected(reason) => r.s_cm == 0 && r.v_cms == 0 && r.heading_cdeg == Some(heading_cdeg)
                && r.status == OutputStatus::Rejected(reason) && r.seg_idx is None,
            ProcessResult::Outage => r.s_cm == 0 && r.v_cms == 0 && r.heading_cdeg is None && r.status
                == OutputStatus::DrOutage && r.seg_idx is None,
            ProcessResult::DrOutage { s_cm, v_cms } => r.s_cm == s_cm && r.v_cms == v_cms && r.heading_cdeg is None
                && r.status == OutputStatus::DrOutage && r.seg_idx is None,
            ProcessResult::OffRoute { last_valid_s, last_valid_v, .. } => r.s_cm == last_valid_s && r.v_cms
                == last_valid_v && r.heading_cdeg is None && r.status == OutputStatus::OffRoute && r.seg_idx is None,
            ProcessResult::SuspectOffRoute { s_cm, v_cms } => r.s_cm == s_cm && r.v_cms == v_cms && r.heading_cdeg
                is None && r.status == OutputStatus::SuspectOffRoute && r.seg_idx is None,
        },
{
    let stops = route_data.stops();
    let position: Option<DistCm> = match result {
        ProcessResult::Valid { signals, .. } => Some(signals.s_cm),
        ProcessResult::DrOutage { s_cm, .. } => Some(*s_cm),
        ProcessResult::OffRoute { last_valid_s, .. } => Some(*last_valid_s),
        _ => None,
    };
    let (active_stops, stop_states) = match position {
        Some(s) => {
            let active = find_active_stops(s, stops);
            assert(stops@.len() == stops.len());
            proof {
                corridor::lemma_active_characterized(stops@, None, s as int, stops@.len() as int);
                assert forall|j: int|
                    0 <= j < active@.len() && #[trigger] active@[j] < stops@.len() implies crate::model::fits_i32(
                    stops@[active@[j] as int].progress_cm - s,
                ) by {
                    assert(corridor::spec_is_active(stops@, None, s as int, active@[j] as int));
                }
            }
            let states = create_stop_states(s, active.as_slice(), stops);
            (active, states)
        },
        None => (Vec::new(), Vec::new()),
    };
    let (s_cm, v_cms, heading, status, seg_idx): (i64, i32, Option<HeadCdeg>, OutputStatus, Option<usize>) =
        match result {
        ProcessResult::Valid { signals, v_cms, seg_idx, .. } => (
            signals.s_cm as i64,
            *v_cms,
            Some(heading_cdeg),
            OutputStatus::Valid,
            Some(*seg_idx),
        ),
        ProcessResult::Rejected(reason) => (0, 0, Some(heading_cdeg), OutputStatus::Rejected(*reason), None),
        ProcessResult::Outage => (0, 0, None, OutputStatus::DrOutage, None),
        ProcessResult::DrOutage { s_cm, v_cms } => (*s_cm as i64, *v_cms, None, OutputStatus::DrOutage, None),
        ProcessResult::OffRoute { last_valid_s, last_valid_v, .. } => (
            *last_valid_s as i64,
            *last_valid_v,
            None,
            OutputStatus::OffRoute,
            None,
        ),
        ProcessResult::SuspectOffRoute { s_cm, v_cms } => (
            *s_cm as i64,
            *v_cms,
            None,
            OutputStatus::SuspectOffRoute,
            None,
        ),
    };
    OutputRecord {
        time,
        s_cm,
        v_cms,
        heading_cdeg: heading,
        status,
        seg_idx,
        active_stops,
        stop_states,
        gps_jump: false,
        recovery_idx: None,
    }
}

/// Decimal digit character.
pub open spec fn spec_digit(d: int) -> char {
    if d == 0 {
        '0'
    } else if d == 1 {
        '1'
    } else if d == 2 {
        '2'
    } else if d == 3 {
        '3'
    } else if d == 4 {
        '4'
    } else if d == 5 {
        '5'
    } else if d == 6 {
        '6'
    } else if d == 7 {
        '7'
    } else if d == 8 {
        '8'
    } else {
        '9'
    }
}

/// Decimal representation of a natural number, without leading zeros.
pub open spec fn spec_decimal(n: nat) -> Seq<char>
    decreases n,
{
    if n < 10 {
        seq![spec_digit(n as int)]
    } else {
        spec_decimal(n / 10).push(spec_digit((n % 10) as int))
    }
}

/// Decimal representation of an integer, with `-` when negative.
pub open spec fn spec_signed_decimal(x: int) -> Seq<char> {
    if x < 0 {
        seq!['-'] + spec_decimal((-x) as nat)
    } else {
        spec_decimal(x as nat)
    }
}

pub open spec fn spec_event_type_name(t: ArrivalEventType) -> Seq<char> {
    match t {
        ArrivalEventType::Arrival => "arrival"@,
        ArrivalEventType::Departure => "departure"@,
        ArrivalEventType::Announce => "announce"@,
    }
}

/// JSON object of an event: `{"type":…,"time":…,"stop":…,"s":…,"v":…,"p":…}`.
pub open spec fn spec_event_json(e: ArrivalEvent) -> Seq<char> {
    "{\"type\":\""@ + spec_event_type_name(e.event_type) + "\",\"time\":"@ + spec_decimal(e.time as nat)
        + ",\"stop\":"@ + spec_decimal(e.stop_idx as nat) + ",\"s\":"@ + spec_signed_decimal(e.s_cm as int)
        + ",\"v\":"@ + spec_signed_decimal(e.v_cms as int) + ",\"p\":"@ + spec_decimal(e.probability as nat)
        + "}"@
}

fn digit_str(d: u64) -> (r: &'static str)
    requires
        d < 10,
    ensures
        r@ == seq![spec_digit(d as int)],
{
    if d == 0 {
        proof {
            reveal_strlit("0");
        }
        "0"
    } else if d == 1 {
        proof {
            reveal_strlit("1");
        }
        "1"
    } else if d == 2 {
        proof {
            reveal_strlit("2");
        }
        "2"
    } else if d == 3 {
        proof {
            reveal_strlit("3");
        }
        "3"
    } else if d == 4 {
        proof {
            reveal_strlit("4");
        }
        "4"
    } else if d == 5 {
        proof {
            reveal_strlit("5");
        }
        "5"
    } else if d == 6 {
        proof {
            reveal_strlit("6");
        }
        "6"
    } else if d == 7 {
        proof {
            reveal_strlit("7");
        }
        "7"
    } else if d == 8 {
        proof {
            reveal_strlit("8");
        }
        "8"
    } else {
        proof {
            reveal_strlit("9");
        }
        "9"
    }
}

fn push_decimal(s: &mut String, n: u64)
    ensures
        final(s)@ == old(s)@ + spec_decimal(n as nat),
    decreases n,
{
    if n >= 10 {
        push_decimal(s, n / 10);
    }
    s.append(digit_str(n % 10));
    proof {
        if n >= 10 {
            assert(spec_decimal(n as nat) == spec_decimal((n / 10) as nat).push(spec_digit((n % 10) as int)));
        }
    }
}

fn push_signed(s: &mut String, x: i32)
    ensures
        final(s)@ == old(s)@ + spec_signed_decimal(x as int),
{
    if x < 0 {
        proof {
            reveal_strlit("-");
        }
        s.append("-");
        let ghost mid = s@;
        push_decimal(s, (-(x as i64)) as u64);
        assert(s@ == mid + spec_decimal((-x) as nat));
    } else {
        push_decimal(s, x as u64);
    }
}

/// JSON line of an arrival event (see `spec_event_json`).
pub fn format_arrival_event(event: &ArrivalEvent) -> (r: String)
    ensures
        r@ == spec_event_json(*event),
{
    let event_type_str = match event.event_type {
        ArrivalEventType::Arrival => "arrival",
        ArrivalEventType::Departure => "departure",
        ArrivalEventType::Announce => "announce",
    };
    let mut s = String::from_str("{\"type\":\"");
    s.append(event_type_str);
    s.append("\",\"time\":");
    push_decimal(&mut s, event.time);
    s.append(",\"stop\":");
    push_decimal(&mut s, event.stop_idx as u64);
    s.append(",\"s\":");
    push_signed(&mut s, event.s_cm);
    s.append(",\"v\":");
    push_signed(&mut s, event.v_cms);
    s.append(",\"p\":");
    push_decimal(&mut s, event.probability as u64);
    s.append("}");
    s
}

/// Copies serialized bytes into the front of a caller's buffer.
///
/// Returns `None`, leaving the buffer as it was, when the bytes do not fit;
/// otherwise the number of bytes written, which equal the first bytes of the
/// buffer, the rest of the buffer unchanged.
pub fn copy_to_buffer(buf: &mut [u8], bytes: &[u8]) -> (r: Option<usize>)
    ensures
        r is None <==> bytes@.len() > old(buf)@.len(),
        r is None ==> final(buf)@ == old(buf)@,
        r is Some ==> {
            &&& r->0 == bytes@.len()
            &&& final(buf)@ == bytes@ + old(buf)@.subrange(bytes@.len() as int, old(buf)@.len() as int)
        },
{
    let n = bytes.len();
    if n > buf.len() {
        return None;
    }
    let mut i: usize = 0;
    while i < n
        invariant
            n == bytes@.len(),
            n <= old(buf)@.len(),
            i <= n,
            buf@.len() == old(buf)@.len(),
            forall|j: int| 0 <= j < i ==> #[trigger] buf@[j] == bytes@[j],
            forall|j: int| i <= j < buf@.len() ==> #[trigger] buf@[j] == old(buf)@[j],
        decreases n - i,
    {
        buf[i] = bytes[i];
        i = i + 1;
    }
    assert(buf@ =~= bytes@ + old(buf)@.subrange(n as int, old(buf)@.len() as int));
    Some(n)
}

} // verus!
