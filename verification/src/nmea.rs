//! NMEA sentences: checksum, field splitting, sentence selection, and the
//! accumulator that merges the sentences of one GPS second into one fix.
//!
//! Decimal numbers (coordinates, speed, course, HDOP) are not read here: the
//! accumulator carries the position as an opaque value `P` and takes speed,
//! course and HDOP already scaled to integers.

use vstd::prelude::*;
use vstd::string::StringSliceAdditionalSpecFns;
use crate::model::{FixQuality, HeadCdeg, SpeedCms};

verus! {

/// Byte value of `*`.
pub const STAR: u8 = 42;

/// Byte value of `,`.
pub const COMMA: u8 = 44;

/// Byte value of `+`.
pub const PLUS: u8 = 43;

/// Whether byte `i` starts a character (or is the end) of UTF-8 bytes `b`.
pub open spec fn spec_boundary(b: Seq<u8>, i: int) -> bool {
    i == b.len() || (0 <= i < b.len() && !(0x80 <= b[i] < 0xC0))
}

/// First index `>= i` of a `*` byte.
pub open spec fn spec_star_from(b: Seq<u8>, i: int) -> Option<int>
    decreases b.len() - i,
{
    if i < 0 || i >= b.len() {
        None
    } else if b[i] == STAR {
        Some(i)
    } else {
        spec_star_from(b, i + 1)
    }
}

/// XOR of bytes `b[lo..k]`.
pub open spec fn spec_xor(b: Seq<u8>, lo: int, k: int) -> u8
    decreases k - lo,
{
    if k <= lo {
        0
    } else {
        spec_xor(b, lo, k - 1) ^ b[k - 1]
    }
}

pub open spec fn spec_is_hex(c: u8) -> bool {
    (48 <= c <= 57) || (65 <= c <= 70) || (97 <= c <= 102)
}

pub open spec fn spec_hex_value(c: u8) -> int {
    if 48 <= c <= 57 {
        c - 48
    } else if 65 <= c <= 70 {
        c - 55
    } else {
        c - 87
    }
}

/// A two-character hexadecimal byte (an optional `+` then digits).
pub open spec fn spec_hex_pair(a: u8, b: u8) -> Option<u8> {
    if spec_is_hex(a) && spec_is_hex(b) {
        Some((16 * spec_hex_value(a) + spec_hex_value(b)) as u8)
    } else if a == PLUS && spec_is_hex(b) {
        Some(spec_hex_value(b) as u8)
    } else {
        None
    }
}

/// Sentences on which the checksum check is defined: when there is a `*`, it
/// is not the first byte, the data starts on a character, and two bytes
/// ending on a character follow the `*`.
pub open spec fn checksum_input_ok(b: Seq<u8>) -> bool {
    match spec_star_from(b, 0) {
        Some(p) => 1 <= p && p + 3 <= b.len() && spec_boundary(b, 1) && spec_boundary(b, p + 3),
        None => true,
    }
}

/// Whether the checksum after `*` (two hex digits) equals the XOR of the
/// bytes between the leading character and the `*`.
pub open spec fn spec_checksum_ok(b: Seq<u8>) -> bool {
    match spec_star_from(b, 0) {
        Some(p) => match spec_hex_pair(b[p + 1], b[p + 2]) {
            Some(c) => spec_xor(b, 1, p) == c,
            None => false,
        },
        None => false,
    }
}

fn hex_value(c: u8) -> (r: Option<u8>)
    ensures
        r == (if spec_is_hex(c) {
            Some(spec_hex_value(c) as u8)
        } else {
            None
        }),
{
    if 48 <= c && c <= 57 {
        Some(c - 48)
    } else if 65 <= c && c <= 70 {
        Some(c - 55)
    } else if 97 <= c && c <= 102 {
        Some(c - 87)
    } else {
        None
    }
}

/// Checks an NMEA sentence's XOR checksum.
pub fn verify_checksum(sentence: &str) -> (ok: bool)
    requires
        checksum_input_ok(sentence.spec_bytes()),
    ensures
        ok == spec_checksum_ok(sentence.spec_bytes()),
{
    let b = sentence.as_bytes();
    let ghost bs = b@;
    let mut i: usize = 0;
    while i < b.len() && b[i] != STAR
        invariant
            bs == b@,
            i <= b@.len(),
            spec_star_from(bs, 0) == spec_star_from(bs, i as int),
        decreases b@.len() - i,
    {
        i = i + 1;
    }
    if i == b.len() {
        return false;
    }
    let mut x: u8 = 0;
    let mut j: usize = 1;
    while j < i
        invariant
            bs == b@,
            1 <= j <= i,
            i < b@.len(),
            x == spec_xor(bs, 1, j as int),
        decreases i - j,
    {
        x = x ^ b[j];
        j = j + 1;
    }
    let hi = b[i + 1];
    let lo = b[i + 2];
    let expected = match (hex_value(hi), hex_value(lo)) {
        (Some(h), Some(l)) => Some(16 * h + l),
        _ => if hi == PLUS {
            hex_value(lo)
        } else {
            None
        },
    };
    match expected {
        Some(c) => x == c,
        None => false,
    }
}

/// Splitting the first `k` bytes at commas: finished fields and the current one.
pub open spec fn spec_split_acc(b: Seq<u8>, k: int) -> (Seq<Seq<u8>>, Seq<u8>)
    decreases k,
{
    if k <= 0 {
        (Seq::empty(), Seq::empty())
    } else {
        let (done, cur) = spec_split_acc(b, k - 1);
        if b[k - 1] == COMMA {
            (done.push(cur), Seq::empty())
        } else {
            (done, cur.push(b[k - 1]))
        }
    }
}

/// Fields of `b` separated by commas (always at least one).
pub open spec fn spec_fields(b: Seq<u8>) -> Seq<Seq<u8>> {
    let (done, cur) = spec_split_acc(b, b.len() as int);
    done.push(cur)
}

/// Splits bytes at commas.
pub fn split_fields(b: &[u8]) -> (r: Vec<Vec<u8>>)
    ensures
        r@.len() == spec_fields(b@).len(),
        forall|j: int| 0 <= j < r@.len() ==> #[trigger] r@[j]@ == spec_fields(b@)[j],
{
    let mut fields: Vec<Vec<u8>> = Vec::new();
    let mut cur: Vec<u8> = Vec::new();
    let mut i: usize = 0;
    while i < b.len()
        invariant
            i <= b@.len(),
            fields@.len() == spec_split_acc(b@, i as int).0.len(),
            forall|j: int| 0 <= j < fields@.len() ==> #[trigger] fields@[j]@ == spec_split_acc(b@, i as int).0[j],
            cur@ == spec_split_acc(b@, i as int).1,
        decreases b@.len() - i,
    {
        if b[i] == COMMA {
            let done = cur;
            fields.push(done);
            cur = Vec::new();
        } else {
            cur.push(b[i]);
        }
        i = i + 1;
    }
    fields.push(cur);
    fields
}

/// Kinds of sentence the accumulator uses.
#[derive(Debug, Clone, Copy, PartialEq, Eq, Structural)]
pub enum NmeaKind {
    /// Recommended minimum data (time, status, position, speed, course).
    Rmc,
    /// DOP and active satellites (HDOP).
    Gsa,
    /// Fix data (time, position, fix quality, HDOP).
    Gga,
}

pub open spec fn spec_tag(f: Seq<u8>) -> Option<NmeaKind> {
    if f == seq![36u8, 71u8, 80u8, 82u8, 77u8, 67u8] || f == seq![36u8, 71u8, 78u8, 82u8, 77u8, 67u8] {
        Some(NmeaKind::Rmc)
    } else if f == seq![36u8, 71u8, 78u8, 71u8, 83u8, 65u8] || f == seq![36u8, 71u8, 80u8, 71u8, 83u8, 65u8] {
        Some(NmeaKind::Gsa)
    } else if f == seq![36u8, 71u8, 80u8, 71u8, 71u8, 65u8] || f == seq![36u8, 71u8, 78u8, 71u8, 71u8, 65u8] {
        Some(NmeaKind::Gga)
    } else {
        None
    }
}

/// Kind of a sentence whose fields pass the kind's checks: RMC needs 12
/// fields and status `A`; GSA needs 17 fields; GGA needs 9 fields and fix
/// quality `1` or `2`.
pub open spec fn spec_kind(f: Seq<Seq<u8>>) -> Option<NmeaKind> {
    match spec_tag(f[0]) {
        Some(NmeaKind::Rmc) => if f.len() >= 12 && f[2] == seq![65u8] {
            Some(NmeaKind::Rmc)
        } else {
            None
        },
        Some(NmeaKind::Gsa) => if f.len() >= 17 {
            Some(NmeaKind::Gsa)
        } else {
            None
        },
        Some(NmeaKind::Gga) => if f.len() >= 9 && (f[6] == seq![49u8] || f[6] == seq![50u8]) {
            Some(NmeaKind::Gga)
        } else {
            None
        },
        None => None,
    }
}

/// Raw fields of an accepted sentence, for the decimal numbers to be read.
#[derive(Debug)]
pub enum NmeaSentence {
    Rmc { time: Vec<u8>, lat: Vec<u8>, ns: Vec<u8>, lon: Vec<u8>, ew: Vec<u8>, speed: Vec<u8>, course: Vec<u8> },
    Gsa { hdop: Vec<u8> },
    Gga { time: Vec<u8>, lat: Vec<u8>, ns: Vec<u8>, lon: Vec<u8>, ew: Vec<u8>, hdop: Vec<u8> },
}

fn field_is(f: &Vec<u8>, lit: &[u8]) -> (b: bool)
    ensures
        b == (f@ == lit@),
{
    if f.len() != lit.len() {
        return false;
    }
    let mut i: usize = 0;
    while i < f.len()
        invariant
            f@.len() == lit@.len(),
            i <= f@.len(),
            forall|j: int| 0 <= j < i ==> f@[j] == lit@[j],
        decreases f@.len() - i,
    {
        if f[i] != lit[i] {
            return false;
        }
        i = i + 1;
    }
    assert(f@ == lit@);
    true
}

fn tag_of(f: &Vec<u8>) -> (k: Option<NmeaKind>)
    ensures
        k == spec_tag(f@),
{
    let rmc_gp: [u8; 6] = [36, 71, 80, 82, 77, 67];
    let rmc_gn: [u8; 6] = [36, 71, 78, 82, 77, 67];
    let gsa_gn: [u8; 6] = [36, 71, 78, 71, 83, 65];
    let gsa_gp: [u8; 6] = [36, 71, 80, 71, 83, 65];
    let gga_gp: [u8; 6] = [36, 71, 80, 71, 71, 65];
    let gga_gn: [u8; 6] = [36, 71, 78, 71, 71, 65];
    assert(rmc_gp@ == seq![36u8, 71u8, 80u8, 82u8, 77u8, 67u8]);
    assert(rmc_gn@ == seq![36u8, 71u8, 78u8, 82u8, 77u8, 67u8]);
    assert(gsa_gn@ == seq![36u8, 71u8, 78u8, 71u8, 83u8, 65u8]);
    assert(gsa_gp@ == seq![36u8, 71u8, 80u8, 71u8, 83u8, 65u8]);
    assert(gga_gp@ == seq![36u8, 71u8, 80u8, 71u8, 71u8, 65u8]);
    assert(gga_gn@ == seq![36u8, 71u8, 78u8, 71u8, 71u8, 65u8]);
    if field_is(f, rmc_gp.as_slice()) || field_is(f, rmc_gn.as_slice()) {
        Some(NmeaKind::Rmc)
    } else if field_is(f, gsa_gn.as_slice()) || field_is(f, gsa_gp.as_slice()) {
        Some(NmeaKind::Gsa)
    } else if field_is(f, gga_gp.as_slice()) || field_is(f, gga_gn.as_slice()) {
        Some(NmeaKind::Gga)
    } else {
        None
    }
}

fn field_is_byte(f: &Vec<u8>, c: u8) -> (b: bool)
    ensures
        b == (f@ == seq![c]),
{
    if f.len() == 1 && f[0] == c {
        assert(f@ == seq![c]);
        true
    } else {
        false
    }
}

/// Checks and selects a sentence: `None` unless the checksum holds and the
/// fields pass the checks of an RMC, GSA or GGA sentence (see `spec_kind`);
/// otherwise the raw fields of the numbers the kind carries: RMC time (1),
/// latitude (3, 4), longitude (5, 6), speed (7), course (8); GSA HDOP (second
/// to last); GGA time (1), latitude (2, 3), longitude (4, 5), HDOP (8).
pub fn prepare_sentence(sentence: &str) -> (r: Option<NmeaSentence>)
    requires
        checksum_input_ok(sentence.spec_bytes()),
    ensures
        ({
            let f = spec_fields(sentence.spec_bytes());
            &&& r is Some <==> (spec_checksum_ok(sentence.spec_bytes()) && spec_kind(f) is Some)
            &&& r matches Some(NmeaSentence::Rmc { time, lat, ns, lon, ew, speed, course }) ==> {
                &&& spec_kind(f) == Some(NmeaKind::Rmc)
                &&& time@ == f[1] && lat@ == f[3] && ns@ == f[4] && lon@ == f[5] && ew@ == f[6]
                &&& speed@ == f[7] && course@ == f[8]
            }
            &&& r matches Some(NmeaSentence::Gsa { hdop }) ==> {
                &&& spec_kind(f) == Some(NmeaKind::Gsa)
                &&& hdop@ == f[f.len() - 2]
            }
            &&& r matches Some(NmeaSentence::Gga { time, lat, ns, lon, ew, hdop }) ==> {
                &&& spec_kind(f) == Some(NmeaKind::Gga)
                &&& time@ == f[1] && lat@ == f[2] && ns@ == f[3] && lon@ == f[4] && ew@ == f[5]
                &&& hdop@ == f[8]
            }
        }),
{
    if !verify_checksum(sentence) {
        return None;
    }
    let b = sentence.as_bytes();
    let parts = split_fields(b);
    let ghost f = spec_fields(b@);
    assert(f.len() >= 1);
    match tag_of(&parts[0]) {
        Some(NmeaKind::Rmc) => {
            if parts.len() < 12 || !field_is_byte(&parts[2], 65) {
                return None;
            }
            Some(
                NmeaSentence::Rmc {
                    time: parts[1].clone(),
                    lat: parts[3].clone(),
                    ns: parts[4].clone(),
                    lon: parts[5].clone(),
                    ew: parts[6].clone(),
                    speed: parts[7].clone(),
                    course: parts[8].clone(),
                },
            )
        },
        Some(NmeaKind::Gsa) => {
            if parts.len() < 17 {
                return None;
            }
            let hdop_idx = parts.len() - 2;
            Some(NmeaSentence::Gsa { hdop: parts[hdop_idx].clone() })
        },
        Some(NmeaKind::Gga) => {
            if parts.len() < 9 {
                return None;
            }
            if !field_is_byte(&parts[6], 49) && !field_is_byte(&parts[6], 50) {
                return None;
            }
            Some(
                NmeaSentence::Gga {
                    time: parts[1].clone(),
                    lat: parts[2].clone(),
                    ns: parts[3].clone(),
                    lon: parts[4].clone(),
                    ew: parts[5].clone(),
                    hdop: parts[8].clone(),
                },
            )
        },
        None => None,
    }
}

pub open spec fn spec_is_digit(c: u8) -> bool {
    48 <= c <= 57
}

/// A two-character unsigned number (an optional `+` then digits), or 0 when
/// it does not read as one.
pub open spec fn spec_two_digits(a: u8, b: u8) -> int {
    if spec_is_digit(a) && spec_is_digit(b) {
        10 * (a - 48) + (b - 48)
    } else if a == PLUS && spec_is_digit(b) {
        b - 48
    } else {
        0
    }
}

/// Time fields on which reading `hhmmss` is defined: shorter than six bytes,
/// or with the pairs starting and ending on characters.
pub open spec fn time_field_ok(t: Seq<u8>) -> bool {
    t.len() < 6 || (spec_boundary(t, 2) && spec_boundary(t, 4) && spec_boundary(t, 6))
}

/// Milliseconds of the day of a time field `hhmmss...` (at least six bytes).
pub open spec fn spec_time_ms(t: Seq<u8>) -> u64 {
    ((spec_two_digits(t[0], t[1]) * 3600 + spec_two_digits(t[2], t[3]) * 60 + spec_two_digits(t[4], t[5]))
        * 1000) as u64
}

/// Whether reading the time field is defined (see `time_field_ok`).
pub fn check_time_field(t: &[u8]) -> (b: bool)
    ensures
        b == time_field_ok(t@),
{
    if t.len() < 6 {
        return true;
    }
    let ok2 = !(0x80 <= t[2] && t[2] < 0xC0);
    let ok4 = !(0x80 <= t[4] && t[4] < 0xC0);
    let ok6 = t.len() == 6 || !(0x80 <= t[6] && t[6] < 0xC0);
    ok2 && ok4 && ok6
}

fn two_digits(a: u8, b: u8) -> (r: u64)
    ensures
        r == spec_two_digits(a, b),
        r <= 99,
{
    if 48 <= a && a <= 57 && 48 <= b && b <= 57 {
        10 * ((a - 48) as u64) + ((b - 48) as u64)
    } else if a == PLUS && 48 <= b && b <= 57 {
        (b - 48) as u64
    } else {
        0
    }
}

fn time_ms(t: &[u8]) -> (r: u64)
    requires
        t@.len() >= 6,
    ensures
        r == spec_time_ms(t@),
{
    let hh = two_digits(t[0], t[1]);
    let mm = two_digits(t[2], t[3]);
    let ss = two_digits(t[4], t[5]);
    (hh * 3600 + mm * 60 + ss) * 1000
}

/// Course in centidegrees folded into `-18000..=18000` (above 18000 wraps
/// down by a full turn), as a heading.
pub open spec fn spec_wrap_heading(h: i32) -> HeadCdeg {
    (if h > 18000 {
        h - 36000
    } else {
        h as int
    }) as i16
}

pub fn wrap_heading(h: i32) -> (r: HeadCdeg)
    ensures
        r == spec_wrap_heading(h),
{
    let w = if h > 18000 {
        h - 36000
    } else {
        h
    };
    #[verifier::truncate]
    (w as i16)
}

/// One GPS fix built from the sentences of one second; the position is the
/// caller's opaque value.
#[derive(Debug, Clone, Copy)]
pub struct BuiltFix<P> {
    pub timestamp: u64,
    pub lat: P,
    pub lon: P,
    pub speed_cms: Option<SpeedCms>,
    pub heading_cdeg: Option<HeadCdeg>,
    pub hdop_x10: Option<u16>,
}

/// Merges NMEA sentences into one fix per GPS timestamp. The previous
/// snapshot is emitted when a new timestamp arrives; the first timestamp
/// never triggers an emission.
#[derive(Debug, Clone, Copy)]
pub struct FixAccumulator<P> {
    pub timestamp: Option<u64>,
    pub lat: Option<P>,
    pub lon: Option<P>,
    pub speed: Option<SpeedCms>,
    pub heading: Option<HeadCdeg>,
    pub hdop: Option<u16>,
    pub has_fix: bool,
    pub last_emitted_timestamp: Option<u64>,
}

/// The empty accumulator.
pub open spec fn spec_empty_acc<P>() -> FixAccumulator<P> {
    FixAccumulator {
        timestamp: None,
        lat: None,
        lon: None,
        speed: None,
        heading: None,
        hdop: None,
        has_fix: false,
        last_emitted_timestamp: None,
    }
}

/// Result of `should_emit` and the accumulator after it: with a timestamp and
/// none emitted yet, remember it without emitting; with a new timestamp,
/// remember it and emit; otherwise nothing.
pub open spec fn spec_should_emit<P>(acc: FixAccumulator<P>) -> (bool, FixAccumulator<P>) {
    match acc.timestamp {
        None => (false, acc),
        Some(ts) => match acc.last_emitted_timestamp {
            None => (false, FixAccumulator { last_emitted_timestamp: Some(ts), ..acc }),
            Some(last) => if last != ts {
                (true, FixAccumulator { last_emitted_timestamp: Some(ts), ..acc })
            } else {
                (false, acc)
            },
        },
    }
}

/// Quality of a fix: full with motion and HDOP, motion-only without HDOP,
/// position-only otherwise.
pub open spec fn spec_quality(has_motion: bool, has_quality: bool) -> FixQuality {
    if has_motion && has_quality {
        FixQuality::Full
    } else if has_motion {
        FixQuality::MotionOnly
    } else {
        FixQuality::PositionOnly
    }
}

/// The fix an accumulator holds: present once a position sentence was
/// accepted and a position and timestamp are known.
pub open spec fn spec_build<P>(acc: FixAccumulator<P>) -> Option<(BuiltFix<P>, FixQuality)> {
    if !acc.has_fix {
        None
    } else {
        match (acc.lat, acc.lon, acc.timestamp) {
            (Some(lat), Some(lon), Some(ts)) => Some(
                (
                    BuiltFix {
                        timestamp: ts,
                        lat,
                        lon,
                        speed_cms: acc.speed,
                        heading_cdeg: acc.heading,
                        hdop_x10: acc.hdop,
                    },
                    spec_quality(acc.speed is Some || acc.heading is Some, acc.hdop is Some),
                ),
            ),
            _ => None,
        }
    }
}

/// Timestamp after a sentence with time field `t`: unchanged when the field is
/// shorter than six bytes.
pub open spec fn spec_new_timestamp(old_ts: Option<u64>, t: Seq<u8>) -> Option<u64> {
    if t.len() >= 6 {
        Some(spec_time_ms(t))
    } else {
        old_ts
    }
}

impl<P: Copy> Default for FixAccumulator<P> {
    fn default() -> (r: Self)
        ensures
            r == spec_empty_acc::<P>(),
    {
        Self::new()
    }
}

impl<P: Copy> FixAccumulator<P> {
    pub fn new() -> (r: Self)
        ensures
            r == spec_empty_acc::<P>(),
    {
        FixAccumulator {
            timestamp: None,
            lat: None,
            lon: None,
            speed: None,
            heading: None,
            hdop: None,
            has_fix: false,
            last_emitted_timestamp: None,
        }
    }

    /// Whether the timestamp changed since the last emission (see `spec_should_emit`).
    pub fn should_emit(&mut self) -> (b: bool)
        ensures
            (b, *final(self)) == spec_should_emit(*old(self)),
    {
        let ts = match self.timestamp {
            Some(t) => t,
            None => {
                return false;
            },
        };
        match self.last_emitted_timestamp {
            None => {
                self.last_emitted_timestamp = Some(ts);
                false
            },
            Some(last_ts) => {
                if last_ts != ts {
                    self.last_emitted_timestamp = Some(ts);
                    true
                } else {
                    false
                }
            },
        }
    }

    /// Emission is already recorded by `should_emit`: nothing changes.
    pub fn mark_emitted(&mut self)
        ensures
            *final(self) == *old(self),
    {
    }

    /// The fix held, with its quality (see `spec_build`).
    pub fn build(&self) -> (r: Option<(BuiltFix<P>, FixQuality)>)
        ensures
            r == spec_build(*self),
    {
        if !self.has_fix {
            return None;
        }
        let lat = match self.lat {
            Some(v) => v,
            None => {
                return None;
            },
        };
        let lon = match self.lon {
            Some(v) => v,
            None => {
                return None;
            },
        };
        let timestamp = match self.timestamp {
            Some(v) => v,
            None => {
                return None;
            },
        };
        let has_motion = self.speed.is_some() || self.heading.is_some();
        let has_quality = self.hdop.is_some();
        let quality = if has_motion && has_quality {
            FixQuality::Full
        } else if has_motion {
            FixQuality::MotionOnly
        } else {
            FixQuality::PositionOnly
        };
        Some(
            (
                BuiltFix {
                    timestamp,
                    lat,
                    lon,
                    speed_cms: self.speed,
                    heading_cdeg: self.heading,
                    hdop_x10: self.hdop,
                },
                quality,
            ),
        )
    }

    /// Back to the empty accumulator.
    pub fn reset(&mut self)
        ensures
            *final(self) == spec_empty_acc::<P>(),
    {
        *self = Self::new();
    }

    /// Records an accepted RMC sentence: time (when the field has six bytes),
    /// position, speed, and course folded into a heading; the fix is present.
    pub fn record_rmc(&mut self, time: &[u8], lat: P, lon: P, speed_cms: SpeedCms, course_cdeg: i32) -> (b: bool)
        requires
            time_field_ok(time@),
        ensures
            b,
            *final(self) == (FixAccumulator {
                timestamp: spec_new_timestamp(old(self).timestamp, time@),
                lat: Some(lat),
                lon: Some(lon),
                speed: Some(speed_cms),
                heading: Some(spec_wrap_heading(course_cdeg)),
                has_fix: true,
                ..*old(self)
            }),
    {
        if time.len() >= 6 {
            self.timestamp = Some(time_ms(time));
        }
        self.lat = Some(lat);
        self.lon = Some(lon);
        self.speed = Some(speed_cms);
        self.heading = Some(wrap_heading(course_cdeg));
        self.has_fix = true;
        true
    }

    /// Records an accepted GSA sentence: the HDOP.
    pub fn record_gsa(&mut self, hdop_x10: u16) -> (b: bool)
        ensures
            b,
            *final(self) == (FixAccumulator { hdop: Some(hdop_x10), ..*old(self) }),
    {
        self.hdop = Some(hdop_x10);
        true
    }

    /// Records an accepted GGA sentence: time (when the field has six bytes),
    /// position and HDOP; the fix is present.
    pub fn record_gga(&mut self, time: &[u8], lat: P, lon: P, hdop_x10: u16) -> (b: bool)
        requires
            time_field_ok(time@),
        ensures
            b,
            *final(self) == (FixAccumulator {
                timestamp: spec_new_timestamp(old(self).timestamp, time@),
                lat: Some(lat),
                lon: Some(lon),
                hdop: Some(hdop_x10),
                has_fix: true,
                ..*old(self)
            }),
    {
        if time.len() >= 6 {
            self.timestamp = Some(time_ms(time));
        }
        self.lat = Some(lat);
        self.lon = Some(lon);
        self.hdop = Some(hdop_x10);
        self.has_fix = true;
        true
    }
}

/// One emission per timestamp: right after `should_emit`, asking again
/// (with no new sentence) never emits; and the first timestamp seen never
/// emits.
pub proof fn lemma_emit_once_per_timestamp<P>(acc: FixAccumulator<P>)
    ensures
        !spec_should_emit(spec_should_emit(acc).1).0,
        acc.last_emitted_timestamp is None ==> !spec_should_emit(acc).0,
        spec_should_emit(acc).1.timestamp == acc.timestamp,
        spec_build(spec_should_emit(acc).1) == spec_build(acc),
{
}

/// An emission happens exactly when a timestamp different from the last one
/// remembered is present.
pub proof fn lemma_emit_iff_new_timestamp<P>(acc: FixAccumulator<P>)
    ensures
        spec_should_emit(acc).0 <==> (acc.timestamp is Some && acc.last_emitted_timestamp is Some
            && acc.timestamp != acc.last_emitted_timestamp),
{
}

/// A reset accumulator holds no fix and does not emit.
pub proof fn lemma_reset_is_empty<P>()
    ensures
        spec_build(spec_empty_acc::<P>()) is None,
        !spec_should_emit(spec_empty_acc::<P>()).0,
{
}

/// Sentence order within a second does not matter: recording an RMC and a
/// GGA of the same time in either order gives the same fix.
pub proof fn lemma_rmc_gga_commute<P>(
    acc: FixAccumulator<P>,
    t: Seq<u8>,
    lat1: P,
    lon1: P,
    speed: SpeedCms,
    course: i32,
    lat2: P,
    lon2: P,
    hdop: u16,
)
    requires
        lat1 == lat2,
        lon1 == lon2,
    ensures
        ({
            let rmc = |a: FixAccumulator<P>|
                FixAccumulator {
                    timestamp: spec_new_timestamp(a.timestamp, t),
                    lat: Some(lat1),
                    lon: Some(lon1),
                    speed: Some(speed),
                    heading: Some(spec_wrap_heading(course)),
                    has_fix: true,
                    ..a
                };
            let gga = |a: FixAccumulator<P>|
                FixAccumulator {
                    timestamp: spec_new_timestamp(a.timestamp, t),
                    lat: Some(lat2),
                    lon: Some(lon2),
                    hdop: Some(hdop),
                    has_fix: true,
                    ..a
                };
            spec_build(gga(rmc(acc))) == spec_build(rmc(gga(acc)))
        }),
{
}

} // verus!
