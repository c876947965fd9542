//! Input format selection and trace output naming, over Unix path syntax.
//!
//! A path is read as components separated by `/`: a leading `/` is the root;
//! empty segments and `.` segments are dropped, except a `.` at the very start
//! (the current directory); `..` is the parent directory; anything else is a
//! name. The file name is the last component when it is a name.

use vstd::prelude::*;
use vstd::string::StringSliceAdditionalSpecFns;

verus! {

pub const SLASH: u8 = 47;

pub const DOT: u8 = 46;

/// Scan state: whether a component was seen, the byte range of the last
/// component, the end of the component before it (or of the root), and the
/// start of the current segment.
pub open spec fn spec_root_end(b: Seq<u8>) -> int {
    if b.len() > 0 && b[0] == SLASH {
        1
    } else {
        0
    }
}

/// State after the segment `[s, e)`: empty and non-initial `.` segments are
/// dropped; any other becomes the last component.
pub open spec fn spec_apply_segment(b: Seq<u8>, st: (bool, int, int, int, int), s: int, e: int) -> (
    bool,
    int,
    int,
    int,
    int,
) {
    let empty = e == s;
    let dot = e == s + 1 && b[s] == DOT;
    if empty || (dot && s != 0) {
        st
    } else {
        (
            true,
            s,
            e,
            if st.0 {
                st.2
            } else {
                st.3
            },
            st.4,
        )
    }
}

/// Scan state after the first `k` bytes (segments closed by each `/`).
pub open spec fn spec_scan_upto(b: Seq<u8>, k: int) -> (bool, int, int, int, int)
    decreases k,
{
    if k <= 0 {
        (false, 0, 0, spec_root_end(b), 0)
    } else {
        let st = spec_scan_upto(b, k - 1);
        if b[k - 1] == SLASH {
            let a = spec_apply_segment(b, st, st.4, k - 1);
            (a.0, a.1, a.2, a.3, k)
        } else {
            st
        }
    }
}

/// Scan state of the whole path.
pub open spec fn spec_scan(b: Seq<u8>) -> (bool, int, int, int, int) {
    let st = spec_scan_upto(b, b.len() as int);
    spec_apply_segment(b, st, st.4, b.len() as int)
}

/// The file name: the last component, when it is a name.
pub open spec fn spec_file_name(b: Seq<u8>) -> Option<Seq<u8>> {
    let st = spec_scan(b);
    let n = b.subrange(st.1, st.2);
    if st.0 && n != seq![DOT] && n != seq![DOT, DOT] {
        Some(n)
    } else {
        None
    }
}

/// The parent: the path up to the end of the component before the last one
/// (the root, or nothing), when there is a last component.
pub open spec fn spec_parent(b: Seq<u8>) -> Option<Seq<u8>> {
    let st = spec_scan(b);
    if st.0 {
        Some(b.subrange(0, st.3))
    } else {
        None
    }
}

/// Index of the last `.` among the first `k` bytes.
pub open spec fn spec_last_dot(n: Seq<u8>, k: int) -> Option<int>
    decreases k,
{
    if k <= 0 {
        None
    } else if n[k - 1] == DOT {
        Some(k - 1)
    } else {
        spec_last_dot(n, k - 1)
    }
}

/// File stem: the name without its extension; a name with no `.` but at its
/// start has no extension.
pub open spec fn spec_stem(n: Seq<u8>) -> Seq<u8> {
    match spec_last_dot(n, n.len() as int) {
        Some(d) => if d > 0 {
            n.subrange(0, d)
        } else {
            n
        },
        None => n,
    }
}

/// Extension: what follows the last `.` of the name, unless that `.` starts it.
pub open spec fn spec_extension(n: Seq<u8>) -> Option<Seq<u8>> {
    match spec_last_dot(n, n.len() as int) {
        Some(d) => if d > 0 {
            Some(n.subrange(d + 1, n.len() as int))
        } else {
            None
        },
        None => None,
    }
}

/// Input file formats.
#[derive(Debug, Clone, Copy, PartialEq, Eq, Structural)]
pub enum InputFormat {
    /// NMEA sentences.
    Nmea,
    /// JSON lines of location samples.
    Jsonl,
}

/// `jsonl`.
pub open spec fn spec_jsonl() -> Seq<u8> {
    seq![106u8, 115u8, 111u8, 110u8, 108u8]
}

/// `_nmea`.
pub open spec fn spec_nmea_suffix() -> Seq<u8> {
    seq![95u8, 110u8, 109u8, 101u8, 97u8]
}

/// `_trace_v2.jsonl`.
pub open spec fn spec_trace_suffix() -> Seq<u8> {
    seq![95u8, 116u8, 114u8, 97u8, 99u8, 101u8, 95u8, 118u8, 50u8, 46u8, 106u8, 115u8, 111u8, 110u8, 108u8]
}

/// Format of an input file: JSON lines when the extension is `jsonl`, NMEA otherwise.
pub open spec fn spec_format(b: Seq<u8>) -> InputFormat {
    match spec_file_name(b) {
        Some(n) => if spec_extension(n) == Some(spec_jsonl()) {
            InputFormat::Jsonl
        } else {
            InputFormat::Nmea
        },
        None => InputFormat::Nmea,
    }
}

/// Trace path for an input path: the file stem (empty without a file name)
/// with a trailing `_nmea` removed and `_trace_v2.jsonl` appended, placed in
/// the parent directory (joined with `/` unless the parent is empty or ends
/// with `/`).
pub open spec fn spec_trace_path(b: Seq<u8>) -> Seq<u8> {
    let stem = match spec_file_name(b) {
        Some(n) => spec_stem(n),
        None => Seq::empty(),
    };
    let base = if stem.len() >= 5 && stem.subrange(stem.len() - 5, stem.len() as int)
        == spec_nmea_suffix() {
        stem.subrange(0, stem.len() - 5)
    } else {
        stem
    };
    let name = base + spec_trace_suffix();
    match spec_parent(b) {
        Some(p) => if p.len() > 0 && p[p.len() - 1] != SLASH {
            p + seq![SLASH] + name
        } else {
            p + name
        },
        None => name,
    }
}

/// Path scan in one pass (see `spec_scan`).
fn scan(b: &[u8]) -> (r: (bool, usize, usize, usize))
    ensures
        ({
            let st = spec_scan(b@);
            &&& r.0 == st.0
            &&& r.1 == st.1
            &&& r.2 == st.2
            &&& r.3 == st.3
            &&& st.0 ==> 0 <= st.3 <= st.1 < st.2 <= b@.len()
            &&& !st.0 ==> 0 <= st.3 <= b@.len()
        }),
{
    let n = b.len();
    let mut has_last = false;
    let mut last_start: usize = 0;
    let mut last_end: usize = 0;
    let mut prev_end: usize = if n > 0 && b[0] == SLASH {
        1
    } else {
        0
    };
    let mut seg_start: usize = 0;
    let mut i: usize = 0;
    while i < n
        invariant
            n == b@.len(),
            i <= n,
            ({
                let st = spec_scan_upto(b@, i as int);
                &&& st.0 == has_last
                &&& st.1 == last_start
                &&& st.2 == last_end
                &&& st.3 == prev_end
                &&& st.4 == seg_start
            }),
            seg_start <= i,
            has_last ==> prev_end <= last_start < last_end <= seg_start,
            !has_last ==> prev_end == spec_root_end(b@),
            seg_start == 0 ==> forall|j: int| 0 <= j < i ==> b@[j] != SLASH,
        decreases n - i,
    {
        if b[i] == SLASH {
            let empty = i == seg_start;
            let dot = i - seg_start == 1 && b[seg_start] == DOT;
            if !(empty || (dot && seg_start != 0)) {
                prev_end = if has_last {
                    last_end
                } else {
                    prev_end
                };
                has_last = true;
                last_start = seg_start;
                last_end = i;
            }
            seg_start = i + 1;
        }
        i = i + 1;
    }
    let empty = n == seg_start;
    let dot = n - seg_start == 1 && b[seg_start] == DOT;
    if !(empty || (dot && seg_start != 0)) {
        prev_end = if has_last {
            last_end
        } else {
            prev_end
        };
        has_last = true;
        last_start = seg_start;
        last_end = n;
    }
    (has_last, last_start, last_end, prev_end)
}

fn bytes_eq(a: &[u8], lo: usize, hi: usize, lit: &[u8]) -> (r: bool)
    requires
        lo <= hi <= a@.len(),
    ensures
        r == (a@.subrange(lo as int, hi as int) == lit@),
{
    if hi - lo != lit.len() {
        return false;
    }
    let mut i: usize = 0;
    while i < lit.len()
        invariant
            lo <= hi <= a@.len(),
            hi - lo == lit@.len(),
            i <= lit@.len(),
            forall|j: int| 0 <= j < i ==> a@[lo + j] == lit@[j],
        decreases lit@.len() - i,
    {
        if a[lo + i] != lit[i] {
            return false;
        }
        i = i + 1;
    }
    assert(a@.subrange(lo as int, hi as int) == lit@);
    true
}

/// Index of the last `.` in `b[lo..hi]`, relative to `lo`.
fn last_dot(b: &[u8], lo: usize, hi: usize) -> (r: Option<usize>)
    requires
        lo <= hi <= b@.len(),
    ensures
        ({
            let n = b@.subrange(lo as int, hi as int);
            &&& r matches Some(d) ==> spec_last_dot(n, n.len() as int) == Some(d as int) && d < n.len()
            &&& r is None ==> spec_last_dot(n, n.len() as int) is None
        }),
{
    let ghost n = b@.subrange(lo as int, hi as int);
    let mut k: usize = hi - lo;
    while k > 0
        invariant
            lo <= hi <= b@.len(),
            n == b@.subrange(lo as int, hi as int),
            k <= n.len(),
            spec_last_dot(n, n.len() as int) == spec_last_dot(n, k as int),
        decreases k,
    {
        if b[lo + k - 1] == DOT {
            return Some(k - 1);
        }
        k = k - 1;
    }
    None
}

impl InputFormat {
    /// JSON lines when the file extension is `jsonl`, NMEA otherwise.
    pub fn from_path(path: &str) -> (f: InputFormat)
        ensures
            f == spec_format(path.spec_bytes()),
    {
        let b = path.as_bytes();
        let (has_last, ls, le, _pe) = scan(b);
        if !has_last {
            return InputFormat::Nmea;
        }
        let dot1: [u8; 1] = [DOT];
        let dot2: [u8; 2] = [DOT, DOT];
        assert(dot1@ == seq![DOT]);
        assert(dot2@ == seq![DOT, DOT]);
        if bytes_eq(b, ls, le, dot1.as_slice()) || bytes_eq(b, ls, le, dot2.as_slice()) {
            return InputFormat::Nmea;
        }
        let ghost n = b@.subrange(ls as int, le as int);
        match last_dot(b, ls, le) {
            Some(d) => {
                if d == 0 {
                    return InputFormat::Nmea;
                }
                let jsonl: [u8; 5] = [106, 115, 111, 110, 108];
                assert(jsonl@ == spec_jsonl());
                assert(b@.subrange((ls + d + 1) as int, le as int) == n.subrange(d + 1, n.len() as int));
                if bytes_eq(b, ls + d + 1, le, jsonl.as_slice()) {
                    InputFormat::Jsonl
                } else {
                    InputFormat::Nmea
                }
            },
            None => InputFormat::Nmea,
        }
    }
}

fn push_range(out: &mut Vec<u8>, b: &[u8], lo: usize, hi: usize)
    requires
        lo <= hi <= b@.len(),
    ensures
        final(out)@ == old(out)@ + b@.subrange(lo as int, hi as int),
{
    let ghost start = out@;
    let mut i = lo;
    while i < hi
        invariant
            lo <= i <= hi <= b@.len(),
            out@ == start + b@.subrange(lo as int, i as int),
        decreases hi - i,
    {
        out.push(b[i]);
        i = i + 1;
        assert(out@ == start + b@.subrange(lo as int, i as int));
    }
}

/// Byte range of the file stem (empty without a file name).
fn stem_range(b: &[u8]) -> (r: (usize, usize, bool, usize))
    ensures
        r.0 <= r.1 <= b@.len(),
        b@.subrange(r.0 as int, r.1 as int) == match spec_file_name(b@) {
            Some(n) => spec_stem(n),
            None => Seq::empty(),
        },
        r.2 == spec_scan(b@).0,
        r.2 ==> r.3 == spec_scan(b@).3 && r.3 <= b@.len(),
        spec_parent(b@) == (if r.2 {
            Some(b@.subrange(0, r.3 as int))
        } else {
            None
        }),
{
    let (has_last, ls, le, pe) = scan(b);
    let dot1: [u8; 1] = [DOT];
    let dot2: [u8; 2] = [DOT, DOT];
    assert(dot1@ == seq![DOT]);
    assert(dot2@ == seq![DOT, DOT]);
    let is_name = has_last && !bytes_eq(b, ls, le, dot1.as_slice()) && !bytes_eq(
        b,
        ls,
        le,
        dot2.as_slice(),
    );
    if !is_name {
        assert(b@.subrange(0, 0) =~= Seq::<u8>::empty());
        return (0, 0, has_last, pe);
    }
    let ghost n = b@.subrange(ls as int, le as int);
    assert(spec_file_name(b@) == Some(n));
    match last_dot(b, ls, le) {
        Some(d) => if d > 0 {
            assert(b@.subrange(ls as int, (ls + d) as int) == n.subrange(0, d as int));
            (ls, ls + d, has_last, pe)
        } else {
            (ls, le, has_last, pe)
        },
        None => (ls, le, has_last, pe),
    }
}

/// Trace output path for an input path (see `spec_trace_path`), as UTF-8 bytes.
#[verifier::rlimit(30)]
pub fn generate_trace_path(nmea_path: &str) -> (r: Vec<u8>)
    ensures
        r@ == spec_trace_path(nmea_path.spec_bytes()),
{
    let b = nmea_path.as_bytes();
    let (s_lo, s_hi, has_parent, pe) = stem_range(b);
    let ghost stem = b@.subrange(s_lo as int, s_hi as int);
    let suffix: [u8; 5] = [95, 110, 109, 101, 97];
    assert(suffix@ == spec_nmea_suffix());
    let strip = s_hi - s_lo >= 5 && bytes_eq(b, s_hi - 5, s_hi, suffix.as_slice());
    let b_hi = if strip {
        s_hi - 5
    } else {
        s_hi
    };
    let ghost base = b@.subrange(s_lo as int, b_hi as int);
    proof {
        if stem.len() >= 5 {
            assert(stem.subrange(stem.len() - 5, stem.len() as int) == b@.subrange(
                s_hi - 5,
                s_hi as int,
            ));
            assert(stem.subrange(0, stem.len() - 5) == b@.subrange(s_lo as int, s_hi - 5));
        }
        assert(base == (if stem.len() >= 5 && stem.subrange(stem.len() - 5, stem.len() as int)
            == spec_nmea_suffix() {
            stem.subrange(0, stem.len() - 5)
        } else {
            stem
        }));
    }
    let mut out: Vec<u8> = Vec::new();
    let mut sep = false;
    if has_parent {
        push_range(&mut out, b, 0, pe);
        if pe > 0 && b[pe - 1] != SLASH {
            out.push(SLASH);
            sep = true;
        }
    }
    let ghost head = out@;
    push_range(&mut out, b, s_lo, b_hi);
    let tail: [u8; 15] = [95, 116, 114, 97, 99, 101, 95, 118, 50, 46, 106, 115, 111, 110, 108];
    assert(tail@ == spec_trace_suffix());
    push_range(&mut out, tail.as_slice(), 0, 15);
    assert(tail@.subrange(0, 15) == spec_trace_suffix());
    assert(out@ == head + (base + spec_trace_suffix()));
    proof {
        if has_parent {
            let p = b@.subrange(0, pe as int);
            if sep {
                assert(head == p + seq![SLASH]);
            } else {
                assert(head == p);
            }
        } else {
            assert(head =~= Seq::<u8>::empty());
        }
    }
    out
}

/// Counter of malformed JSON lines.
#[derive(Debug, Clone, Copy, PartialEq, Eq, Structural)]
pub struct JsonReader {
    pub skipped_lines: usize,
}

impl JsonReader {
    pub fn new() -> (r: Self)
        ensures
            r.skipped_lines == 0,
    {
        JsonReader { skipped_lines: 0 }
    }

    /// Number of malformed lines skipped so far.
    pub fn skipped_count(&self) -> (n: usize)
        ensures
            n == self.skipped_lines,
    {
        self.skipped_lines
    }

    /// Counts one malformed line.
    pub fn record_skip(&mut self)
        requires
            old(self).skipped_lines < usize::MAX,
        ensures
            final(self).skipped_lines == old(self).skipped_lines + 1,
    {
        self.skipped_lines = self.skipped_lines + 1;
    }
}

/// Normalised fields of one JSON location sample.
#[derive(Debug, Clone, Copy, PartialEq, Eq, Structural)]
pub struct JsonlFix {
    /// Sample time as given (ms).
    pub timestamp_ms: u64,
    /// Sample time in whole seconds.
    pub timestamp_s: u64,
    pub heading_cdeg: Option<i16>,
    pub speed_cms: Option<i32>,
    pub hdop_x10: Option<u16>,
}

/// Normalises a sample whose decimal fields were already scaled: the time in
/// seconds is the millisecond time divided by 1000, and the bearing (in
/// centidegrees) is folded into a heading as for NMEA courses.
pub fn normalize_sample(
    t_ms: u64,
    bearing_cdeg: Option<i32>,
    speed_cms: Option<i32>,
    hdop_x10: Option<u16>,
) -> (r: JsonlFix)
    ensures
        r.timestamp_ms == t_ms,
        r.timestamp_s == t_ms / 1000,
        r.heading_cdeg == (match bearing_cdeg {
            Some(h) => Some(crate::nmea::spec_wrap_heading(h)),
            None => None,
        }),
        r.speed_cms == speed_cms,
        r.hdop_x10 == hdop_x10,
{
    let heading_cdeg = match bearing_cdeg {
        Some(h) => Some(crate::nmea::wrap_heading(h)),
        None => None,
    };
    JsonlFix { timestamp_ms: t_ms, timestamp_s: t_ms / 1000, heading_cdeg, speed_cms, hdop_x10 }
}

/// Every trace path ends with `_trace_v2.jsonl`, so it is read back as JSON lines.
pub proof fn lemma_trace_path_suffix(b: Seq<u8>)
    ensures
        ({
            let r = spec_trace_path(b);
            &&& r.len() >= 15
            &&& r.subrange(r.len() - 15, r.len() as int) == spec_trace_suffix()
        }),
{
    let stem = match spec_file_name(b) {
        Some(n) => spec_stem(n),
        None => Seq::empty(),
    };
    let base = if stem.len() >= 5 && stem.subrange(stem.len() - 5, stem.len() as int)
        == spec_nmea_suffix() {
        stem.subrange(0, stem.len() - 5)
    } else {
        stem
    };
    let name = base + spec_trace_suffix();
    let r = spec_trace_path(b);
    let pre = match spec_parent(b) {
        Some(p) => if p.len() > 0 && p[p.len() - 1] != SLASH {
            p + seq![SLASH]
        } else {
            p
        },
        None => Seq::empty(),
    };
    assert(r =~= pre + base + spec_trace_suffix());
    assert(r.subrange(r.len() - 15, r.len() as int) =~= spec_trace_suffix());
}

} // verus!
