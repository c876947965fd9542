//! Corridor filter: which stops' corridors contain the current route position.

use vstd::prelude::*;
use crate::model::{DistCm, Stop};

verus! {

/// Whether `s_cm` lies in stop's corridor `[corridor_start_cm, corridor_end_cm]`.
pub open spec fn spec_in_corridor(stop: Stop, s_cm: int) -> bool {
    stop.corridor_start_cm <= s_cm <= stop.corridor_end_cm
}

/// Whether stop `i` is active: in corridor and (when `skip` is given) not skipped.
pub open spec fn spec_is_active(stops: Seq<Stop>, skip: Option<Seq<bool>>, s_cm: int, i: int) -> bool {
    &&& spec_in_corridor(stops[i], s_cm)
    &&& match skip {
        Some(flags) => !flags[i],
        None => true,
    }
}

/// Indices `i < k` of active stops, in increasing order.
pub open spec fn spec_active_upto(stops: Seq<Stop>, skip: Option<Seq<bool>>, s_cm: int, k: int) -> Seq<usize>
    decreases k,
{
    if k <= 0 {
        Seq::empty()
    } else {
        let prev = spec_active_upto(stops, skip, s_cm, k - 1);
        if spec_is_active(stops, skip, s_cm, k - 1) {
            prev.push((k - 1) as usize)
        } else {
            prev
        }
    }
}

/// Indices of all active stops, in increasing order.
pub open spec fn spec_active(stops: Seq<Stop>, skip: Option<Seq<bool>>, s_cm: int) -> Seq<usize> {
    spec_active_upto(stops, skip, s_cm, stops.len() as int)
}

fn collect_active(s_cm: DistCm, stops: &[Stop], skip_flags: Option<&[bool]>) -> (r: Vec<usize>)
    requires
        skip_flags matches Some(f) ==> f@.len() >= stops@.len(),
    ensures
        r@ == spec_active(
            stops@,
            match skip_flags {
                Some(f) => Some(f@),
                None => None,
            },
            s_cm as int,
        ),
{
    let ghost skip = match skip_flags {
        Some(f) => Some(f@),
        None => None,
    };
    let mut out: Vec<usize> = Vec::new();
    let mut i: usize = 0;
    while i < stops.len()
        invariant
            0 <= i <= stops@.len(),
            skip == (match skip_flags {
                Some(f) => Some(f@),
                None => None::<Seq<bool>>,
            }),
            skip_flags matches Some(f) ==> f@.len() >= stops@.len(),
            out@ == spec_active_upto(stops@, skip, s_cm as int, i as int),
        decreases stops@.len() - i,
    {
        let stop = stops[i];
        let skipped = match skip_flags {
            Some(f) => f[i],
            None => false,
        };
        if !skipped && s_cm >= stop.corridor_start_cm && s_cm <= stop.corridor_end_cm {
            out.push(i);
        }
        i = i + 1;
    }
    out
}

/// Indices of the stops whose corridor contains `s_cm` (bounds inclusive),
/// in increasing order.
pub fn find_active_stops(s_cm: DistCm, stops: &[Stop]) -> (r: Vec<usize>)
    ensures
        r@ == spec_active(stops@, None, s_cm as int),
{
    collect_active(s_cm, stops, None)
}

/// Indices of the stops whose corridor contains `s_cm` and whose skip flag is
/// not set, in increasing order.
pub fn active_stops(s_cm: DistCm, stops: &[Stop], skip_flags: &[bool]) -> (r: Vec<usize>)
    requires
        skip_flags@.len() >= stops@.len(),
    ensures
        r@ == spec_active(stops@, Some(skip_flags@), s_cm as int),
{
    collect_active(s_cm, stops, Some(skip_flags))
}

/// The active list holds exactly the active stops, each once, in increasing order.
pub proof fn lemma_active_characterized(stops: Seq<Stop>, skip: Option<Seq<bool>>, s_cm: int, k: int)
    requires
        0 <= k <= stops.len() <= usize::MAX,
    ensures
        ({
            let a = spec_active_upto(stops, skip, s_cm, k);
            &&& forall|j: int| 0 <= j < a.len() ==> 0 <= #[trigger] a[j] < k
            &&& forall|j: int| 0 <= j < a.len() ==> spec_is_active(stops, skip, s_cm, #[trigger] a[j] as int)
            &&& forall|j1: int, j2: int| 0 <= j1 < j2 < a.len() ==> #[trigger] a[j1] < #[trigger] a[j2]
            &&& forall|i: int| 0 <= i < k && spec_is_active(stops, skip, s_cm, i) ==> a.contains(i as usize)
        }),
    decreases k,
{
    if k > 0 {
        lemma_active_characterized(stops, skip, s_cm, k - 1);
        let prev = spec_active_upto(stops, skip, s_cm, k - 1);
        let a = spec_active_upto(stops, skip, s_cm, k);
        assert(forall|j: int| 0 <= j < prev.len() ==> a[j] == prev[j]);
        assert forall|i: int| 0 <= i < k && spec_is_active(stops, skip, s_cm, i) implies a.contains(
            i as usize,
        ) by {
            if i < k - 1 {
                let j = choose|j: int| 0 <= j < prev.len() && prev[j] == i as usize;
                assert(a[j] == prev[j]);
            } else {
                assert(a[a.len() - 1] == i as usize);
            }
        }
    }
}

/// With pairwise disjoint corridors, at most one stop is active at any position.
pub proof fn lemma_disjoint_corridors_single_active(stops: Seq<Stop>, s_cm: int)
    requires
        stops.len() <= usize::MAX,
        forall|i: int, j: int|
            0 <= i < j < stops.len() ==> #[trigger] stops[i].corridor_end_cm < #[trigger] stops[j].corridor_start_cm
                || stops[j].corridor_end_cm < stops[i].corridor_start_cm,
    ensures
        spec_active(stops, None, s_cm).len() <= 1,
{
    let a = spec_active(stops, None, s_cm);
    lemma_active_characterized(stops, None, s_cm, stops.len() as int);
    if a.len() > 1 {
        assert(a[0] < a[1]);
        assert(spec_is_active(stops, None, s_cm, a[0] as int));
        assert(spec_is_active(stops, None, s_cm, a[1] as int));
        let i = a[0] as int;
        let j = a[1] as int;
        assert(stops[i].corridor_end_cm < stops[j].corridor_start_cm || stops[j].corridor_end_cm
            < stops[i].corridor_start_cm);
    }
}

} // verus!
