//! Search strategies for map matching: a window around the last matched
//! segment, a 3x3 neighbourhood of the spatial grid, and a global scan.
//!
//! Every search keeps two running minima of the squared distance: over all
//! visited segments, and over those that pass the heading filter. A later
//! candidate replaces the current best only when it is strictly closer, so
//! ties go to the candidate visited first. When no candidate passes the
//! heading filter, the closest candidate of any heading is returned.

use vstd::prelude::*;
use crate::model;
use crate::model::{Dist2, DistCm, HeadCdeg, RouteData, SpeedCms};
use crate::heading;
use crate::heading::heading_eligible;
use crate::projection;
use crate::projection::segment_score;

verus! {

/// Window searched around the last matched segment.
pub const WINDOW_BACK: usize = 2;

pub const WINDOW_FWD: usize = 10;

/// Early-exit threshold of the window search: (20 m)².
pub const MAX_DIST2_EARLY_EXIT: Dist2 = 4_000_000;

/// The GPS observation a search matches, with the admissible range of the
/// segments' cumulative distance.
#[derive(Clone, Copy)]
pub struct MatchQuery {
    pub gps_x: DistCm,
    pub gps_y: DistCm,
    pub gps_heading: HeadCdeg,
    pub gps_speed: SpeedCms,
    pub is_first_fix: bool,
    pub min_s_cm: DistCm,
    pub max_s_cm: DistCm,
}

/// Running minima of a search.
#[derive(Clone, Copy)]
pub struct SegmentTracker {
    pub best_eligible_idx: usize,
    pub best_eligible_dist2: Dist2,
    pub eligible_found: bool,
    pub best_any_idx: usize,
    pub best_any_dist2: Dist2,
}

/// Whether candidate `c` is a segment of the route inside the query's range.
pub open spec fn spec_accepts(route: &RouteData, q: MatchQuery, c: int) -> bool {
    &&& 0 <= c < route.nodes@.len()
    &&& q.min_s_cm <= route.nodes@[c].cum_dist_cm <= q.max_s_cm
}

/// Squared distance from the query point to segment `c`.
pub open spec fn spec_cand_dist2(route: &RouteData, q: MatchQuery, c: int) -> int {
    projection::spec_dist2(q.gps_x as int, q.gps_y as int, route.nodes@[c])
}

/// Whether segment `c` passes the heading filter for the query.
pub open spec fn spec_cand_eligible(route: &RouteData, q: MatchQuery, c: int) -> bool {
    heading::spec_heading_eligible(
        q.gps_heading as int,
        q.gps_speed as int,
        route.nodes@[c].heading_cdeg as int,
        q.is_first_fix,
    )
}

/// Effect of visiting candidate `c` on the running minima.
pub open spec fn spec_step(route: &RouteData, q: MatchQuery, tr: SegmentTracker, c: int) -> SegmentTracker {
    if !spec_accepts(route, q, c) {
        tr
    } else {
        let d = spec_cand_dist2(route, q, c);
        let tr1 = if d < tr.best_any_dist2 {
            SegmentTracker { best_any_idx: c as usize, best_any_dist2: d as i64, ..tr }
        } else {
            tr
        };
        if spec_cand_eligible(route, q, c) && d < tr1.best_eligible_dist2 {
            SegmentTracker {
                best_eligible_idx: c as usize,
                best_eligible_dist2: d as i64,
                eligible_found: true,
                ..tr1
            }
        } else {
            tr1
        }
    }
}

/// Running minima after visiting `cands` in order, starting from `tr`.
pub open spec fn spec_scan(route: &RouteData, q: MatchQuery, tr: SegmentTracker, cands: Seq<int>) -> SegmentTracker
    decreases cands.len(),
{
    if cands.len() == 0 {
        tr
    } else {
        spec_step(route, q, spec_scan(route, q, tr, cands.drop_last()), cands.last())
    }
}

/// Empty minima: nothing found, distances at `i64::MAX`, indices 0.
pub open spec fn spec_empty_tracker() -> SegmentTracker {
    SegmentTracker {
        best_eligible_idx: 0,
        best_eligible_dist2: i64::MAX,
        eligible_found: false,
        best_any_idx: 0,
        best_any_dist2: i64::MAX,
    }
}

/// Final answer of a search: the best eligible segment if any passed the
/// heading filter, else the best of any heading.
pub open spec fn spec_select(tr: SegmentTracker) -> (usize, i64) {
    if tr.eligible_found {
        (tr.best_eligible_idx, tr.best_eligible_dist2)
    } else {
        (tr.best_any_idx, tr.best_any_dist2)
    }
}

/// The indices `start, start + 1, ..., end` (empty when `start > end`).
pub open spec fn spec_index_range(start: int, end: int) -> Seq<int> {
    if start > end {
        Seq::empty()
    } else {
        Seq::new((end - start + 1) as nat, |i: int| start + i)
    }
}

/// Segment indices listed in the `k`-th cell (row-major, `k` in 0..9) of the
/// 3x3 neighbourhood of grid cell `(gx, gy)`.
pub open spec fn spec_neighbour_cell(route: &RouteData, gx: int, gy: int, k: int) -> Seq<int> {
    let nx = gx + k % 3 - 1;
    let ny = gy + k / 3 - 1;
    if nx < 0 || ny < 0 {
        Seq::empty()
    } else {
        route.grid.spec_cell(nx, ny).map_values(|v: u16| v as int)
    }
}

/// Candidates of the first `k` neighbourhood cells, in visiting order.
pub open spec fn spec_grid_cands_upto(route: &RouteData, gx: int, gy: int, k: int) -> Seq<int>
    decreases k,
{
    if k <= 0 {
        Seq::empty()
    } else {
        spec_grid_cands_upto(route, gx, gy, k - 1) + spec_neighbour_cell(route, gx, gy, k - 1)
    }
}

/// All candidates of the 3x3 neighbourhood of cell `(gx, gy)`, in visiting order.
pub open spec fn spec_grid_cands(route: &RouteData, gx: int, gy: int) -> Seq<int> {
    spec_grid_cands_upto(route, gx, gy, 9)
}

/// Grid cell coordinate of `v` relative to the origin `v0`.
pub open spec fn spec_cell_coord(v: int, v0: int, size: int) -> int {
    (v - v0) / size
}

/// Inputs on which a search does not overflow: the heading filter is defined,
/// every segment's distance is computable, and grid coordinates fit.
pub open spec fn search_inputs_ok(route: &RouteData, q: MatchQuery) -> bool {
    &&& heading::heading_inputs_ok(q.gps_heading as int, q.gps_speed as int, q.is_first_fix)
    &&& forall|i: int|
        0 <= i < route.nodes@.len() ==> #[trigger] projection::dist2_inputs_ok(
            q.gps_x as int,
            q.gps_y as int,
            route.nodes@[i],
        )
    &&& route.grid.grid_size_cm > 0
    &&& model::fits_i32(q.gps_x - route.x0_cm)
    &&& model::fits_i32(q.gps_y - route.y0_cm)
    &&& spec_cell_coord(q.gps_x as int, route.x0_cm as int, route.grid.grid_size_cm as int) + 2
        <= i32::MAX
    &&& spec_cell_coord(q.gps_y as int, route.y0_cm as int, route.grid.grid_size_cm as int) + 2
        <= i32::MAX
}

/// Scan over all segments of the route.
pub open spec fn spec_global(route: &RouteData, q: MatchQuery) -> (usize, i64) {
    let n = route.nodes@.len() as int;
    let end = if n == 0 { 0 } else { n - 1 };
    spec_select(spec_scan(route, q, spec_empty_tracker(), spec_index_range(0, end)))
}

/// Visit candidate `c`.
fn visit_candidate(tr: &mut SegmentTracker, route: &RouteData, q: &MatchQuery, c: usize)
    requires
        search_inputs_ok(route, *q),
    ensures
        *final(tr) == spec_step(route, *q, *old(tr), c as int),
{
    if let Some(seg) = route.get_node(c) {
        if q.min_s_cm <= seg.cum_dist_cm && seg.cum_dist_cm <= q.max_s_cm {
            assert(projection::dist2_inputs_ok(q.gps_x as int, q.gps_y as int, route.nodes@[c as int]));
            let d2 = segment_score(q.gps_x, q.gps_y, &seg);
            if d2 < tr.best_any_dist2 {
                tr.best_any_dist2 = d2;
                tr.best_any_idx = c;
            }
            if heading_eligible(q.gps_heading, q.gps_speed, seg.heading_cdeg, q.is_first_fix)
                && d2 < tr.best_eligible_dist2 {
                tr.best_eligible_dist2 = d2;
                tr.best_eligible_idx = c;
                tr.eligible_found = true;
            }
        }
    }
}


/// A search returns a closest candidate: after scanning `cands` from `tr`,
/// the running minima are at most every visited accepted candidate's squared
/// distance (and at most the starting values); each minimum either kept its
/// starting value or is the distance of a visited candidate with that index;
/// and an eligible segment is reported found exactly when one was already
/// found or some eligible candidate is strictly closer than the starting value.
pub proof fn lemma_scan_finds_minimum(route: &RouteData, q: MatchQuery, tr: SegmentTracker, cands: Seq<int>)
    ensures
        ({
            let r = spec_scan(route, q, tr, cands);
            &&& r.best_any_dist2 <= tr.best_any_dist2
            &&& r.best_eligible_dist2 <= tr.best_eligible_dist2
            &&& forall|k: int|
                0 <= k < cands.len() && spec_accepts(route, q, cands[k]) ==> r.best_any_dist2
                    <= spec_cand_dist2(route, q, cands[k])
            &&& forall|k: int|
                0 <= k < cands.len() && spec_accepts(route, q, cands[k]) && spec_cand_eligible(
                    route,
                    q,
                    cands[k],
                ) ==> r.best_eligible_dist2 <= spec_cand_dist2(route, q, cands[k])
            &&& ((r.best_any_idx == tr.best_any_idx && r.best_any_dist2 == tr.best_any_dist2)
                || exists|k: int|
                0 <= k < cands.len() && spec_accepts(route, q, cands[k]) && cands[k]
                    == r.best_any_idx && spec_cand_dist2(route, q, cands[k]) == r.best_any_dist2)
            &&& ((r.best_eligible_idx == tr.best_eligible_idx && r.best_eligible_dist2
                == tr.best_eligible_dist2 && r.eligible_found == tr.eligible_found)
                || exists|k: int|
                0 <= k < cands.len() && spec_accepts(route, q, cands[k]) && spec_cand_eligible(
                    route,
                    q,
                    cands[k],
                ) && cands[k] == r.best_eligible_idx && spec_cand_dist2(route, q, cands[k])
                    == r.best_eligible_dist2 && r.eligible_found)
            &&& r.eligible_found == (tr.eligible_found || exists|k: int|
                0 <= k < cands.len() && spec_accepts(route, q, cands[k]) && spec_cand_eligible(
                    route,
                    q,
                    cands[k],
                ) && spec_cand_dist2(route, q, cands[k]) < tr.best_eligible_dist2)
        }),
    decreases cands.len(),
{
    if cands.len() > 0 {
        let pre = cands.drop_last();
        lemma_scan_finds_minimum(route, q, tr, pre);
        let p = spec_scan(route, q, tr, pre);
        let c = cands.last();
        let n = cands.len() - 1;
        assert(cands[n] == c);
        assert forall|k: int| 0 <= k < n implies cands[k] == pre[k] by {}
        let r = spec_scan(route, q, tr, cands);
        assert(r == spec_step(route, q, p, c));
        assert(route.nodes@.len() == route.nodes.len());
        if spec_accepts(route, q, c) {
            let d = spec_cand_dist2(route, q, c);
            if d < p.best_any_dist2 {
                assert(c >= 0 && c < route.nodes@.len());
                assert(d >= 0) by {
                    projection::lemma_dist2_nonnegative(q.gps_x as int, q.gps_y as int, route.nodes@[c]);
                }
            }
            if spec_cand_eligible(route, q, c) && d < p.best_eligible_dist2 {
                assert(d >= 0) by {
                    projection::lemma_dist2_nonnegative(q.gps_x as int, q.gps_y as int, route.nodes@[c]);
                }
            }
        }
        if r.eligible_found && !tr.eligible_found && !p.eligible_found {
            assert(spec_accepts(route, q, c) && spec_cand_eligible(route, q, c));
        }
        let elig_updated = spec_accepts(route, q, c) && spec_cand_eligible(route, q, c)
            && spec_cand_dist2(route, q, c) < p.best_eligible_dist2;
        if !elig_updated && !(p.best_eligible_idx == tr.best_eligible_idx && p.best_eligible_dist2
            == tr.best_eligible_dist2 && p.eligible_found == tr.eligible_found) {
            let k = choose|k: int|
                0 <= k < pre.len() && spec_accepts(route, q, pre[k]) && spec_cand_eligible(
                    route,
                    q,
                    pre[k],
                ) && pre[k] == p.best_eligible_idx && spec_cand_dist2(route, q, pre[k])
                    == p.best_eligible_dist2 && p.eligible_found;
            assert(cands[k] == pre[k]);
        }
        if elig_updated {
            let d = spec_cand_dist2(route, q, c);
            assert(d >= 0) by {
                projection::lemma_dist2_nonnegative(q.gps_x as int, q.gps_y as int, route.nodes@[c]);
            }
            assert(r.best_eligible_idx as int == c);
            assert(r.best_eligible_dist2 as int == d);
            assert(r.eligible_found);
            assert(0 <= n < cands.len() && spec_accepts(route, q, cands[n]) && spec_cand_eligible(
                route,
                q,
                cands[n],
            ) && cands[n] == r.best_eligible_idx && spec_cand_dist2(route, q, cands[n])
                == r.best_eligible_dist2 && r.eligible_found);
        }
        let any_updated = spec_accepts(route, q, c) && spec_cand_dist2(route, q, c) < p.best_any_dist2;
        if any_updated {
            let d = spec_cand_dist2(route, q, c);
            assert(d >= 0) by {
                projection::lemma_dist2_nonnegative(q.gps_x as int, q.gps_y as int, route.nodes@[c]);
            }
            assert(r.best_any_idx as int == c);
            assert(r.best_any_dist2 as int == d);
            assert(0 <= n < cands.len() && spec_accepts(route, q, cands[n]) && cands[n]
                == r.best_any_idx && spec_cand_dist2(route, q, cands[n]) == r.best_any_dist2);
        } else if !(p.best_any_idx == tr.best_any_idx && p.best_any_dist2 == tr.best_any_dist2) {
            let k = choose|k: int|
                0 <= k < pre.len() && spec_accepts(route, q, pre[k]) && pre[k] == p.best_any_idx
                    && spec_cand_dist2(route, q, pre[k]) == p.best_any_dist2;
            assert(cands[k] == pre[k]);
        }
        if p.eligible_found && !tr.eligible_found {
            let k = choose|k: int|
                0 <= k < pre.len() && spec_accepts(route, q, pre[k]) && spec_cand_eligible(
                    route,
                    q,
                    pre[k],
                ) && spec_cand_dist2(route, q, pre[k]) < tr.best_eligible_dist2;
            assert(cands[k] == pre[k]);
        }
    }
}

/// Scan a prefix of candidates: `spec_scan` distributes over concatenation.
proof fn lemma_scan_push(route: &RouteData, q: MatchQuery, tr: SegmentTracker, s: Seq<int>, c: int)
    ensures
        spec_scan(route, q, tr, s.push(c)) == spec_step(route, q, spec_scan(route, q, tr, s), c),
{
    assert(s.push(c).drop_last() =~= s);
}

proof fn lemma_scan_append(route: &RouteData, q: MatchQuery, tr: SegmentTracker, a: Seq<int>, b: Seq<int>)
    ensures
        spec_scan(route, q, tr, a + b) == spec_scan(route, q, spec_scan(route, q, tr, a), b),
    decreases b.len(),
{
    if b.len() == 0 {
        assert(a + b =~= a);
    } else {
        lemma_scan_append(route, q, tr, a, b.drop_last());
        assert((a + b).drop_last() =~= a + b.drop_last());
        assert((a + b).last() == b.last());
    }
}

/// Scan the indices `start..=end`.
fn scan_range(tr: &mut SegmentTracker, route: &RouteData, q: &MatchQuery, start: usize, end: usize)
    requires
        search_inputs_ok(route, *q),
        end < usize::MAX,
    ensures
        *final(tr) == spec_scan(route, *q, *old(tr), spec_index_range(start as int, end as int)),
{
    if start > end {
        return;
    }
    let mut i = start;
    while i <= end
        invariant
            search_inputs_ok(route, *q),
            start <= i <= end + 1,
            end < usize::MAX,
            *tr == spec_scan(route, *q, *old(tr), spec_index_range(start as int, i as int - 1)),
        decreases end + 1 - i,
    {
        proof {
            let s = spec_index_range(start as int, i as int - 1);
            lemma_scan_push(route, *q, *old(tr), s, i as int);
            assert(s.push(i as int) =~= spec_index_range(start as int, i as int));
        }
        visit_candidate(tr, route, q, i);
        i = i + 1;
    }
}

/// Visit every segment listed in grid cell `(nx, ny)` (nothing outside the grid).
fn visit_cell(tr: &mut SegmentTracker, route: &RouteData, q: &MatchQuery, nx: u32, ny: u32)
    requires
        search_inputs_ok(route, *q),
    ensures
        *final(tr) == spec_scan(
            route,
            *q,
            *old(tr),
            route.grid.spec_cell(nx as int, ny as int).map_values(|v: u16| v as int),
        ),
{
    let ghost cell = route.grid.spec_cell(nx as int, ny as int).map_values(|v: u16| v as int);
    if nx >= route.grid.cols || ny >= route.grid.rows {
        assert(cell =~= Seq::<int>::empty());
        return;
    }
    let ghost (gny, gcols) = (ny as int, route.grid.cols as int);
    assert(0 <= gny * gcols <= 0xffff_ffff * 0xffff_ffff) by (nonlinear_arith)
        requires
            0 <= gny <= 0xffff_ffff,
            0 <= gcols <= 0xffff_ffff,
    ;
    let idx = (ny as u64) * (route.grid.cols as u64) + (nx as u64);
    if idx >= route.grid.cells.len() as u64 {
        assert(cell =~= Seq::<int>::empty());
        return;
    }
    let list = &route.grid.cells[idx as usize];
    assert(cell =~= list@.map_values(|v: u16| v as int));
    let mut j: usize = 0;
    while j < list.len()
        invariant
            search_inputs_ok(route, *q),
            0 <= j <= list@.len(),
            cell =~= list@.map_values(|v: u16| v as int),
            *tr == spec_scan(route, *q, *old(tr), cell.take(j as int)),
        decreases list@.len() - j,
    {
        proof {
            lemma_scan_push(route, *q, *old(tr), cell.take(j as int), cell[j as int]);
            assert(cell.take(j as int).push(cell[j as int]) =~= cell.take(j as int + 1));
        }
        visit_candidate(tr, route, q, list[j] as usize);
        j = j + 1;
    }
    assert(cell.take(list@.len() as int) =~= cell);
}

/// Visit the 3x3 neighbourhood of grid cell `(gx, gy)`, row by row.
fn scan_grid(tr: &mut SegmentTracker, route: &RouteData, q: &MatchQuery, gx: i32, gy: i32)
    requires
        search_inputs_ok(route, *q),
        0 <= gx <= i32::MAX - 2,
        0 <= gy <= i32::MAX - 2,
    ensures
        *final(tr) == spec_scan(route, *q, *old(tr), spec_grid_cands(route, gx as int, gy as int)),
{
    let mut k: i32 = 0;
    while k < 9
        invariant
            search_inputs_ok(route, *q),
            0 <= gx <= i32::MAX - 2,
            0 <= gy <= i32::MAX - 2,
            0 <= k <= 9,
            *tr == spec_scan(route, *q, *old(tr), spec_grid_cands_upto(route, gx as int, gy as int, k as int)),
        decreases 9 - k,
    {
        let dy = k / 3;
        let dx = k % 3;
        let ny = gy + dy - 1;
        let nx = gx + dx - 1;
        let ghost before = *tr;
        proof {
            lemma_scan_append(
                route,
                *q,
                *old(tr),
                spec_grid_cands_upto(route, gx as int, gy as int, k as int),
                spec_neighbour_cell(route, gx as int, gy as int, k as int),
            );
        }
        if ny >= 0 && nx >= 0 {
            visit_cell(tr, route, q, nx as u32, ny as u32);
        } else {
            assert(spec_neighbour_cell(route, gx as int, gy as int, k as int) =~= Seq::<int>::empty());
        }
        k = k + 1;
    }
}

/// Empty tracker.
fn empty_tracker() -> (tr: SegmentTracker)
    ensures
        tr == spec_empty_tracker(),
{
    SegmentTracker {
        best_eligible_idx: 0,
        best_eligible_dist2: i64::MAX,
        eligible_found: false,
        best_any_idx: 0,
        best_any_dist2: i64::MAX,
    }
}

fn select(tr: &SegmentTracker) -> (r: (usize, i64))
    ensures
        r == spec_select(*tr),
{
    if tr.eligible_found {
        (tr.best_eligible_idx, tr.best_eligible_dist2)
    } else {
        (tr.best_any_idx, tr.best_any_dist2)
    }
}

/// Query without a range restriction on the segments.
pub(crate) fn unrestricted_query(
    gps_x: DistCm,
    gps_y: DistCm,
    gps_heading: HeadCdeg,
    gps_speed: SpeedCms,
    is_first_fix: bool,
) -> (q: MatchQuery)
    ensures
        q == spec_unrestricted_query(gps_x, gps_y, gps_heading, gps_speed, is_first_fix),
{
    MatchQuery {
        gps_x,
        gps_y,
        gps_heading,
        gps_speed,
        is_first_fix,
        min_s_cm: i32::MIN,
        max_s_cm: i32::MAX,
    }
}

pub open spec fn spec_unrestricted_query(
    gps_x: DistCm,
    gps_y: DistCm,
    gps_heading: HeadCdeg,
    gps_speed: SpeedCms,
    is_first_fix: bool,
) -> MatchQuery {
    MatchQuery {
        gps_x,
        gps_y,
        gps_heading,
        gps_speed,
        is_first_fix,
        min_s_cm: i32::MIN,
        max_s_cm: i32::MAX,
    }
}

/// Global search over all segments: the best eligible, else the best of any heading.
fn global_search_fallback(route_data: &RouteData, q: &MatchQuery) -> (r: (usize, i64))
    requires
        search_inputs_ok(route_data, *q),
    ensures
        r == spec_global(route_data, *q),
{
    let mut tr = empty_tracker();
    let end = route_data.node_count().saturating_sub(1);
    scan_range(&mut tr, route_data, q, 0, end);
    select(&tr)
}

/// Result of the window-then-grid search (see `find_best_segment_restricted`).
pub open spec fn spec_restricted(route: &RouteData, q: MatchQuery, last_idx: int) -> (usize, i64) {
    let n = route.nodes@.len() as int;
    let start = if last_idx >= WINDOW_BACK { last_idx - WINDOW_BACK } else { 0 };
    let cap = if n == 0 { 0 } else { n - 1 };
    let end = if last_idx + WINDOW_FWD < cap { last_idx + WINDOW_FWD } else { cap };
    let w = spec_scan(route, q, spec_empty_tracker(), spec_index_range(start, end));
    if w.eligible_found && w.best_eligible_dist2 < MAX_DIST2_EARLY_EXIT {
        (w.best_eligible_idx, w.best_eligible_dist2)
    } else if q.gps_x < route.x0_cm || q.gps_y < route.y0_cm {
        spec_global(route, q)
    } else {
        let gx = spec_cell_coord(q.gps_x as int, route.x0_cm as int, route.grid.grid_size_cm as int);
        let gy = spec_cell_coord(q.gps_y as int, route.y0_cm as int, route.grid.grid_size_cm as int);
        if gx >= route.grid.cols || gy >= route.grid.rows {
            spec_global(route, q)
        } else {
            let seed = SegmentTracker {
                best_eligible_idx: if w.eligible_found { w.best_eligible_idx } else { last_idx as usize },
                best_eligible_dist2: if w.eligible_found { w.best_eligible_dist2 } else { i64::MAX },
                ..w
            };
            spec_select(spec_scan(route, q, seed, spec_grid_cands(route, gx, gy)))
        }
    }
}

/// Find the best route segment for a GPS point, preferring segments near
/// `last_idx`.
///
/// Scans the window `last_idx - 2 ..= last_idx + 10` (clamped to the route);
/// if an eligible segment there is within 20 m, returns it. Otherwise, when the
/// point lies outside the grid, scans all segments; else scans the 3x3 grid
/// neighbourhood seeded with the window's minima. Returns the index and the
/// squared distance.
pub fn find_best_segment_restricted(
    gps_x: DistCm,
    gps_y: DistCm,
    gps_heading: HeadCdeg,
    gps_speed: SpeedCms,
    route_data: &RouteData,
    last_idx: usize,
    is_first_fix: bool,
) -> (r: (usize, i64))
    requires
        search_inputs_ok(
            route_data,
            spec_unrestricted_query(gps_x, gps_y, gps_heading, gps_speed, is_first_fix),
        ),
        last_idx + WINDOW_FWD < usize::MAX,
    ensures
        r == spec_restricted(
            route_data,
            spec_unrestricted_query(gps_x, gps_y, gps_heading, gps_speed, is_first_fix),
            last_idx as int,
        ),
{
    let q = unrestricted_query(gps_x, gps_y, gps_heading, gps_speed, is_first_fix);
    let start = last_idx.saturating_sub(WINDOW_BACK);
    let cap = route_data.node_count().saturating_sub(1);
    let end = if last_idx + WINDOW_FWD < cap {
        last_idx + WINDOW_FWD
    } else {
        cap
    };
    let mut w = empty_tracker();
    scan_range(&mut w, route_data, &q, start, end);
    if w.eligible_found && w.best_eligible_dist2 < MAX_DIST2_EARLY_EXIT {
        return (w.best_eligible_idx, w.best_eligible_dist2);
    }
    if gps_x < route_data.x0_cm || gps_y < route_data.y0_cm {
        return global_search_fallback(route_data, &q);
    }
    let size = route_data.grid.grid_size_cm;
    let gxi = (gps_x - route_data.x0_cm) / size;
    let gyi = (gps_y - route_data.y0_cm) / size;
    let gx = gxi as u32;
    let gy = gyi as u32;
    if gx >= route_data.grid.cols || gy >= route_data.grid.rows {
        return global_search_fallback(route_data, &q);
    }
    let mut tr = SegmentTracker {
        best_eligible_idx: if w.eligible_found {
            w.best_eligible_idx
        } else {
            last_idx
        },
        best_eligible_dist2: if w.eligible_found {
            w.best_eligible_dist2
        } else {
            i64::MAX
        },
        eligible_found: w.eligible_found,
        best_any_idx: w.best_any_idx,
        best_any_dist2: w.best_any_dist2,
    };
    scan_grid(&mut tr, route_data, &q, gxi, gyi);
    select(&tr)
}

/// Result of the grid-only search restricted to `[min_s, max_s]`.
pub open spec fn spec_grid_only(route: &RouteData, q: MatchQuery) -> (usize, i64) {
    if q.gps_x < route.x0_cm || q.gps_y < route.y0_cm {
        (0, i64::MAX)
    } else {
        let gx = spec_cell_coord(q.gps_x as int, route.x0_cm as int, route.grid.grid_size_cm as int);
        let gy = spec_cell_coord(q.gps_y as int, route.y0_cm as int, route.grid.grid_size_cm as int);
        spec_select(spec_scan(route, q, spec_empty_tracker(), spec_grid_cands(route, gx, gy)))
    }
}

fn grid_only(route_data: &RouteData, q: &MatchQuery) -> (r: (usize, i64))
    requires
        search_inputs_ok(route_data, *q),
    ensures
        r == spec_grid_only(route_data, *q),
{
    if q.gps_x < route_data.x0_cm || q.gps_y < route_data.y0_cm {
        return (0, i64::MAX);
    }
    let size = route_data.grid.grid_size_cm;
    let gx = (q.gps_x - route_data.x0_cm) / size;
    let gy = (q.gps_y - route_data.y0_cm) / size;
    let mut tr = empty_tracker();
    scan_grid(&mut tr, route_data, q, gx, gy);
    select(&tr)
}

/// Find the best segment using the grid neighbourhood only (no window); used
/// for off-route re-entry. Outside the grid's lower bounds returns `(0, i64::MAX)`.
pub fn find_best_segment_grid_only(
    gps_x: DistCm,
    gps_y: DistCm,
    gps_heading: HeadCdeg,
    gps_speed: SpeedCms,
    route_data: &RouteData,
    is_first_fix: bool,
) -> (r: (usize, i64))
    requires
        search_inputs_ok(
            route_data,
            spec_unrestricted_query(gps_x, gps_y, gps_heading, gps_speed, is_first_fix),
        ),
    ensures
        r == spec_grid_only(
            route_data,
            spec_unrestricted_query(gps_x, gps_y, gps_heading, gps_speed, is_first_fix),
        ),
{
    let q = unrestricted_query(gps_x, gps_y, gps_heading, gps_speed, is_first_fix);
    grid_only(route_data, &q)
}

/// Grid-only search that skips segments whose cumulative distance lies
/// outside `[min_s_cm, max_s_cm]`.
pub fn find_best_segment_grid_only_with_min_max_s(
    gps_x: DistCm,
    gps_y: DistCm,
    gps_heading: HeadCdeg,
    gps_speed: SpeedCms,
    route_data: &RouteData,
    is_first_fix: bool,
    min_s_cm: DistCm,
    max_s_cm: DistCm,
) -> (r: (usize, i64))
    requires
        search_inputs_ok(
            route_data,
            MatchQuery { gps_x, gps_y, gps_heading, gps_speed, is_first_fix, min_s_cm, max_s_cm },
        ),
    ensures
        r == spec_grid_only(
            route_data,
            MatchQuery { gps_x, gps_y, gps_heading, gps_speed, is_first_fix, min_s_cm, max_s_cm },
        ),
{
    let q = MatchQuery { gps_x, gps_y, gps_heading, gps_speed, is_first_fix, min_s_cm, max_s_cm };
    grid_only(route_data, &q)
}

/// Grid-only search that skips segments whose cumulative distance is below
/// `min_s_cm` (no upper bound).
pub fn find_best_segment_grid_only_with_min_s(
    gps_x: DistCm,
    gps_y: DistCm,
    gps_heading: HeadCdeg,
    gps_speed: SpeedCms,
    route_data: &RouteData,
    is_first_fix: bool,
    min_s_cm: DistCm,
) -> (r: (usize, i64))
    requires
        search_inputs_ok(
            route_data,
            MatchQuery {
                gps_x,
                gps_y,
                gps_heading,
                gps_speed,
                is_first_fix,
                min_s_cm,
                max_s_cm: i32::MAX,
            },
        ),
    ensures
        r == spec_grid_only(
            route_data,
            MatchQuery {
                gps_x,
                gps_y,
                gps_heading,
                gps_speed,
                is_first_fix,
                min_s_cm,
                max_s_cm: i32::MAX,
            },
        ),
{
    find_best_segment_grid_only_with_min_max_s(
        gps_x,
        gps_y,
        gps_heading,
        gps_speed,
        route_data,
        is_first_fix,
        min_s_cm,
        DistCm::MAX,
    )
}

/// Whether a search is defined for the query (see `search_inputs_ok`).
pub fn search_in_range(route: &RouteData, q: &MatchQuery) -> (b: bool)
    ensures
        b == search_inputs_ok(route, *q),
{
    if q.gps_heading != i16::MIN {
        let scaled = q.gps_speed as i64 * 256;
        if !projection::in_i32(scaled) || !(q.is_first_fix || q.gps_speed >= 0) {
            return false;
        }
    }
    let n = route.nodes.len();
    let mut i: usize = 0;
    while i < n
        invariant
            n == route.nodes@.len(),
            i <= n,
            forall|j: int|
                0 <= j < i ==> #[trigger] projection::dist2_inputs_ok(
                    q.gps_x as int,
                    q.gps_y as int,
                    route.nodes@[j],
                ),
        decreases n - i,
    {
        if !projection::dist2_in_range(q.gps_x, q.gps_y, &route.nodes[i]) {
            return false;
        }
        i = i + 1;
    }
    let size = route.grid.grid_size_cm;
    if size <= 0 {
        return false;
    }
    let nx = q.gps_x as i64 - route.x0_cm as i64;
    let ny = q.gps_y as i64 - route.y0_cm as i64;
    if !projection::in_i32(nx) || !projection::in_i32(ny) {
        return false;
    }
    proof {
        if nx < 0 {
            assert((nx as int) / (size as int) < 0) by (nonlinear_arith)
                requires
                    nx < 0,
                    size > 0,
            ;
        }
        if ny < 0 {
            assert((ny as int) / (size as int) < 0) by (nonlinear_arith)
                requires
                    ny < 0,
                    size > 0,
            ;
        }
    }
    let cx_ok = nx < 0 || nx / (size as i64) + 2 <= i32::MAX as i64;
    let cy_ok = ny < 0 || ny / (size as i64) + 2 <= i32::MAX as i64;
    cx_ok && cy_ok
}

} // verus!
