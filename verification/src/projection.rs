//! Point-to-segment distance and projection of a point onto the route.

use vstd::prelude::*;
use crate::model;
use crate::model::{Dist2, DistCm, RouteData, RouteNode};

verus! {

/// Segment length in whole centimetres (millimetres truncated toward zero).
pub open spec fn spec_len_cm(seg: RouteNode) -> int {
    model::trunc_div(seg.seg_len_mm as int, 10)
}

/// Squared segment length (cm²).
pub open spec fn spec_len2(seg: RouteNode) -> int {
    spec_len_cm(seg) * spec_len_cm(seg)
}

/// Dot product of (point - segment start) with the segment vector.
pub open spec fn spec_t_num(x: int, y: int, seg: RouteNode) -> int {
    (x - seg.x_cm) * seg.dx_cm + (y - seg.y_cm) * seg.dy_cm
}

/// Projection parameter clamped to `[0, len2]`.
pub open spec fn spec_t(x: int, y: int, seg: RouteNode) -> int {
    let t = spec_t_num(x, y, seg);
    if t < 0 {
        0
    } else if t > spec_len2(seg) {
        spec_len2(seg)
    } else {
        t
    }
}

/// Foot of the clamped projection (cm).
pub open spec fn spec_px(x: int, y: int, seg: RouteNode) -> int {
    seg.x_cm + model::trunc_div(spec_t(x, y, seg) * seg.dx_cm, spec_len2(seg))
}

pub open spec fn spec_py(x: int, y: int, seg: RouteNode) -> int {
    seg.y_cm + model::trunc_div(spec_t(x, y, seg) * seg.dy_cm, spec_len2(seg))
}

/// Squared distance from `(x, y)` to the segment (clamped projection); for a
/// zero-length segment, the squared distance to its start point.
pub open spec fn spec_dist2(x: int, y: int, seg: RouteNode) -> int {
    if spec_len2(seg) == 0 {
        (x - seg.x_cm) * (x - seg.x_cm) + (y - seg.y_cm) * (y - seg.y_cm)
    } else {
        let ex = x - spec_px(x, y, seg);
        let ey = y - spec_py(x, y, seg);
        ex * ex + ey * ey
    }
}

/// Inputs on which the distance computation does not overflow.
pub open spec fn dist2_inputs_ok(x: int, y: int, seg: RouteNode) -> bool {
    &&& model::fits_i32(x - seg.x_cm)
    &&& model::fits_i32(y - seg.y_cm)
    &&& if spec_len2(seg) == 0 {
        model::fits_i64(
            (x - seg.x_cm) * (x - seg.x_cm) + (y - seg.y_cm) * (y - seg.y_cm),
        )
    } else {
        &&& model::fits_i64(spec_t(x, y, seg) * seg.dx_cm)
        &&& model::fits_i64(spec_t(x, y, seg) * seg.dy_cm)
        &&& model::fits_i32(spec_px(x, y, seg))
        &&& model::fits_i32(spec_py(x, y, seg))
        &&& model::fits_i32(x - spec_px(x, y, seg))
        &&& model::fits_i32(y - spec_py(x, y, seg))
        &&& model::fits_i64(spec_dist2(x, y, seg))
    }
}

/// Route progress of the clamped projection onto a segment.
pub open spec fn spec_progress(x: int, y: int, seg: RouteNode) -> int {
    if spec_len2(seg) == 0 {
        seg.cum_dist_cm as int
    } else {
        seg.cum_dist_cm + model::trunc_div(spec_t(x, y, seg) * spec_len_cm(seg), spec_len2(seg))
    }
}

/// Inputs on which the projection does not overflow.
pub open spec fn progress_inputs_ok(x: int, y: int, seg: RouteNode) -> bool {
    &&& model::fits_i32(x - seg.x_cm)
    &&& model::fits_i32(y - seg.y_cm)
    &&& (spec_len2(seg) != 0 ==> {
        &&& model::fits_i64(spec_t(x, y, seg) * spec_len_cm(seg))
        &&& model::fits_i32(spec_progress(x, y, seg))
    })
}

/// Node used for projecting onto segment `idx`: that node, or node 0 when the
/// index is out of range.
pub open spec fn spec_projection_node(route: &RouteData, idx: int) -> RouteNode {
    if 0 <= idx < route.nodes@.len() {
        route.nodes@[idx]
    } else {
        route.nodes@[0]
    }
}

/// `|trunc(t * a / l)| <= |a|` for `0 <= t <= l`, with the sign of `a`.
proof fn lemma_scaled_bounded(t: int, a: int, l: int)
    requires
        0 <= t <= l,
        l > 0,
    ensures
        a >= 0 ==> 0 <= model::trunc_div(t * a, l) <= a,
        a < 0 ==> a <= model::trunc_div(t * a, l) <= 0,
{
    if a >= 0 {
        assert(0 <= t * a <= l * a) by (nonlinear_arith)
            requires
                0 <= t <= l,
                a >= 0,
        ;
        assert((t * a) / l <= (l * a) / l) by (nonlinear_arith)
            requires
                0 <= t * a <= l * a,
                l > 0,
        ;
        assert((l * a) / l == a) by (nonlinear_arith)
            requires
                l > 0,
        ;
        assert(0 <= (t * a) / l) by (nonlinear_arith)
            requires
                0 <= t * a,
                l > 0,
        ;
    } else {
        let b = -a;
        assert(0 <= t * b <= l * b) by (nonlinear_arith)
            requires
                0 <= t <= l,
                b > 0,
        ;
        assert((t * b) / l <= (l * b) / l) by (nonlinear_arith)
            requires
                0 <= t * b <= l * b,
                l > 0,
        ;
        assert((l * b) / l == b) by (nonlinear_arith)
            requires
                l > 0,
        ;
        assert(0 <= (t * b) / l) by (nonlinear_arith)
            requires
                0 <= t * b,
                l > 0,
        ;
        assert(t * a == -(t * b)) by (nonlinear_arith)
            requires
                b == -a,
        ;
        if t * a < 0 {
            assert(-(t * a) == t * b);
        } else {
            assert(t * b == 0);
        }
    }
}

/// Squared segment length and clamped projection parameter, computed in `i64`.
fn segment_terms(dx: i32, dy: i32, seg: &RouteNode) -> (r: (i64, i64, i64))
    ensures
        r.0 == spec_len_cm(*seg),
        r.1 == spec_len2(*seg),
        r.1 != 0 ==> r.2 == spec_t(dx + seg.x_cm, dy + seg.y_cm, *seg),
        r.1 >= 0,
{
    let seg_len_cm = (seg.seg_len_mm / 10) as i64;
    assert(-214748365 <= seg_len_cm <= 214748365);
    assert(seg_len_cm * seg_len_cm <= 214748365 * 214748365) by (nonlinear_arith)
        requires
            -214748365 <= seg_len_cm <= 214748365,
    ;
    assert(seg_len_cm * seg_len_cm >= 0) by (nonlinear_arith);
    let len2 = seg_len_cm * seg_len_cm;
    let ghost (gdx, gsx, gdy, gsy) = (dx as int, seg.dx_cm as int, dy as int, seg.dy_cm as int);
    assert(-70368744177664 <= gdx * gsx <= 70368744177664) by (nonlinear_arith)
        requires
            -2147483648 <= gdx <= 2147483647,
            -32768 <= gsx <= 32767,
    ;
    assert(-70368744177664 <= gdy * gsy <= 70368744177664) by (nonlinear_arith)
        requires
            -2147483648 <= gdy <= 2147483647,
            -32768 <= gsy <= 32767,
    ;
    let a = dx as i64 * seg.dx_cm as i64;
    let b = dy as i64 * seg.dy_cm as i64;
    let t_num = a + b;
    let t = if t_num < 0 {
        0
    } else if t_num > len2 {
        len2
    } else {
        t_num
    };
    (seg_len_cm, len2, t)
}

/// Whether an `i64` value lies in the range of `i32`.
pub(crate) fn in_i32(v: i64) -> (b: bool)
    ensures
        b == model::fits_i32(v as int),
{
    i32::MIN as i64 <= v && v <= i32::MAX as i64
}

/// Whether `distance_to_segment_squared` is defined at the point (see
/// `dist2_inputs_ok`).
pub fn dist2_in_range(x: DistCm, y: DistCm, seg: &RouteNode) -> (b: bool)
    ensures
        b == dist2_inputs_ok(x as int, y as int, *seg),
{
    let dx64 = x as i64 - seg.x_cm as i64;
    let dy64 = y as i64 - seg.y_cm as i64;
    if !in_i32(dx64) || !in_i32(dy64) {
        return false;
    }
    let dx = dx64 as i32;
    let dy = dy64 as i32;
    let (_len, len2, t) = segment_terms(dx, dy, seg);
    if len2 == 0 {
        let ex = dx as i64;
        let ey = dy as i64;
        assert(0 <= ex * ex <= 4611686018427387904 && 0 <= ey * ey <= 4611686018427387904) by (nonlinear_arith)
            requires
                -2147483648 <= ex <= 2147483647,
                -2147483648 <= ey <= 2147483647,
        ;
        return (ex * ex).checked_add(ey * ey).is_some();
    }
    let tx = match t.checked_mul(seg.dx_cm as i64) {
        Some(v) => v,
        None => {
            return false;
        },
    };
    let ty = match t.checked_mul(seg.dy_cm as i64) {
        Some(v) => v,
        None => {
            return false;
        },
    };
    proof {
        lemma_scaled_bounded(t as int, seg.dx_cm as int, len2 as int);
        lemma_scaled_bounded(t as int, seg.dy_cm as int, len2 as int);
    }
    let px = seg.x_cm as i64 + tx / len2;
    let py = seg.y_cm as i64 + ty / len2;
    if !in_i32(px) || !in_i32(py) {
        return false;
    }
    let ex = x as i64 - px;
    let ey = y as i64 - py;
    if !in_i32(ex) || !in_i32(ey) {
        return false;
    }
    assert(0 <= ex * ex <= 4611686018427387904 && 0 <= ey * ey <= 4611686018427387904) by (nonlinear_arith)
        requires
            -2147483648 <= ex <= 2147483647,
            -2147483648 <= ey <= 2147483647,
    ;
    (ex * ex).checked_add(ey * ey).is_some()
}

/// Whether `project_to_route` is defined on a segment at the point (see
/// `progress_inputs_ok`).
pub fn progress_in_range(x: DistCm, y: DistCm, seg: &RouteNode) -> (b: bool)
    ensures
        b == progress_inputs_ok(x as int, y as int, *seg),
{
    let dx64 = x as i64 - seg.x_cm as i64;
    let dy64 = y as i64 - seg.y_cm as i64;
    if !in_i32(dx64) || !in_i32(dy64) {
        return false;
    }
    let (len, len2, t) = segment_terms(dx64 as i32, dy64 as i32, seg);
    if len2 == 0 {
        return true;
    }
    let tl = match t.checked_mul(len) {
        Some(v) => v,
        None => {
            return false;
        },
    };
    proof {
        lemma_scaled_bounded(t as int, len as int, len2 as int);
    }
    in_i32(seg.cum_dist_cm as i64 + tl / len2)
}

/// Squared distance from a point to a segment (clamped projection).
pub fn distance_to_segment_squared(x: DistCm, y: DistCm, seg: &RouteNode) -> (d2: Dist2)
    requires
        dist2_inputs_ok(x as int, y as int, *seg),
    ensures
        d2 == spec_dist2(x as int, y as int, *seg),
{
    let dx = x - seg.x_cm;
    let dy = y - seg.y_cm;
    let (_seg_len_cm, len2, t) = segment_terms(dx, dy, seg);
    if len2 == 0 {
        let ex = dx as i64;
        let ey = dy as i64;
        assert(ex * ex >= 0 && ey * ey >= 0) by (nonlinear_arith);
        return ex * ex + ey * ey;
    }
    proof {
        lemma_scaled_bounded(t as int, seg.dx_cm as int, len2 as int);
        lemma_scaled_bounded(t as int, seg.dy_cm as int, len2 as int);
    }
    let qx = t * seg.dx_cm as i64 / len2;
    let qy = t * seg.dy_cm as i64 / len2;
    let px = seg.x_cm + qx as DistCm;
    let py = seg.y_cm + qy as DistCm;
    let ex = (x - px) as i64;
    let ey = (y - py) as i64;
    assert(ex * ex >= 0 && ey * ey >= 0) by (nonlinear_arith);
    ex * ex + ey * ey
}

/// Distance score used to rank segments: the squared point-to-segment distance.
pub fn segment_score(gps_x: DistCm, gps_y: DistCm, seg: &RouteNode) -> (d2: Dist2)
    requires
        dist2_inputs_ok(gps_x as int, gps_y as int, *seg),
    ensures
        d2 == spec_dist2(gps_x as int, gps_y as int, *seg),
{
    distance_to_segment_squared(gps_x, gps_y, seg)
}

/// Project a GPS point onto segment `seg_idx` (node 0 if the index is out of
/// range) and return its route progress.
pub fn project_to_route(gps_x: DistCm, gps_y: DistCm, seg_idx: usize, route_data: &RouteData) -> (s: DistCm)
    requires
        route_data.nodes@.len() > 0,
        progress_inputs_ok(
            gps_x as int,
            gps_y as int,
            spec_projection_node(route_data, seg_idx as int),
        ),
    ensures
        s == spec_progress(
            gps_x as int,
            gps_y as int,
            spec_projection_node(route_data, seg_idx as int),
        ),
{
    let seg = match route_data.get_node(seg_idx) {
        Some(n) => n,
        None => route_data.nodes[0],
    };
    let dx = gps_x - seg.x_cm;
    let dy = gps_y - seg.y_cm;
    let (seg_len_cm, len2, t) = segment_terms(dx, dy, &seg);
    if len2 == 0 {
        return seg.cum_dist_cm;
    }
    proof {
        lemma_scaled_bounded(t as int, seg_len_cm as int, len2 as int);
    }
    let q = t * seg_len_cm / len2;
    seg.cum_dist_cm + q as DistCm
}

/// Every squared point-to-segment distance is non-negative.
pub proof fn lemma_dist2_nonnegative(x: int, y: int, seg: RouteNode)
    ensures
        spec_dist2(x, y, seg) >= 0,
{
    let ex = x - spec_px(x, y, seg);
    let ey = y - spec_py(x, y, seg);
    assert(ex * ex >= 0) by (nonlinear_arith);
    assert(ey * ey >= 0) by (nonlinear_arith);
    assert((x - seg.x_cm) * (x - seg.x_cm) >= 0) by (nonlinear_arith);
    assert((y - seg.y_cm) * (y - seg.y_cm) >= 0) by (nonlinear_arith);
}

/// A point on an axis-aligned segment (along x, with the segment vector equal
/// to its length) is at distance 0 from it, and projects to the segment's
/// cumulative distance plus its offset along it.
pub proof fn lemma_point_on_segment(seg: RouteNode, t: int)
    requires
        seg.dy_cm == 0,
        seg.dx_cm == spec_len_cm(seg),
        spec_len_cm(seg) > 0,
        0 <= t <= spec_len_cm(seg),
    ensures
        spec_dist2(seg.x_cm + t, seg.y_cm as int, seg) == 0,
        spec_progress(seg.x_cm + t, seg.y_cm as int, seg) == seg.cum_dist_cm + t,
{
    let l = spec_len_cm(seg);
    let x = seg.x_cm + t;
    let y = seg.y_cm as int;
    assert(spec_t_num(x, y, seg) == t * l) by (nonlinear_arith)
        requires
            seg.dy_cm == 0,
            seg.dx_cm == l,
            x == seg.x_cm + t,
            y == seg.y_cm,
    ;
    assert(0 <= t * l <= l * l) by (nonlinear_arith)
        requires
            0 <= t <= l,
            l > 0,
    ;
    assert(spec_t(x, y, seg) == t * l);
    assert((t * l) * l == t * (l * l)) by (nonlinear_arith);
    assert((t * (l * l)) / (l * l) == t) by (nonlinear_arith)
        requires
            l > 0,
    ;
    assert(t * l * l >= 0) by (nonlinear_arith)
        requires
            t >= 0,
            l > 0,
    ;
    assert((t * l) * seg.dy_cm == 0) by (nonlinear_arith)
        requires
            seg.dy_cm == 0,
    ;
    assert(spec_px(x, y, seg) == x);
    assert(spec_py(x, y, seg) == y);
}

} // verus!
