//! Proximity sizing: classify every test point by the squared distance to
//! its nearest neighbour at a different position.
//!
//! A point whose nearest distinct-position neighbour is closer than 0.085
//! inches is `ClosePitch`; closer than 0.068 inches additionally raises an
//! advisory warning. Points at the exact same position are skipped
//! entirely, not just for being zero distance apart.

use vstd::prelude::*;
use crate::points::{
    all_in_bounds, clone_bytes, copy_point, in_bounds, model, models, PointModel, ProbeClass,
    TestPoint, CLOSE_SQ, SIZER_LIMIT, WARN_SQ,
};

verus! {

/// Squared Euclidean distance between two points, in squared coordinate units.
pub open spec fn dist_sq(a: PointModel, b: PointModel) -> int {
    (a.x - b.x) * (a.x - b.x) + (a.y - b.y) * (a.y - b.y)
}

/// Two points occupy exactly the same position.
pub open spec fn same_pos(a: PointModel, b: PointModel) -> bool {
    a.x == b.x && a.y == b.y
}

/// Point `i` has a distinct-position neighbour with squared distance below `t`.
pub open spec fn close_to(ms: Seq<PointModel>, i: int, t: int) -> bool {
    exists|j: int|
        0 <= j < ms.len() && !same_pos(#[trigger] ms[j], ms[i]) && dist_sq(ms[i], ms[j]) < t
}

/// The classification the sizer assigns to point `i`.
pub open spec fn sized_class(ms: Seq<PointModel>, i: int) -> ProbeClass {
    if close_to(ms, i, CLOSE_SQ as int) {
        ProbeClass::ClosePitch
    } else {
        ProbeClass::Standard
    }
}

/// The sizer output: same points, classification recomputed.
pub open spec fn size_spec(ms: Seq<PointModel>) -> Seq<PointModel> {
    Seq::new(ms.len(), |i: int| PointModel { class: sized_class(ms, i), ..ms[i] })
}

/// Advisory design-rule warning: the point at index `first` and its
/// nearest distinct-position neighbour at index `second` are too close
/// for reduced probes to coexist.
pub struct SizeWarning {
    pub first: usize,
    pub second: usize,
    pub first_designator: Vec<u8>,
    pub second_designator: Vec<u8>,
    pub dist_sq: i64,
}

/// A warning is sound: its indices name two distinct-position points of
/// the set, its distance is their true squared distance, that distance is
/// minimal among the first point's distinct-position neighbours, and it
/// is below the warning threshold.
pub open spec fn warning_valid(ms: Seq<PointModel>, w: SizeWarning) -> bool {
    &&& (w.first as int) < ms.len()
    &&& (w.second as int) < ms.len()
    &&& !same_pos(ms[w.second as int], ms[w.first as int])
    &&& w.first_designator@ == ms[w.first as int].designator
    &&& w.second_designator@ == ms[w.second as int].designator
    &&& w.dist_sq as int == dist_sq(ms[w.first as int], ms[w.second as int])
    &&& (w.dist_sq as int) < WARN_SQ as int
    &&& forall|j: int|
        0 <= j < ms.len() && !same_pos(#[trigger] ms[j], ms[w.first as int]) ==> dist_sq(
            ms[w.first as int],
            ms[j],
        ) >= w.dist_sq as int
}

/// The warning list is complete and orderly: every warning is sound, the
/// warnings come in point order with at most one per point, and a point
/// has a warning exactly when some distinct-position neighbour lies
/// below the warning threshold.
pub open spec fn warnings_valid(ms: Seq<PointModel>, ws: Seq<SizeWarning>) -> bool {
    &&& forall|k: int| 0 <= k < ws.len() ==> warning_valid(ms, #[trigger] ws[k])
    &&& forall|k1: int, k2: int|
        0 <= k1 < k2 < ws.len() ==> (#[trigger] ws[k1]).first < (#[trigger] ws[k2]).first
    &&& forall|i: int|
        0 <= i < ms.len() ==> (close_to(ms, i, WARN_SQ as int) <==> exists|k: int|
            0 <= k < ws.len() && (#[trigger] ws[k]).first == i)
}

/// Classify every point by its minimum distance to any other
/// distinct-position point, and collect the advisory warnings.
pub fn size_holes(points: &Vec<TestPoint>) -> (res: (Vec<TestPoint>, Vec<SizeWarning>))
    requires
        all_in_bounds(models(points@), SIZER_LIMIT as int),
    ensures
        models(res.0@) == size_spec(models(points@)),
        warnings_valid(models(points@), res.1@),
{
    let ghost ms = models(points@);
    let n = points.len();
    let mut out: Vec<TestPoint> = Vec::new();
    let mut warns: Vec<SizeWarning> = Vec::new();
    let mut i: usize = 0;
    while i < n
        invariant
            i <= n,
            n == points@.len(),
            models(out@) == size_spec(ms).take(i as int),
            forall|k: int| 0 <= k < warns@.len() ==> warning_valid(ms, #[trigger] warns@[k]),
            forall|k1: int, k2: int|
                0 <= k1 < k2 < warns@.len() ==> (#[trigger] warns@[k1]).first
                    < (#[trigger] warns@[k2]).first,
            forall|k: int| 0 <= k < warns@.len() ==> (#[trigger] warns@[k]).first < i,
            forall|p: int|
                0 <= p < i ==> (close_to(ms, p, WARN_SQ as int) <==> exists|k: int|
                    0 <= k < warns@.len() && (#[trigger] warns@[k]).first == p),
        decreases n - i,
    {
        let mut have_best = false;
        let mut best_j: usize = 0;
        let mut best_d: i64 = 0;
        let mut j: usize = 0;
        while j < n
            invariant
                i < n,
                j <= n,
                n == points@.len(),
                !have_best ==> forall|q: int| 0 <= q < j ==> same_pos(#[trigger] ms[q], ms[i as int]),
                have_best ==> (best_j as int) < n as int && !same_pos(
                    ms[best_j as int],
                    ms[i as int],
                ) && best_d as int == dist_sq(ms[i as int], ms[best_j as int]) && best_d >= 0,
                have_best ==> forall|q: int|
                    0 <= q < j && !same_pos(#[trigger] ms[q], ms[i as int]) ==> dist_sq(
                        ms[i as int],
                        ms[q],
                    ) >= best_d as int,
            decreases n - j,
        {
            proof {
                assert(in_bounds(ms[i as int], SIZER_LIMIT as int));
                assert(in_bounds(ms[j as int], SIZER_LIMIT as int));
            }
            let same = points[j].x == points[i].x && points[j].y == points[i].y;
            if !same {
                let dx = points[i].x - points[j].x;
                let dy = points[i].y - points[j].y;
                proof {
                    assert(dx as int * dx as int <= 4_410_000_000_000_000_000
                        && dx as int * dx as int >= 0) by (nonlinear_arith)
                        requires
                            -2_100_000_000 <= dx as int <= 2_100_000_000,
                    {}
                    assert(dy as int * dy as int <= 4_410_000_000_000_000_000
                        && dy as int * dy as int >= 0) by (nonlinear_arith)
                        requires
                            -2_100_000_000 <= dy as int <= 2_100_000_000,
                    {}
                }
                let d = dx * dx + dy * dy;
                if !have_best || d < best_d {
                    have_best = true;
                    best_j = j;
                    best_d = d;
                }
            }
            j = j + 1;
        }
        let close = have_best && best_d < CLOSE_SQ;
        let warn = have_best && best_d < WARN_SQ;
        proof {
            if close {
                assert(close_to(ms, i as int, CLOSE_SQ as int));
            } else {
                assert(!close_to(ms, i as int, CLOSE_SQ as int));
            }
            if warn {
                assert(close_to(ms, i as int, WARN_SQ as int));
            } else {
                assert(!close_to(ms, i as int, WARN_SQ as int));
            }
        }
        let mut tp = copy_point(&points[i]);
        tp.class = if close {
            ProbeClass::ClosePitch
        } else {
            ProbeClass::Standard
        };
        let ghost pre_out = out@;
        out.push(tp);
        proof {
            crate::points::lemma_models_push(pre_out, tp);
            assert(model(tp) =~= size_spec(ms)[i as int]);
            assert(models(out@) =~= size_spec(ms).take(i as int + 1));
        }
        if warn {
            let w = SizeWarning {
                first: i,
                second: best_j,
                first_designator: clone_bytes(&points[i].designator),
                second_designator: clone_bytes(&points[best_j].designator),
                dist_sq: best_d,
            };
            let ghost pre_w = warns@;
            warns.push(w);
            proof {
                assert(warning_valid(ms, w));
                assert(forall|k: int|
                    0 <= k < pre_w.len() ==> warns@[k] == #[trigger] pre_w[k]);
                assert(warns@[warns@.len() - 1] == w);
                assert forall|p: int|
                    0 <= p < i as int + 1 implies (close_to(ms, p, WARN_SQ as int) <==> exists|k: int|
                    0 <= k < warns@.len() && (#[trigger] warns@[k]).first == p) by {
                    if p < i as int {
                        if close_to(ms, p, WARN_SQ as int) {
                            let k0 = choose|k: int|
                                0 <= k < pre_w.len() && (#[trigger] pre_w[k]).first == p;
                            assert(warns@[k0].first == p);
                        } else {
                            assert(forall|k: int|
                                0 <= k < warns@.len() ==> (#[trigger] warns@[k]).first != p);
                        }
                    } else {
                        assert(warns@[warns@.len() - 1].first == p);
                    }
                }
            }
        } else {
            proof {
                assert forall|p: int|
                    0 <= p < i as int + 1 implies (close_to(ms, p, WARN_SQ as int) <==> exists|k: int|
                    0 <= k < warns@.len() && (#[trigger] warns@[k]).first == p) by {
                    if p == i as int {
                        assert(forall|k: int|
                            0 <= k < warns@.len() ==> (#[trigger] warns@[k]).first != p);
                    }
                }
            }
        }
        i = i + 1;
    }
    proof {
        assert(size_spec(ms).take(ms.len() as int) =~= size_spec(ms));
    }
    (out, warns)
}

} // verus!
