//! Coordinate pipeline: mil-to-inch scaling, centering offset onto the
//! fixture anchor, and 90-degree-multiple rotation.

use vstd::prelude::*;
use vstd::arithmetic::div_mod::{
    lemma_div_is_ordered, lemma_div_multiples_vanish, lemma_div_nonincreasing,
    lemma_fundamental_div_mod, lemma_fundamental_div_mod_converse, lemma_mod_bound,
};
use crate::points::{
    all_in_bounds, in_bounds, model, models, PointModel, Rotation, TestPoint,
    ANCHOR_X, ANCHOR_Y, COUNT_LIMIT, MID_LIMIT, RAW_LIMIT, SCALED_LIMIT, SIZER_LIMIT,
};

verus! {

/// Sum of the x coordinates of a point sequence.
pub open spec fn sum_x(ms: Seq<PointModel>) -> int
    decreases ms.len(),
{
    if ms.len() == 0 {
        0
    } else {
        sum_x(ms.drop_last()) + ms.last().x
    }
}

/// Sum of the y coordinates of a point sequence.
pub open spec fn sum_y(ms: Seq<PointModel>) -> int
    decreases ms.len(),
{
    if ms.len() == 0 {
        0
    } else {
        sum_y(ms.drop_last()) + ms.last().y
    }
}

/// Midpoint x: the floor of the arithmetic mean of the x coordinates.
pub open spec fn mean_x(ms: Seq<PointModel>) -> int {
    sum_x(ms) / ms.len() as int
}

/// Midpoint y: the floor of the arithmetic mean of the y coordinates.
pub open spec fn mean_y(ms: Seq<PointModel>) -> int {
    sum_y(ms) / ms.len() as int
}

/// One point scaled from mil to inch: both coordinates divided by 1000,
/// rounding toward negative infinity.
pub open spec fn scale_model(m: PointModel) -> PointModel {
    PointModel { x: m.x / 1000, y: m.y / 1000, ..m }
}

pub open spec fn scale_spec(ms: Seq<PointModel>) -> Seq<PointModel> {
    ms.map_values(|m: PointModel| scale_model(m))
}

/// Every point translated by the same vector.
pub open spec fn shift_spec(ms: Seq<PointModel>, dx: int, dy: int) -> Seq<PointModel> {
    ms.map_values(|m: PointModel| PointModel { x: m.x + dx, y: m.y + dy, ..m })
}

/// The centering offset: translate the whole set so that its midpoint
/// lands on the anchor.
pub open spec fn offset_spec(ms: Seq<PointModel>) -> Seq<PointModel> {
    shift_spec(ms, ANCHOR_X - mean_x(ms), ANCHOR_Y - mean_y(ms))
}

/// The rotation mappings, about the origin. `R270` is a vertical flip,
/// not a true rotation: it keeps x and negates y.
pub open spec fn rotate_model(m: PointModel, rot: Rotation) -> PointModel {
    match rot {
        Rotation::R90 => PointModel { x: m.y, y: -m.x, ..m },
        Rotation::R180 => PointModel { x: -m.x, y: -m.y, ..m },
        Rotation::R270 => PointModel { x: m.x, y: -m.y, ..m },
    }
}

pub open spec fn rotate_spec(ms: Seq<PointModel>, rot: Rotation) -> Seq<PointModel> {
    ms.map_values(|m: PointModel| rotate_model(m, rot))
}

/// Floor division of `a` by a positive divisor `b`.
pub fn div_floor(a: i64, b: i64) -> (q: i64)
    requires
        1 <= b <= 1_000_000_000,
        -1_000_000_000_000_000_000 <= a <= 1_000_000_000_000_000_000,
    ensures
        q as int == a as int / b as int,
{
    if a >= 0 {
        let q0 = (a as u64) / (b as u64);
        proof {
            lemma_div_nonincreasing(a as int, b as int);
            vstd::arithmetic::div_mod::lemma_div_pos_is_pos(a as int, b as int);
        }
        q0 as i64
    } else {
        let na = (-a) as u64;
        let q0 = na / (b as u64);
        let r0 = na % (b as u64);
        proof {
            lemma_div_nonincreasing(na as int, b as int);
            vstd::arithmetic::div_mod::lemma_div_pos_is_pos(na as int, b as int);
            lemma_fundamental_div_mod(na as int, b as int);
            lemma_mod_bound(na as int, b as int);
        }
        if r0 == 0 {
            proof {
                assert(a as int == (-(q0 as int)) * (b as int) + 0) by (nonlinear_arith)
                    requires
                        na as int == (b as int) * (q0 as int) + (r0 as int),
                        r0 == 0,
                        a as int == -(na as int),
                {}
                lemma_fundamental_div_mod_converse(a as int, b as int, -(q0 as int), 0);
            }
            -(q0 as i64)
        } else {
            proof {
                assert(a as int == (-(q0 as int) - 1) * (b as int) + ((b as int) - (r0 as int)))
                    by (nonlinear_arith)
                    requires
                        na as int == (b as int) * (q0 as int) + (r0 as int),
                        a as int == -(na as int),
                {}
                lemma_fundamental_div_mod_converse(
                    a as int,
                    b as int,
                    -(q0 as int) - 1,
                    (b as int) - (r0 as int),
                );
            }
            -(q0 as i64) - 1
        }
    }
}

/// Extending a sequence by one point adds that point's coordinates to the sums.
pub proof fn lemma_sum_take_snoc(ms: Seq<PointModel>, i: int)
    requires
        0 <= i < ms.len(),
    ensures
        sum_x(ms.take(i + 1)) == sum_x(ms.take(i)) + ms[i].x,
        sum_y(ms.take(i + 1)) == sum_y(ms.take(i)) + ms[i].y,
{
    assert(ms.take(i + 1).drop_last() =~= ms.take(i));
    assert(ms.take(i + 1).last() == ms[i]);
}

/// Coordinate sums of a bounded point set are bounded by count times bound.
pub proof fn lemma_sum_bound(ms: Seq<PointModel>, b: int)
    requires
        0 <= b,
        all_in_bounds(ms, b),
    ensures
        -(ms.len() as int * b) <= sum_x(ms) <= ms.len() as int * b,
        -(ms.len() as int * b) <= sum_y(ms) <= ms.len() as int * b,
    decreases ms.len(),
{
    if ms.len() == 0 {
    } else {
        let prefix = ms.drop_last();
        assert(all_in_bounds(prefix, b)) by {
            assert(forall|i: int| 0 <= i < prefix.len() ==> prefix[i] == #[trigger] ms[i]);
        }
        lemma_sum_bound(prefix, b);
        assert(in_bounds(ms[ms.len() - 1], b));
        assert((ms.len() as int) * b == (prefix.len() as int) * b + b) by (nonlinear_arith)
            requires
                ms.len() == prefix.len() + 1,
        {}
    }
}

/// The floor mean of a bounded non-empty point set is within the same bound.
pub proof fn lemma_mean_bounds(ms: Seq<PointModel>, b: int)
    requires
        0 < ms.len(),
        0 <= b,
        all_in_bounds(ms, b),
    ensures
        -b <= mean_x(ms) <= b,
        -b <= mean_y(ms) <= b,
{
    let n = ms.len() as int;
    lemma_sum_bound(ms, b);
    lemma_div_is_ordered(sum_x(ms), n * b, n);
    lemma_div_is_ordered(-(n * b), sum_x(ms), n);
    lemma_div_is_ordered(sum_y(ms), n * b, n);
    lemma_div_is_ordered(-(n * b), sum_y(ms), n);
    lemma_div_multiples_vanish(b, n);
    lemma_div_multiples_vanish(-b, n);
    assert(n * b == b * n) by (nonlinear_arith) {}
    assert(-(n * b) == -b * n) by (nonlinear_arith) {}
}

/// Translating every point by `(dx, dy)` shifts the sums by count times the vector.
pub proof fn lemma_sum_shift(ms: Seq<PointModel>, dx: int, dy: int)
    ensures
        sum_x(shift_spec(ms, dx, dy)) == sum_x(ms) + ms.len() as int * dx,
        sum_y(shift_spec(ms, dx, dy)) == sum_y(ms) + ms.len() as int * dy,
    decreases ms.len(),
{
    let shifted = shift_spec(ms, dx, dy);
    if ms.len() == 0 {
        assert(shifted.len() == 0);
        assert(ms.len() as int * dx == 0) by (nonlinear_arith)
            requires
                ms.len() == 0,
        {}
        assert(ms.len() as int * dy == 0) by (nonlinear_arith)
            requires
                ms.len() == 0,
        {}
    } else {
        let prefix = ms.drop_last();
        lemma_sum_shift(prefix, dx, dy);
        assert(shifted.drop_last() =~= shift_spec(prefix, dx, dy));
        assert(shifted.last() == PointModel { x: ms.last().x + dx, y: ms.last().y + dy, ..ms.last() });
        assert(ms.len() as int * dx == prefix.len() as int * dx + dx) by (nonlinear_arith)
            requires
                ms.len() == prefix.len() + 1,
        {}
        assert(ms.len() as int * dy == prefix.len() as int * dy + dy) by (nonlinear_arith)
            requires
                ms.len() == prefix.len() + 1,
        {}
    }
}

/// Recentering law: after the centering offset, the midpoint of any
/// non-empty point set is exactly the anchor.
pub proof fn lemma_offset_recenters(ms: Seq<PointModel>)
    requires
        0 < ms.len(),
    ensures
        offset_spec(ms).len() == ms.len(),
        mean_x(offset_spec(ms)) == ANCHOR_X as int,
        mean_y(offset_spec(ms)) == ANCHOR_Y as int,
{
    let n = ms.len() as int;
    let mx = mean_x(ms);
    let my = mean_y(ms);
    let rx = sum_x(ms) % n;
    let ry = sum_y(ms) % n;
    lemma_fundamental_div_mod(sum_x(ms), n);
    lemma_fundamental_div_mod(sum_y(ms), n);
    lemma_mod_bound(sum_x(ms), n);
    lemma_mod_bound(sum_y(ms), n);
    lemma_sum_shift(ms, ANCHOR_X - mx, ANCHOR_Y - my);
    assert(sum_x(offset_spec(ms)) == (ANCHOR_X as int) * n + rx) by (nonlinear_arith)
        requires
            sum_x(ms) == n * mx + rx,
            sum_x(offset_spec(ms)) == sum_x(ms) + n * (ANCHOR_X - mx),
    {}
    assert(sum_y(offset_spec(ms)) == (ANCHOR_Y as int) * n + ry) by (nonlinear_arith)
        requires
            sum_y(ms) == n * my + ry,
            sum_y(offset_spec(ms)) == sum_y(ms) + n * (ANCHOR_Y - my),
    {}
    lemma_fundamental_div_mod_converse(sum_x(offset_spec(ms)), n, ANCHOR_X as int, rx);
    lemma_fundamental_div_mod_converse(sum_y(offset_spec(ms)), n, ANCHOR_Y as int, ry);
}

/// The 180-degree rotation is its own inverse.
pub proof fn lemma_rotate180_involution(ms: Seq<PointModel>)
    ensures
        rotate_spec(rotate_spec(ms, Rotation::R180), Rotation::R180) == ms,
{
    assert(rotate_spec(rotate_spec(ms, Rotation::R180), Rotation::R180) =~~= ms);
}

/// The 270-degree mapping is a vertical flip, so unlike a true
/// 270-degree rotation it is its own inverse as well.
pub proof fn lemma_rotate270_involution(ms: Seq<PointModel>)
    ensures
        rotate_spec(rotate_spec(ms, Rotation::R270), Rotation::R270) == ms,
{
    assert(rotate_spec(rotate_spec(ms, Rotation::R270), Rotation::R270) =~~= ms);
}

/// The 90-degree mapping is a true rotation: four applications give the
/// identity. Composing it three times is therefore not the same as the
/// 270-degree mapping, which is a flip.
pub proof fn lemma_rotate90_four_times_identity(ms: Seq<PointModel>)
    ensures
        rotate_spec(
            rotate_spec(rotate_spec(rotate_spec(ms, Rotation::R90), Rotation::R90), Rotation::R90),
            Rotation::R90,
        ) == ms,
{
    assert(rotate_spec(
        rotate_spec(rotate_spec(rotate_spec(ms, Rotation::R90), Rotation::R90), Rotation::R90),
        Rotation::R90,
    ) =~~= ms);
}

/// Midpoint of a non-empty point set: the floor means of x and y.
pub fn mid_point(points: &Vec<TestPoint>) -> (r: (i64, i64))
    requires
        0 < points@.len() <= COUNT_LIMIT,
        all_in_bounds(models(points@), MID_LIMIT as int),
    ensures
        r.0 as int == mean_x(models(points@)),
        r.1 as int == mean_y(models(points@)),
        -MID_LIMIT <= r.0 <= MID_LIMIT,
        -MID_LIMIT <= r.1 <= MID_LIMIT,
{
    let ghost ms = models(points@);
    let mut sx: i64 = 0;
    let mut sy: i64 = 0;
    let mut i: usize = 0;
    while i < points.len()
        invariant
            i <= points@.len(),
            sx as int == sum_x(ms.take(i as int)),
            sy as int == sum_y(ms.take(i as int)),
            -(i as int) * (MID_LIMIT as int) <= sx as int <= (i as int) * (MID_LIMIT as int),
            -(i as int) * (MID_LIMIT as int) <= sy as int <= (i as int) * (MID_LIMIT as int),
        decreases points@.len() - i,
    {
        proof {
            lemma_sum_take_snoc(ms, i as int);
            assert(in_bounds(ms[i as int], MID_LIMIT as int));
            assert((i as int + 1) * (MID_LIMIT as int) == (i as int) * (MID_LIMIT as int)
                + MID_LIMIT as int) by (nonlinear_arith) {}
            assert((i as int + 1) * (MID_LIMIT as int) <= (COUNT_LIMIT as int)
                * (MID_LIMIT as int)) by (nonlinear_arith)
                requires
                    i as int + 1 <= COUNT_LIMIT as int,
            {}
        }
        sx = sx + points[i].x;
        sy = sy + points[i].y;
        i = i + 1;
    }
    proof {
        assert(ms.take(ms.len() as int) =~= ms);
        lemma_mean_bounds(ms, MID_LIMIT as int);
    }
    let n = points.len() as i64;
    proof {
        assert((points@.len() as int) * (MID_LIMIT as int) <= 1_000_000_000_000_000_000)
            by (nonlinear_arith)
            requires
                points@.len() as int <= COUNT_LIMIT as int,
        {}
    }
    let mx = div_floor(sx, n);
    let my = div_floor(sy, n);
    (mx, my)
}

/// Scale every point from mil to inch units: both coordinates divided by
/// 1000, rounding toward negative infinity. Pure per-point operation.
pub fn scale_points(points: &Vec<TestPoint>) -> (out: Vec<TestPoint>)
    requires
        all_in_bounds(models(points@), RAW_LIMIT as int),
    ensures
        models(out@) == scale_spec(models(points@)),
        all_in_bounds(models(out@), SCALED_LIMIT as int),
{
    let ghost ms = models(points@);
    let mut out: Vec<TestPoint> = Vec::new();
    let mut i: usize = 0;
    while i < points.len()
        invariant
            i <= points@.len(),
            models(out@) == scale_spec(ms.take(i as int)),
            all_in_bounds(models(out@), SCALED_LIMIT as int),
        decreases points@.len() - i,
    {
        proof {
            assert(in_bounds(ms[i as int], RAW_LIMIT as int));
        }
        let mut tp = crate::points::copy_point(&points[i]);
        let nx = div_floor(tp.x, 1000);
        let ny = div_floor(tp.y, 1000);
        proof {
            lemma_div_is_ordered(tp.x as int, RAW_LIMIT as int, 1000);
            lemma_div_is_ordered(-(RAW_LIMIT as int), tp.x as int, 1000);
            lemma_div_is_ordered(tp.y as int, RAW_LIMIT as int, 1000);
            lemma_div_is_ordered(-(RAW_LIMIT as int), tp.y as int, 1000);
            assert(RAW_LIMIT as int / 1000 == SCALED_LIMIT as int);
            assert(-(RAW_LIMIT as int) / 1000 == -(SCALED_LIMIT as int));
        }
        tp.x = nx;
        tp.y = ny;
        let ghost pre = out@;
        out.push(tp);
        proof {
            crate::points::lemma_models_push(pre, tp);
            assert(model(tp) =~= scale_model(ms[i as int]));
            assert(models(out@) =~= scale_spec(ms.take(i as int + 1)));
        }
        i = i + 1;
    }
    proof {
        assert(ms.take(ms.len() as int) =~= ms);
    }
    out
}

/// Translate every point so the set's midpoint lands on the anchor
/// `(3.5, 3.0)` inches.
pub fn offset_points(points: &Vec<TestPoint>) -> (out: Vec<TestPoint>)
    requires
        0 < points@.len() <= COUNT_LIMIT,
        all_in_bounds(models(points@), MID_LIMIT as int),
    ensures
        models(out@) == offset_spec(models(points@)),
{
    let ghost ms = models(points@);
    let (mx, my) = mid_point(points);
    let dx = ANCHOR_X - mx;
    let dy = ANCHOR_Y - my;
    let mut out: Vec<TestPoint> = Vec::new();
    let mut i: usize = 0;
    while i < points.len()
        invariant
            i <= points@.len(),
            dx as int == ANCHOR_X - mean_x(ms),
            dy as int == ANCHOR_Y - mean_y(ms),
            -MID_LIMIT - ANCHOR_X <= dx <= MID_LIMIT + ANCHOR_X,
            -MID_LIMIT - ANCHOR_Y <= dy <= MID_LIMIT + ANCHOR_Y,
            models(out@) == shift_spec(ms.take(i as int), dx as int, dy as int),
        decreases points@.len() - i,
    {
        proof {
            assert(in_bounds(ms[i as int], MID_LIMIT as int));
        }
        let mut tp = crate::points::copy_point(&points[i]);
        tp.x = tp.x + dx;
        tp.y = tp.y + dy;
        let ghost pre = out@;
        out.push(tp);
        proof {
            crate::points::lemma_models_push(pre, tp);
            assert(model(tp) =~= PointModel {
                x: ms[i as int].x + dx as int,
                y: ms[i as int].y + dy as int,
                ..ms[i as int]
            });
            assert(models(out@) =~= shift_spec(ms.take(i as int + 1), dx as int, dy as int));
        }
        i = i + 1;
    }
    proof {
        assert(ms.take(ms.len() as int) =~= ms);
    }
    out
}

/// Rotate every point about the origin by the requested mapping.
pub fn rotate_points(points: &Vec<TestPoint>, rot: Rotation) -> (out: Vec<TestPoint>)
    requires
        all_in_bounds(models(points@), SIZER_LIMIT as int),
    ensures
        models(out@) == rotate_spec(models(points@), rot),
        all_in_bounds(models(out@), SIZER_LIMIT as int),
{
    let ghost ms = models(points@);
    let mut out: Vec<TestPoint> = Vec::new();
    let mut i: usize = 0;
    while i < points.len()
        invariant
            i <= points@.len(),
            models(out@) == rotate_spec(ms.take(i as int), rot),
            all_in_bounds(models(out@), SIZER_LIMIT as int),
        decreases points@.len() - i,
    {
        proof {
            assert(in_bounds(ms[i as int], SIZER_LIMIT as int));
        }
        let mut tp = crate::points::copy_point(&points[i]);
        let px = tp.x;
        let py = tp.y;
        match rot {
            Rotation::R90 => {
                tp.x = py;
                tp.y = -px;
            },
            Rotation::R180 => {
                tp.x = -px;
                tp.y = -py;
            },
            Rotation::R270 => {
                tp.y = -py;
            },
        }
        let ghost pre = out@;
        out.push(tp);
        proof {
            crate::points::lemma_models_push(pre, tp);
            assert(model(tp) =~= rotate_model(ms[i as int], rot));
            assert(models(out@) =~= rotate_spec(ms.take(i as int + 1), rot));
        }
        i = i + 1;
    }
    proof {
        assert(ms.take(ms.len() as int) =~= ms);
    }
    out
}

} // verus!
