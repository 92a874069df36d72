//! Selection of test points from placement records.
//!
//! A record qualifies unconditionally when its designator contains `TP` or
//! `FD` on a `bottom` layer (layer match case-insensitive), or contains
//! `J` on any layer. A record that does not qualify is emitted once per
//! override substring its designator contains; a designator matching two
//! overrides is deliberately emitted twice.

use vstd::prelude::*;
use crate::points::{
    clone_bytes, model, models, rec_model, rec_models, PlacementRecord, PointModel, ProbeClass,
    TestPoint,
};
use crate::text::{contains_bytes, contains_seq, lower_bytes, to_lower};

verus! {

/// Bytes of the designator pattern "TP".
pub open spec fn tp_seq() -> Seq<u8> {
    seq![84u8, 80u8]
}

/// Bytes of the designator pattern "FD".
pub open spec fn fd_seq() -> Seq<u8> {
    seq![70u8, 68u8]
}

/// Bytes of the designator pattern "J".
pub open spec fn j_seq() -> Seq<u8> {
    seq![74u8]
}

/// Bytes of the lowercase layer keyword "bottom".
pub open spec fn bottom_seq() -> Seq<u8> {
    seq![98u8, 111u8, 116u8, 116u8, 111u8, 109u8]
}

/// A point qualifies unconditionally as a test point.
pub open spec fn qualifies(m: PointModel) -> bool {
    ||| (contains_seq(m.designator, tp_seq()) && contains_seq(lower_bytes(m.layer), bottom_seq()))
    ||| (contains_seq(m.designator, fd_seq()) && contains_seq(lower_bytes(m.layer), bottom_seq()))
    ||| contains_seq(m.designator, j_seq())
}

/// What the override list emits for one non-qualifying point: one copy
/// per override substring its designator contains, in override order.
pub open spec fn override_emit(m: PointModel, ovs: Seq<Seq<u8>>) -> Seq<PointModel>
    decreases ovs.len(),
{
    if ovs.len() == 0 {
        Seq::empty()
    } else {
        override_emit(m, ovs.drop_last()) + (if contains_seq(m.designator, ovs.last()) {
            seq![m]
        } else {
            Seq::empty()
        })
    }
}

/// What the filter emits for one point.
pub open spec fn record_emit(m: PointModel, ovs: Seq<Seq<u8>>) -> Seq<PointModel> {
    if qualifies(m) {
        seq![m]
    } else {
        override_emit(m, ovs)
    }
}

/// The whole filter: concatenation of what each point emits, in input order.
pub open spec fn filter_spec(ms: Seq<PointModel>, ovs: Seq<Seq<u8>>) -> Seq<PointModel>
    decreases ms.len(),
{
    if ms.len() == 0 {
        Seq::empty()
    } else {
        filter_spec(ms.drop_last(), ovs) + record_emit(ms.last(), ovs)
    }
}

/// Views of a list of override byte strings.
pub open spec fn seqs_of(s: Seq<Vec<u8>>) -> Seq<Seq<u8>> {
    s.map_values(|v: Vec<u8>| v@)
}

proof fn lemma_filter_snoc(ms: Seq<PointModel>, m: PointModel, ovs: Seq<Seq<u8>>)
    ensures
        filter_spec(ms.push(m), ovs) == filter_spec(ms, ovs) + record_emit(m, ovs),
{
    assert(ms.push(m).drop_last() =~= ms);
    assert(ms.push(m).last() == m);
}

/// At most one emission per override, so at most `max(1, ovs.len())`
/// points per record.
proof fn lemma_override_emit_len(m: PointModel, ovs: Seq<Seq<u8>>)
    ensures
        override_emit(m, ovs).len() <= ovs.len(),
    decreases ovs.len(),
{
    if ovs.len() > 0 {
        lemma_override_emit_len(m, ovs.drop_last());
    }
}

/// The filter output is no longer than input count times one more than
/// the override count.
pub proof fn lemma_filter_len(ms: Seq<PointModel>, ovs: Seq<Seq<u8>>)
    ensures
        filter_spec(ms, ovs).len() <= ms.len() * (ovs.len() + 1),
    decreases ms.len(),
{
    if ms.len() == 0 {
    } else {
        let prefix = ms.drop_last();
        lemma_filter_len(prefix, ovs);
        lemma_override_emit_len(ms.last(), ovs);
        assert(prefix.len() * (ovs.len() + 1) + (ovs.len() + 1) == ms.len() * (ovs.len()
            + 1)) by (nonlinear_arith)
            requires
                ms.len() == prefix.len() + 1,
        {}
    }
}

/// The filter only rearranges points, so coordinate bounds carry over.
pub proof fn lemma_filter_bounds(ms: Seq<PointModel>, ovs: Seq<Seq<u8>>, b: int)
    requires
        crate::points::all_in_bounds(ms, b),
    ensures
        crate::points::all_in_bounds(filter_spec(ms, ovs), b),
    decreases ms.len(),
{
    if ms.len() > 0 {
        let prefix = ms.drop_last();
        assert(forall|i: int| 0 <= i < prefix.len() ==> prefix[i] == #[trigger] ms[i]);
        lemma_filter_bounds(prefix, ovs, b);
        lemma_override_emit_count(ms.last(), ovs);
        let f = filter_spec(prefix, ovs);
        let r = record_emit(ms.last(), ovs);
        assert forall|i: int|
            0 <= i < filter_spec(ms, ovs).len() implies crate::points::in_bounds(
            #[trigger] filter_spec(ms, ovs)[i],
            b,
        ) by {
            if i < f.len() {
                assert(filter_spec(ms, ovs)[i] == f[i]);
            } else {
                assert(filter_spec(ms, ovs)[i] == r[i - f.len()]);
                assert(crate::points::in_bounds(ms.last(), b));
                if !qualifies(ms.last()) {
                    assert(r[i - f.len()] == ms.last());
                }
            }
        }
    }
}

/// With no overrides, everything the filter emits qualifies unconditionally.
proof fn lemma_filter_no_overrides_qualifies(ms: Seq<PointModel>)
    ensures
        forall|i: int|
            0 <= i < filter_spec(ms, Seq::empty()).len() ==> qualifies(
                #[trigger] filter_spec(ms, Seq::empty())[i],
            ),
    decreases ms.len(),
{
    if ms.len() > 0 {
        lemma_filter_no_overrides_qualifies(ms.drop_last());
        let f = filter_spec(ms.drop_last(), Seq::empty());
        let r = record_emit(ms.last(), Seq::empty());
        assert forall|i: int|
            0 <= i < filter_spec(ms, Seq::empty()).len() implies qualifies(
            #[trigger] filter_spec(ms, Seq::empty())[i],
        ) by {
            if i < f.len() {
                assert(filter_spec(ms, Seq::empty())[i] == f[i]);
            } else {
                assert(filter_spec(ms, Seq::empty())[i] == r[i - f.len()]);
                if qualifies(ms.last()) {
                    assert(r[i - f.len()] == ms.last());
                } else {
                    assert(r.len() == 0);
                }
            }
        }
    }
}

/// Filtering a sequence of qualifying points with no overrides keeps it unchanged.
proof fn lemma_filter_all_qualify_identity(ms: Seq<PointModel>)
    requires
        forall|i: int| 0 <= i < ms.len() ==> qualifies(#[trigger] ms[i]),
    ensures
        filter_spec(ms, Seq::empty()) == ms,
    decreases ms.len(),
{
    if ms.len() == 0 {
        assert(filter_spec(ms, Seq::empty()) =~= ms);
    } else {
        let prefix = ms.drop_last();
        assert(forall|i: int| 0 <= i < prefix.len() ==> prefix[i] == #[trigger] ms[i]);
        lemma_filter_all_qualify_identity(prefix);
        assert(qualifies(ms.last()));
        assert(filter_spec(ms, Seq::empty()) =~= ms);
    }
}

/// Idempotence law: with no overrides, re-filtering an already-filtered
/// point set returns it unchanged.
pub proof fn lemma_filter_idempotent(ms: Seq<PointModel>)
    ensures
        filter_spec(filter_spec(ms, Seq::empty()), Seq::empty()) == filter_spec(ms, Seq::empty()),
{
    lemma_filter_no_overrides_qualifies(ms);
    lemma_filter_all_qualify_identity(filter_spec(ms, Seq::empty()));
}

/// Number of occurrences of a point in a sequence.
pub open spec fn occurrences(ms: Seq<PointModel>, m: PointModel) -> nat
    decreases ms.len(),
{
    if ms.len() == 0 {
        0
    } else {
        occurrences(ms.drop_last(), m) + (if ms.last() == m {
            1nat
        } else {
            0nat
        })
    }
}

proof fn lemma_occurrences_concat(a: Seq<PointModel>, b: Seq<PointModel>, m: PointModel)
    ensures
        occurrences(a + b, m) == occurrences(a, m) + occurrences(b, m),
    decreases b.len(),
{
    if b.len() == 0 {
        assert(a + b =~= a);
    } else {
        lemma_occurrences_concat(a, b.drop_last(), m);
        assert((a + b).drop_last() =~= a + b.drop_last());
        assert((a + b).last() == b.last());
    }
}

/// Every copy the override emission produces is the point itself, and
/// there is one copy for each matching override.
proof fn lemma_override_emit_count(m: PointModel, ovs: Seq<Seq<u8>>)
    ensures
        forall|i: int|
            0 <= i < override_emit(m, ovs).len() ==> #[trigger] override_emit(m, ovs)[i] == m,
        occurrences(override_emit(m, ovs), m) == override_emit(m, ovs).len(),
        forall|j: int|
            0 <= j < ovs.len() && contains_seq(m.designator, ovs[j]) ==> override_emit(
                m,
                ovs.take(j + 1),
            ).len() >= override_emit(m, ovs.take(j)).len() + 1,
        forall|j: int|
            0 <= j <= ovs.len() ==> #[trigger] override_emit(m, ovs.take(j)).len()
                <= override_emit(m, ovs).len(),
    decreases ovs.len(),
{
    if ovs.len() == 0 {
        assert(forall|j: int| 0 <= j <= 0 ==> ovs.take(j) =~= ovs);
    } else {
        lemma_override_emit_count(m, ovs.drop_last());
        let prev = override_emit(m, ovs.drop_last());
        let tail = if contains_seq(m.designator, ovs.last()) {
            seq![m]
        } else {
            Seq::<PointModel>::empty()
        };
        lemma_occurrences_concat(prev, tail, m);
        if contains_seq(m.designator, ovs.last()) {
            assert(tail.len() == 1);
            assert(tail.last() == m);
            assert(tail.drop_last() =~= Seq::<PointModel>::empty());
            assert(occurrences(Seq::<PointModel>::empty(), m) == 0);
            assert(occurrences(tail, m) == 1);
        } else {
            assert(occurrences(tail, m) == 0);
        }
        assert(ovs.drop_last() =~= ovs.take(ovs.len() - 1));
        assert forall|j: int|
            0 <= j < ovs.len() && contains_seq(m.designator, ovs[j]) implies override_emit(
            m,
            ovs.take(j + 1),
        ).len() >= override_emit(m, ovs.take(j)).len() + 1 by {
            if j < ovs.len() - 1 {
                assert(ovs.take(j + 1) =~= ovs.drop_last().take(j + 1));
                assert(ovs.take(j) =~= ovs.drop_last().take(j));
            } else {
                assert(ovs.take(j + 1) =~= ovs);
                assert(ovs.take(j) =~= ovs.drop_last());
                assert(ovs.last() == ovs[j]);
            }
        }
        assert forall|j: int|
            0 <= j <= ovs.len() implies #[trigger] override_emit(m, ovs.take(j)).len()
            <= override_emit(m, ovs).len() by {
            if j == ovs.len() {
                assert(ovs.take(j) =~= ovs);
            } else {
                assert(ovs.take(j) =~= ovs.drop_last().take(j));
            }
        }
    }
}

/// Duplication law: a non-qualifying point whose designator matches two
/// different override substrings appears at least twice in the filter
/// output, as identical copies (same coordinates and fields).
pub proof fn lemma_override_duplication(
    ms: Seq<PointModel>,
    ovs: Seq<Seq<u8>>,
    i: int,
    j1: int,
    j2: int,
)
    requires
        0 <= i < ms.len(),
        !qualifies(ms[i]),
        0 <= j1 < j2 < ovs.len(),
        contains_seq(ms[i].designator, ovs[j1]),
        contains_seq(ms[i].designator, ovs[j2]),
    ensures
        occurrences(filter_spec(ms, ovs), ms[i]) >= 2,
    decreases ms.len(),
{
    let m = ms[i];
    if i == ms.len() - 1 {
        lemma_override_emit_count(m, ovs);
        assert(override_emit(m, ovs.take(j1)).len() >= 0);
        assert(override_emit(m, ovs.take(j1 + 1)).len() >= 1);
        assert(override_emit(m, ovs.take(j2)).len() >= override_emit(m, ovs.take(j1 + 1)).len())
            by {
            lemma_override_emit_prefix_monotone(m, ovs, j1 + 1, j2);
        }
        assert(override_emit(m, ovs.take(j2 + 1)).len() >= 2);
        assert(ovs.take(ovs.len() as int) =~= ovs);
        assert(override_emit(m, ovs).len() >= 2);
        lemma_occurrences_concat(filter_spec(ms.drop_last(), ovs), record_emit(m, ovs), m);
        assert(ms.last() == m);
        assert(occurrences(record_emit(m, ovs), m) >= 2);
    } else {
        lemma_override_duplication(ms.drop_last(), ovs, i, j1, j2);
        lemma_occurrences_concat(filter_spec(ms.drop_last(), ovs), record_emit(ms.last(), ovs), m);
    }
}

/// Emission length grows along override-list prefixes.
proof fn lemma_override_emit_prefix_monotone(m: PointModel, ovs: Seq<Seq<u8>>, a: int, b: int)
    requires
        0 <= a <= b <= ovs.len(),
    ensures
        override_emit(m, ovs.take(a)).len() <= override_emit(m, ovs.take(b)).len(),
    decreases b - a,
{
    if a < b {
        lemma_override_emit_prefix_monotone(m, ovs, a, b - 1);
        assert(ovs.take(b).drop_last() =~= ovs.take(b - 1));
        assert(override_emit(m, ovs.take(b - 1)).len() <= override_emit(m, ovs.take(b)).len());
    }
}

/// Decide whether a record qualifies unconditionally.
fn record_qualifies(r: &PlacementRecord) -> (q: bool)
    ensures
        q == qualifies(rec_model(*r)),
{
    let tp: Vec<u8> = vec![84, 80];
    let fd: Vec<u8> = vec![70, 68];
    let j: Vec<u8> = vec![74];
    let bottom: Vec<u8> = vec![98, 111, 116, 116, 111, 109];
    proof {
        assert(tp@ =~= tp_seq());
        assert(fd@ =~= fd_seq());
        assert(j@ =~= j_seq());
        assert(bottom@ =~= bottom_seq());
    }
    let lower_layer = to_lower(&r.layer);
    (contains_bytes(&r.designator, &tp) && contains_bytes(&lower_layer, &bottom))
        || (contains_bytes(&r.designator, &fd) && contains_bytes(&lower_layer, &bottom))
        || contains_bytes(&r.designator, &j)
}

fn record_to_point(r: &PlacementRecord) -> (tp: TestPoint)
    ensures
        model(tp) == rec_model(*r),
{
    let tp = TestPoint {
        designator: clone_bytes(&r.designator),
        comment: clone_bytes(&r.comment),
        layer: clone_bytes(&r.layer),
        footprint: clone_bytes(&r.footprint),
        x: r.x,
        y: r.y,
        rotation: r.rotation,
        description: clone_bytes(&r.description),
        class: ProbeClass::Standard,
    };
    proof {
        assert(model(tp) =~= rec_model(*r));
    }
    tp
}

/// Filter the placement records down to the test points they qualify as,
/// emitting one copy per matching override for non-qualifying records.
pub fn filter_records(records: &Vec<PlacementRecord>, overrides: &Vec<Vec<u8>>) -> (out: Vec<
    TestPoint,
>)
    ensures
        models(out@) == filter_spec(rec_models(records@), seqs_of(overrides@)),
{
    let ghost ms = rec_models(records@);
    let ghost ovs = seqs_of(overrides@);
    let mut out: Vec<TestPoint> = Vec::new();
    let mut i: usize = 0;
    while i < records.len()
        invariant
            i <= records@.len(),
            models(out@) == filter_spec(ms.take(i as int), ovs),
        decreases records@.len() - i,
    {
        let r = &records[i];
        if record_qualifies(r) {
            let tp = record_to_point(r);
            let ghost pre = out@;
            out.push(tp);
            proof {
                crate::points::lemma_models_push(pre, tp);
                lemma_filter_snoc(ms.take(i as int), ms[i as int], ovs);
                assert(ms.take(i as int + 1).drop_last() =~= ms.take(i as int));
                assert(models(out@) =~= filter_spec(ms.take(i as int + 1), ovs));
            }
        } else {
            let mut k: usize = 0;
            while k < overrides.len()
                invariant
                    i < records@.len(),
                    k <= overrides@.len(),
                    !qualifies(ms[i as int]),
                    models(out@) == filter_spec(ms.take(i as int), ovs) + override_emit(
                        ms[i as int],
                        ovs.take(k as int),
                    ),
                decreases overrides@.len() - k,
            {
                if contains_bytes(&r.designator, &overrides[k]) {
                    let tp = record_to_point(r);
                    let ghost pre = out@;
                    out.push(tp);
                    proof {
                        crate::points::lemma_models_push(pre, tp);
                        assert(ovs.take(k as int + 1).drop_last() =~= ovs.take(k as int));
                        assert(ovs.take(k as int + 1).last() == ovs[k as int]);
                        assert(models(out@) =~= filter_spec(ms.take(i as int), ovs)
                            + override_emit(ms[i as int], ovs.take(k as int + 1)));
                    }
                } else {
                    proof {
                        assert(ovs.take(k as int + 1).drop_last() =~= ovs.take(k as int));
                        assert(ovs.take(k as int + 1).last() == ovs[k as int]);
                        assert(models(out@) =~= filter_spec(ms.take(i as int), ovs)
                            + override_emit(ms[i as int], ovs.take(k as int + 1)));
                    }
                }
                k = k + 1;
            }
            proof {
                lemma_filter_snoc(ms.take(i as int), ms[i as int], ovs);
                assert(ms.take(i as int + 1).drop_last() =~= ms.take(i as int));
                assert(ovs.take(ovs.len() as int) =~= ovs);
                assert(models(out@) =~= filter_spec(ms.take(i as int + 1), ovs));
            }
        }
        i = i + 1;
    }
    proof {
        assert(ms.take(ms.len() as int) =~= ms);
    }
    out
}

} // verus!
