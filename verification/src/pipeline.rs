//! The whole pipeline: filter, scale, recenter, optionally rotate and
//! recenter again, size the probes, append the fixture catalog, and
//! project to output rows.

use vstd::prelude::*;
use crate::filter::{filter_records, filter_spec, lemma_filter_bounds, lemma_filter_len, seqs_of};
use crate::fixture::{add_fixture_points, fixture_models, lemma_fixture_catalog};
use crate::points::{
    all_in_bounds, in_bounds, models, rec_models, PipelineError, PlacementRecord, PointModel,
    Rotation, TestPoint, ANCHOR_X, COUNT_LIMIT, FORMAT_LIMIT, MID_LIMIT, RAW_LIMIT, SCALED_LIMIT,
    SIZER_LIMIT,
};
use crate::project::{
    all_named, project_rows, project_spec, row_models, row_of, OutputRow,
};
use crate::sizer::{size_holes, size_spec, warnings_valid, SizeWarning};
use crate::transform::{
    lemma_mean_bounds, mean_x, mean_y, offset_points, offset_spec, rotate_points, rotate_spec,
    scale_points, scale_spec,
};

verus! {

/// The geometric placement of a filtered point set: scale to inch,
/// recenter on the anchor, and when a rotation is requested, rotate and
/// recenter again.
pub open spec fn placed_spec(ms: Seq<PointModel>, rotation: Option<Rotation>) -> Seq<PointModel> {
    let centered = offset_spec(scale_spec(ms));
    match rotation {
        Option::None => centered,
        Option::Some(rot) => offset_spec(rotate_spec(centered, rot)),
    }
}

/// The final point sequence of a run: the filtered set placed, sized, and
/// followed by the twelve fixture points.
pub open spec fn final_points_spec(
    records: Seq<PlacementRecord>,
    ovs: Seq<Seq<u8>>,
    rotation: Option<Rotation>,
) -> Seq<PointModel> {
    size_spec(placed_spec(filter_spec(rec_models(records), ovs), rotation)) + fixture_models()
}

/// A bound on a point set carries over to its centering offset, widened
/// by the bound itself and the anchor.
proof fn lemma_offset_bounds(ms: Seq<PointModel>, b: int)
    requires
        0 < ms.len(),
        0 <= b,
        all_in_bounds(ms, b),
    ensures
        all_in_bounds(offset_spec(ms), 2 * b + ANCHOR_X as int),
{
    lemma_mean_bounds(ms, b);
    assert forall|i: int|
        0 <= i < offset_spec(ms).len() implies in_bounds(
        #[trigger] offset_spec(ms)[i],
        2 * b + ANCHOR_X as int,
    ) by {
        assert(offset_spec(ms)[i].x == ms[i].x + (ANCHOR_X as int - mean_x(ms)));
        assert(offset_spec(ms)[i].y == ms[i].y + (crate::points::ANCHOR_Y as int - mean_y(ms)));
        assert(in_bounds(ms[i], b));
    }
}

/// Rotation only moves and negates coordinates, so bounds carry over.
proof fn lemma_rotate_bounds(ms: Seq<PointModel>, rot: Rotation, b: int)
    requires
        all_in_bounds(ms, b),
    ensures
        all_in_bounds(rotate_spec(ms, rot), b),
{
    assert forall|i: int|
        0 <= i < rotate_spec(ms, rot).len() implies in_bounds(#[trigger] rotate_spec(ms, rot)[i], b)
        by {
        assert(in_bounds(ms[i], b));
    }
}

/// Sizing rewrites classifications only, so bounds carry over.
proof fn lemma_size_bounds(ms: Seq<PointModel>, b: int)
    requires
        all_in_bounds(ms, b),
    ensures
        all_in_bounds(size_spec(ms), b),
{
    assert forall|i: int|
        0 <= i < size_spec(ms).len() implies in_bounds(#[trigger] size_spec(ms)[i], b) by {
        assert(in_bounds(ms[i], b));
    }
}

/// Widening a coordinate bound keeps it a bound.
proof fn lemma_bounds_widen(ms: Seq<PointModel>, b: int, c: int)
    requires
        all_in_bounds(ms, b),
        b <= c,
    ensures
        all_in_bounds(ms, c),
{
    assert forall|i: int| 0 <= i < ms.len() implies in_bounds(#[trigger] ms[i], c) by {
        assert(in_bounds(ms[i], b));
    }
}

/// Fixture-catalog law: however large the sized test-point set, the
/// projected output holds exactly twelve extra rows after it, one per
/// fixture point at its fixed coordinates.
pub proof fn lemma_projected_fixture_rows(ms: Seq<PointModel>, named: bool)
    ensures
        project_spec(ms + fixture_models(), named).len() == ms.len() + 12,
        forall|k: int|
            0 <= k < 12 ==> #[trigger] project_spec(ms + fixture_models(), named)[ms.len() as int
                + k] == row_of(fixture_models()[k], named),
{
    lemma_fixture_catalog();
    assert forall|k: int|
        0 <= k < 12 implies #[trigger] project_spec(ms + fixture_models(), named)[ms.len() as int
        + k] == row_of(fixture_models()[k], named) by {
        assert((ms + fixture_models())[ms.len() as int + k] == fixture_models()[k]);
    }
}

/// Run the whole pipeline on the placement records.
///
/// The count precondition keeps every coordinate sum within machine
/// bounds; the coordinate precondition admits boards up to 100 inches
/// from the origin in any direction.
pub fn run(
    records: &Vec<PlacementRecord>,
    overrides: &Vec<Vec<u8>>,
    rotation: Option<Rotation>,
    named: bool,
) -> (res: Result<(Vec<OutputRow>, Vec<SizeWarning>), PipelineError>)
    requires
        records@.len() * (overrides@.len() + 1) <= COUNT_LIMIT,
        all_in_bounds(rec_models(records@), RAW_LIMIT as int),
    ensures
        ({
            let fs = filter_spec(rec_models(records@), seqs_of(overrides@));
            let pts = final_points_spec(records@, seqs_of(overrides@), rotation);
            &&& (fs.len() == 0 ==> res == Result::<(Vec<OutputRow>, Vec<SizeWarning>),
                PipelineError,
            >::Err(PipelineError::EmptyInput))
            &&& (fs.len() > 0 ==> {
                &&& (res is Ok <==> all_named(pts))
                &&& (match res {
                    Result::Ok(outp) => row_models(outp.0@) == project_spec(pts, named)
                        && warnings_valid(placed_spec(fs, rotation), outp.1@),
                    Result::Err(e) => e == PipelineError::EmptyDesignator,
                })
            })
        }),
{
    let ghost rms = rec_models(records@);
    let ghost ovs = seqs_of(overrides@);
    let filtered = filter_records(records, overrides);
    proof {
        lemma_filter_len(rms, ovs);
        assert(rms.len() * (ovs.len() + 1) == records@.len() * (overrides@.len() + 1));
        lemma_filter_bounds(rms, ovs, RAW_LIMIT as int);
    }
    if filtered.len() == 0 {
        return Result::Err(PipelineError::EmptyInput);
    }
    let ghost fs = filter_spec(rms, ovs);
    let scaled = scale_points(&filtered);
    proof {
        lemma_bounds_widen(models(scaled@), SCALED_LIMIT as int, MID_LIMIT as int);
        assert(models(filtered@).len() == filtered@.len());
        assert(models(scaled@).len() == scaled@.len());
        assert(0 < scaled@.len() <= COUNT_LIMIT);
    }
    let centered = offset_points(&scaled);
    proof {
        lemma_offset_bounds(models(scaled@), SCALED_LIMIT as int);
        lemma_bounds_widen(
            models(centered@),
            2 * SCALED_LIMIT as int + ANCHOR_X as int,
            SIZER_LIMIT as int,
        );
        lemma_bounds_widen(
            models(centered@),
            2 * SCALED_LIMIT as int + ANCHOR_X as int,
            MID_LIMIT as int,
        );
    }
    let placed = match rotation {
        Option::None => centered,
        Option::Some(rot) => {
            let rotated = rotate_points(&centered, rot);
            proof {
                lemma_rotate_bounds(
                    models(centered@),
                    rot,
                    2 * SCALED_LIMIT as int + ANCHOR_X as int,
                );
                lemma_bounds_widen(
                    models(rotated@),
                    2 * SCALED_LIMIT as int + ANCHOR_X as int,
                    MID_LIMIT as int,
                );
                assert(models(centered@).len() == centered@.len());
                assert(models(rotated@).len() == rotated@.len());
                assert(0 < rotated@.len() <= COUNT_LIMIT);
            }
            let recentered = offset_points(&rotated);
            proof {
                lemma_offset_bounds(models(rotated@), 2 * SCALED_LIMIT as int + ANCHOR_X as int);
                lemma_bounds_widen(
                    models(recentered@),
                    2 * (2 * SCALED_LIMIT as int + ANCHOR_X as int) + ANCHOR_X as int,
                    SIZER_LIMIT as int,
                );
            }
            recentered
        },
    };
    proof {
        assert(all_in_bounds(models(placed@), SIZER_LIMIT as int));
        assert(models(placed@) == placed_spec(fs, rotation));
    }
    let (sized, warnings) = size_holes(&placed);
    let mut all_points = sized;
    proof {
        lemma_size_bounds(models(placed@), SIZER_LIMIT as int);
    }
    add_fixture_points(&mut all_points);
    proof {
        lemma_fixture_catalog();
        assert(models(all_points@) == final_points_spec(records@, ovs, rotation));
        assert forall|i: int|
            0 <= i < models(all_points@).len() implies in_bounds(
            #[trigger] models(all_points@)[i],
            FORMAT_LIMIT as int,
        ) by {
            let pts = models(all_points@);
            let sz = size_spec(placed_spec(fs, rotation));
            if i < sz.len() {
                assert(pts[i] == sz[i]);
                assert(in_bounds(sz[i], SIZER_LIMIT as int));
            } else {
                assert(pts[i] == fixture_models()[i - sz.len()]);
                assert(in_bounds(fixture_models()[i - sz.len()], 7_000_000));
            }
        }
    }
    match project_rows(&all_points, named) {
        Result::Ok(rows) => Result::Ok((rows, warnings)),
        Result::Err(e) => Result::Err(e),
    }
}

} // verus!
