//! The fixed catalog of mechanical fixture points: two alignment pins,
//! six tooling holes and four screws, at absolute inch coordinates.
//!
//! These points are appended after all geometric transforms and never
//! participate in proximity sizing.

use vstd::prelude::*;
use crate::points::{model, models, PointModel, ProbeClass, TestPoint};

verus! {

/// Bytes of the shared comment and description text, "alignment pin".
pub open spec fn align_pin_seq() -> Seq<u8> {
    seq![97, 108, 105, 103, 110, 109, 101, 110, 116, 32, 112, 105, 110]
}

/// Bytes of the placeholder layer/footprint text, "N/A".
pub open spec fn na_seq() -> Seq<u8> {
    seq![78, 47, 65]
}

/// Bytes of the alignment-pin layer text, "all".
pub open spec fn all_seq() -> Seq<u8> {
    seq![97, 108, 108]
}

/// Model of one fixture point.
pub open spec fn fix_model(
    designator: Seq<u8>,
    layer: Seq<u8>,
    footprint: Seq<u8>,
    x: int,
    y: int,
) -> PointModel {
    PointModel {
        designator: designator,
        comment: align_pin_seq(),
        layer: layer,
        footprint: footprint,
        x: x,
        y: y,
        rotation: 0,
        description: align_pin_seq(),
        class: ProbeClass::Standard,
    }
}

/// The twelve fixture points, in append order: alignment pins `E1`, `E2`,
/// tooling holes `D1`..`D6`, screws `SCREW1`..`SCREW4`. Coordinates are
/// inches at six fractional digits.
pub open spec fn fixture_models() -> Seq<PointModel> {
    seq![
        fix_model(seq![69, 49], all_seq(), Seq::<u8>::empty(), 500_000, 3_000_000),
        fix_model(seq![69, 50], all_seq(), na_seq(), 6_500_000, 3_000_000),
        fix_model(seq![68, 49], na_seq(), na_seq(), 500_000, 250_000),
        fix_model(seq![68, 50], na_seq(), na_seq(), 500_000, 5_750_000),
        fix_model(seq![68, 51], na_seq(), na_seq(), 3_500_000, 250_000),
        fix_model(seq![68, 52], na_seq(), na_seq(), 3_500_000, 5_750_000),
        fix_model(seq![68, 53], na_seq(), na_seq(), 6_500_000, 250_000),
        fix_model(seq![68, 54], na_seq(), na_seq(), 6_500_000, 5_750_000),
        fix_model(seq![83, 67, 82, 69, 87, 49], na_seq(), na_seq(), 2_770_000, 2_282_000),
        fix_model(seq![83, 67, 82, 69, 87, 50], na_seq(), na_seq(), 4_230_000, 2_282_000),
        fix_model(seq![83, 67, 82, 69, 87, 51], na_seq(), na_seq(), 2_770_000, 3_718_000),
        fix_model(seq![83, 67, 82, 69, 87, 52], na_seq(), na_seq(), 4_230_000, 3_718_000),
    ]
}

fn align_pin_bytes() -> (r: Vec<u8>)
    ensures
        r@ == align_pin_seq(),
{
    let r = vec![97, 108, 105, 103, 110, 109, 101, 110, 116, 32, 112, 105, 110];
    proof {
        assert(r@ =~= align_pin_seq());
    }
    r
}

fn na_bytes() -> (r: Vec<u8>)
    ensures
        r@ == na_seq(),
{
    let r = vec![78, 47, 65];
    proof {
        assert(r@ =~= na_seq());
    }
    r
}

fn all_bytes() -> (r: Vec<u8>)
    ensures
        r@ == all_seq(),
{
    let r = vec![97, 108, 108];
    proof {
        assert(r@ =~= all_seq());
    }
    r
}

fn make_fixture_point(designator: Vec<u8>, layer: Vec<u8>, footprint: Vec<u8>, x: i64, y: i64) -> (r:
    TestPoint)
    ensures
        model(r) == fix_model(designator@, layer@, footprint@, x as int, y as int),
{
    let r = TestPoint {
        designator: designator,
        comment: align_pin_bytes(),
        layer: layer,
        footprint: footprint,
        x: x,
        y: y,
        rotation: 0,
        description: align_pin_bytes(),
        class: ProbeClass::Standard,
    };
    proof {
        assert(model(r) =~= fix_model(designator@, layer@, footprint@, x as int, y as int));
    }
    r
}

/// Append the twelve fixture points, untransformed, after the test points.
pub fn add_fixture_points(points: &mut Vec<TestPoint>)
    ensures
        models(final(points)@) == models(old(points)@) + fixture_models(),
{
    let ghost base = points@;
    let e1 = {
        let d = vec![69, 49];
        make_fixture_point(d, all_bytes(), Vec::new(), 500_000, 3_000_000)
    };
    let e2 = {
        let d = vec![69, 50];
        make_fixture_point(d, all_bytes(), na_bytes(), 6_500_000, 3_000_000)
    };
    let d1 = {
        let d = vec![68, 49];
        make_fixture_point(d, na_bytes(), na_bytes(), 500_000, 250_000)
    };
    let d2 = {
        let d = vec![68, 50];
        make_fixture_point(d, na_bytes(), na_bytes(), 500_000, 5_750_000)
    };
    let d3 = {
        let d = vec![68, 51];
        make_fixture_point(d, na_bytes(), na_bytes(), 3_500_000, 250_000)
    };
    let d4 = {
        let d = vec![68, 52];
        make_fixture_point(d, na_bytes(), na_bytes(), 3_500_000, 5_750_000)
    };
    let d5 = {
        let d = vec![68, 53];
        make_fixture_point(d, na_bytes(), na_bytes(), 6_500_000, 250_000)
    };
    let d6 = {
        let d = vec![68, 54];
        make_fixture_point(d, na_bytes(), na_bytes(), 6_500_000, 5_750_000)
    };
    let s1 = {
        let d = vec![83, 67, 82, 69, 87, 49];
        make_fixture_point(d, na_bytes(), na_bytes(), 2_770_000, 2_282_000)
    };
    let s2 = {
        let d = vec![83, 67, 82, 69, 87, 50];
        make_fixture_point(d, na_bytes(), na_bytes(), 4_230_000, 2_282_000)
    };
    let s3 = {
        let d = vec![83, 67, 82, 69, 87, 51];
        make_fixture_point(d, na_bytes(), na_bytes(), 2_770_000, 3_718_000)
    };
    let s4 = {
        let d = vec![83, 67, 82, 69, 87, 52];
        make_fixture_point(d, na_bytes(), na_bytes(), 4_230_000, 3_718_000)
    };
    points.push(e1);
    points.push(e2);
    points.push(d1);
    points.push(d2);
    points.push(d3);
    points.push(d4);
    points.push(d5);
    points.push(d6);
    points.push(s1);
    points.push(s2);
    points.push(s3);
    points.push(s4);
    proof {
        assert(models(points@) =~= models(base) + fixture_models());
    }
}

/// The catalog facts: exactly twelve fixture points, with these
/// designators and coordinates, whatever the test-point set looks like.
pub proof fn lemma_fixture_catalog()
    ensures
        fixture_models().len() == 12,
        fixture_models()[0].designator == seq![69u8, 49u8],
        fixture_models()[1].designator == seq![69u8, 50u8],
        fixture_models()[2].designator == seq![68u8, 49u8],
        fixture_models()[3].designator == seq![68u8, 50u8],
        fixture_models()[4].designator == seq![68u8, 51u8],
        fixture_models()[5].designator == seq![68u8, 52u8],
        fixture_models()[6].designator == seq![68u8, 53u8],
        fixture_models()[7].designator == seq![68u8, 54u8],
        fixture_models()[8].designator == seq![83u8, 67u8, 82u8, 69u8, 87u8, 49u8],
        fixture_models()[9].designator == seq![83u8, 67u8, 82u8, 69u8, 87u8, 50u8],
        fixture_models()[10].designator == seq![83u8, 67u8, 82u8, 69u8, 87u8, 51u8],
        fixture_models()[11].designator == seq![83u8, 67u8, 82u8, 69u8, 87u8, 52u8],
        forall|i: int| 0 <= i < 12 ==> (#[trigger] fixture_models()[i]).designator.len() > 0,
        forall|i: int|
            0 <= i < 12 ==> crate::points::in_bounds(#[trigger] fixture_models()[i], 7_000_000),
{
    assert forall|i: int| 0 <= i < 12 implies (#[trigger] fixture_models()[i]).designator.len() > 0
        && crate::points::in_bounds(fixture_models()[i], 7_000_000) by {
        if i == 0 {
        } else if i == 1 {
        } else if i == 2 {
        } else if i == 3 {
        } else if i == 4 {
        } else if i == 5 {
        } else if i == 6 {
        } else if i == 7 {
        } else if i == 8 {
        } else if i == 9 {
        } else if i == 10 {
        } else {
            assert(i == 11);
        }
    }
}

} // verus!
