//! Data model: placement records, test points, and their ghost models.

use vstd::prelude::*;

verus! {

/// Probe footprint classification of a test point, driven by the distance
/// to its nearest distinct-position neighbour.
#[derive(Clone, Copy, Debug, PartialEq, Eq, Structural)]
pub enum ProbeClass {
    Standard,
    ClosePitch,
}

/// Requested rotation of the whole point set, in degrees.
///
/// `R270` is deliberately not a true 270-degree rotation: it only negates
/// the y coordinate (a vertical flip). Output compatibility depends on
/// that exact mapping.
#[derive(Clone, Copy, Debug, PartialEq, Eq, Structural)]
pub enum Rotation {
    R90,
    R180,
    R270,
}

/// Errors of the point pipeline.
#[derive(Clone, Copy, Debug, PartialEq, Eq, Structural)]
pub enum PipelineError {
    /// No record qualified as a test point; the centering offset is
    /// undefined on an empty set.
    EmptyInput,
    /// A point reached output projection with an empty designator, which
    /// has no first character to resolve a radius from.
    EmptyDesignator,
}

/// Fixed-point denominator: coordinates carry six fractional decimal digits.
pub const COORD_UNIT: i64 = 1_000_000;

/// Anchor x coordinate, 3.5 inches: the fixture center the set is recentered onto.
pub const ANCHOR_X: i64 = 3_500_000;

/// Anchor y coordinate, 3.0 inches.
pub const ANCHOR_Y: i64 = 3_000_000;

/// Squared close-pitch threshold: (0.085 inch)^2 in squared coordinate units.
pub const CLOSE_SQ: i64 = 7_225_000_000;

/// Squared warning threshold: (0.068 inch)^2 in squared coordinate units.
pub const WARN_SQ: i64 = 4_624_000_000;

/// Largest coordinate magnitude accepted on raw input records (100 inches in mil units).
pub const RAW_LIMIT: i64 = 100_000_000_000;

/// Coordinate magnitude bound after scaling mil to inch.
pub const SCALED_LIMIT: i64 = 100_000_000;

/// Largest coordinate magnitude accepted by the centering offset.
pub const MID_LIMIT: i64 = 500_000_000;

/// Largest coordinate magnitude accepted by the proximity sizer; keeps
/// every squared distance within `i64`.
pub const SIZER_LIMIT: i64 = 1_050_000_000;

/// Largest coordinate magnitude accepted by output formatting.
pub const FORMAT_LIMIT: i64 = 2_000_000_000;

/// Largest number of working points the pipeline accepts; keeps coordinate
/// sums within `i64`.
pub const COUNT_LIMIT: usize = 1_000_000;

/// One row of the placement input, as handed to the library by the reader.
pub struct PlacementRecord {
    pub designator: Vec<u8>,
    pub comment: Vec<u8>,
    pub layer: Vec<u8>,
    pub footprint: Vec<u8>,
    pub x: i64,
    pub y: i64,
    pub rotation: i64,
    pub description: Vec<u8>,
}

/// A placement record selected for probing, plus its probe classification.
pub struct TestPoint {
    pub designator: Vec<u8>,
    pub comment: Vec<u8>,
    pub layer: Vec<u8>,
    pub footprint: Vec<u8>,
    pub x: i64,
    pub y: i64,
    pub rotation: i64,
    pub description: Vec<u8>,
    pub class: ProbeClass,
}

/// Mathematical model of a test point: sequences for the text fields and
/// unbounded integers for the fixed-point coordinates.
#[verifier::ext_equal]
pub ghost struct PointModel {
    pub designator: Seq<u8>,
    pub comment: Seq<u8>,
    pub layer: Seq<u8>,
    pub footprint: Seq<u8>,
    pub x: int,
    pub y: int,
    pub rotation: int,
    pub description: Seq<u8>,
    pub class: ProbeClass,
}

pub open spec fn model(p: TestPoint) -> PointModel {
    PointModel {
        designator: p.designator@,
        comment: p.comment@,
        layer: p.layer@,
        footprint: p.footprint@,
        x: p.x as int,
        y: p.y as int,
        rotation: p.rotation as int,
        description: p.description@,
        class: p.class,
    }
}

pub open spec fn models(s: Seq<TestPoint>) -> Seq<PointModel> {
    s.map_values(|p: TestPoint| model(p))
}

/// A raw record is modelled as a point that has not been classified yet.
pub open spec fn rec_model(r: PlacementRecord) -> PointModel {
    PointModel {
        designator: r.designator@,
        comment: r.comment@,
        layer: r.layer@,
        footprint: r.footprint@,
        x: r.x as int,
        y: r.y as int,
        rotation: r.rotation as int,
        description: r.description@,
        class: ProbeClass::Standard,
    }
}

pub open spec fn rec_models(s: Seq<PlacementRecord>) -> Seq<PointModel> {
    s.map_values(|r: PlacementRecord| rec_model(r))
}

pub open spec fn in_bounds(m: PointModel, limit: int) -> bool {
    -limit <= m.x <= limit && -limit <= m.y <= limit
}

pub open spec fn all_in_bounds(s: Seq<PointModel>, limit: int) -> bool {
    forall|i: int| 0 <= i < s.len() ==> in_bounds(#[trigger] s[i], limit)
}

/// Byte-for-byte copy of a byte vector.
pub fn clone_bytes(v: &Vec<u8>) -> (r: Vec<u8>)
    ensures
        r@ == v@,
{
    let mut r: Vec<u8> = Vec::new();
    let mut i: usize = 0;
    while i < v.len()
        invariant
            i <= v.len(),
            r@ == v@.take(i as int),
        decreases v.len() - i,
    {
        r.push(v[i]);
        proof {
            assert(r@ =~= v@.take(i + 1));
        }
        i = i + 1;
    }
    proof {
        assert(v@.take(v@.len() as int) =~= v@);
    }
    r
}

/// Copy of a test point with the same model.
pub fn copy_point(p: &TestPoint) -> (r: TestPoint)
    ensures
        model(r) == model(*p),
{
    let r = TestPoint {
        designator: clone_bytes(&p.designator),
        comment: clone_bytes(&p.comment),
        layer: clone_bytes(&p.layer),
        footprint: clone_bytes(&p.footprint),
        x: p.x,
        y: p.y,
        rotation: p.rotation,
        description: clone_bytes(&p.description),
        class: p.class,
    };
    proof {
        assert(model(r) =~= model(*p));
    }
    r
}

/// Appending a point extends the model sequence by the point's model.
pub proof fn lemma_models_push(s: Seq<TestPoint>, p: TestPoint)
    ensures
        models(s.push(p)) =~= models(s).push(model(p)),
{
}

} // verus!
