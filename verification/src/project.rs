//! Output projection: radius resolution and row construction.
//!
//! The base radius comes from the probe classification; designators whose
//! first character is `D` or `E` override it with the tooling-hole or
//! alignment-pin radius, and in named mode `S` and `P` prefixes override
//! it as well. Named mode additionally carries the designator as a fourth
//! column.

use vstd::prelude::*;
use crate::decimal::{fmt4, fmt_coord};
use crate::points::{
    all_in_bounds, clone_bytes, models, model, PipelineError, PointModel, ProbeClass, TestPoint,
    FORMAT_LIMIT,
};

verus! {

/// One emitted row: coordinate texts, radius text, and in named mode the
/// designator.
pub struct OutputRow {
    pub x_text: Vec<u8>,
    pub y_text: Vec<u8>,
    pub radius_text: Vec<u8>,
    pub designator: Option<Vec<u8>>,
}

/// Mathematical model of an output row.
#[verifier::ext_equal]
pub ghost struct RowModel {
    pub x_text: Seq<u8>,
    pub y_text: Seq<u8>,
    pub radius_text: Seq<u8>,
    pub designator: Option<Seq<u8>>,
}

pub open spec fn row_model(r: OutputRow) -> RowModel {
    RowModel {
        x_text: r.x_text@,
        y_text: r.y_text@,
        radius_text: r.radius_text@,
        designator: match r.designator {
            Option::Some(d) => Option::Some(d@),
            Option::None => Option::None,
        },
    }
}

pub open spec fn row_models(s: Seq<OutputRow>) -> Seq<RowModel> {
    s.map_values(|r: OutputRow| row_model(r))
}

/// Radius text of a point, decided by designator prefix, mode, and
/// classification: `D` is 0.19, `E` is 0.245, in named mode `S` is 0.25
/// and `P` is 0.125; otherwise close-pitch probes get 0.05511811 and
/// standard probes 0.068.
pub open spec fn radius_chars(m: PointModel, named: bool) -> Seq<u8> {
    if m.designator[0] == 68 {
        seq![48u8, 46u8, 49u8, 57u8]
    } else if m.designator[0] == 69 {
        seq![48u8, 46u8, 50u8, 52u8, 53u8]
    } else if named && m.designator[0] == 83 {
        seq![48u8, 46u8, 50u8, 53u8]
    } else if named && m.designator[0] == 80 {
        seq![48u8, 46u8, 49u8, 50u8, 53u8]
    } else if m.class == ProbeClass::ClosePitch {
        seq![48u8, 46u8, 48u8, 53u8, 53u8, 49u8, 49u8, 56u8, 49u8, 49u8]
    } else {
        seq![48u8, 46u8, 48u8, 54u8, 56u8]
    }
}

/// The row a point projects to.
pub open spec fn row_of(m: PointModel, named: bool) -> RowModel {
    RowModel {
        x_text: fmt4(m.x),
        y_text: fmt4(m.y),
        radius_text: radius_chars(m, named),
        designator: if named {
            Option::Some(m.designator)
        } else {
            Option::None
        },
    }
}

pub open spec fn project_spec(ms: Seq<PointModel>, named: bool) -> Seq<RowModel> {
    Seq::new(ms.len(), |i: int| row_of(ms[i], named))
}

/// Every point still has a designator to resolve a radius from.
pub open spec fn all_named(ms: Seq<PointModel>) -> bool {
    forall|i: int| 0 <= i < ms.len() ==> (#[trigger] ms[i]).designator.len() > 0
}

/// Radius text of one point.
fn radius_text_bytes(p: &TestPoint, named: bool) -> (r: Vec<u8>)
    requires
        p.designator@.len() > 0,
    ensures
        r@ == radius_chars(model(*p), named),
{
    let first = p.designator[0];
    if first == 68 {
        let r: Vec<u8> = vec![48, 46, 49, 57];
        proof {
            assert(r@ =~= radius_chars(model(*p), named));
        }
        r
    } else if first == 69 {
        let r: Vec<u8> = vec![48, 46, 50, 52, 53];
        proof {
            assert(r@ =~= radius_chars(model(*p), named));
        }
        r
    } else if named && first == 83 {
        let r: Vec<u8> = vec![48, 46, 50, 53];
        proof {
            assert(r@ =~= radius_chars(model(*p), named));
        }
        r
    } else if named && first == 80 {
        let r: Vec<u8> = vec![48, 46, 49, 50, 53];
        proof {
            assert(r@ =~= radius_chars(model(*p), named));
        }
        r
    } else if matches!(p.class, ProbeClass::ClosePitch) {
        let r: Vec<u8> = vec![48, 46, 48, 53, 53, 49, 49, 56, 49, 49];
        proof {
            assert(r@ =~= radius_chars(model(*p), named));
        }
        r
    } else {
        let r: Vec<u8> = vec![48, 46, 48, 54, 56];
        proof {
            assert(r@ =~= radius_chars(model(*p), named));
        }
        r
    }
}

/// Project the final point sequence into output rows. Fails with a typed
/// error if any point has an empty designator.
pub fn project_rows(points: &Vec<TestPoint>, named: bool) -> (res: Result<
    Vec<OutputRow>,
    PipelineError,
>)
    requires
        all_in_bounds(models(points@), FORMAT_LIMIT as int),
    ensures
        res is Ok <==> all_named(models(points@)),
        res matches Ok(rows) ==> row_models(rows@) == project_spec(models(points@), named),
        res matches Err(e) ==> e == PipelineError::EmptyDesignator,
{
    let ghost ms = models(points@);
    let mut out: Vec<OutputRow> = Vec::new();
    let mut i: usize = 0;
    while i < points.len()
        invariant
            i <= points@.len(),
            row_models(out@) == project_spec(ms, named).take(i as int),
            forall|p: int| 0 <= p < i ==> (#[trigger] ms[p]).designator.len() > 0,
        decreases points@.len() - i,
    {
        let p = &points[i];
        if p.designator.len() == 0 {
            proof {
                assert(ms[i as int].designator.len() == 0);
            }
            return Result::Err(PipelineError::EmptyDesignator);
        }
        let row = OutputRow {
            x_text: fmt_coord(p.x),
            y_text: fmt_coord(p.y),
            radius_text: radius_text_bytes(p, named),
            designator: if named {
                Option::Some(clone_bytes(&p.designator))
            } else {
                Option::None
            },
        };
        let ghost pre = out@;
        out.push(row);
        proof {
            assert(row_models(out@) =~= row_models(pre).push(row_model(row)));
            assert(row_model(row) =~= row_of(ms[i as int], named));
            assert(row_models(out@) =~= project_spec(ms, named).take(i as int + 1));
        }
        i = i + 1;
    }
    proof {
        assert(project_spec(ms, named).take(ms.len() as int) =~= project_spec(ms, named));
    }
    Result::Ok(out)
}

} // verus!
