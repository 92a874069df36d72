use testpoint_fixture::decimal::fmt_coord;
use testpoint_fixture::filter::filter_records;
use testpoint_fixture::points::{PlacementRecord, ProbeClass, Rotation, TestPoint};
use testpoint_fixture::sizer::size_holes;
use testpoint_fixture::transform::{mid_point, offset_points, rotate_points, scale_points};

fn record(designator: &str, layer: &str, x: i64, y: i64) -> PlacementRecord {
    PlacementRecord {
        designator: designator.as_bytes().to_vec(),
        comment: Vec::new(),
        layer: layer.as_bytes().to_vec(),
        footprint: Vec::new(),
        x,
        y,
        rotation: 0,
        description: Vec::new(),
    }
}

fn point(designator: &str, x: i64, y: i64) -> TestPoint {
    TestPoint {
        designator: designator.as_bytes().to_vec(),
        comment: Vec::new(),
        layer: b"Bottom".to_vec(),
        footprint: Vec::new(),
        x,
        y,
        rotation: 0,
        description: Vec::new(),
        class: ProbeClass::Standard,
    }
}

#[test]
fn filter_selects_tp_and_fd_on_bottom_and_j_anywhere() {
    let records = vec![
        record("TP1", "Bottom", 0, 0),
        record("TP2", "Top", 0, 0),
        record("FD1", "BOTTOM", 0, 0),
        record("J3", "Top", 0, 0),
        record("R5", "Bottom", 0, 0),
    ];
    let out = filter_records(&records, &Vec::new());
    let names: Vec<&[u8]> = out.iter().map(|p| p.designator.as_slice()).collect();
    assert_eq!(names, vec![b"TP1".as_slice(), b"FD1".as_slice(), b"J3".as_slice()]);
}

#[test]
fn filter_designator_match_is_case_sensitive() {
    let records = vec![record("tp1", "Bottom", 0, 0), record("fd1", "bottom", 0, 0)];
    let out = filter_records(&records, &Vec::new());
    assert!(out.is_empty());
}

#[test]
fn filter_layer_match_is_case_insensitive() {
    let records = vec![record("TP9", "boTToM layer", 7, 8)];
    let out = filter_records(&records, &Vec::new());
    assert_eq!(out.len(), 1);
    assert_eq!(out[0].designator, b"TP9".to_vec());
    assert_eq!(out[0].x, 7);
    assert_eq!(out[0].y, 8);
}

#[test]
fn filter_idempotent_without_overrides() {
    let records = vec![
        record("TP1", "Bottom", 1, 2),
        record("XX", "Top", 3, 4),
        record("J2", "Top", 5, 6),
    ];
    let once = filter_records(&records, &Vec::new());
    let again_records: Vec<PlacementRecord> = once
        .iter()
        .map(|p| PlacementRecord {
            designator: p.designator.clone(),
            comment: p.comment.clone(),
            layer: p.layer.clone(),
            footprint: p.footprint.clone(),
            x: p.x,
            y: p.y,
            rotation: p.rotation,
            description: p.description.clone(),
        })
        .collect();
    let twice = filter_records(&again_records, &Vec::new());
    assert_eq!(once.len(), twice.len());
    for (a, b) in once.iter().zip(twice.iter()) {
        assert_eq!(a.designator, b.designator);
        assert_eq!(a.x, b.x);
        assert_eq!(a.y, b.y);
    }
}

#[test]
fn override_matching_two_substrings_duplicates_the_record() {
    let records = vec![record("CONN4", "Top", 11, 22)];
    let overrides = vec![b"CO".to_vec(), b"NN".to_vec()];
    let out = filter_records(&records, &overrides);
    assert_eq!(out.len(), 2);
    assert_eq!(out[0].designator, b"CONN4".to_vec());
    assert_eq!(out[1].designator, b"CONN4".to_vec());
    assert_eq!((out[0].x, out[0].y), (11, 22));
    assert_eq!((out[1].x, out[1].y), (11, 22));
}

#[test]
fn override_does_not_reinclude_qualifying_record() {
    let records = vec![record("TP1", "Bottom", 0, 0)];
    let overrides = vec![b"TP".to_vec(), b"P1".to_vec()];
    let out = filter_records(&records, &overrides);
    assert_eq!(out.len(), 1);
}

#[test]
fn scale_divides_coordinates_by_thousand() {
    let pts = vec![point("TP1", 100_000_000, -2_000_000_000)];
    let out = scale_points(&pts);
    assert_eq!(out[0].x, 100_000);
    assert_eq!(out[0].y, -2_000_000);
}

#[test]
fn offset_recenters_midpoint_on_anchor() {
    let pts = vec![
        point("TP1", 0, 0),
        point("TP2", 100_000, 0),
        point("TP3", 5_000_000, 5_000_000),
    ];
    let out = offset_points(&pts);
    let (mx, my) = mid_point(&out);
    assert_eq!(mx, 3_500_000);
    assert_eq!(my, 3_000_000);
    assert_eq!(out[0].x, 1_800_000);
    assert_eq!(out[0].y, 1_333_334);
    assert_eq!(out[1].x, 1_900_000);
    assert_eq!(out[2].x, 6_800_000);
}

#[test]
fn rotate_180_twice_is_identity() {
    let pts = vec![point("TP1", 123_456, -654_321), point("J1", -1, 2)];
    let once = rotate_points(&pts, Rotation::R180);
    assert_eq!((once[0].x, once[0].y), (-123_456, 654_321));
    let twice = rotate_points(&once, Rotation::R180);
    for (a, b) in pts.iter().zip(twice.iter()) {
        assert_eq!((a.x, a.y), (b.x, b.y));
    }
}

#[test]
fn rotate_270_is_a_vertical_flip_not_a_rotation() {
    let pts = vec![point("TP1", 1_000_000, 2_000_000)];
    let flipped = rotate_points(&pts, Rotation::R270);
    assert_eq!((flipped[0].x, flipped[0].y), (1_000_000, -2_000_000));
    // A true 270-degree rotation is three 90-degree rotations, which gives
    // a different point: keep this divergence as a regression check.
    let r1 = rotate_points(&pts, Rotation::R90);
    let r2 = rotate_points(&r1, Rotation::R90);
    let r3 = rotate_points(&r2, Rotation::R90);
    assert_eq!((r3[0].x, r3[0].y), (-2_000_000, 1_000_000));
    assert_ne!((r3[0].x, r3[0].y), (flipped[0].x, flipped[0].y));
    // And the flip is its own inverse, which a true 270 rotation is not.
    let back = rotate_points(&flipped, Rotation::R270);
    assert_eq!((back[0].x, back[0].y), (1_000_000, 2_000_000));
}

#[test]
fn rotate_90_mapping() {
    let pts = vec![point("TP1", 3, 4)];
    let out = rotate_points(&pts, Rotation::R90);
    assert_eq!((out[0].x, out[0].y), (4, -3));
}

#[test]
fn sizer_points_at_tenth_inch_are_standard() {
    let pts = vec![point("TP1", 0, 0), point("TP2", 100_000, 0)];
    let (sized, warnings) = size_holes(&pts);
    assert_eq!(sized[0].class, ProbeClass::Standard);
    assert_eq!(sized[1].class, ProbeClass::Standard);
    assert!(warnings.is_empty());
}

#[test]
fn sizer_points_at_eight_hundredths_are_close_pitch_without_warning() {
    let pts = vec![point("TP1", 0, 0), point("TP2", 80_000, 0)];
    let (sized, warnings) = size_holes(&pts);
    assert_eq!(sized[0].class, ProbeClass::ClosePitch);
    assert_eq!(sized[1].class, ProbeClass::ClosePitch);
    assert!(warnings.is_empty());
}

#[test]
fn sizer_points_at_five_hundredths_are_close_pitch_with_warning() {
    let pts = vec![point("TP1", 0, 0), point("TP2", 0, 50_000)];
    let (sized, warnings) = size_holes(&pts);
    assert_eq!(sized[0].class, ProbeClass::ClosePitch);
    assert_eq!(sized[1].class, ProbeClass::ClosePitch);
    assert_eq!(warnings.len(), 2);
    assert_eq!(warnings[0].first, 0);
    assert_eq!(warnings[0].second, 1);
    assert_eq!(warnings[0].first_designator, b"TP1".to_vec());
    assert_eq!(warnings[0].second_designator, b"TP2".to_vec());
    assert_eq!(warnings[0].dist_sq, 2_500_000_000);
    assert_eq!(warnings[1].first, 1);
    assert_eq!(warnings[1].second, 0);
}

#[test]
fn sizer_skips_identical_positions_entirely() {
    let pts = vec![point("TP1", 5, 5), point("TP2", 5, 5)];
    let (sized, warnings) = size_holes(&pts);
    assert_eq!(sized[0].class, ProbeClass::Standard);
    assert_eq!(sized[1].class, ProbeClass::Standard);
    assert!(warnings.is_empty());
}

#[test]
fn sizer_uses_nearest_neighbour() {
    let pts = vec![
        point("TP1", 0, 0),
        point("TP2", 60_000, 0),
        point("TP3", 1_000_000, 0),
    ];
    let (sized, warnings) = size_holes(&pts);
    assert_eq!(sized[0].class, ProbeClass::ClosePitch);
    assert_eq!(sized[1].class, ProbeClass::ClosePitch);
    assert_eq!(sized[2].class, ProbeClass::Standard);
    assert_eq!(warnings.len(), 2);
    assert_eq!(warnings[0].dist_sq, 3_600_000_000);
}

#[test]
fn format_has_exactly_four_fraction_digits() {
    assert_eq!(fmt_coord(0), b"0.0000".to_vec());
    assert_eq!(fmt_coord(1_800_000), b"1.8000".to_vec());
    assert_eq!(fmt_coord(1_333_334), b"1.3333".to_vec());
    assert_eq!(fmt_coord(1_234_567), b"1.2346".to_vec());
    assert_eq!(fmt_coord(-1_333_350), b"-1.3333".to_vec());
    assert_eq!(fmt_coord(-50), b"0.0000".to_vec());
    assert_eq!(fmt_coord(12_345_678), b"12.3457".to_vec());
    assert_eq!(fmt_coord(250_000), b"0.2500".to_vec());
}
