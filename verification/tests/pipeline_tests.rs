use testpoint_fixture::fixture::add_fixture_points;
use testpoint_fixture::pipeline::run;
use testpoint_fixture::points::{PipelineError, PlacementRecord, ProbeClass, Rotation, TestPoint};
use testpoint_fixture::project::{project_rows, OutputRow};

fn record(designator: &str, layer: &str, x_mil: i64, y_mil: i64) -> PlacementRecord {
    PlacementRecord {
        designator: designator.as_bytes().to_vec(),
        comment: b"comment".to_vec(),
        layer: layer.as_bytes().to_vec(),
        footprint: b"fp".to_vec(),
        x: x_mil * 1_000_000,
        y: y_mil * 1_000_000,
        rotation: 0,
        description: Vec::new(),
    }
}

fn text(v: &[u8]) -> String {
    String::from_utf8(v.to_vec()).unwrap()
}

fn row_text(row: &OutputRow) -> (String, String, String, Option<String>) {
    (
        text(&row.x_text),
        text(&row.y_text),
        text(&row.radius_text),
        row.designator.as_ref().map(|d| text(d)),
    )
}

#[test]
fn end_to_end_three_records_unnamed() {
    let records = vec![
        record("TP1", "Bottom", 0, 0),
        record("TP2", "Bottom", 100, 0),
        record("J1", "Top", 5000, 5000),
    ];
    let (rows, warnings) = run(&records, &Vec::new(), None, false).unwrap();
    assert!(warnings.is_empty());
    assert_eq!(rows.len(), 15);
    assert_eq!(
        row_text(&rows[0]),
        ("1.8000".to_string(), "1.3333".to_string(), "0.068".to_string(), None)
    );
    assert_eq!(
        row_text(&rows[1]),
        ("1.9000".to_string(), "1.3333".to_string(), "0.068".to_string(), None)
    );
    assert_eq!(
        row_text(&rows[2]),
        ("6.8000".to_string(), "6.3333".to_string(), "0.068".to_string(), None)
    );
    for row in &rows {
        assert!(row.designator.is_none());
    }
}

#[test]
fn end_to_end_named_mode_adds_designator_column() {
    let records = vec![
        record("TP1", "Bottom", 0, 0),
        record("TP2", "Bottom", 100, 0),
        record("J1", "Top", 5000, 5000),
    ];
    let (rows, _) = run(&records, &Vec::new(), None, true).unwrap();
    assert_eq!(rows.len(), 15);
    assert_eq!(row_text(&rows[0]).3, Some("TP1".to_string()));
    assert_eq!(row_text(&rows[1]).3, Some("TP2".to_string()));
    assert_eq!(row_text(&rows[2]).3, Some("J1".to_string()));
    assert_eq!(row_text(&rows[3]).3, Some("E1".to_string()));
    assert_eq!(row_text(&rows[14]).3, Some("SCREW4".to_string()));
}

#[test]
fn fixture_points_are_always_the_same_twelve_rows() {
    let records = vec![
        record("TP1", "Bottom", 0, 0),
        record("TP2", "Bottom", 100, 0),
        record("J1", "Top", 5000, 5000),
    ];
    let (rows, _) = run(&records, &Vec::new(), None, true).unwrap();
    let fixture: Vec<(String, String, String, Option<String>)> =
        rows[3..].iter().map(row_text).collect();
    let expected = vec![
        ("0.5000", "3.0000", "0.245", "E1"),
        ("6.5000", "3.0000", "0.245", "E2"),
        ("0.5000", "0.2500", "0.19", "D1"),
        ("0.5000", "5.7500", "0.19", "D2"),
        ("3.5000", "0.2500", "0.19", "D3"),
        ("3.5000", "5.7500", "0.19", "D4"),
        ("6.5000", "0.2500", "0.19", "D5"),
        ("6.5000", "5.7500", "0.19", "D6"),
        ("2.7700", "2.2820", "0.25", "SCREW1"),
        ("4.2300", "2.2820", "0.25", "SCREW2"),
        ("2.7700", "3.7180", "0.25", "SCREW3"),
        ("4.2300", "3.7180", "0.25", "SCREW4"),
    ];
    assert_eq!(fixture.len(), 12);
    for (got, want) in fixture.iter().zip(expected.iter()) {
        assert_eq!(got.0, want.0);
        assert_eq!(got.1, want.1);
        assert_eq!(got.2, want.2);
        assert_eq!(got.3.as_deref(), Some(want.3));
    }
}

#[test]
fn screws_fall_back_to_standard_radius_in_unnamed_mode() {
    let records = vec![
        record("TP1", "Bottom", 0, 0),
        record("TP2", "Bottom", 100, 0),
    ];
    let (rows, _) = run(&records, &Vec::new(), None, false).unwrap();
    // Rows 10..14 are the four screws; without the named-mode rule their
    // radius comes from the standard classification.
    for row in &rows[10..14] {
        assert_eq!(text(&row.radius_text), "0.068");
    }
    // Tooling holes and pins keep their prefix radii in either mode.
    assert_eq!(text(&rows[2].radius_text), "0.245");
    assert_eq!(text(&rows[4].radius_text), "0.19");
}

#[test]
fn empty_qualifying_set_is_an_error() {
    let records = vec![record("R1", "Top", 0, 0)];
    let res = run(&records, &Vec::new(), None, false);
    assert_eq!(res.err(), Some(PipelineError::EmptyInput));
}

#[test]
fn empty_designator_reaching_projection_is_an_error() {
    let records = vec![record("", "Top", 0, 0)];
    let overrides = vec![Vec::new()];
    let res = run(&records, &overrides, None, false);
    assert_eq!(res.err(), Some(PipelineError::EmptyDesignator));
}

#[test]
fn rotation_recenters_after_rotating() {
    let records = vec![
        record("TP1", "Bottom", 0, 0),
        record("TP2", "Bottom", 1000, 500),
    ];
    let (rows, _) = run(&records, &Vec::new(), Some(Rotation::R180), false).unwrap();
    // After a 180-degree rotation and recentering, the two points mirror
    // each other around the anchor (3.5, 3.0).
    assert_eq!(row_text(&rows[0]).0, "4.0000");
    assert_eq!(row_text(&rows[0]).1, "3.2500");
    assert_eq!(row_text(&rows[1]).0, "3.0000");
    assert_eq!(row_text(&rows[1]).1, "2.7500");
}

#[test]
fn rotation_90_turns_and_recenters() {
    let records = vec![
        record("TP1", "Bottom", 0, 0),
        record("TP2", "Bottom", 1000, 500),
    ];
    let (rows, _) = run(&records, &Vec::new(), Some(Rotation::R90), false).unwrap();
    assert_eq!(row_text(&rows[0]).0, "3.2500");
    assert_eq!(row_text(&rows[0]).1, "3.5000");
    assert_eq!(row_text(&rows[1]).0, "3.7500");
    assert_eq!(row_text(&rows[1]).1, "2.5000");
}

#[test]
fn rotation_270_flips_vertically_and_recenters() {
    let records = vec![
        record("TP1", "Bottom", 0, 0),
        record("TP2", "Bottom", 1000, 500),
    ];
    let (rows, _) = run(&records, &Vec::new(), Some(Rotation::R270), false).unwrap();
    // The 270-degree mapping keeps x and negates y, so after recentering
    // the x coordinates are unchanged and the y coordinates mirror.
    assert_eq!(row_text(&rows[0]).0, "3.0000");
    assert_eq!(row_text(&rows[0]).1, "3.2500");
    assert_eq!(row_text(&rows[1]).0, "4.0000");
    assert_eq!(row_text(&rows[1]).1, "2.7500");
}

#[test]
fn close_points_get_reduced_probe_radius_and_warning() {
    let records = vec![
        record("TP1", "Bottom", 0, 0),
        record("TP2", "Bottom", 50, 0),
    ];
    let (rows, warnings) = run(&records, &Vec::new(), None, false).unwrap();
    assert_eq!(text(&rows[0].radius_text), "0.05511811");
    assert_eq!(text(&rows[1].radius_text), "0.05511811");
    assert_eq!(warnings.len(), 2);
    assert_eq!(warnings[0].first_designator, b"TP1".to_vec());
    assert_eq!(warnings[0].second_designator, b"TP2".to_vec());
    assert_eq!(warnings[0].dist_sq, 2_500_000_000);
}

#[test]
fn override_duplication_survives_the_whole_pipeline() {
    let records = vec![
        record("TP1", "Bottom", 0, 0),
        record("CONN4", "Top", 100, 100),
    ];
    let overrides = vec![b"CO".to_vec(), b"NN".to_vec()];
    let (rows, _) = run(&records, &overrides, None, true).unwrap();
    assert_eq!(rows.len(), 15);
    assert_eq!(row_text(&rows[1]).3, Some("CONN4".to_string()));
    assert_eq!(row_text(&rows[2]).3, Some("CONN4".to_string()));
    assert_eq!(row_text(&rows[1]).0, row_text(&rows[2]).0);
    assert_eq!(row_text(&rows[1]).1, row_text(&rows[2]).1);
}

#[test]
fn projection_fails_fast_on_empty_designator() {
    let mut points = vec![TestPoint {
        designator: Vec::new(),
        comment: Vec::new(),
        layer: Vec::new(),
        footprint: Vec::new(),
        x: 0,
        y: 0,
        rotation: 0,
        description: Vec::new(),
        class: ProbeClass::Standard,
    }];
    add_fixture_points(&mut points);
    let res = project_rows(&points, false);
    assert!(matches!(res, Err(PipelineError::EmptyDesignator)));
}

#[test]
fn fixture_append_adds_twelve_points_in_order() {
    let mut points: Vec<TestPoint> = Vec::new();
    add_fixture_points(&mut points);
    assert_eq!(points.len(), 12);
    let names: Vec<String> = points.iter().map(|p| text(&p.designator)).collect();
    assert_eq!(
        names,
        vec![
            "E1", "E2", "D1", "D2", "D3", "D4", "D5", "D6", "SCREW1", "SCREW2", "SCREW3",
            "SCREW4"
        ]
    );
    assert_eq!((points[0].x, points[0].y), (500_000, 3_000_000));
    assert_eq!((points[8].x, points[8].y), (2_770_000, 2_282_000));
}
