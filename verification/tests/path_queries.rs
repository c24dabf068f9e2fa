//! The arc-length path structure: construction, search, extraction.

use visible_raytrace::math::Vec3;
use visible_raytrace::path::Path;

const FS: i64 = 65536;

fn v(x: i64, y: i64, z: i64) -> Vec3 {
    Vec3 { x, y, z }
}

/// Points at z = 0, 2, 5, 9: segment lengths 2, 3, 4, total 9.
fn staircase() -> Path {
    Path::new(vec![v(0, 0, 0), v(0, 0, 2 * FS), v(0, 0, 5 * FS), v(0, 0, 9 * FS)])
}

#[test]
fn construction_records_cumulative_distances() {
    let p = staircase();
    assert_eq!(p.length(), 9 * FS);
    assert_eq!(p.points().len(), 4);
}

#[test]
fn point_at_position_defined_across_whole_range() {
    // Defined at 0, at the total length, and everywhere between.
    let p = staircase();
    assert!(p.point_at_position(0).is_some());
    assert!(p.point_at_position(9 * FS).is_some());
    let mut d = 0;
    while d <= 9 * FS {
        assert!(p.point_at_position(d).is_some());
        d += 1000;
    }
}

#[test]
fn point_at_position_rejects_out_of_range() {
    let p = staircase();
    assert_eq!(p.point_at_position(-1), None);
    assert_eq!(p.point_at_position(9 * FS + 1), None);
}

#[test]
fn point_at_position_continuous_at_boundaries() {
    // Queries a step apart straddling a segment boundary move the point
    // only by a few fixed-point quanta: no jump at the seam.
    let p = staircase();
    let before = p.point_at_position(2 * FS - 1).unwrap();
    let at = p.point_at_position(2 * FS).unwrap();
    let after = p.point_at_position(2 * FS + 1).unwrap();
    assert!((at.z - before.z).abs() <= 4);
    assert!((after.z - at.z).abs() <= 4);
}

#[test]
fn round_trip_through_original_points() {
    // Querying at each point's own cumulative distance returns the point.
    let pts = vec![v(0, 0, 0), v(FS, 2 * FS, 2 * FS), v(FS, 2 * FS, 5 * FS)];
    let p = Path::new(pts.clone());
    // |(1,2,2)| = 3 exactly, so the cumulative distances are 0, 3, 6.
    assert_eq!(p.length(), 6 * FS);
    assert_eq!(p.point_at_position(0), Some(pts[0]));
    assert_eq!(p.point_at_position(3 * FS), Some(pts[1]));
    assert_eq!(p.point_at_position(6 * FS), Some(pts[2]));
}

#[test]
fn nearest_line_idx_is_monotonic() {
    let p = staircase();
    let mut last = 0;
    let mut d = 0;
    while d <= 9 * FS {
        let idx = p.nearest_line_idx(d).unwrap();
        assert!(idx >= last, "index moved backward at {d}");
        last = idx;
        d += 500;
    }
    assert_eq!(p.nearest_line_idx(0), Some(0));
    // A boundary position resolves to the earlier of the two lines.
    assert_eq!(p.nearest_line_idx(2 * FS), Some(0));
    assert_eq!(p.nearest_line_idx(2 * FS + 1), Some(1));
    assert_eq!(p.nearest_line_idx(9 * FS), Some(2));
}

#[test]
fn lines_between_reconstructs_polyline() {
    let p = staircase();
    // From 1 to 8: a partial first line, one whole middle line, and a
    // partial last line, chained end to end; their lengths sum to 8 - 1.
    let lines = p.lines_between(FS, 8 * FS).unwrap();
    assert_eq!(
        lines,
        vec![
            (v(0, 0, FS), v(0, 0, 2 * FS)),
            (v(0, 0, 2 * FS), v(0, 0, 5 * FS)),
            (v(0, 0, 5 * FS), v(0, 0, 8 * FS)),
        ]
    );
    let mut total = 0;
    for (a, b) in &lines {
        total += b.z - a.z;
    }
    assert_eq!(total, 7 * FS);
}

#[test]
fn lines_between_within_one_segment() {
    let p = staircase();
    let lines = p.lines_between(FS / 2, FS).unwrap();
    assert_eq!(lines, vec![(v(0, 0, FS / 2), v(0, 0, FS))]);
}

#[test]
fn lines_between_rejects_reversed_range() {
    let p = staircase();
    assert_eq!(p.lines_between(2 * FS, FS), None);
    assert_eq!(p.lines_between(-1, FS), None);
    assert_eq!(p.lines_between(FS, 10 * FS), None);
}

#[test]
fn degenerate_paths_fail_gracefully() {
    let empty = Path::new(vec![]);
    assert_eq!(empty.length(), 0);
    assert_eq!(empty.point_at_position(0), None);
    assert_eq!(empty.nearest_line_idx(0), None);
    assert_eq!(empty.lines_between(0, 0), None);

    let single = Path::new(vec![v(FS, FS, FS)]);
    assert_eq!(single.length(), 0);
    assert_eq!(single.point_at_position(0), None);
    assert_eq!(single.lines_between(0, 0), None);
}

#[test]
fn repeated_points_keep_queries_defined() {
    // Two equal consecutive points make a zero-length line; queries still
    // answer for every in-range distance.
    let p = Path::new(vec![v(0, 0, 0), v(0, 0, 0), v(0, 0, 2 * FS)]);
    assert_eq!(p.length(), 2 * FS);
    assert_eq!(p.point_at_position(0), Some(v(0, 0, 0)));
    assert_eq!(p.point_at_position(2 * FS), Some(v(0, 0, 2 * FS)));
}
