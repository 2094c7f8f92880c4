use delta_telemetry::analysis::corners::corner_metrics;
use delta_telemetry::analysis::curvature::{curvature_at, PEAK_THRESHOLD, PEAK_WINDOW};
use delta_telemetry::analysis::delta::{delta_at_distance, DeltaRow};
use delta_telemetry::analysis::nearest::nearest_index;
use delta_telemetry::analysis::overlay::{max_length, LapSpeed};
use delta_telemetry::analysis::{
    auto_sectors, bbox_of, build_track_map, curvature_series, lap_summary,
    overlay_speed_vs_distance, peak_indices, per_corner_metrics, rolling_delta_vs_reference,
    sample_speed_at_distance, stddev, thirds, time_at_distance,
};
use delta_telemetry::model::{BBox, Lap, LapMeta, Point2, Sector, TelemetryPoint};
use uuid::Uuid;

/// A number in thousandths.
fn milli(x: f64) -> i32 {
    (x * 1000.0).round() as i32
}

fn point(
    t_ms: f64,
    dist: f64,
    x: f64,
    y: f64,
    speed: f64,
    throttle: f64,
    brake: f64,
    gear: i8,
    rpm: f64,
) -> TelemetryPoint {
    TelemetryPoint {
        t_ms: (t_ms * 1000.0).round() as i64,
        lap_distance_m: milli(dist),
        x: milli(x),
        y: milli(y),
        speed_kph: milli(speed),
        throttle: milli(throttle),
        brake: milli(brake),
        gear,
        rpm: milli(rpm),
    }
}

fn lap_of(id: u128, total_time_ms: u64, points: Vec<TelemetryPoint>) -> Lap {
    Lap {
        id,
        meta: LapMeta {
            id: Uuid::new_v4().as_u128(),
            game: "test".to_string(),
            car: "test_car".to_string(),
            track: "test_track".to_string(),
            lap_number: 1,
        },
        total_time_ms,
        points,
    }
}

fn create_test_lap() -> Lap {
    lap_of(
        Uuid::new_v4().as_u128(),
        60000,
        vec![
            point(0.0, 0.0, 0.0, 0.0, 100.0, 1.0, 0.0, 3, 5000.0),
            point(1000.0, 50.0, 10.0, 5.0, 120.0, 0.8, 0.0, 4, 5500.0),
        ],
    )
}

/// A lap of points on the x axis, one every metre and every 100 ms.
fn straight_lap(id: u128, n: usize) -> Lap {
    let mut points = Vec::new();
    for i in 0..n {
        points.push(point(i as f64 * 100.0, i as f64, i as f64, 0.0, 100.0, 1.0, 0.0, 3, 5000.0));
    }
    lap_of(id, 0, points)
}

/// A lap that runs 30 m east, turns left through a right angle and runs 30 m
/// north, one point every metre.
fn cornered_lap() -> Lap {
    let mut points = Vec::new();
    for i in 0..61 {
        let (x, y) = if i <= 30 { (i as f64, 0.0) } else { (30.0, (i - 30) as f64) };
        let speed = 200.0 - 5.0 * (30 - (i as i32 - 30).abs()) as f64;
        let brake = if (22..30).contains(&i) { 0.5 } else { 0.0 };
        let throttle = if i >= 33 { 1.0 } else { 0.3 };
        points.push(point(i as f64 * 100.0, i as f64, x, y, speed, throttle, brake, 3, 5000.0));
    }
    lap_of(7, 6000, points)
}

#[test]
fn test_lap_summary_with_references() {
    let lap1 = create_test_lap();
    let lap2 = create_test_lap();
    let laps = vec![lap1, lap2];

    let summary = lap_summary(&laps);
    assert!(serde_json::Value::from(summary.best_ms).is_number());
    assert!(serde_json::Value::from(summary.worst_ms).is_number());
    assert!(serde_json::Value::from(summary.avg_ms as f64 / 1000.0).is_number());
    assert!(serde_json::Value::from(summary.consistency as f64 / 1000.0).is_number());
}

#[test]
fn test_overlay_speed_vs_distance() {
    let lap = create_test_lap();
    let laps = vec![lap];

    let overlay = overlay_speed_vs_distance(&laps);
    assert!(!overlay.is_empty());
}

#[test]
fn test_build_track_map() {
    let lap = create_test_lap();
    let track_map = build_track_map(&lap);

    assert_eq!(track_map.polyline.len(), lap.points.len());
    assert!(!track_map.sectors.is_empty());
}

#[test]
fn lap_summary_exact_values() {
    let laps = vec![create_test_lap(), create_test_lap()];
    let summary = lap_summary(&laps);
    assert_eq!(summary.best_ms, 60000);
    assert_eq!(summary.worst_ms, 60000);
    assert_eq!(summary.avg_ms, 60_000_000);
    // The thirds of each lap take 0, 0 and 1000 ms: mean 333, mean square
    // distance (4 * 333^2 + 2 * 667^2) / 6 = 222222, root 471.
    assert_eq!(summary.consistency, 471);
}

#[test]
fn lap_summary_mean_keeps_thousandths() {
    let mut a = create_test_lap();
    let mut b = create_test_lap();
    let mut c = create_test_lap();
    a.total_time_ms = 60000;
    b.total_time_ms = 60001;
    c.total_time_ms = 60001;
    let summary = lap_summary(&[a, b, c]);
    assert_eq!(summary.best_ms, 60000);
    assert_eq!(summary.worst_ms, 60001);
    assert_eq!(summary.avg_ms, 60_000_666);
}

#[test]
fn lap_summary_of_no_laps_is_zero() {
    let summary = lap_summary(&[]);
    assert_eq!(summary.best_ms, 0);
    assert_eq!(summary.worst_ms, 0);
    assert_eq!(summary.avg_ms, 0);
    assert_eq!(summary.consistency, 0);
}

#[test]
fn lap_summary_survives_extreme_times() {
    let mut a = create_test_lap();
    let mut b = create_test_lap();
    a.total_time_ms = u64::MAX;
    b.total_time_ms = u64::MAX;
    a.points[0].t_ms = i64::MIN;
    a.points[1].t_ms = i64::MAX;
    let summary = lap_summary(&[a, b]);
    assert_eq!(summary.best_ms, u64::MAX);
    assert_eq!(summary.avg_ms, u64::MAX as u128 * 1000);
}

#[test]
fn stddev_exact_values() {
    assert_eq!(stddev(&[]), 0);
    assert_eq!(stddev(&[5]), 0);
    assert_eq!(stddev(&[2, 4, 4, 4, 5, 5, 7, 9]), 2);
    assert_eq!(stddev(&[0, 1000]), 500);
    assert_eq!(stddev(&[0, 0, u64::MAX]), 8695878550221854807);
}

#[test]
fn overlay_trivial() {
    let points = |second: f64| {
        vec![
            point(0.0, 0.0, 0.0, 0.0, 100.0, 1.0, 0.0, 3, 5000.0),
            point(second, 50.0, 10.0, 5.0, 120.0, 0.8, 0.0, 4, 5500.0),
        ]
    };
    let l1 = lap_of(1, 1000, points(1000.0));
    let l2 = lap_of(2, 1100, points(1100.0));
    let laps = vec![l1, l2];
    assert_eq!(max_length(&laps), 50_000);
    let rows = overlay_speed_vs_distance(&laps);
    assert_eq!(rows.len(), 51);
    assert_eq!(rows[0].distance, 0);
    assert_eq!(
        rows[0].speeds,
        vec![LapSpeed { id: 1, speed_kph: 100_000 }, LapSpeed { id: 2, speed_kph: 100_000 }]
    );
    assert_eq!(rows[50].distance, 50_000);
    assert_eq!(
        rows[50].speeds,
        vec![LapSpeed { id: 1, speed_kph: 120_000 }, LapSpeed { id: 2, speed_kph: 120_000 }]
    );
    // 25 m is as far from the first point as from the second: the first counts.
    assert_eq!(rows[25].distance, 25_000);
    assert_eq!(rows[25].speeds[0], LapSpeed { id: 1, speed_kph: 100_000 });
    assert_eq!(rows[26].speeds[0], LapSpeed { id: 1, speed_kph: 120_000 });
}

#[test]
fn overlay_rows_have_no_gaps() {
    let mut long = straight_lap(1, 8);
    long.points[7].lap_distance_m = 7_999;
    let laps = vec![long, straight_lap(2, 3), lap_of(3, 0, vec![])];
    let rows = overlay_speed_vs_distance(&laps);
    assert_eq!(rows.len(), 8);
    for (k, row) in rows.iter().enumerate() {
        assert_eq!(row.distance, k as i64 * 1000);
        assert_eq!(row.speeds.len(), 3);
        assert_eq!(row.speeds[0].id, 1);
        assert_eq!(row.speeds[1].id, 2);
        assert_eq!(row.speeds[2], LapSpeed { id: 3, speed_kph: 0 });
    }
}

#[test]
fn overlay_of_no_laps_has_the_row_at_zero() {
    let rows = overlay_speed_vs_distance(&[]);
    assert_eq!(rows.len(), 1);
    assert_eq!(rows[0].distance, 0);
    assert!(rows[0].speeds.is_empty());
}

#[test]
fn overlay_ignores_negative_lengths() {
    let mut lap = straight_lap(1, 2);
    lap.points[1].lap_distance_m = -5_000;
    assert_eq!(max_length(&[lap.clone()]), 0);
    assert_eq!(overlay_speed_vs_distance(&[lap]).len(), 1);
}

#[test]
fn nearest_point_first_of_equals() {
    let lap = straight_lap(1, 5);
    assert_eq!(nearest_index(&lap.points, 0), 0);
    assert_eq!(nearest_index(&lap.points, 1_499), 1);
    assert_eq!(nearest_index(&lap.points, 1_500), 1);
    assert_eq!(nearest_index(&lap.points, 1_501), 2);
    assert_eq!(nearest_index(&lap.points, i64::MAX), 4);
    assert_eq!(nearest_index(&lap.points, i64::MIN), 0);
}

#[test]
fn speed_and_time_at_distance() {
    let lap = create_test_lap();
    assert_eq!(sample_speed_at_distance(&lap, 10_000), 100_000);
    assert_eq!(sample_speed_at_distance(&lap, 40_000), 120_000);
    assert_eq!(time_at_distance(&lap, 10_000), 0);
    assert_eq!(time_at_distance(&lap, 40_000), 1_000_000);
    let empty = lap_of(9, 0, vec![]);
    assert_eq!(sample_speed_at_distance(&empty, 10_000), 0);
    assert_eq!(time_at_distance(&empty, 10_000), 0);
}

#[test]
fn delta_zero() {
    let reference = lap_of(
        1,
        2000,
        vec![
            point(0.0, 0.0, 0.0, 0.0, 100.0, 1.0, 0.0, 3, 5000.0),
            point(1000.0, 2.0, 2.0, 0.0, 110.0, 1.0, 0.0, 3, 5000.0),
            point(2000.0, 4.5, 4.5, 0.0, 120.0, 1.0, 0.0, 3, 5000.0),
        ],
    );
    let laps = vec![reference.clone()];
    let rows = rolling_delta_vs_reference(&reference, &laps);
    assert_eq!(rows.len(), 5);
    for (k, row) in rows.iter().enumerate() {
        assert_eq!(*row, DeltaRow { distance: k as i64 * 1000, delta_ms: 0 });
    }
}

#[test]
fn delta_is_the_mean_over_the_other_laps() {
    let reference = straight_lap(1, 4);
    let mut slower = straight_lap(2, 4);
    let mut faster = straight_lap(3, 4);
    for (i, p) in slower.points.iter_mut().enumerate() {
        p.t_ms = i as i64 * 130_000;
    }
    for (i, p) in faster.points.iter_mut().enumerate() {
        p.t_ms = 5 + i as i64 * 95_000;
    }
    let laps = vec![slower, reference.clone(), faster];
    let rows = rolling_delta_vs_reference(&reference, &laps);
    assert_eq!(rows.len(), 4);
    assert_eq!(rows[0], DeltaRow { distance: 0, delta_ms: 0 });
    // (30000 - 5000) / 2
    assert_eq!(rows[1], DeltaRow { distance: 1000, delta_ms: 12_500 });
    assert_eq!(rows[3], DeltaRow { distance: 3000, delta_ms: 37_500 });
    assert_eq!(delta_at_distance(&reference, &laps, 2000), 25_000);
}

#[test]
fn delta_rounds_down() {
    let reference = straight_lap(1, 2);
    let mut a = straight_lap(2, 2);
    let mut b = straight_lap(3, 2);
    a.points[1].t_ms = 100_000 - 1;
    b.points[1].t_ms = 100_000 - 2;
    // The others are 1 and 2 units ahead: the mean -1.5 becomes -2.
    assert_eq!(delta_at_distance(&reference, &[a.clone(), b.clone()], 1000), -2);
    a.points[1].t_ms = 100_000 + 1;
    b.points[1].t_ms = 100_000 + 2;
    assert_eq!(delta_at_distance(&reference, &[a, b], 1000), 1);
}

#[test]
fn delta_survives_extreme_times() {
    let reference = lap_of(
        1,
        0,
        vec![
            point(0.0, 0.0, 0.0, 0.0, 0.0, 0.0, 0.0, 0, 0.0),
            point(0.0, 1.0, 0.0, 0.0, 0.0, 0.0, 0.0, 0, 0.0),
        ],
    );
    let mut early = reference.clone();
    early.id = 2;
    early.points[0].t_ms = i64::MAX;
    early.points[1].t_ms = i64::MIN;
    let mut late = reference.clone();
    late.id = 3;
    late.points[0].t_ms = i64::MAX;
    late.points[1].t_ms = i64::MIN;
    let span = i64::MIN as i128 - i64::MAX as i128;
    assert_eq!(delta_at_distance(&reference, &[early, late], 1000), span);
}

#[test]
fn delta_of_a_reference_that_ends_below_zero_has_no_rows() {
    let mut reference = straight_lap(1, 2);
    reference.points[1].lap_distance_m = -1;
    assert!(rolling_delta_vs_reference(&reference, &[straight_lap(2, 2)]).is_empty());
    assert_eq!(rolling_delta_vs_reference(&lap_of(4, 0, vec![]), &[]).len(), 1);
}

#[test]
fn peak_detection() {
    let mut curv: Vec<u64> = (0..40).map(|i| (i * 7919 % 20_001) as u64).collect();
    curv[20] = 100_000;
    assert_eq!(peak_indices(&curv, 12, 30_000), vec![20]);

    let flat = vec![0u64; 40];
    assert_eq!(peak_indices(&flat, 12, 30_000), Vec::<usize>::new());

    let mut early: Vec<u64> = (0..40).map(|i| (i * 7919 % 20_001) as u64).collect();
    early[5] = 100_000;
    assert_eq!(peak_indices(&early, 12, 30_000), Vec::<usize>::new());
}

#[test]
fn peak_detection_edges() {
    assert_eq!(PEAK_WINDOW, 12);
    assert_eq!(PEAK_THRESHOLD, 30_000);
    assert!(peak_indices(&[], 12, 30_000).is_empty());
    let mut curv = vec![0u64; 24];
    curv[12] = 50_000;
    // 24 values are not more than twice the window.
    assert!(peak_indices(&curv, 12, 30_000).is_empty());
    curv.push(0);
    assert_eq!(peak_indices(&curv, 12, 30_000), vec![12]);
    assert!(peak_indices(&curv, 0, 30_000).is_empty());
    assert!(peak_indices(&curv, usize::MAX, 30_000).is_empty());
    assert!(peak_indices(&curv, 12, 50_001).is_empty());
    assert_eq!(peak_indices(&curv, 12, 50_000), vec![12]);
    // A greater value at the far end of the window does not count against the
    // peak, one just inside it does.
    let mut wide = vec![0u64; 40];
    wide[13] = 50_000;
    wide[25] = 60_000;
    assert_eq!(peak_indices(&wide, 12, 30_000), vec![13, 25]);
    wide[24] = 60_000;
    assert_eq!(peak_indices(&wide, 12, 30_000), vec![24, 25]);
    // Equal values side by side are peaks each.
    let mut plateau = vec![0u64; 40];
    plateau[19] = 40_000;
    plateau[20] = 40_000;
    assert_eq!(peak_indices(&plateau, 12, 30_000), vec![19, 20]);
}

#[test]
fn thirds_timing() {
    let mut lap = straight_lap(1, 9);
    for (i, p) in lap.points.iter_mut().enumerate() {
        p.t_ms = i as i64 * 100_000;
    }
    // Nine points: the thirds run from point 0 to 3, from 3 to 6 and from 6
    // to 8.
    assert_eq!(thirds(&lap), vec![300, 300, 200]);
    // Eight points: from point 0 to 2, from 2 to 4 and from 4 to 7, so that
    // the last third takes up what the division left over.
    lap.points.pop();
    assert_eq!(thirds(&lap), vec![200, 200, 300]);
}

#[test]
fn thirds_of_short_laps() {
    assert_eq!(thirds(&lap_of(1, 0, vec![])), vec![0, 0, 0]);
    assert_eq!(thirds(&straight_lap(1, 1)), vec![0, 0, 0]);
    assert_eq!(thirds(&straight_lap(1, 2)), vec![0, 0, 100]);
    assert_eq!(thirds(&straight_lap(1, 3)), vec![100, 100, 0]);
    let mut backwards = straight_lap(1, 3);
    backwards.points[1].t_ms = -1_000;
    backwards.points[2].t_ms = 999;
    assert_eq!(thirds(&backwards), vec![0, 1, 0]);
}

#[test]
fn curvature_of_a_right_angle() {
    let first = point(0.0, 0.0, 0.0, 0.0, 0.0, 0.0, 0.0, 0, 0.0);
    let second = point(0.0, 0.0, 1.0, 0.0, 0.0, 0.0, 0.0, 0, 0.0);
    let third = point(0.0, 0.0, 1.0, 1.0, 0.0, 0.0, 0.0, 0, 0.0);
    // 1 / (1 * 1 * 1.414) per metre, with the diagonal rounded down to 1414 mm.
    assert_eq!(curvature_at(&first, &second, &third), 707_213);
    assert_eq!(curvature_at(&third, &second, &first), 707_213);
    assert_eq!(curvature_at(&first, &second, &second), 0);
    assert_eq!(curvature_at(&first, &first, &first), 0);
    // Straight on.
    let fourth = point(0.0, 0.0, 2.0, 0.0, 0.0, 0.0, 0.0, 0, 0.0);
    assert_eq!(curvature_at(&first, &second, &fourth), 0);
}

#[test]
fn curvature_floor_of_the_denominator() {
    // Steps of 3 mm and 4 mm at a right angle: cross 12 mm^2, sides 3 * 4 * 5
    // below the floor of 1000 mm^3.
    let mut first = point(0.0, 0.0, 0.0, 0.0, 0.0, 0.0, 0.0, 0, 0.0);
    let mut second = first;
    let mut third = first;
    second.x = 3;
    third.x = 3;
    third.y = 4;
    assert_eq!(curvature_at(&first, &second, &third), 12_000_000);
    first.x = i32::MIN;
    first.y = i32::MIN;
    second.x = i32::MAX;
    second.y = i32::MIN;
    third.x = i32::MAX;
    third.y = i32::MAX;
    assert_eq!(curvature_at(&first, &second, &third), 0);
}

#[test]
fn curvature_series_is_smoothed() {
    let lap = lap_of(
        1,
        0,
        vec![
            point(0.0, 0.0, 0.0, 0.0, 0.0, 0.0, 0.0, 0, 0.0),
            point(0.0, 0.0, 1.0, 0.0, 0.0, 0.0, 0.0, 0, 0.0),
            point(0.0, 0.0, 1.0, 1.0, 0.0, 0.0, 0.0, 0, 0.0),
        ],
    );
    assert_eq!(curvature_series(&lap.points), vec![235_737, 235_737, 235_737]);
    assert!(curvature_series(&[]).is_empty());
    assert_eq!(curvature_series(&lap.points[..1]), vec![0]);
    assert_eq!(curvature_series(&lap.points[..2]), vec![0, 0]);

    let corner = cornered_lap();
    let curv = curvature_series(&corner.points);
    assert_eq!(curv.len(), 61);
    // Only at point 30 does the lap turn; five points share its curvature.
    for (i, c) in curv.iter().enumerate() {
        if (28..=32).contains(&i) {
            assert_eq!(*c, 707_213 / 5);
        } else {
            assert_eq!(*c, 0);
        }
    }
}

#[test]
fn bbox_covers_the_polyline() {
    let pl = vec![Point2 { x: 5, y: -7 }, Point2 { x: -3, y: 2 }, Point2 { x: 4, y: 9 }];
    let b = bbox_of(&pl);
    assert_eq!(b, BBox { minx: -3, maxx: 5, miny: -7, maxy: 9 });
    for p in &pl {
        assert!(b.minx <= p.x && p.x <= b.maxx && b.miny <= p.y && p.y <= b.maxy);
    }
    assert_eq!(
        bbox_of(&[]),
        BBox { minx: i32::MAX, maxx: i32::MIN, miny: i32::MAX, maxy: i32::MIN }
    );
}

#[test]
fn track_map_of_the_test_lap() {
    let lap = create_test_lap();
    let map = build_track_map(&lap);
    assert_eq!(map.polyline, vec![Point2 { x: 0, y: 0 }, Point2 { x: 10_000, y: 5_000 }]);
    assert_eq!(map.bbox, BBox { minx: 0, maxx: 10_000, miny: 0, maxy: 5_000 });
    assert!(map.corners.is_empty());
    // Without any curvature the two first points are the cuts.
    assert_eq!(
        map.sectors,
        vec![
            Sector { start_m: 0, end_m: 0 },
            Sector { start_m: 0, end_m: 50_000 },
            Sector { start_m: 50_000, end_m: 50_000 },
        ]
    );
}

#[test]
fn track_map_laws_on_a_lap_with_a_corner() {
    let lap = cornered_lap();
    let map = build_track_map(&lap);
    assert_eq!(map.polyline.len(), lap.points.len());
    for p in &map.polyline {
        assert!(map.bbox.minx <= p.x && p.x <= map.bbox.maxx);
        assert!(map.bbox.miny <= p.y && p.y <= map.bbox.maxy);
    }
    assert_eq!(map.bbox, BBox { minx: 0, maxx: 30_000, miny: 0, maxy: 30_000 });
    // The plateau of five equal curvatures gives five peaks.
    assert_eq!(map.corners.len(), 5);
    for (i, c) in map.corners.iter().enumerate() {
        assert_eq!(c.index as usize, i + 1);
        assert_eq!((c.x, c.y), (lap.points[28 + i].x, lap.points[28 + i].y));
    }
    // The cuts are the two first points of the plateau.
    assert_eq!(
        map.sectors,
        vec![
            Sector { start_m: 0, end_m: 28_000 },
            Sector { start_m: 28_000, end_m: 29_000 },
            Sector { start_m: 29_000, end_m: 60_000 },
        ]
    );
    for w in map.sectors.windows(2) {
        assert_eq!(w[0].end_m, w[1].start_m);
    }
    assert_eq!(map.sectors[0].start_m, lap.points[0].lap_distance_m);
    assert_eq!(map.sectors.last().unwrap().end_m, lap.points.last().unwrap().lap_distance_m);
}

#[test]
fn track_map_of_a_lap_without_points() {
    let map = build_track_map(&lap_of(1, 0, vec![]));
    assert!(map.polyline.is_empty());
    assert!(map.corners.is_empty());
    assert!(map.sectors.is_empty());
    assert_eq!(map.bbox, BBox { minx: i32::MAX, maxx: i32::MIN, miny: i32::MAX, maxy: i32::MIN });
}

#[test]
fn auto_sectors_cut_at_the_highest_curvature() {
    let lap = straight_lap(1, 6);
    let curv = vec![10, 50, 20, 50, 40, 0];
    assert_eq!(
        auto_sectors(&lap, &curv, 3),
        vec![
            Sector { start_m: 0, end_m: 1_000 },
            Sector { start_m: 1_000, end_m: 3_000 },
            Sector { start_m: 3_000, end_m: 5_000 },
        ]
    );
    assert_eq!(auto_sectors(&lap, &curv, 1), vec![Sector { start_m: 0, end_m: 5_000 }]);
    assert_eq!(
        auto_sectors(&lap, &curv, 2),
        vec![Sector { start_m: 0, end_m: 1_000 }, Sector { start_m: 1_000, end_m: 5_000 }]
    );
    assert!(auto_sectors(&lap, &curv, 0).is_empty());
    assert!(auto_sectors(&lap_of(1, 0, vec![]), &curv, 3).is_empty());
    // More sectors than values: every point is a cut.
    assert_eq!(auto_sectors(&lap, &curv, 100).len(), 7);
    // A cut beyond the lap's points is passed over.
    let long = vec![0, 0, 0, 0, 0, 0, 90, 80];
    assert_eq!(auto_sectors(&lap, &long, 3), vec![Sector { start_m: 0, end_m: 5_000 }]);
    assert_eq!(auto_sectors(&lap, &[], 3), vec![Sector { start_m: 0, end_m: 5_000 }]);
}

#[test]
fn corner_metrics_of_a_corner() {
    let lap = cornered_lap();
    let c = corner_metrics(&lap.points, 30, 0);
    assert_eq!(c.index, 1);
    assert_eq!(c.start_m, 10_000);
    assert_eq!(c.apex_m, 30_000);
    assert_eq!(c.end_m, 50_000);
    assert_eq!((c.x, c.y), (30_000, 0));
    assert_eq!(c.entry_speed, 150_000);
    assert_eq!(c.exit_speed, 150_000);
    assert_eq!(c.min_speed, 50_000);
    assert_eq!(c.brake_point_m, 22_000);
    assert_eq!(c.throttle_on_m, 33_000);
}

#[test]
fn corner_metrics_at_the_ends_of_a_lap() {
    let lap = straight_lap(1, 5);
    // No braking and full throttle all along; the corner is cut off by the
    // ends of the lap.
    let c = corner_metrics(&lap.points, 2, 4);
    assert_eq!(c.index, 5);
    assert_eq!(c.start_m, 0);
    assert_eq!(c.end_m, 4_000);
    assert_eq!(c.brake_point_m, 2_000);
    assert_eq!(c.throttle_on_m, 2_000);
    let mut coasting = straight_lap(1, 5);
    for p in coasting.points.iter_mut() {
        p.throttle = 600;
        p.brake = 200;
    }
    let c = corner_metrics(&coasting.points, 4, usize::MAX);
    assert_eq!(c.index, u32::MAX);
    assert_eq!(c.brake_point_m, 4_000);
    assert_eq!(c.throttle_on_m, 4_000);
    coasting.points[0].brake = 201;
    coasting.points[3].brake = 900;
    coasting.points[4].throttle = 601;
    let c = corner_metrics(&coasting.points, 4, 0);
    assert_eq!(c.brake_point_m, 0);
    assert_eq!(c.throttle_on_m, 4_000);
}

#[test]
fn per_corner_metrics_follow_the_peaks() {
    let lap = cornered_lap();
    let corners = per_corner_metrics(&lap);
    assert_eq!(corners.len(), 5);
    for (i, c) in corners.iter().enumerate() {
        assert_eq!(*c, corner_metrics(&lap.points, 28 + i, i));
    }
    assert_eq!(corners[2].apex_m, 30_000);
    assert!(per_corner_metrics(&straight_lap(1, 50)).is_empty());
    assert!(per_corner_metrics(&lap_of(1, 0, vec![])).is_empty());
}
