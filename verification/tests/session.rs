use delta_telemetry::ingest::{Game, TelemetrySample};
use delta_telemetry::model::{elapsed_ms, TelemetryPoint};
use delta_telemetry::session::{
    fresh_ids, new_lap, new_lap_with_ids, FreshIds, Inner, LapBuilder, MIN_LAP_TIME, MOVING_SPEED,
    ROLLING_SPEED, START_RADIUS,
};
use uuid::{Uuid, Variant};

/// A sample at `t` seconds and at (`x`, `z`) metres, driving at 50 m/s.
fn sample(t: f64, x: f64, z: f64, current_lap: u32) -> TelemetrySample {
    TelemetrySample {
        game: Game::F1_2025,
        car_id: "player:0".to_string(),
        session_uid: "1".to_string(),
        frame: 0,
        sim_time_s: (t * 1000.0).round() as i32,
        speed_mps: 50_000,
        throttle: 1000,
        brake: 0,
        gear: 5,
        engine_rpm: 9_000_000,
        world_pos_x: (x * 1000.0).round() as i32,
        world_pos_y: 0,
        world_pos_z: (z * 1000.0).round() as i32,
        yaw: 0,
        pitch: 0,
        roll: 0,
        lap_distance_m: 0,
        current_lap,
        current_lap_time_s: 0,
        last_lap_time_s: 0,
    }
}

const IDS: FreshIds = FreshIds { lap: 101, meta: 102 };
const NEXT: FreshIds = FreshIds { lap: 201, meta: 202 };

#[test]
fn heuristic_constants() {
    assert_eq!(MOVING_SPEED, 100);
    assert_eq!(START_RADIUS, 20_000);
    assert_eq!(MIN_LAP_TIME, 15_000_000);
    assert_eq!(ROLLING_SPEED, 1_000);
}

#[test]
fn random_identifiers_are_version_4_uuids() {
    let a = fresh_ids();
    let b = fresh_ids();
    for id in [a.lap, a.meta, b.lap, b.meta] {
        let uuid = Uuid::from_u128(id);
        assert_eq!(uuid.get_version_num(), 4);
        assert_eq!(uuid.get_variant(), Variant::RFC4122);
        assert_eq!(id & 0xF000_C000_0000_0000_0000, 0x4000_8000_0000_0000_0000);
    }
    assert_ne!(a.lap, a.meta);
    assert_ne!(a.lap, b.lap);
}

#[test]
fn new_laps_are_empty() {
    let lap = new_lap_with_ids("gt7", "Unknown", "Unknown", 3, IDS);
    assert_eq!(lap.id, 101);
    assert_eq!(lap.meta.id, 102);
    assert_eq!(lap.meta.game, "gt7");
    assert_eq!(lap.meta.car, "Unknown");
    assert_eq!(lap.meta.track, "Unknown");
    assert_eq!(lap.meta.lap_number, 3);
    assert_eq!(lap.total_time_ms, 0);
    assert!(lap.points.is_empty());
    let random = new_lap("lmu", "car", "track", 1);
    assert_eq!(Uuid::from_u128(random.id).get_version_num(), 4);
    assert_eq!(Uuid::from_u128(random.meta.id).get_version_num(), 4);
    assert_eq!((random.meta.car.as_str(), random.meta.track.as_str()), ("car", "track"));
    let builder = LapBuilder::new("lmu", "car", "track");
    let current = builder.current.unwrap();
    assert_eq!(current.meta.lap_number, 1);
    assert_eq!(Uuid::from_u128(current.id).get_version_num(), 4);
    assert!(builder.last.is_none() && builder.start_pos.is_none());
}

#[test]
fn game_names() {
    assert_eq!(Game::F1_2024.key(), "f1_2024");
    assert_eq!(Game::F1_2025.key(), "f1_2025");
    assert_eq!(Game::GT7.key(), "gt7");
    assert_eq!(Game::LMU.key(), "lmu");
}

#[test]
fn elapsed_whole_milliseconds() {
    assert_eq!(elapsed_ms(0, 999), 0);
    assert_eq!(elapsed_ms(0, 1000), 1);
    assert_eq!(elapsed_ms(5, 4), 0);
    assert_eq!(elapsed_ms(-1_500, 1_499), 2);
    assert_eq!(elapsed_ms(i64::MIN, i64::MAX), u64::MAX / 1000);
    assert_eq!(elapsed_ms(i64::MAX, i64::MIN), 0);
}

#[test]
fn a_sample_becomes_a_point() {
    let mut b = LapBuilder::with_ids("f1_2025", "Unknown", "Unknown", IDS);
    let mut s = sample(12.5, 3.0, 4.0, 1);
    s.speed_mps = 27_778;
    s.lap_distance_m = 250_000;
    assert!(b.push(&s, NEXT).is_none());
    let lap = b.current.as_ref().unwrap();
    assert_eq!(
        lap.points,
        vec![TelemetryPoint {
            t_ms: 12_500_000,
            lap_distance_m: 250_000,
            x: 3_000,
            y: 4_000,
            speed_kph: 100_000,
            throttle: 1000,
            brake: 0,
            gear: 5,
            rpm: 9_000_000,
        }]
    );
    assert_eq!(b.cum_dist, 250_000);
    assert_eq!(b.last_t_ms, 12_500_000);
    assert_eq!(b.last, Some(s));
    assert_eq!(b.start_pos, Some((3_000, 4_000)));
}

#[test]
fn distance_is_summed_up_where_the_game_gives_none() {
    let mut b = LapBuilder::with_ids("gt7", "Unknown", "Unknown", IDS);
    b.push(&sample(0.0, 0.0, 0.0, 0), NEXT);
    b.push(&sample(0.1, 3.0, 4.0, 0), NEXT);
    b.push(&sample(0.2, 3.0, 4.001, 0), NEXT);
    b.push(&sample(0.3, 4.0, 5.0, 0), NEXT);
    let d: Vec<i32> = b.current.as_ref().unwrap().points.iter().map(|p| p.lap_distance_m).collect();
    // 5 m, then 1 mm, then the root of 1000^2 + 999^2 mm, rounded down.
    assert_eq!(d, vec![0, 5_000, 5_001, 6_414]);
    // A distance of the game takes over.
    let mut s = sample(0.4, 0.0, 0.0, 0);
    s.lap_distance_m = 1;
    b.push(&s, NEXT);
    assert_eq!(b.cum_dist, 1);
    // And the sum saturates.
    let mut far = sample(0.5, 0.0, 0.0, 0);
    far.lap_distance_m = i32::MAX - 5;
    b.push(&far, NEXT);
    b.push(&sample(0.6, 1.0, 0.0, 0), NEXT);
    assert_eq!(b.cum_dist, i32::MAX);
}

#[test]
fn start_position_waits_for_movement() {
    let mut b = LapBuilder::with_ids("gt7", "Unknown", "Unknown", IDS);
    let mut s = sample(0.0, 7.0, 8.0, 0);
    s.speed_mps = 100;
    b.push(&s, NEXT);
    assert_eq!(b.start_pos, None);
    s.speed_mps = 101;
    s.world_pos_x = 9_000;
    b.push(&s, NEXT);
    assert_eq!(b.start_pos, Some((9_000, 8_000)));
    s.world_pos_x = 10_000;
    b.push(&s, NEXT);
    assert_eq!(b.start_pos, Some((9_000, 8_000)));
}

#[test]
fn total_time_follows_the_points() {
    let mut b = LapBuilder::with_ids("gt7", "Unknown", "Unknown", IDS);
    b.push(&sample(10.0, 0.0, 0.0, 0), NEXT);
    assert_eq!(b.current.as_ref().unwrap().total_time_ms, 0);
    b.push(&sample(12.3456, 100.0, 0.0, 0), NEXT);
    assert_eq!(b.current.as_ref().unwrap().total_time_ms, 2_346);
    b.push(&sample(9.0, 200.0, 0.0, 0), NEXT);
    assert_eq!(b.current.as_ref().unwrap().total_time_ms, 0);
}

#[test]
fn lap_rollover_by_increment() {
    let mut inner = Inner::new();
    inner.feed_sample("f1", &sample(100.0, 0.0, 0.0, 1));
    assert!(inner.laps.is_empty());
    inner.feed_sample("f1", &sample(130.0, 1500.0, 0.0, 2));
    assert_eq!(inner.laps.len(), 1);
    let lap = inner.laps.values().next().unwrap();
    assert_eq!(lap.total_time_ms, 30_000);
    assert_eq!(lap.meta.lap_number, 1);
    assert_eq!(lap.points.len(), 2);
}

#[test]
fn lap_numbers_that_do_not_rise_close_nothing() {
    let mut b = LapBuilder::with_ids("f1_2025", "Unknown", "Unknown", IDS);
    assert!(b.push(&sample(0.0, 0.0, 0.0, 0), NEXT).is_none());
    // From "not known" to a number.
    assert!(b.push(&sample(1.0, 100.0, 0.0, 3), NEXT).is_none());
    assert!(b.push(&sample(2.0, 200.0, 0.0, 3), NEXT).is_none());
    assert!(b.push(&sample(3.0, 300.0, 0.0, 2), NEXT).is_none());
    assert!(b.push(&sample(4.0, 400.0, 0.0, 0), NEXT).is_none());
    assert!(b.push(&sample(5.0, 500.0, 0.0, 1), NEXT).is_none());
    let closed = b.push(&sample(6.0, 600.0, 0.0, 9), NEXT).unwrap();
    assert_eq!(closed.points.len(), 7);
    assert_eq!(b.current.as_ref().unwrap().meta.lap_number, 9);
}

#[test]
fn lap_rollover_by_heuristic() {
    let mut inner = Inner::new();
    inner.feed_sample("gt7", &sample(0.0, 0.0, 0.0, 0));
    inner.feed_sample("gt7", &sample(5.0, 250.0, 0.0, 0));
    inner.feed_sample("gt7", &sample(10.0, 250.0, 250.0, 0));
    inner.feed_sample("gt7", &sample(14.0, 5.0, 5.0, 0));
    assert!(inner.laps.is_empty());
    inner.feed_sample("gt7", &sample(16.0, 12.0, -15.0, 0));
    assert_eq!(inner.laps.len(), 1);
    let lap = inner.laps.values().next().unwrap();
    assert_eq!(lap.points.len(), 5);
    assert_eq!(lap.total_time_ms, 16_000);
    assert_eq!(lap.meta.game, "f1_2025");
    let next = inner.builders[0].builder.current.as_ref().unwrap();
    assert_eq!(next.meta.lap_number, 1);
    assert!(next.points.is_empty());
    // The next lap is timed from its own first point.
    inner.feed_sample("gt7", &sample(17.0, 1.0, 1.0, 0));
    inner.feed_sample("gt7", &sample(31.0, 2.0, 2.0, 0));
    assert_eq!(inner.laps.len(), 1);
    inner.feed_sample("gt7", &sample(32.5, 3.0, 3.0, 0));
    assert_eq!(inner.laps.len(), 2);
}

#[test]
fn heuristic_needs_all_three() {
    let near = |t: f64, x: f64, speed: i32| {
        let mut b = LapBuilder::with_ids("gt7", "Unknown", "Unknown", IDS);
        b.push(&sample(0.0, 0.0, 0.0, 0), NEXT);
        let mut s = sample(t, x, 0.0, 0);
        s.speed_mps = speed;
        b.push(&s, NEXT).is_some()
    };
    assert!(near(15.001, 19.999, 1_001));
    assert!(!near(15.0, 19.999, 1_001));
    assert!(!near(15.001, 20.0, 1_001));
    assert!(!near(15.001, 19.999, 1_000));
    assert!(near(15.001, -19.999, 1_001));
    // Without a start position there is nothing to come back to.
    let mut b = LapBuilder::with_ids("gt7", "Unknown", "Unknown", IDS);
    let mut s = sample(0.0, 0.0, 0.0, 0);
    s.speed_mps = 50;
    b.push(&s, NEXT);
    s.sim_time_s = 20_000;
    assert!(b.push(&s, NEXT).is_none());
    // The first sample to move sets it, and may close the lap at once.
    s.speed_mps = 2_000;
    s.sim_time_s = 21_000;
    assert!(b.push(&s, NEXT).is_some());
}

#[test]
fn lap_builder_authoritative() {
    let mut inner = Inner::new();
    for i in 0..100 {
        inner.feed_sample_with("f1", &sample(i as f64 * 0.4, 50.0 * i as f64, 0.0, 1), IDS);
    }
    assert!(inner.laps.is_empty());
    inner.feed_sample_with("f1", &sample(45.0, 5000.0, 0.0, 2), NEXT);
    assert_eq!(inner.laps.len(), 1);
    let lap = &inner.laps[&101];
    assert_eq!(lap.id, 101);
    assert_eq!(lap.meta.id, 102);
    assert_eq!(lap.meta.lap_number, 1);
    assert_eq!(lap.meta.game, "f1_2025");
    assert_eq!(lap.meta.car, "Unknown");
    assert_eq!(lap.meta.track, "Unknown");
    // The hundred samples of lap 1 and the sample that closed it.
    assert_eq!(lap.points.len(), 101);
    assert_eq!(lap.points[..100].iter().filter(|p| p.t_ms < 45_000_000).count(), 100);
    assert_eq!(lap.points[100].t_ms, 45_000_000);
    assert_eq!(lap.total_time_ms, 45_000);
    assert_eq!(lap.points[100].lap_distance_m, 5_000_000);
    assert_eq!(inner.builders.len(), 1);
    assert_eq!(inner.builders[0].key, "f1");
    let b = &inner.builders[0].builder;
    let current = b.current.as_ref().unwrap();
    assert_eq!(current.meta.lap_number, 2);
    assert_eq!((current.id, current.meta.id), (201, 202));
    assert!(current.points.is_empty());
    assert_eq!(b.cum_dist, 0);
    assert_eq!(b.track_guess_m, 5_000_000);
    assert_eq!(b.last.as_ref().unwrap().current_lap, 2);
}

#[test]
fn each_source_has_a_builder() {
    let mut inner = Inner::new();
    assert!(!inner.running);
    assert_eq!(inner.find_slot("f1"), 0);
    inner.feed_sample("f1", &sample(0.0, 0.0, 0.0, 1));
    let mut other = sample(0.0, 0.0, 0.0, 4);
    other.game = Game::LMU;
    inner.feed_sample("lmu", &other);
    inner.feed_sample("f1", &sample(1.0, 50.0, 0.0, 1));
    assert_eq!(inner.builders.len(), 2);
    assert_eq!(inner.find_slot("f1"), 0);
    assert_eq!(inner.find_slot("lmu"), 1);
    assert_eq!(inner.find_slot("gt7"), 2);
    assert_eq!(inner.builders[0].builder.current.as_ref().unwrap().points.len(), 2);
    assert_eq!(inner.builders[1].builder.current.as_ref().unwrap().points.len(), 1);
    assert_eq!(inner.builders[1].builder.current.as_ref().unwrap().meta.game, "lmu");
    // The lap number of one source closes no lap of another.
    other.current_lap = 5;
    inner.feed_sample("f1", &sample(2.0, 100.0, 0.0, 1));
    assert!(inner.laps.is_empty());
    inner.feed_sample("lmu", &other);
    assert_eq!(inner.laps.len(), 1);
    let lap = inner.laps.values().next().unwrap();
    assert_eq!(lap.meta.game, "lmu");
    assert_eq!(inner.laps[&lap.id].id, lap.id);
    assert_eq!(Uuid::from_u128(lap.id).get_version_num(), 4);
    assert_eq!(inner.builders[1].builder.current.as_ref().unwrap().meta.lap_number, 5);
}

#[test]
fn a_builder_without_a_lap_records_nothing() {
    let mut b = LapBuilder::with_ids("gt7", "Unknown", "Unknown", IDS);
    b.current = None;
    assert!(b.push(&sample(0.0, 0.0, 0.0, 1), NEXT).is_none());
    assert!(b.push(&sample(1.0, 0.0, 0.0, 2), NEXT).is_none());
    assert!(b.current.is_none());
    assert_eq!(b.last.unwrap().current_lap, 2);
}

#[test]
fn recording_and_closing_are_two_steps() {
    let mut b = LapBuilder::with_ids("f1_2025", "Unknown", "Unknown", IDS);
    assert!(!b.record(&sample(0.0, 0.0, 0.0, 1)));
    assert!(!b.record(&sample(1.0, 50.0, 0.0, 1)));
    let closing = sample(2.0, 100.0, 0.0, 2);
    assert!(b.record(&closing));
    // The lap is still the current one, with the closing sample in it.
    assert_eq!(b.current.as_ref().unwrap().points.len(), 3);
    assert_eq!(b.last.as_ref().unwrap().current_lap, 2);
    let lap = b.close(&closing, NEXT).unwrap();
    assert_eq!(lap.id, 101);
    assert_eq!(lap.points.len(), 3);
    assert_eq!(lap.total_time_ms, 2_000);
    assert_eq!(b.track_guess_m, 100_000);
    assert_eq!(b.cum_dist, 0);
    let current = b.current.as_ref().unwrap();
    assert_eq!((current.id, current.meta.id, current.meta.lap_number), (201, 202, 2));
    // The longest lap is kept.
    b.record(&sample(3.0, 100.0, 0.0, 2));
    b.record(&sample(4.0, 130.0, 0.0, 2));
    let short = b.close(&sample(4.0, 130.0, 0.0, 0), IDS).unwrap();
    assert_eq!(short.points.last().unwrap().lap_distance_m, 30_000);
    assert_eq!(b.track_guess_m, 100_000);
    assert_eq!(b.current.as_ref().unwrap().meta.lap_number, 1);
    // Closing an empty lap gives it back, closing none gives nothing.
    assert!(b.close(&closing, NEXT).unwrap().points.is_empty());
    b.current = None;
    assert!(b.close(&closing, NEXT).is_none());
}

#[test]
fn identifiers_are_drawn_for_each_lap() {
    let mut inner = Inner::new();
    inner.feed_sample("f1", &sample(0.0, 0.0, 0.0, 1));
    let first = inner.builders[0].builder.current.as_ref().unwrap().id;
    inner.feed_sample("f1", &sample(1.0, 50.0, 0.0, 1));
    assert_eq!(inner.builders[0].builder.current.as_ref().unwrap().id, first);
    inner.feed_sample("f1", &sample(2.0, 100.0, 0.0, 2));
    let second = inner.builders[0].builder.current.as_ref().unwrap().id;
    assert_ne!(first, second);
    assert!(inner.laps.contains_key(&first));
    inner.feed_sample("f1", &sample(3.0, 150.0, 0.0, 3));
    assert_eq!(inner.laps.len(), 2);
    assert!(inner.laps.contains_key(&second));
    for lap in inner.laps.values() {
        assert_eq!(Uuid::from_u128(lap.id).get_version_num(), 4);
        assert_eq!(Uuid::from_u128(lap.meta.id).get_version_num(), 4);
        assert_ne!(lap.id, lap.meta.id);
    }
}

#[test]
fn copies_are_equal() {
    let s = sample(1.5, 2.0, 3.0, 4);
    assert_eq!(s.duplicate(), s);
    let mut b = LapBuilder::with_ids("gt7", "Unknown", "Unknown", IDS);
    b.push(&s, NEXT);
    b.push(&sample(2.5, 4.0, 3.0, 4), NEXT);
    let lap = b.current.unwrap();
    assert_eq!(lap.duplicate(), lap);
}
