//! Laps and the geometry derived from them.
//!
//! Every measured quantity is a fixed-point number: the field holds the value in
//! thousandths of the unit that its name gives. `t_ms` counts thousandths of a
//! millisecond, `lap_distance_m`, `x` and `y` count millimetres, `speed_kph`
//! thousandths of a kilometre per hour, `throttle` and `brake` thousandths of
//! full travel. Whole numbers (`gear`, `lap_number`, `total_time_ms`, indices)
//! are held as they are.

use vstd::prelude::*;

verus! {

/// A sample as it is kept inside a lap, in the track frame.
#[derive(Clone, Copy, Debug, PartialEq, Eq, Structural)]
pub struct TelemetryPoint {
    pub t_ms: i64,
    pub lap_distance_m: i32,
    pub x: i32,
    pub y: i32,
    pub speed_kph: i32,
    pub throttle: i32,
    pub brake: i32,
    pub gear: i8,
    pub rpm: i32,
}

/// What a lap was driven in and on.
#[derive(Clone, Debug, PartialEq, Eq)]
pub struct LapMeta {
    pub id: u128,
    pub game: String,
    pub car: String,
    pub track: String,
    pub lap_number: u32,
}

/// The mathematical content of a `LapMeta`.
pub struct LapMetaView {
    pub id: u128,
    pub game: Seq<char>,
    pub car: Seq<char>,
    pub track: Seq<char>,
    pub lap_number: u32,
}

impl View for LapMeta {
    type V = LapMetaView;

    open spec fn view(&self) -> LapMetaView {
        LapMetaView {
            id: self.id,
            game: self.game@,
            car: self.car@,
            track: self.track@,
            lap_number: self.lap_number,
        }
    }
}

/// A closed recording: points in arrival order and the time they span, in whole
/// milliseconds.
#[derive(Clone, Debug, PartialEq, Eq)]
pub struct Lap {
    pub id: u128,
    pub meta: LapMeta,
    pub total_time_ms: u64,
    pub points: Vec<TelemetryPoint>,
}

/// The mathematical content of a `Lap`.
pub struct LapView {
    pub id: u128,
    pub meta: LapMetaView,
    pub total_time_ms: u64,
    pub points: Seq<TelemetryPoint>,
}

impl View for Lap {
    type V = LapView;

    open spec fn view(&self) -> LapView {
        LapView {
            id: self.id,
            meta: self.meta@,
            total_time_ms: self.total_time_ms,
            points: self.points@,
        }
    }
}

/// The whole milliseconds from `first` to `last`, both in thousandths of a
/// millisecond; zero if `last` is the earlier one.
pub open spec fn span_ms(first: i64, last: i64) -> u64 {
    if last >= first {
        ((last - first) / 1000) as u64
    } else {
        0
    }
}

/// Computes `span_ms`.
pub fn elapsed_ms(first: i64, last: i64) -> (r: u64)
    ensures
        r == span_ms(first, last),
{
    if last >= first {
        ((last as i128 - first as i128) / 1000) as u64
    } else {
        0
    }
}

impl Lap {
    /// A copy of the lap.
    pub fn duplicate(&self) -> (r: Lap)
        ensures
            r@ == self@,
    {
        let n: usize = self.points.len();
        let mut points: Vec<TelemetryPoint> = Vec::new();
        let mut i: usize = 0;
        while i < n
            invariant
                0 <= i <= n,
                n == self.points@.len(),
                points@ == self.points@.take(i as int),
            decreases n - i,
        {
            points.push(self.points[i]);
            assert(self.points@.take(i + 1) =~= self.points@.take(i as int).push(
                self.points@[i as int],
            ));
            i = i + 1;
        }
        assert(self.points@.take(n as int) =~= self.points@);
        Lap {
            id: self.id,
            meta: LapMeta {
                id: self.meta.id,
                game: self.meta.game.clone(),
                car: self.meta.car.clone(),
                track: self.meta.track.clone(),
                lap_number: self.meta.lap_number,
            },
            total_time_ms: self.total_time_ms,
            points,
        }
    }
}

impl LapView {
    /// The time of the first point, or `otherwise` in a lap without points.
    pub open spec fn first_t_or(self, otherwise: i64) -> i64 {
        if self.points.len() > 0 {
            self.points[0].t_ms
        } else {
            otherwise
        }
    }

    /// The distance of the last point, zero without points.
    pub open spec fn last_distance(self) -> i32 {
        if self.points.len() > 0 {
            self.points.last().lap_distance_m
        } else {
            0
        }
    }

    /// `total_time_ms` is the time from the first point to the last.
    pub open spec fn time_is_span(self) -> bool {
        self.points.len() > 0 ==> self.total_time_ms == span_ms(
            self.points[0].t_ms,
            self.points.last().t_ms,
        )
    }
}

/// The metrics of one corner of a reference lap.
#[derive(Clone, Copy, Debug, PartialEq, Eq, Structural)]
pub struct Corner {
    pub index: u32,
    pub start_m: i32,
    pub apex_m: i32,
    pub end_m: i32,
    pub x: i32,
    pub y: i32,
    pub min_speed: i32,
    pub entry_speed: i32,
    pub exit_speed: i32,
    pub brake_point_m: i32,
    pub throttle_on_m: i32,
}

/// The outline of a track with its corners and sectors.
#[derive(Clone, Debug, PartialEq, Eq)]
pub struct TrackMap {
    pub polyline: Vec<Point2>,
    pub corners: Vec<CornerLabel>,
    pub sectors: Vec<Sector>,
    pub bbox: BBox,
}

/// A stretch of the lap between two distances.
#[derive(Clone, Copy, Debug, PartialEq, Eq, Structural)]
pub struct Sector {
    pub start_m: i32,
    pub end_m: i32,
}

/// The apex of a corner and its ordinal, counted from one.
#[derive(Clone, Copy, Debug, PartialEq, Eq, Structural)]
pub struct CornerLabel {
    pub index: u32,
    pub x: i32,
    pub y: i32,
}

/// The smallest axis-aligned box around a polyline. Around no point at all the
/// box is inverted: each minimum is `i32::MAX`, each maximum `i32::MIN`.
#[derive(Clone, Copy, Debug, PartialEq, Eq, Structural)]
pub struct BBox {
    pub minx: i32,
    pub maxx: i32,
    pub miny: i32,
    pub maxy: i32,
}

#[derive(Clone, Copy, Debug, PartialEq, Eq, Structural)]
pub struct Point2 {
    pub x: i32,
    pub y: i32,
}

} // verus!
