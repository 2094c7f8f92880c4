//! Looking a lap up by distance: the point nearest to a distance stands for it.

use vstd::prelude::*;
use crate::model::{Lap, TelemetryPoint};

verus! {

/// The absolute value of `a - d`.
pub open spec fn abs_gap(a: int, d: int) -> int {
    if a < d {
        d - a
    } else {
        a - d
    }
}

/// How far point `i` lies from the distance `d`, in millimetres.
pub open spec fn gap(points: Seq<TelemetryPoint>, i: int, d: int) -> int {
    abs_gap(points[i].lap_distance_m as int, d)
}

/// `i` is the point nearest to `d`: no point lies nearer, and every point
/// before it lies farther, so that of several nearest points the first counts.
pub open spec fn is_nearest(points: Seq<TelemetryPoint>, d: int, i: int) -> bool {
    &&& 0 <= i < points.len()
    &&& forall|j: int| 0 <= j < points.len() ==> gap(points, i, d) <= #[trigger] gap(points, j, d)
    &&& forall|j: int| 0 <= j < i ==> gap(points, i, d) < #[trigger] gap(points, j, d)
}

/// The index of the point nearest to `d`; unspecified for no points.
pub open spec fn nearest(points: Seq<TelemetryPoint>, d: int) -> int {
    choose|i: int| is_nearest(points, d, i)
}

/// Only one point is the nearest.
pub proof fn lemma_nearest_unique(points: Seq<TelemetryPoint>, d: int, i: int)
    requires
        is_nearest(points, d, i),
    ensures
        nearest(points, d) == i,
{
    let c = nearest(points, d);
    assert(is_nearest(points, d, c));
    if c < i {
        assert(gap(points, i, d) < gap(points, c, d));
        assert(gap(points, c, d) <= gap(points, i, d));
    } else if i < c {
        assert(gap(points, c, d) < gap(points, i, d));
        assert(gap(points, i, d) <= gap(points, c, d));
    }
}

/// Finds the point nearest to `d`.
pub fn nearest_index(points: &Vec<TelemetryPoint>, d: i64) -> (r: usize)
    requires
        points@.len() > 0,
    ensures
        is_nearest(points@, d as int, r as int),
        r as int == nearest(points@, d as int),
{
    let n: usize = points.len();
    let mut best: usize = 0;
    let mut best_gap: i128 = abs_diff(points[0].lap_distance_m, d);
    let mut i: usize = 1;
    while i < n
        invariant
            1 <= i <= n,
            n == points@.len(),
            0 <= best < i,
            best_gap == gap(points@, best as int, d as int),
            forall|j: int| 0 <= j < i ==> best_gap <= #[trigger] gap(points@, j, d as int),
            forall|j: int| 0 <= j < best ==> best_gap < #[trigger] gap(points@, j, d as int),
        decreases n - i,
    {
        let g: i128 = abs_diff(points[i].lap_distance_m, d);
        if g < best_gap {
            best = i;
            best_gap = g;
        }
        i = i + 1;
    }
    proof {
        lemma_nearest_unique(points@, d as int, best as int);
    }
    best
}

fn abs_diff(a: i32, d: i64) -> (r: i128)
    ensures
        r == abs_gap(a as int, d as int),
{
    let diff: i128 = a as i128 - d as i128;
    if diff < 0 {
        -diff
    } else {
        diff
    }
}

/// The speed of a lap at a distance: that of the nearest point, zero in a lap
/// without points.
pub open spec fn speed_at(points: Seq<TelemetryPoint>, d: int) -> i32 {
    if points.len() == 0 {
        0
    } else {
        points[nearest(points, d)].speed_kph
    }
}

/// The time into a lap at a distance: from the first point to the nearest one,
/// zero in a lap without points.
pub open spec fn time_at(points: Seq<TelemetryPoint>, d: int) -> int {
    if points.len() == 0 {
        0
    } else {
        points[nearest(points, d)].t_ms - points[0].t_ms
    }
}

/// The speed of `lap` at the distance `dist`, given in millimetres.
pub fn sample_speed_at_distance(lap: &Lap, dist: i64) -> (r: i32)
    ensures
        r == speed_at(lap.points@, dist as int),
{
    if lap.points.len() == 0 {
        return 0;
    }
    let i: usize = nearest_index(&lap.points, dist);
    lap.points[i].speed_kph
}

/// The time into `lap` at the distance `dist`, given in millimetres; the result
/// is in thousandths of a millisecond.
pub fn time_at_distance(lap: &Lap, dist: i64) -> (r: i128)
    ensures
        r == time_at(lap.points@, dist as int),
{
    if lap.points.len() == 0 {
        return 0;
    }
    let i: usize = nearest_index(&lap.points, dist);
    lap.points[i].t_ms as i128 - lap.points[0].t_ms as i128
}

} // verus!
