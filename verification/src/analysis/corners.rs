//! What the driver did in each corner of a reference lap.

use vstd::prelude::*;
use crate::analysis::curvature::{
    curvature_series, lemma_peaks_below, peak_indices, PEAK_THRESHOLD, PEAK_WINDOW,
};
use crate::analysis::track::{corner_points, ordinal, ordinal_of};
use crate::model::{Corner, Lap, TelemetryPoint};

verus! {

/// A corner reaches this many points before and after its apex.
pub const CORNER_REACH: usize = 20;

/// The driver brakes above this much brake travel, in thousandths.
pub const BRAKING: i32 = 200;

/// The driver is back on the throttle above this much throttle travel, in
/// thousandths.
pub const ON_THROTTLE: i32 = 600;

/// The first point of the corner with its apex at `idx`.
pub open spec fn corner_start(idx: int) -> int {
    if idx >= CORNER_REACH {
        idx - CORNER_REACH
    } else {
        0
    }
}

/// The last point of the corner with its apex at `idx`, in a lap of `n` points.
pub open spec fn corner_end(n: int, idx: int) -> int {
    if idx + CORNER_REACH < n - 1 {
        idx + CORNER_REACH
    } else {
        n - 1
    }
}

/// The lowest speed at the points `from..=to`.
pub open spec fn min_speed_in(points: Seq<TelemetryPoint>, from: int, to: int) -> i32
    decreases to - from,
{
    if to <= from {
        points[from].speed_kph
    } else {
        let rest = min_speed_in(points, from, to - 1);
        if points[to].speed_kph < rest {
            points[to].speed_kph
        } else {
            rest
        }
    }
}

/// The first of the points `from..to` where the driver brakes.
pub open spec fn first_braking(points: Seq<TelemetryPoint>, from: int, to: int) -> Option<int>
    decreases to - from,
{
    if from >= to {
        None
    } else if points[from].brake > BRAKING {
        Some(from)
    } else {
        first_braking(points, from + 1, to)
    }
}

/// The first of the points `from..to` where the driver is on the throttle.
pub open spec fn first_on_throttle(points: Seq<TelemetryPoint>, from: int, to: int) -> Option<int>
    decreases to - from,
{
    if from >= to {
        None
    } else if points[from].throttle > ON_THROTTLE {
        Some(from)
    } else {
        first_on_throttle(points, from + 1, to)
    }
}

/// The metrics of the corner with its apex at point `idx`, the `i`-th corner
/// of the lap counted from zero. The corner reaches from `CORNER_REACH` points
/// before the apex to as many after it, as far as the lap has them. Entry and
/// exit speed are those at its first and last point. The brake point is where
/// the driver first brakes before the apex, the throttle point where the driver
/// is first on the throttle from the apex on; each is the apex where that
/// does not happen in the corner.
pub open spec fn corner_of(points: Seq<TelemetryPoint>, idx: int, i: int) -> Corner {
    let start = corner_start(idx);
    let end = corner_end(points.len() as int, idx);
    Corner {
        index: ordinal(i),
        start_m: points[start].lap_distance_m,
        apex_m: points[idx].lap_distance_m,
        end_m: points[end].lap_distance_m,
        x: points[idx].x,
        y: points[idx].y,
        min_speed: min_speed_in(points, start, end),
        entry_speed: points[start].speed_kph,
        exit_speed: points[end].speed_kph,
        brake_point_m: match first_braking(points, start, idx) {
            Some(k) => points[k].lap_distance_m,
            None => points[idx].lap_distance_m,
        },
        throttle_on_m: match first_on_throttle(points, idx, end + 1) {
            Some(k) => points[k].lap_distance_m,
            None => points[idx].lap_distance_m,
        },
    }
}

/// The metrics of all corners of a lap.
pub open spec fn corners_of(points: Seq<TelemetryPoint>) -> Seq<Corner> {
    Seq::new(
        corner_points(points).len(),
        |i: int| corner_of(points, corner_points(points)[i] as int, i),
    )
}

/// Computes `corner_of`.
pub fn corner_metrics(points: &[TelemetryPoint], idx: usize, i: usize) -> (c: Corner)
    requires
        idx < points@.len(),
    ensures
        c == corner_of(points@, idx as int, i as int),
{
    let n: usize = points.len();
    let start: usize = if idx >= CORNER_REACH {
        idx - CORNER_REACH
    } else {
        0
    };
    let end: usize = if n - 1 - idx > CORNER_REACH {
        idx + CORNER_REACH
    } else {
        n - 1
    };
    let apex: TelemetryPoint = points[idx];
    let mut min_speed: i32 = points[start].speed_kph;
    let mut k: usize = start;
    while k < end
        invariant
            start <= k <= end < n,
            n == points@.len(),
            min_speed == min_speed_in(points@, start as int, k as int),
        decreases end - k,
    {
        k = k + 1;
        if points[k].speed_kph < min_speed {
            min_speed = points[k].speed_kph;
        }
    }
    let mut brake_m: i32 = apex.lap_distance_m;
    k = start;
    let mut open: bool = true;
    while k < idx && open
        invariant
            start <= k <= idx < n,
            n == points@.len(),
            open ==> first_braking(points@, start as int, idx as int) == first_braking(
                points@,
                k as int,
                idx as int,
            ),
            open ==> brake_m == points@[idx as int].lap_distance_m,
            !open ==> first_braking(points@, start as int, idx as int) == Some(k as int)
                && brake_m == points@[k as int].lap_distance_m,
        decreases idx - k + if open { 1int } else { 0int },
    {
        if points[k].brake > BRAKING {
            brake_m = points[k].lap_distance_m;
            open = false;
        } else {
            k = k + 1;
        }
    }
    let mut throttle_m: i32 = apex.lap_distance_m;
    k = idx;
    open = true;
    while k <= end && open
        invariant
            idx <= k <= end + 1 <= n,
            n == points@.len(),
            open ==> first_on_throttle(points@, idx as int, end + 1) == first_on_throttle(
                points@,
                k as int,
                end + 1,
            ),
            open ==> throttle_m == points@[idx as int].lap_distance_m,
            !open ==> first_on_throttle(points@, idx as int, end + 1) == Some(k as int)
                && throttle_m == points@[k as int].lap_distance_m,
        decreases end + 1 - k + if open { 1int } else { 0int },
    {
        if points[k].throttle > ON_THROTTLE {
            throttle_m = points[k].lap_distance_m;
            open = false;
        } else {
            k = k + 1;
        }
    }
    Corner {
        index: ordinal_of(i),
        start_m: points[start].lap_distance_m,
        apex_m: apex.lap_distance_m,
        end_m: points[end].lap_distance_m,
        x: apex.x,
        y: apex.y,
        min_speed,
        entry_speed: points[start].speed_kph,
        exit_speed: points[end].speed_kph,
        brake_point_m: brake_m,
        throttle_on_m: throttle_m,
    }
}

/// The metrics of every corner of a reference lap, in the order of the corners.
pub fn per_corner_metrics(reference: &Lap) -> (out: Vec<Corner>)
    ensures
        out@ == corners_of(reference.points@),
{
    let points: &[TelemetryPoint] = reference.points.as_slice();
    let curv: Vec<u64> = curvature_series(points);
    let peaks: Vec<usize> = peak_indices(curv.as_slice(), PEAK_WINDOW, PEAK_THRESHOLD);
    let n: usize = curv.len();
    proof {
        lemma_peaks_below(curv@, PEAK_WINDOW as int, PEAK_THRESHOLD, curv@.len() as int);
    }
    let count: usize = peaks.len();
    let mut out: Vec<Corner> = Vec::new();
    let mut i: usize = 0;
    while i < count
        invariant
            0 <= i <= count,
            count == peaks@.len(),
            points@ == reference.points@,
            peaks@ == corner_points(points@),
            forall|j: int| 0 <= j < count ==> #[trigger] peaks@[j] < points@.len(),
            out@.len() == i,
            forall|j: int| 0 <= j < i ==> #[trigger] out@[j] == corners_of(points@)[j],
        decreases count - i,
    {
        out.push(corner_metrics(points, peaks[i], i));
        i = i + 1;
    }
    assert(out@ =~= corners_of(reference.points@));
    out
}

} // verus!
