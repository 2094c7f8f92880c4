//! Speed against distance for several laps on one grid.

use vstd::prelude::*;
use crate::analysis::nearest::{sample_speed_at_distance, speed_at};
use crate::model::Lap;

verus! {

/// The grid has one row per metre; distances are in millimetres.
pub const GRID_STEP: i64 = 1000;

/// The speed of one lap in a row of the overlay.
#[derive(Clone, Copy, Debug, PartialEq, Eq, Structural)]
pub struct LapSpeed {
    /// The identifier of the lap.
    pub id: u128,
    /// Its speed at the row's distance.
    pub speed_kph: i32,
}

/// One row of the overlay: a distance and the speed of every lap there, in the
/// order of the laps.
#[derive(Clone, Debug, PartialEq, Eq)]
pub struct OverlayRow {
    pub distance: i64,
    pub speeds: Vec<LapSpeed>,
}

/// The distance of the last point of a lap, zero without points.
pub open spec fn lap_length(lap: Lap) -> int {
    lap@.last_distance() as int
}

/// The greatest length of the laps, and zero at least.
pub open spec fn extent(laps: Seq<Lap>) -> int
    decreases laps.len(),
{
    if laps.len() == 0 {
        0
    } else {
        let rest = extent(laps.drop_last());
        if lap_length(laps.last()) > rest {
            lap_length(laps.last())
        } else {
            rest
        }
    }
}

/// The number of rows that a grid up to `length` has: none for a negative
/// length, else one for each whole metre from zero on.
pub open spec fn row_count(length: int) -> int {
    if length < 0 {
        0
    } else {
        length / (GRID_STEP as int) + 1
    }
}

/// The extent is the length of one of the laps or zero, and no lap is longer.
pub proof fn lemma_extent_bounds(laps: Seq<Lap>)
    ensures
        0 <= extent(laps) <= i32::MAX,
        forall|i: int| 0 <= i < laps.len() ==> lap_length(#[trigger] laps[i]) <= extent(laps),
        extent(laps) == 0 || exists|i: int|
            0 <= i < laps.len() && lap_length(#[trigger] laps[i]) == extent(laps),
    decreases laps.len(),
{
    if laps.len() > 0 {
        let rest = laps.drop_last();
        lemma_extent_bounds(rest);
        assert forall|i: int| 0 <= i < laps.len() implies lap_length(#[trigger] laps[i]) <= extent(
            laps,
        ) by {
            if i < rest.len() {
                assert(laps[i] == rest[i]);
            }
        }
        if extent(laps) != 0 {
            if lap_length(laps.last()) > extent(rest) {
                assert(lap_length(laps[laps.len() - 1]) == extent(laps));
            } else {
                let i = choose|i: int|
                    0 <= i < rest.len() && lap_length(#[trigger] rest[i]) == extent(rest);
                assert(laps[i] == rest[i]);
            }
        }
    }
}

/// Computes `extent`.
pub fn max_length(laps: &[Lap]) -> (r: i32)
    ensures
        r == extent(laps@),
{
    let n: usize = laps.len();
    let mut best: i32 = 0;
    let mut i: usize = 0;
    while i < n
        invariant
            0 <= i <= n,
            n == laps@.len(),
            best == extent(laps@.take(i as int)),
        decreases n - i,
    {
        let m: usize = laps[i].points.len();
        let len: i32 = if m > 0 {
            laps[i].points[m - 1].lap_distance_m
        } else {
            0
        };
        proof {
            assert(laps@.take(i + 1).drop_last() =~= laps@.take(i as int));
            assert(laps@.take(i + 1).last() == laps@[i as int]);
        }
        if len > best {
            best = len;
        }
        i = i + 1;
    }
    proof {
        assert(laps@.take(n as int) =~= laps@);
    }
    best
}

/// `row` is the row of the overlay at the distance `d`: it has one entry for
/// each lap, in their order, with the lap's identifier and its speed at `d`.
pub open spec fn is_overlay_row(row: OverlayRow, laps: Seq<Lap>, d: int) -> bool {
    &&& row.distance == d
    &&& row.speeds@.len() == laps.len()
    &&& forall|i: int|
        0 <= i < laps.len() ==> #[trigger] row.speeds@[i] == (LapSpeed {
            id: laps[i].id,
            speed_kph: speed_at(laps[i].points@, d),
        })
}

/// The row of the overlay at the distance `d`.
pub fn overlay_row(laps: &[Lap], d: i64) -> (row: OverlayRow)
    ensures
        is_overlay_row(row, laps@, d as int),
{
    let n: usize = laps.len();
    let mut speeds: Vec<LapSpeed> = Vec::new();
    let mut i: usize = 0;
    while i < n
        invariant
            0 <= i <= n,
            n == laps@.len(),
            speeds@.len() == i,
            forall|j: int|
                0 <= j < i ==> #[trigger] speeds@[j] == (LapSpeed {
                    id: laps@[j].id,
                    speed_kph: speed_at(laps@[j].points@, d as int),
                }),
        decreases n - i,
    {
        speeds.push(LapSpeed { id: laps[i].id, speed_kph: sample_speed_at_distance(&laps[i], d) });
        i = i + 1;
    }
    OverlayRow { distance: d, speeds }
}

/// The overlay of the laps: for every whole metre from zero up to the extent of
/// the laps a row, in ascending order and without gaps, that holds for each lap
/// its speed at that distance.
pub fn overlay_speed_vs_distance(laps: &[Lap]) -> (rows: Vec<OverlayRow>)
    ensures
        rows@.len() == row_count(extent(laps@)),
        forall|k: int|
            0 <= k < rows@.len() ==> is_overlay_row(#[trigger] rows@[k], laps@, k * GRID_STEP),
{
    let max_len: i64 = max_length(laps) as i64;
    proof {
        lemma_extent_bounds(laps@);
    }
    let mut rows: Vec<OverlayRow> = Vec::new();
    let mut d: i64 = 0;
    while d <= max_len
        invariant
            0 <= max_len <= i32::MAX,
            0 <= d <= max_len + GRID_STEP,
            d % GRID_STEP == 0,
            rows@.len() == d / GRID_STEP,
            forall|k: int|
                0 <= k < rows@.len() ==> is_overlay_row(#[trigger] rows@[k], laps@, k * GRID_STEP),
        decreases max_len + GRID_STEP - d,
    {
        let row = overlay_row(laps, d);
        rows.push(row);
        d = d + GRID_STEP;
    }
    rows
}

/// A row of the overlay has one entry for each lap. Where no two laps share an
/// identifier, no two entries of a row do, so that each identifier names one
/// speed.
pub proof fn lemma_one_entry_per_lap(row: OverlayRow, laps: Seq<Lap>, d: int)
    requires
        is_overlay_row(row, laps, d),
        forall|i: int, j: int|
            0 <= i < j < laps.len() ==> (#[trigger] laps[i]).id != (#[trigger] laps[j]).id,
    ensures
        row.speeds@.len() == laps.len(),
        forall|i: int, j: int|
            0 <= i < j < row.speeds@.len() ==> (#[trigger] row.speeds@[i]).id != (
            #[trigger] row.speeds@[j]).id,
{
    assert forall|i: int, j: int| 0 <= i < j < row.speeds@.len() implies (
    #[trigger] row.speeds@[i]).id != (#[trigger] row.speeds@[j]).id by {
        assert(laps[i].id != laps[j].id);
    }
}

/// The distances of the rows of an overlay are the whole metres from zero up to
/// the extent of the laps: row `k` lies at `k` metres, the last row within a
/// metre below the extent.
pub proof fn lemma_overlay_grid(laps: Seq<Lap>, k: int)
    requires
        0 <= k < row_count(extent(laps)),
    ensures
        0 <= k * GRID_STEP <= extent(laps),
        (row_count(extent(laps)) - 1) * GRID_STEP <= extent(laps) < row_count(extent(laps))
            * GRID_STEP,
{
    lemma_extent_bounds(laps);
}

} // verus!
