//! The map of a track from one lap: outline, bounding box, corner labels and
//! sectors.

use vstd::prelude::*;
use vstd::set_lib::{lemma_int_range, lemma_len_subset, lemma_subset_equality, set_int_range};
use crate::analysis::curvature::{
    curvature_seq, curvature_series, lemma_peaks_below, peak_indices, peaks_of, PEAK_THRESHOLD,
    PEAK_WINDOW,
};
use crate::model::{BBox, CornerLabel, Lap, Point2, Sector, TelemetryPoint, TrackMap};

verus! {

/// The number of sectors of a track map.
pub const SECTOR_COUNT: usize = 3;

/// The outline of a lap: the position of every point.
pub open spec fn polyline_of(points: Seq<TelemetryPoint>) -> Seq<Point2> {
    Seq::new(points.len(), |i: int| Point2 { x: points[i].x, y: points[i].y })
}

/// The box around no point at all.
pub open spec fn inverted_box() -> BBox {
    BBox { minx: i32::MAX, maxx: i32::MIN, miny: i32::MAX, maxy: i32::MIN }
}

/// The box widened to hold `p`.
pub open spec fn widened(b: BBox, p: Point2) -> BBox {
    BBox {
        minx: if p.x < b.minx {
            p.x
        } else {
            b.minx
        },
        maxx: if p.x > b.maxx {
            p.x
        } else {
            b.maxx
        },
        miny: if p.y < b.miny {
            p.y
        } else {
            b.miny
        },
        maxy: if p.y > b.maxy {
            p.y
        } else {
            b.maxy
        },
    }
}

/// The smallest box that holds every point of `pl`.
pub open spec fn bbox_seq(pl: Seq<Point2>) -> BBox
    decreases pl.len(),
{
    if pl.len() == 0 {
        inverted_box()
    } else {
        widened(bbox_seq(pl.drop_last()), pl.last())
    }
}

/// The box holds `p`.
pub open spec fn covers(b: BBox, p: Point2) -> bool {
    b.minx <= p.x <= b.maxx && b.miny <= p.y <= b.maxy
}

/// The box of a polyline holds each of its points.
pub proof fn lemma_bbox_covers(pl: Seq<Point2>)
    ensures
        forall|i: int| 0 <= i < pl.len() ==> covers(bbox_seq(pl), #[trigger] pl[i]),
    decreases pl.len(),
{
    if pl.len() > 0 {
        lemma_bbox_covers(pl.drop_last());
        assert forall|i: int| 0 <= i < pl.len() implies covers(bbox_seq(pl), #[trigger] pl[i]) by {
            if i < pl.len() - 1 {
                assert(pl.drop_last()[i] == pl[i]);
            }
        }
    }
}

/// The smallest box that holds every point of `pl`.
pub fn bbox_of(pl: &[Point2]) -> (b: BBox)
    ensures
        b == bbox_seq(pl@),
{
    let n: usize = pl.len();
    let mut b = BBox { minx: i32::MAX, maxx: i32::MIN, miny: i32::MAX, maxy: i32::MIN };
    let mut i: usize = 0;
    while i < n
        invariant
            0 <= i <= n,
            n == pl@.len(),
            b == bbox_seq(pl@.take(i as int)),
        decreases n - i,
    {
        proof {
            assert(pl@.take(i + 1).drop_last() =~= pl@.take(i as int));
            assert(pl@.take(i + 1).last() == pl@[i as int]);
        }
        let p: Point2 = pl[i];
        if p.x < b.minx {
            b.minx = p.x;
        }
        if p.x > b.maxx {
            b.maxx = p.x;
        }
        if p.y < b.miny {
            b.miny = p.y;
        }
        if p.y > b.maxy {
            b.maxy = p.y;
        }
        i = i + 1;
    }
    proof {
        assert(pl@.take(n as int) =~= pl@);
    }
    b
}

/// The ordinal of the `i`-th corner, counted from one and saturated.
pub open spec fn ordinal(i: int) -> u32 {
    if i + 1 > u32::MAX {
        u32::MAX
    } else {
        (i + 1) as u32
    }
}

/// Computes `ordinal`.
pub fn ordinal_of(i: usize) -> (r: u32)
    ensures
        r == ordinal(i as int),
{
    if i >= 0xFFFF_FFFF {
        u32::MAX
    } else {
        (i + 1) as u32
    }
}

/// The corners of a lap: the peaks of its curvature.
pub open spec fn corner_points(points: Seq<TelemetryPoint>) -> Seq<usize> {
    peaks_of(curvature_seq(points), PEAK_WINDOW as int, PEAK_THRESHOLD)
}

/// The labels of the corners of a lap, in the order in which they come.
pub open spec fn corner_labels(points: Seq<TelemetryPoint>) -> Seq<CornerLabel> {
    Seq::new(
        corner_points(points).len(),
        |i: int|
            CornerLabel {
                index: ordinal(i),
                x: points[corner_points(points)[i] as int].x,
                y: points[corner_points(points)[i] as int].y,
            },
    )
}

/// The value at `a` comes before the value at `b` when the values are put in
/// descending order: it is greater, or equal and earlier.
pub open spec fn outranks(curv: Seq<u64>, a: int, b: int) -> bool {
    curv[a] > curv[b] || (curv[a] == curv[b] && a < b)
}

/// `chosen` holds the indices of the `k` first values of `curv` in descending
/// order, or of all values if there are fewer.
pub open spec fn is_top(curv: Seq<u64>, k: int, chosen: Set<int>) -> bool {
    &&& chosen.finite()
    &&& forall|i: int| chosen.contains(i) ==> 0 <= i < curv.len()
    &&& chosen.len() == if k < curv.len() {
        k
    } else {
        curv.len() as int
    }
    &&& forall|a: int, b: int|
        chosen.contains(a) && 0 <= b < curv.len() && !chosen.contains(b) ==> outranks(curv, a, b)
}

/// The lap distances at the chosen indices below `upto`, in ascending order of
/// the indices. A chosen index that is no point of the lap is passed over.
pub open spec fn cut_distances(points: Seq<TelemetryPoint>, chosen: Set<int>, upto: int) -> Seq<i32>
    decreases upto,
{
    if upto <= 0 {
        Seq::empty()
    } else {
        let rest = cut_distances(points, chosen, upto - 1);
        if chosen.contains(upto - 1) && upto - 1 < points.len() {
            rest.push(points[upto - 1].lap_distance_m)
        } else {
            rest
        }
    }
}

/// The sector boundaries of a lap with points: the distance of its first
/// point, the distances at the chosen indices, and the distance of its last
/// point.
pub open spec fn boundaries(points: Seq<TelemetryPoint>, chosen: Set<int>, upto: int) -> Seq<i32> {
    seq![points[0].lap_distance_m] + cut_distances(points, chosen, upto) + seq![
        points.last().lap_distance_m,
    ]
}

/// The sectors between consecutive boundaries.
pub open spec fn sectors_between(ds: Seq<i32>) -> Seq<Sector> {
    Seq::new((ds.len() - 1) as nat, |j: int| Sector { start_m: ds[j], end_m: ds[j + 1] })
}

/// `sectors` are the `n` sectors of a lap under the curvature `curv`: cut at the
/// `n - 1` points of highest curvature. A lap without points, or `n == 0`, has
/// no sectors.
pub open spec fn is_sectors(
    sectors: Seq<Sector>,
    points: Seq<TelemetryPoint>,
    curv: Seq<u64>,
    n: int,
) -> bool {
    if points.len() == 0 || n == 0 {
        sectors.len() == 0
    } else {
        exists|chosen: Set<int>|
            #![trigger is_top(curv, n - 1, chosen)]
            is_top(curv, n - 1, chosen) && sectors == sectors_between(
                boundaries(points, chosen, curv.len() as int),
            )
    }
}

/// Only one set holds the `k` first values: `is_top` determines the cuts.
pub proof fn lemma_top_is_unique(curv: Seq<u64>, k: int, first: Set<int>, second: Set<int>)
    requires
        is_top(curv, k, first),
        is_top(curv, k, second),
    ensures
        first == second,
{
    if !first.subset_of(second) {
        let a = choose|a: int| first.contains(a) && !second.contains(a);
        if second.subset_of(first) {
            lemma_subset_equality(second, first);
            assert(second.contains(a));
        } else {
            let b = choose|b: int| second.contains(b) && !first.contains(b);
            assert(outranks(curv, a, b));
            assert(outranks(curv, b, a));
        }
    } else {
        lemma_subset_equality(first, second);
    }
    assert(first =~= second);
}

/// The sectors of a lap are determined: what `is_sectors` holds of is one
/// sequence only.
pub proof fn lemma_sectors_are_determined(
    first: Seq<Sector>,
    second: Seq<Sector>,
    points: Seq<TelemetryPoint>,
    curv: Seq<u64>,
    n: int,
)
    requires
        is_sectors(first, points, curv, n),
        is_sectors(second, points, curv, n),
    ensures
        first == second,
{
    if points.len() == 0 || n == 0 {
        assert(first =~= second);
    } else {
        let c1 = choose|chosen: Set<int>|
            #![trigger is_top(curv, n - 1, chosen)]
            is_top(curv, n - 1, chosen) && first == sectors_between(
                boundaries(points, chosen, curv.len() as int),
            );
        let c2 = choose|chosen: Set<int>|
            #![trigger is_top(curv, n - 1, chosen)]
            is_top(curv, n - 1, chosen) && second == sectors_between(
                boundaries(points, chosen, curv.len() as int),
            );
        lemma_top_is_unique(curv, n - 1, c1, c2);
    }
}

/// Among `m` indices of which fewer than `m` are chosen, one is not.
proof fn lemma_one_is_left(chosen: Set<int>, m: int)
    requires
        chosen.finite(),
        chosen.len() < m,
    ensures
        exists|i: int| 0 <= i < m && !chosen.contains(i),
{
    if forall|i: int| 0 <= i < m ==> chosen.contains(i) {
        lemma_int_range(0, m);
        assert(set_int_range(0, m).subset_of(chosen));
        lemma_len_subset(set_int_range(0, m), chosen);
    }
}

/// Finds the index that outranks all others among those not yet taken.
fn best_left(curv: &[u64], mask: &Vec<bool>, Ghost(chosen): Ghost<Set<int>>) -> (best: usize)
    requires
        mask@.len() == curv@.len(),
        chosen.finite(),
        chosen.len() < curv@.len(),
        forall|i: int| 0 <= i < mask@.len() ==> mask@[i] == chosen.contains(i),
    ensures
        best < curv@.len(),
        !chosen.contains(best as int),
        forall|b: int|
            0 <= b < curv@.len() && !chosen.contains(b) && b != best ==> outranks(
                curv@,
                best as int,
                b,
            ),
{
    let m: usize = curv.len();
    let mut best: usize = 0;
    let mut found: bool = false;
    let mut j: usize = 0;
    while j < m
        invariant
            0 <= j <= m,
            m == curv@.len(),
            mask@.len() == m,
            forall|i: int| 0 <= i < m ==> mask@[i] == chosen.contains(i),
            found ==> best < j && !chosen.contains(best as int),
            found ==> forall|b: int|
                0 <= b < j && !chosen.contains(b) && b != best ==> outranks(curv@, best as int, b),
            !found ==> forall|b: int| 0 <= b < j ==> chosen.contains(b),
        decreases m - j,
    {
        if !mask[j] && (!found || curv[j] > curv[best]) {
            best = j;
            found = true;
        }
        j = j + 1;
    }
    proof {
        lemma_one_is_left(chosen, m as int);
    }
    best
}

/// The sectors of a lap under a curvature: cut at the `n - 1` points where the
/// curvature is highest. Of equal curvatures the earlier one counts as higher.
pub fn auto_sectors(lap: &Lap, curv: &[u64], n: usize) -> (sectors: Vec<Sector>)
    ensures
        is_sectors(sectors@, lap.points@, curv@, n as int),
{
    let mut sectors: Vec<Sector> = Vec::new();
    let len: usize = lap.points.len();
    if len == 0 || n == 0 {
        return sectors;
    }
    let m: usize = curv.len();
    let k: usize = if n - 1 < m {
        n - 1
    } else {
        m
    };
    let mut mask: Vec<bool> = Vec::new();
    let mut i: usize = 0;
    while i < m
        invariant
            0 <= i <= m,
            mask@.len() == i,
            forall|j: int| 0 <= j < i ==> !mask@[j],
        decreases m - i,
    {
        mask.push(false);
        i = i + 1;
    }
    let ghost mut chosen: Set<int> = Set::empty();
    let mut round: usize = 0;
    while round < k
        invariant
            0 <= round <= k <= m,
            m == curv@.len(),
            mask@.len() == m,
            chosen.finite(),
            chosen.len() == round,
            forall|i: int| chosen.contains(i) ==> 0 <= i < m,
            forall|i: int| 0 <= i < m ==> mask@[i] == chosen.contains(i),
            forall|a: int, b: int|
                chosen.contains(a) && 0 <= b < m && !chosen.contains(b) ==> outranks(curv@, a, b),
        decreases k - round,
    {
        let best: usize = best_left(curv, &mask, Ghost(chosen));
        mask.set(best, true);
        proof {
            chosen = chosen.insert(best as int);
        }
        round = round + 1;
    }
    assert(is_top(curv@, n - 1, chosen));
    let mut ds: Vec<i32> = Vec::new();
    ds.push(lap.points[0].lap_distance_m);
    i = 0;
    while i < m
        invariant
            0 <= i <= m,
            m == curv@.len(),
            mask@.len() == m,
            len == lap.points@.len(),
            len > 0,
            forall|j: int| 0 <= j < m ==> mask@[j] == chosen.contains(j),
            ds@ == seq![lap.points@[0].lap_distance_m] + cut_distances(
                lap.points@,
                chosen,
                i as int,
            ),
        decreases m - i,
    {
        if mask[i] && i < len {
            ds.push(lap.points[i].lap_distance_m);
        }
        i = i + 1;
    }
    ds.push(lap.points[len - 1].lap_distance_m);
    assert(ds@ == boundaries(lap.points@, chosen, m as int));
    let count: usize = ds.len() - 1;
    i = 0;
    while i < count
        invariant
            0 <= i <= count,
            count == ds@.len() - 1,
            sectors@.len() == i,
            forall|j: int|
                0 <= j < i ==> #[trigger] sectors@[j] == (Sector {
                    start_m: ds@[j],
                    end_m: ds@[j + 1],
                }),
        decreases count - i,
    {
        sectors.push(Sector { start_m: ds[i], end_m: ds[i + 1] });
        i = i + 1;
    }
    assert(sectors@ =~= sectors_between(ds@));
    sectors
}

/// `map` is the track map of `lap`: the outline follows the points of the lap,
/// the box is the smallest around the outline, each peak of the curvature is a
/// corner, numbered from one, and the sectors are cut at the two points of
/// highest curvature.
pub open spec fn is_track_map_of(map: TrackMap, lap: Lap) -> bool {
    &&& map.polyline@ == polyline_of(lap.points@)
    &&& map.bbox == bbox_seq(map.polyline@)
    &&& map.corners@ == corner_labels(lap.points@)
    &&& is_sectors(map.sectors@, lap.points@, curvature_seq(lap.points@), SECTOR_COUNT as int)
}

/// Builds the track map of a lap.
pub fn build_track_map(lap: &Lap) -> (map: TrackMap)
    ensures
        is_track_map_of(map, *lap),
{
    let n: usize = lap.points.len();
    let mut pl: Vec<Point2> = Vec::new();
    let mut i: usize = 0;
    while i < n
        invariant
            0 <= i <= n,
            n == lap.points@.len(),
            pl@.len() == i,
            forall|j: int|
                0 <= j < i ==> #[trigger] pl@[j] == (Point2 {
                    x: lap.points@[j].x,
                    y: lap.points@[j].y,
                }),
        decreases n - i,
    {
        pl.push(Point2 { x: lap.points[i].x, y: lap.points[i].y });
        i = i + 1;
    }
    assert(pl@ =~= polyline_of(lap.points@));
    let bbox = bbox_of(pl.as_slice());
    let curv: Vec<u64> = curvature_series(lap.points.as_slice());
    let peaks: Vec<usize> = peak_indices(curv.as_slice(), PEAK_WINDOW, PEAK_THRESHOLD);
    proof {
        lemma_peaks_below(curv@, PEAK_WINDOW as int, PEAK_THRESHOLD, curv@.len() as int);
    }
    let count: usize = peaks.len();
    let mut corners: Vec<CornerLabel> = Vec::new();
    i = 0;
    while i < count
        invariant
            0 <= i <= count,
            count == peaks@.len(),
            n == lap.points@.len(),
            peaks@ == corner_points(lap.points@),
            forall|j: int| 0 <= j < count ==> #[trigger] peaks@[j] < n,
            corners@.len() == i,
            forall|j: int|
                0 <= j < i ==> #[trigger] corners@[j] == corner_labels(lap.points@)[j],
        decreases count - i,
    {
        let idx: usize = peaks[i];
        corners.push(
            CornerLabel { index: ordinal_of(i), x: lap.points[idx].x, y: lap.points[idx].y },
        );
        i = i + 1;
    }
    assert(corners@ =~= corner_labels(lap.points@));
    let sectors = auto_sectors(lap, curv.as_slice(), SECTOR_COUNT);
    TrackMap { polyline: pl, corners, sectors, bbox }
}

/// Lap distance never falls from one point to the next.
pub open spec fn distance_never_falls(points: Seq<TelemetryPoint>) -> bool {
    forall|a: int, b: int|
        0 <= a <= b < points.len() ==> (#[trigger] points[a]).lap_distance_m <= (
        #[trigger] points[b]).lap_distance_m
}

/// The sequence is in ascending order; equal neighbours are allowed.
pub open spec fn ascending(ds: Seq<i32>) -> bool {
    forall|j: int, k: int| 0 <= j <= k < ds.len() ==> ds[j] <= ds[k]
}

/// Where lap distance never falls, the cut distances are in ascending order and
/// lie between the distance of the first point and that of the last.
pub proof fn lemma_cuts_ascend(points: Seq<TelemetryPoint>, chosen: Set<int>, upto: int)
    requires
        points.len() > 0,
        distance_never_falls(points),
    ensures
        ascending(cut_distances(points, chosen, upto)),
        forall|j: int|
            0 <= j < cut_distances(points, chosen, upto).len() ==> {
                let d = #[trigger] cut_distances(points, chosen, upto)[j];
                &&& points[0].lap_distance_m <= d <= points.last().lap_distance_m
                &&& upto <= points.len() ==> d <= points[upto - 1].lap_distance_m
            },
        cut_distances(points, chosen, upto).len() > 0 ==> upto > 0,
    decreases upto,
{
    if upto > 0 {
        lemma_cuts_ascend(points, chosen, upto - 1);
        let rest = cut_distances(points, chosen, upto - 1);
        let all = cut_distances(points, chosen, upto);
        assert forall|j: int| 0 <= j < all.len() implies {
            let d = #[trigger] all[j];
            &&& points[0].lap_distance_m <= d <= points.last().lap_distance_m
            &&& upto <= points.len() ==> d <= points[upto - 1].lap_distance_m
        } by {
            if j < rest.len() {
                assert(all[j] == rest[j]);
                if upto <= points.len() {
                    assert(upto - 1 > 0);
                    assert(points[upto - 2].lap_distance_m <= points[upto - 1].lap_distance_m);
                }
            }
        }
        assert forall|j: int, k: int| 0 <= j <= k < all.len() implies all[j] <= all[k] by {
            if k < rest.len() {
                assert(all[j] == rest[j] && all[k] == rest[k]);
            } else if j < rest.len() {
                assert(all[j] == rest[j]);
            }
        }
    }
}

/// What holds of every track map. The outline has a point for each point of
/// the lap, and the box holds every point of the outline. Corner `i`, counted
/// from zero, carries the number `i + 1`, as long as that fits in 32 bits,
/// which it does for a lap of fewer than 2^32 points. Each sector begins where
/// the one before it ends. The sectors of a lap with points begin at the
/// distance of its first point and end at that of its last. Where lap distance
/// never falls along the lap, no sector ends before it begins, so that no two
/// sectors overlap.
pub proof fn lemma_track_map_laws(map: TrackMap, lap: Lap)
    requires
        is_track_map_of(map, lap),
        lap.points@.len() <= usize::MAX,
    ensures
        map.polyline@.len() == lap.points@.len(),
        forall|i: int|
            0 <= i < map.polyline@.len() ==> covers(map.bbox, #[trigger] map.polyline@[i]),
        map.corners@.len() <= lap.points@.len(),
        forall|i: int|
            0 <= i < map.corners@.len() && i < u32::MAX ==> (#[trigger] map.corners@[i]).index == i
                + 1,
        forall|j: int|
            0 <= j < map.sectors@.len() - 1 ==> (#[trigger] map.sectors@[j]).end_m
                == map.sectors@[j + 1].start_m,
        lap.points@.len() > 0 ==> map.sectors@.len() > 0 && map.sectors@[0].start_m
            == lap.points@[0].lap_distance_m && map.sectors@.last().end_m
            == lap.points@.last().lap_distance_m,
        lap.points@.len() == 0 ==> map.sectors@.len() == 0,
        distance_never_falls(lap.points@) ==> forall|j: int|
            0 <= j < map.sectors@.len() ==> (#[trigger] map.sectors@[j]).start_m
                <= map.sectors@[j].end_m,
        distance_never_falls(lap.points@) ==> forall|j: int, k: int|
            0 <= j < k < map.sectors@.len() ==> (#[trigger] map.sectors@[j]).end_m <= (
            #[trigger] map.sectors@[k]).start_m,
{
    let points = lap.points@;
    let curv = curvature_seq(points);
    lemma_bbox_covers(map.polyline@);
    lemma_peaks_below(curv, PEAK_WINDOW as int, PEAK_THRESHOLD, curv.len() as int);
    if points.len() > 0 {
        let chosen = choose|chosen: Set<int>|
            #![trigger is_top(curv, SECTOR_COUNT - 1, chosen)]
            is_top(curv, SECTOR_COUNT - 1, chosen) && map.sectors@ == sectors_between(
                boundaries(points, chosen, curv.len() as int),
            );
        let ds = boundaries(points, chosen, curv.len() as int);
        let cuts = cut_distances(points, chosen, curv.len() as int);
        assert(ds[0] == points[0].lap_distance_m);
        assert(ds[ds.len() - 1] == points.last().lap_distance_m);
        if distance_never_falls(points) {
            lemma_cuts_ascend(points, chosen, curv.len() as int);
            assert(points[0].lap_distance_m <= points[points.len() - 1].lap_distance_m);
            assert forall|j: int, k: int| 0 <= j <= k < ds.len() implies ds[j] <= ds[k] by {
                if 0 < j && j <= cuts.len() {
                    assert(ds[j] == cuts[j - 1]);
                }
                if 0 < k && k <= cuts.len() {
                    assert(ds[k] == cuts[k - 1]);
                }
            }
        }
    }
}

} // verus!
