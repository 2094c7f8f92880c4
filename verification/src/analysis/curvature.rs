//! How sharply a lap turns at each of its points, and where it turns sharpest.
//!
//! Curvature is held in millionths of one per metre.

use vstd::prelude::*;
use vstd::arithmetic::mul::lemma_mul_upper_bound;
use crate::math::{dist, dist_i32};
use crate::model::TelemetryPoint;

verus! {

/// Twice the area of the triangle of three points, in square millimetres,
/// becomes a curvature in millionths per metre by this factor over the product
/// of the three sides in millimetres.
pub const CURVATURE_FACTOR: u128 = 1_000_000_000;

/// The product of the sides counts as this at least: a millionth of a cubic
/// metre, in cubic millimetres.
pub const MIN_SIDES_PRODUCT: u128 = 1000;

/// Half the width of the window in which a peak is the maximum.
pub const PEAK_WINDOW: usize = 12;

/// The curvature that a peak has at least: 0.03 per metre.
pub const PEAK_THRESHOLD: u64 = 30_000;

/// The absolute value of the cross product of the steps from `before` to `at` and
/// from `at` to `after`.
pub open spec fn cross_abs(
    before: TelemetryPoint,
    at: TelemetryPoint,
    after: TelemetryPoint,
) -> int {
    let c = (at.x - before.x) * (after.y - at.y) - (at.y - before.y) * (after.x - at.x);
    if c < 0 {
        -c
    } else {
        c
    }
}

/// The product of the lengths of the two steps and of their sum, each length
/// rounded down, and `MIN_SIDES_PRODUCT` at least.
pub open spec fn sides_product(
    before: TelemetryPoint,
    at: TelemetryPoint,
    after: TelemetryPoint,
) -> int {
    let a = dist(before.x as int, before.y as int, at.x as int, at.y as int);
    let b = dist(at.x as int, at.y as int, after.x as int, after.y as int);
    let c = dist(before.x as int, before.y as int, after.x as int, after.y as int);
    if a * b * c < MIN_SIDES_PRODUCT {
        MIN_SIDES_PRODUCT as int
    } else {
        a * b * c
    }
}

/// The curvature at the middle one of three points, rounded down and saturated.
pub open spec fn curvature_of(
    before: TelemetryPoint,
    at: TelemetryPoint,
    after: TelemetryPoint,
) -> u64 {
    let c = cross_abs(before, at, after) * CURVATURE_FACTOR / sides_product(before, at, after);
    if c > u64::MAX {
        u64::MAX
    } else {
        c as u64
    }
}

/// The curvature at point `i` before smoothing: zero at the first and the last
/// point.
pub open spec fn raw_curvature(points: Seq<TelemetryPoint>, i: int) -> u64 {
    if 0 < i < points.len() - 1 {
        curvature_of(points[i - 1], points[i], points[i + 1])
    } else {
        0
    }
}

/// The sum of the raw curvature at the points `from..to`.
pub open spec fn raw_sum(points: Seq<TelemetryPoint>, from: int, to: int) -> int
    decreases to - from,
{
    if to <= from {
        0
    } else {
        raw_sum(points, from, to - 1) + raw_curvature(points, to - 1)
    }
}

/// The first point of the smoothing window around `i`.
pub open spec fn window_from(i: int) -> int {
    if i >= 2 {
        i - 2
    } else {
        0
    }
}

/// The end of the smoothing window around `i` of `n` points.
pub open spec fn window_to(n: int, i: int) -> int {
    if i + 3 <= n {
        i + 3
    } else {
        n
    }
}

/// The curvature at point `i`: the mean, rounded down, of the raw curvature at
/// the points from two before to two after it, as far as there are such.
pub open spec fn smoothed_curvature(points: Seq<TelemetryPoint>, i: int) -> u64 {
    let from = window_from(i);
    let to = window_to(points.len() as int, i);
    (raw_sum(points, from, to) / (to - from)) as u64
}

/// The curvature at every point of a lap.
pub open spec fn curvature_seq(points: Seq<TelemetryPoint>) -> Seq<u64> {
    Seq::new(points.len(), |i: int| smoothed_curvature(points, i))
}

/// Computes `cross_abs`.
fn cross_of(before: &TelemetryPoint, at: &TelemetryPoint, after: &TelemetryPoint) -> (r: u128)
    ensures
        r == cross_abs(*before, *at, *after),
        r <= 2 * (0xFFFF_FFFF * 0xFFFF_FFFF),
{
    let dx1: i128 = at.x as i128 - before.x as i128;
    let dy1: i128 = at.y as i128 - before.y as i128;
    let dx2: i128 = after.x as i128 - at.x as i128;
    let dy2: i128 = after.y as i128 - at.y as i128;
    assert(-(0xFFFF_FFFF * 0xFFFF_FFFF) <= dx1 * dy2 <= 0xFFFF_FFFF * 0xFFFF_FFFF)
        by (nonlinear_arith)
        requires
            -0xFFFF_FFFF <= dx1 <= 0xFFFF_FFFF,
            -0xFFFF_FFFF <= dy2 <= 0xFFFF_FFFF,
    ;
    assert(-(0xFFFF_FFFF * 0xFFFF_FFFF) <= dy1 * dx2 <= 0xFFFF_FFFF * 0xFFFF_FFFF)
        by (nonlinear_arith)
        requires
            -0xFFFF_FFFF <= dy1 <= 0xFFFF_FFFF,
            -0xFFFF_FFFF <= dx2 <= 0xFFFF_FFFF,
    ;
    let c: i128 = dx1 * dy2 - dy1 * dx2;
    if c < 0 {
        (-c) as u128
    } else {
        c as u128
    }
}

/// Computes `curvature_of`.
pub fn curvature_at(
    before: &TelemetryPoint,
    at: &TelemetryPoint,
    after: &TelemetryPoint,
) -> (r: u64)
    ensures
        r == curvature_of(*before, *at, *after),
{
    let cross: u128 = cross_of(before, at, after);
    let a: u128 = dist_i32(before.x, before.y, at.x, at.y) as u128;
    let b: u128 = dist_i32(at.x, at.y, after.x, after.y) as u128;
    let c: u128 = dist_i32(before.x, before.y, after.x, after.y) as u128;
    proof {
        let side = 0x2_0000_0000int;
        lemma_mul_upper_bound(a as int, side, b as int, side);
        lemma_mul_upper_bound(a * b, side * side, c as int, side);
        assert(side * side * side < u128::MAX);
    }
    let product: u128 = a * b * c;
    let den: u128 = if product < MIN_SIDES_PRODUCT {
        MIN_SIDES_PRODUCT
    } else {
        product
    };
    let q: u128 = cross * CURVATURE_FACTOR / den;
    if q > 0xFFFF_FFFF_FFFF_FFFF {
        u64::MAX
    } else {
        q as u64
    }
}

/// The sum of fewer than six raw curvatures stays small.
pub proof fn lemma_raw_sum_bound(points: Seq<TelemetryPoint>, from: int, to: int)
    requires
        from <= to,
    ensures
        0 <= raw_sum(points, from, to) <= (to - from) * u64::MAX,
    decreases to - from,
{
    if from < to {
        lemma_raw_sum_bound(points, from, to - 1);
        assert((to - 1 - from) * u64::MAX + u64::MAX == (to - from) * u64::MAX)
            by (nonlinear_arith);
    }
}

/// The curvature at every point of a lap: the cross product of the steps into
/// and out of the point over the product of their lengths and the length of
/// their sum, smoothed over five points.
pub fn curvature_series(points: &[TelemetryPoint]) -> (s: Vec<u64>)
    ensures
        s@ == curvature_seq(points@),
{
    let n: usize = points.len();
    let mut raw: Vec<u64> = Vec::new();
    let mut i: usize = 0;
    while i < n
        invariant
            0 <= i <= n,
            n == points@.len(),
            raw@.len() == i,
            forall|j: int| 0 <= j < i ==> #[trigger] raw@[j] == raw_curvature(points@, j),
        decreases n - i,
    {
        if 0 < i && i < n - 1 {
            raw.push(curvature_at(&points[i - 1], &points[i], &points[i + 1]));
        } else {
            raw.push(0);
        }
        i = i + 1;
    }
    let mut s: Vec<u64> = Vec::new();
    i = 0;
    while i < n
        invariant
            0 <= i <= n,
            n == points@.len(),
            raw@.len() == n,
            forall|j: int| 0 <= j < n ==> #[trigger] raw@[j] == raw_curvature(points@, j),
            s@.len() == i,
            forall|j: int| 0 <= j < i ==> #[trigger] s@[j] == smoothed_curvature(points@, j),
        decreases n - i,
    {
        let from: usize = if i >= 2 {
            i - 2
        } else {
            0
        };
        let to: usize = if n - i >= 3 {
            i + 3
        } else {
            n
        };
        let mut sum: u128 = 0;
        let mut k: usize = from;
        while k < to
            invariant
                from <= k <= to <= n,
                to - from <= 5,
                n == points@.len(),
                raw@.len() == n,
                forall|j: int| 0 <= j < n ==> #[trigger] raw@[j] == raw_curvature(points@, j),
                sum == raw_sum(points@, from as int, k as int),
                sum <= (k - from) * u64::MAX,
            decreases to - k,
        {
            proof {
                lemma_raw_sum_bound(points@, from as int, k + 1);
            }
            sum = sum + raw[k] as u128;
            k = k + 1;
        }
        let count: u128 = (to - from) as u128;
        let mean: u128 = sum / count;
        proof {
            assert(mean <= u64::MAX) by (nonlinear_arith)
                requires
                    mean == sum / count,
                    count > 0,
                    sum <= count * u64::MAX,
            ;
        }
        s.push(mean as u64);
        i = i + 1;
    }
    assert(s@ =~= curvature_seq(points@));
    s
}

/// `i` is a peak of `curv`: it lies `window` points or more from both ends, its
/// value is `threshold` at least, and no value from `window` points before it
/// up to, but not with, `window` points after it is greater. Of equal values
/// side by side each one is a peak. An empty window, or one that more than half
/// of the values would fit in, leaves no peaks.
pub open spec fn is_peak(curv: Seq<u64>, window: int, threshold: u64, i: int) -> bool {
    &&& window > 0
    &&& curv.len() > 2 * window
    &&& window <= i < curv.len() - window
    &&& curv[i] >= threshold
    &&& forall|k: int| i - window <= k < i + window ==> #[trigger] curv[k] <= curv[i]
}

/// The peaks among the first `upto` indices, in ascending order.
pub open spec fn peaks_below(curv: Seq<u64>, window: int, threshold: u64, upto: int) -> Seq<usize>
    decreases upto,
{
    if upto <= 0 {
        Seq::empty()
    } else {
        let rest = peaks_below(curv, window, threshold, upto - 1);
        if is_peak(curv, window, threshold, upto - 1) {
            rest.push((upto - 1) as usize)
        } else {
            rest
        }
    }
}

/// All peaks of `curv`, in ascending order.
pub open spec fn peaks_of(curv: Seq<u64>, window: int, threshold: u64) -> Seq<usize> {
    peaks_below(curv, window, threshold, curv.len() as int)
}

/// `peaks_below` lists exactly the peaks below `upto`, each once and in
/// ascending order.
pub proof fn lemma_peaks_below(curv: Seq<u64>, window: int, threshold: u64, upto: int)
    requires
        upto <= curv.len() <= usize::MAX,
    ensures
        peaks_below(curv, window, threshold, upto).len() <= if upto < 0 {
            0
        } else {
            upto
        },
        forall|j: int|
            0 <= j < peaks_below(curv, window, threshold, upto).len() ==> {
                let p = #[trigger] peaks_below(curv, window, threshold, upto)[j];
                p < upto && is_peak(curv, window, threshold, p as int)
            },
        forall|j: int, k: int|
            0 <= j < k < peaks_below(curv, window, threshold, upto).len() ==> peaks_below(
                curv,
                window,
                threshold,
                upto,
            )[j] < peaks_below(curv, window, threshold, upto)[k],
        forall|i: int|
            0 <= i < upto && is_peak(curv, window, threshold, i) ==> peaks_below(
                curv,
                window,
                threshold,
                upto,
            ).contains(i as usize),
    decreases upto,
{
    if upto > 0 {
        lemma_peaks_below(curv, window, threshold, upto - 1);
        let rest = peaks_below(curv, window, threshold, upto - 1);
        let all = peaks_below(curv, window, threshold, upto);
        assert forall|i: int|
            0 <= i < upto && is_peak(curv, window, threshold, i) implies all.contains(
            i as usize,
        ) by {
            if i == upto - 1 {
                assert(all[all.len() - 1] == i as usize);
            } else {
                assert(rest.contains(i as usize));
                let j = choose|j: int| 0 <= j < rest.len() && rest[j] == i as usize;
                assert(all[j] == i as usize);
            }
        }
    }
}

/// Decides whether the value at `i` is the greatest from `window` before it up
/// to, but not with, `window` after it.
fn is_window_max(curv: &[u64], window: usize, i: usize) -> (r: bool)
    requires
        0 < window <= i,
        i + window <= curv@.len(),
    ensures
        r == forall|k: int| i - window <= k < i + window ==> #[trigger] curv@[k] <= curv@[i as int],
{
    let len: usize = curv.len();
    let v: u64 = curv[i];
    let to: usize = i + window;
    let mut k: usize = i - window;
    while k < to
        invariant
            i - window <= k <= to,
            to == i + window,
            to <= curv@.len(),
            v == curv@[i as int],
            forall|j: int| i - window <= j < k ==> #[trigger] curv@[j] <= v,
        decreases to - k,
    {
        if curv[k] > v {
            return false;
        }
        k = k + 1;
    }
    true
}

/// The peaks of `curv` in ascending order.
pub fn peak_indices(curv: &[u64], window: usize, threshold: u64) -> (peaks: Vec<usize>)
    ensures
        peaks@ == peaks_of(curv@, window as int, threshold),
{
    let n: usize = curv.len();
    let mut peaks: Vec<usize> = Vec::new();
    let guarded: bool = window > 0 && window < n && n - window > window;
    let mut i: usize = 0;
    while i < n
        invariant
            0 <= i <= n,
            n == curv@.len(),
            guarded == (window > 0 && n > 2 * window),
            peaks@ == peaks_below(curv@, window as int, threshold, i as int),
        decreases n - i,
    {
        if guarded && window <= i && i < n - window && curv[i] >= threshold && is_window_max(
            curv,
            window,
            i,
        ) {
            peaks.push(i);
        }
        i = i + 1;
    }
    peaks
}

} // verus!
