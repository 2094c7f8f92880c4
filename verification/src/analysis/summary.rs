//! Best, worst and mean lap time, and how even the laps are.

use vstd::prelude::*;
use vstd::arithmetic::div_mod::{lemma_fundamental_div_mod, lemma_fundamental_div_mod_converse};
use crate::math::{isqrt, isqrt_u128};
use crate::model::{elapsed_ms, span_ms, Lap, TelemetryPoint};

verus! {

/// The lap times of a set of laps in figures. `best_ms` and `worst_ms` are
/// whole milliseconds, `avg_ms` is in thousandths of a millisecond, and
/// `consistency` in thousandths of a second. All are zero for no laps.
#[derive(Clone, Copy, Debug, PartialEq, Eq, Structural)]
pub struct LapStats {
    pub best_ms: u64,
    pub worst_ms: u64,
    pub avg_ms: u128,
    pub consistency: u64,
}

/// Where third `i` of `n` points begins and ends. Each of the first two thirds
/// runs over `n / 3` steps, from point `i * (n / 3)` to point `(i + 1) * (n / 3)`;
/// the last third runs from there to the last point.
pub open spec fn third_bounds(n: int, i: int) -> (int, int) {
    let s = n / 3;
    (
        i * s,
        if i == 2 {
            n - 1
        } else {
            (i + 1) * s
        },
    )
}

/// The whole milliseconds that third `i` of a lap takes; zero in a lap without
/// points, and zero where time runs backwards.
pub open spec fn third_time(points: Seq<TelemetryPoint>, i: int) -> u64 {
    if points.len() == 0 {
        0
    } else {
        let (a, b) = third_bounds(points.len() as int, i);
        span_ms(points[a].t_ms, points[b].t_ms)
    }
}

/// The times of the three thirds of a lap.
pub open spec fn thirds_of(points: Seq<TelemetryPoint>) -> Seq<u64> {
    seq![third_time(points, 0), third_time(points, 1), third_time(points, 2)]
}

/// Splits a lap into three thirds by its points and returns the time of each in
/// whole milliseconds.
pub fn thirds(l: &Lap) -> (v: Vec<u64>)
    ensures
        v@ == thirds_of(l.points@),
{
    let n: usize = l.points.len();
    let mut v: Vec<u64> = Vec::new();
    if n == 0 {
        v.push(0);
        v.push(0);
        v.push(0);
        assert(v@ =~= thirds_of(l.points@));
        return v;
    }
    let s: usize = n / 3;
    v.push(elapsed_ms(l.points[0].t_ms, l.points[s].t_ms));
    v.push(elapsed_ms(l.points[s].t_ms, l.points[2 * s].t_ms));
    v.push(elapsed_ms(l.points[2 * s].t_ms, l.points[n - 1].t_ms));
    assert(v@ =~= thirds_of(l.points@));
    v
}

/// The sum of the values.
pub open spec fn sum_of(v: Seq<u64>) -> int
    decreases v.len(),
{
    if v.len() == 0 {
        0
    } else {
        sum_of(v.drop_last()) + v.last()
    }
}

/// The sum of the squares of the distances of the values from `m`.
pub open spec fn sq_dev_sum(v: Seq<u64>, m: int) -> int
    decreases v.len(),
{
    if v.len() == 0 {
        0
    } else {
        sq_dev_sum(v.drop_last(), m) + (v.last() - m) * (v.last() - m)
    }
}

/// The mean of the values, rounded down.
pub open spec fn mean_of(v: Seq<u64>) -> int {
    sum_of(v) / (v.len() as int)
}

/// The mean square of the distances of the values from their mean, rounded
/// down.
pub open spec fn variance_of(v: Seq<u64>) -> int {
    sq_dev_sum(v, mean_of(v)) / (v.len() as int)
}

/// The population standard deviation of the values, rounded down; zero for no
/// values.
pub open spec fn std_dev(v: Seq<u64>) -> int {
    if v.len() == 0 {
        0
    } else {
        isqrt(variance_of(v))
    }
}

/// The sum of `v` is at most its length times the greatest `u64`.
pub proof fn lemma_sum_bound(v: Seq<u64>)
    ensures
        0 <= sum_of(v) <= v.len() * u64::MAX,
    decreases v.len(),
{
    if v.len() > 0 {
        lemma_sum_bound(v.drop_last());
        assert((v.len() - 1) * u64::MAX + u64::MAX == v.len() * u64::MAX) by (nonlinear_arith);
    }
}

/// Computes the sum of the values.
pub fn sum_u64(v: &[u64]) -> (r: u128)
    ensures
        r == sum_of(v@),
{
    let n: usize = v.len();
    let mut sum: u128 = 0;
    let mut i: usize = 0;
    while i < n
        invariant
            0 <= i <= n,
            n == v@.len(),
            sum == sum_of(v@.take(i as int)),
        decreases n - i,
    {
        proof {
            assert(v@.take(i + 1).drop_last() =~= v@.take(i as int));
            assert(v@.take(i + 1).last() == v@[i as int]);
            lemma_sum_bound(v@.take(i + 1));
            assert((i + 1) * u64::MAX <= usize::MAX * u64::MAX) by (nonlinear_arith)
                requires
                    i + 1 <= usize::MAX,
            ;
            assert(usize::MAX * u64::MAX <= u64::MAX * u64::MAX) by (nonlinear_arith)
                requires
                    usize::MAX <= u64::MAX,
            ;
        }
        sum = sum + v[i] as u128;
        i = i + 1;
    }
    proof {
        assert(v@.take(n as int) =~= v@);
    }
    sum
}

/// The standard deviation of the values, in their own unit and rounded down: the
/// root of the mean square distance from the mean, where the mean and the mean
/// square are rounded down as well.
pub fn stddev(v: &[u64]) -> (r: u64)
    ensures
        r == std_dev(v@),
{
    let n: usize = v.len();
    if n == 0 {
        return 0;
    }
    let divisor: u128 = n as u128;
    let sum: u128 = sum_u64(v);
    let mean: u128 = sum / divisor;
    proof {
        lemma_sum_bound(v@);
        assert(mean <= u64::MAX) by (nonlinear_arith)
            requires
                mean == sum / divisor,
                divisor > 0,
                sum <= divisor * u64::MAX,
        ;
    }
    // The sum of squares so far is `quotient * divisor + rest`.
    let mut quotient: u128 = 0;
    let mut rest: u128 = 0;
    let mut i: usize = 0;
    let ghost top: int = u64::MAX * u64::MAX;
    while i < n
        invariant
            0 <= i <= n,
            n == v@.len(),
            divisor == n,
            0 < divisor <= u64::MAX,
            mean == mean_of(v@),
            mean <= u64::MAX,
            top == u64::MAX * u64::MAX,
            0 <= rest < divisor,
            quotient * divisor + rest == sq_dev_sum(v@.take(i as int), mean as int),
            quotient * divisor + rest <= i * top,
        decreases n - i,
    {
        proof {
            assert(v@.take(i + 1).drop_last() =~= v@.take(i as int));
            assert(v@.take(i + 1).last() == v@[i as int]);
        }
        let x: u128 = v[i] as u128;
        let dev: u128 = if x >= mean {
            x - mean
        } else {
            mean - x
        };
        assert(dev * dev <= top && dev * dev == (x - mean) * (x - mean)) by (nonlinear_arith)
            requires
                dev == x - mean || dev == mean - x,
                0 <= dev <= u64::MAX,
                top == u64::MAX * u64::MAX,
        ;
        let square: u128 = dev * dev;
        let q: u128 = (rest + square) / divisor;
        let r: u128 = (rest + square) % divisor;
        proof {
            let total = quotient * divisor + rest + square;
            lemma_fundamental_div_mod((rest + square) as int, divisor as int);
            assert(total == (quotient + q) * divisor + r) by (nonlinear_arith)
                requires
                    total == quotient * divisor + rest + square,
                    rest + square == divisor * q + r,
            ;
            assert(total <= (i + 1) * top) by (nonlinear_arith)
                requires
                    total - square <= i * top,
                    square <= top,
            ;
            assert(quotient + q <= top) by (nonlinear_arith)
                requires
                    (quotient + q) * divisor + r <= (i + 1) * top,
                    0 <= r,
                    i + 1 <= divisor,
                    top >= 0,
                    quotient + q >= 0,
            ;
        }
        quotient = quotient + q;
        rest = r;
        i = i + 1;
    }
    proof {
        assert(v@.take(n as int) =~= v@);
        lemma_fundamental_div_mod_converse(
            sq_dev_sum(v@, mean as int),
            divisor as int,
            quotient as int,
            rest as int,
        );
    }
    isqrt_u128(quotient)
}

/// The thirds of all laps, lap after lap.
pub open spec fn all_thirds(laps: Seq<Lap>) -> Seq<u64>
    decreases laps.len(),
{
    if laps.len() == 0 {
        Seq::empty()
    } else {
        all_thirds(laps.drop_last()) + thirds_of(laps.last().points@)
    }
}

/// The sum of the lap times.
pub open spec fn total_time_sum(laps: Seq<Lap>) -> int
    decreases laps.len(),
{
    if laps.len() == 0 {
        0
    } else {
        total_time_sum(laps.drop_last()) + laps.last().total_time_ms
    }
}

/// `best` is the shortest lap time, or zero for no laps.
pub open spec fn is_best_time(laps: Seq<Lap>, best: u64) -> bool {
    if laps.len() == 0 {
        best == 0
    } else {
        &&& exists|i: int| 0 <= i < laps.len() && (#[trigger] laps[i]).total_time_ms == best
        &&& forall|i: int| 0 <= i < laps.len() ==> best <= (#[trigger] laps[i]).total_time_ms
    }
}

/// `worst` is the longest lap time, or zero for no laps.
pub open spec fn is_worst_time(laps: Seq<Lap>, worst: u64) -> bool {
    if laps.len() == 0 {
        worst == 0
    } else {
        &&& exists|i: int| 0 <= i < laps.len() && (#[trigger] laps[i]).total_time_ms == worst
        &&& forall|i: int| 0 <= i < laps.len() ==> worst >= (#[trigger] laps[i]).total_time_ms
    }
}

/// The mean lap time in thousandths of a millisecond, rounded down; zero for
/// no laps.
pub open spec fn mean_time(laps: Seq<Lap>) -> int {
    if laps.len() == 0 {
        0
    } else {
        total_time_sum(laps) * 1000 / (laps.len() as int)
    }
}

/// The sum of the lap times is at most their number times the greatest `u64`.
pub proof fn lemma_total_time_bound(laps: Seq<Lap>)
    ensures
        0 <= total_time_sum(laps) <= laps.len() * u64::MAX,
    decreases laps.len(),
{
    if laps.len() > 0 {
        lemma_total_time_bound(laps.drop_last());
        assert((laps.len() - 1) * u64::MAX + u64::MAX == laps.len() * u64::MAX)
            by (nonlinear_arith);
    }
}

/// Best, worst and mean of the lap times `total_time_ms`, and as `consistency`
/// the standard deviation of the times of the thirds of all laps.
pub fn lap_summary(laps: &[Lap]) -> (r: LapStats)
    ensures
        is_best_time(laps@, r.best_ms),
        is_worst_time(laps@, r.worst_ms),
        r.avg_ms == mean_time(laps@),
        r.consistency == std_dev(all_thirds(laps@)),
{
    let n: usize = laps.len();
    let mut sector_times: Vec<u64> = Vec::new();
    if n == 0 {
        return LapStats { best_ms: 0, worst_ms: 0, avg_ms: 0, consistency: 0 };
    }
    let mut best: u64 = laps[0].total_time_ms;
    let mut worst: u64 = laps[0].total_time_ms;
    let mut sum: u128 = 0;
    let mut i: usize = 0;
    let ghost mut best_at: int = 0;
    let ghost mut worst_at: int = 0;
    while i < n
        invariant
            0 <= i <= n,
            0 < n == laps@.len(),
            0 <= best_at < n,
            0 <= worst_at < n,
            laps@[best_at].total_time_ms == best,
            laps@[worst_at].total_time_ms == worst,
            forall|j: int| 0 <= j < i ==> best <= (#[trigger] laps@[j]).total_time_ms,
            forall|j: int| 0 <= j < i ==> worst >= (#[trigger] laps@[j]).total_time_ms,
            sum == total_time_sum(laps@.take(i as int)),
            sector_times@ == all_thirds(laps@.take(i as int)),
        decreases n - i,
    {
        proof {
            assert(laps@.take(i + 1).drop_last() =~= laps@.take(i as int));
            assert(laps@.take(i + 1).last() == laps@[i as int]);
            lemma_total_time_bound(laps@.take(i + 1));
            assert((i + 1) * u64::MAX <= usize::MAX * u64::MAX) by (nonlinear_arith)
                requires
                    i + 1 <= usize::MAX,
            ;
            assert(usize::MAX * u64::MAX <= u64::MAX * u64::MAX) by (nonlinear_arith)
                requires
                    usize::MAX <= u64::MAX,
            ;
        }
        let t: u64 = laps[i].total_time_ms;
        if t < best {
            best = t;
            proof {
                best_at = i as int;
            }
        }
        if t > worst {
            worst = t;
            proof {
                worst_at = i as int;
            }
        }
        sum = sum + t as u128;
        let three: Vec<u64> = thirds(&laps[i]);
        sector_times.push(three[0]);
        sector_times.push(three[1]);
        sector_times.push(three[2]);
        assert(sector_times@ =~= all_thirds(laps@.take(i as int)) + thirds_of(
            laps@[i as int].points@,
        ));
        i = i + 1;
    }
    proof {
        assert(laps@.take(n as int) =~= laps@);
        lemma_total_time_bound(laps@);
    }
    let divisor: u128 = n as u128;
    let whole: u128 = sum / divisor;
    let rest: u128 = sum % divisor;
    let part: u128 = rest * 1000 / divisor;
    proof {
        assert(whole <= u64::MAX) by (nonlinear_arith)
            requires
                whole == sum / divisor,
                divisor > 0,
                sum <= divisor * u64::MAX,
        ;
        lemma_fundamental_div_mod(sum as int, divisor as int);
        lemma_fundamental_div_mod(rest * 1000, divisor as int);
        let carried = (rest * 1000) % (divisor as int);
        assert(sum * 1000 == (whole * 1000 + part) * divisor + carried) by (nonlinear_arith)
            requires
                sum == divisor * whole + rest,
                rest * 1000 == divisor * part + carried,
        ;
        lemma_fundamental_div_mod_converse(
            sum * 1000,
            divisor as int,
            whole * 1000 + part,
            carried,
        );
    }
    LapStats {
        best_ms: best,
        worst_ms: worst,
        avg_ms: whole * 1000 + part,
        consistency: stddev(sector_times.as_slice()),
    }
}

} // verus!
