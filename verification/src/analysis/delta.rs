//! How much time the other laps have lost or won on a reference lap, metre by
//! metre.

use vstd::prelude::*;
use vstd::arithmetic::div_mod::{lemma_fundamental_div_mod, lemma_fundamental_div_mod_converse};
use crate::analysis::nearest::{time_at, time_at_distance};
use crate::analysis::overlay::{row_count, GRID_STEP};
use crate::math::floor_div_mod;
use crate::model::Lap;

verus! {

/// One row of the delta ribbon. `delta_ms` is the mean, rounded down, of the
/// time that the other laps are behind the reference at `distance`, in
/// thousandths of a millisecond; it is zero if there are no other laps.
#[derive(Clone, Copy, Debug, PartialEq, Eq, Structural)]
pub struct DeltaRow {
    pub distance: i64,
    pub delta_ms: i128,
}

/// The laps that are compared with the reference: those with another identifier.
pub open spec fn peer_count(reference: Lap, laps: Seq<Lap>) -> int
    decreases laps.len(),
{
    if laps.len() == 0 {
        0
    } else {
        peer_count(reference, laps.drop_last()) + if laps.last().id != reference.id {
            1int
        } else {
            0int
        }
    }
}

/// The sum over the peers of the time that they are behind the reference at `d`.
pub open spec fn peer_delta_sum(reference: Lap, laps: Seq<Lap>, d: int) -> int
    decreases laps.len(),
{
    if laps.len() == 0 {
        0
    } else {
        peer_delta_sum(reference, laps.drop_last(), d) + if laps.last().id != reference.id {
            time_at(laps.last().points@, d) - time_at(reference.points@, d)
        } else {
            0
        }
    }
}

/// The mean time that the peers are behind the reference at `d`, rounded down;
/// zero without peers.
pub open spec fn delta_at(reference: Lap, laps: Seq<Lap>, d: int) -> int {
    if peer_count(reference, laps) > 0 {
        peer_delta_sum(reference, laps, d) / peer_count(reference, laps)
    } else {
        0
    }
}

/// A longer list of laps has no fewer peers.
pub proof fn lemma_peer_count_grows(reference: Lap, laps: Seq<Lap>, i: int)
    requires
        0 <= i <= laps.len(),
    ensures
        0 <= peer_count(reference, laps.take(i)) <= peer_count(reference, laps),
        peer_count(reference, laps) <= laps.len(),
    decreases laps.len(),
{
    if laps.len() > 0 {
        if i == laps.len() {
            assert(laps.take(i) =~= laps);
            lemma_peer_count_grows(reference, laps.drop_last(), i - 1);
        } else {
            assert(laps.drop_last().take(i) =~= laps.take(i));
            lemma_peer_count_grows(reference, laps.drop_last(), i);
        }
    } else {
        assert(laps.take(i) =~= laps);
    }
}

/// Counts the peers.
pub fn count_peers(reference: &Lap, laps: &[Lap]) -> (r: usize)
    ensures
        r == peer_count(*reference, laps@),
{
    let n: usize = laps.len();
    let mut count: usize = 0;
    let mut i: usize = 0;
    while i < n
        invariant
            0 <= i <= n,
            n == laps@.len(),
            count <= i,
            count == peer_count(*reference, laps@.take(i as int)),
        decreases n - i,
    {
        proof {
            assert(laps@.take(i + 1).drop_last() =~= laps@.take(i as int));
            assert(laps@.take(i + 1).last() == laps@[i as int]);
        }
        if laps[i].id != reference.id {
            count = count + 1;
        }
        i = i + 1;
    }
    proof {
        assert(laps@.take(n as int) =~= laps@);
    }
    count
}

/// A time into a lap is a difference of two `i64`.
pub open spec fn fits_elapsed(t: int) -> bool {
    -0x1_0000_0000_0000_0000 < t < 0x1_0000_0000_0000_0000
}

/// Computes `delta_at`.
pub fn delta_at_distance(reference: &Lap, laps: &[Lap], d: i64) -> (r: i128)
    ensures
        r == delta_at(*reference, laps@, d as int),
{
    let peers: usize = count_peers(reference, laps);
    if peers == 0 {
        return 0;
    }
    let divisor: i128 = peers as i128;
    let t_ref: i128 = time_at_distance(reference, d);
    let n: usize = laps.len();
    // The sum so far is `quotient * divisor + rest`.
    let mut quotient: i128 = 0;
    let mut rest: i128 = 0;
    let mut i: usize = 0;
    let ghost mut seen: int = 0;
    while i < n
        invariant
            0 <= i <= n,
            n == laps@.len(),
            divisor == peer_count(*reference, laps@),
            0 < divisor <= usize::MAX,
            t_ref == time_at(reference.points@, d as int),
            fits_elapsed(t_ref as int),
            seen == peer_count(*reference, laps@.take(i as int)),
            0 <= seen <= divisor,
            0 <= rest < divisor,
            quotient * divisor + rest == peer_delta_sum(*reference, laps@.take(i as int), d as int),
            -seen * 0x2_0000_0000_0000_0000 <= quotient * divisor + rest <= seen
                * 0x2_0000_0000_0000_0000,
        decreases n - i,
    {
        proof {
            assert(laps@.take(i + 1).drop_last() =~= laps@.take(i as int));
            assert(laps@.take(i + 1).last() == laps@[i as int]);
            lemma_peer_count_grows(*reference, laps@, i + 1);
        }
        if laps[i].id != reference.id {
            let diff: i128 = time_at_distance(&laps[i], d) - t_ref;
            let (q, r) = floor_div_mod(rest + diff, divisor);
            proof {
                let total = quotient * divisor + rest + diff;
                let bound = 0x2_0000_0000_0000_0000int;
                lemma_fundamental_div_mod((rest + diff) as int, divisor as int);
                assert(total == (quotient + q) * divisor + r) by (nonlinear_arith)
                    requires
                        total == quotient * divisor + rest + diff,
                        rest + diff == divisor * q + r,
                ;
                assert(-(seen + 1) * bound <= total <= (seen + 1) * bound) by (nonlinear_arith)
                    requires
                        -seen * bound <= total - diff <= seen * bound,
                        -bound < diff < bound,
                ;
                assert(-bound - 1 <= quotient + q <= bound) by (nonlinear_arith)
                    requires
                        -(seen + 1) * bound <= (quotient + q) * divisor + r <= (seen + 1) * bound,
                        0 <= r < divisor,
                        seen + 1 <= divisor,
                        bound > 0,
                ;
                seen = seen + 1;
            }
            quotient = quotient + q;
            rest = r;
        }
        i = i + 1;
    }
    proof {
        assert(laps@.take(n as int) =~= laps@);
        lemma_fundamental_div_mod_converse(
            peer_delta_sum(*reference, laps@, d as int),
            divisor as int,
            quotient as int,
            rest as int,
        );
    }
    quotient
}

/// The delta ribbon of `laps` against `reference`: for every whole metre from
/// zero up to the length of the reference a row, in ascending order and without
/// gaps. A reference whose last point has a negative distance gives no rows.
pub fn rolling_delta_vs_reference(reference: &Lap, laps: &[Lap]) -> (rows: Vec<DeltaRow>)
    ensures
        rows@.len() == row_count(reference@.last_distance() as int),
        forall|k: int|
            0 <= k < rows@.len() ==> #[trigger] rows@[k] == (DeltaRow {
                distance: (k * GRID_STEP) as i64,
                delta_ms: delta_at(*reference, laps@, k * GRID_STEP) as i128,
            }),
{
    let m: usize = reference.points.len();
    let max_len: i64 = if m > 0 {
        reference.points[m - 1].lap_distance_m as i64
    } else {
        0
    };
    let mut rows: Vec<DeltaRow> = Vec::new();
    let mut d: i64 = 0;
    while d <= max_len
        invariant
            max_len == reference@.last_distance(),
            0 <= d,
            max_len >= 0 ==> d <= max_len + GRID_STEP,
            d % GRID_STEP == 0,
            max_len >= 0 ==> rows@.len() == d / GRID_STEP,
            max_len < 0 ==> rows@.len() == 0,
            forall|k: int|
                0 <= k < rows@.len() ==> #[trigger] rows@[k] == (DeltaRow {
                    distance: (k * GRID_STEP) as i64,
                    delta_ms: delta_at(*reference, laps@, k * GRID_STEP) as i128,
                }),
        decreases max_len + GRID_STEP - d,
    {
        let delta: i128 = delta_at_distance(reference, laps, d);
        rows.push(DeltaRow { distance: d, delta_ms: delta });
        d = d + GRID_STEP;
    }
    rows
}

/// Against itself alone a reference has no delta: every row is zero. The same
/// holds of any list of laps that all carry the identifier of the reference.
pub proof fn lemma_delta_without_peers(reference: Lap, laps: Seq<Lap>, d: int)
    requires
        forall|i: int| 0 <= i < laps.len() ==> (#[trigger] laps[i]).id == reference.id,
    ensures
        peer_count(reference, laps) == 0,
        delta_at(reference, laps, d) == 0,
        delta_at(reference, seq![reference], d) == 0,
    decreases laps.len(),
{
    if laps.len() > 0 {
        assert forall|i: int| 0 <= i < laps.drop_last().len() implies (
        #[trigger] laps.drop_last()[i]).id == reference.id by {
            assert(laps.drop_last()[i] == laps[i]);
        }
        lemma_delta_without_peers(reference, laps.drop_last(), d);
    }
    let alone = seq![reference];
    assert(alone.drop_last().len() == 0);
    assert(peer_count(reference, alone.drop_last()) == 0);
    assert(alone.last() == reference);
    assert(peer_count(reference, alone) == 0);
}

} // verus!
