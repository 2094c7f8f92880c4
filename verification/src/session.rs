//! Cutting a stream of samples into laps.
//!
//! A `LapBuilder` holds the lap that is being recorded for one source. Each
//! sample becomes a point of that lap. The lap is closed when the game reports
//! a higher lap number than with the sample before, or, for games that report
//! none, when the car is back near the place where it first moved. `Inner` keeps
//! one builder per source key and the store of closed laps.

use std::collections::HashMap;
use uuid::Uuid;
use vstd::prelude::*;
use crate::ingest::{TelemetrySample, TelemetrySampleView};
use crate::math::{
    clamp_i32, clamp_to_i32, dist, dist_i32, div_i64_toward_zero, div_toward_zero, sq_dist,
    sq_dist_i32,
};
use crate::model::{elapsed_ms, span_ms, Lap, LapMeta, LapMetaView, LapView, TelemetryPoint};

verus! {

broadcast use vstd::std_specs::hash::group_hash_axioms;

/// The car counts as moving above this speed, in thousandths of a metre per
/// second: the place where that first happens is the start position.
pub const MOVING_SPEED: i32 = 100;

/// The heuristic closes a lap only within this distance of the start position,
/// in millimetres.
pub const START_RADIUS: i32 = 20_000;

/// The heuristic closes a lap only after this time since its first point, in
/// thousandths of a millisecond.
pub const MIN_LAP_TIME: i64 = 15_000_000;

/// The heuristic closes a lap only above this speed, in thousandths of a metre
/// per second.
pub const ROLLING_SPEED: i32 = 1000;

/// The two identifiers of a new lap.
#[derive(Clone, Copy, Debug, PartialEq, Eq, Structural)]
pub struct FreshIds {
    pub lap: u128,
    pub meta: u128,
}

/// The version and variant bits mark `id` as a random (version 4) UUID.
pub open spec fn is_v4_id(id: u128) -> bool {
    id & 0xF000_C000_0000_0000_0000 == 0x4000_8000_0000_0000_0000
}

/// `uuid::Uuid::new_v4` and `Uuid::as_u128`: a random UUID as a number. The
/// crate draws 128 random bits and overwrites the version and variant bits;
/// nothing else holds of every outcome.
#[verifier::external_body]
fn new_v4_id() -> (id: u128)
    ensures
        is_v4_id(id),
{
    Uuid::new_v4().as_u128()
}

/// Two random identifiers for a new lap.
pub fn fresh_ids() -> (ids: FreshIds)
    ensures
        is_v4_id(ids.lap),
        is_v4_id(ids.meta),
{
    let lap: u128 = new_v4_id();
    let meta: u128 = new_v4_id();
    FreshIds { lap, meta }
}

/// A lap without points.
pub open spec fn empty_lap(
    game: Seq<char>,
    car: Seq<char>,
    track: Seq<char>,
    num: u32,
    ids: FreshIds,
) -> LapView {
    LapView {
        id: ids.lap,
        meta: LapMetaView { id: ids.meta, game, car, track, lap_number: num },
        total_time_ms: 0,
        points: Seq::empty(),
    }
}

/// A lap without points under the given identifiers.
pub fn new_lap_with_ids(game: &str, car: &str, track: &str, num: u32, ids: FreshIds) -> (lap: Lap)
    ensures
        lap@ == empty_lap(game@, car@, track@, num, ids),
{
    Lap {
        id: ids.lap,
        meta: LapMeta {
            id: ids.meta,
            game: game.to_owned(),
            car: car.to_owned(),
            track: track.to_owned(),
            lap_number: num,
        },
        total_time_ms: 0,
        points: Vec::new(),
    }
}

/// A lap without points under two random identifiers.
pub fn new_lap(game: &str, car: &str, track: &str, num: u32) -> (lap: Lap)
    ensures
        lap@ == empty_lap(game@, car@, track@, num, FreshIds { lap: lap.id, meta: lap.meta.id }),
        is_v4_id(lap.id),
        is_v4_id(lap.meta.id),
{
    new_lap_with_ids(game, car, track, num, fresh_ids())
}

/// The state of the lap builder of one source.
pub struct LapBuilder {
    /// The lap that is being recorded.
    pub current: Option<Lap>,
    /// The sample before this one.
    pub last: Option<TelemetrySample>,
    /// Where the car first moved, `(x, z)` in millimetres.
    pub start_pos: Option<(i32, i32)>,
    /// The distance driven in the current lap, in millimetres.
    pub cum_dist: i32,
    /// The time of the sample before this one, in thousandths of a millisecond.
    pub last_t_ms: i64,
    /// The longest lap seen so far, in millimetres.
    pub track_guess_m: i32,
}

/// The mathematical content of a `LapBuilder`.
pub struct LapBuilderView {
    pub current: Option<LapView>,
    pub last: Option<TelemetrySampleView>,
    pub start_pos: Option<(i32, i32)>,
    pub cum_dist: i32,
    pub last_t_ms: i64,
    pub track_guess_m: i32,
}

impl View for LapBuilder {
    type V = LapBuilderView;

    open spec fn view(&self) -> LapBuilderView {
        LapBuilderView {
            current: match self.current {
                Some(lap) => Some(lap@),
                None => None,
            },
            last: match self.last {
                Some(s) => Some(s@),
                None => None,
            },
            start_pos: self.start_pos,
            cum_dist: self.cum_dist,
            last_t_ms: self.last_t_ms,
            track_guess_m: self.track_guess_m,
        }
    }
}

/// The content of an optional lap.
pub open spec fn lap_view_of(lap: Option<Lap>) -> Option<LapView> {
    match lap {
        Some(l) => Some(l@),
        None => None,
    }
}

/// A builder that records lap 1 and has seen no sample.
pub open spec fn initial_builder(
    game: Seq<char>,
    car: Seq<char>,
    track: Seq<char>,
    ids: FreshIds,
) -> LapBuilderView {
    LapBuilderView {
        current: Some(empty_lap(game, car, track, 1, ids)),
        last: None,
        start_pos: None,
        cum_dist: 0,
        last_t_ms: 0,
        track_guess_m: 0,
    }
}

/// The time of a sample in thousandths of a millisecond.
pub open spec fn sample_t_ms(s: TelemetrySampleView) -> i64 {
    (s.sim_time_s as int * 1000) as i64
}

/// A speed in thousandths of a metre per second as thousandths of a km/h,
/// rounded toward zero and saturated.
pub open spec fn milli_mps_to_milli_kph(v: i32) -> i32 {
    clamp_i32(div_toward_zero(v as int * 36, 10))
}

/// The start position after a sample: set by the first sample above
/// `MOVING_SPEED`, kept from then on.
pub open spec fn start_pos_after(b: LapBuilderView, s: TelemetrySampleView) -> Option<(i32, i32)> {
    if b.start_pos is None && s.speed_mps > MOVING_SPEED {
        Some((s.world_pos_x, s.world_pos_z))
    } else {
        b.start_pos
    }
}

/// The distance driven in the lap after a sample. A positive lap distance of
/// the game is taken as it is. Otherwise the way from the sample before, as the
/// crow flies and rounded down, is added to what was driven so far.
pub open spec fn cum_dist_after(b: LapBuilderView, s: TelemetrySampleView) -> i32 {
    if s.lap_distance_m > 0 {
        s.lap_distance_m
    } else {
        match b.last {
            Some(prev) => clamp_i32(
                b.cum_dist + dist(
                    prev.world_pos_x as int,
                    prev.world_pos_z as int,
                    s.world_pos_x as int,
                    s.world_pos_z as int,
                ),
            ),
            None => b.cum_dist,
        }
    }
}

/// The point that a sample becomes.
pub open spec fn point_of(s: TelemetrySampleView, lap_distance: i32) -> TelemetryPoint {
    TelemetryPoint {
        t_ms: sample_t_ms(s),
        lap_distance_m: lap_distance,
        x: s.world_pos_x,
        y: s.world_pos_z,
        speed_kph: milli_mps_to_milli_kph(s.speed_mps),
        throttle: s.throttle,
        brake: s.brake,
        gear: s.gear,
        rpm: s.engine_rpm,
    }
}

/// The current lap after a sample: one point longer, its total time brought up
/// to date.
pub open spec fn lap_with_sample(
    lap: LapView,
    s: TelemetrySampleView,
    lap_distance: i32,
) -> LapView {
    let points = lap.points.push(point_of(s, lap_distance));
    LapView { total_time_ms: span_ms(points[0].t_ms, sample_t_ms(s)), points, ..lap }
}

/// The builder after a sample was recorded, before the decision on a rollover.
pub open spec fn recorded(b: LapBuilderView, s: TelemetrySampleView) -> LapBuilderView {
    let cum = cum_dist_after(b, s);
    LapBuilderView {
        current: match b.current {
            Some(lap) => Some(lap_with_sample(lap, s, cum)),
            None => None,
        },
        start_pos: start_pos_after(b, s),
        cum_dist: cum,
        ..b
    }
}

/// The game reports a higher lap number than with the sample before, and had
/// reported one then.
pub open spec fn lap_incremented(b: LapBuilderView, s: TelemetrySampleView) -> bool {
    match b.last {
        Some(prev) => s.current_lap > prev.current_lap && prev.current_lap > 0,
        None => false,
    }
}

/// The car is closer than `START_RADIUS` to the start position, more than
/// `MIN_LAP_TIME` after the first point of the lap, and faster than
/// `ROLLING_SPEED`. `r` is the builder with the sample recorded.
pub open spec fn back_at_start(r: LapBuilderView, s: TelemetrySampleView) -> bool {
    match (r.start_pos, r.current) {
        (Some(sp), Some(lap)) => {
            &&& sq_dist(sp.0 as int, sp.1 as int, s.world_pos_x as int, s.world_pos_z as int)
                < START_RADIUS * START_RADIUS
            &&& sample_t_ms(s) - lap.first_t_or(sample_t_ms(s)) > MIN_LAP_TIME
            &&& s.speed_mps > ROLLING_SPEED
        },
        _ => false,
    }
}

/// The sample closes the current lap.
pub open spec fn rolls_over(b: LapBuilderView, s: TelemetrySampleView) -> bool {
    b.current is Some && (lap_incremented(b, s) || back_at_start(recorded(b, s), s))
}

/// The number of the lap that follows a rollover.
pub open spec fn next_lap_number(s: TelemetrySampleView) -> u32 {
    if s.current_lap > 1 {
        s.current_lap
    } else {
        1
    }
}

/// The lap that a rollover closes: the current lap with the sample recorded.
pub open spec fn finished_lap(b: LapBuilderView, s: TelemetrySampleView) -> LapView
    recommends
        b.current is Some,
{
    recorded(b, s).current->Some_0
}

/// The builder with a sample taken in: the sample is recorded, and it is kept
/// as the sample before the next one.
pub open spec fn taken_in(b: LapBuilderView, s: TelemetrySampleView) -> LapBuilderView {
    LapBuilderView { last: Some(s), last_t_ms: sample_t_ms(s), ..recorded(b, s) }
}

/// The builder after the sample `s` closed its current lap, and the closed lap.
/// The lap that follows starts empty under the identifiers `ids`, with the game
/// of the sample and an unknown car and track. The longest lap so far is brought
/// up to date. A builder without a current lap stays as it is.
pub open spec fn closed(r: LapBuilderView, s: TelemetrySampleView, ids: FreshIds) -> (
    LapBuilderView,
    Option<LapView>,
) {
    match r.current {
        Some(done) => (
            LapBuilderView {
                current: Some(
                    empty_lap(s.game.spec_key(), "Unknown"@, "Unknown"@, next_lap_number(s), ids),
                ),
                cum_dist: 0,
                track_guess_m: if done.last_distance() > r.track_guess_m {
                    done.last_distance()
                } else {
                    r.track_guess_m
                },
                ..r
            },
            Some(done),
        ),
        None => (r, None),
    }
}

/// The builder after a sample, and the lap that the sample closed, if any.
pub open spec fn pushed(b: LapBuilderView, s: TelemetrySampleView, ids: FreshIds) -> (
    LapBuilderView,
    Option<LapView>,
) {
    if rolls_over(b, s) {
        closed(taken_in(b, s), s, ids)
    } else {
        (taken_in(b, s), None)
    }
}

impl LapBuilder {
    /// A builder that records lap 1 under the given identifiers.
    pub fn with_ids(game: &str, car: &str, track: &str, ids: FreshIds) -> (r: Self)
        ensures
            r@ == initial_builder(game@, car@, track@, ids),
    {
        LapBuilder {
            current: Some(new_lap_with_ids(game, car, track, 1, ids)),
            last: None,
            start_pos: None,
            cum_dist: 0,
            last_t_ms: 0,
            track_guess_m: 0,
        }
    }

    /// A builder that records lap 1 under two random identifiers.
    pub fn new(game: &str, car: &str, track: &str) -> (r: Self)
        ensures
            r.current is Some,
            r@ == initial_builder(
                game@,
                car@,
                track@,
                FreshIds { lap: r.current->Some_0.id, meta: r.current->Some_0.meta.id },
            ),
            is_v4_id(r.current->Some_0.id),
            is_v4_id(r.current->Some_0.meta.id),
    {
        LapBuilder::with_ids(game, car, track, fresh_ids())
    }

    /// Takes a sample in and tells whether it closes the current lap.
    pub fn record(&mut self, s: &TelemetrySample) -> (roll: bool)
        ensures
            final(self)@ == taken_in(old(self)@, s@),
            roll == rolls_over(old(self)@, s@),
    {
        let t_ms: i64 = s.sim_time_s as i64 * 1000;
        if self.start_pos.is_none() && s.speed_mps > MOVING_SPEED {
            self.start_pos = Some((s.world_pos_x, s.world_pos_z));
        }
        if s.lap_distance_m > 0 {
            self.cum_dist = s.lap_distance_m;
        } else {
            match &self.last {
                Some(prev) => {
                    let step: u64 = dist_i32(
                        prev.world_pos_x,
                        prev.world_pos_z,
                        s.world_pos_x,
                        s.world_pos_z,
                    );
                    self.cum_dist = clamp_to_i32(self.cum_dist as i64 + step as i64);
                },
                None => {},
            }
        }
        let incremented: bool = match &self.last {
            Some(prev) => s.current_lap > prev.current_lap && prev.current_lap > 0,
            None => false,
        };
        let mut roll: bool = false;
        match self.current.take() {
            Some(mut lap) => {
                lap.points.push(
                    TelemetryPoint {
                        t_ms,
                        lap_distance_m: self.cum_dist,
                        x: s.world_pos_x,
                        y: s.world_pos_z,
                        speed_kph: clamp_to_i32(div_i64_toward_zero(s.speed_mps as i64 * 36, 10)),
                        throttle: s.throttle,
                        brake: s.brake,
                        gear: s.gear,
                        rpm: s.engine_rpm,
                    },
                );
                let first_t: i64 = lap.points[0].t_ms;
                lap.total_time_ms = elapsed_ms(first_t, t_ms);
                roll = incremented;
                if !roll {
                    match self.start_pos {
                        Some(sp) => {
                            let d2: u128 = sq_dist_i32(sp.0, sp.1, s.world_pos_x, s.world_pos_z);
                            let radius: u128 = START_RADIUS as u128;
                            roll = d2 < radius * radius && t_ms as i128 - first_t as i128
                                > MIN_LAP_TIME as i128 && s.speed_mps > ROLLING_SPEED;
                        },
                        None => {},
                    }
                }
                assert(lap@ == recorded(old(self)@, s@).current->Some_0);
                self.current = Some(lap);
            },
            None => {},
        }
        self.last = Some(s.duplicate());
        self.last_t_ms = t_ms;
        roll
    }

    /// Closes the current lap on the sample `s`, which was taken in before, and
    /// returns it; the lap that follows gets the identifiers `ids`.
    pub fn close(&mut self, s: &TelemetrySample, ids: FreshIds) -> (out: Option<Lap>)
        ensures
            (final(self)@, lap_view_of(out)) == closed(old(self)@, s@, ids),
    {
        match self.current.take() {
            Some(lap) => {
                let n: usize = lap.points.len();
                let last_d: i32 = if n > 0 {
                    lap.points[n - 1].lap_distance_m
                } else {
                    0
                };
                if last_d > self.track_guess_m {
                    self.track_guess_m = last_d;
                }
                let next: u32 = if s.current_lap > 1 {
                    s.current_lap
                } else {
                    1
                };
                self.current = Some(
                    new_lap_with_ids(s.game.key(), "Unknown", "Unknown", next, ids),
                );
                self.cum_dist = 0;
                Some(lap)
            },
            None => None,
        }
    }

    /// Records a sample and returns the lap that it closed, if any; the lap
    /// that follows a closed one gets the identifiers `ids`.
    pub fn push(&mut self, s: &TelemetrySample, ids: FreshIds) -> (out: Option<Lap>)
        ensures
            (final(self)@, lap_view_of(out)) == pushed(old(self)@, s@, ids),
    {
        if self.record(s) {
            self.close(s, ids)
        } else {
            None
        }
    }
}

/// A sample with a higher lap number than the one before closes the lap,
/// whatever else holds, if the sample before carried a lap number.
pub proof fn lemma_rollover_by_increment(b: LapBuilderView, s: TelemetrySampleView, ids: FreshIds)
    requires
        b.current is Some,
        b.last is Some,
        b.last->Some_0.current_lap > 0,
        s.current_lap > b.last->Some_0.current_lap,
    ensures
        pushed(b, s, ids).1 == Some(finished_lap(b, s)),
        finished_lap(b, s).points == b.current->Some_0.points.push(
            point_of(s, cum_dist_after(b, s)),
        ),
        pushed(b, s, ids).0.current == Some(
            empty_lap(s.game.spec_key(), "Unknown"@, "Unknown"@, s.current_lap, ids),
        ),
{
}

/// Two samples with lap numbers 1 and 2, fed to a builder that has seen none,
/// give exactly one lap: the first closes nothing, the second closes a lap that
/// holds both.
pub proof fn lemma_two_samples_one_lap(
    start: FreshIds,
    s1: TelemetrySampleView,
    ids1: FreshIds,
    s2: TelemetrySampleView,
    ids2: FreshIds,
)
    requires
        s1.current_lap == 1,
        s2.current_lap == 2,
    ensures
        ({
            let b0 = initial_builder(s1.game.spec_key(), "Unknown"@, "Unknown"@, start);
            let first = pushed(b0, s1, ids1);
            let second = pushed(first.0, s2, ids2);
            &&& first.1 is None
            &&& second.1 is Some
            &&& second.1->Some_0.id == start.lap
            &&& second.1->Some_0.points.len() == 2
            &&& second.0.current == Some(
                empty_lap(s2.game.spec_key(), "Unknown"@, "Unknown"@, 2, ids2),
            )
        }),
{
    let b0 = initial_builder(s1.game.spec_key(), "Unknown"@, "Unknown"@, start);
    let r = recorded(b0, s1);
    assert(r.current->Some_0.points[0].t_ms == sample_t_ms(s1));
    assert(!back_at_start(r, s1));
}

/// A sample near the start position, late enough in the lap and fast enough,
/// closes the lap.
pub proof fn lemma_rollover_by_heuristic(b: LapBuilderView, s: TelemetrySampleView, ids: FreshIds)
    requires
        b.current is Some,
        start_pos_after(b, s) is Some,
        ({
            let sp = start_pos_after(b, s)->Some_0;
            sq_dist(sp.0 as int, sp.1 as int, s.world_pos_x as int, s.world_pos_z as int)
                < START_RADIUS * START_RADIUS
        }),
        sample_t_ms(s) - finished_lap(b, s).points[0].t_ms > MIN_LAP_TIME,
        s.speed_mps > ROLLING_SPEED,
    ensures
        pushed(b, s, ids).1 == Some(finished_lap(b, s)),
{
}

/// A lap that is closed has a point, the one of the sample that closed it, and
/// its total time is the time from its first point to that one.
pub proof fn lemma_closed_lap_is_timed(b: LapBuilderView, s: TelemetrySampleView, ids: FreshIds)
    requires
        pushed(b, s, ids).1 is Some,
    ensures
        ({
            let lap = pushed(b, s, ids).1->Some_0;
            &&& lap.points.len() > 0
            &&& lap.points.last() == point_of(s, cum_dist_after(b, s))
            &&& lap.time_is_span()
            &&& lap.id == b.current->Some_0.id
            &&& lap.meta == b.current->Some_0.meta
        }),
{
}

/// A builder that has seen no sample closes nothing on its first.
pub proof fn lemma_first_sample_closes_nothing(
    game: Seq<char>,
    car: Seq<char>,
    track: Seq<char>,
    start: FreshIds,
    s: TelemetrySampleView,
    ids: FreshIds,
)
    ensures
        pushed(initial_builder(game, car, track, start), s, ids).1 is None,
{
    let b = initial_builder(game, car, track, start);
    let r = recorded(b, s);
    assert(r.current->Some_0.points[0].t_ms == sample_t_ms(s));
    assert(!back_at_start(r, s));
}

/// Without a higher lap number and away from the conditions of the heuristic,
/// a sample closes nothing.
pub proof fn lemma_no_rollover(b: LapBuilderView, s: TelemetrySampleView, ids: FreshIds)
    requires
        !lap_incremented(b, s),
        !back_at_start(recorded(b, s), s),
    ensures
        pushed(b, s, ids).1 is None,
        pushed(b, s, ids).0.current == recorded(b, s).current,
{
}

/// The builder of one source.
pub struct SourceSlot {
    pub key: String,
    pub builder: LapBuilder,
}

/// The session: the store of closed laps and one builder per source key.
pub struct Inner {
    /// The closed laps by their identifier.
    pub laps: HashMap<u128, Lap>,
    /// Whether a source was started.
    pub running: bool,
    /// The builders in the order in which their sources first spoke.
    pub builders: Vec<SourceSlot>,
}

/// The mathematical content of an `Inner`.
pub struct InnerView {
    pub laps: Map<u128, LapView>,
    pub running: bool,
    pub builders: Seq<(Seq<char>, LapBuilderView)>,
}

impl View for Inner {
    type V = InnerView;

    open spec fn view(&self) -> InnerView {
        InnerView {
            laps: Map::new(|id: u128| self.laps@.contains_key(id), |id: u128| self.laps@[id]@),
            running: self.running,
            builders: Seq::new(
                self.builders@.len(),
                |i: int| (self.builders@[i].key@, self.builders@[i].builder@),
            ),
        }
    }
}

/// `i` is the place of `key` among the builders: the first slot with that key,
/// or the length if there is none.
pub open spec fn is_slot_of(
    builders: Seq<(Seq<char>, LapBuilderView)>,
    key: Seq<char>,
    i: int,
) -> bool {
    &&& 0 <= i <= builders.len()
    &&& i < builders.len() ==> builders[i].0 == key
    &&& forall|j: int| 0 <= j < i ==> (#[trigger] builders[j]).0 != key
}

/// The place of `key` among the builders.
pub open spec fn slot_of(builders: Seq<(Seq<char>, LapBuilderView)>, key: Seq<char>) -> int {
    choose|i: int| is_slot_of(builders, key, i)
}

/// A key has one place only.
pub proof fn lemma_slot_unique(builders: Seq<(Seq<char>, LapBuilderView)>, key: Seq<char>, i: int)
    requires
        is_slot_of(builders, key, i),
    ensures
        slot_of(builders, key) == i,
{
    let c = slot_of(builders, key);
    assert(is_slot_of(builders, key, c));
    if c < i {
        assert(builders[c].0 != key);
    } else if i < c {
        assert(builders[i].0 != key);
    }
}

/// No key has two builders.
pub open spec fn keys_distinct(builders: Seq<(Seq<char>, LapBuilderView)>) -> bool {
    forall|i: int, j: int|
        0 <= i < j < builders.len() ==> (#[trigger] builders[i]).0 != (#[trigger] builders[j]).0
}

/// The session after a sample of the source `key`. A source that speaks for the
/// first time gets a builder for lap 1 of the sample's game, with an unknown car
/// and track. The builder takes the sample, and a lap that the sample closes
/// goes into the store under its identifier.
pub open spec fn fed(
    v: InnerView,
    key: Seq<char>,
    s: TelemetrySampleView,
    ids: FreshIds,
) -> InnerView {
    let i = slot_of(v.builders, key);
    let before = if i < v.builders.len() {
        v.builders[i].1
    } else {
        initial_builder(s.game.spec_key(), "Unknown"@, "Unknown"@, ids)
    };
    let after = pushed(before, s, ids);
    InnerView {
        laps: match after.1 {
            Some(lap) => v.laps.insert(lap.id, lap),
            None => v.laps,
        },
        running: v.running,
        builders: if i < v.builders.len() {
            v.builders.update(i, (key, after.0))
        } else {
            v.builders.push((key, after.0))
        },
    }
}

impl Inner {
    /// No key has two builders.
    pub open spec fn wf(&self) -> bool {
        keys_distinct(self@.builders)
    }

    /// A session without laps and builders.
    pub fn new() -> (r: Self)
        ensures
            r@.laps == Map::<u128, LapView>::empty(),
            r@.builders == Seq::<(Seq<char>, LapBuilderView)>::empty(),
            !r@.running,
            r.wf(),
    {
        let r = Inner { laps: HashMap::new(), running: false, builders: Vec::new() };
        assert(r@.laps =~= Map::<u128, LapView>::empty());
        assert(r@.builders =~= Seq::<(Seq<char>, LapBuilderView)>::empty());
        r
    }

    /// The place of `key` among the builders, or their number if it has none.
    pub fn find_slot(&self, key: &str) -> (i: usize)
        ensures
            i as int == slot_of(self@.builders, key@),
            is_slot_of(self@.builders, key@, i as int),
    {
        let wanted: String = key.to_owned();
        let n: usize = self.builders.len();
        let mut i: usize = 0;
        let mut found: bool = false;
        while i < n && !found
            invariant
                0 <= i <= n,
                n == self.builders@.len(),
                wanted@ == key@,
                found ==> i < n && self@.builders[i as int].0 == key@,
                forall|j: int| 0 <= j < i ==> (#[trigger] self@.builders[j]).0 != key@,
            decreases n - i + (if found { 0int } else { 1int }),
        {
            if self.builders[i].key == wanted {
                found = true;
            } else {
                i = i + 1;
            }
        }
        proof {
            lemma_slot_unique(self@.builders, key@, i as int);
        }
        i
    }

    /// Feeds a sample of the source `key`; a lap that follows a closed one, or a
    /// first lap, gets the identifiers `ids`.
    pub fn feed_sample_with(&mut self, key: &str, s: &TelemetrySample, ids: FreshIds)
        ensures
            final(self)@ == fed(old(self)@, key@, s@, ids),
            old(self).wf() ==> final(self).wf(),
    {
        let i: usize = self.find_slot(key);
        if i == self.builders.len() {
            self.builders.push(
                SourceSlot {
                    key: key.to_owned(),
                    builder: LapBuilder::with_ids(s.game.key(), "Unknown", "Unknown", ids),
                },
            );
        }
        let out: Option<Lap> = self.builders[i].builder.push(s, ids);
        match out {
            Some(lap) => {
                self.laps.insert(lap.id, lap);
            },
            None => {},
        }
        assert(final(self)@.laps =~= fed(old(self)@, key@, s@, ids).laps);
        assert(final(self)@.builders =~= fed(old(self)@, key@, s@, ids).builders);
    }

    /// Feeds a sample of the source `key`. Identifiers are drawn at random, and
    /// only when a lap is begun: for the first lap of a source, and for the lap
    /// that follows a closed one.
    pub fn feed_sample(&mut self, key: &str, s: &TelemetrySample)
        ensures
            exists|ids: FreshIds|
                is_v4_id(ids.lap) && is_v4_id(ids.meta) && final(self)@ == #[trigger] fed(
                    old(self)@,
                    key@,
                    s@,
                    ids,
                ),
            old(self).wf() ==> final(self).wf(),
    {
        let i: usize = self.find_slot(key);
        // The identifiers that were drawn, or any if none were.
        let ghost mut drawn = FreshIds {
            lap: 0x4000_8000_0000_0000_0000,
            meta: 0x4000_8000_0000_0000_0000,
        };
        assert(is_v4_id(0x4000_8000_0000_0000_0000)) by (bit_vector);
        if i == self.builders.len() {
            let ids: FreshIds = fresh_ids();
            self.builders.push(
                SourceSlot {
                    key: key.to_owned(),
                    builder: LapBuilder::with_ids(s.game.key(), "Unknown", "Unknown", ids),
                },
            );
            proof {
                drawn = ids;
                lemma_first_sample_closes_nothing(
                    s@.game.spec_key(),
                    "Unknown"@,
                    "Unknown"@,
                    ids,
                    s@,
                    ids,
                );
            }
        }
        let roll: bool = self.builders[i].builder.record(s);
        if roll {
            let ids: FreshIds = fresh_ids();
            proof {
                drawn = ids;
            }
            match self.builders[i].builder.close(s, ids) {
                Some(lap) => {
                    self.laps.insert(lap.id, lap);
                },
                None => {},
            }
        }
        assert(final(self)@.laps =~= fed(old(self)@, key@, s@, drawn).laps);
        assert(final(self)@.builders =~= fed(old(self)@, key@, s@, drawn).builders);
    }
}

} // verus!
