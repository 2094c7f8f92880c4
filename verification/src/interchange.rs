//! Laps as flat rows, one row per point, for exchange with other programs.
//!
//! Reading and writing files is not done here. A reader hands over the rows it
//! found, a writer takes the rows to write.

use vstd::prelude::*;
use crate::model::{Lap, LapMeta, TelemetryPoint};
use crate::session::{fresh_ids, is_v4_id, FreshIds};

verus! {

/// One point of a lap together with what the lap was driven in and on.
#[derive(Clone, Debug, PartialEq, Eq)]
pub struct CsvRow {
    pub game: String,
    pub car: String,
    pub track: String,
    pub lap_number: u32,
    pub t_ms: i64,
    pub lap_distance_m: i32,
    pub x: i32,
    pub y: i32,
    pub speed_kph: i32,
    pub throttle: i32,
    pub brake: i32,
    pub gear: i8,
    pub rpm: i32,
}

/// The mathematical content of a `CsvRow`.
pub struct CsvRowView {
    pub game: Seq<char>,
    pub car: Seq<char>,
    pub track: Seq<char>,
    pub lap_number: u32,
    pub point: TelemetryPoint,
}

impl View for CsvRow {
    type V = CsvRowView;

    open spec fn view(&self) -> CsvRowView {
        CsvRowView {
            game: self.game@,
            car: self.car@,
            track: self.track@,
            lap_number: self.lap_number,
            point: TelemetryPoint {
                t_ms: self.t_ms,
                lap_distance_m: self.lap_distance_m,
                x: self.x,
                y: self.y,
                speed_kph: self.speed_kph,
                throttle: self.throttle,
                brake: self.brake,
                gear: self.gear,
                rpm: self.rpm,
            },
        }
    }
}

/// A row that names the columns by example: the texts `game`, `car` and
/// `track`, and zero in every number.
#[derive(Clone, Debug, PartialEq, Eq)]
pub struct CsvHeader {
    pub game: String,
    pub car: String,
    pub track: String,
    pub lap_number: u32,
    pub t_ms: i64,
    pub lap_distance_m: i32,
    pub x: i32,
    pub y: i32,
    pub speed_kph: i32,
    pub throttle: i32,
    pub brake: i32,
    pub gear: i8,
    pub rpm: i32,
}

impl Default for CsvHeader {
    fn default() -> (r: Self)
        ensures
            r.game@ == "game"@,
            r.car@ == "car"@,
            r.track@ == "track"@,
            r.lap_number == 0,
            r.t_ms == 0,
            r.lap_distance_m == 0,
            r.x == 0,
            r.y == 0,
            r.speed_kph == 0,
            r.throttle == 0,
            r.brake == 0,
            r.gear == 0,
            r.rpm == 0,
    {
        CsvHeader {
            game: "game".to_owned(),
            car: "car".to_owned(),
            track: "track".to_owned(),
            lap_number: 0,
            t_ms: 0,
            lap_distance_m: 0,
            x: 0,
            y: 0,
            speed_kph: 0,
            throttle: 0,
            brake: 0,
            gear: 0,
            rpm: 0,
        }
    }
}

/// What rows tell of a lap: everything but its identifiers.
pub struct LapContent {
    pub game: Seq<char>,
    pub car: Seq<char>,
    pub track: Seq<char>,
    pub lap_number: u32,
    pub total_time_ms: u64,
    pub points: Seq<TelemetryPoint>,
}

/// The content of a lap.
pub open spec fn content_of(lap: Lap) -> LapContent {
    LapContent {
        game: lap.meta.game@,
        car: lap.meta.car@,
        track: lap.meta.track@,
        lap_number: lap.meta.lap_number,
        total_time_ms: lap.total_time_ms,
        points: lap.points@,
    }
}

/// The time of a row in whole milliseconds, zero for a negative time.
pub open spec fn whole_ms(t_ms: i64) -> u64 {
    if t_ms < 0 {
        0
    } else {
        (t_ms / 1000) as u64
    }
}

/// The lap that a row opens: it takes its description from the row and holds
/// the row's point.
pub open spec fn opened_by(r: CsvRowView) -> LapContent {
    LapContent {
        game: r.game,
        car: r.car,
        track: r.track,
        lap_number: r.lap_number,
        total_time_ms: whole_ms(r.point.t_ms),
        points: seq![r.point],
    }
}

/// A lap with the point of a further row; its total time is the time of that
/// row.
pub open spec fn extended_by(lap: LapContent, r: CsvRowView) -> LapContent {
    LapContent { total_time_ms: whole_ms(r.point.t_ms), points: lap.points.push(r.point), ..lap }
}

/// The laps that a sequence of rows holds. A row whose lap number differs from
/// that of the row before opens a new lap; any other row adds its point to the
/// lap of the row before.
pub open spec fn grouped(rows: Seq<CsvRowView>) -> Seq<LapContent>
    decreases rows.len(),
{
    if rows.len() == 0 {
        Seq::empty()
    } else {
        let before = grouped(rows.drop_last());
        let r = rows.last();
        if before.len() > 0 && before.last().lap_number == r.lap_number {
            before.update(before.len() - 1, extended_by(before.last(), r))
        } else {
            before.push(opened_by(r))
        }
    }
}

/// The views of rows.
pub open spec fn views_of(rows: Seq<CsvRow>) -> Seq<CsvRowView> {
    Seq::new(rows.len(), |i: int| rows[i]@)
}

/// The contents of laps.
pub open spec fn contents_of(laps: Seq<Lap>) -> Seq<LapContent> {
    Seq::new(laps.len(), |i: int| content_of(laps[i]))
}

/// Builds the laps that rows hold. Each lap gets two random identifiers.
pub fn laps_from_rows(rows: &[CsvRow]) -> (laps: Vec<Lap>)
    ensures
        contents_of(laps@) == grouped(views_of(rows@)),
        forall|i: int|
            0 <= i < laps@.len() ==> is_v4_id((#[trigger] laps@[i]).id) && is_v4_id(
                laps@[i].meta.id,
            ),
{
    let n: usize = rows.len();
    let mut laps: Vec<Lap> = Vec::new();
    let mut i: usize = 0;
    while i < n
        invariant
            0 <= i <= n,
            n == rows@.len(),
            contents_of(laps@) == grouped(views_of(rows@).take(i as int)),
            forall|j: int|
                0 <= j < laps@.len() ==> is_v4_id((#[trigger] laps@[j]).id) && is_v4_id(
                    laps@[j].meta.id,
                ),
        decreases n - i,
    {
        let r: &CsvRow = &rows[i];
        let point = TelemetryPoint {
            t_ms: r.t_ms,
            lap_distance_m: r.lap_distance_m,
            x: r.x,
            y: r.y,
            speed_kph: r.speed_kph,
            throttle: r.throttle,
            brake: r.brake,
            gear: r.gear,
            rpm: r.rpm,
        };
        let total: u64 = if r.t_ms < 0 {
            0
        } else {
            (r.t_ms / 1000) as u64
        };
        proof {
            let all = views_of(rows@);
            assert(all.take(i + 1).drop_last() =~= all.take(i as int));
            assert(all.take(i + 1).last() == rows@[i as int]@);
        }
        let ghost before = laps@;
        let count: usize = laps.len();
        if count > 0 && laps[count - 1].meta.lap_number == r.lap_number {
            let mut lap: Lap = laps.pop().unwrap();
            lap.points.push(point);
            lap.total_time_ms = total;
            laps.push(lap);
            assert(contents_of(laps@) =~= contents_of(before).update(
                count - 1,
                extended_by(content_of(before[count - 1]), r@),
            ));
        } else {
            let ids: FreshIds = fresh_ids();
            let mut points: Vec<TelemetryPoint> = Vec::new();
            points.push(point);
            laps.push(
                Lap {
                    id: ids.lap,
                    meta: LapMeta {
                        id: ids.meta,
                        game: r.game.clone(),
                        car: r.car.clone(),
                        track: r.track.clone(),
                        lap_number: r.lap_number,
                    },
                    total_time_ms: total,
                    points,
                },
            );
            assert(contents_of(laps@) =~= contents_of(before).push(opened_by(r@)));
        }
        i = i + 1;
    }
    proof {
        assert(views_of(rows@).take(n as int) =~= views_of(rows@));
    }
    laps
}

/// The row of point `j` of a lap.
pub open spec fn row_of(lap: LapContent, j: int) -> CsvRowView {
    CsvRowView {
        game: lap.game,
        car: lap.car,
        track: lap.track,
        lap_number: lap.lap_number,
        point: lap.points[j],
    }
}

/// The rows of the first `upto` points of a lap.
pub open spec fn lap_rows(lap: LapContent, upto: int) -> Seq<CsvRowView> {
    Seq::new(
        if upto < 0 {
            0
        } else {
            upto as nat
        },
        |j: int| row_of(lap, j),
    )
}

/// The rows of laps: lap after lap, and in each lap point after point.
pub open spec fn rows_of(laps: Seq<LapContent>) -> Seq<CsvRowView>
    decreases laps.len(),
{
    if laps.len() == 0 {
        Seq::empty()
    } else {
        rows_of(laps.drop_last()) + lap_rows(laps.last(), laps.last().points.len() as int)
    }
}

/// Lays laps out as rows, lap after lap and point after point.
pub fn rows_from_laps(laps: &[Lap]) -> (rows: Vec<CsvRow>)
    ensures
        views_of(rows@) == rows_of(contents_of(laps@)),
{
    let n: usize = laps.len();
    let mut rows: Vec<CsvRow> = Vec::new();
    let mut i: usize = 0;
    while i < n
        invariant
            0 <= i <= n,
            n == laps@.len(),
            views_of(rows@) == rows_of(contents_of(laps@).take(i as int)),
        decreases n - i,
    {
        let lap: &Lap = &laps[i];
        let m: usize = lap.points.len();
        let ghost start = rows@;
        let mut j: usize = 0;
        while j < m
            invariant
                0 <= j <= m,
                m == lap.points@.len(),
                views_of(rows@) == views_of(start) + lap_rows(content_of(*lap), j as int),
            decreases m - j,
        {
            let p: TelemetryPoint = lap.points[j];
            let ghost so_far = rows@;
            rows.push(
                CsvRow {
                    game: lap.meta.game.clone(),
                    car: lap.meta.car.clone(),
                    track: lap.meta.track.clone(),
                    lap_number: lap.meta.lap_number,
                    t_ms: p.t_ms,
                    lap_distance_m: p.lap_distance_m,
                    x: p.x,
                    y: p.y,
                    speed_kph: p.speed_kph,
                    throttle: p.throttle,
                    brake: p.brake,
                    gear: p.gear,
                    rpm: p.rpm,
                },
            );
            assert(views_of(rows@) =~= views_of(so_far).push(row_of(content_of(*lap), j as int)));
            assert(lap_rows(content_of(*lap), j + 1) =~= lap_rows(content_of(*lap), j as int).push(
                row_of(content_of(*lap), j as int),
            ));
            j = j + 1;
        }
        proof {
            let all = contents_of(laps@);
            assert(all.take(i + 1).drop_last() =~= all.take(i as int));
            assert(all.take(i + 1).last() == content_of(*lap));
        }
        i = i + 1;
    }
    proof {
        assert(contents_of(laps@).take(n as int) =~= contents_of(laps@));
    }
    rows
}

/// One point of a lap as a MoTeC-style table shows it. `time` is in millionths
/// of a second and counts from the first point of the lap.
#[derive(Clone, Debug, PartialEq, Eq)]
pub struct MotecRow {
    pub time: i128,
    pub lap_distance_m: i32,
    pub x: i32,
    pub y: i32,
    pub speed_kph: i32,
    pub throttle: i32,
    pub brake: i32,
    pub gear: i8,
    pub rpm: i32,
    pub lap_number: u32,
    pub track: String,
    pub car: String,
    pub game: String,
}

/// The mathematical content of a `MotecRow`.
pub struct MotecRowView {
    pub time: i128,
    pub point: TelemetryPoint,
    pub lap_number: u32,
    pub track: Seq<char>,
    pub car: Seq<char>,
    pub game: Seq<char>,
}

impl View for MotecRow {
    type V = MotecRowView;

    open spec fn view(&self) -> MotecRowView {
        MotecRowView {
            time: self.time,
            point: TelemetryPoint {
                t_ms: 0,
                lap_distance_m: self.lap_distance_m,
                x: self.x,
                y: self.y,
                speed_kph: self.speed_kph,
                throttle: self.throttle,
                brake: self.brake,
                gear: self.gear,
                rpm: self.rpm,
            },
            lap_number: self.lap_number,
            track: self.track@,
            car: self.car@,
            game: self.game@,
        }
    }
}

/// The names of the columns of a MoTeC-style table, in the order of the columns.
pub fn motec_columns() -> (r: [&'static str; 13])
    ensures
        r@ == seq![
            "Time",
            "LapDistance",
            "X",
            "Y",
            "Speed",
            "Throttle",
            "Brake",
            "Gear",
            "RPM",
            "LapNumber",
            "Track",
            "Car",
            "Game",
        ],
{
    let r: [&'static str; 13] = [
        "Time",
        "LapDistance",
        "X",
        "Y",
        "Speed",
        "Throttle",
        "Brake",
        "Gear",
        "RPM",
        "LapNumber",
        "Track",
        "Car",
        "Game",
    ];
    assert(r@ =~= seq![
        "Time",
        "LapDistance",
        "X",
        "Y",
        "Speed",
        "Throttle",
        "Brake",
        "Gear",
        "RPM",
        "LapNumber",
        "Track",
        "Car",
        "Game",
    ]);
    r
}

/// The MoTeC row of point `j` of a lap: the point with its time taken from the
/// first point of the lap and its own time set to zero.
pub open spec fn motec_row_of(lap: LapContent, j: int) -> MotecRowView {
    MotecRowView {
        time: (lap.points[j].t_ms - lap.points[0].t_ms) as i128,
        point: TelemetryPoint { t_ms: 0, ..lap.points[j] },
        lap_number: lap.lap_number,
        track: lap.track,
        car: lap.car,
        game: lap.game,
    }
}

/// The MoTeC rows of the first `upto` points of a lap.
pub open spec fn motec_lap_rows(lap: LapContent, upto: int) -> Seq<MotecRowView> {
    Seq::new(
        if upto < 0 {
            0
        } else {
            upto as nat
        },
        |j: int| motec_row_of(lap, j),
    )
}

/// The MoTeC rows of laps: lap after lap, and in each lap point after point.
pub open spec fn motec_rows_of(laps: Seq<LapContent>) -> Seq<MotecRowView>
    decreases laps.len(),
{
    if laps.len() == 0 {
        Seq::empty()
    } else {
        motec_rows_of(laps.drop_last()) + motec_lap_rows(
            laps.last(),
            laps.last().points.len() as int,
        )
    }
}

/// The views of MoTeC rows.
pub open spec fn motec_views_of(rows: Seq<MotecRow>) -> Seq<MotecRowView> {
    Seq::new(rows.len(), |i: int| rows[i]@)
}

/// Lays laps out as MoTeC rows, lap after lap and point after point.
pub fn motec_rows(laps: &[Lap]) -> (rows: Vec<MotecRow>)
    ensures
        motec_views_of(rows@) == motec_rows_of(contents_of(laps@)),
{
    let n: usize = laps.len();
    let mut rows: Vec<MotecRow> = Vec::new();
    let mut i: usize = 0;
    while i < n
        invariant
            0 <= i <= n,
            n == laps@.len(),
            motec_views_of(rows@) == motec_rows_of(contents_of(laps@).take(i as int)),
        decreases n - i,
    {
        let lap: &Lap = &laps[i];
        let m: usize = lap.points.len();
        let ghost start = rows@;
        let mut j: usize = 0;
        while j < m
            invariant
                0 <= j <= m,
                m == lap.points@.len(),
                motec_views_of(rows@) == motec_views_of(start) + motec_lap_rows(
                    content_of(*lap),
                    j as int,
                ),
            decreases m - j,
        {
            let p: TelemetryPoint = lap.points[j];
            let ghost so_far = rows@;
            rows.push(
                MotecRow {
                    time: p.t_ms as i128 - lap.points[0].t_ms as i128,
                    lap_distance_m: p.lap_distance_m,
                    x: p.x,
                    y: p.y,
                    speed_kph: p.speed_kph,
                    throttle: p.throttle,
                    brake: p.brake,
                    gear: p.gear,
                    rpm: p.rpm,
                    lap_number: lap.meta.lap_number,
                    track: lap.meta.track.clone(),
                    car: lap.meta.car.clone(),
                    game: lap.meta.game.clone(),
                },
            );
            assert(motec_views_of(rows@) =~= motec_views_of(so_far).push(
                motec_row_of(content_of(*lap), j as int),
            ));
            assert(motec_lap_rows(content_of(*lap), j + 1) =~= motec_lap_rows(
                content_of(*lap),
                j as int,
            ).push(motec_row_of(content_of(*lap), j as int)));
            j = j + 1;
        }
        proof {
            let all = contents_of(laps@);
            assert(all.take(i + 1).drop_last() =~= all.take(i as int));
            assert(all.take(i + 1).last() == content_of(*lap));
        }
        i = i + 1;
    }
    proof {
        assert(contents_of(laps@).take(n as int) =~= contents_of(laps@));
    }
    rows
}

/// A lap as it comes back from its first `j` rows: the description of the lap,
/// its first `j` points, and as total time the time of the last of them.
pub open spec fn read_back(lap: LapContent, j: int) -> LapContent {
    LapContent {
        total_time_ms: whole_ms(lap.points[j - 1].t_ms),
        points: lap.points.take(j),
        ..lap
    }
}

/// After rows that end in another lap number, or after no rows, the first `j`
/// rows of a lap give one more lap.
proof fn lemma_grouped_lap(before: Seq<CsvRowView>, lap: LapContent, j: int)
    requires
        1 <= j <= lap.points.len(),
        grouped(before).len() > 0 ==> grouped(before).last().lap_number != lap.lap_number,
    ensures
        grouped(before + lap_rows(lap, j)) == grouped(before).push(read_back(lap, j)),
    decreases j,
{
    let rows = before + lap_rows(lap, j);
    assert(rows.drop_last() =~= before + lap_rows(lap, j - 1));
    assert(rows.last() == row_of(lap, j - 1));
    if j == 1 {
        assert(before + lap_rows(lap, 0) =~= before);
        assert(opened_by(row_of(lap, 0)).points =~= read_back(lap, 1).points);
    } else {
        lemma_grouped_lap(before, lap, j - 1);
        let earlier = grouped(before).push(read_back(lap, j - 1));
        assert(extended_by(read_back(lap, j - 1), row_of(lap, j - 1)).points =~= read_back(
            lap,
            j,
        ).points);
        assert(earlier.update(earlier.len() - 1, read_back(lap, j)) =~= grouped(before).push(
            read_back(lap, j),
        ));
    }
}

/// Laps that are laid out as rows and built again from the rows keep their
/// number, their description and their points in order, if every lap has a
/// point and no lap has the lap number of the lap before it. The total time
/// is not kept: it is set to the time of the lap's last point. Identifiers are
/// not part of rows.
pub proof fn lemma_rows_round_trip(laps: Seq<LapContent>)
    requires
        forall|i: int| 0 <= i < laps.len() ==> (#[trigger] laps[i]).points.len() > 0,
        forall|i: int|
            0 < i < laps.len() ==> laps[i - 1].lap_number != (#[trigger] laps[i]).lap_number,
    ensures
        grouped(rows_of(laps)).len() == laps.len(),
        forall|i: int|
            0 <= i < laps.len() ==> #[trigger] grouped(rows_of(laps))[i] == read_back(
                laps[i],
                laps[i].points.len() as int,
            ),
        forall|i: int|
            0 <= i < laps.len() ==> {
                let back = #[trigger] grouped(rows_of(laps))[i];
                &&& back.game == laps[i].game
                &&& back.car == laps[i].car
                &&& back.track == laps[i].track
                &&& back.lap_number == laps[i].lap_number
                &&& back.points == laps[i].points
            },
    decreases laps.len(),
{
    if laps.len() > 0 {
        let rest = laps.drop_last();
        let lap = laps.last();
        assert forall|i: int| 0 <= i < rest.len() implies (#[trigger] rest[i]).points.len()
            > 0 by {
            assert(rest[i] == laps[i]);
        }
        assert forall|i: int| 0 < i < rest.len() implies rest[i - 1].lap_number != (
        #[trigger] rest[i]).lap_number by {
            assert(rest[i] == laps[i]);
            assert(rest[i - 1] == laps[i - 1]);
        }
        lemma_rows_round_trip(rest);
        let before = rows_of(rest);
        if rest.len() > 0 {
            assert(rest[rest.len() - 1] == laps[laps.len() - 2]);
            assert(grouped(before)[rest.len() - 1].lap_number == rest[rest.len()
                - 1].lap_number);
        }
        lemma_grouped_lap(before, lap, lap.points.len() as int);
        assert forall|i: int| 0 <= i < laps.len() implies #[trigger] grouped(rows_of(laps))[i]
            == read_back(laps[i], laps[i].points.len() as int) by {
            if i < rest.len() {
                assert(rest[i] == laps[i]);
            }
        }
        assert forall|i: int| 0 <= i < laps.len() implies (#[trigger] grouped(
            rows_of(laps),
        )[i]).points == laps[i].points by {
            assert(laps[i].points.take(laps[i].points.len() as int) =~= laps[i].points);
        }
    }
}

} // verus!
