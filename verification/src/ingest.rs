//! What every telemetry source produces, and how a source is driven.
//!
//! A source does no I/O itself. Whoever owns the socket or the memory view hands
//! each thing that happened to `TelemetrySource::step` as a `SourceEvent` and
//! carries out the `SourceAction` that comes back.

use vstd::prelude::*;
use vstd::string::StringExecFns;

verus! {

/// The simulator a sample comes from.
#[allow(non_camel_case_types)]
#[derive(Clone, Copy, Debug, PartialEq, Eq, Structural)]
pub enum Game {
    F1_2024,
    F1_2025,
    GT7,
    LMU,
}

impl Game {
    /// The name a lap of this game carries, as a sequence of characters.
    pub open spec fn spec_key(self) -> Seq<char> {
        match self {
            Game::F1_2024 => "f1_2024"@,
            Game::F1_2025 => "f1_2025"@,
            Game::GT7 => "gt7"@,
            Game::LMU => "lmu"@,
        }
    }

    /// The name a lap of this game carries.
    pub fn key(&self) -> (r: &'static str)
        ensures
            r@ == self.spec_key(),
    {
        match self {
            Game::F1_2024 => "f1_2024",
            Game::F1_2025 => "f1_2025",
            Game::GT7 => "gt7",
            Game::LMU => "lmu",
        }
    }
}

/// The character of a decimal digit.
pub open spec fn digit_char(d: nat) -> char {
    if d == 0 {
        '0'
    } else if d == 1 {
        '1'
    } else if d == 2 {
        '2'
    } else if d == 3 {
        '3'
    } else if d == 4 {
        '4'
    } else if d == 5 {
        '5'
    } else if d == 6 {
        '6'
    } else if d == 7 {
        '7'
    } else if d == 8 {
        '8'
    } else {
        '9'
    }
}

/// `n` written in decimal, without sign or leading zeros.
pub open spec fn decimal_digits(n: nat) -> Seq<char>
    decreases n,
{
    if n < 10 {
        seq![digit_char(n)]
    } else {
        decimal_digits(n / 10).push(digit_char(n % 10))
    }
}

/// The text of a decimal digit.
fn digit_text(d: u64) -> (r: &'static str)
    requires
        d < 10,
    ensures
        r@ == seq![digit_char(d as nat)],
{
    proof {
        reveal_strlit("0");
        reveal_strlit("1");
        reveal_strlit("2");
        reveal_strlit("3");
        reveal_strlit("4");
        reveal_strlit("5");
        reveal_strlit("6");
        reveal_strlit("7");
        reveal_strlit("8");
        reveal_strlit("9");
    }
    let r = if d == 0 {
        "0"
    } else if d == 1 {
        "1"
    } else if d == 2 {
        "2"
    } else if d == 3 {
        "3"
    } else if d == 4 {
        "4"
    } else if d == 5 {
        "5"
    } else if d == 6 {
        "6"
    } else if d == 7 {
        "7"
    } else if d == 8 {
        "8"
    } else {
        "9"
    };
    assert(r@ =~= seq![digit_char(d as nat)]);
    r
}

/// Writes `n` in decimal behind what `text` holds.
pub fn append_decimal(text: &mut String, n: u64)
    ensures
        final(text)@ == old(text)@ + decimal_digits(n as nat),
    decreases n,
{
    if n >= 10 {
        append_decimal(text, n / 10);
    }
    text.append(digit_text(n % 10));
    assert(text@ =~= old(text)@ + decimal_digits(n as nat));
}

/// `n` written in decimal.
pub fn decimal_string(n: u64) -> (s: String)
    ensures
        s@ == decimal_digits(n as nat),
{
    let mut s = String::new();
    append_decimal(&mut s, n);
    assert(s@ =~= decimal_digits(n as nat));
    s
}

/// The name of the car at `index` of a game's table: `player:` and the index.
pub fn player_car_id(index: u8) -> (s: String)
    ensures
        s@ == "player:"@ + decimal_digits(index as nat),
{
    let mut s: String = "player:".to_owned();
    append_decimal(&mut s, index as u64);
    s
}

/// One instant of the player's car. Times are in thousandths of a second,
/// speeds in thousandths of a metre per second, positions in millimetres,
/// angles in thousandths of a radian, `throttle` and `brake` in thousandths of
/// full travel. A `lap_distance_m` or `current_lap` of zero means "not known".
#[derive(Clone, Debug, PartialEq, Eq)]
pub struct TelemetrySample {
    pub game: Game,
    pub car_id: String,
    pub session_uid: String,
    pub frame: u64,
    pub sim_time_s: i32,
    pub speed_mps: i32,
    pub throttle: i32,
    pub brake: i32,
    pub gear: i8,
    pub engine_rpm: i32,
    pub world_pos_x: i32,
    pub world_pos_y: i32,
    pub world_pos_z: i32,
    pub yaw: i32,
    pub pitch: i32,
    pub roll: i32,
    pub lap_distance_m: i32,
    pub current_lap: u32,
    pub current_lap_time_s: i32,
    pub last_lap_time_s: i32,
}

/// The mathematical content of a `TelemetrySample`.
pub struct TelemetrySampleView {
    pub game: Game,
    pub car_id: Seq<char>,
    pub session_uid: Seq<char>,
    pub frame: u64,
    pub sim_time_s: i32,
    pub speed_mps: i32,
    pub throttle: i32,
    pub brake: i32,
    pub gear: i8,
    pub engine_rpm: i32,
    pub world_pos_x: i32,
    pub world_pos_y: i32,
    pub world_pos_z: i32,
    pub yaw: i32,
    pub pitch: i32,
    pub roll: i32,
    pub lap_distance_m: i32,
    pub current_lap: u32,
    pub current_lap_time_s: i32,
    pub last_lap_time_s: i32,
}

impl View for TelemetrySample {
    type V = TelemetrySampleView;

    open spec fn view(&self) -> TelemetrySampleView {
        TelemetrySampleView {
            game: self.game,
            car_id: self.car_id@,
            session_uid: self.session_uid@,
            frame: self.frame,
            sim_time_s: self.sim_time_s,
            speed_mps: self.speed_mps,
            throttle: self.throttle,
            brake: self.brake,
            gear: self.gear,
            engine_rpm: self.engine_rpm,
            world_pos_x: self.world_pos_x,
            world_pos_y: self.world_pos_y,
            world_pos_z: self.world_pos_z,
            yaw: self.yaw,
            pitch: self.pitch,
            roll: self.roll,
            lap_distance_m: self.lap_distance_m,
            current_lap: self.current_lap,
            current_lap_time_s: self.current_lap_time_s,
            last_lap_time_s: self.last_lap_time_s,
        }
    }
}

/// The content of an optional sample.
pub open spec fn view_of(r: Option<TelemetrySample>) -> Option<TelemetrySampleView> {
    match r {
        Some(s) => Some(s@),
        None => None,
    }
}

impl TelemetrySample {
    /// A copy of the sample.
    pub fn duplicate(&self) -> (r: TelemetrySample)
        ensures
            r == *self,
    {
        TelemetrySample {
            game: self.game,
            car_id: self.car_id.clone(),
            session_uid: self.session_uid.clone(),
            frame: self.frame,
            sim_time_s: self.sim_time_s,
            speed_mps: self.speed_mps,
            throttle: self.throttle,
            brake: self.brake,
            gear: self.gear,
            engine_rpm: self.engine_rpm,
            world_pos_x: self.world_pos_x,
            world_pos_y: self.world_pos_y,
            world_pos_z: self.world_pos_z,
            yaw: self.yaw,
            pitch: self.pitch,
            roll: self.roll,
            lap_distance_m: self.lap_distance_m,
            current_lap: self.current_lap,
            current_lap_time_s: self.current_lap_time_s,
            last_lap_time_s: self.last_lap_time_s,
        }
    }
}

/// A lap as a timing screen lists it; times in thousandths of a second.
#[derive(Clone, Debug, PartialEq, Eq)]
pub struct LapSummary {
    pub lap_number: u32,
    pub time_s: i32,
    pub sectors_s: Vec<i32>,
    pub best: bool,
    pub invalid: bool,
}

/// Why a source gave up.
#[derive(Clone, Debug, PartialEq, Eq)]
pub enum IngestError {
    /// A condition the source itself found.
    Msg(String),
    /// The message of a failure underneath the source.
    Other(String),
}

/// Something that happened to the transport of a source.
#[derive(Clone, Debug, PartialEq, Eq)]
pub enum SourceEvent {
    /// The source's timer fired.
    Tick,
    /// A datagram, or a snapshot of shared memory, arrived.
    Data(Vec<u8>),
    /// The consumer of the samples went away.
    ReceiverGone,
    /// Reading from the transport failed.
    IoFailed(String),
}

/// What the owner of the transport is to do next.
#[derive(Clone, Debug, PartialEq, Eq)]
pub enum SourceAction {
    /// Nothing.
    Idle,
    /// Send these bytes to the peer.
    Send(Vec<u8>),
    /// Pass this sample on.
    Emit(TelemetrySample),
    /// End the source without an error.
    Stop,
    /// End the source with this error.
    Fail(IngestError),
}

/// A live source: decides, event by event, what its transport does.
pub trait TelemetrySource {
    fn step(&mut self, event: SourceEvent) -> SourceAction;
}

} // verus!
