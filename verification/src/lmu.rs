//! The Le Mans Ultimate / rFactor 2 adapter: reading one snapshot of the
//! telemetry block that the game's plugin keeps in shared memory.
//!
//! The block is a C struct, packed in the order of its fields. The owner of the
//! memory view copies it out as bytes; here the bytes are decoded, checked and
//! turned into a sample. A snapshot taken while the plugin was writing is
//! recognised by its two version counters and dropped.

use vstd::prelude::*;
use crate::ieee::{
    f32_in_unit_interval, f32_is_finite_non_negative, f32_to_milli, f32_within_thousand,
    in_unit_interval, is_finite_non_negative, lemma_abs_scaled_marks, lemma_abs_scaled_order,
    milli_from_f32_bits, within_thousand, F32_ONE,
};
use crate::ingest::{
    view_of, Game, IngestError, SourceAction, SourceEvent, TelemetrySample, TelemetrySampleView,
    TelemetrySource,
};
use crate::math::{clamp_i32, clamp_to_i32, isqrt, isqrt_u128};
use crate::wire::{field, i32_at, le_i32, le_u32, u32_at};

verus! {

/// Size of the telemetry block in bytes.
pub const TELEMETRY_LEN: usize = 1448;

/// Milliseconds between two reads of the block.
pub const POLL_INTERVAL_MS: u64 = 20;

/// Offsets of the fields in the block.
pub const OFF_VERSION_BEGIN: usize = 0;

pub const OFF_LOCAL_VEL: usize = 4;

pub const OFF_ORI: usize = 52;

pub const OFF_POS: usize = 64;

pub const OFF_ENGINE_RPM: usize = 76;

pub const OFF_THROTTLE: usize = 84;

pub const OFF_BRAKE: usize = 88;

pub const OFF_GEAR: usize = 100;

pub const OFF_SPEED: usize = 108;

pub const OFF_LAP_DIST: usize = 112;

pub const OFF_LAP_NUMBER: usize = 116;

pub const OFF_LAP_START_ET: usize = 120;

pub const OFF_ELAPSED_TIME: usize = 124;

pub const OFF_LAST_LAP_TIME: usize = 128;

pub const OFF_VERSION_END: usize = 1444;

/// The name of the shared mapping that holds the block.
pub fn mapping_name() -> (r: &'static str)
    ensures
        r@ == "$rFactor2SMMP_Telemetry$"@,
{
    "$rFactor2SMMP_Telemetry$"
}

/// Three single-precision floats, each as its bit pattern.
#[derive(Clone, Copy, Debug, PartialEq, Eq, Structural)]
pub struct RF2Vec3 {
    pub x: u32,
    pub y: u32,
    pub z: u32,
}

/// The fields of the telemetry block that the adapter reads. A float is held as
/// its bit pattern.
#[derive(Clone, Copy, Debug, PartialEq, Eq, Structural)]
pub struct RF2Telemetry {
    pub version_update_begin: u32,
    /// Velocity in the car's frame, m/s.
    pub local_vel: RF2Vec3,
    /// Orientation as (pitch, yaw, roll), radians.
    pub ori: RF2Vec3,
    /// Position in the world, metres.
    pub pos: RF2Vec3,
    pub engine_rpm: u32,
    pub throttle: u32,
    pub brake: u32,
    pub gear: i32,
    /// Speed in m/s.
    pub speed: u32,
    pub lap_dist: u32,
    pub lap_number: u32,
    pub lap_start_et: u32,
    pub elapsed_time: u32,
    pub last_lap_time: u32,
    pub version_update_end: u32,
}

/// The three floats at `off`.
pub open spec fn vec3_at(b: Seq<u8>, off: int) -> RF2Vec3 {
    RF2Vec3 {
        x: le_u32(field(b, off, 4)),
        y: le_u32(field(b, off + 4, 4)),
        z: le_u32(field(b, off + 8, 4)),
    }
}

/// The block that the first 1448 bytes of `b` hold.
pub open spec fn telemetry_of(b: Seq<u8>) -> RF2Telemetry {
    RF2Telemetry {
        version_update_begin: le_u32(field(b, OFF_VERSION_BEGIN as int, 4)),
        local_vel: vec3_at(b, OFF_LOCAL_VEL as int),
        ori: vec3_at(b, OFF_ORI as int),
        pos: vec3_at(b, OFF_POS as int),
        engine_rpm: le_u32(field(b, OFF_ENGINE_RPM as int, 4)),
        throttle: le_u32(field(b, OFF_THROTTLE as int, 4)),
        brake: le_u32(field(b, OFF_BRAKE as int, 4)),
        gear: le_i32(field(b, OFF_GEAR as int, 4)),
        speed: le_u32(field(b, OFF_SPEED as int, 4)),
        lap_dist: le_u32(field(b, OFF_LAP_DIST as int, 4)),
        lap_number: le_u32(field(b, OFF_LAP_NUMBER as int, 4)),
        lap_start_et: le_u32(field(b, OFF_LAP_START_ET as int, 4)),
        elapsed_time: le_u32(field(b, OFF_ELAPSED_TIME as int, 4)),
        last_lap_time: le_u32(field(b, OFF_LAST_LAP_TIME as int, 4)),
        version_update_end: le_u32(field(b, OFF_VERSION_END as int, 4)),
    }
}

fn read_vec3(image: &[u8], off: usize) -> (r: RF2Vec3)
    requires
        off + 12 <= image@.len(),
    ensures
        r == vec3_at(image@, off as int),
{
    let len: usize = image.len();
    assert(off + 12 <= len);
    RF2Vec3 { x: u32_at(image, off), y: u32_at(image, off + 4), z: u32_at(image, off + 8) }
}

impl RF2Telemetry {
    /// Decodes a snapshot, or nothing from fewer bytes than the block has.
    pub fn read(image: &[u8]) -> (r: Option<RF2Telemetry>)
        ensures
            r == if image@.len() >= TELEMETRY_LEN {
                Some(telemetry_of(image@))
            } else {
                None
            },
    {
        if image.len() < TELEMETRY_LEN {
            return None;
        }
        Some(
            RF2Telemetry {
                version_update_begin: u32_at(image, OFF_VERSION_BEGIN),
                local_vel: read_vec3(image, OFF_LOCAL_VEL),
                ori: read_vec3(image, OFF_ORI),
                pos: read_vec3(image, OFF_POS),
                engine_rpm: u32_at(image, OFF_ENGINE_RPM),
                throttle: u32_at(image, OFF_THROTTLE),
                brake: u32_at(image, OFF_BRAKE),
                gear: i32_at(image, OFF_GEAR),
                speed: u32_at(image, OFF_SPEED),
                lap_dist: u32_at(image, OFF_LAP_DIST),
                lap_number: u32_at(image, OFF_LAP_NUMBER),
                lap_start_et: u32_at(image, OFF_LAP_START_ET),
                elapsed_time: u32_at(image, OFF_ELAPSED_TIME),
                last_lap_time: u32_at(image, OFF_LAST_LAP_TIME),
                version_update_end: u32_at(image, OFF_VERSION_END),
            },
        )
    }

    /// The snapshot is whole and plausible: both version counters agree,
    /// throttle and brake lie in `[0, 1]`, the gear in `[-1, 12]`, and each
    /// component of the local velocity is finite and within 1000 m/s.
    pub open spec fn is_valid(&self) -> bool {
        &&& self.version_update_begin == self.version_update_end
        &&& f32_in_unit_interval(self.throttle)
        &&& f32_in_unit_interval(self.brake)
        &&& -1 <= self.gear <= 12
        &&& f32_within_thousand(self.local_vel.x)
        &&& f32_within_thousand(self.local_vel.y)
        &&& f32_within_thousand(self.local_vel.z)
    }

    /// Decides `is_valid`.
    pub fn validate(&self) -> (r: bool)
        ensures
            r == self.is_valid(),
    {
        self.version_update_begin == self.version_update_end && in_unit_interval(self.throttle)
            && in_unit_interval(self.brake) && -1 <= self.gear && self.gear <= 12
            && within_thousand(self.local_vel.x) && within_thousand(self.local_vel.y)
            && within_thousand(self.local_vel.z)
    }

    /// The length of the local velocity in thousandths of a metre per second,
    /// rounded down and saturated.
    pub open spec fn velocity_magnitude(&self) -> i32 {
        let x = f32_to_milli(self.local_vel.x) as int;
        let y = f32_to_milli(self.local_vel.y) as int;
        let z = f32_to_milli(self.local_vel.z) as int;
        clamp_i32(isqrt(x * x + y * y + z * z))
    }

    /// The speed of the car: the block's own if that is finite and not
    /// negative, else the length of the local velocity.
    pub open spec fn spec_speed(&self) -> i32 {
        if f32_is_finite_non_negative(self.speed) {
            f32_to_milli(self.speed)
        } else {
            self.velocity_magnitude()
        }
    }

    /// Computes `spec_speed`.
    pub fn speed_mps(&self) -> (r: i32)
        ensures
            r == self.spec_speed(),
    {
        if is_finite_non_negative(self.speed) {
            milli_from_f32_bits(self.speed)
        } else {
            let x: i128 = milli_from_f32_bits(self.local_vel.x) as i128;
            let y: i128 = milli_from_f32_bits(self.local_vel.y) as i128;
            let z: i128 = milli_from_f32_bits(self.local_vel.z) as i128;
            assert(0 <= x * x <= 0x8000_0000 * 0x8000_0000) by (nonlinear_arith)
                requires
                    -0x8000_0000 <= x <= 0x8000_0000,
            ;
            assert(0 <= y * y <= 0x8000_0000 * 0x8000_0000) by (nonlinear_arith)
                requires
                    -0x8000_0000 <= y <= 0x8000_0000,
            ;
            assert(0 <= z * z <= 0x8000_0000 * 0x8000_0000) by (nonlinear_arith)
                requires
                    -0x8000_0000 <= z <= 0x8000_0000,
            ;
            let sum: u128 = (x * x + y * y + z * z) as u128;
            let root: u64 = isqrt_u128(sum);
            if root > 0x7FFF_FFFF {
                i32::MAX
            } else {
                root as i32
            }
        }
    }

    /// The time since the lap began, in thousandths of a second: elapsed time
    /// less the time of the lap's start, not below zero, saturated.
    pub open spec fn spec_lap_time(&self) -> i32 {
        let d = f32_to_milli(self.elapsed_time) - f32_to_milli(self.lap_start_et);
        if d < 0 {
            0
        } else {
            clamp_i32(d)
        }
    }

    /// The sample that a valid snapshot gives. The block stores orientation as
    /// (pitch, yaw, roll).
    pub open spec fn spec_sample(&self) -> TelemetrySampleView {
        let elapsed = f32_to_milli(self.elapsed_time);
        TelemetrySampleView {
            game: Game::LMU,
            car_id: "player:0"@,
            session_uid: "lmu"@,
            frame: if elapsed > 0 {
                elapsed as u64
            } else {
                0
            },
            sim_time_s: elapsed,
            speed_mps: self.spec_speed(),
            throttle: f32_to_milli(self.throttle),
            brake: f32_to_milli(self.brake),
            gear: self.gear as i8,
            engine_rpm: f32_to_milli(self.engine_rpm),
            world_pos_x: f32_to_milli(self.pos.x),
            world_pos_y: f32_to_milli(self.pos.y),
            world_pos_z: f32_to_milli(self.pos.z),
            yaw: f32_to_milli(self.ori.y),
            pitch: f32_to_milli(self.ori.x),
            roll: f32_to_milli(self.ori.z),
            lap_distance_m: f32_to_milli(self.lap_dist),
            current_lap: self.lap_number,
            current_lap_time_s: self.spec_lap_time(),
            last_lap_time_s: f32_to_milli(self.last_lap_time),
        }
    }

    /// The sample of a valid snapshot.
    pub fn sample(&self) -> (s: TelemetrySample)
        requires
            self.is_valid(),
        ensures
            s@ == self.spec_sample(),
    {
        let elapsed: i32 = milli_from_f32_bits(self.elapsed_time);
        let since: i64 = elapsed as i64 - milli_from_f32_bits(self.lap_start_et) as i64;
        TelemetrySample {
            game: Game::LMU,
            car_id: "player:0".to_owned(),
            session_uid: "lmu".to_owned(),
            frame: if elapsed > 0 {
                elapsed as u64
            } else {
                0
            },
            sim_time_s: elapsed,
            speed_mps: self.speed_mps(),
            throttle: milli_from_f32_bits(self.throttle),
            brake: milli_from_f32_bits(self.brake),
            gear: self.gear as i8,
            engine_rpm: milli_from_f32_bits(self.engine_rpm),
            world_pos_x: milli_from_f32_bits(self.pos.x),
            world_pos_y: milli_from_f32_bits(self.pos.y),
            world_pos_z: milli_from_f32_bits(self.pos.z),
            yaw: milli_from_f32_bits(self.ori.y),
            pitch: milli_from_f32_bits(self.ori.x),
            roll: milli_from_f32_bits(self.ori.z),
            lap_distance_m: milli_from_f32_bits(self.lap_dist),
            current_lap: self.lap_number,
            current_lap_time_s: if since < 0 {
                0
            } else {
                clamp_to_i32(since)
            },
            last_lap_time_s: milli_from_f32_bits(self.last_lap_time),
        }
    }
}

/// What a snapshot yields: the sample of its block if it is long enough and the
/// block is valid, nothing otherwise.
pub open spec fn snapshot_sample(image: Seq<u8>) -> Option<TelemetrySampleView> {
    if image.len() >= TELEMETRY_LEN && telemetry_of(image).is_valid() {
        Some(telemetry_of(image).spec_sample())
    } else {
        None
    }
}

/// Decodes and checks one snapshot.
pub fn read_snapshot(image: &[u8]) -> (r: Option<TelemetrySample>)
    ensures
        view_of(r) == snapshot_sample(image@),
{
    match RF2Telemetry::read(image) {
        Some(t) => if t.validate() {
            Some(t.sample())
        } else {
            None
        },
        None => None,
    }
}

/// The LMU adapter. It keeps no state between snapshots.
pub struct LMUSource;

impl LMUSource {
    pub fn new() -> (r: Self) {
        LMUSource
    }
}

impl TelemetrySource for LMUSource {
    /// A snapshot is decoded and its sample, if it is valid, emitted. A failed
    /// read ends the adapter with the error's message, a vanished consumer
    /// without one.
    fn step(&mut self, event: SourceEvent) -> (action: SourceAction)
        ensures
            match event {
                SourceEvent::Tick => action is Idle,
                SourceEvent::ReceiverGone => action is Stop,
                SourceEvent::IoFailed(msg) => action == SourceAction::Fail(IngestError::Other(msg)),
                SourceEvent::Data(image) => match snapshot_sample(image@) {
                    Some(sample) => action is Emit && action->Emit_0@ == sample,
                    None => action is Idle,
                },
            },
    {
        match event {
            SourceEvent::Tick => SourceAction::Idle,
            SourceEvent::ReceiverGone => SourceAction::Stop,
            SourceEvent::IoFailed(msg) => SourceAction::Fail(IngestError::Other(msg)),
            SourceEvent::Data(image) => match read_snapshot(image.as_slice()) {
                Some(sample) => SourceAction::Emit(sample),
                None => SourceAction::Idle,
            },
        }
    }
}

/// A snapshot whose version counters differ yields no sample.
pub proof fn lemma_torn_snapshot_is_dropped(image: Seq<u8>)
    requires
        image.len() >= TELEMETRY_LEN,
        telemetry_of(image).version_update_begin != telemetry_of(image).version_update_end,
    ensures
        snapshot_sample(image) is None,
{
}

/// A snapshot whose throttle or brake is not a number in `[0, 1]` yields no
/// sample. One such value is 1.5, whose bit pattern is `0x3FC0_0000`.
pub proof fn lemma_pedal_out_of_range_is_dropped(image: Seq<u8>)
    requires
        image.len() >= TELEMETRY_LEN,
        !f32_in_unit_interval(telemetry_of(image).throttle) || !f32_in_unit_interval(
            telemetry_of(image).brake,
        ),
    ensures
        snapshot_sample(image) is None,
        !f32_in_unit_interval(0x3FC0_0000),
{
    lemma_abs_scaled_marks();
    lemma_abs_scaled_order(0x3FC0_0000, F32_ONE);
}

} // verus!
