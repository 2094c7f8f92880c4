//! Decoding Codemasters F1 2024/2025 UDP packets.
//!
//! A packet starts with a 29-byte header. The per-car tables of the three packet
//! kinds read here start at byte 24, with a fixed stride for each kind. Fields
//! of several packets build up one state of the player's car, and every packet
//! yields a sample of that state.

use vstd::prelude::*;
use crate::ingest::{
    decimal_digits, decimal_string, player_car_id, Game, IngestError, SourceAction, SourceEvent,
    TelemetrySample, TelemetrySampleView, TelemetrySource,
};
use crate::wire::{
    as_i8, f32_milli_at, field, i8_at, le_f32_milli, le_u16, le_u32, le_u64, u16_at, u32_at,
    u64_at, u8_at,
};

verus! {

/// Bytes that `read_header` takes.
pub const HEADER_LEN: usize = 29;

/// Offset of the first per-car entry.
pub const CAR_TABLE: usize = 24;

/// Size of one car's entry in a Motion packet.
pub const MOTION_STRIDE: usize = 1464;

/// Size of one car's entry in a LapData packet.
pub const LAP_DATA_STRIDE: usize = 51;

/// Size of one car's entry in a CarTelemetry packet.
pub const CAR_TELEMETRY_STRIDE: usize = 58;

pub const PACKET_MOTION: u8 = 0;

pub const PACKET_LAPDATA: u8 = 2;

pub const PACKET_CAR_TELEMETRY: u8 = 6;

/// Datagrams shorter than this are dropped unread.
pub const MIN_DATAGRAM_LEN: usize = 32;

/// Where the adapter listens and which format it expects.
#[derive(Clone, Debug)]
pub struct F1Config {
    pub bind_addr: String,
    pub expected_format: u16,
}

impl Default for F1Config {
    fn default() -> (r: Self)
        ensures
            r.bind_addr@ == "0.0.0.0:20777"@,
            r.expected_format == 2025,
    {
        F1Config { bind_addr: "0.0.0.0:20777".to_owned(), expected_format: 2025 }
    }
}

/// The fields of a packet header; `session_time` in thousandths of a second.
#[derive(Clone, Copy, Debug, PartialEq, Eq, Structural)]
pub struct PacketHeader {
    pub packet_format: u16,
    pub game_year: u8,
    pub game_major: u8,
    pub game_minor: u8,
    pub packet_version: u8,
    pub packet_id: u8,
    pub session_uid: u64,
    pub session_time: i32,
    pub frame_identifier: u32,
    pub overall_frame_identifier: u32,
    pub player_car_index: u8,
    pub secondary_player_car_index: u8,
}

/// The header that the first 29 bytes of `b` hold.
pub open spec fn header_of(b: Seq<u8>) -> PacketHeader {
    PacketHeader {
        packet_format: le_u16(field(b, 0, 2)),
        game_year: b[2],
        game_major: b[3],
        game_minor: b[4],
        packet_version: b[5],
        packet_id: b[6],
        session_uid: le_u64(field(b, 7, 8)),
        session_time: le_f32_milli(b, 15),
        frame_identifier: le_u32(field(b, 19, 4)),
        overall_frame_identifier: le_u32(field(b, 23, 4)),
        player_car_index: b[27],
        secondary_player_car_index: b[28],
    }
}

/// Reads the header, or nothing from a buffer too short to hold one.
pub fn read_header(buf: &[u8]) -> (r: Option<PacketHeader>)
    ensures
        r == if buf@.len() >= HEADER_LEN {
            Some(header_of(buf@))
        } else {
            None
        },
{
    if buf.len() < HEADER_LEN {
        return None;
    }
    Some(
        PacketHeader {
            packet_format: u16_at(buf, 0),
            game_year: u8_at(buf, 2),
            game_major: u8_at(buf, 3),
            game_minor: u8_at(buf, 4),
            packet_version: u8_at(buf, 5),
            packet_id: u8_at(buf, 6),
            session_uid: u64_at(buf, 7),
            session_time: f32_milli_at(buf, 15),
            frame_identifier: u32_at(buf, 19),
            overall_frame_identifier: u32_at(buf, 23),
            player_car_index: u8_at(buf, 27),
            secondary_player_car_index: u8_at(buf, 28),
        },
    )
}

/// The latest values known of the player's car, gathered across packets.
#[derive(Clone, Copy, Debug, PartialEq, Eq, Structural)]
pub struct PlayerState {
    pub world_pos_x: i32,
    pub world_pos_y: i32,
    pub world_pos_z: i32,
    pub yaw: i32,
    pub pitch: i32,
    pub roll: i32,
    pub speed_mps: i32,
    pub throttle: i32,
    pub brake: i32,
    pub gear: i8,
    pub rpm: i32,
    pub lap_distance: i32,
    pub current_lap: u32,
    pub current_lap_time_s: i32,
    pub last_lap_time_s: i32,
    pub frame: u64,
}

impl PlayerState {
    /// The state before any packet: every value zero.
    pub open spec fn initial() -> PlayerState {
        PlayerState {
            world_pos_x: 0,
            world_pos_y: 0,
            world_pos_z: 0,
            yaw: 0,
            pitch: 0,
            roll: 0,
            speed_mps: 0,
            throttle: 0,
            brake: 0,
            gear: 0,
            rpm: 0,
            lap_distance: 0,
            current_lap: 0,
            current_lap_time_s: 0,
            last_lap_time_s: 0,
            frame: 0,
        }
    }
}

impl Default for PlayerState {
    fn default() -> (r: Self)
        ensures
            r == PlayerState::initial(),
    {
        PlayerState {
            world_pos_x: 0,
            world_pos_y: 0,
            world_pos_z: 0,
            yaw: 0,
            pitch: 0,
            roll: 0,
            speed_mps: 0,
            throttle: 0,
            brake: 0,
            gear: 0,
            rpm: 0,
            lap_distance: 0,
            current_lap: 0,
            current_lap_time_s: 0,
            last_lap_time_s: 0,
            frame: 0,
        }
    }
}

/// Offset of the player's entry in a table of entries `stride` bytes long.
pub open spec fn player_entry(b: Seq<u8>, stride: int) -> int {
    CAR_TABLE as int + header_of(b).player_car_index as int * stride
}

/// A speed in whole km/h as thousandths of a metre per second, rounded down.
pub open spec fn kph_to_milli_mps(kph: u16) -> i32 {
    (kph as int * 10000 / 36) as i32
}

/// A pedal byte, 255 for full travel, as thousandths of full travel, rounded down.
pub open spec fn pedal_to_milli(raw: u8) -> i32 {
    (raw as int * 1000 / 255) as i32
}

/// The state after a Motion packet: position and orientation are taken from the
/// player's entry if the packet holds 64 bytes of it.
pub open spec fn after_motion(st: PlayerState, b: Seq<u8>) -> PlayerState {
    let at = player_entry(b, MOTION_STRIDE as int);
    if b.len() >= at + 64 {
        PlayerState {
            world_pos_x: le_f32_milli(b, at),
            world_pos_y: le_f32_milli(b, at + 4),
            world_pos_z: le_f32_milli(b, at + 8),
            yaw: le_f32_milli(b, at + 40),
            pitch: le_f32_milli(b, at + 44),
            roll: le_f32_milli(b, at + 48),
            ..st
        }
    } else {
        st
    }
}

/// The state after a LapData packet: distance and lap times are taken if the
/// packet holds 0x28 bytes of the player's entry, the lap number if it holds the
/// byte at 0x10.
pub open spec fn after_lap_data(st: PlayerState, b: Seq<u8>) -> PlayerState {
    let at = player_entry(b, LAP_DATA_STRIDE as int);
    let timed = if b.len() >= at + 0x28 {
        PlayerState {
            lap_distance: le_f32_milli(b, at + 0x14),
            current_lap_time_s: le_f32_milli(b, at + 0x18),
            last_lap_time_s: le_f32_milli(b, at + 0x1C),
            ..st
        }
    } else {
        st
    };
    if b.len() > at + 0x10 {
        PlayerState { current_lap: b[at + 0x10] as u32, ..timed }
    } else {
        timed
    }
}

/// The state after a CarTelemetry packet: speed, pedals, gear and engine speed
/// are taken if the packet holds 20 bytes of the player's entry.
pub open spec fn after_car_telemetry(st: PlayerState, b: Seq<u8>) -> PlayerState {
    let at = player_entry(b, CAR_TELEMETRY_STRIDE as int);
    if b.len() >= at + 20 {
        PlayerState {
            speed_mps: kph_to_milli_mps(le_u16(field(b, at, 2))),
            throttle: pedal_to_milli(b[at + 2]),
            brake: pedal_to_milli(b[at + 4]),
            gear: as_i8(b[at + 6]),
            rpm: (le_u16(field(b, at + 7, 2)) as int * 1000) as i32,
            ..st
        }
    } else {
        st
    }
}

/// The state after a packet with a full header: the fields of its kind are taken
/// over, and the frame number in any case.
pub open spec fn after_packet(st: PlayerState, b: Seq<u8>) -> PlayerState {
    let h = header_of(b);
    let taken = if h.packet_id == PACKET_MOTION {
        after_motion(st, b)
    } else if h.packet_id == PACKET_LAPDATA {
        after_lap_data(st, b)
    } else if h.packet_id == PACKET_CAR_TELEMETRY {
        after_car_telemetry(st, b)
    } else {
        st
    };
    PlayerState { frame: h.overall_frame_identifier as u64, ..taken }
}

/// The sample that a packet with header `h` yields in state `st`.
pub open spec fn f1_sample(st: PlayerState, h: PacketHeader) -> TelemetrySampleView {
    TelemetrySampleView {
        game: if h.packet_format >= 2025 {
            Game::F1_2025
        } else {
            Game::F1_2024
        },
        car_id: "player:"@ + decimal_digits(h.player_car_index as nat),
        session_uid: decimal_digits(h.session_uid as nat),
        frame: st.frame,
        sim_time_s: h.session_time,
        speed_mps: st.speed_mps,
        throttle: st.throttle,
        brake: st.brake,
        gear: st.gear,
        engine_rpm: st.rpm,
        world_pos_x: st.world_pos_x,
        world_pos_y: st.world_pos_y,
        world_pos_z: st.world_pos_z,
        yaw: st.yaw,
        pitch: st.pitch,
        roll: st.roll,
        lap_distance_m: st.lap_distance,
        current_lap: st.current_lap,
        current_lap_time_s: st.current_lap_time_s,
        last_lap_time_s: st.last_lap_time_s,
    }
}

/// Takes one packet into `state` and samples the state. A buffer too short for
/// a header changes nothing and yields nothing. A packet of another format than
/// `expected_format` is read all the same.
pub fn parse_packet(state: &mut PlayerState, buf: &[u8], expected_format: u16) -> (r: Option<
    TelemetrySample,
>)
    ensures
        buf@.len() < HEADER_LEN ==> r is None && *final(state) == *old(state),
        buf@.len() >= HEADER_LEN ==> *final(state) == after_packet(*old(state), buf@) && r is Some
            && r->Some_0@ == f1_sample(*final(state), header_of(buf@)),
{
    let hdr = match read_header(buf) {
        Some(h) => h,
        None => {
            return None;
        },
    };
    let len: usize = buf.len();
    let idx: usize = hdr.player_car_index as usize;
    if hdr.packet_id == PACKET_MOTION {
        let at: usize = CAR_TABLE + idx * MOTION_STRIDE;
        if len >= at + 64 {
            state.world_pos_x = f32_milli_at(buf, at);
            state.world_pos_y = f32_milli_at(buf, at + 4);
            state.world_pos_z = f32_milli_at(buf, at + 8);
            state.yaw = f32_milli_at(buf, at + 40);
            state.pitch = f32_milli_at(buf, at + 44);
            state.roll = f32_milli_at(buf, at + 48);
        }
    } else if hdr.packet_id == PACKET_LAPDATA {
        let at: usize = CAR_TABLE + idx * LAP_DATA_STRIDE;
        if len >= at + 0x28 {
            state.lap_distance = f32_milli_at(buf, at + 0x14);
            state.current_lap_time_s = f32_milli_at(buf, at + 0x18);
            state.last_lap_time_s = f32_milli_at(buf, at + 0x1C);
        }
        if len > at + 0x10 {
            state.current_lap = u8_at(buf, at + 0x10) as u32;
        }
    } else if hdr.packet_id == PACKET_CAR_TELEMETRY {
        let at: usize = CAR_TABLE + idx * CAR_TELEMETRY_STRIDE;
        if len >= at + 20 {
            let kph: u16 = u16_at(buf, at);
            state.speed_mps = (kph as i32 * 10000) / 36;
            state.throttle = (u8_at(buf, at + 2) as i32 * 1000) / 255;
            state.brake = (u8_at(buf, at + 4) as i32 * 1000) / 255;
            state.gear = i8_at(buf, at + 6);
            state.rpm = u16_at(buf, at + 7) as i32 * 1000;
        }
    }
    state.frame = hdr.overall_frame_identifier as u64;
    Some(
        TelemetrySample {
            game: if hdr.packet_format >= 2025 {
                Game::F1_2025
            } else {
                Game::F1_2024
            },
            car_id: player_car_id(hdr.player_car_index),
            session_uid: decimal_string(hdr.session_uid),
            frame: state.frame,
            sim_time_s: hdr.session_time,
            speed_mps: state.speed_mps,
            throttle: state.throttle,
            brake: state.brake,
            gear: state.gear,
            engine_rpm: state.rpm,
            world_pos_x: state.world_pos_x,
            world_pos_y: state.world_pos_y,
            world_pos_z: state.world_pos_z,
            yaw: state.yaw,
            pitch: state.pitch,
            roll: state.roll,
            lap_distance_m: state.lap_distance,
            current_lap: state.current_lap,
            current_lap_time_s: state.current_lap_time_s,
            last_lap_time_s: state.last_lap_time_s,
        },
    )
}

/// The F1 adapter: its configuration and the state of the player's car. Each
/// adapter has a state of its own.
pub struct F1Source {
    cfg: F1Config,
    state: PlayerState,
}

impl F1Source {
    /// The configuration the adapter was made with.
    pub closed spec fn config(&self) -> F1Config {
        self.cfg
    }

    /// The latest values known of the player's car.
    pub closed spec fn player(&self) -> PlayerState {
        self.state
    }

    /// An adapter that has seen no packet yet.
    pub fn new(cfg: F1Config) -> (r: Self)
        ensures
            r.config() == cfg,
            r.player() == PlayerState::initial(),
    {
        F1Source { cfg, state: PlayerState::default() }
    }

    /// The address to bind the socket to.
    pub fn bind_addr(&self) -> (r: &String)
        ensures
            *r == self.config().bind_addr,
    {
        &self.cfg.bind_addr
    }

    /// Takes one datagram: shorter than 32 bytes it is dropped, otherwise it is
    /// parsed as a packet.
    pub fn handle_datagram(&mut self, buf: &[u8]) -> (r: Option<TelemetrySample>)
        ensures
            final(self).config() == old(self).config(),
            buf@.len() < MIN_DATAGRAM_LEN ==> r is None && final(self).player() == old(
                self,
            ).player(),
            buf@.len() >= MIN_DATAGRAM_LEN ==> final(self).player() == after_packet(
                old(self).player(),
                buf@,
            ) && r is Some && r->Some_0@ == f1_sample(final(self).player(), header_of(buf@)),
    {
        if buf.len() < MIN_DATAGRAM_LEN {
            return None;
        }
        parse_packet(&mut self.state, buf, self.cfg.expected_format)
    }
}

impl TelemetrySource for F1Source {
    /// A datagram is decoded and its sample, if any, emitted. A failed read ends
    /// the adapter with the error's message, a vanished consumer without one.
    fn step(&mut self, event: SourceEvent) -> (action: SourceAction)
        ensures
            final(self).config() == old(self).config(),
            match event {
                SourceEvent::Tick => action is Idle && final(self).player() == old(self).player(),
                SourceEvent::ReceiverGone => action is Stop && final(self).player() == old(
                    self,
                ).player(),
                SourceEvent::IoFailed(msg) => action == SourceAction::Fail(IngestError::Other(msg))
                    && final(self).player() == old(self).player(),
                SourceEvent::Data(buf) => if buf@.len() < MIN_DATAGRAM_LEN {
                    action is Idle && final(self).player() == old(self).player()
                } else {
                    &&& final(self).player() == after_packet(old(self).player(), buf@)
                    &&& action is Emit
                    &&& action->Emit_0@ == f1_sample(final(self).player(), header_of(buf@))
                },
            },
    {
        match event {
            SourceEvent::Tick => SourceAction::Idle,
            SourceEvent::ReceiverGone => SourceAction::Stop,
            SourceEvent::IoFailed(msg) => SourceAction::Fail(IngestError::Other(msg)),
            SourceEvent::Data(buf) => match self.handle_datagram(buf.as_slice()) {
                Some(sample) => SourceAction::Emit(sample),
                None => SourceAction::Idle,
            },
        }
    }
}

} // verus!
