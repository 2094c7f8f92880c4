//! The Gran Turismo 7 adapter: heartbeat, decryption and decoding of a packet.
//!
//! The console streams packets only while it receives a one-byte heartbeat, the
//! packet variant, every 800 ms. The payload of a packet is obfuscated with
//! Salsa20 under a fixed key and a nonce taken from the packet itself.

use salsa20::cipher::{KeyIvInit, StreamCipher};
use salsa20::Salsa20;
use vstd::prelude::*;
use vstd::slice::{slice_subrange, slice_to_vec};
use crate::ingest::{
    view_of, Game, IngestError, SourceAction, SourceEvent, TelemetrySample, TelemetrySampleView,
    TelemetrySource,
};
use crate::math::{div_i64_toward_zero, div_toward_zero};
use crate::wire::{f32_milli_at, field, i32_at, le_f32_milli, le_i32, le_u32, u32_at};

verus! {

/// The UDP port of the console.
pub const CONSOLE_PORT: u16 = 33740;

/// Milliseconds between two heartbeats.
pub const HEARTBEAT_INTERVAL_MS: u64 = 800;

/// Offset of the eight nonce bytes in a packet.
pub const NONCE_OFFSET: usize = 0x40;

/// Offset of the obfuscated payload in a packet.
pub const PAYLOAD_OFFSET: usize = 0x48;

/// A payload shorter than this is dropped.
pub const MIN_PAYLOAD_LEN: usize = 0x60;

/// Where the adapter binds, which console it talks to and which packet variant
/// it asks for.
#[derive(Clone, Debug)]
pub struct GT7Config {
    pub bind_addr: String,
    pub console_ip: String,
    pub packet_variant: char,
}

impl Default for GT7Config {
    fn default() -> (r: Self)
        ensures
            r.bind_addr@ == "0.0.0.0:33740"@,
            r.console_ip@ == "192.168.1.100"@,
            r.packet_variant == 'A',
    {
        GT7Config {
            bind_addr: "0.0.0.0:33740".to_owned(),
            console_ip: "192.168.1.100".to_owned(),
            packet_variant: 'A',
        }
    }
}

/// The heartbeat variants a console understands.
pub open spec fn is_known_variant(v: char) -> bool {
    v == 'A' || v == 'B' || v == '~'
}

/// The variant that is used for `v`: an unrecognised one counts as `'A'`.
pub open spec fn spec_normalise_variant(v: char) -> char {
    if is_known_variant(v) {
        v
    } else {
        'A'
    }
}

/// Maps an unrecognised variant to `'A'` and leaves the known ones alone.
pub fn normalise_variant(v: char) -> (r: char)
    ensures
        r == spec_normalise_variant(v),
{
    if v == 'A' || v == 'B' || v == '~' {
        v
    } else {
        'A'
    }
}

/// The heartbeat byte of a variant: its ASCII code after normalising.
pub open spec fn spec_heartbeat_byte(v: char) -> u8 {
    if v == 'B' {
        0x42
    } else if v == '~' {
        0x7E
    } else {
        0x41
    }
}

/// The heartbeat byte of a variant.
pub fn heartbeat_byte(v: char) -> (r: u8)
    ensures
        r == spec_heartbeat_byte(v),
{
    if v == 'B' {
        0x42
    } else if v == '~' {
        0x7E
    } else {
        0x41
    }
}

/// The constant that is XORed into the first four nonce bytes. A variant that
/// is neither `'A'` nor `'B'` gets the constant of `'~'`: normalise first.
pub open spec fn nonce_mask(variant: char) -> u32 {
    if variant == 'A' {
        0xDEAD_BEAF
    } else if variant == 'B' {
        0xDEAD_BEEF
    } else {
        0x545F_4C7E
    }
}

/// The cipher key: the first 32 bytes of the ASCII text
/// `Simulator Interface Packet GT7 ver 0.0`.
pub open spec fn cipher_key() -> Seq<u8> {
    seq![
        0x53u8, 0x69, 0x6D, 0x75, 0x6C, 0x61, 0x74, 0x6F,
        0x72, 0x20, 0x49, 0x6E, 0x74, 0x65, 0x72, 0x66,
        0x61, 0x63, 0x65, 0x20, 0x50, 0x61, 0x63, 0x6B,
        0x65, 0x74, 0x20, 0x47, 0x54, 0x37, 0x20, 0x76,
    ]
}

/// The cipher key as an array.
pub fn key_bytes() -> (r: [u8; 32])
    ensures
        r@ == cipher_key(),
{
    let r: [u8; 32] = [
        0x53, 0x69, 0x6D, 0x75, 0x6C, 0x61, 0x74, 0x6F,
        0x72, 0x20, 0x49, 0x6E, 0x74, 0x65, 0x72, 0x66,
        0x61, 0x63, 0x65, 0x20, 0x50, 0x61, 0x63, 0x6B,
        0x65, 0x74, 0x20, 0x47, 0x54, 0x37, 0x20, 0x76,
    ];
    assert(r@ =~= cipher_key());
    r
}

/// The four bytes of `x`, low byte first.
pub open spec fn u32_le_bytes(x: u32) -> Seq<u8> {
    seq![
        (x % 0x100) as u8,
        (x / 0x100 % 0x100) as u8,
        (x / 0x1_0000 % 0x100) as u8,
        (x / 0x100_0000) as u8,
    ]
}

/// The nonce of a packet of at least 0x48 bytes: the bytes at 0x40..0x48, the
/// first four of them XORed, as a little-endian number, with the variant's mask.
pub open spec fn packet_nonce(pkt: Seq<u8>, variant: char) -> Seq<u8> {
    u32_le_bytes(le_u32(field(pkt, NONCE_OFFSET as int, 4)) ^ nonce_mask(variant)) + field(
        pkt,
        NONCE_OFFSET as int + 4,
        4,
    )
}

/// What `Salsa20::apply_keystream` of the crate salsa20 turns `data` into under a
/// 32-byte `key` and an 8-byte `nonce`, starting at the head of the keystream.
pub uninterp spec fn salsa20_xor(key: Seq<u8>, nonce: Seq<u8>, data: Seq<u8>) -> Seq<u8>;

/// `salsa20::Salsa20::new` followed by `apply_keystream` (trait
/// `cipher::StreamCipher`): the buffer is XORed in place with the keystream of
/// the key and nonce, so it keeps its length. The call panics only when the
/// keystream runs out, after 2^64 blocks of 64 bytes, which no buffer reaches.
#[verifier::external_body]
fn apply_salsa20(key: &[u8; 32], nonce: &[u8; 8], data: &mut Vec<u8>)
    ensures
        final(data)@ == salsa20_xor(key@, nonce@, old(data)@),
        final(data)@.len() == old(data)@.len(),
{
    let mut cipher = Salsa20::new(key.into(), nonce.into());
    cipher.apply_keystream(data.as_mut_slice());
}

/// Computes `packet_nonce`.
pub fn nonce_of(pkt: &[u8], variant: char) -> (r: [u8; 8])
    requires
        pkt@.len() >= PAYLOAD_OFFSET,
    ensures
        r@ == packet_nonce(pkt@, variant),
{
    let mask: u32 = if variant == 'A' {
        0xDEAD_BEAF
    } else if variant == 'B' {
        0xDEAD_BEEF
    } else {
        0x545F_4C7E
    };
    let first4: u32 = u32_at(pkt, NONCE_OFFSET) ^ mask;
    let r: [u8; 8] = [
        (first4 % 0x100) as u8,
        (first4 / 0x100 % 0x100) as u8,
        (first4 / 0x1_0000 % 0x100) as u8,
        (first4 / 0x100_0000) as u8,
        pkt[NONCE_OFFSET + 4],
        pkt[NONCE_OFFSET + 5],
        pkt[NONCE_OFFSET + 6],
        pkt[NONCE_OFFSET + 7],
    ];
    assert(r@ =~= packet_nonce(pkt@, variant));
    r
}

/// A speed in thousandths of a km/h as thousandths of a metre per second,
/// rounded toward zero.
pub open spec fn milli_kph_to_milli_mps(v: i32) -> i32 {
    div_toward_zero(v as int * 10, 36) as i32
}

/// Computes `milli_kph_to_milli_mps`.
pub fn kph_to_mps(v: i32) -> (r: i32)
    ensures
        r == milli_kph_to_milli_mps(v),
{
    div_i64_toward_zero(v as i64 * 10, 36) as i32
}

/// A millisecond count as thousandths of a second, saturated to `i32`.
pub open spec fn clamp_ms(ms: u32) -> i32 {
    if ms > i32::MAX {
        i32::MAX
    } else {
        ms as i32
    }
}

/// The sample that a decrypted payload of at least 0x60 bytes holds. Lap
/// distance, lap number and lap timers are not in the packet and stay zero.
pub open spec fn gt7_sample(p: Seq<u8>) -> TelemetrySampleView {
    TelemetrySampleView {
        game: Game::GT7,
        car_id: "player:0"@,
        session_uid: "gt7"@,
        frame: le_u32(field(p, 0x08, 4)) as u64,
        sim_time_s: clamp_ms(le_u32(field(p, 0x08, 4))),
        speed_mps: milli_kph_to_milli_mps(le_f32_milli(p, 0x40)),
        throttle: le_f32_milli(p, 0x48),
        brake: le_f32_milli(p, 0x4C),
        gear: le_i32(field(p, 0x50, 4)) as i8,
        engine_rpm: le_f32_milli(p, 0x44),
        world_pos_x: le_f32_milli(p, 0x10),
        world_pos_y: le_f32_milli(p, 0x14),
        world_pos_z: le_f32_milli(p, 0x18),
        yaw: le_f32_milli(p, 0x1C),
        pitch: le_f32_milli(p, 0x20),
        roll: le_f32_milli(p, 0x24),
        lap_distance_m: 0,
        current_lap: 0,
        current_lap_time_s: 0,
        last_lap_time_s: 0,
    }
}

/// What a decrypted payload decodes to: nothing if it is shorter than 0x60
/// bytes, its sample otherwise.
pub open spec fn payload_sample(p: Seq<u8>) -> Option<TelemetrySampleView> {
    if p.len() < MIN_PAYLOAD_LEN {
        None
    } else {
        Some(gt7_sample(p))
    }
}

/// Decodes a decrypted payload.
pub fn parse_payload(payload: &[u8]) -> (r: Option<TelemetrySample>)
    ensures
        view_of(r) == payload_sample(payload@),
{
    if payload.len() < MIN_PAYLOAD_LEN {
        return None;
    }
    let time_ms: u32 = u32_at(payload, 0x08);
    let gear: i32 = i32_at(payload, 0x50);
    Some(
        TelemetrySample {
            game: Game::GT7,
            car_id: "player:0".to_owned(),
            session_uid: "gt7".to_owned(),
            frame: time_ms as u64,
            sim_time_s: if time_ms > 0x7FFF_FFFF {
                i32::MAX
            } else {
                time_ms as i32
            },
            speed_mps: kph_to_mps(f32_milli_at(payload, 0x40)),
            throttle: f32_milli_at(payload, 0x48),
            brake: f32_milli_at(payload, 0x4C),
            gear: #[verifier::truncate] (gear as i8),
            engine_rpm: f32_milli_at(payload, 0x44),
            world_pos_x: f32_milli_at(payload, 0x10),
            world_pos_y: f32_milli_at(payload, 0x14),
            world_pos_z: f32_milli_at(payload, 0x18),
            yaw: f32_milli_at(payload, 0x1C),
            pitch: f32_milli_at(payload, 0x20),
            roll: f32_milli_at(payload, 0x24),
            lap_distance_m: 0,
            current_lap: 0,
            current_lap_time_s: 0,
            last_lap_time_s: 0,
        },
    )
}

/// The decrypted payload of a packet longer than 0x48 bytes.
pub open spec fn decrypted_payload(pkt: Seq<u8>, variant: char) -> Seq<u8> {
    salsa20_xor(cipher_key(), packet_nonce(pkt, variant), pkt.skip(PAYLOAD_OFFSET as int))
}

/// What a packet decodes to under a variant: nothing if it has no payload,
/// else what its decrypted payload decodes to.
pub open spec fn decoded(pkt: Seq<u8>, variant: char) -> Option<TelemetrySampleView> {
    if pkt.len() <= PAYLOAD_OFFSET {
        None
    } else {
        payload_sample(decrypted_payload(pkt, variant))
    }
}

/// Decrypts a packet and decodes its payload. A packet of at most 0x48 bytes
/// has no payload and yields nothing; as decryption keeps the length, a sample
/// comes out of every packet of 0x48 + 0x60 bytes or more and of no other.
/// `variant` is taken as it is: pass it through `normalise_variant` first.
pub fn decrypt_and_parse(pkt: &[u8], variant: char) -> (r: Option<TelemetrySample>)
    ensures
        view_of(r) == decoded(pkt@, variant),
        r is Some <==> pkt@.len() >= PAYLOAD_OFFSET + MIN_PAYLOAD_LEN,
{
    let len: usize = pkt.len();
    if len <= PAYLOAD_OFFSET {
        return None;
    }
    let key = key_bytes();
    let nonce = nonce_of(pkt, variant);
    let mut payload: Vec<u8> = slice_to_vec(slice_subrange(pkt, PAYLOAD_OFFSET, len));
    assert(payload@ =~= pkt@.skip(PAYLOAD_OFFSET as int));
    apply_salsa20(&key, &nonce, &mut payload);
    parse_payload(payload.as_slice())
}

/// The GT7 adapter.
pub struct GT7Source {
    cfg: GT7Config,
}

impl GT7Source {
    /// The configuration the adapter was made with.
    pub closed spec fn config(&self) -> GT7Config {
        self.cfg
    }

    pub fn new(cfg: GT7Config) -> (r: Self)
        ensures
            r.config() == cfg,
    {
        GT7Source { cfg }
    }

    /// The address to bind the socket to.
    pub fn bind_addr(&self) -> (r: &String)
        ensures
            *r == self.config().bind_addr,
    {
        &self.cfg.bind_addr
    }

    /// The address of the console, to be joined with `CONSOLE_PORT`.
    pub fn console_ip(&self) -> (r: &String)
        ensures
            *r == self.config().console_ip,
    {
        &self.cfg.console_ip
    }

    /// The variant the adapter works with: the configured one, normalised.
    pub fn variant(&self) -> (r: char)
        ensures
            r == spec_normalise_variant(self.config().packet_variant),
    {
        normalise_variant(self.cfg.packet_variant)
    }
}

impl TelemetrySource for GT7Source {
    /// A tick sends the heartbeat byte. A packet is decrypted under the
    /// normalised variant and its sample, if any, emitted. A failed read ends
    /// the adapter with the error's message, a vanished consumer without one.
    fn step(&mut self, event: SourceEvent) -> (action: SourceAction)
        ensures
            final(self).config() == old(self).config(),
            match event {
                SourceEvent::Tick => action is Send && action->Send_0@ == seq![
                    spec_heartbeat_byte(spec_normalise_variant(old(self).config().packet_variant)),
                ],
                SourceEvent::ReceiverGone => action is Stop,
                SourceEvent::IoFailed(msg) => action == SourceAction::Fail(IngestError::Other(msg)),
                SourceEvent::Data(pkt) => {
                    let variant = spec_normalise_variant(old(self).config().packet_variant);
                    &&& action is Emit <==> pkt@.len() >= PAYLOAD_OFFSET + MIN_PAYLOAD_LEN
                    &&& match decoded(pkt@, variant) {
                        Some(sample) => action is Emit && action->Emit_0@ == sample,
                        None => action is Idle,
                    }
                },
            },
    {
        match event {
            SourceEvent::Tick => {
                let mut hb: Vec<u8> = Vec::new();
                hb.push(heartbeat_byte(self.variant()));
                assert(hb@ =~= seq![
                    spec_heartbeat_byte(spec_normalise_variant(self.config().packet_variant)),
                ]);
                SourceAction::Send(hb)
            },
            SourceEvent::ReceiverGone => SourceAction::Stop,
            SourceEvent::IoFailed(msg) => SourceAction::Fail(IngestError::Other(msg)),
            SourceEvent::Data(pkt) => match decrypt_and_parse(pkt.as_slice(), self.variant()) {
                Some(sample) => SourceAction::Emit(sample),
                None => SourceAction::Idle,
            },
        }
    }
}

/// A variant that the console does not know is handled as `'A'`: its
/// heartbeat byte is that of `'A'`, and a packet decodes as under `'A'`.
pub proof fn lemma_unknown_variant_is_a(pkt: Seq<u8>, v: char)
    requires
        !is_known_variant(v),
    ensures
        spec_normalise_variant(v) == 'A',
        spec_heartbeat_byte(spec_normalise_variant(v)) == 0x41,
        decrypted_payload(pkt, spec_normalise_variant(v)) == decrypted_payload(pkt, 'A'),
        decoded(pkt, spec_normalise_variant(v)) == decoded(pkt, 'A'),
{
}

/// Decoding is determined by the packet and the variant: whatever two runs of
/// `decrypt_and_parse` on one packet and one variant return has the same
/// content.
pub proof fn lemma_decoding_is_determined(
    pkt: Seq<u8>,
    variant: char,
    first: Option<TelemetrySample>,
    second: Option<TelemetrySample>,
)
    requires
        view_of(first) == decoded(pkt, variant),
        view_of(second) == decoded(pkt, variant),
    ensures
        view_of(first) == view_of(second),
        first is Some <==> second is Some,
{
}

} // verus!
