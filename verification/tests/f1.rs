use delta_telemetry::f1::{
    parse_packet, read_header, F1Config, F1Source, PacketHeader, PlayerState, HEADER_LEN,
    MIN_DATAGRAM_LEN,
};
use delta_telemetry::ingest::{
    append_decimal, decimal_string, player_car_id, Game, IngestError, SourceAction, SourceEvent,
    TelemetrySource,
};
use delta_telemetry::wire::{f32_milli_at, i32_at, i8_at, u16_at, u32_at, u64_at, u8_at};

fn put_f32(buf: &mut [u8], at: usize, v: f32) {
    buf[at..at + 4].copy_from_slice(&v.to_le_bytes());
}

/// A packet of `len` bytes with a header for the player at `index`.
fn packet(id: u8, index: u8, format: u16, len: usize) -> Vec<u8> {
    let mut b = vec![0u8; len];
    b[0..2].copy_from_slice(&format.to_le_bytes());
    b[2] = 24;
    b[3] = 1;
    b[4] = 2;
    b[5] = 1;
    b[6] = id;
    b[7..15].copy_from_slice(&12_345_678_901_234_567_890u64.to_le_bytes());
    put_f32(&mut b, 15, 61.25);
    b[19..23].copy_from_slice(&777u32.to_le_bytes());
    b[23..27].copy_from_slice(&0x0102_0304u32.to_le_bytes());
    b[27] = index;
    b[28] = 255;
    b
}

fn motion(index: u8) -> Vec<u8> {
    let at = 24 + index as usize * 1464;
    let mut b = packet(0, index, 2024, at + 64);
    put_f32(&mut b, at, 101.5);
    put_f32(&mut b, at + 4, -2.25);
    put_f32(&mut b, at + 8, 3000.125);
    for k in 0..7 {
        put_f32(&mut b, at + 12 + 4 * k, 9999.0);
    }
    put_f32(&mut b, at + 40, 1.5);
    put_f32(&mut b, at + 44, -0.25);
    put_f32(&mut b, at + 48, 0.125);
    b
}

fn lap_data(index: u8) -> Vec<u8> {
    let at = 24 + index as usize * 51;
    let mut b = packet(2, index, 2025, at + 0x28);
    b[at + 0x10] = 7;
    put_f32(&mut b, at + 0x14, 1234.5);
    put_f32(&mut b, at + 0x18, 45.678);
    put_f32(&mut b, at + 0x1C, 91.5);
    b
}

fn car_telemetry(index: u8) -> Vec<u8> {
    let at = 24 + index as usize * 58;
    let mut b = packet(6, index, 2025, at + 20);
    b[at..at + 2].copy_from_slice(&180u16.to_le_bytes());
    b[at + 2] = 255;
    b[at + 3] = 0x80;
    b[at + 4] = 128;
    b[at + 5] = 9;
    b[at + 6] = 0xFF;
    b[at + 7..at + 9].copy_from_slice(&11_000u16.to_le_bytes());
    b
}

#[test]
fn little_endian_fields() {
    let b: Vec<u8> = (1..=16).collect();
    assert_eq!(u8_at(&b, 3), 4);
    assert_eq!(u16_at(&b, 0), 0x0201);
    assert_eq!(u16_at(&b, 14), 0x100F);
    assert_eq!(u32_at(&b, 1), 0x0504_0302);
    assert_eq!(u64_at(&b, 8), 0x100F_0E0D_0C0B_0A09);
    assert_eq!(i32_at(&b, 0), 0x0403_0201);
    assert_eq!(i32_at(&[0xFE, 0xFF, 0xFF, 0xFF], 0), -2);
    assert_eq!(i32_at(&[0, 0, 0, 0x80], 0), i32::MIN);
    assert_eq!(i8_at(&[0x7F, 0x80, 0xFF], 0), 127);
    assert_eq!(i8_at(&[0x7F, 0x80, 0xFF], 1), -128);
    assert_eq!(i8_at(&[0x7F, 0x80, 0xFF], 2), -1);
    let mut floats = vec![0u8; 9];
    put_f32(&mut floats, 5, -12.625);
    assert_eq!(f32_milli_at(&floats, 5), -12_625);
    assert_eq!(f32_milli_at(&floats, 0), 0);
}

#[test]
fn header_fields() {
    let b = packet(6, 19, 2025, 29);
    assert_eq!(
        read_header(&b),
        Some(PacketHeader {
            packet_format: 2025,
            game_year: 24,
            game_major: 1,
            game_minor: 2,
            packet_version: 1,
            packet_id: 6,
            session_uid: 12_345_678_901_234_567_890,
            session_time: 61_250,
            frame_identifier: 777,
            overall_frame_identifier: 0x0102_0304,
            player_car_index: 19,
            secondary_player_car_index: 255,
        })
    );
    assert_eq!(HEADER_LEN, 29);
    assert_eq!(read_header(&b[..28]), None);
    assert_eq!(read_header(&[]), None);
}

#[test]
fn motion_packet() {
    let mut st = PlayerState::default();
    let s = parse_packet(&mut st, &motion(1), 2025).unwrap();
    assert_eq!(s.game, Game::F1_2024);
    assert_eq!(s.car_id, "player:1");
    assert_eq!(s.session_uid, "12345678901234567890");
    assert_eq!(s.frame, 0x0102_0304);
    assert_eq!(s.sim_time_s, 61_250);
    assert_eq!((s.world_pos_x, s.world_pos_y, s.world_pos_z), (101_500, -2_250, 3_000_125));
    assert_eq!((s.yaw, s.pitch, s.roll), (1_500, -250, 125));
    assert_eq!(s.speed_mps, 0);
    assert_eq!(st.world_pos_z, 3_000_125);
    assert_eq!(st.frame, 0x0102_0304);
}

#[test]
fn motion_packet_cut_short_keeps_the_state() {
    let mut st = PlayerState::default();
    st.world_pos_x = 5;
    let full = motion(1);
    let s = parse_packet(&mut st, &full[..full.len() - 1], 2025).unwrap();
    assert_eq!(s.world_pos_x, 5);
    assert_eq!(s.yaw, 0);
    assert_eq!(s.frame, 0x0102_0304);
}

#[test]
fn lap_data_packet() {
    let mut st = PlayerState::default();
    let s = parse_packet(&mut st, &lap_data(1), 2025).unwrap();
    assert_eq!(s.game, Game::F1_2025);
    assert_eq!(s.lap_distance_m, 1_234_500);
    assert_eq!(s.current_lap_time_s, 45_678);
    assert_eq!(s.last_lap_time_s, 91_500);
    assert_eq!(s.current_lap, 7);
    // A packet that ends behind the lap number still gives the number.
    let mut st = PlayerState::default();
    let full = lap_data(1);
    let s = parse_packet(&mut st, &full[..24 + 51 + 0x11], 2025).unwrap();
    assert_eq!(s.current_lap, 7);
    assert_eq!(s.lap_distance_m, 0);
    let mut st = PlayerState::default();
    let s = parse_packet(&mut st, &full[..24 + 51 + 0x10], 2025).unwrap();
    assert_eq!(s.current_lap, 0);
}

#[test]
fn car_telemetry_packet() {
    let mut st = PlayerState::default();
    let s = parse_packet(&mut st, &car_telemetry(1), 2025).unwrap();
    assert_eq!(s.speed_mps, 50_000);
    assert_eq!(s.throttle, 1000);
    assert_eq!(s.brake, 501);
    assert_eq!(s.gear, -1);
    assert_eq!(s.engine_rpm, 11_000_000);
    let full = car_telemetry(1);
    let mut st = PlayerState::default();
    let s = parse_packet(&mut st, &full[..full.len() - 1], 2025).unwrap();
    assert_eq!(s.speed_mps, 0);
    assert_eq!(s.gear, 0);
}

#[test]
fn packets_build_up_one_state() {
    let mut st = PlayerState::default();
    parse_packet(&mut st, &motion(1), 2025).unwrap();
    parse_packet(&mut st, &lap_data(1), 2025).unwrap();
    let s = parse_packet(&mut st, &car_telemetry(1), 2025).unwrap();
    assert_eq!(s.world_pos_x, 101_500);
    assert_eq!(s.lap_distance_m, 1_234_500);
    assert_eq!(s.current_lap, 7);
    assert_eq!(s.speed_mps, 50_000);
    // A packet of another kind changes the frame only.
    let mut other = packet(1, 1, 2025, 40);
    other[23..27].copy_from_slice(&9u32.to_le_bytes());
    let before = st;
    let s = parse_packet(&mut st, &other, 2025).unwrap();
    assert_eq!(s.frame, 9);
    assert_eq!(st, PlayerState { frame: 9, ..before });
}

#[test]
fn short_buffers_yield_nothing() {
    let mut st = PlayerState::default();
    st.gear = 3;
    assert!(parse_packet(&mut st, &[], 2025).is_none());
    assert!(parse_packet(&mut st, &car_telemetry(1)[..28], 2025).is_none());
    assert_eq!(st, PlayerState { gear: 3, ..PlayerState::default() });
}

#[test]
fn highest_player_index() {
    let mut st = PlayerState::default();
    let s = parse_packet(&mut st, &motion(255), 2025).unwrap();
    assert_eq!(s.car_id, "player:255");
    assert_eq!(s.world_pos_x, 101_500);
    let s = parse_packet(&mut st, &packet(6, 0, 2025, 29), 2025).unwrap();
    assert_eq!(s.car_id, "player:0");
}

#[test]
fn f1_config_default() {
    let cfg = F1Config::default();
    assert_eq!(cfg.bind_addr, "0.0.0.0:20777");
    assert_eq!(cfg.expected_format, 2025);
}

#[test]
fn f1_source_steps() {
    let mut src = F1Source::new(F1Config::default());
    assert_eq!(src.bind_addr(), "0.0.0.0:20777");
    assert_eq!(MIN_DATAGRAM_LEN, 32);
    assert_eq!(src.step(SourceEvent::Tick), SourceAction::Idle);
    // 31 bytes hold a header, but the datagram is dropped.
    assert_eq!(src.step(SourceEvent::Data(packet(6, 1, 2025, 31))), SourceAction::Idle);
    assert!(src.handle_datagram(&packet(6, 1, 2025, 31)).is_none());
    match src.step(SourceEvent::Data(car_telemetry(1))) {
        SourceAction::Emit(s) => assert_eq!(s.speed_mps, 50_000),
        other => panic!("{:?}", other),
    }
    // Each source has a state of its own.
    let mut second = F1Source::new(F1Config::default());
    match second.step(SourceEvent::Data(lap_data(1))) {
        SourceAction::Emit(s) => {
            assert_eq!(s.speed_mps, 0);
            assert_eq!(s.current_lap, 7);
        }
        other => panic!("{:?}", other),
    }
    match src.step(SourceEvent::Data(packet(6, 1, 2025, 32))) {
        SourceAction::Emit(s) => {
            assert_eq!(s.speed_mps, 50_000);
            assert_eq!(s.current_lap, 0);
        }
        other => panic!("{:?}", other),
    }
    assert_eq!(src.step(SourceEvent::ReceiverGone), SourceAction::Stop);
    assert_eq!(
        src.step(SourceEvent::IoFailed("socket closed".to_string())),
        SourceAction::Fail(IngestError::Other("socket closed".to_string()))
    );
}

#[test]
fn decimal_texts() {
    assert_eq!(decimal_string(0), "0");
    assert_eq!(decimal_string(9), "9");
    assert_eq!(decimal_string(10), "10");
    assert_eq!(decimal_string(1_234_567_890), "1234567890");
    assert_eq!(decimal_string(u64::MAX), u64::MAX.to_string());
    assert_eq!(player_car_id(0), "player:0");
    assert_eq!(player_car_id(21), "player:21");
    assert_eq!(player_car_id(255), "player:255");
    let mut text = String::from("lap ");
    append_decimal(&mut text, 107);
    assert_eq!(text, "lap 107");
}
