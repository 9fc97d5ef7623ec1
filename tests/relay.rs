use telemetry_relay::protocol::{decode_stream, encode_stream, RocketData, DATA_STREAM_SIZE};
use telemetry_relay::relay::{
    command_frame, handle_packet, heartbeat_frame, start_cycle, Heartbeat, Ingest,
};
use telemetry_relay::store::{compile_vec, Channel, Command, Data, Reading, Sample};

fn frame(time: u32, altitude: f32) -> RocketData {
    RocketData {
        time,
        altitude: altitude.to_bits(),
        orx: 1.25f32.to_bits(),
        ory: (-2.5f32).to_bits(),
        orz: 0.0f32.to_bits(),
        lat: 42.36f32.to_bits(),
        long: (-71.06f32).to_bits(),
        fix: 3,
        quality: 9,
        cont1: true,
        cont2: false,
    }
}

fn sample(t: u32, v: u32) -> Sample {
    Sample { time_ms: t, value: Reading::Float(v) }
}

fn store_with_altitudes(n: u32) -> Data {
    let mut d = Data::new();
    for i in 1..=n {
        d.altitude.push(sample(i * 100, i));
    }
    d
}

#[test]
fn encode_layout() {
    let f = frame(1500, 123.4);
    let b = encode_stream(f).unwrap();
    assert_eq!(b.len(), DATA_STREAM_SIZE);
    assert_eq!(&b[0..4], &1500u32.to_le_bytes());
    assert_eq!(&b[4..8], &123.4f32.to_le_bytes());
    assert_eq!(&b[24..28], &(-71.06f32).to_le_bytes());
    assert_eq!(b[28], 0x93);
    assert_eq!(b[29], 1);
}

#[test]
fn encode_continuity_and_nibble_truncation() {
    let mut f = frame(0, 0.0);
    f.cont1 = true;
    f.cont2 = true;
    f.fix = 0x1f;
    f.quality = 0x12;
    let b = encode_stream(f).unwrap();
    assert_eq!(b[28], 0x2f);
    assert_eq!(b[29], 3);
}

#[test]
fn decode_encode_round_trip() {
    for (c1, c2) in [(false, false), (true, false), (false, true), (true, true)] {
        let mut f = frame(0xdead_beef, 123.4);
        f.cont1 = c1;
        f.cont2 = c2;
        f.fix = 15;
        f.quality = 0;
        let back = decode_stream(encode_stream(f).unwrap()).unwrap();
        assert_eq!(back, f);
        assert_eq!(f32::from_bits(back.altitude), 123.4f32);
    }
}

#[test]
fn decode_masks_nibbles_and_flags() {
    let mut b = [0u8; DATA_STREAM_SIZE];
    b[28] = 0xa5;
    b[29] = 2;
    let f = decode_stream(b).unwrap();
    assert_eq!(f.fix, 5);
    assert_eq!(f.quality, 10);
    assert!(!f.cont1);
    assert!(f.cont2);
}

#[test]
fn decoded_frame_lands_in_altitude_channel() {
    let mut d = Data::new();
    let packet = encode_stream(frame(1500, 123.4)).unwrap().to_vec();
    let out = handle_packet(&mut d, &packet);
    assert_eq!(out, Ingest::Recorded(frame(1500, 123.4)));
    let alt = d.query("alt", 0);
    assert_eq!(alt, vec![Sample { time_ms: 1500, value: Reading::Float(123.4f32.to_bits()) }]);
    assert_eq!(alt[0].time_ms as f32 / 1000f32, 1.5f32);
    assert_eq!(d.query("fix", 0)[0].value, Reading::Level(3));
    assert_eq!(d.query("quality", 0)[0].value, Reading::Level(9));
    assert_eq!(d.query("cont_droug", 0)[0].value, Reading::Level(1));
    assert_eq!(d.query("cont_main", 0)[0].value, Reading::Level(0));
    for c in [
        Channel::Altitude, Channel::Orx, Channel::Ory, Channel::Orz, Channel::Lat,
        Channel::Long, Channel::Fix, Channel::Quality, Channel::ContMain, Channel::ContDroug,
    ] {
        assert_eq!(d.samples(c).len(), 1);
    }
}

#[test]
fn empty_and_short_packets_leave_store_alone() {
    let mut d = Data::new();
    assert_eq!(handle_packet(&mut d, &vec![]), Ingest::Nothing);
    assert_eq!(handle_packet(&mut d, &vec![1, 2, 3, 4, 5]), Ingest::WrongLength(5));
    assert_eq!(handle_packet(&mut d, &vec![0; 31]), Ingest::WrongLength(31));
    assert!(d.query("alt", 0).is_empty());
}

#[test]
fn windowed_reads_of_ten_entries() {
    let d = store_with_altitudes(10);
    let skip5 = d.query("alt", 5);
    assert_eq!(skip5, (6..=10).map(|i| sample(i * 100, i)).collect::<Vec<_>>());
    let last3 = d.query("alt", -3);
    assert_eq!(last3, (8..=10).map(|i| sample(i * 100, i)).collect::<Vec<_>>());
}

#[test]
fn skip_zero_returns_everything() {
    let d = store_with_altitudes(4);
    assert_eq!(d.query("alt", 0), d.altitude);
}

#[test]
fn skip_past_end_returns_nothing() {
    let d = store_with_altitudes(4);
    assert!(d.query("alt", 4).is_empty());
    assert!(d.query("alt", 100).is_empty());
    assert_eq!(d.query("alt", 3).len(), 1);
}

#[test]
fn tail_clamps_to_whole_channel() {
    let d = store_with_altitudes(4);
    assert_eq!(d.query("alt", -4), d.altitude);
    assert_eq!(d.query("alt", -100), d.altitude);
    assert_eq!(d.query("alt", i32::MIN), d.altitude);
    assert_eq!(d.query("alt", -1), vec![sample(400, 4)]);
    assert!(Data::new().query("alt", -3).is_empty());
}

#[test]
fn unknown_channel_reads_empty() {
    let d = store_with_altitudes(4);
    assert!(d.query("altitude", 0).is_empty());
    assert!(d.query("", -1).is_empty());
}

#[test]
fn compile_vec_windows() {
    let v: Vec<Sample> = (1..=6).map(|i| sample(i, i)).collect();
    assert_eq!(compile_vec(&v, 2, false), v[2..].to_vec());
    assert_eq!(compile_vec(&v, 2, true), v[4..].to_vec());
    assert_eq!(compile_vec(&v, 6, false), vec![]);
    assert_eq!(compile_vec(&v, 7, true), v);
}

#[test]
fn drain_keeps_order_and_empties_queue() {
    let mut d = Data::new();
    d.handle_cmd_val("test", 1);
    d.handle_cmd_val("bogus", 2);
    d.handle_cmd_val("test", 3);
    let cmds = d.drain();
    let got: Vec<(String, u32)> = cmds.into_iter().map(|c| (c.name, c.arg)).collect();
    assert_eq!(got, vec![("test".to_string(), 1), ("bogus".to_string(), 2), ("test".to_string(), 3)]);
    assert!(d.cmds.is_empty());
    assert!(d.drain().is_empty());
}

#[test]
fn test_command_goes_out_as_opcode_and_float() {
    let mut d = Data::new();
    d.handle_cmd_val("test", 12.5f32.to_bits());
    let cmds = start_cycle(&mut d).unwrap();
    assert_eq!(cmds.len(), 1);
    let b = 12.5f32.to_le_bytes();
    assert_eq!(command_frame(&cmds[0]), Some([2, b[0], b[1], b[2], b[3]]));
    assert!(d.cmds.is_empty());
}

#[test]
fn unknown_command_is_not_sent() {
    let c = Command { name: "launch".to_string(), arg: 0 };
    assert_eq!(command_frame(&c), None);
}

#[test]
fn heartbeat_pattern() {
    assert_eq!(heartbeat_frame(), [1, 1, 1, 1, 1]);
}

#[test]
fn heartbeat_at_most_every_two_seconds() {
    let mut hb = Heartbeat::new(0);
    let mut sent = vec![];
    let mut t: u64 = 0;
    while t <= 10_000 {
        if hb.tick(t) {
            sent.push(t);
        }
        t += 50;
    }
    assert_eq!(sent, vec![2000, 4000, 6000, 8000, 10_000]);
    let mut hb = Heartbeat::new(1000);
    assert!(!hb.tick(2999));
    assert!(hb.tick(3000));
    assert!(!hb.tick(4999));
    assert!(!hb.tick(10));
    assert_eq!(hb.last_ms, 3000);
}

#[test]
fn quit_stops_relay_and_serving() {
    let mut d = Data::new();
    d.handle_cmd_val("test", 1);
    assert!(!d.handle_cmd("stop"));
    assert!(d.is_alive);
    assert!(d.handle_cmd("quit"));
    assert!(d.do_quit);
    assert!(!d.is_alive);
    assert!(start_cycle(&mut d).is_none());
    assert_eq!(d.cmds.len(), 1);
    assert!(!d.api_stopped());
}

#[test]
fn api_stop_without_quit_requests_restart() {
    let mut d = Data::new();
    assert!(d.api_stopped());
    assert!(!d.is_alive);
    assert!(start_cycle(&mut d).is_none());
}
