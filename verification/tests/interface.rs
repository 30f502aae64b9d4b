use demod_bt::audio::{AdaptiveJitter, DeviceMonitor};
use demod_bt::ble_midi::{frame_message, MidiError};
use demod_bt::bluez::BlueZEvent;
use demod_bt::clock::timestamp_of;
use demod_bt::codec::AudioCodec;
use demod_bt::dcf::DcfHeader;
use demod_bt::dcf_server::{
    command_message, gui_frame_at, inbound_event, inbound_len, socket_path, DcfServer, GuiMsgType,
};
use demod_bt::ffi::{
    init_config, low_u16, status_line, FfiEvent, EVT_CODEC_NEGOTIATED, EVT_DEVICE_CONNECTED,
    EVT_DEVICE_DISCONNECTED, EVT_ERROR, EVT_NONE, EVT_TRANSPORT_ACQUIRED, EVT_TRANSPORT_PENDING,
    EVT_TRANSPORT_RELEASED, EVT_VOLUME_CHANGED,
};
use demod_bt::text;
use demod_bt::transport::{StreamDirection, StreamMetrics};

fn crossed(e: BlueZEvent) -> (i32, Option<String>) {
    let e = FfiEvent::of_event(Some(e));
    (e.event_type, e.string_data)
}

fn some(s: &str) -> Option<String> {
    Some(s.to_string())
}

#[test]
fn events_cross_the_interface() {
    let none = FfiEvent::of_event(None);
    assert_eq!((none.event_type, none.fd, none.string_data), (EVT_NONE, -1, None));
    let s = |t: &str| t.to_string();
    assert_eq!(
        crossed(BlueZEvent::DeviceConnected { address: s("AA"), name: s("P") }),
        (EVT_DEVICE_CONNECTED, some("AA|P"))
    );
    assert_eq!(
        crossed(BlueZEvent::DeviceDisconnected { address: s("AA") }),
        (EVT_DEVICE_DISCONNECTED, some("AA"))
    );
    assert_eq!(
        crossed(BlueZEvent::TransportPending { path: s("/p") }),
        (EVT_TRANSPORT_PENDING, some("/p"))
    );
    assert_eq!(
        crossed(BlueZEvent::TransportReleased { path: s("/p") }),
        (EVT_TRANSPORT_RELEASED, some("/p"))
    );
    assert_eq!(
        crossed(BlueZEvent::CodecNegotiated { codec: AudioCodec::Sbc, config: vec![1] }),
        (EVT_CODEC_NEGOTIATED, some("SBC"))
    );
    assert_eq!(
        crossed(BlueZEvent::VolumeChanged { volume: 120 }),
        (EVT_VOLUME_CHANGED, some("120"))
    );
    assert_eq!(crossed(BlueZEvent::Error { message: s("e") }), (EVT_ERROR, some("e")));
    // A text with a NUL character cannot cross.
    assert_eq!(crossed(BlueZEvent::Error { message: s("a\0b") }), (EVT_ERROR, None));
    let e = FfiEvent::of_event(Some(BlueZEvent::TransportAcquired {
        path: s("/p"),
        fd: 7,
        read_mtu: 100,
        write_mtu: 200,
    }));
    assert_eq!((e.event_type, e.fd, e.read_mtu, e.write_mtu), (EVT_TRANSPORT_ACQUIRED, 7, 100, 200));
    assert_eq!(e.string_data, some("/p"));
}

#[test]
fn initial_configuration() {
    let c = init_config(48000, 0x1_0002, 0, 40, 239);
    assert_eq!((c.sample_rate, c.channels, c.bit_depth), (48000, 2, 16));
    assert_eq!((c.jitter_buffer_ms, c.dcf_payload_size), (40, 239));
    assert_eq!(c.direction, StreamDirection::Sink);
    assert_eq!(init_config(1, 1, -1, 1, 1).direction, StreamDirection::Source);
    assert_eq!(low_u16(65541), 5);
}

#[test]
fn status_lines() {
    assert_eq!(status_line(None), "DeMoD BT v0.1.0 | NOT INITIALIZED");
    let mut m = StreamMetrics::new();
    m.frames_processed = 10;
    m.underruns = 2;
    m.overruns = 3;
    m.buffer_level = 4294967295;
    assert_eq!(
        status_line(Some((true, m.snapshot()))),
        "DeMoD BT v0.1.0 | STREAMING | frames:10 underruns:2 overruns:3 buf:4294967295"
    );
    assert_eq!(
        status_line(Some((false, StreamMetrics::default().snapshot()))),
        "DeMoD BT v0.1.0 | IDLE | frames:0 underruns:0 overruns:0 buf:0"
    );
}

#[test]
fn timestamps() {
    assert_eq!(timestamp_of(None), 0);
    assert_eq!(timestamp_of(Some(5)), 5);
    assert_eq!(timestamp_of(Some((1u128 << 64) + 9)), 9);
}

#[test]
fn server_frames() {
    assert_eq!(
        gui_frame_at(0x21, 1, 2, &[9]),
        vec![0x21, 0, 0, 0, 1, 0, 0, 0, 0, 0, 0, 0, 2, 0, 0, 0, 1, 9]
    );
    let mut s = DcfServer::new();
    let bytes = s.broadcast_track_metadata("Té", "A", "");
    let h = DcfHeader::deserialize(&bytes).unwrap();
    assert_eq!((h.msg_type, h.sequence, h.payload_len), (0x30, 0, 7));
    assert!(h.timestamp > 1_577_836_800_000_000);
    assert_eq!(bytes[17..].to_vec(), vec![b'T', 0xC3, 0xA9, 0, b'A', 0, 0]);
    let bytes = s.broadcast_volume(0x0164);
    assert_eq!(DcfHeader::deserialize(&bytes).unwrap().sequence, 1);
    assert_eq!((bytes[0], bytes[17..].to_vec()), (0x21, vec![0x64, 0]));
    let bytes = s.broadcast_playback_state("ok", 258);
    assert_eq!((bytes[0], bytes[17..].to_vec()), (0x31, vec![b'o', b'k', 0, 0, 0, 0, 0, 0, 0, 1, 2]));
    let bytes = s.broadcast_codec("SBC");
    assert_eq!((bytes[0], bytes[17..].to_vec()), (0x20, b"SBC\0".to_vec()));
    let bytes = s.broadcast(GuiMsgType::Heartbeat.as_u8(), &[]);
    assert_eq!((bytes[0], bytes.len()), (0x01, 17));
    assert_eq!(DcfHeader::deserialize(&bytes).unwrap().sequence, 4);
}

#[test]
fn socket_paths() {
    assert_eq!(socket_path(some("/a/b"), some("/run")), "/a/b");
    assert_eq!(socket_path(None, some("/run")), "/run/demod-bt.sock");
    assert_eq!(socket_path(None, None), "/tmp/demod-bt.sock");
}

#[test]
fn inbound_frames() {
    let header = |len: u32| DcfHeader { msg_type: 0x31, sequence: 0, timestamp: 0, payload_len: len };
    assert_eq!(inbound_len(&header(256)), Some(256));
    assert_eq!(inbound_len(&header(257)), None);
    assert!(matches!(
        inbound_event(0x21, &[100, 0]),
        Some(BlueZEvent::VolumeChanged { volume: 100 })
    ));
    assert!(inbound_event(0x21, &[]).is_none());
    assert!(inbound_event(0x30, b"x").is_none());
    let message = |payload: &[u8]| match inbound_event(0x31, payload) {
        Some(BlueZEvent::Error { message }) => message,
        _ => String::new(),
    };
    assert_eq!(message(b"play\0"), "AVRCP:Play");
    assert_eq!(message(b"pause\0\0\0"), "AVRCP:Pause");
    assert_eq!(message(b"Next"), "AVRCP:Next");
    assert_eq!(message(b""), "AVRCP:");
    assert_eq!(message("élan".as_bytes()), "AVRCP:Élan");
    assert_eq!(message("ßx".as_bytes()), "AVRCP:SSx");
    assert_eq!(message(&[b'a', 0xFF]), "AVRCP:A\u{FFFD}");
    assert_eq!(command_message(&['p', 'q'], "P"), "AVRCP:Pq");
}

#[test]
fn midi_packets() {
    assert_eq!(frame_message(0, &[0x90, 60, 100]).unwrap(), vec![0x80, 0x80, 0x90, 60, 100]);
    assert_eq!(frame_message(0x1FFF, &[0xF8]).unwrap(), vec![0xBF, 0xFF, 0xF8]);
    assert_eq!(frame_message(0x2000 + 129, &[0xF8]).unwrap(), vec![0x81, 0x81, 0xF8]);
    assert_eq!(frame_message(5, &[]), Err(MidiError::Empty));
    assert_eq!(MidiError::Empty.message(), "empty MIDI message");
}

#[test]
fn jitter_bounds() {
    let mut j = AdaptiveJitter::new(48000, 2, 40);
    assert_eq!(j.target(), 3840);
    assert_eq!(j.on_packet(1000), None);
    assert_eq!(j.on_packet(4000), Some(3000));
    assert_eq!(j.on_packet(3000), Some(0));
    assert_eq!(j.on_packet(1_003_000), Some(1_000_000));
    assert_eq!(j.on_packet(2_003_001), None);
    assert_eq!(j.on_packet(2_003_002), Some(1));
    assert_eq!(j.packet_count(), 6);
    assert_eq!(j.target(), 3840);
    assert_eq!(j.retarget(1), 960);
    assert_eq!(j.retarget(1_000_000), 19200);
    assert_eq!(j.retarget(5000), 5000);
    assert_eq!(j.target(), 5000);
}

#[test]
fn device_changes() {
    let mut m = DeviceMonitor::new("a".to_string());
    assert!(!m.check("a".to_string()));
    assert!(!m.check(String::new()));
    assert!(m.check("b".to_string()));
    assert!(!m.check("b".to_string()));
    assert!(m.changed());
    assert!(m.take_changed());
    assert!(!m.changed());
    assert!(!m.take_changed());
}

#[test]
fn texts() {
    let chars = |s: &str| text::chars_of(s);
    assert_eq!(text::string_of(text::trim(&chars("\u{3000} a b\n"))), "a b");
    assert_eq!(text::to_lower("AbZ[É"), "abz[É");
    assert!(text::contains("abcabd", "abd") && !text::contains("ab", "abc"));
    assert!(text::contains("x", ""));
    assert_eq!(text::find(&chars("aab"), &chars("ab")), Some(1));
    assert_eq!(text::replace(&chars("a_b_"), '_', ':'), "a:b:");
    assert_eq!(text::parse_u32(&chars("4294967295")), Some(4294967295));
    assert_eq!(text::parse_u32(&chars("4294967296")), None);
    assert_eq!(text::parse_u32(&chars("")), None);
    assert_eq!(text::parse_u32(&chars("+")), None);
    assert_eq!(text::parse_u32(&chars("-1")), None);
    assert!(text::str_equal("", "") && !text::str_equal("a", "b"));
    assert!(text::contains_char("a:b", ':') && !text::contains_char("", ':'));
}
