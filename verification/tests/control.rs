use demod_bt::avrcp::{
    update_metadata, update_position, update_status, MediaPlayer, PlaybackInfo, PlayerCommand,
    TrackValue,
};
use demod_bt::bluez::{
    self, endpoint_path, endpoint_properties, endpoint_uuid, BlueZEvent, MediaEndpoint,
    SelectError, TransportState,
};
use demod_bt::codec::AudioCodec;
use demod_bt::compat::{
    apply_version_workarounds, detect_bluez_version, detect_from_texts, parse_version,
    BlueZVersion, CompatInfo, ScmsTConfig,
};
use demod_bt::engine::EngineError;
use demod_bt::runtime::{
    after_register, endpoint_direction, enumerate_adapter, env_flag, on_signal,
    parse_address_from_path, wants_body, ChangedProperties, ManagedObject, RegisterStep, Runtime,
    RuntimeError, SignalHead,
};
use demod_bt::transport::{AudioConfig, StreamDirection};

fn some(s: &str) -> Option<String> {
    Some(s.to_string())
}

// Negotiation

#[test]
fn best_configuration_is_selected() {
    let e = MediaEndpoint::new(bluez::StreamDirection::Sink, 76);
    assert_eq!(
        e.select_configuration(&[0xFF, 0xFF, 2, 53]).unwrap(),
        vec![0x48, 0x8A, 53, 53]
    );
    assert_eq!(
        e.select_configuration(&[0xFF, 0xFF, 2, 250]).unwrap(),
        vec![0x48, 0x8A, 76, 76]
    );
}

#[test]
fn selection_falls_back() {
    let e = MediaEndpoint::new(bluez::StreamDirection::Sink, 53);
    assert_eq!(e.select_configuration(&[0x84, 0x44 | 0x01, 2, 80]).unwrap(), vec![0x84, 0x45, 53, 53]);
    assert_eq!(e.select_configuration(&[0x22, 0x24, 2, 80]).unwrap(), vec![0x22, 0x25, 53, 53]);
    assert_eq!(e.select_configuration(&[0, 0, 60, 80]).unwrap(), vec![0x11, 0x15, 60, 60]);
    let e = MediaEndpoint::new(bluez::StreamDirection::Sink, 200);
    assert_eq!(e.select_configuration(&[0, 0, 2, 255, 9]).unwrap()[2], 76);
}

#[test]
fn short_capabilities_are_refused() {
    let e = MediaEndpoint::new(bluez::StreamDirection::Source, 53);
    assert_eq!(e.select_configuration(&[1, 2, 3]), Err(SelectError::TooShort));
    assert_eq!(SelectError::TooShort.message(), "SBC capabilities too short");
}

#[test]
fn transports_come_and_go() {
    let mut e = MediaEndpoint::new(bluez::StreamDirection::Sink, 53);
    let event = e.set_configuration("/fd0", Some(vec![1, 2]), Some(0));
    assert!(matches!(
        event,
        BlueZEvent::CodecNegotiated { codec: AudioCodec::Sbc, config } if config == vec![1, 2]
    ));
    e.set_configuration("/fd1", None, Some(2));
    let event = e.set_configuration("/fd0", Some(vec![3]), Some(0x77));
    assert!(matches!(event, BlueZEvent::CodecNegotiated { codec: AudioCodec::Sbc, .. }));
    let t = e.transport("/fd0").unwrap();
    assert_eq!(t.configuration, vec![3]);
    assert_eq!(t.state, TransportState::Pending);
    assert_eq!(e.transport("/fd1").unwrap().codec, AudioCodec::Aac);
    assert!(e.transport("/fd1").unwrap().configuration.is_empty());
    let event = e.clear_configuration("/fd0");
    assert!(matches!(event, BlueZEvent::TransportReleased { path } if path == "/fd0"));
    assert!(e.transport("/fd0").is_none());
    assert!(e.transport("/fd1").is_some());
    e.clear_configuration("/unknown");
    assert!(e.transport("/fd1").is_some());
    assert!(matches!(
        e.set_configuration("/fd2", None, None),
        BlueZEvent::CodecNegotiated { codec: AudioCodec::Sbc, .. }
    ));
}

#[test]
fn endpoints() {
    assert_eq!(endpoint_path(bluez::StreamDirection::Sink), "/org/demod/bt/sink/sbc");
    assert_eq!(endpoint_path(bluez::StreamDirection::Source), "/org/demod/bt/source/sbc");
    assert_eq!(
        endpoint_uuid(bluez::StreamDirection::Sink),
        "0000110b-0000-1000-8000-00805f9b34fb"
    );
    let p = endpoint_properties(endpoint_direction(StreamDirection::Source), Some(vec![2, 0]));
    assert_eq!(p.uuid, "0000110a-0000-1000-8000-00805f9b34fb");
    assert_eq!((p.codec, p.capabilities), (0, vec![0xFF, 0xFF, 2, 53]));
    assert_eq!(p.content_protection, Some(vec![2, 0]));
}

// Compatibility

#[test]
fn versions() {
    let v = |major: u32, minor: u32| Some(BlueZVersion { major, minor });
    assert_eq!(parse_version("5.72"), v(5, 72));
    assert_eq!(parse_version("  bluetoothd - 5.86\n"), v(5, 86));
    assert_eq!(parse_version("5.64.1"), v(5, 64));
    assert_eq!(parse_version("+5.+6"), v(5, 6));
    assert_eq!(parse_version("5"), None);
    assert_eq!(parse_version("5."), None);
    assert_eq!(parse_version("a.b"), None);
    assert_eq!(parse_version("4294967296.1"), None);
    assert_eq!(BlueZVersion { major: 5, minor: 83 }.text(), "5.83");
    assert_eq!(parse_version("5.83"), v(5, 83));
}

#[test]
fn workarounds() {
    let of = |minor: u32| {
        let mut info = CompatInfo::default();
        apply_version_workarounds(&mut info, BlueZVersion { major: 5, minor });
        (info.needs_manual_a2dp_connect, info.max_safe_bitpool, info.has_experimental)
    };
    assert_eq!(of(63), (false, 53, false));
    assert_eq!(of(64), (false, 76, false));
    assert_eq!(of(66), (false, 76, true));
    assert_eq!(of(83), (true, 76, true));
    assert_eq!(of(84), (true, 76, true));
    assert_eq!(of(85), (false, 76, true));
    let mut info = CompatInfo::default();
    apply_version_workarounds(&mut info, BlueZVersion { major: 6, minor: 0 });
    assert_eq!(
        (info.needs_manual_a2dp_connect, info.max_safe_bitpool, info.has_experimental),
        (false, 76, true)
    );
    let mut info = CompatInfo::default();
    apply_version_workarounds(&mut info, BlueZVersion { major: 4, minor: 101 });
    assert_eq!(info, CompatInfo::default());
}

#[test]
fn detection_takes_the_first_answer() {
    let info = detect_bluez_version(&[None, Some(b"what?".to_vec()), Some(b"5.84\n".to_vec())]);
    assert_eq!(info.version, Some(BlueZVersion { major: 5, minor: 84 }));
    assert!(info.needs_manual_a2dp_connect);
    assert_eq!(detect_bluez_version(&[]), CompatInfo::default());
    let info = detect_from_texts(&[some("5.64"), some("5.84")]);
    assert!(!info.needs_manual_a2dp_connect);
    assert_eq!(info.max_safe_bitpool, 76);
}

#[test]
fn content_protection() {
    assert_eq!(ScmsTConfig::default().capability_bytes(), None);
    assert_eq!(ScmsTConfig::with_scmst().capability_bytes(), Some(vec![2, 0]));
    let c = ScmsTConfig { enabled: true, cp_type: 0x1234, copy_byte: 0 };
    assert_eq!(c.capability_bytes(), Some(vec![0x34, 0x12]));
}

// Remote control

#[test]
fn playback_state() {
    let mut p = PlaybackInfo::default();
    assert_eq!((p.status.as_str(), p.repeat.as_str()), ("stopped", "off"));
    update_position(&mut p, 77);
    update_status(&mut p, "playing");
    assert_eq!(p.position_us, 77);
    update_metadata(&mut p, "T", "A", "B", 5);
    assert_eq!((p.title.as_str(), p.artist.as_str(), p.album.as_str()), ("T", "A", "B"));
    assert_eq!((p.duration_us, p.position_us), (5, 0));
    assert_eq!(p.status, "playing");
}

#[test]
fn track_dictionary() {
    let mut m = MediaPlayer::new();
    assert!(m.track().is_empty());
    m.info.title = "T".to_string();
    m.info.genre = "G".to_string();
    m.info.track_number = 3;
    m.info.duration_us = 9;
    let track = m.track();
    let keys: Vec<&str> = track.iter().map(|e| e.0).collect();
    assert_eq!(keys, vec!["Title", "Genre", "TrackNumber", "Duration"]);
    assert!(matches!(&track[0].1, TrackValue::Text(s) if s == "T"));
    assert!(matches!(track[2].1, TrackValue::Number(3)));
    assert!(matches!(track[3].1, TrackValue::Micros(9)));
    assert_eq!((m.shuffle(), m.repeat().as_str(), m.name()), ("off", "off", "DeMoD BT"));
    m.info.shuffle = true;
    assert_eq!(m.shuffle(), "alltracks");
    assert_eq!((m.player_type(), m.subtype()), ("Audio", "Music"));
    assert!(!m.browsable() && !m.searchable());
    assert_eq!((m.status().as_str(), m.position()), ("stopped", 0));
}

#[test]
fn commands() {
    let text = |c: PlayerCommand| match c.event() {
        BlueZEvent::Error { message } => message,
        _ => String::new(),
    };
    assert_eq!(text(PlayerCommand::Play), "AVRCP:Play");
    assert_eq!(text(PlayerCommand::Pause), "AVRCP:Pause");
    assert_eq!(text(PlayerCommand::Stop), "AVRCP:Stop");
    assert_eq!(text(PlayerCommand::Next), "AVRCP:Next");
    assert_eq!(text(PlayerCommand::Previous), "AVRCP:Previous");
    assert_eq!(text(PlayerCommand::FastForward), "AVRCP:FastForward");
    assert_eq!(text(PlayerCommand::Rewind), "AVRCP:Rewind");
}

// Registration

fn object(path: &str, adapter: bool, powered: bool) -> ManagedObject {
    ManagedObject { path: path.to_string(), adapter, powered }
}

#[test]
fn adapters() {
    let list = || {
        Some(vec![
            object("/x", false, true),
            object("/hci1", true, false),
            object("/hci2", true, true),
            object("/hci3", true, true),
        ])
    };
    assert_eq!(enumerate_adapter(some("/mine"), list()), "/mine");
    assert_eq!(enumerate_adapter(None, list()), "/hci2");
    let mut unpowered = list().unwrap();
    unpowered.truncate(2);
    assert_eq!(enumerate_adapter(None, Some(unpowered)), "/hci1");
    assert_eq!(enumerate_adapter(None, Some(vec![])), "/org/bluez/hci0");
    assert_eq!(enumerate_adapter(None, None), "/org/bluez/hci0");
}

#[test]
fn flags() {
    for s in ["1", "true", "YES", "On"] {
        assert!(env_flag(&some(s)));
    }
    for s in ["", "0", "no", "tru", " 1"] {
        assert!(!env_flag(&some(s)));
    }
    assert!(!env_flag(&None));
}

#[test]
fn registration_is_repeated_with_protection() {
    let off = ScmsTConfig::default();
    let on = ScmsTConfig::with_scmst();
    assert!(matches!(after_register(off, Ok(())), RegisterStep::Registered));
    let step = after_register(off, Err("Content Protection required".to_string()));
    assert!(matches!(step, RegisterStep::Retry(c) if c == on));
    let step = after_register(off, Err("no SCMS-T".to_string()));
    assert!(matches!(step, RegisterStep::Retry(_)));
    let step = after_register(off, Err("content".to_string()));
    assert!(matches!(step, RegisterStep::Failed(RuntimeError::EndpointRegister(m)) if m == "content"));
    let step = after_register(on, Err("scms".to_string()));
    assert!(matches!(step, RegisterStep::Failed(_)));
}

// Signals

fn head(path: Option<&str>) -> SignalHead {
    SignalHead {
        is_signal: true,
        interface: some("org.freedesktop.DBus.Properties"),
        member: some("PropertiesChanged"),
        path: path.map(|p| p.to_string()),
    }
}

fn body(interface: &str) -> ChangedProperties {
    ChangedProperties {
        interface: interface.to_string(),
        state: None,
        volume: None,
        connected: None,
        address: None,
        name: None,
    }
}

#[test]
fn transport_signals() {
    let mut b = body("org.bluez.MediaTransport1");
    b.state = some("pending");
    b.volume = Some(99);
    let events = on_signal(&head(Some("/fd3")), &Some(b.clone()));
    assert_eq!(events.len(), 2);
    assert!(matches!(&events[0], BlueZEvent::TransportPending { path } if path == "/fd3"));
    assert!(matches!(&events[1], BlueZEvent::VolumeChanged { volume: 99 }));
    b.state = some("active");
    b.volume = None;
    assert!(on_signal(&head(None), &Some(b.clone())).is_empty());
    b.state = some("pending");
    let events = on_signal(&head(None), &Some(b));
    assert!(matches!(&events[0], BlueZEvent::TransportPending { path } if path == "?"));
}

#[test]
fn device_signals() {
    let mut b = body("org.bluez.Device1");
    b.connected = Some(true);
    let path = "/org/bluez/hci0/dev_AA_BB_CC_DD_EE_FF";
    let events = on_signal(&head(Some(path)), &Some(b.clone()));
    assert!(matches!(
        &events[0],
        BlueZEvent::DeviceConnected { address, name }
            if address == "AA:BB:CC:DD:EE:FF" && name == "Unknown"
    ));
    b.address = some("11:22");
    b.name = some("Phone");
    let events = on_signal(&head(Some(path)), &Some(b.clone()));
    assert!(matches!(
        &events[0],
        BlueZEvent::DeviceConnected { address, name } if address == "11:22" && name == "Phone"
    ));
    b.connected = Some(false);
    b.address = None;
    let events = on_signal(&head(Some("/other")), &Some(b.clone()));
    assert!(matches!(&events[0], BlueZEvent::DeviceDisconnected { address } if address == "?"));
    b.connected = None;
    assert!(on_signal(&head(Some(path)), &Some(b)).is_empty());
}

#[test]
fn other_messages_are_ignored() {
    let mut b = body("org.bluez.MediaTransport1");
    b.volume = Some(1);
    let mut h = head(None);
    assert!(wants_body(&h));
    assert_eq!(on_signal(&h, &Some(b.clone())).len(), 1);
    assert!(on_signal(&h, &None).is_empty());
    h.is_signal = false;
    assert!(on_signal(&h, &Some(b.clone())).is_empty());
    h = head(None);
    h.member = None;
    assert!(!wants_body(&h) && on_signal(&h, &Some(b.clone())).is_empty());
    h = head(None);
    h.interface = some("org.bluez.Device1");
    assert!(on_signal(&h, &Some(b.clone())).is_empty());
    b.interface = "org.bluez.Adapter1".to_string();
    assert!(on_signal(&head(None), &Some(b)).is_empty());
}

#[test]
fn addresses() {
    assert_eq!(
        parse_address_from_path("/org/bluez/hci0/dev_AA_BB_CC_DD_EE_FF"),
        some("AA:BB:CC:DD:EE:FF")
    );
    assert_eq!(parse_address_from_path("/dev_AA"), None);
    assert_eq!(parse_address_from_path("/hci0"), None);
    assert_eq!(parse_address_from_path("dev_dev_A"), some("dev:A"));
}

// Streams

fn runtime() -> Runtime {
    Runtime::new(AudioConfig::default(), None, None)
}

#[test]
fn settings() {
    let r = Runtime::new(AudioConfig::default(), some(" \t"), some("yes"));
    assert_eq!(r.wanted_adapter(), None);
    assert!(r.protection().enabled);
    let r = Runtime::new(AudioConfig::default(), some("/hci7"), some("no"));
    assert_eq!(r.wanted_adapter(), some("/hci7"));
    assert!(!r.protection().enabled);
    assert_eq!(r.direction(), StreamDirection::Sink);
    assert_eq!(r.get_volume(), 127);
    assert!(r.can_begin());
}

#[test]
fn events_are_polled_in_order() {
    let mut r = runtime();
    assert!(r.poll_event(false).is_none());
    r.post(BlueZEvent::VolumeChanged { volume: 1 });
    r.post(BlueZEvent::CodecNegotiated { codec: AudioCodec::Sbc, config: vec![9, 8] });
    assert!(matches!(r.poll_event(false), Some(BlueZEvent::VolumeChanged { volume: 1 })));
    assert!(matches!(r.poll_event(false), Some(BlueZEvent::CodecNegotiated { .. })));
    assert!(r.poll_event(false).is_none());
    // The negotiated configuration is used from then on.
    r.registered("/hci0".to_string(), ScmsTConfig::default(), 76);
    assert_eq!(r.acquire_and_start("/fd", Ok((3, 10, 20))).unwrap(), vec![9, 8]);
}

#[test]
fn acquisition() {
    let mut r = runtime();
    assert!(matches!(r.check_connected(), Err(RuntimeError::NotConnected)));
    assert!(matches!(r.acquire_and_start("/fd", Ok((3, 1, 2))), Err(RuntimeError::NotConnected)));
    r.registered("/hci0".to_string(), ScmsTConfig::default(), 53);
    assert!(r.check_connected().is_ok());
    let e = r.acquire_and_start("/fd", Err("Operation not permitted".to_string())).unwrap_err();
    assert_eq!(e.message(), "Transport not ready (wrong state, will retry): /fd");
    let e = r.acquire_and_start("/fd", Err("not available now".to_string())).unwrap_err();
    assert!(matches!(e, RuntimeError::TransportNotReady(_)));
    let e = r.acquire_and_start("/fd", Err("busy".to_string())).unwrap_err();
    assert_eq!(e.message(), "Transport acquisition failed: busy");
    assert_eq!(r.acquire_and_start("/fd", Ok((3, 10, 20))).unwrap(), vec![0x48, 0x8A, 53, 53]);
    assert!(matches!(
        r.poll_event(false),
        Some(BlueZEvent::TransportAcquired { path, fd: 3, read_mtu: 10, write_mtu: 20 }) if path == "/fd"
    ));
}

#[test]
fn streams_begin_and_end() {
    let mut r = runtime();
    r.registered("/hci0".to_string(), ScmsTConfig::default(), 53);
    r.acquire_and_start("/fd", Ok((3, 10, 20))).unwrap();
    let s = r.begin_stream();
    assert!(!s.stop_first);
    assert_eq!(s.direction, StreamDirection::Sink);
    let e = r.start_stream(Err(EngineError::NoAudioDevice), &[1]).unwrap_err();
    assert_eq!(e.message(), "Engine start failed: No audio device found");
    assert!(!r.is_streaming(true));
    assert_eq!(r.start_stream(Ok(()), &[1, 2, 3, 4]).unwrap(), 127);
    assert!(r.is_streaming(true) && !r.is_streaming(false));
    r.poll_event(true);
    // The engine runs no longer.
    r.post(BlueZEvent::VolumeChanged { volume: 5 });
    assert!(matches!(
        r.poll_event(false),
        Some(BlueZEvent::TransportReleased { path }) if path == "/fd"
    ));
    assert!(matches!(r.poll_event(false), Some(BlueZEvent::VolumeChanged { volume: 5 })));
    assert!(!r.stop_stream());
    // The configuration of the last stream is kept.
    assert_eq!(r.acquire_and_start("/fd", Ok((3, 10, 20))).unwrap(), vec![1, 2, 3, 4]);
}

#[test]
fn an_engine_that_played_nothing_is_reported() {
    let mut r = runtime();
    r.begin_stream();
    r.start_stream(Ok(()), &[1]).unwrap();
    assert!(r.poll_event(true).is_none());
    assert!(matches!(
        r.poll_event(false),
        Some(BlueZEvent::TransportReleased { path }) if path.is_empty()
    ));
    assert!(r.poll_event(false).is_none());
    assert!(!r.stop_stream());
}

#[test]
fn a_running_engine_is_stopped_first() {
    let mut r = runtime();
    r.begin_stream();
    r.start_stream(Ok(()), &[1]).unwrap();
    let s = r.begin_stream();
    assert!(s.stop_first);
    assert!(!r.is_streaming(true));
    r.start_stream(Ok(()), &[1]).unwrap();
    assert!(r.stop_stream());
    assert!(!r.shutdown());
}

#[test]
fn volume_reaches_a_transport_acquired_over_a_running_engine() {
    let mut r = runtime();
    r.registered("/hci0".to_string(), ScmsTConfig::default(), 53);
    r.acquire_and_start("/fd0", Ok((3, 10, 20))).unwrap();
    r.begin_stream();
    r.start_stream(Ok(()), &[1]).unwrap();
    // Another transport, while the engine of the first is still there.
    r.acquire_and_start("/fd1", Ok((4, 10, 20))).unwrap();
    assert!(r.begin_stream().stop_first);
    r.start_stream(Ok(()), &[1]).unwrap();
    assert_eq!(r.set_volume(60), (60, some("/fd1")));
    assert_eq!(r.get_volume(), 60);
    // A stream on a bare descriptor follows a stop, and no transport hears of its volume.
    assert!(r.stop_stream());
    r.begin_stream();
    r.start_stream(Ok(()), &[1]).unwrap();
    assert_eq!(r.set_volume(61), (61, None));
}

#[test]
fn volume() {
    let mut r = runtime();
    assert_eq!(r.set_volume(300), (127, None));
    assert_eq!(r.set_volume(50), (50, None));
    assert_eq!(r.get_volume(), 50);
    r.registered("/hci0".to_string(), ScmsTConfig::default(), 53);
    r.acquire_and_start("/fd", Ok((3, 10, 20))).unwrap();
    r.begin_stream();
    assert_eq!(r.start_stream(Ok(()), &[1]).unwrap(), 50);
    assert_eq!(r.set_volume(60), (60, some("/fd")));
    assert_eq!(r.set_volume(60), (60, None));
    assert_eq!(r.set_volume_remote(200), 127);
    assert_eq!(r.get_volume(), 127);
    // What the remote side set is not sent back.
    assert_eq!(r.set_volume(127), (127, None));
}

#[test]
fn metadata_needs_a_player() {
    let mut r = runtime();
    assert!(matches!(r.update_metadata("t", "a", "b", 1), Err(RuntimeError::AvrcpNotReady)));
    assert!(r.update_status("playing").is_err());
    assert!(r.update_position(4).is_err());
    assert!(r.playback().is_none());
    r.registered("/hci0".to_string(), ScmsTConfig::default(), 53);
    r.update_status("playing").unwrap();
    r.update_metadata("t", "a", "b", 1).unwrap();
    r.update_position(4).unwrap();
    let p = r.playback().unwrap();
    assert_eq!((p.status.as_str(), p.title.as_str(), p.position_us), ("playing", "t", 4));
}

#[test]
fn runtime_error_texts() {
    let s = || "x".to_string();
    assert_eq!(RuntimeError::TokioInit(s()).message(), "Tokio runtime init failed: x");
    assert_eq!(RuntimeError::DBusConnect(s()).message(), "D-Bus connection failed: x");
    assert_eq!(RuntimeError::EndpointRegister(s()).message(), "Endpoint registration failed: x");
    assert_eq!(RuntimeError::AvrcpRegister(s()).message(), "AVRCP registration failed: x");
    assert_eq!(
        RuntimeError::AvrcpNotReady.message(),
        "AVRCP not ready (MediaPlayer1 not registered)"
    );
    assert_eq!(RuntimeError::NotConnected.message(), "Not connected to D-Bus");
}
