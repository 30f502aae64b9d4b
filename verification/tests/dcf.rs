use demod_bt::dcf::{
    crc8_maxim, fragment_audio, DcfError, DcfFrame, DcfHeader, DcfTransport, FragmentFlags,
    MessageType, DCF_HEADER_SIZE, DCF_MAX_PAYLOAD,
};

#[test]
fn header_roundtrip() {
    let header = DcfHeader::new(MessageType::AudioFrame, 42, 119);
    let bytes = header.serialize();
    assert_eq!(bytes.len(), DCF_HEADER_SIZE);

    let decoded = DcfHeader::deserialize(&bytes).unwrap();
    assert_eq!(decoded.msg_type, MessageType::AudioFrame.as_u8());
    assert_eq!(decoded.sequence, 42);
    assert_eq!(decoded.payload_len, 119);
}

#[test]
fn frame_roundtrip() {
    let payload = vec![0xDE, 0xAD, 0xBE, 0xEF];
    let frame = DcfFrame::new(MessageType::AudioFrame, 1, payload.clone());
    let bytes = frame.serialize();
    assert_eq!(bytes.len(), DCF_HEADER_SIZE + 4);

    let decoded = DcfFrame::deserialize(&bytes).unwrap();
    assert_eq!(decoded.payload, payload);
}

#[test]
fn single_packet_fragmentation() {
    let mut transport = DcfTransport::optimal();
    // 119-byte SBC frame fits in 239-byte payload
    let codec_frame = vec![0u8; 119];
    let packets = transport.packetize(&codec_frame);
    assert_eq!(packets.len(), 1);
}

#[test]
fn multi_packet_fragmentation() {
    let mut transport = DcfTransport::new(64); // small payload for testing
    let codec_frame = vec![0u8; 200]; // exceeds 64 - 7 = 57 usable bytes
    let packets = transport.packetize(&codec_frame);
    assert!(packets.len() > 1);
}

#[test]
fn overhead_at_optimal_payload() {
    let transport = DcfTransport::optimal();
    let (header, total) = transport.overhead_stats();
    let pct = header as f64 / total as f64 * 100.0;
    assert_eq!(header, 17);
    assert_eq!(total, 256); // power of 2
    assert!(pct < 7.0); // < 7% overhead
}

#[test]
fn header_wire_form() {
    let header = DcfHeader::at(MessageType::AudioFrame, 0x01020304, 0x0A0B0C0D, 0x1112131415161718);
    let bytes = header.serialize();
    assert_eq!(bytes[0], MessageType::AudioFrame.as_u8());
    assert_eq!(
        bytes[1..17].to_vec(),
        vec![1, 2, 3, 4, 0x11, 0x12, 0x13, 0x14, 0x15, 0x16, 0x17, 0x18, 0x0A, 0x0B, 0x0C, 0x0D]
    );
    assert_eq!(DcfHeader::deserialize(&bytes).unwrap(), header);
}

#[test]
fn header_is_stamped_with_the_clock() {
    let a = DcfHeader::new(MessageType::Heartbeat, 0, 0);
    // Later than the start of 2020, in microseconds.
    assert!(a.timestamp > 1_577_836_800_000_000);
}

#[test]
fn short_header_is_refused() {
    let r = DcfHeader::deserialize(&[0u8; 16]);
    assert!(matches!(r, Err(DcfError::TooShort { expected: 17, got: 16 })));
    assert_eq!(r.unwrap_err().message(), "Frame too short: expected 17 bytes, got 16");
}

#[test]
fn short_frame_is_refused() {
    let frame = DcfFrame::new(MessageType::AudioFrame, 7, vec![1, 2, 3, 4]);
    let bytes = frame.serialize();
    let r = DcfFrame::deserialize(&bytes[0..20]);
    assert!(matches!(r, Err(DcfError::TooShort { expected: 21, got: 20 })));
}

#[test]
fn frame_ignores_what_follows() {
    let frame = DcfFrame::new(MessageType::AudioFrame, 7, vec![1, 2, 3]);
    let mut bytes = frame.serialize();
    assert_eq!(frame.wire_size(), bytes.len());
    bytes.extend_from_slice(&[9, 9, 9]);
    let decoded = DcfFrame::deserialize(&bytes).unwrap();
    assert_eq!(decoded.payload, vec![1, 2, 3]);
    assert_eq!(decoded.header, frame.header);
}

#[test]
fn error_texts() {
    assert_eq!(DcfError::Parse("x".to_string()).message(), "Parse error: x");
    assert_eq!(DcfError::UnknownType(0x0A).message(), "Unknown message type: 0x0A");
    assert_eq!(
        DcfError::FragmentError("gap".to_string()).message(),
        "Fragment reassembly error: gap"
    );
}

#[test]
fn message_type_codes() {
    for code in 0..=255u8 {
        if let Some(t) = MessageType::from_u8(code) {
            assert_eq!(t.as_u8(), code);
        }
    }
    assert!(MessageType::from_u8(MessageType::AudioFrame.as_u8()).is_some());
    assert!(MessageType::from_u8(0xEE).is_none());
}

#[test]
fn crc8_check_value() {
    // The check value of the Dallas/Maxim CRC.
    assert_eq!(crc8_maxim(b"123456789"), 0xA1);
    assert_eq!(crc8_maxim(&[]), 0);
    let frame = DcfFrame::new(MessageType::AudioFrame, 0, b"123456789".to_vec());
    assert_eq!(frame.crc8(), crc8_maxim(&frame.serialize()));
}

#[test]
fn crc8_residue() {
    let mut data = vec![3, 1, 4, 1, 5, 9, 2, 6];
    let crc = crc8_maxim(&data);
    data.push(crc);
    assert_eq!(crc8_maxim(&data), 0);
}

#[test]
fn fragments_rejoin() {
    let data: Vec<u8> = (0..200u8).collect();
    let mut sequence = u32::MAX;
    let packets = fragment_audio(&data, &mut sequence, 64, 0x0102);
    assert_eq!(packets.len(), 4);
    let mut joined = Vec::new();
    for (i, p) in packets.iter().enumerate() {
        assert!(p.payload.len() <= 64);
        assert_eq!(p.header.sequence, u32::MAX.wrapping_add(i as u32));
        assert_eq!(p.header.payload_len as usize, p.payload.len());
        assert_eq!(p.payload[0..2].to_vec(), vec![1, 2]);
        joined.extend_from_slice(&p.payload[7..]);
    }
    assert_eq!(joined, data);
    assert_eq!(sequence, 3);
}

#[test]
fn fragment_boundary() {
    let mut sequence = 0;
    // 57 usable bytes in a payload of 64.
    assert_eq!(fragment_audio(&[0u8; 57], &mut sequence, 64, 0).len(), 1);
    assert_eq!(fragment_audio(&[0u8; 58], &mut sequence, 64, 0).len(), 2);
    assert_eq!(fragment_audio(&[], &mut sequence, 64, 0).len(), 1);
}

#[test]
fn flags_of_a_whole_frame() {
    let c = FragmentFlags::complete().bits();
    assert_eq!(c, FragmentFlags::first().bits() | FragmentFlags::last().bits());
    assert_eq!(FragmentFlags::empty().bits(), 0);
}

#[test]
fn payload_limit_is_capped() {
    let transport = DcfTransport::new(100_000);
    assert_eq!(transport.overhead_stats(), (17, 17 + DCF_MAX_PAYLOAD));
}

#[test]
fn control_messages_are_numbered() {
    let mut transport = DcfTransport::optimal();
    let a = transport.control_message(MessageType::Heartbeat, vec![1]);
    let b = transport.control_message(MessageType::Heartbeat, vec![2]);
    assert_eq!((a.header.sequence, b.header.sequence), (0, 1));
    assert_eq!(transport.sequence(), 2);
    assert_eq!(b.payload, vec![2]);
}
