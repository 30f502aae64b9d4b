//! DCF transport frames.
//!
//! A frame is a 17-byte big-endian header (type, sequence, timestamp, payload length)
//! followed by its payload. Codec frames too long for one payload are split into
//! fragments, each of which carries a small header of its own.

use vstd::prelude::*;

use crate::clock::now_us;
use crate::text;
use crate::wire;

verus! {

/// Header size: type (1), sequence (4), timestamp (8), payload length (4).
pub const DCF_HEADER_SIZE: usize = 17;

/// Payload size that makes a frame 256 bytes long.
pub const DCF_OPTIMAL_PAYLOAD: usize = 239;

/// Largest payload that fits a UDP datagram in a 1500-byte MTU.
pub const DCF_MAX_PAYLOAD: usize = 1455;

/// Size of the header at the start of every audio payload: frame id (2), fragment
/// index (1), fragment count (1), offset (2), flags (1).
pub const FRAGMENT_HEADER_SIZE: usize = 7;

// ---------------------------------------------------------------------------------
// Message types
// ---------------------------------------------------------------------------------

/// Message type identifiers. Control types lie below `0x10`, audio types at `0x10`.
#[derive(Debug, Clone, Copy, PartialEq, Eq, Structural)]
pub enum MessageType {
    Heartbeat,
    Ack,
    DeviceInfo,
    /// A complete codec frame in one packet.
    AudioFrame,
    /// A fragment of a larger codec frame.
    AudioFragment,
    /// Comfort noise or a silence descriptor.
    AudioSilence,
    /// The result of codec negotiation.
    CodecConfig,
    /// Absolute volume.
    VolumeChange,
    /// Title, artist, album.
    TrackMetadata,
    /// Play, pause, stop, position.
    PlaybackState,
}

impl MessageType {
    /// The wire code of a message type.
    pub open spec fn code(self) -> u8 {
        match self {
            MessageType::Heartbeat => 0x01,
            MessageType::Ack => 0x04,
            MessageType::DeviceInfo => 0x05,
            MessageType::AudioFrame => 0x10,
            MessageType::AudioFragment => 0x11,
            MessageType::AudioSilence => 0x12,
            MessageType::CodecConfig => 0x20,
            MessageType::VolumeChange => 0x21,
            MessageType::TrackMetadata => 0x30,
            MessageType::PlaybackState => 0x31,
        }
    }

    /// The wire code of a message type.
    pub fn as_u8(self) -> (v: u8)
        ensures
            v == self.code(),
    {
        match self {
            MessageType::Heartbeat => 0x01,
            MessageType::Ack => 0x04,
            MessageType::DeviceInfo => 0x05,
            MessageType::AudioFrame => 0x10,
            MessageType::AudioFragment => 0x11,
            MessageType::AudioSilence => 0x12,
            MessageType::CodecConfig => 0x20,
            MessageType::VolumeChange => 0x21,
            MessageType::TrackMetadata => 0x30,
            MessageType::PlaybackState => 0x31,
        }
    }

    /// The message type with wire code `v`, if there is one.
    pub fn from_u8(v: u8) -> (r: Option<MessageType>)
        ensures
            r matches Some(t) ==> t.code() == v,
            r is None ==> forall|t: MessageType| t.code() != v,
    {
        match v {
            0x01 => Some(MessageType::Heartbeat),
            0x04 => Some(MessageType::Ack),
            0x05 => Some(MessageType::DeviceInfo),
            0x10 => Some(MessageType::AudioFrame),
            0x11 => Some(MessageType::AudioFragment),
            0x12 => Some(MessageType::AudioSilence),
            0x20 => Some(MessageType::CodecConfig),
            0x21 => Some(MessageType::VolumeChange),
            0x30 => Some(MessageType::TrackMetadata),
            0x31 => Some(MessageType::PlaybackState),
            _ => None,
        }
    }
}

/// Two message types with one wire code are the same type, so `from_u8` undoes `as_u8`.
pub proof fn law_message_codes_distinct(a: MessageType, b: MessageType)
    ensures
        a.code() == b.code() ==> a == b,
{
}

// ---------------------------------------------------------------------------------
// Header
// ---------------------------------------------------------------------------------

/// The 17-byte transport header.
#[derive(Debug, Clone, Copy, PartialEq, Eq, Structural)]
pub struct DcfHeader {
    pub msg_type: u8,
    pub sequence: u32,
    /// Microseconds since the epoch.
    pub timestamp: u64,
    pub payload_len: u32,
}

/// Failures of the framing layer.
#[derive(Debug)]
pub enum DcfError {
    TooShort { expected: usize, got: usize },
    Parse(String),
    UnknownType(u8),
    FragmentError(String),
}

impl DcfError {
    /// The text of an error.
    pub open spec fn text(self) -> Seq<char> {
        match self {
            DcfError::TooShort { expected, got } => "Frame too short: expected "@ + text::decimal(
                expected as nat,
            ) + " bytes, got "@ + text::decimal(got as nat),
            DcfError::Parse(s) => "Parse error: "@ + s@,
            DcfError::UnknownType(t) => "Unknown message type: 0x"@ + text::hex_byte(t, true),
            DcfError::FragmentError(s) => "Fragment reassembly error: "@ + s@,
        }
    }

    /// The text of an error.
    pub fn message(&self) -> (s: String)
        ensures
            s@ == self.text(),
    {
        match self {
            DcfError::TooShort { expected, got } => {
                let mut s: String = "Frame too short: expected ".to_owned();
                text::push_decimal(&mut s, *expected as u64);
                s.append(" bytes, got ");
                text::push_decimal(&mut s, *got as u64);
                s
            },
            DcfError::Parse(s) => text::joined("Parse error: ", s.as_str()),
            DcfError::UnknownType(t) => {
                let mut s: String = "Unknown message type: 0x".to_owned();
                text::push_hex(&mut s, *t, true);
                s
            },
            DcfError::FragmentError(s) => text::joined("Fragment reassembly error: ", s.as_str()),
        }
    }
}

/// The wire form of a header.
pub open spec fn header_bytes(h: DcfHeader) -> Seq<u8> {
    seq![h.msg_type] + wire::be_bytes(h.sequence as nat, 4) + wire::be_bytes(h.timestamp as nat, 8)
        + wire::be_bytes(h.payload_len as nat, 4)
}

/// The header that the first 17 bytes of `s` spell.
pub open spec fn header_of(s: Seq<u8>) -> DcfHeader {
    DcfHeader {
        msg_type: s[0],
        sequence: wire::be_value(s.subrange(1, 5)) as u32,
        timestamp: wire::be_value(s.subrange(5, 13)) as u64,
        payload_len: wire::be_value(s.subrange(13, 17)) as u32,
    }
}

proof fn lemma_header_bytes_len(h: DcfHeader)
    ensures
        header_bytes(h).len() == 17,
{
    wire::lemma_be_bytes_len(h.sequence as nat, 4);
    wire::lemma_be_bytes_len(h.timestamp as nat, 8);
    wire::lemma_be_bytes_len(h.payload_len as nat, 4);
}

proof fn lemma_byte_ranges()
    ensures
        wire::byte_range(2) == 0x1_0000,
        wire::byte_range(4) == 0x1_0000_0000,
        wire::byte_range(8) == 0x1_0000_0000_0000_0000,
{
    reveal_with_fuel(wire::byte_range, 9);
}

/// A header read back from its wire form, whatever follows it, is the header.
pub proof fn law_header_round_trip(h: DcfHeader, rest: Seq<u8>)
    ensures
        header_bytes(h).len() == 17,
        header_of(header_bytes(h) + rest) == h,
{
    lemma_header_bytes_len(h);
    lemma_byte_ranges();
    wire::lemma_be_bytes_len(h.sequence as nat, 4);
    wire::lemma_be_bytes_len(h.timestamp as nat, 8);
    wire::lemma_be_bytes_len(h.payload_len as nat, 4);
    let s = header_bytes(h) + rest;
    assert(s.subrange(1, 5) =~= wire::be_bytes(h.sequence as nat, 4));
    assert(s.subrange(5, 13) =~= wire::be_bytes(h.timestamp as nat, 8));
    assert(s.subrange(13, 17) =~= wire::be_bytes(h.payload_len as nat, 4));
    wire::law_be_read_of_write(h.sequence as nat, 4);
    wire::law_be_read_of_write(h.timestamp as nat, 8);
    wire::law_be_read_of_write(h.payload_len as nat, 4);
}

/// Any 17 bytes are the wire form of the header that they spell.
pub proof fn law_header_bytes_of_parsed(s: Seq<u8>)
    requires
        s.len() >= 17,
    ensures
        header_bytes(header_of(s)) == s.take(17),
{
    lemma_byte_ranges();
    wire::law_be_write_of_read(s.subrange(1, 5));
    wire::law_be_write_of_read(s.subrange(5, 13));
    wire::law_be_write_of_read(s.subrange(13, 17));
    assert(header_bytes(header_of(s)) =~= s.take(17));
}

impl DcfHeader {
    /// A header stamped with a given time.
    pub fn at(msg_type: MessageType, sequence: u32, payload_len: u32, timestamp: u64) -> (h: DcfHeader)
        ensures
            h.msg_type == msg_type.code(),
            h.sequence == sequence,
            h.timestamp == timestamp,
            h.payload_len == payload_len,
    {
        DcfHeader { msg_type: msg_type.as_u8(), sequence, timestamp, payload_len }
    }

    /// A header stamped with the current time. The time itself is whatever the clock says.
    pub fn new(msg_type: MessageType, sequence: u32, payload_len: u32) -> (h: DcfHeader)
        ensures
            h.msg_type == msg_type.code(),
            h.sequence == sequence,
            h.payload_len == payload_len,
    {
        DcfHeader::at(msg_type, sequence, payload_len, now_us())
    }

    /// Serializes to a 17-byte big-endian buffer.
    pub fn serialize(&self) -> (buf: [u8; DCF_HEADER_SIZE])
        ensures
            buf@ == header_bytes(*self),
    {
        let mut out: Vec<u8> = Vec::new();
        out.push(self.msg_type);
        wire::write_u32(&mut out, self.sequence);
        wire::write_u64(&mut out, self.timestamp);
        wire::write_u32(&mut out, self.payload_len);
        proof {
            lemma_header_bytes_len(*self);
            assert(out@ =~= header_bytes(*self));
        }
        let mut buf: [u8; DCF_HEADER_SIZE] = [0u8; DCF_HEADER_SIZE];
        let mut i: usize = 0;
        while i < DCF_HEADER_SIZE
            invariant
                i <= DCF_HEADER_SIZE,
                out@.len() == DCF_HEADER_SIZE,
                buf@.len() == DCF_HEADER_SIZE,
                forall|j: int| 0 <= j < i ==> buf@[j] == out@[j],
            decreases DCF_HEADER_SIZE - i,
        {
            buf[i] = out[i];
            i += 1;
        }
        assert(buf@ =~= out@);
        buf
    }

    /// Reads a header from the first 17 bytes of `data`.
    pub fn deserialize(data: &[u8]) -> (r: Result<DcfHeader, DcfError>)
        ensures
            r is Ok <==> data@.len() >= DCF_HEADER_SIZE,
            r matches Ok(h) ==> h == header_of(data@),
            r matches Err(e) ==> e == (DcfError::TooShort {
                expected: DCF_HEADER_SIZE,
                got: data@.len() as usize,
            }),
    {
        if data.len() < DCF_HEADER_SIZE {
            return Err(DcfError::TooShort { expected: DCF_HEADER_SIZE, got: data.len() });
        }
        proof {
            assert(data@.subrange(1, 5).take(4) =~= data@.subrange(1, 5));
            assert(data@.subrange(5, 13).take(8) =~= data@.subrange(5, 13));
            assert(data@.subrange(13, 17).take(4) =~= data@.subrange(13, 17));
        }
        Ok(
            DcfHeader {
                msg_type: data[0],
                sequence: wire::read_u32(&data[1..5]),
                timestamp: wire::read_u64(&data[5..13]),
                payload_len: wire::read_u32(&data[13..17]),
            },
        )
    }
}

// ---------------------------------------------------------------------------------
// Frame
// ---------------------------------------------------------------------------------

/// A header and the payload that follows it.
#[derive(Debug, Clone)]
pub struct DcfFrame {
    pub header: DcfHeader,
    pub payload: Vec<u8>,
}

/// The wire form of a frame.
pub open spec fn frame_bytes(header: DcfHeader, payload: Seq<u8>) -> Seq<u8> {
    header_bytes(header) + payload
}

/// A length as the header's length field holds it: its low 32 bits.
pub open spec fn low_u32(n: int) -> u32 {
    (n % 0x1_0000_0000) as u32
}

/// Number of bytes that a frame beginning with `s` needs, capped at what `usize` holds.
pub open spec fn frame_extent(s: Seq<u8>) -> int {
    let n = DCF_HEADER_SIZE + header_of(s).payload_len;
    if n <= usize::MAX {
        n
    } else {
        usize::MAX as int
    }
}

/// Everything of a frame but its timestamp.
pub open spec fn frame_is(f: DcfFrame, msg_type: MessageType, sequence: u32, payload: Seq<u8>) -> bool {
    &&& f.header.msg_type == msg_type.code()
    &&& f.header.sequence == sequence
    &&& f.header.payload_len == low_u32(payload.len() as int)
    &&& f.payload@ == payload
}

/// A frame whose length field counts its payload reads back from its wire form, whatever
/// follows it.
pub proof fn law_frame_round_trip(header: DcfHeader, payload: Seq<u8>, rest: Seq<u8>)
    requires
        header.payload_len == payload.len(),
    ensures
        ({
            let s = frame_bytes(header, payload) + rest;
            &&& header_of(s) == header
            &&& s.len() >= DCF_HEADER_SIZE + header.payload_len
            &&& s.subrange(17, 17 + header_of(s).payload_len) == payload
        }),
{
    let s = frame_bytes(header, payload) + rest;
    law_header_round_trip(header, payload + rest);
    assert(s =~= header_bytes(header) + (payload + rest));
    assert(s.subrange(17, 17 + header.payload_len) =~= payload);
}

/// What a header spells does not depend on the payload behind it.
pub proof fn law_header_independent_of_payload(header: DcfHeader, a: Seq<u8>, b: Seq<u8>)
    ensures
        header_of(frame_bytes(header, a)) == header_of(frame_bytes(header, b)),
{
    law_header_round_trip(header, a);
    law_header_round_trip(header, b);
}

impl DcfFrame {
    /// A new frame, stamped with the current time.
    pub fn new(msg_type: MessageType, sequence: u32, payload: Vec<u8>) -> (f: DcfFrame)
        ensures
            frame_is(f, msg_type, sequence, payload@),
    {
        let len: u32 = (payload.len() as u64 % 0x1_0000_0000u64) as u32;
        let header = DcfHeader::new(msg_type, sequence, len);
        DcfFrame { header, payload }
    }

    /// Serializes the complete frame.
    pub fn serialize(&self) -> (buf: Vec<u8>)
        ensures
            buf@ == frame_bytes(self.header, self.payload@),
    {
        let header = self.header.serialize();
        let mut buf: Vec<u8> = Vec::new();
        buf.extend_from_slice(header.as_slice());
        buf.extend_from_slice(self.payload.as_slice());
        assert(buf@ =~= frame_bytes(self.header, self.payload@));
        buf
    }

    /// Reads a frame from the start of `data`; bytes behind it are ignored.
    pub fn deserialize(data: &[u8]) -> (r: Result<DcfFrame, DcfError>)
        ensures
            r is Ok <==> data@.len() >= DCF_HEADER_SIZE && data@.len() >= DCF_HEADER_SIZE
                + header_of(data@).payload_len,
            r matches Ok(f) ==> f.header == header_of(data@) && f.payload@ == data@.subrange(
                17,
                17 + header_of(data@).payload_len,
            ),
            r matches Err(e) ==> e == (DcfError::TooShort {
                expected: if data@.len() < DCF_HEADER_SIZE {
                    DCF_HEADER_SIZE
                } else {
                    frame_extent(data@) as usize
                },
                got: data@.len() as usize,
            }),
    {
        let header = match DcfHeader::deserialize(data) {
            Ok(h) => h,
            Err(e) => {
                return Err(e);
            },
        };
        let need: usize = header.payload_len as usize;
        if data.len() - DCF_HEADER_SIZE < need {
            return Err(
                DcfError::TooShort { expected: DCF_HEADER_SIZE.saturating_add(need), got: data.len() },
            );
        }
        let mut payload: Vec<u8> = Vec::new();
        payload.extend_from_slice(&data[DCF_HEADER_SIZE..DCF_HEADER_SIZE + need]);
        assert(payload@ =~= data@.subrange(17, 17 + need));
        Ok(DcfFrame { header, payload })
    }

    /// Number of bytes that the frame occupies on the wire.
    pub fn wire_size(&self) -> (n: usize)
        requires
            DCF_HEADER_SIZE + self.payload@.len() <= usize::MAX,
        ensures
            n == DCF_HEADER_SIZE + self.payload@.len(),
            n == frame_bytes(self.header, self.payload@).len(),
    {
        proof {
            lemma_header_bytes_len(self.header);
        }
        DCF_HEADER_SIZE + self.payload.len()
    }

    /// CRC-8/MAXIM of the whole frame, header and payload.
    pub fn crc8(&self) -> (crc: u8)
        ensures
            crc == crc8_of(frame_bytes(self.header, self.payload@)),
    {
        let data = self.serialize();
        crc8_maxim(data.as_slice())
    }
}

// ---------------------------------------------------------------------------------
// CRC-8/MAXIM
// ---------------------------------------------------------------------------------

/// One step of the reflected shift register with polynomial `x^8 + x^5 + x^4 + 1`.
pub open spec fn crc8_shift(reg: u8) -> u8 {
    if reg & 1 == 1 {
        (reg >> 1) ^ 0x8C
    } else {
        reg >> 1
    }
}

/// `n` steps of the shift register.
pub open spec fn crc8_shifts(reg: u8, n: nat) -> u8
    decreases n,
{
    if n == 0 {
        reg
    } else {
        crc8_shift(crc8_shifts(reg, (n - 1) as nat))
    }
}

/// CRC-8/MAXIM (Dow, iButton): each byte enters the register least significant bit
/// first; the register starts at zero and nothing is added at the end.
pub open spec fn crc8_of(data: Seq<u8>) -> u8
    decreases data.len(),
{
    if data.len() == 0 {
        0
    } else {
        crc8_shifts(crc8_of(data.drop_last()) ^ data.last(), 8)
    }
}

/// A message followed by its own checksum has checksum zero.
pub proof fn law_crc8_residue(data: Seq<u8>)
    ensures
        crc8_of(data.push(crc8_of(data))) == 0,
{
    let c = crc8_of(data);
    assert(data.push(c).drop_last() =~= data);
    assert(c ^ c == 0) by (bit_vector);
    assert(0u8 & 1 != 1 && 0u8 >> 1 == 0) by (bit_vector);
    reveal_with_fuel(crc8_shifts, 9);
}

/// CRC-8/MAXIM.
pub fn crc8_maxim(data: &[u8]) -> (crc: u8)
    ensures
        crc == crc8_of(data@),
{
    let mut crc: u8 = 0;
    let mut i: usize = 0;
    while i < data.len()
        invariant
            i <= data@.len(),
            crc == crc8_of(data@.take(i as int)),
        decreases data.len() - i,
    {
        let ghost before = crc ^ data@[i as int];
        crc = crc ^ data[i];
        let mut bit: u32 = 0;
        while bit < 8
            invariant
                bit <= 8,
                crc == crc8_shifts(before, bit as nat),
            decreases 8 - bit,
        {
            let low: u8 = crc & 1;
            crc = if low == 1 {
                (crc >> 1) ^ 0x8C
            } else {
                crc >> 1
            };
            bit += 1;
        }
        proof {
            assert(data@.take(i + 1).drop_last() =~= data@.take(i as int));
        }
        i += 1;
    }
    assert(data@.take(i as int) =~= data@);
    crc
}

// ---------------------------------------------------------------------------------
// Fragmentation
// ---------------------------------------------------------------------------------

/// Flags of a fragment: a set of bits, of which two have a meaning.
#[derive(Debug, Clone, Copy, PartialEq, Eq, Structural)]
pub struct FragmentFlags {
    bits: u8,
}

impl FragmentFlags {
    /// The bits that are set.
    pub closed spec fn raw(self) -> u8 {
        self.bits
    }

    /// No flag.
    pub fn empty() -> (f: FragmentFlags)
        ensures
            f.raw() == 0,
    {
        FragmentFlags { bits: 0 }
    }

    /// The first fragment of a codec frame.
    pub fn first() -> (f: FragmentFlags)
        ensures
            f.raw() == 0x01,
    {
        FragmentFlags { bits: 0x01 }
    }

    /// The last fragment of a codec frame.
    pub fn last() -> (f: FragmentFlags)
        ensures
            f.raw() == 0x02,
    {
        FragmentFlags { bits: 0x02 }
    }

    /// First and last at once: a codec frame in a single packet.
    pub fn complete() -> (f: FragmentFlags)
        ensures
            f.raw() == 0x03,
            f.raw() == 0x01u8 | 0x02u8,
    {
        assert(0x03u8 == 0x01u8 | 0x02u8) by (bit_vector);
        FragmentFlags { bits: 0x03 }
    }

    /// The bits that are set.
    pub fn bits(&self) -> (b: u8)
        ensures
            b == self.raw(),
    {
        self.bits
    }
}

/// Number of pieces of at most `usable` bytes that `len` bytes make.
pub open spec fn piece_count(len: int, usable: int) -> int {
    if len <= usable {
        1
    } else {
        (len + usable - 1) / usable
    }
}

/// The `i`-th piece of `data`: `usable` bytes, or what is left of them.
pub open spec fn piece(data: Seq<u8>, usable: int, i: int) -> Seq<u8> {
    if data.len() <= usable {
        data
    } else {
        data.subrange(
            i * usable,
            if (i + 1) * usable <= data.len() {
                (i + 1) * usable
            } else {
                data.len() as int
            },
        )
    }
}

/// The flags of piece `i` out of `count`.
pub open spec fn piece_flags(i: int, count: int) -> u8 {
    if count == 1 {
        0x03
    } else if i == 0 {
        0x01
    } else if i == count - 1 {
        0x02
    } else {
        0x00
    }
}

/// The type of the packets that carry `count` pieces.
pub open spec fn piece_type(count: int) -> MessageType {
    if count == 1 {
        MessageType::AudioFrame
    } else {
        MessageType::AudioFragment
    }
}

/// The fragment header of piece `i` out of `count`. The index and the count are held in
/// eight bits and the offset in sixteen: what does not fit is cut off.
pub open spec fn fragment_header(frame_id: u16, i: int, count: int, usable: int) -> Seq<u8> {
    wire::be_bytes(frame_id as nat, 2) + seq![(i % 256) as u8, (count % 256) as u8]
        + wire::be_bytes(((i * usable) % 0x1_0000) as nat, 2) + seq![piece_flags(i, count)]
}

/// The payload of the packet that carries piece `i` of `data`.
pub open spec fn fragment_payload(data: Seq<u8>, usable: int, frame_id: u16, i: int) -> Seq<u8> {
    fragment_header(frame_id, i, piece_count(data.len() as int, usable), usable) + piece(
        data,
        usable,
        i,
    )
}

/// A sequence number `n` steps on, wrapping around.
pub open spec fn sequence_after(sequence: u32, n: int) -> u32 {
    low_u32(sequence + n)
}

/// The packets that carry `data`, in order, all but their timestamps.
pub open spec fn packets_carry(
    packets: Seq<DcfFrame>,
    data: Seq<u8>,
    sequence: u32,
    max_payload: int,
    frame_id: u16,
) -> bool {
    let usable = max_payload - FRAGMENT_HEADER_SIZE;
    let count = piece_count(data.len() as int, usable);
    &&& packets.len() == count
    &&& forall|i: int|
        0 <= i < count ==> frame_is(
            #[trigger] packets[i],
            piece_type(count),
            sequence_after(sequence, i),
            fragment_payload(data, usable, frame_id, i),
        )
}

/// A codec frame can be packed: there is room for the fragment header, and for at least
/// one byte behind it unless there is nothing to carry.
pub open spec fn can_pack(len: int, max_payload: int) -> bool {
    max_payload > FRAGMENT_HEADER_SIZE || (max_payload == FRAGMENT_HEADER_SIZE && len == 0)
}

/// The bodies of the first `k` packets, joined.
pub open spec fn joined_bodies(data: Seq<u8>, usable: int, frame_id: u16, k: nat) -> Seq<u8>
    decreases k,
{
    if k == 0 {
        Seq::empty()
    } else {
        joined_bodies(data, usable, frame_id, (k - 1) as nat) + fragment_payload(
            data,
            usable,
            frame_id,
            k - 1,
        ).skip(FRAGMENT_HEADER_SIZE as int)
    }
}

proof fn lemma_fragment_header_len(frame_id: u16, i: int, count: int, usable: int)
    ensures
        fragment_header(frame_id, i, count, usable).len() == FRAGMENT_HEADER_SIZE,
{
    wire::lemma_be_bytes_len(frame_id as nat, 2);
    wire::lemma_be_bytes_len(((i * usable) % 0x1_0000) as nat, 2);
}

/// The pieces cover the data: every piece begins inside it and the last one reaches its end.
proof fn lemma_piece_bounds(len: int, usable: int, i: int)
    requires
        0 < usable < len,
        0 <= i < piece_count(len, usable),
    ensures
        piece_count(len, usable) >= 2,
        0 <= i * usable < len,
        i + 1 < piece_count(len, usable) ==> (i + 1) * usable < len,
        i + 1 == piece_count(len, usable) ==> (i + 1) * usable >= len,
{
    let count = piece_count(len, usable);
    assert(count == (len + usable - 1) / usable);
    assert((count - 1) * usable < len && count * usable >= len) by (nonlinear_arith)
        requires
            count == (len + usable - 1) / usable,
            usable > 0,
    ;
    assert(count >= 2) by (nonlinear_arith)
        requires
            count * usable >= len,
            len > usable,
            usable > 0,
    ;
    assert(0 <= i * usable <= (count - 1) * usable) by (nonlinear_arith)
        requires
            0 <= i <= count - 1,
            usable > 0,
    ;
    if i + 1 < count {
        assert((i + 1) * usable <= (count - 1) * usable) by (nonlinear_arith)
            requires
                i + 1 <= count - 1,
                usable > 0,
        ;
    }
}

proof fn lemma_joined(data: Seq<u8>, usable: int, frame_id: u16, k: nat)
    requires
        0 < usable < data.len(),
        k <= piece_count(data.len() as int, usable),
    ensures
        joined_bodies(data, usable, frame_id, k) == data.take(
            if k * usable <= data.len() {
                k * usable
            } else {
                data.len() as int
            },
        ),
    decreases k,
{
    if k > 0 {
        let i = k - 1;
        let count = piece_count(data.len() as int, usable);
        lemma_joined(data, usable, frame_id, i as nat);
        lemma_piece_bounds(data.len() as int, usable, i);
        lemma_fragment_header_len(frame_id, i, count, usable);
        assert(fragment_payload(data, usable, frame_id, i).skip(7) =~= piece(data, usable, i));
        assert((i + 1) * usable == i * usable + usable) by (nonlinear_arith);
    } else {
        assert(0 * usable == 0);
        assert(data.take(0) =~= Seq::<u8>::empty());
    }
    assert(joined_bodies(data, usable, frame_id, k) =~= data.take(
        if k * usable <= data.len() {
            k * usable
        } else {
            data.len() as int
        },
    ));
}

/// The packets' bodies, joined in order, are the codec frame.
pub proof fn law_fragments_rejoin(data: Seq<u8>, max_payload: int, frame_id: u16)
    requires
        can_pack(data.len() as int, max_payload),
    ensures
        ({
            let usable = max_payload - FRAGMENT_HEADER_SIZE;
            joined_bodies(data, usable, frame_id, piece_count(data.len() as int, usable) as nat)
                == data
        }),
{
    let usable = max_payload - FRAGMENT_HEADER_SIZE;
    let count = piece_count(data.len() as int, usable);
    if data.len() <= usable {
        reveal_with_fuel(joined_bodies, 2);
        lemma_fragment_header_len(frame_id, 0, 1, usable);
        assert(joined_bodies(data, usable, frame_id, 1) =~= data);
    } else {
        assert(count >= 1) by (nonlinear_arith)
            requires
                count == (data.len() + usable - 1) / usable,
                data.len() > usable > 0,
        ;
        lemma_piece_bounds(data.len() as int, usable, count - 1);
        lemma_joined(data, usable, frame_id, count as nat);
        assert(data.take(data.len() as int) =~= data);
    }
}

/// No packet's payload is longer than the limit.
pub proof fn law_fragments_fit(data: Seq<u8>, max_payload: int, frame_id: u16, i: int)
    requires
        can_pack(data.len() as int, max_payload),
        0 <= i < piece_count(data.len() as int, max_payload - FRAGMENT_HEADER_SIZE),
    ensures
        fragment_payload(data, max_payload - FRAGMENT_HEADER_SIZE, frame_id, i).len()
            <= max_payload,
{
    let usable = max_payload - FRAGMENT_HEADER_SIZE;
    lemma_fragment_header_len(frame_id, i, piece_count(data.len() as int, usable), usable);
    if data.len() > usable {
        lemma_piece_bounds(data.len() as int, usable, i);
        assert((i + 1) * usable == i * usable + usable) by (nonlinear_arith);
    }
}

/// A codec frame travels in a single packet exactly when it fits behind the fragment header.
pub proof fn law_single_packet_iff_fits(data: Seq<u8>, max_payload: int)
    requires
        can_pack(data.len() as int, max_payload),
    ensures
        piece_count(data.len() as int, max_payload - FRAGMENT_HEADER_SIZE) == 1 <==> data.len()
            + FRAGMENT_HEADER_SIZE <= max_payload,
        piece_count(data.len() as int, max_payload - FRAGMENT_HEADER_SIZE) >= 1,
{
    let usable = max_payload - FRAGMENT_HEADER_SIZE;
    if data.len() > usable {
        let count = piece_count(data.len() as int, usable);
        assert(count >= 1) by (nonlinear_arith)
            requires
                count == (data.len() + usable - 1) / usable,
                data.len() > usable > 0,
        ;
        lemma_piece_bounds(data.len() as int, usable, 0);
    }
}

proof fn lemma_piece_count(len: int, usable: int)
    requires
        0 < usable < len,
    ensures
        piece_count(len, usable) == (if len % usable == 0 {
            len / usable
        } else {
            len / usable + 1
        }),
        1 <= piece_count(len, usable) <= len,
{
    let q = len / usable;
    let r = len % usable;
    assert(len == q * usable + r && 0 <= r < usable && q >= 1) by (nonlinear_arith)
        requires
            q == len / usable,
            r == len % usable,
            0 < usable < len,
    ;
    assert(q <= len && (r > 0 ==> q + 1 <= len)) by (nonlinear_arith)
        requires
            len == q * usable + r,
            0 <= r < usable,
            q >= 1,
    ;
    let c = (len + usable - 1) / usable;
    if r == 0 {
        assert(c == q) by (nonlinear_arith)
            requires
                len == q * usable,
                c == (len + usable - 1) / usable,
                usable > 0,
        ;
    } else {
        assert(c == q + 1) by (nonlinear_arith)
            requires
                len == q * usable + r,
                0 < r < usable,
                c == (len + usable - 1) / usable,
        ;
    }
}

/// Builds one packet's payload.
fn fragment_payload_vec(
    frame_id: u16,
    index: u8,
    count: u8,
    offset: u16,
    flags: FragmentFlags,
    body: &[u8],
) -> (payload: Vec<u8>)
    ensures
        payload@ == wire::be_bytes(frame_id as nat, 2) + seq![index, count] + wire::be_bytes(
            offset as nat,
            2,
        ) + seq![flags.raw()] + body@,
{
    let mut payload: Vec<u8> = Vec::new();
    wire::write_u16(&mut payload, frame_id);
    payload.push(index);
    payload.push(count);
    wire::write_u16(&mut payload, offset);
    payload.push(flags.bits());
    payload.extend_from_slice(body);
    assert(payload@ =~= wire::be_bytes(frame_id as nat, 2) + seq![index, count] + wire::be_bytes(
        offset as nat,
        2,
    ) + seq![flags.raw()] + body@);
    payload
}

proof fn lemma_next_start(i: int, usable: int)
    ensures
        (i + 1) * usable == i * usable + usable,
{
    assert((i + 1) * usable == i * usable + usable) by (nonlinear_arith);
}

/// Builds the payload of piece `i` out of several, which spans `start..end`.
fn fragment_of(
    codec_frame: &[u8],
    usable: usize,
    frame_id: u16,
    i: usize,
    count: usize,
    start: usize,
    end: usize,
) -> (payload: Vec<u8>)
    requires
        0 < usable < codec_frame@.len(),
        count == piece_count(codec_frame@.len() as int, usable as int),
        0 <= i < count,
        2 <= count,
        start == i * usable,
        start <= end <= codec_frame@.len(),
        end == (if (i + 1) * usable <= codec_frame@.len() {
            (i + 1) * usable
        } else {
            codec_frame@.len() as int
        }),
    ensures
        payload@ == fragment_payload(codec_frame@, usable as int, frame_id, i as int),
{
    let flags = if i == 0 {
        FragmentFlags::first()
    } else if i == count - 1 {
        FragmentFlags::last()
    } else {
        FragmentFlags::empty()
    };
    let payload = fragment_payload_vec(
        frame_id,
        (i % 256) as u8,
        (count % 256) as u8,
        (start % 0x1_0000) as u16,
        flags,
        &codec_frame[start..end],
    );
    assert(payload@ =~= fragment_payload(codec_frame@, usable as int, frame_id, i as int));
    payload
}

/// Splits a codec frame into packets whose payloads hold at most `max_payload` bytes.
///
/// A codec frame that fits behind the fragment header travels as a single `AudioFrame`
/// packet with both flags set; otherwise as several `AudioFragment` packets. `sequence`
/// moves on by one for every packet.
pub fn fragment_audio(
    codec_frame: &[u8],
    sequence: &mut u32,
    max_payload: usize,
    frame_id: u16,
) -> (packets: Vec<DcfFrame>)
    requires
        can_pack(codec_frame@.len() as int, max_payload as int),
    ensures
        packets_carry(packets@, codec_frame@, *old(sequence), max_payload as int, frame_id),
        *final(sequence) == sequence_after(*old(sequence), packets@.len() as int),
{
    let usable: usize = max_payload - FRAGMENT_HEADER_SIZE;
    let len: usize = codec_frame.len();
    let ghost data = codec_frame@;
    let ghost first = *sequence;
    let mut packets: Vec<DcfFrame> = Vec::new();

    if len <= usable {
        let payload = fragment_payload_vec(
            frame_id,
            0,
            1,
            0,
            FragmentFlags::complete(),
            codec_frame,
        );
        assert(0 * (usable as int) == 0);
        assert(payload@ =~= fragment_payload(data, usable as int, frame_id, 0));
        packets.push(DcfFrame::new(MessageType::AudioFrame, *sequence, payload));
        *sequence = sequence.wrapping_add(1);
        return packets;
    }
    proof {
        lemma_piece_count(len as int, usable as int);
    }
    let count: usize = if len % usable == 0 {
        len / usable
    } else {
        len / usable + 1
    };
    let mut i: usize = 0;
    let mut start: usize = 0;
    while i < count
        invariant
            0 < usable < len,
            len == data.len(),
            data == codec_frame@,
            count == piece_count(len as int, usable as int),
            usable == max_payload - FRAGMENT_HEADER_SIZE,
            i <= count,
            i < count ==> start == i * usable,
            packets@.len() == i,
            *sequence == sequence_after(first, i as int),
            forall|j: int|
                0 <= j < i ==> frame_is(
                    #[trigger] packets@[j],
                    MessageType::AudioFragment,
                    sequence_after(first, j),
                    fragment_payload(data, usable as int, frame_id, j),
                ),
        decreases count - i,
    {
        proof {
            lemma_piece_bounds(len as int, usable as int, i as int);
            lemma_next_start(i as int, usable as int);
        }
        let end: usize = if len - start > usable {
            start + usable
        } else {
            len
        };
        let payload = fragment_of(codec_frame, usable, frame_id, i, count, start, end);
        packets.push(DcfFrame::new(MessageType::AudioFragment, *sequence, payload));
        *sequence = sequence.wrapping_add(1);
        start = end;
        i += 1;
    }
    proof {
        lemma_piece_bounds(len as int, usable as int, 0);
    }
    packets
}

// ---------------------------------------------------------------------------------
// Transport
// ---------------------------------------------------------------------------------

/// Numbers packets and codec frames on their way out.
#[derive(Debug)]
pub struct DcfTransport {
    sequence: u32,
    frame_id: u16,
    max_payload: usize,
}

impl DcfTransport {
    /// The sequence number of the next packet.
    pub closed spec fn next_sequence(&self) -> u32 {
        self.sequence
    }

    /// The identifier of the next codec frame.
    pub closed spec fn next_frame_id(&self) -> u16 {
        self.frame_id
    }

    /// The payload limit of every packet.
    pub closed spec fn payload_limit(&self) -> int {
        self.max_payload as int
    }

    #[verifier::type_invariant]
    spec fn limit_holds(&self) -> bool {
        self.max_payload <= DCF_MAX_PAYLOAD
    }

    /// A transport with the given payload limit, lowered to the largest payload.
    pub fn new(max_payload: usize) -> (t: DcfTransport)
        ensures
            t.next_sequence() == 0,
            t.next_frame_id() == 0,
            t.payload_limit() == (if max_payload <= DCF_MAX_PAYLOAD {
                max_payload
            } else {
                DCF_MAX_PAYLOAD
            }),
    {
        DcfTransport {
            sequence: 0,
            frame_id: 0,
            max_payload: if max_payload <= DCF_MAX_PAYLOAD {
                max_payload
            } else {
                DCF_MAX_PAYLOAD
            },
        }
    }

    /// A transport with the optimal payload limit.
    pub fn optimal() -> (t: DcfTransport)
        ensures
            t.next_sequence() == 0,
            t.next_frame_id() == 0,
            t.payload_limit() == DCF_OPTIMAL_PAYLOAD,
    {
        DcfTransport::new(DCF_OPTIMAL_PAYLOAD)
    }

    /// Packs a codec frame into one or more packets.
    pub fn packetize(&mut self, codec_frame: &[u8]) -> (packets: Vec<DcfFrame>)
        requires
            can_pack(codec_frame@.len() as int, old(self).payload_limit()),
        ensures
            packets_carry(
                packets@,
                codec_frame@,
                old(self).next_sequence(),
                old(self).payload_limit(),
                old(self).next_frame_id(),
            ),
            final(self).next_sequence() == sequence_after(
                old(self).next_sequence(),
                packets@.len() as int,
            ),
            final(self).next_frame_id() == (old(self).next_frame_id() + 1) % 0x1_0000,
            final(self).payload_limit() == old(self).payload_limit(),
    {
        proof {
            use_type_invariant(&*self);
        }
        let frame_id: u16 = self.frame_id;
        self.frame_id = self.frame_id.wrapping_add(1);
        let mut sequence: u32 = self.sequence;
        let packets = fragment_audio(codec_frame, &mut sequence, self.max_payload, frame_id);
        self.sequence = sequence;
        packets
    }

    /// A control message: metadata, volume and the like.
    pub fn control_message(&mut self, msg_type: MessageType, payload: Vec<u8>) -> (f: DcfFrame)
        ensures
            frame_is(f, msg_type, old(self).next_sequence(), payload@),
            final(self).next_sequence() == sequence_after(old(self).next_sequence(), 1),
            final(self).next_frame_id() == old(self).next_frame_id(),
            final(self).payload_limit() == old(self).payload_limit(),
    {
        proof {
            use_type_invariant(&*self);
        }
        let frame = DcfFrame::new(msg_type, self.sequence, payload);
        self.sequence = self.sequence.wrapping_add(1);
        frame
    }

    /// The sequence number of the next packet.
    pub fn sequence(&self) -> (n: u32)
        ensures
            n == self.next_sequence(),
    {
        self.sequence
    }

    /// Header bytes and total bytes of a full packet; their quotient is the overhead.
    pub fn overhead_stats(&self) -> (r: (usize, usize))
        ensures
            r.0 == DCF_HEADER_SIZE,
            r.1 == DCF_HEADER_SIZE + self.payload_limit(),
    {
        proof {
            use_type_invariant(self);
        }
        (DCF_HEADER_SIZE, DCF_HEADER_SIZE + self.max_payload)
    }
}

// ---------------------------------------------------------------------------------
// Laws of the wire forms
// ---------------------------------------------------------------------------------

/// The codes of the message types.
pub proof fn law_message_code_table()
    ensures
        MessageType::Heartbeat.code() == 0x01,
        MessageType::Ack.code() == 0x04,
        MessageType::DeviceInfo.code() == 0x05,
        MessageType::AudioFrame.code() == 0x10,
        MessageType::AudioFragment.code() == 0x11,
        MessageType::AudioSilence.code() == 0x12,
        MessageType::CodecConfig.code() == 0x20,
        MessageType::VolumeChange.code() == 0x21,
        MessageType::TrackMetadata.code() == 0x30,
        MessageType::PlaybackState.code() == 0x31,
{
}

/// Where the fields of a header stand among its bytes, and how the bytes spell them.
pub proof fn law_header_layout(h: DcfHeader)
    ensures
        header_bytes(h).len() == 17,
        ({
            let b = header_bytes(h);
            &&& b[0] == h.msg_type
            &&& h.sequence == 0x100_0000 * b[1] + 0x1_0000 * b[2] + 0x100 * b[3] + b[4]
            &&& h.timestamp == 0x100_0000_0000_0000 * b[5] + 0x1_0000_0000_0000 * b[6]
                + 0x100_0000_0000 * b[7] + 0x1_0000_0000 * b[8] + 0x100_0000 * b[9] + 0x1_0000
                * b[10] + 0x100 * b[11] + b[12]
            &&& h.payload_len == 0x100_0000 * b[13] + 0x1_0000 * b[14] + 0x100 * b[15] + b[16]
        }),
{
    law_header_round_trip(h, Seq::empty());
    let b = header_bytes(h);
    assert(b + Seq::<u8>::empty() =~= b);
    lemma_byte_ranges();
    wire::law_be_write_of_read(b.subrange(1, 5));
    wire::law_be_write_of_read(b.subrange(5, 13));
    wire::law_be_write_of_read(b.subrange(13, 17));
    wire::law_be_value_in_base_256(b.subrange(1, 5));
    wire::law_be_value_in_base_256(b.subrange(5, 13));
    wire::law_be_value_in_base_256(b.subrange(13, 17));
}

/// A frame's wire form is its header's seventeen bytes and then its payload, unchanged.
pub proof fn law_frame_layout(header: DcfHeader, payload: Seq<u8>, i: int)
    requires
        0 <= i < payload.len(),
    ensures
        frame_bytes(header, payload).len() == 17 + payload.len(),
        frame_bytes(header, payload)[17 + i] == payload[i],
        frame_bytes(header, payload).take(17) == header_bytes(header),
{
    lemma_header_bytes_len(header);
    assert(frame_bytes(header, payload).take(17) =~= header_bytes(header));
}

/// A sequence number moves on by one for every packet, and starts over after the largest.
pub proof fn law_sequence_moves_on(sequence: u32, n: int)
    requires
        n >= 0,
    ensures
        sequence_after(sequence, 0) == sequence,
        sequence_after(sequence, n) < u32::MAX ==> sequence_after(sequence, n + 1)
            == sequence_after(sequence, n) + 1,
        sequence_after(sequence, n) == u32::MAX ==> sequence_after(sequence, n + 1) == 0,
{
}

/// What a receiver reads in the packet that carries piece `i`: the frame identifier, the
/// index and the number of packets, and the offset at which its body stands in the codec
/// frame, as far as the fields hold them. The first flag is on the packet with the beginning
/// of the codec frame and the last flag on the one with its end.
pub proof fn law_fragment_header_read_back(
    data: Seq<u8>,
    max_payload: int,
    frame_id: u16,
    i: int,
)
    requires
        can_pack(data.len() as int, max_payload),
        0 <= i < piece_count(data.len() as int, max_payload - FRAGMENT_HEADER_SIZE),
    ensures
        ({
            let usable = max_payload - 7;
            let count = piece_count(data.len() as int, usable);
            let p = fragment_payload(data, usable, frame_id, i);
            let body = p.skip(7);
            let start = i * usable;
            let end = start + body.len();
            &&& p.len() >= 7
            &&& 0 <= start <= end <= data.len()
            &&& body == data.subrange(start, end)
            &&& body.len() == usable || end == data.len()
            &&& data.len() > 0 ==> body.len() > 0
            &&& 0x100 * p[0] + p[1] == frame_id
            &&& (i - p[2]) % 256 == 0
            &&& i < 256 ==> p[2] == i
            &&& (count - p[3]) % 256 == 0
            &&& count < 256 ==> p[3] == count
            &&& (start - (0x100 * p[4] + p[5])) % 0x1_0000 == 0
            &&& start < 0x1_0000 ==> 0x100 * p[4] + p[5] == start
            &&& p[6] == (if start == 0 {
                1int
            } else {
                0int
            }) + (if end == data.len() {
                2int
            } else {
                0int
            })
        }),
{
    let usable = max_payload - FRAGMENT_HEADER_SIZE;
    let len = data.len() as int;
    let count = piece_count(len, usable);
    let p = fragment_payload(data, usable, frame_id, i);
    let offset = ((i * usable) % 0x1_0000) as nat;
    lemma_fragment_header_len(frame_id, i, count, usable);
    wire::lemma_be_bytes_len(frame_id as nat, 2);
    wire::lemma_be_bytes_len(offset, 2);
    lemma_byte_ranges();
    wire::law_be_read_of_write(frame_id as nat, 2);
    wire::law_be_read_of_write(offset, 2);
    wire::law_be_value_in_base_256(wire::be_bytes(frame_id as nat, 2));
    wire::law_be_value_in_base_256(wire::be_bytes(offset, 2));
    let f = wire::be_bytes(frame_id as nat, 2);
    let o = wire::be_bytes(offset, 2);
    assert(p[0] == f[0] && p[1] == f[1]);
    assert(p[4] == o[0] && p[5] == o[1]);
    assert(p.skip(7) =~= piece(data, usable, i));
    if len <= usable {
        assert(i == 0);
        assert(0 * usable == 0);
        assert(p.skip(7) =~= data.subrange(0, len));
    } else {
        lemma_piece_bounds(len, usable, i);
        lemma_next_start(i, usable);
        assert(i > 0 ==> i * usable > 0) by (nonlinear_arith)
            requires
                usable > 0,
        ;
        assert(i == 0 ==> i * usable == 0);
    }
}

/// A receiver rebuilds the codec frame from its packets in any order: each body, placed at
/// the offset that its header gives, is what the codec frame holds there, and the index orders
/// the packets as their bodies stand.
pub proof fn law_receiver_rebuilds(
    packets: Seq<DcfFrame>,
    data: Seq<u8>,
    sequence: u32,
    max_payload: int,
    frame_id: u16,
)
    requires
        max_payload > 7,
        data.len() <= 0x1_0000,
        packets_carry(packets, data, sequence, max_payload, frame_id),
    ensures
        packets.len() >= 1,
        forall|i: int|
            0 <= i < packets.len() ==> {
                let p = (#[trigger] packets[i]).payload@;
                let offset = 0x100 * p[4] + p[5];
                &&& 7 <= p.len() <= max_payload
                &&& offset + (p.len() - 7) <= data.len()
                &&& p.skip(7) == data.subrange(offset, offset + (p.len() - 7))
                &&& packets.len() <= 256 ==> p[2] == i
                &&& packets.len() < 256 ==> p[3] == packets.len()
            },
        forall|i: int, j: int|
            0 <= i < j < packets.len() ==> {
                let p = (#[trigger] packets[i]).payload@;
                let q = (#[trigger] packets[j]).payload@;
                0x100 * p[4] + p[5] + (p.len() - 7) <= 0x100 * q[4] + q[5]
            },
{
    let usable = max_payload - FRAGMENT_HEADER_SIZE;
    let len = data.len() as int;
    let count = piece_count(len, usable);
    law_single_packet_iff_fits(data, max_payload);
    assert forall|i: int| 0 <= i < packets.len() implies {
        let p = (#[trigger] packets[i]).payload@;
        let offset = 0x100 * p[4] + p[5];
        &&& 7 <= p.len() <= max_payload
        &&& offset + (p.len() - 7) <= data.len()
        &&& p.skip(7) == data.subrange(offset, offset + (p.len() - 7))
        &&& packets.len() <= 256 ==> p[2] == i
        &&& packets.len() < 256 ==> p[3] == packets.len()
        &&& offset == i * usable
        &&& p.len() - 7 == usable || offset + (p.len() - 7) == data.len()
    } by {
        law_fragment_header_read_back(data, max_payload, frame_id, i);
        law_fragments_fit(data, max_payload, frame_id, i);
        lemma_start_below(len, usable, i);
    }
    assert forall|i: int, j: int| 0 <= i < j < packets.len() implies {
        let p = (#[trigger] packets[i]).payload@;
        let q = (#[trigger] packets[j]).payload@;
        0x100 * p[4] + p[5] + (p.len() - 7) <= 0x100 * q[4] + q[5]
    } by {
        assert((i + 1) * usable <= j * usable) by (nonlinear_arith)
            requires
                i + 1 <= j,
                usable > 0,
        ;
        lemma_next_start(i, usable);
        law_fragments_fit(data, max_payload, frame_id, i);
    }
}

/// No byte of a codec frame is missing from its packets: byte `b` is in the packet that its
/// position tells, as far behind the header as it is behind the offset there.
pub proof fn law_every_byte_is_carried(
    packets: Seq<DcfFrame>,
    data: Seq<u8>,
    sequence: u32,
    max_payload: int,
    frame_id: u16,
    b: int,
)
    requires
        max_payload > 7,
        data.len() <= 0x1_0000,
        packets_carry(packets, data, sequence, max_payload, frame_id),
        0 <= b < data.len(),
    ensures
        0 <= b / (max_payload - 7) < packets.len(),
        ({
            let p = packets[b / (max_payload - 7)].payload@;
            let offset = 0x100 * p[4] + p[5];
            &&& offset <= b < offset + (p.len() - 7)
            &&& p[7 + b - offset] == data[b]
        }),
{
    let usable = max_payload - FRAGMENT_HEADER_SIZE;
    let len = data.len() as int;
    let count = piece_count(len, usable);
    let i = b / usable;
    law_single_packet_iff_fits(data, max_payload);
    assert(0 <= i && i * usable <= b < i * usable + usable) by (nonlinear_arith)
        requires
            i == b / usable,
            usable > 0,
            b >= 0,
    ;
    if len <= usable {
        assert(i == 0) by (nonlinear_arith)
            requires
                i * usable <= b < usable,
                i >= 0,
                usable > 0,
        ;
    } else {
        lemma_piece_bounds(len, usable, count - 1);
        lemma_next_start(count - 1, usable);
        assert(i < count) by (nonlinear_arith)
            requires
                i * usable <= b,
                b < len,
                len <= count * usable,
                usable > 0,
        ;
    }
    law_fragment_header_read_back(data, max_payload, frame_id, i);
    lemma_start_below(len, usable, i);
    let p = packets[i].payload@;
    let offset = 0x100 * p[4] + p[5];
    assert(p[7 + b - offset] == p.skip(7)[b - offset]);
}

proof fn lemma_start_below(len: int, usable: int, i: int)
    requires
        usable > 0,
        0 <= len <= 0x1_0000,
        0 <= i < piece_count(len, usable),
    ensures
        0 <= i * usable < 0x1_0000,
{
    if len <= usable {
        assert(0 * usable == 0);
    } else {
        lemma_piece_bounds(len, usable, i);
    }
}

/// The packets of a codec frame: their types, their numbers one after the other, and the
/// lengths in their headers.
pub proof fn law_packets_numbered(
    packets: Seq<DcfFrame>,
    data: Seq<u8>,
    sequence: u32,
    max_payload: int,
    frame_id: u16,
    i: int,
)
    requires
        can_pack(data.len() as int, max_payload),
        max_payload <= u32::MAX,
        packets_carry(packets, data, sequence, max_payload, frame_id),
        0 <= i < packets.len(),
    ensures
        packets[i].header.msg_type == (if packets.len() == 1 {
            0x10u8
        } else {
            0x11u8
        }),
        (packets[i].header.sequence - sequence - i) % 0x1_0000_0000 == 0,
        packets[i].header.payload_len == packets[i].payload@.len(),
{
    law_fragments_fit(data, max_payload, frame_id, i);
}

/// The CRC of data that grows by a byte depends on the data through its CRC alone.
pub proof fn law_crc8_of_more(data: Seq<u8>, b: u8)
    ensures
        crc8_of(Seq::<u8>::empty()) == 0,
        crc8_of(data.push(b)) == crc8_of(seq![crc8_of(data) ^ b]),
{
    let c = crc8_of(data) ^ b;
    assert(data.push(b).drop_last() =~= data);
    assert(seq![c].drop_last() =~= Seq::<u8>::empty());
    assert(0u8 ^ c == c) by (bit_vector);
}

/// The CRC of a byte is the sum, without carries, of what its bits contribute.
pub proof fn law_crc8_of_a_byte(b: u8)
    ensures
        crc8_of(seq![b]) == bit_share(b, 0x01, 0x5E) ^ bit_share(b, 0x02, 0xBC) ^ bit_share(
            b,
            0x04,
            0x61,
        ) ^ bit_share(b, 0x08, 0xC2) ^ bit_share(b, 0x10, 0x9D) ^ bit_share(b, 0x20, 0x23)
            ^ bit_share(b, 0x40, 0x46) ^ bit_share(b, 0x80, 0x8C),
{
    assert(seq![b].drop_last() =~= Seq::<u8>::empty());
    assert(crc8_of(Seq::<u8>::empty()) == 0);
    assert(0u8 ^ b == b) by (bit_vector);
    reveal_with_fuel(crc8_shifts, 9);
    let r1 = crc8_shift(b);
    let r2 = crc8_shift(r1);
    let r3 = crc8_shift(r2);
    let r4 = crc8_shift(r3);
    let r5 = crc8_shift(r4);
    let r6 = crc8_shift(r5);
    let r7 = crc8_shift(r6);
    let r8 = crc8_shift(r7);
    assert(r8 == bit_share(b, 0x01, 0x5E) ^ bit_share(b, 0x02, 0xBC) ^ bit_share(b, 0x04, 0x61)
        ^ bit_share(b, 0x08, 0xC2) ^ bit_share(b, 0x10, 0x9D) ^ bit_share(b, 0x20, 0x23)
        ^ bit_share(b, 0x40, 0x46) ^ bit_share(b, 0x80, 0x8C)) by (bit_vector)
        requires
            r1 == crc8_shift(b),
            r2 == crc8_shift(r1),
            r3 == crc8_shift(r2),
            r4 == crc8_shift(r3),
            r5 == crc8_shift(r4),
            r6 == crc8_shift(r5),
            r7 == crc8_shift(r6),
            r8 == crc8_shift(r7),
    ;
}

/// What a bit of a byte contributes, if it is set.
pub open spec fn bit_share(b: u8, bit: u8, share: u8) -> u8 {
    if b & bit != 0 {
        share
    } else {
        0
    }
}

/// What it means that a frame is of a type, has a number and carries a payload.
pub proof fn law_frame_fields(f: DcfFrame, msg_type: MessageType, sequence: u32, payload: Seq<u8>)
    requires
        frame_is(f, msg_type, sequence, payload),
    ensures
        f.header.msg_type == msg_type.code(),
        f.header.sequence == sequence,
        f.payload@ == payload,
        (payload.len() - f.header.payload_len) % 0x1_0000_0000 == 0,
        payload.len() <= u32::MAX ==> f.header.payload_len == payload.len(),
{
}

/// A frame whose header counts its payload is read back whole, whatever bytes follow it, and
/// no shorter input holds it.
pub proof fn law_frame_extent(header: DcfHeader, payload: Seq<u8>, rest: Seq<u8>)
    requires
        header.payload_len == payload.len(),
        17 + payload.len() <= usize::MAX,
    ensures
        header_of(frame_bytes(header, payload) + rest) == header,
        frame_extent(frame_bytes(header, payload) + rest) == frame_bytes(header, payload).len(),
        (frame_bytes(header, payload) + rest).subrange(17, 17 + header.payload_len) == payload,
{
    let s = frame_bytes(header, payload) + rest;
    lemma_header_bytes_len(header);
    law_header_round_trip(header, payload + rest);
    assert(s =~= header_bytes(header) + (payload + rest));
    assert(s.subrange(17, 17 + header.payload_len) =~= payload);
}

/// A framing error says what is wrong with the frame.
pub proof fn law_framing_errors_say_why(s: String, t: u8, expected: usize, got: usize)
    ensures
        text::begins_and_ends(DcfError::Parse(s).text(), "Parse error: "@, s@),
        text::begins_and_ends(DcfError::FragmentError(s).text(), "Fragment reassembly error: "@, s@),
        text::begins_and_ends(
            DcfError::UnknownType(t).text(),
            "Unknown message type: 0x"@,
            text::hex_byte(t, true),
        ),
        text::begins_and_ends(
            DcfError::TooShort { expected, got }.text(),
            "Frame too short: expected "@ + text::decimal(expected as nat),
            " bytes, got "@ + text::decimal(got as nat),
        ),
{
    text::lemma_joined_parts("Parse error: "@, s@);
    text::lemma_joined_parts("Fragment reassembly error: "@, s@);
    text::lemma_joined_parts("Unknown message type: 0x"@, text::hex_byte(t, true));
    let a = "Frame too short: expected "@ + text::decimal(expected as nat);
    let b = " bytes, got "@ + text::decimal(got as nat);
    text::lemma_joined_parts(a, b);
    assert(DcfError::TooShort { expected, got }.text() =~= a + b);
}

/// A codec frame can be packed whenever a packet has room behind the fragment header, and an
/// empty one also when it has none.
pub proof fn law_packable(len: int, room: int)
    requires
        len >= 0,
    ensures
        room >= 1 ==> can_pack(len, room + 7),
        len == 0 ==> can_pack(len, 7),
        len > 0 ==> !can_pack(len, 7),
        room < 0 ==> !can_pack(len, room + 7),
{
}

} // verus!
