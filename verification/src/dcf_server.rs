//! The socket to which user interfaces connect: frames that go out to all of them, and
//! frames that come in.

use vstd::prelude::*;

use crate::bluez;
use crate::bluez::BlueZEvent;
use crate::clock;
use crate::dcf;
use crate::dcf::DcfHeader;
use crate::text;
use crate::wire;

verus! {

/// Kinds of messages on the socket.
#[derive(Debug, Clone, Copy, PartialEq, Eq, Structural)]
pub enum GuiMsgType {
    VolumeChange,
    TrackMetadata,
    PlaybackState,
    CodecConfig,
    Heartbeat,
}

impl GuiMsgType {
    /// The code of a kind.
    pub open spec fn code(self) -> u8 {
        match self {
            GuiMsgType::VolumeChange => 0x21,
            GuiMsgType::TrackMetadata => 0x30,
            GuiMsgType::PlaybackState => 0x31,
            GuiMsgType::CodecConfig => 0x20,
            GuiMsgType::Heartbeat => 0x01,
        }
    }

    /// The code of a kind.
    pub fn as_u8(self) -> (v: u8)
        ensures
            v == self.code(),
    {
        match self {
            GuiMsgType::VolumeChange => 0x21,
            GuiMsgType::TrackMetadata => 0x30,
            GuiMsgType::PlaybackState => 0x31,
            GuiMsgType::CodecConfig => 0x20,
            GuiMsgType::Heartbeat => 0x01,
        }
    }
}

/// The path of the socket: the one that is asked for, or else one in the directory for
/// sockets, or else in the directory for temporary files.
pub open spec fn socket_text(socket: Option<Seq<char>>, dir: Option<Seq<char>>) -> Seq<char> {
    match socket {
        Some(path) => path,
        None => (match dir {
            Some(d) => d,
            None => "/tmp"@,
        }) + "/demod-bt.sock"@,
    }
}

/// The path of the socket.
pub fn socket_path(socket: Option<String>, dir: Option<String>) -> (path: String)
    ensures
        path@ == socket_text(
            match socket {
                Some(s) => Some(s@),
                None => None,
            },
            match dir {
                Some(s) => Some(s@),
                None => None,
            },
        ),
{
    match socket {
        Some(path) => path,
        None => match dir {
            Some(d) => text::joined(d.as_str(), "/demod-bt.sock"),
            None => text::joined("/tmp", "/demod-bt.sock"),
        },
    }
}

// ---------------------------------------------------------------------------------
// Payloads
// ---------------------------------------------------------------------------------

/// A text as bytes, ended by a zero.
pub open spec fn ended_text(s: Seq<char>) -> Seq<u8> {
    vstd::utf8::encode_utf8(s).push(0u8)
}

/// Appends a text, ended by a zero.
fn push_ended(out: &mut Vec<u8>, s: &str)
    ensures
        final(out)@ == old(out)@ + ended_text(s@),
{
    out.extend_from_slice(s.as_bytes());
    out.push(0u8);
    assert(out@ =~= old(out)@ + ended_text(s@));
}

/// The payload of track metadata: title, artist and album, each ended by a zero.
pub open spec fn metadata_bytes(title: Seq<char>, artist: Seq<char>, album: Seq<char>) -> Seq<u8> {
    ended_text(title) + ended_text(artist) + ended_text(album)
}

/// The payload of track metadata.
pub fn metadata_payload(title: &str, artist: &str, album: &str) -> (v: Vec<u8>)
    ensures
        v@ == metadata_bytes(title@, artist@, album@),
{
    let mut v: Vec<u8> = Vec::new();
    push_ended(&mut v, title);
    push_ended(&mut v, artist);
    push_ended(&mut v, album);
    assert(v@ =~= metadata_bytes(title@, artist@, album@));
    v
}

/// The payload of a volume: its low byte, and a zero.
pub open spec fn volume_bytes(volume: u16) -> Seq<u8> {
    seq![(volume % 256) as u8, 0u8]
}

/// The payload of a volume.
pub fn volume_payload(volume: u16) -> (v: Vec<u8>)
    ensures
        v@ == volume_bytes(volume),
{
    let v: Vec<u8> = vec![(volume % 256) as u8, 0u8];
    assert(v@ =~= volume_bytes(volume));
    v
}

/// The payload of a playback state: the status, ended by a zero, and the position in eight
/// bytes, most significant first.
pub open spec fn playback_bytes(status: Seq<char>, position_us: u64) -> Seq<u8> {
    ended_text(status) + wire::be_bytes(position_us as nat, 8)
}

/// The payload of a playback state.
pub fn playback_payload(status: &str, position_us: u64) -> (v: Vec<u8>)
    ensures
        v@ == playback_bytes(status@, position_us),
{
    let mut v: Vec<u8> = Vec::new();
    push_ended(&mut v, status);
    wire::write_u64(&mut v, position_us);
    assert(v@ =~= playback_bytes(status@, position_us));
    v
}

/// The payload of a codec's name.
pub fn codec_payload(codec_name: &str) -> (v: Vec<u8>)
    ensures
        v@ == ended_text(codec_name@),
{
    let mut v: Vec<u8> = Vec::new();
    push_ended(&mut v, codec_name);
    assert(v@ =~= ended_text(codec_name@));
    v
}

// ---------------------------------------------------------------------------------
// Frames that go out
// ---------------------------------------------------------------------------------

/// The header of a frame that goes out.
pub open spec fn gui_header(msg_type: u8, sequence: u32, timestamp: u64, len: int) -> DcfHeader {
    DcfHeader { msg_type, sequence, timestamp, payload_len: dcf::low_u32(len) }
}

/// The bytes are those of a frame, whatever its timestamp.
pub open spec fn is_gui_frame(
    bytes: Seq<u8>,
    msg_type: u8,
    sequence: u32,
    payload: Seq<u8>,
) -> bool {
    exists|timestamp: u64|
        bytes == dcf::frame_bytes(
            #[trigger] gui_header(msg_type, sequence, timestamp, payload.len() as int),
            payload,
        )
}

/// The bytes of a frame that goes out at a given time.
pub fn gui_frame_at(msg_type: u8, sequence: u32, timestamp: u64, payload: &[u8]) -> (bytes: Vec<u8>)
    ensures
        bytes@ == dcf::frame_bytes(
            gui_header(msg_type, sequence, timestamp, payload@.len() as int),
            payload@,
        ),
{
    let len: u64 = payload.len() as u64;
    let header = DcfHeader {
        msg_type,
        sequence,
        timestamp,
        payload_len: (len % 0x1_0000_0000) as u32,
    };
    let head = header.serialize();
    let mut bytes: Vec<u8> = Vec::new();
    bytes.extend_from_slice(&head);
    bytes.extend_from_slice(payload);
    assert(bytes@ =~= dcf::header_bytes(header) + payload@);
    bytes
}

/// Numbers the frames that go out. What it returns goes to every client.
#[derive(Debug)]
pub struct DcfServer {
    seq: u32,
}

impl DcfServer {
    /// The number of the next frame.
    pub closed spec fn next_sequence(&self) -> u32 {
        self.seq
    }

    /// A server that has not sent anything yet.
    pub fn new() -> (s: DcfServer)
        ensures
            s.next_sequence() == 0,
    {
        DcfServer { seq: 0 }
    }

    /// A frame with the given payload, stamped with the current time.
    pub fn broadcast(&mut self, msg_type: u8, payload: &[u8]) -> (bytes: Vec<u8>)
        ensures
            is_gui_frame(bytes@, msg_type, old(self).next_sequence(), payload@),
            final(self).next_sequence() == dcf::sequence_after(old(self).next_sequence(), 1),
    {
        let sequence: u32 = self.seq;
        let timestamp: u64 = clock::now_us();
        self.seq = sequence.wrapping_add(1);
        gui_frame_at(msg_type, sequence, timestamp, payload)
    }

    /// A frame with track metadata.
    pub fn broadcast_track_metadata(&mut self, title: &str, artist: &str, album: &str) -> (bytes:
        Vec<u8>)
        ensures
            is_gui_frame(
                bytes@,
                GuiMsgType::TrackMetadata.code(),
                old(self).next_sequence(),
                metadata_bytes(title@, artist@, album@),
            ),
            final(self).next_sequence() == dcf::sequence_after(old(self).next_sequence(), 1),
    {
        let payload: Vec<u8> = metadata_payload(title, artist, album);
        self.broadcast(GuiMsgType::TrackMetadata.as_u8(), payload.as_slice())
    }

    /// A frame with a volume.
    pub fn broadcast_volume(&mut self, volume: u16) -> (bytes: Vec<u8>)
        ensures
            is_gui_frame(
                bytes@,
                GuiMsgType::VolumeChange.code(),
                old(self).next_sequence(),
                volume_bytes(volume),
            ),
            final(self).next_sequence() == dcf::sequence_after(old(self).next_sequence(), 1),
    {
        let payload: Vec<u8> = volume_payload(volume);
        self.broadcast(GuiMsgType::VolumeChange.as_u8(), payload.as_slice())
    }

    /// A frame with a playback state.
    pub fn broadcast_playback_state(&mut self, status: &str, position_us: u64) -> (bytes: Vec<u8>)
        ensures
            is_gui_frame(
                bytes@,
                GuiMsgType::PlaybackState.code(),
                old(self).next_sequence(),
                playback_bytes(status@, position_us),
            ),
            final(self).next_sequence() == dcf::sequence_after(old(self).next_sequence(), 1),
    {
        let payload: Vec<u8> = playback_payload(status, position_us);
        self.broadcast(GuiMsgType::PlaybackState.as_u8(), payload.as_slice())
    }

    /// A frame with a codec's name.
    pub fn broadcast_codec(&mut self, codec_name: &str) -> (bytes: Vec<u8>)
        ensures
            is_gui_frame(
                bytes@,
                GuiMsgType::CodecConfig.code(),
                old(self).next_sequence(),
                ended_text(codec_name@),
            ),
            final(self).next_sequence() == dcf::sequence_after(old(self).next_sequence(), 1),
    {
        let payload: Vec<u8> = codec_payload(codec_name);
        self.broadcast(GuiMsgType::CodecConfig.as_u8(), payload.as_slice())
    }
}

// ---------------------------------------------------------------------------------
// Frames that come in
// ---------------------------------------------------------------------------------

/// Longest payload that a client may send.
pub const MAX_INBOUND: u32 = 256;

/// The length of the payload that follows a client's header; `None` for one that is too
/// long, after which the client is not listened to any more.
pub fn inbound_len(header: &DcfHeader) -> (r: Option<usize>)
    ensures
        r is Some <==> header.payload_len <= MAX_INBOUND,
        r matches Some(n) ==> n == header.payload_len,
{
    if header.payload_len > MAX_INBOUND {
        None
    } else {
        Some(header.payload_len as usize)
    }
}

/// What `char::to_uppercase` makes of a character.
pub uninterp spec fn upper_text(c: char) -> Seq<char>;

/// Calls `char::to_uppercase`: the character in upper case, which can be several. An ASCII
/// letter becomes the capital letter, and other ASCII characters stay as they are.
#[verifier::external_body]
fn upper(c: char) -> (s: String)
    ensures
        s@ == upper_text(c),
        'a' <= c <= 'z' ==> s@ == seq![(c as u32 - 32) as char],
        (c as u32) < 0x80 && !('a' <= c <= 'z') ==> s@ == seq![c],
{
    c.to_uppercase().to_string()
}

/// A text without the zeros at its end.
pub open spec fn without_zeros(s: Seq<char>) -> Seq<char>
    decreases s.len(),
{
    if s.len() > 0 && s.last() == '\0' {
        without_zeros(s.drop_last())
    } else {
        s
    }
}

/// The message of a playback command, with its first character written as `first`.
pub open spec fn command_text(command: Seq<char>, first: Seq<char>) -> Seq<char> {
    "AVRCP:"@ + (if command.len() == 0 {
        Seq::empty()
    } else {
        first + command.skip(1)
    })
}

/// What a client's frame asks for.
pub open spec fn inbound(msg_type: u8, payload: Seq<u8>) -> Option<bluez::EventView> {
    if msg_type == GuiMsgType::VolumeChange.code() && payload.len() > 0 {
        Some(bluez::EventView::VolumeChanged { volume: payload[0] as u16 })
    } else if msg_type == GuiMsgType::PlaybackState.code() {
        let command = without_zeros(text::lossy_text(payload));
        Some(bluez::EventView::Error { message: command_text(command, upper_text(command[0])) })
    } else {
        None
    }
}

/// A volume that is sent out and comes back asks for the same volume, as far as one byte
/// holds it.
pub proof fn law_volume_comes_back(volume: u16)
    ensures
        inbound(GuiMsgType::VolumeChange.code(), volume_bytes(volume)) == Some(
            bluez::EventView::VolumeChanged { volume: (volume % 256) as u16 },
        ),
{
}

/// Frames of other kinds, and volumes without a value, ask for nothing.
pub proof fn law_other_frames_ignored(msg_type: u8, payload: Seq<u8>)
    requires
        msg_type != GuiMsgType::PlaybackState.code(),
        msg_type != GuiMsgType::VolumeChange.code() || payload.len() == 0,
    ensures
        inbound(msg_type, payload) is None,
{
}

/// Cuts zeros off the end.
fn trim_zeros(v: &[char]) -> (r: &[char])
    ensures
        r@ == without_zeros(v@),
{
    let mut end: usize = v.len();
    assert(v@.take(end as int) =~= v@);
    while end > 0 && v[end - 1] == '\0'
        invariant
            end <= v@.len(),
            without_zeros(v@) == without_zeros(v@.take(end as int)),
        decreases end,
    {
        assert(v@.take(end as int).drop_last() =~= v@.take(end - 1));
        end -= 1;
    }
    let r = &v[0..end];
    assert(r@ =~= v@.take(end as int));
    r
}

/// The message of a playback command, with its first character written as `first`.
pub fn command_message(command: &[char], first: &str) -> (s: String)
    ensures
        s@ == command_text(command@, first@),
{
    let mut s: String = "AVRCP:".to_owned();
    if command.len() > 0 {
        s.append(first);
        let rest: String = text::string_of(&command[1..command.len()]);
        s.append(rest.as_str());
        assert(rest@ =~= command@.skip(1));
    }
    assert(s@ =~= command_text(command@, first@));
    s
}

/// A command with its first character in upper case, behind the name of the profile.
fn capitalized_message(command: &[char]) -> (s: String)
    ensures
        s@ == command_text(command@, upper_text(command@[0])),
{
    if command.len() == 0 {
        let none: String = String::new();
        command_message(command, none.as_str())
    } else {
        let first: String = upper(command[0]);
        command_message(command, first.as_str())
    }
}

/// The event for a client's frame: a volume to set, or a playback command.
pub fn inbound_event(msg_type: u8, payload: &[u8]) -> (r: Option<BlueZEvent>)
    ensures
        r is Some <==> inbound(msg_type, payload@) is Some,
        r matches Some(e) ==> Some(e@) == inbound(msg_type, payload@),
{
    if msg_type == 0x21 && payload.len() > 0 {
        return Some(BlueZEvent::VolumeChanged { volume: payload[0] as u16 });
    }
    if msg_type == 0x31 {
        let all: String = text::from_bytes(payload);
        let v = text::chars_of(all.as_str());
        let message: String = capitalized_message(trim_zeros(v.as_slice()));
        return Some(BlueZEvent::Error { message });
    }
    None
}

// ---------------------------------------------------------------------------------
// Laws of the socket
// ---------------------------------------------------------------------------------

/// The codes on the socket are those of the same messages everywhere.
pub proof fn law_socket_codes()
    ensures
        GuiMsgType::VolumeChange.code() == dcf::MessageType::VolumeChange.code(),
        GuiMsgType::TrackMetadata.code() == dcf::MessageType::TrackMetadata.code(),
        GuiMsgType::PlaybackState.code() == dcf::MessageType::PlaybackState.code(),
        GuiMsgType::CodecConfig.code() == dcf::MessageType::CodecConfig.code(),
        GuiMsgType::Heartbeat.code() == dcf::MessageType::Heartbeat.code(),
{
}

/// The socket is where it is asked for; else under its name in the directory for sockets, or
/// in that for temporary files.
pub proof fn law_socket_place(path: Seq<char>, dir: Seq<char>, either: Option<Seq<char>>)
    ensures
        socket_text(Some(path), either) == path,
        socket_text(None, Some(dir)) == dir + "/demod-bt.sock"@,
        socket_text(None, None) == "/tmp/demod-bt.sock"@,
{
    reveal_strlit("/tmp");
    reveal_strlit("/demod-bt.sock");
    reveal_strlit("/tmp/demod-bt.sock");
    assert("/tmp"@ + "/demod-bt.sock"@ =~= "/tmp/demod-bt.sock"@);
}

/// A text is read back from its bytes and the zero that ends it.
pub proof fn law_ended_text(s: Seq<char>)
    ensures
        ended_text(s).last() == 0,
        ended_text(s).drop_last() == vstd::utf8::encode_utf8(s),
        ended_text(s).len() == vstd::utf8::encode_utf8(s).len() + 1,
{
    assert(ended_text(s).drop_last() =~= vstd::utf8::encode_utf8(s));
}

/// Title, artist and album stand in the metadata payload one after the other, each with a
/// zero behind it.
pub proof fn law_metadata_layout(title: Seq<char>, artist: Seq<char>, album: Seq<char>)
    ensures
        ({
            let m = metadata_bytes(title, artist, album);
            let t = vstd::utf8::encode_utf8(title);
            let a = vstd::utf8::encode_utf8(artist);
            let b = vstd::utf8::encode_utf8(album);
            let n = t.len() as int;
            let k = n + 1 + a.len();
            &&& m.len() == k + b.len() + 2
            &&& m.take(n) == t && m[n] == 0
            &&& m.subrange(n + 1, k) == a && m[k] == 0
            &&& m.subrange(k + 1, k + 1 + b.len()) == b && m.last() == 0
        }),
{
    let m = metadata_bytes(title, artist, album);
    let t = vstd::utf8::encode_utf8(title);
    let a = vstd::utf8::encode_utf8(artist);
    let b = vstd::utf8::encode_utf8(album);
    let n = t.len() as int;
    let k = n + 1 + a.len();
    assert(m.take(n) =~= t);
    assert(m.subrange(n + 1, k) =~= a);
    assert(m.subrange(k + 1, k + 1 + b.len()) =~= b);
}

/// The payload of a playback state is the status, a zero, and eight bytes that spell the
/// position.
pub proof fn law_playback_layout(status: Seq<char>, position_us: u64)
    ensures
        ({
            let m = playback_bytes(status, position_us);
            let t = vstd::utf8::encode_utf8(status);
            let n = t.len() as int;
            &&& m.len() == n + 9
            &&& m.take(n) == t && m[n] == 0
            &&& position_us == 0x100_0000_0000_0000 * m[n + 1] + 0x1_0000_0000_0000 * m[n + 2]
                + 0x100_0000_0000 * m[n + 3] + 0x1_0000_0000 * m[n + 4] + 0x100_0000 * m[n + 5]
                + 0x1_0000 * m[n + 6] + 0x100 * m[n + 7] + m[n + 8]
        }),
{
    let m = playback_bytes(status, position_us);
    let t = vstd::utf8::encode_utf8(status);
    let n = t.len() as int;
    let e = wire::be_bytes(position_us as nat, 8);
    reveal_with_fuel(wire::byte_range, 9);
    wire::lemma_be_bytes_len(position_us as nat, 8);
    wire::law_be_read_of_write(position_us as nat, 8);
    wire::law_be_value_in_base_256(e);
    assert(m.take(n) =~= t);
    assert(m.skip(n + 1) =~= e);
    assert forall|i: int| 0 <= i < 8 implies m[n + 1 + i] == #[trigger] e[i] by {}
}

/// The payload of a volume is two bytes; the first is the volume as far as one byte holds it,
/// and the second is zero.
pub proof fn law_volume_layout(volume: u16)
    ensures
        volume_bytes(volume).len() == 2,
        volume < 256 ==> volume_bytes(volume)[0] == volume,
        (volume - volume_bytes(volume)[0]) % 256 == 0,
        volume_bytes(volume)[1] == 0,
{
}

/// A frame that goes out is read back: its kind, its number, the length of its payload and
/// the payload.
pub proof fn law_gui_frame_read_back(
    bytes: Seq<u8>,
    msg_type: u8,
    sequence: u32,
    payload: Seq<u8>,
)
    requires
        is_gui_frame(bytes, msg_type, sequence, payload),
        payload.len() <= u32::MAX,
    ensures
        bytes.len() == 17 + payload.len(),
        bytes[0] == msg_type,
        sequence == 0x100_0000 * bytes[1] + 0x1_0000 * bytes[2] + 0x100 * bytes[3] + bytes[4],
        payload.len() == 0x100_0000 * bytes[13] + 0x1_0000 * bytes[14] + 0x100 * bytes[15]
            + bytes[16],
        bytes.skip(17) == payload,
        dcf::header_of(bytes).msg_type == msg_type,
        dcf::header_of(bytes).sequence == sequence,
        dcf::header_of(bytes).payload_len == payload.len(),
{
    let timestamp = choose|timestamp: u64|
        bytes == dcf::frame_bytes(
            #[trigger] gui_header(msg_type, sequence, timestamp, payload.len() as int),
            payload,
        );
    let h = gui_header(msg_type, sequence, timestamp, payload.len() as int);
    dcf::law_header_layout(h);
    dcf::law_header_round_trip(h, payload);
    assert(bytes =~= dcf::header_bytes(h) + payload);
    assert(bytes.skip(17) =~= payload);
}

/// Zeros at the end of a text are cut off, however many they are, and nothing else.
pub proof fn law_zeros_cut(s: Seq<char>, zeros: Seq<char>)
    requires
        s.len() > 0 ==> s.last() != '\0',
        forall|i: int| 0 <= i < zeros.len() ==> #[trigger] zeros[i] == '\0',
    ensures
        without_zeros(s + zeros) == s,
    decreases zeros.len(),
{
    if zeros.len() > 0 {
        assert((s + zeros).last() == zeros[zeros.len() - 1]);
        assert((s + zeros).drop_last() =~= s + zeros.drop_last());
        law_zeros_cut(s, zeros.drop_last());
    } else {
        assert(s + zeros =~= s);
    }
}

/// A playback command becomes a message behind the name of the profile: its first character
/// in upper case, and the rest of it as it came, whatever zeros follow it.
pub proof fn law_command_passed_on(payload: Seq<u8>, first: char, rest: Seq<char>, zeros: Seq<char>)
    requires
        text::lossy_text(payload) == seq![first] + rest + zeros,
        first != '\0',
        rest.len() > 0 ==> rest.last() != '\0',
        forall|i: int| 0 <= i < zeros.len() ==> #[trigger] zeros[i] == '\0',
    ensures
        inbound(0x31, payload) == Some(
            bluez::EventView::Error { message: "AVRCP:"@ + upper_text(first) + rest },
        ),
{
    let command = seq![first] + rest;
    law_zeros_cut(command, zeros);
    assert(command.skip(1) =~= rest);
    assert(command_text(command, upper_text(first)) =~= "AVRCP:"@ + upper_text(first) + rest);
}

/// A client's volume is its first byte, and every kind of frame but a volume and a playback
/// state asks for nothing.
pub proof fn law_inbound_kinds(msg_type: u8, payload: Seq<u8>)
    ensures
        payload.len() > 0 ==> inbound(0x21, payload) == Some(
            bluez::EventView::VolumeChanged { volume: payload[0] as u16 },
        ),
        payload.len() == 0 ==> inbound(0x21, payload) is None,
        inbound(0x31, payload) matches Some(e) && e is Error,
        msg_type != 0x21 && msg_type != 0x31 ==> inbound(msg_type, payload) is None,
{
}

} // verus!
