//! What crosses the foreign function interface: initial configuration, events and the
//! status line, as plain values.

use vstd::prelude::*;

use crate::bluez;
use crate::bluez::BlueZEvent;
use crate::codec::AudioCodec;
use crate::text;
use crate::transport::{AudioConfig, MetricsSnapshot, StreamDirection};

verus! {

/// No event is pending.
pub const EVT_NONE: i32 = 0;

pub const EVT_DEVICE_CONNECTED: i32 = 1;

pub const EVT_DEVICE_DISCONNECTED: i32 = 2;

pub const EVT_TRANSPORT_ACQUIRED: i32 = 3;

pub const EVT_TRANSPORT_RELEASED: i32 = 4;

pub const EVT_CODEC_NEGOTIATED: i32 = 5;

pub const EVT_TRANSPORT_PENDING: i32 = 6;

pub const EVT_VOLUME_CHANGED: i32 = 7;

pub const EVT_ERROR: i32 = -1;

/// An event with its text, if it has one. A text with a NUL character in it cannot cross
/// the interface.
#[derive(Debug)]
pub struct FfiEvent {
    pub event_type: i32,
    pub fd: i32,
    pub read_mtu: u32,
    pub write_mtu: u32,
    pub string_data: Option<String>,
}

/// What an event says.
pub ghost struct FfiEventView {
    pub event_type: i32,
    pub fd: i32,
    pub read_mtu: u32,
    pub write_mtu: u32,
    pub string_data: Option<Seq<char>>,
}

impl View for FfiEvent {
    type V = FfiEventView;

    open spec fn view(&self) -> FfiEventView {
        FfiEventView {
            event_type: self.event_type,
            fd: self.fd,
            read_mtu: self.read_mtu,
            write_mtu: self.write_mtu,
            string_data: match self.string_data {
                Some(s) => Some(s@),
                None => None,
            },
        }
    }
}

/// No event.
pub open spec fn no_event() -> FfiEventView {
    FfiEventView {
        event_type: EVT_NONE,
        fd: (-1) as i32,
        read_mtu: 0,
        write_mtu: 0,
        string_data: None,
    }
}

/// A text, if it can cross the interface.
pub open spec fn crossing(s: Seq<char>) -> Option<Seq<char>> {
    if s.contains('\0') {
        None
    } else {
        Some(s)
    }
}

/// An event that is made of a code and a text.
pub open spec fn text_event(event_type: i32, s: Seq<char>) -> FfiEventView {
    FfiEventView { event_type, string_data: crossing(s), ..no_event() }
}

/// An event as it crosses the interface.
pub open spec fn crossed(e: bluez::EventView) -> FfiEventView {
    match e {
        bluez::EventView::DeviceConnected { address, name } => text_event(
            EVT_DEVICE_CONNECTED,
            address + "|"@ + name,
        ),
        bluez::EventView::DeviceDisconnected { address } => text_event(
            EVT_DEVICE_DISCONNECTED,
            address,
        ),
        bluez::EventView::TransportPending { path } => text_event(EVT_TRANSPORT_PENDING, path),
        bluez::EventView::TransportAcquired { path, fd, read_mtu, write_mtu } => FfiEventView {
            event_type: EVT_TRANSPORT_ACQUIRED,
            fd,
            read_mtu: read_mtu as u32,
            write_mtu: write_mtu as u32,
            string_data: crossing(path),
        },
        bluez::EventView::TransportReleased { path } => text_event(EVT_TRANSPORT_RELEASED, path),
        bluez::EventView::CodecNegotiated { codec, config } => text_event(
            EVT_CODEC_NEGOTIATED,
            codec.text(),
        ),
        bluez::EventView::VolumeChanged { volume } => text_event(
            EVT_VOLUME_CHANGED,
            text::decimal(volume as nat),
        ),
        bluez::EventView::Error { message } => text_event(EVT_ERROR, message),
    }
}

/// Different kinds of events have different codes, and none has the code of no event.
pub proof fn law_event_codes_distinct(a: bluez::EventView, b: bluez::EventView)
    ensures
        crossed(a).event_type != EVT_NONE,
        crossed(a).event_type == crossed(b).event_type ==> {
            &&& (a is DeviceConnected <==> b is DeviceConnected)
            &&& (a is DeviceDisconnected <==> b is DeviceDisconnected)
            &&& (a is TransportPending <==> b is TransportPending)
            &&& (a is TransportAcquired <==> b is TransportAcquired)
            &&& (a is TransportReleased <==> b is TransportReleased)
            &&& (a is CodecNegotiated <==> b is CodecNegotiated)
            &&& (a is VolumeChanged <==> b is VolumeChanged)
            &&& (a is Error <==> b is Error)
        },
{
}

impl Default for FfiEvent {
    fn default() -> (e: FfiEvent)
        ensures
            e@ == no_event(),
    {
        FfiEvent { event_type: EVT_NONE, fd: -1, read_mtu: 0, write_mtu: 0, string_data: None }
    }
}

/// Keeps a text that can cross the interface.
fn keep_crossing(s: String) -> (r: Option<String>)
    ensures
        match r {
            Some(t) => Some(t@),
            None => None,
        } == crossing(s@),
{
    if text::contains_char(s.as_str(), '\0') {
        None
    } else {
        Some(s)
    }
}

impl FfiEvent {
    /// An event that is made of a code and a text.
    fn of_text(event_type: i32, s: String) -> (e: FfiEvent)
        ensures
            e@ == text_event(event_type, s@),
    {
        FfiEvent { event_type, fd: -1, read_mtu: 0, write_mtu: 0, string_data: keep_crossing(s) }
    }

    /// An event as it crosses the interface.
    pub fn of_event(event: Option<BlueZEvent>) -> (e: FfiEvent)
        ensures
            e@ == (match event {
                Some(b) => crossed(b@),
                None => no_event(),
            }),
    {
        match event {
            None => FfiEvent::default(),
            Some(BlueZEvent::DeviceConnected { address, name }) => {
                let mut s: String = text::joined(address.as_str(), "|");
                s.append(name.as_str());
                FfiEvent::of_text(EVT_DEVICE_CONNECTED, s)
            },
            Some(BlueZEvent::DeviceDisconnected { address }) => FfiEvent::of_text(
                EVT_DEVICE_DISCONNECTED,
                address,
            ),
            Some(BlueZEvent::TransportPending { path }) => FfiEvent::of_text(
                EVT_TRANSPORT_PENDING,
                path,
            ),
            Some(BlueZEvent::TransportAcquired { path, fd, read_mtu, write_mtu }) => FfiEvent {
                event_type: EVT_TRANSPORT_ACQUIRED,
                fd,
                read_mtu: read_mtu as u32,
                write_mtu: write_mtu as u32,
                string_data: keep_crossing(path),
            },
            Some(BlueZEvent::TransportReleased { path }) => FfiEvent::of_text(
                EVT_TRANSPORT_RELEASED,
                path,
            ),
            Some(BlueZEvent::CodecNegotiated { codec, config: _ }) => FfiEvent::of_text(
                EVT_CODEC_NEGOTIATED,
                codec.name().to_owned(),
            ),
            Some(BlueZEvent::VolumeChanged { volume }) => {
                let mut s: String = String::new();
                text::push_decimal(&mut s, volume as u64);
                assert(s@ =~= text::decimal(volume as nat));
                FfiEvent::of_text(EVT_VOLUME_CHANGED, s)
            },
            Some(BlueZEvent::Error { message }) => FfiEvent::of_text(EVT_ERROR, message),
        }
    }
}

/// The low sixteen bits of a number.
pub fn low_u16(n: u32) -> (r: u16)
    ensures
        r == n % 0x1_0000,
{
    (n % 0x1_0000) as u16
}

/// The configuration that a caller asks for. Direction zero is a sink, any other a source.
pub fn init_config(
    sample_rate: u32,
    channels: u32,
    direction: i32,
    jitter_ms: u32,
    dcf_payload: u32,
) -> (c: AudioConfig)
    ensures
        c.sample_rate == sample_rate,
        c.channels == channels % 0x1_0000,
        c.bit_depth == 16,
        c.direction == (if direction == 0 {
            StreamDirection::Sink
        } else {
            StreamDirection::Source
        }),
        c.codec == AudioCodec::Sbc,
        c.codec_config is None,
        c.jitter_buffer_ms == jitter_ms,
        c.dcf_payload_size == dcf_payload,
{
    AudioConfig {
        sample_rate,
        channels: low_u16(channels),
        bit_depth: 16,
        direction: if direction == 0 {
            StreamDirection::Sink
        } else {
            StreamDirection::Source
        },
        codec: AudioCodec::Sbc,
        codec_config: None,
        jitter_buffer_ms: jitter_ms,
        dcf_payload_size: dcf_payload as usize,
    }
}

/// The status line.
pub open spec fn status_text(state: Option<(bool, MetricsSnapshot)>) -> Seq<char> {
    match state {
        Some((streaming, m)) => "DeMoD BT v0.1.0 | "@ + (if streaming {
            "STREAMING"@
        } else {
            "IDLE"@
        }) + " | frames:"@ + text::decimal(m.frames_processed as nat) + " underruns:"@
            + text::decimal(m.underruns as nat) + " overruns:"@ + text::decimal(m.overruns as nat)
            + " buf:"@ + text::decimal(m.buffer_level as nat),
        None => "DeMoD BT v0.1.0 | NOT INITIALIZED"@,
    }
}

/// The status line: whether audio is streaming, and the metrics; `None` before there is
/// anything to report.
pub fn status_line(state: Option<(bool, MetricsSnapshot)>) -> (s: String)
    ensures
        s@ == status_text(state),
{
    match state {
        Some((streaming, m)) => {
            let mut s: String = "DeMoD BT v0.1.0 | ".to_owned();
            if streaming {
                s.append("STREAMING");
            } else {
                s.append("IDLE");
            }
            s.append(" | frames:");
            text::push_decimal(&mut s, m.frames_processed as u64);
            s.append(" underruns:");
            text::push_decimal(&mut s, m.underruns as u64);
            s.append(" overruns:");
            text::push_decimal(&mut s, m.overruns as u64);
            s.append(" buf:");
            text::push_decimal(&mut s, m.buffer_level as u64);
            s
        },
        None => "DeMoD BT v0.1.0 | NOT INITIALIZED".to_owned(),
    }
}

// ---------------------------------------------------------------------------------
// Laws of the interface
// ---------------------------------------------------------------------------------

/// Each kind of event crosses under its code.
pub proof fn law_event_codes(e: bluez::EventView)
    ensures
        e is DeviceConnected ==> crossed(e).event_type == 1,
        e is DeviceDisconnected ==> crossed(e).event_type == 2,
        e is TransportAcquired ==> crossed(e).event_type == 3,
        e is TransportReleased ==> crossed(e).event_type == 4,
        e is CodecNegotiated ==> crossed(e).event_type == 5,
        e is TransportPending ==> crossed(e).event_type == 6,
        e is VolumeChanged ==> crossed(e).event_type == 7,
        e is Error ==> crossed(e).event_type == -1,
        no_event().event_type == 0,
        no_event().string_data is None,
{
}

/// A text crosses unchanged, unless it has a zero in it: then it does not cross.
pub proof fn law_texts_cross(s: Seq<char>)
    ensures
        s.contains('\0') ==> crossed(bluez::EventView::Error { message: s }).string_data is None,
        !s.contains('\0') ==> {
            &&& crossed(bluez::EventView::Error { message: s }).string_data == Some(s)
            &&& crossed(bluez::EventView::DeviceDisconnected { address: s }).string_data == Some(s)
            &&& crossed(bluez::EventView::TransportPending { path: s }).string_data == Some(s)
            &&& crossed(bluez::EventView::TransportReleased { path: s }).string_data == Some(s)
        },
        s.contains('\0') ==> {
            &&& crossed(bluez::EventView::DeviceDisconnected { address: s }).string_data is None
            &&& crossed(bluez::EventView::TransportPending { path: s }).string_data is None
            &&& crossed(bluez::EventView::TransportReleased { path: s }).string_data is None
        },
{
}

/// A device that connects crosses with its address, a bar, and its name.
pub proof fn law_device_crosses(address: Seq<char>, name: Seq<char>)
    requires
        !address.contains('\0'),
        !name.contains('\0'),
    ensures
        crossed(bluez::EventView::DeviceConnected { address, name }).string_data matches Some(t)
            && t.take(address.len() as int) == address && t[address.len() as int] == '|' && t.skip(
            address.len() as int + 1,
        ) == name,
{
    reveal_strlit("|");
    let t = address + "|"@ + name;
    assert forall|i: int| 0 <= i < t.len() implies t[i] != '\0' by {
        if i < address.len() {
            assert(address.contains(address[i]));
        } else if i > address.len() {
            assert(name.contains(name[i - address.len() - 1]));
        }
    }
    assert(t.take(address.len() as int) =~= address);
    assert(t.skip(address.len() as int + 1) =~= name);
}

/// An acquired transport crosses with its descriptor and packet sizes; no other event has a
/// descriptor.
pub proof fn law_transport_crosses(
    path: Seq<char>,
    fd: i32,
    read_mtu: u16,
    write_mtu: u16,
    e: bluez::EventView,
)
    ensures
        ({
            let t = crossed(
                bluez::EventView::TransportAcquired { path, fd, read_mtu, write_mtu },
            );
            &&& t.fd == fd
            &&& t.read_mtu == read_mtu
            &&& t.write_mtu == write_mtu
            &&& path.contains('\0') ==> t.string_data is None
            &&& !path.contains('\0') ==> t.string_data == Some(path)
        }),
        e !is TransportAcquired ==> crossed(e).fd == -1 && crossed(e).read_mtu == 0
            && crossed(e).write_mtu == 0,
        no_event().fd == -1 && no_event().read_mtu == 0 && no_event().write_mtu == 0,
{
}

/// A volume crosses as decimal digits that spell it, and a codec as its name.
pub proof fn law_numbers_and_names_cross(volume: u16, codec: AudioCodec, config: Seq<u8>)
    ensures
        crossed(bluez::EventView::VolumeChanged { volume }).string_data matches Some(t)
            && t.len() > 0 && text::all_digits(t) && text::decimal_value(t) == volume,
        crossed(bluez::EventView::CodecNegotiated { codec, config }).string_data == Some(
            codec.text(),
        ),
{
    let t = text::decimal(volume as nat);
    text::lemma_decimal_digits(volume as nat);
    assert forall|i: int| 0 <= i < t.len() implies t[i] != '\0' by {
        assert(text::is_digit(t[i]));
    }
    reveal_strlit("SBC");
    reveal_strlit("MPEG-1,2");
    reveal_strlit("AAC");
    reveal_strlit("LC3");
}

/// The status line says whether there is anything to report, whether audio streams, and the
/// four numbers, in this order.
pub proof fn law_status_line(m: MetricsSnapshot)
    ensures
        status_text(None) == "DeMoD BT v0.1.0 | NOT INITIALIZED"@,
        status_text(Some((true, m))) == "DeMoD BT v0.1.0 | STREAMING | frames:"@ + text::decimal(
            m.frames_processed as nat,
        ) + " underruns:"@ + text::decimal(m.underruns as nat) + " overruns:"@ + text::decimal(
            m.overruns as nat,
        ) + " buf:"@ + text::decimal(m.buffer_level as nat),
        status_text(Some((false, m))) == "DeMoD BT v0.1.0 | IDLE | frames:"@ + text::decimal(
            m.frames_processed as nat,
        ) + " underruns:"@ + text::decimal(m.underruns as nat) + " overruns:"@ + text::decimal(
            m.overruns as nat,
        ) + " buf:"@ + text::decimal(m.buffer_level as nat),
{
    reveal_strlit("DeMoD BT v0.1.0 | ");
    reveal_strlit("STREAMING");
    reveal_strlit("IDLE");
    reveal_strlit(" | frames:");
    reveal_strlit("DeMoD BT v0.1.0 | STREAMING | frames:");
    reveal_strlit("DeMoD BT v0.1.0 | IDLE | frames:");
    assert("DeMoD BT v0.1.0 | "@ + "STREAMING"@ + " | frames:"@
        =~= "DeMoD BT v0.1.0 | STREAMING | frames:"@);
    assert("DeMoD BT v0.1.0 | "@ + "IDLE"@ + " | frames:"@ =~= "DeMoD BT v0.1.0 | IDLE | frames:"@);
}

} // verus!
