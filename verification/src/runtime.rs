//! The orchestrator: adapter choice, endpoint registration, the signals of the Bluetooth
//! daemon, the event queue and the life of a stream. It decides; the calls that it decides
//! on are made around it, and their outcomes come back as arguments.

use std::collections::VecDeque;

use vstd::prelude::*;

use rtrb::{Consumer, Producer};

use crate::avrcp;
use crate::avrcp::PlaybackInfo;
use crate::bluez;
use crate::bluez::BlueZEvent;
use crate::compat;
use crate::compat::ScmsTConfig;
use crate::dcf;
use crate::engine;
use crate::engine::EngineError;
use crate::ring;
use crate::text;
use crate::transport;
use crate::transport::{AudioConfig, AudioPipeline, StreamDirection};

verus! {

// ---------------------------------------------------------------------------------
// Errors
// ---------------------------------------------------------------------------------

/// Failures of the orchestrator.
#[derive(Debug)]
pub enum RuntimeError {
    TokioInit(String),
    DBusConnect(String),
    EndpointRegister(String),
    AvrcpRegister(String),
    AvrcpNotReady,
    NotConnected,
    TransportAcquire(String),
    TransportNotReady(String),
    EngineStart(String),
}

/// What a failure says.
pub ghost enum RuntimeErrorView {
    TokioInit(Seq<char>),
    DBusConnect(Seq<char>),
    EndpointRegister(Seq<char>),
    AvrcpRegister(Seq<char>),
    AvrcpNotReady,
    NotConnected,
    TransportAcquire(Seq<char>),
    TransportNotReady(Seq<char>),
    EngineStart(Seq<char>),
}

impl View for RuntimeError {
    type V = RuntimeErrorView;

    open spec fn view(&self) -> RuntimeErrorView {
        match *self {
            RuntimeError::TokioInit(s) => RuntimeErrorView::TokioInit(s@),
            RuntimeError::DBusConnect(s) => RuntimeErrorView::DBusConnect(s@),
            RuntimeError::EndpointRegister(s) => RuntimeErrorView::EndpointRegister(s@),
            RuntimeError::AvrcpRegister(s) => RuntimeErrorView::AvrcpRegister(s@),
            RuntimeError::AvrcpNotReady => RuntimeErrorView::AvrcpNotReady,
            RuntimeError::NotConnected => RuntimeErrorView::NotConnected,
            RuntimeError::TransportAcquire(s) => RuntimeErrorView::TransportAcquire(s@),
            RuntimeError::TransportNotReady(s) => RuntimeErrorView::TransportNotReady(s@),
            RuntimeError::EngineStart(s) => RuntimeErrorView::EngineStart(s@),
        }
    }
}

impl RuntimeErrorView {
    /// The text of an error.
    pub open spec fn text(self) -> Seq<char> {
        match self {
            RuntimeErrorView::TokioInit(s) => "Tokio runtime init failed: "@ + s,
            RuntimeErrorView::DBusConnect(s) => "D-Bus connection failed: "@ + s,
            RuntimeErrorView::EndpointRegister(s) => "Endpoint registration failed: "@ + s,
            RuntimeErrorView::AvrcpRegister(s) => "AVRCP registration failed: "@ + s,
            RuntimeErrorView::AvrcpNotReady => "AVRCP not ready (MediaPlayer1 not registered)"@,
            RuntimeErrorView::NotConnected => "Not connected to D-Bus"@,
            RuntimeErrorView::TransportAcquire(s) => "Transport acquisition failed: "@ + s,
            RuntimeErrorView::TransportNotReady(s) =>
                "Transport not ready (wrong state, will retry): "@ + s,
            RuntimeErrorView::EngineStart(s) => "Engine start failed: "@ + s,
        }
    }
}

impl RuntimeError {
    /// The text of an error.
    pub fn message(&self) -> (s: String)
        ensures
            s@ == self@.text(),
    {
        match self {
            RuntimeError::TokioInit(s) => text::joined("Tokio runtime init failed: ", s.as_str()),
            RuntimeError::DBusConnect(s) => text::joined("D-Bus connection failed: ", s.as_str()),
            RuntimeError::EndpointRegister(s) => text::joined(
                "Endpoint registration failed: ",
                s.as_str(),
            ),
            RuntimeError::AvrcpRegister(s) => text::joined(
                "AVRCP registration failed: ",
                s.as_str(),
            ),
            RuntimeError::AvrcpNotReady =>
                "AVRCP not ready (MediaPlayer1 not registered)".to_owned(),
            RuntimeError::NotConnected => "Not connected to D-Bus".to_owned(),
            RuntimeError::TransportAcquire(s) => text::joined(
                "Transport acquisition failed: ",
                s.as_str(),
            ),
            RuntimeError::TransportNotReady(s) => text::joined(
                "Transport not ready (wrong state, will retry): ",
                s.as_str(),
            ),
            RuntimeError::EngineStart(s) => text::joined("Engine start failed: ", s.as_str()),
        }
    }
}

// ---------------------------------------------------------------------------------
// Settings
// ---------------------------------------------------------------------------------

/// A setting is switched on by one of these words, in any case.
pub open spec fn switched_on(value: Option<Seq<char>>) -> bool {
    match value {
        Some(s) => {
            let v = text::lower(s);
            v == "1"@ || v == "true"@ || v == "yes"@ || v == "on"@
        },
        None => false,
    }
}

/// A setting that holds more than white space.
pub open spec fn meaningful(value: Option<Seq<char>>) -> Option<Seq<char>> {
    match value {
        Some(s) => if text::trimmed(s).len() > 0 {
            Some(s)
        } else {
            None
        },
        None => None,
    }
}

/// What an optional string says.
pub open spec fn option_text(value: Option<String>) -> Option<Seq<char>> {
    match value {
        Some(s) => Some(s@),
        None => None,
    }
}

/// Whether a setting is switched on.
pub fn env_flag(value: &Option<String>) -> (b: bool)
    ensures
        b == switched_on(option_text(*value)),
{
    match value {
        Some(s) => {
            let v: String = text::to_lower(s.as_str());
            text::str_equal(v.as_str(), "1") || text::str_equal(v.as_str(), "true")
                || text::str_equal(v.as_str(), "yes") || text::str_equal(v.as_str(), "on")
        },
        None => false,
    }
}

/// Drops a setting that holds nothing but white space.
fn keep_meaningful(value: Option<String>) -> (r: Option<String>)
    ensures
        option_text(r) == meaningful(option_text(value)),
{
    match value {
        Some(s) => {
            let v = text::chars_of(s.as_str());
            if text::trim(v.as_slice()).len() > 0 {
                Some(s)
            } else {
                None
            }
        },
        None => None,
    }
}

// ---------------------------------------------------------------------------------
// Adapters
// ---------------------------------------------------------------------------------

/// An object that the Bluetooth daemon manages.
#[derive(Debug, Clone)]
pub struct ManagedObject {
    pub path: String,
    /// It is an adapter.
    pub adapter: bool,
    /// It says that it is powered.
    pub powered: bool,
}

/// The adapter that is used where none can be found.
pub open spec fn default_adapter() -> Seq<char> {
    "/org/bluez/hci0"@
}

/// Object `i` is the first adapter, or the first powered one.
pub open spec fn first_adapter(objects: Seq<ManagedObject>, i: int, powered: bool) -> bool {
    &&& 0 <= i < objects.len()
    &&& objects[i].adapter && (powered ==> objects[i].powered)
    &&& forall|j: int|
        0 <= j < i ==> !((#[trigger] objects[j]).adapter && (powered ==> objects[j].powered))
}

/// There is an adapter, or a powered one.
pub open spec fn has_adapter(objects: Seq<ManagedObject>, powered: bool) -> bool {
    exists|i: int| first_adapter(objects, i, powered)
}

/// `path` is that of the first powered adapter, or else of the first adapter, or else the
/// default.
pub open spec fn adapter_choice(objects: Seq<ManagedObject>, path: Seq<char>) -> bool {
    &&& forall|i: int|
        first_adapter(objects, i, true) ==> path == (#[trigger] objects[i]).path@
    &&& !has_adapter(objects, true) ==> forall|i: int|
        first_adapter(objects, i, false) ==> path == (#[trigger] objects[i]).path@
    &&& !has_adapter(objects, false) ==> path == default_adapter()
}

/// Chooses among the adapters that were found.
fn choose_adapter(list: &[ManagedObject]) -> (path: String)
    ensures
        adapter_choice(list@, path@),
{
    let mut candidate: Option<usize> = None;
    let mut i: usize = 0;
    while i < list.len()
        invariant
            i <= list@.len(),
            forall|j: int|
                0 <= j < i ==> !((#[trigger] list@[j]).adapter && list@[j].powered),
            candidate matches Some(k) ==> k < i && first_adapter(list@, k as int, false),
            candidate is None ==> forall|j: int| 0 <= j < i ==> !(#[trigger] list@[j]).adapter,
        decreases list.len() - i,
    {
        if list[i].adapter {
            if list[i].powered {
                proof {
                    assert(first_adapter(list@, i as int, true));
                    assert(has_adapter(list@, true));
                    assert forall|k: int| first_adapter(list@, k, true) implies k == i by {
                        if k < i {
                            assert(!(list@[k].adapter && list@[k].powered));
                        }
                        if k > i {
                            assert(!(list@[i as int].adapter && list@[i as int].powered));
                        }
                    }
                    lemma_powered_is_adapter(list@, i as int);
                }
                return list[i].path.clone();
            }
            if candidate.is_none() {
                assert(first_adapter(list@, i as int, false));
                candidate = Some(i);
            }
        }
        i += 1;
    }
    assert(!has_adapter(list@, true));
    match candidate {
        Some(k) => {
            proof {
                assert(has_adapter(list@, false));
                assert forall|m: int| first_adapter(list@, m, false) implies m == k by {
                    if m < k {
                        assert(!list@[m].adapter);
                    }
                    if m > k {
                        assert(!list@[k as int].adapter);
                    }
                }
            }
            list[k].path.clone()
        },
        None => "/org/bluez/hci0".to_owned(),
    }
}

/// Chooses the adapter: the one that is asked for, or else the first powered one, or else
/// the first one at all, or else the default. `None` stands for a failed enumeration.
pub fn enumerate_adapter(wanted: Option<String>, objects: Option<Vec<ManagedObject>>) -> (path:
    String)
    ensures
        wanted matches Some(w) ==> path@ == w@,
        wanted is None ==> match objects {
            Some(list) => adapter_choice(list@, path@),
            None => path@ == default_adapter(),
        },
{
    match wanted {
        Some(path) => path,
        None => match objects {
            Some(list) => choose_adapter(list.as_slice()),
            None => "/org/bluez/hci0".to_owned(),
        },
    }
}

proof fn lemma_powered_is_adapter(objects: Seq<ManagedObject>, i: int)
    requires
        0 <= i < objects.len(),
        objects[i].adapter,
    ensures
        has_adapter(objects, false),
    decreases i,
{
    if exists|j: int| 0 <= j < i && (#[trigger] objects[j]).adapter {
        let j = choose|j: int| 0 <= j < i && (#[trigger] objects[j]).adapter;
        lemma_powered_is_adapter(objects, j);
    } else {
        assert(first_adapter(objects, i, false));
    }
}

// ---------------------------------------------------------------------------------
// Registration
// ---------------------------------------------------------------------------------

/// The endpoint's direction for a stream's direction.
pub fn endpoint_direction(direction: StreamDirection) -> (d: bluez::StreamDirection)
    ensures
        d == (match direction {
            StreamDirection::Sink => bluez::StreamDirection::Sink,
            StreamDirection::Source => bluez::StreamDirection::Source,
        }),
{
    match direction {
        StreamDirection::Sink => bluez::StreamDirection::Sink,
        StreamDirection::Source => bluez::StreamDirection::Source,
    }
}

/// A rejection asks for content protection.
pub open spec fn asks_for_protection(message: Seq<char>) -> bool {
    let m = text::lower(message);
    (text::occurs(m, "content"@) && text::occurs(m, "protection"@)) || text::occurs(m, "scms"@)
}

/// What follows from an attempt to register an endpoint.
#[derive(Debug)]
pub enum RegisterStep {
    /// The endpoint is registered.
    Registered,
    /// Another attempt is due, with content protection.
    Retry(ScmsTConfig),
    /// Registration has failed.
    Failed(RuntimeError),
}

/// What follows from an attempt to register an endpoint with `protection`. One that was
/// rejected for want of content protection is repeated with it, once.
pub fn after_register(protection: ScmsTConfig, outcome: Result<(), String>) -> (step: RegisterStep)
    ensures
        outcome is Ok ==> step is Registered,
        outcome matches Err(m) ==> (if !protection.enabled && asks_for_protection(m@) {
            step == RegisterStep::Retry(compat::scms_t(true))
        } else {
            step matches RegisterStep::Failed(e) && e@ == RuntimeErrorView::EndpointRegister(m@)
        }),
{
    match outcome {
        Ok(()) => RegisterStep::Registered,
        Err(m) => {
            let lower: String = text::to_lower(m.as_str());
            let asked: bool = (text::contains(lower.as_str(), "content") && text::contains(
                lower.as_str(),
                "protection",
            )) || text::contains(lower.as_str(), "scms");
            if protection.capability_bytes().is_none() && asked {
                RegisterStep::Retry(ScmsTConfig::with_scmst())
            } else {
                RegisterStep::Failed(RuntimeError::EndpointRegister(m))
            }
        },
    }
}

// ---------------------------------------------------------------------------------
// Signals
// ---------------------------------------------------------------------------------

/// The head of a message from the bus.
#[derive(Debug, Clone)]
pub struct SignalHead {
    /// The message is a signal.
    pub is_signal: bool,
    pub interface: Option<String>,
    pub member: Option<String>,
    /// The object that it comes from.
    pub path: Option<String>,
}

/// The body of a property change: the interface, and the properties that changed, as far as
/// they have the type that they should have.
#[derive(Debug, Clone)]
pub struct ChangedProperties {
    pub interface: String,
    pub state: Option<String>,
    pub volume: Option<u16>,
    pub connected: Option<bool>,
    pub address: Option<String>,
    pub name: Option<String>,
}

/// What `value` says, or `other`.
pub open spec fn text_or(value: Option<String>, other: Seq<char>) -> Seq<char> {
    match value {
        Some(s) => s@,
        None => other,
    }
}

/// The message is a property change.
pub open spec fn is_property_change(head: SignalHead) -> bool {
    &&& head.is_signal
    &&& option_text(head.interface) == Some("org.freedesktop.DBus.Properties"@)
    &&& option_text(head.member) == Some("PropertiesChanged"@)
}

/// The Bluetooth address that an object path ends in.
pub open spec fn address_in(path: Seq<char>) -> Option<Seq<char>> {
    if text::occurs(path, "dev_"@) {
        let i = choose|i: int| text::first_occurrence(path, "dev_"@, i);
        let address = text::replaced(path.skip(i + 4), '_', ':');
        if address.contains(':') {
            Some(address)
        } else {
            None
        }
    } else {
        None
    }
}

/// The address that a device's object path was made of is read back from it.
pub proof fn law_address_read_back(root: Seq<char>, address: Seq<char>)
    requires
        text::first_occurrence(
            root + "dev_"@ + text::replaced(address, ':', '_'),
            "dev_"@,
            root.len() as int,
        ),
        !address.contains('_'),
        address.contains(':'),
    ensures
        address_in(root + "dev_"@ + text::replaced(address, ':', '_')) == Some(address),
{
    reveal_strlit("dev_");
    let path = root + "dev_"@ + text::replaced(address, ':', '_');
    let n = root.len() as int;
    assert(text::occurs_at(path, "dev_"@, n));
    let k = choose|k: int| text::first_occurrence(path, "dev_"@, k);
    assert(text::first_occurrence(path, "dev_"@, k));
    assert(k == n) by {
        if k < n {
            assert(!text::occurs_at(path, "dev_"@, k));
        }
        if k > n {
            assert(!text::occurs_at(path, "dev_"@, n));
        }
    }
    assert(path.skip(n + 4) =~= text::replaced(address, ':', '_'));
    assert forall|i: int| 0 <= i < address.len() implies #[trigger] text::replaced(
        path.skip(n + 4),
        '_',
        ':',
    )[i] == address[i] by {
        assert(address.contains(address[i]));
    }
    assert(text::replaced(path.skip(n + 4), '_', ':') =~= address);
}

/// The address of the device of which a property changed.
pub open spec fn device_address(head: SignalHead, body: ChangedProperties) -> Seq<char> {
    match body.address {
        Some(a) => a@,
        None => match address_in(text_or(head.path, "?"@)) {
            Some(a) => a,
            None => "?"@,
        },
    }
}

/// The events that a change on a transport gives rise to.
pub open spec fn transport_events(head: SignalHead, body: ChangedProperties) -> Seq<
    bluez::EventView,
> {
    (if option_text(body.state) == Some("pending"@) {
        seq![bluez::EventView::TransportPending { path: text_or(head.path, "?"@) }]
    } else {
        Seq::empty()
    }) + (match body.volume {
        Some(volume) => seq![bluez::EventView::VolumeChanged { volume }],
        None => Seq::empty(),
    })
}

/// The events that a change on a device gives rise to.
pub open spec fn device_events(head: SignalHead, body: ChangedProperties) -> Seq<
    bluez::EventView,
> {
    match body.connected {
        Some(true) => seq![
            bluez::EventView::DeviceConnected {
                address: device_address(head, body),
                name: text_or(body.name, "Unknown"@),
            },
        ],
        Some(false) => seq![
            bluez::EventView::DeviceDisconnected { address: device_address(head, body) },
        ],
        None => Seq::empty(),
    }
}

/// The events that a message gives rise to.
pub open spec fn signal_events(head: SignalHead, body: Option<ChangedProperties>) -> Seq<
    bluez::EventView,
> {
    match body {
        Some(b) => if !is_property_change(head) {
            Seq::empty()
        } else if b.interface@ == "org.bluez.MediaTransport1"@ {
            transport_events(head, b)
        } else if b.interface@ == "org.bluez.Device1"@ {
            device_events(head, b)
        } else {
            Seq::empty()
        },
        None => Seq::empty(),
    }
}

/// What events say.
pub open spec fn event_views(events: Seq<BlueZEvent>) -> Seq<bluez::EventView> {
    events.map_values(|e: BlueZEvent| e@)
}

/// Whether an optional string is `other`.
fn says(value: &Option<String>, other: &str) -> (b: bool)
    ensures
        b == (option_text(*value) == Some(other@)),
{
    match value {
        Some(s) => text::str_equal(s.as_str(), other),
        None => false,
    }
}

/// A copy of `value`, or of `other`.
fn copy_or(value: &Option<String>, other: &str) -> (s: String)
    ensures
        s@ == text_or(*value, other@),
{
    match value {
        Some(s) => s.clone(),
        None => other.to_owned(),
    }
}

/// Whether a message is a property change, so that its body is worth decoding.
pub fn wants_body(head: &SignalHead) -> (b: bool)
    ensures
        b == is_property_change(*head),
{
    head.is_signal && says(&head.interface, "org.freedesktop.DBus.Properties") && says(
        &head.member,
        "PropertiesChanged",
    )
}

/// Reads the Bluetooth address that an object path ends in, such as
/// `/org/bluez/hci0/dev_AA_BB_CC_DD_EE_FF`.
pub fn parse_address_from_path(path: &str) -> (r: Option<String>)
    ensures
        option_text(r) == address_in(path@),
{
    let v = text::chars_of(path);
    let mark = text::chars_of("dev_");
    proof {
        reveal_strlit("dev_");
    }
    match text::find(v.as_slice(), mark.as_slice()) {
        None => None,
        Some(i) => {
            proof {
                assert(text::occurs(path@, "dev_"@));
                let k = choose|k: int| text::first_occurrence(path@, "dev_"@, k);
                assert(text::first_occurrence(path@, "dev_"@, i as int));
                assert(k == i) by {
                    if k < i {
                        assert(!text::occurs_at(path@, "dev_"@, k));
                    }
                    if k > i {
                        assert(!text::occurs_at(path@, "dev_"@, i as int));
                    }
                }
            }
            let end: usize = v.len();
            assert(i + 4 <= end);
            let rest = &v.as_slice()[i + 4..end];
            assert(rest@ =~= path@.skip(i + 4));
            let address: String = text::replace(rest, '_', ':');
            if text::contains_char(address.as_str(), ':') {
                Some(address)
            } else {
                None
            }
        },
    }
}

/// The events for a message from the bus. A transport that becomes pending and a changed
/// volume are reported, and a device that connects or disconnects.
pub fn on_signal(head: &SignalHead, body: &Option<ChangedProperties>) -> (events: Vec<BlueZEvent>)
    ensures
        event_views(events@) == signal_events(*head, *body),
{
    let mut events: Vec<BlueZEvent> = Vec::new();
    assert(event_views(events@) =~= Seq::<bluez::EventView>::empty());
    if !wants_body(head) {
        return events;
    }
    let body = match body {
        Some(b) => b,
        None => {
            return events;
        },
    };
    if text::str_equal(body.interface.as_str(), "org.bluez.MediaTransport1") {
        if says(&body.state, "pending") {
            events.push(BlueZEvent::TransportPending { path: copy_or(&head.path, "?") });
        }
        if let Some(volume) = body.volume {
            events.push(BlueZEvent::VolumeChanged { volume });
        }
        assert(event_views(events@) =~= transport_events(*head, *body));
    } else if text::str_equal(body.interface.as_str(), "org.bluez.Device1") {
        if let Some(connected) = body.connected {
            let address: String = match &body.address {
                Some(a) => a.clone(),
                None => {
                    let path: String = copy_or(&head.path, "?");
                    match parse_address_from_path(path.as_str()) {
                        Some(a) => a,
                        None => "?".to_owned(),
                    }
                },
            };
            if connected {
                let name: String = copy_or(&body.name, "Unknown");
                events.push(BlueZEvent::DeviceConnected { address, name });
            } else {
                events.push(BlueZEvent::DeviceDisconnected { address });
            }
        }
        assert(event_views(events@) =~= device_events(*head, *body));
    }
    events
}

// ---------------------------------------------------------------------------------
// State
// ---------------------------------------------------------------------------------

/// The state of the orchestrator.
#[derive(Debug)]
pub struct Runtime {
    pipeline: AudioPipeline,
    connected: bool,
    engine: Option<u16>,
    events: VecDeque<BlueZEvent>,
    last_codec_config: Vec<u8>,
    active_transport: Option<String>,
    adapter_path: String,
    adapter_override: Option<String>,
    max_bitpool: u8,
    scms_t: ScmsTConfig,
    playback_info: Option<PlaybackInfo>,
    last_volume_sent: u16,
}

/// What the state holds.
pub ghost struct RuntimeView {
    /// Configuration and stream sessions.
    pub pipeline: AudioPipeline,
    /// There is a connection to the bus.
    pub connected: bool,
    /// The volume of the engine, while there is one.
    pub engine: Option<u16>,
    /// Events that wait to be polled.
    pub events: Seq<bluez::EventView>,
    /// The codec configuration that was negotiated last.
    pub codec_config: Seq<u8>,
    /// The transport in use.
    pub active: Option<Seq<char>>,
    /// The adapter in use.
    pub adapter: Seq<char>,
    /// The adapter that is asked for.
    pub wanted_adapter: Option<Seq<char>>,
    /// Largest safe bitpool.
    pub max_bitpool: u8,
    /// Content protection.
    pub scms_t: ScmsTConfig,
    /// Playback state, once remote devices can read it.
    pub playback: Option<avrcp::PlaybackView>,
    /// The volume that was set last.
    pub volume: u16,
}

impl View for Runtime {
    type V = RuntimeView;

    closed spec fn view(&self) -> RuntimeView {
        RuntimeView {
            pipeline: self.pipeline,
            connected: self.connected,
            engine: self.engine,
            events: event_views(self.events@),
            codec_config: self.last_codec_config@,
            active: option_text(self.active_transport),
            adapter: self.adapter_path@,
            wanted_adapter: option_text(self.adapter_override),
            max_bitpool: self.max_bitpool,
            scms_t: self.scms_t,
            playback: match self.playback_info {
                Some(p) => Some(p@),
                None => None,
            },
            volume: self.last_volume_sent,
        }
    }
}

/// The volumes lie on the AVRCP scale.
pub open spec fn in_scale(v: RuntimeView) -> bool {
    &&& v.volume <= engine::MAX_VOLUME
    &&& v.engine matches Some(e) ==> e <= engine::MAX_VOLUME
}

/// A volume brought into the AVRCP scale.
pub open spec fn clamped(volume: u16) -> u16 {
    if volume <= engine::MAX_VOLUME {
        volume
    } else {
        engine::MAX_VOLUME
    }
}

/// The state before anything was registered.
pub open spec fn initial(
    v: RuntimeView,
    config: AudioConfig,
    adapter: Option<Seq<char>>,
    protection: Option<Seq<char>>,
) -> bool {
    &&& v.pipeline.config == config
    &&& v.pipeline.metrics == transport::fresh_metrics()
    &&& v.pipeline.stream_generation == 0
    &&& v.pipeline.dcf_transport.next_sequence() == 0
    &&& v.pipeline.dcf_transport.next_frame_id() == 0
    &&& v.pipeline.dcf_transport.payload_limit() == (if config.dcf_payload_size
        <= dcf::DCF_MAX_PAYLOAD {
        config.dcf_payload_size as int
    } else {
        dcf::DCF_MAX_PAYLOAD as int
    })
    &&& !v.connected
    &&& v.engine is None
    &&& v.events == Seq::<bluez::EventView>::empty()
    &&& v.codec_config == Seq::<u8>::empty()
    &&& v.active is None
    &&& v.adapter == default_adapter()
    &&& v.wanted_adapter == meaningful(adapter)
    &&& v.max_bitpool == 53
    &&& v.scms_t == compat::scms_t(switched_on(protection))
    &&& v.playback is None
    &&& v.volume == engine::MAX_VOLUME
}

/// The engine has come to its end: it is there, and runs no longer.
pub open spec fn engine_ended(v: RuntimeView, running: bool) -> bool {
    v.engine is Some && !running
}

/// The event that a poll gives.
pub open spec fn polled(v: RuntimeView, running: bool) -> Option<bluez::EventView> {
    if engine_ended(v, running) {
        Some(
            bluez::EventView::TransportReleased {
                path: match v.active {
                    Some(p) => p,
                    None => Seq::empty(),
                },
            },
        )
    } else if v.events.len() > 0 {
        Some(v.events[0])
    } else {
        None
    }
}

/// The state after a poll.
pub open spec fn after_poll(v: RuntimeView, running: bool) -> RuntimeView {
    if engine_ended(v, running) {
        RuntimeView { engine: None, active: None, ..v }
    } else if v.events.len() > 0 {
        RuntimeView {
            events: v.events.skip(1),
            codec_config: match v.events[0] {
                bluez::EventView::CodecNegotiated { codec, config } => config,
                _ => v.codec_config,
            },
            ..v
        }
    } else {
        v
    }
}

/// The state after an event was posted.
pub open spec fn after_post(v: RuntimeView, event: bluez::EventView) -> RuntimeView {
    RuntimeView { events: v.events.push(event), ..v }
}

/// The state after the engine was stopped.
pub open spec fn after_stop(v: RuntimeView) -> RuntimeView {
    if v.engine is Some {
        RuntimeView { engine: None, active: None, ..v }
    } else {
        v
    }
}

/// The pipeline after one more session began.
pub open spec fn next_session(p: AudioPipeline) -> AudioPipeline {
    AudioPipeline {
        metrics: transport::fresh_metrics(),
        stream_generation: (p.stream_generation + 1) as u32,
        ..p
    }
}

/// The state after a session began. An engine that still runs gives way to it; the transport
/// in use stays, since it was acquired for this session.
pub open spec fn after_begin(v: RuntimeView) -> RuntimeView {
    RuntimeView { pipeline: next_session(v.pipeline), engine: None, ..v }
}

/// The state after an engine was started.
pub open spec fn after_start(v: RuntimeView, codec_config: Seq<u8>) -> RuntimeView {
    RuntimeView { engine: Some(clamped(v.volume)), codec_config, ..v }
}

/// The state after a transport was acquired.
pub open spec fn after_acquire(
    v: RuntimeView,
    path: Seq<char>,
    fd: i32,
    read_mtu: u16,
    write_mtu: u16,
) -> RuntimeView {
    RuntimeView {
        active: Some(path),
        ..after_post(v, bluez::EventView::TransportAcquired { path, fd, read_mtu, write_mtu })
    }
}

/// The configuration to stream with: the negotiated one, or else standard high quality.
pub open spec fn stream_config(v: RuntimeView) -> Seq<u8> {
    if v.codec_config.len() == 0 {
        seq![0x48u8, 0x8Au8, 53u8, 53u8]
    } else {
        v.codec_config
    }
}

/// The error of a failed acquisition: some failures pass by themselves.
pub open spec fn acquire_error(path: Seq<char>, message: Seq<char>) -> RuntimeErrorView {
    if text::occurs(message, "not permitted"@) || text::occurs(message, "not available"@) {
        RuntimeErrorView::TransportNotReady(path)
    } else {
        RuntimeErrorView::TransportAcquire(message)
    }
}

/// The state after the volume was set.
pub open spec fn after_volume(v: RuntimeView, volume: u16) -> RuntimeView {
    RuntimeView {
        engine: if v.engine is Some {
            Some(clamped(volume))
        } else {
            None
        },
        volume: clamped(volume),
        ..v
    }
}

/// The transport that has to hear of a volume: none if it knows it already.
pub open spec fn volume_goes_to(v: RuntimeView, volume: u16) -> Option<Seq<char>> {
    if clamped(volume) != v.volume && v.connected {
        v.active
    } else {
        None
    }
}

/// The state after registration.
pub open spec fn after_registration(
    v: RuntimeView,
    adapter: Seq<char>,
    scms_t: ScmsTConfig,
    max_bitpool: u8,
) -> RuntimeView {
    RuntimeView {
        connected: true,
        adapter,
        playback: Some(avrcp::stopped()),
        scms_t,
        max_bitpool,
        ..v
    }
}

/// The state with another playback state.
pub open spec fn with_playback(v: RuntimeView, playback: avrcp::PlaybackView) -> RuntimeView {
    RuntimeView { playback: Some(playback), ..v }
}

/// Every operation keeps the volumes on the AVRCP scale.
pub proof fn law_volume_stays_in_scale(
    v: RuntimeView,
    volume: u16,
    event: bluez::EventView,
    codec_config: Seq<u8>,
    running: bool,
)
    requires
        in_scale(v),
    ensures
        in_scale(after_volume(v, volume)),
        in_scale(after_poll(v, running)),
        in_scale(after_post(v, event)),
        in_scale(after_stop(v)),
        in_scale(after_begin(v)),
        in_scale(after_start(v, codec_config)),
{
}

/// The end of an engine is reported, and once: the poll that follows goes back to the queue.
pub proof fn law_engine_end_reported_once(
    v: RuntimeView,
    running: bool,
    running_next: bool,
)
    requires
        engine_ended(v, running),
    ensures
        polled(v, running) matches Some(e) && e is TransportReleased,
        !engine_ended(after_poll(v, running), running_next),
        after_poll(v, running).events == v.events,
{
}

/// The first `n` events that polls give while the engine runs.
pub open spec fn polled_in_turn(v: RuntimeView, n: nat) -> Seq<bluez::EventView>
    decreases n,
{
    if n == 0 {
        Seq::empty()
    } else {
        match polled(v, true) {
            Some(e) => seq![e] + polled_in_turn(after_poll(v, true), (n - 1) as nat),
            None => Seq::empty(),
        }
    }
}

/// Polls give the events in the order in which they were posted.
pub proof fn law_events_in_order(v: RuntimeView, n: nat)
    requires
        n <= v.events.len(),
    ensures
        polled_in_turn(v, n) == v.events.take(n as int),
    decreases n,
{
    if n > 0 {
        law_events_in_order(after_poll(v, true), (n - 1) as nat);
        assert(seq![v.events[0]] + v.events.skip(1).take(n - 1) =~= v.events.take(n as int));
    } else {
        assert(polled_in_turn(v, n) =~= v.events.take(0));
    }
}

/// Stopping keeps the registration and the negotiated configuration, so that a device can
/// come back, and a stream after it runs in a session of its own.
pub proof fn law_reconnection(v: RuntimeView)
    requires
        v.pipeline.stream_generation < u32::MAX,
    ensures
        after_stop(v).connected == v.connected,
        after_stop(v).codec_config == v.codec_config,
        after_stop(v).volume == v.volume,
        stream_config(after_stop(v)) == stream_config(v),
        after_begin(v).pipeline.stream_generation == v.pipeline.stream_generation + 1,
        after_begin(v).pipeline.metrics == transport::fresh_metrics(),
        after_begin(v).engine is None,
        after_begin(after_stop(v)).pipeline == after_begin(v).pipeline,
{
}

/// A change of volume reaches the transport of the current stream, also where the transport
/// was acquired while the engine of an earlier stream was still there.
pub proof fn law_volume_reaches_acquired_transport(
    v: RuntimeView,
    path: Seq<char>,
    fd: i32,
    read_mtu: u16,
    write_mtu: u16,
    codec_config: Seq<u8>,
    volume: u16,
)
    requires
        v.connected,
        clamped(volume) != v.volume,
    ensures
        volume_goes_to(
            after_start(after_begin(after_acquire(v, path, fd, read_mtu, write_mtu)), codec_config),
            volume,
        ) == Some(path),
{
}

/// Setting the volume that is set already reaches no transport, so that a change that came
/// from the remote side is not sent back to it.
pub proof fn law_volume_is_not_echoed(v: RuntimeView, volume: u16)
    ensures
        volume_goes_to(after_volume(v, volume), volume) is None,
{
}

/// What a stream session starts with.
pub struct StreamSession {
    /// An engine still runs, and has to be stopped first.
    pub stop_first: bool,
    pub direction: StreamDirection,
    pub producer: Producer<i16>,
    pub consumer: Consumer<i16>,
}

impl Runtime {
    /// The state before anything was registered. `adapter` and `protection` are the settings
    /// that ask for an adapter and switch on content protection.
    pub fn new(config: AudioConfig, adapter: Option<String>, protection: Option<String>) -> (r:
        Runtime)
        ensures
            initial(r@, config, option_text(adapter), option_text(protection)),
            in_scale(r@),
    {
        let pipeline = AudioPipeline::new(config);
        let scms_t: ScmsTConfig = if env_flag(&protection) {
            ScmsTConfig::with_scmst()
        } else {
            ScmsTConfig::default()
        };
        let events: VecDeque<BlueZEvent> = VecDeque::new();
        assert(event_views(events@) =~= Seq::<bluez::EventView>::empty());
        Runtime {
            pipeline,
            connected: false,
            engine: None,
            events,
            last_codec_config: Vec::new(),
            active_transport: None,
            adapter_path: "/org/bluez/hci0".to_owned(),
            adapter_override: keep_meaningful(adapter),
            max_bitpool: 53,
            scms_t,
            playback_info: None,
            last_volume_sent: 127,
        }
    }

    /// The adapter that is asked for.
    pub fn wanted_adapter(&self) -> (r: Option<String>)
        ensures
            option_text(r) == self@.wanted_adapter,
    {
        match &self.adapter_override {
            Some(s) => Some(s.clone()),
            None => None,
        }
    }

    /// The content protection to register with.
    pub fn protection(&self) -> (c: ScmsTConfig)
        ensures
            c == self@.scms_t,
    {
        self.scms_t
    }

    /// Direction of the streams.
    pub fn direction(&self) -> (d: StreamDirection)
        ensures
            d == self@.pipeline.config.direction,
    {
        self.pipeline.config.direction
    }

    /// Takes the outcome of a registration that succeeded: the adapter, the content
    /// protection that it took, and the largest safe bitpool.
    pub fn registered(&mut self, adapter: String, scms_t: ScmsTConfig, max_bitpool: u8)
        ensures
            final(self)@ == after_registration(old(self)@, adapter@, scms_t, max_bitpool),
    {
        self.connected = true;
        self.adapter_path = adapter;
        self.playback_info = Some(PlaybackInfo::default());
        self.scms_t = scms_t;
        self.max_bitpool = max_bitpool;
    }

    /// Queues an event.
    pub fn post(&mut self, event: BlueZEvent)
        ensures
            final(self)@ == after_post(old(self)@, event@),
    {
        self.events.push_back(event);
        assert(event_views(self.events@) =~= event_views(old(self).events@).push(event@));
    }

    /// The next event, if there is one. `running` is the metric of the engine.
    /// Once an engine has come to its end, whether or not it had played anything, that is
    /// reported before anything else.
    pub fn poll_event(&mut self, running: bool) -> (r: Option<BlueZEvent>)
        ensures
            r is Some <==> polled(old(self)@, running) is Some,
            r matches Some(e) ==> Some(e@) == polled(old(self)@, running),
            final(self)@ == after_poll(old(self)@, running),
    {
        if self.engine.is_some() && !running {
            self.engine = None;
            let path: String = match self.active_transport.take() {
                Some(p) => p,
                None => String::new(),
            };
            return Some(BlueZEvent::TransportReleased { path });
        }
        match self.events.pop_front() {
            Some(event) => {
                assert(event_views(self.events@) =~= event_views(old(self).events@).skip(1));
                assert(event_views(old(self).events@)[0] == event@);
                if let BlueZEvent::CodecNegotiated { codec: _, config } = &event {
                    let mut copy: Vec<u8> = Vec::new();
                    copy.extend_from_slice(config.as_slice());
                    assert(copy@ =~= config@);
                    self.last_codec_config = copy;
                }
                Some(event)
            },
            None => None,
        }
    }

    /// Stops streaming. The registration stays. Says whether there is an engine to stop.
    pub fn stop_stream(&mut self) -> (stop: bool)
        ensures
            stop == old(self)@.engine is Some,
            final(self)@ == after_stop(old(self)@),
    {
        if self.engine.is_some() {
            self.engine = None;
            self.active_transport = None;
            true
        } else {
            false
        }
    }

    /// Begins a stream session with a fresh ring of its own. A session on a descriptor that
    /// belongs to no acquired transport begins after `stop_stream`, which forgets the
    /// transport of the stream before it.
    pub fn begin_stream(&mut self) -> (s: StreamSession)
        requires
            transport::ring_fits(old(self)@.pipeline.config),
            old(self)@.pipeline.stream_generation < u32::MAX,
        ensures
            final(self)@ == after_begin(old(self)@),
            s.stop_first == old(self)@.engine is Some,
            s.direction == old(self)@.pipeline.config.direction,
            ring::same_ring(s.producer, s.consumer),
            ring::producer_capacity(s.producer) == transport::ring_samples(
                old(self)@.pipeline.config,
            ),
            ring::producer_written(s.producer) == Seq::<i16>::empty(),
            ring::consumer_read(s.consumer) == Seq::<i16>::empty(),
            ring::consumer_waiting(s.consumer) == 0,
            ring::producer_room(s.producer) == ring::producer_capacity(s.producer),
    {
        let stop_first: bool = self.engine.is_some();
        self.engine = None;
        let (producer, consumer) = self.pipeline.create_stream_buffers();
        StreamSession { stop_first, direction: self.pipeline.config.direction, producer, consumer }
    }

    /// Whether a stream session can begin: its ring can be allocated and it can be counted.
    pub fn can_begin(&self) -> (b: bool)
        ensures
            b == (transport::ring_fits(self@.pipeline.config)
                && self@.pipeline.stream_generation < u32::MAX),
    {
        transport::ring_can_be_allocated(&self.pipeline.config) && self.pipeline.generation()
            < u32::MAX
    }

    /// Takes the outcome of starting an engine with a codec configuration. Returns the volume
    /// that the engine starts at.
    pub fn start_stream(&mut self, outcome: Result<(), EngineError>, codec_config: &[u8]) -> (r:
        Result<u16, RuntimeError>)
        ensures
            r is Ok <==> outcome is Ok,
            r matches Ok(volume) ==> volume == clamped(old(self)@.volume) && final(self)@
                == after_start(old(self)@, codec_config@),
            outcome matches Err(e) ==> r->Err_0@ == RuntimeErrorView::EngineStart(e.text())
                && final(self)@ == old(self)@,
    {
        match outcome {
            Err(e) => Err(RuntimeError::EngineStart(e.message())),
            Ok(()) => {
                let volume: u16 = engine::clamp_volume(self.last_volume_sent);
                let mut copy: Vec<u8> = Vec::new();
                copy.extend_from_slice(codec_config);
                assert(copy@ =~= codec_config@);
                self.last_codec_config = copy;
                self.engine = Some(volume);
                Ok(volume)
            },
        }
    }

    /// Whether a transport can be acquired at all.
    pub fn check_connected(&self) -> (r: Result<(), RuntimeError>)
        ensures
            r is Ok <==> self@.connected,
            r matches Err(e) ==> e@ == RuntimeErrorView::NotConnected,
    {
        if self.connected {
            Ok(())
        } else {
            Err(RuntimeError::NotConnected)
        }
    }

    /// Takes the outcome of acquiring a transport: its file descriptor and packet sizes. The
    /// transport is then in use. Returns the codec configuration to stream with.
    pub fn acquire_and_start(&mut self, path: &str, reply: Result<(i32, u16, u16), String>) -> (r:
        Result<Vec<u8>, RuntimeError>)
        ensures
            r is Ok <==> old(self)@.connected && reply is Ok,
            r matches Ok(config) ==> {
                let (fd, read_mtu, write_mtu) = reply->Ok_0;
                &&& final(self)@ == after_acquire(old(self)@, path@, fd, read_mtu, write_mtu)
                &&& config@ == stream_config(old(self)@)
            },
            r matches Err(e) ==> final(self)@ == old(self)@ && e@ == (if old(self)@.connected {
                acquire_error(path@, reply->Err_0@)
            } else {
                RuntimeErrorView::NotConnected
            }),
    {
        if !self.connected {
            return Err(RuntimeError::NotConnected);
        }
        match reply {
            Err(message) => {
                if text::contains(message.as_str(), "not permitted") || text::contains(
                    message.as_str(),
                    "not available",
                ) {
                    Err(RuntimeError::TransportNotReady(path.to_owned()))
                } else {
                    Err(RuntimeError::TransportAcquire(message))
                }
            },
            Ok((fd, read_mtu, write_mtu)) => {
                self.post(
                    BlueZEvent::TransportAcquired { path: path.to_owned(), fd, read_mtu, write_mtu },
                );
                self.active_transport = Some(path.to_owned());
                let mut config: Vec<u8> = Vec::new();
                if self.last_codec_config.len() == 0 {
                    config.push(0x48u8);
                    config.push(0x8Au8);
                    config.push(53u8);
                    config.push(53u8);
                } else {
                    config.extend_from_slice(self.last_codec_config.as_slice());
                }
                assert(config@ =~= stream_config(old(self)@));
                Ok(config)
            },
        }
    }

    /// Whether audio is streaming. `running` is the metric of the engine.
    pub fn is_streaming(&self, running: bool) -> (b: bool)
        ensures
            b == (self@.engine is Some && running),
    {
        self.engine.is_some() && running
    }

    /// Sets the volume. Returns the volume for the engine, and the transport that has to hear
    /// of it.
    pub fn set_volume(&mut self, volume: u16) -> (r: (u16, Option<String>))
        ensures
            r.0 == clamped(volume),
            option_text(r.1) == volume_goes_to(old(self)@, volume),
            final(self)@ == after_volume(old(self)@, volume),
    {
        let volume: u16 = engine::clamp_volume(volume);
        let changed: bool = volume != self.last_volume_sent;
        if self.engine.is_some() {
            self.engine = Some(volume);
        }
        self.last_volume_sent = volume;
        if changed && self.connected {
            match &self.active_transport {
                Some(path) => (volume, Some(path.clone())),
                None => (volume, None),
            }
        } else {
            (volume, None)
        }
    }

    /// Takes over a volume that was set on the remote side, which need not hear of it again.
    pub fn set_volume_remote(&mut self, volume: u16) -> (v: u16)
        ensures
            v == clamped(volume),
            final(self)@ == after_volume(old(self)@, volume),
    {
        let volume: u16 = engine::clamp_volume(volume);
        if self.engine.is_some() {
            self.engine = Some(volume);
        }
        self.last_volume_sent = volume;
        volume
    }

    /// The current volume.
    pub fn get_volume(&self) -> (v: u16)
        ensures
            v == (match self@.engine {
                Some(e) => e,
                None => self@.volume,
            }),
    {
        match self.engine {
            Some(v) => v,
            None => self.last_volume_sent,
        }
    }

    /// Ends everything. Says whether there is an engine to stop.
    pub fn shutdown(self) -> (stop: bool)
        ensures
            stop == self@.engine is Some,
    {
        self.engine.is_some()
    }

    /// The playback state, once remote devices can read it.
    pub fn playback(&self) -> (r: Option<&PlaybackInfo>)
        ensures
            r is Some <==> self@.playback is Some,
            r matches Some(p) ==> Some(p@) == self@.playback,
    {
        match &self.playback_info {
            Some(p) => Some(p),
            None => None,
        }
    }

    /// A track change.
    pub fn update_metadata(&mut self, title: &str, artist: &str, album: &str, duration_us: u64) -> (r:
        Result<(), RuntimeError>)
        ensures
            r is Ok <==> old(self)@.playback is Some,
            old(self)@.playback matches Some(p) ==> final(self)@ == with_playback(
                old(self)@,
                avrcp::with_metadata(p, title@, artist@, album@, duration_us),
            ),
            r matches Err(e) ==> e@ == RuntimeErrorView::AvrcpNotReady && final(self)@ == old(self)@,
    {
        match self.playback_info.take() {
            Some(mut p) => {
                avrcp::update_metadata(&mut p, title, artist, album, duration_us);
                self.playback_info = Some(p);
                Ok(())
            },
            None => Err(RuntimeError::AvrcpNotReady),
        }
    }

    /// Playing, pausing or stopping.
    pub fn update_status(&mut self, status: &str) -> (r: Result<(), RuntimeError>)
        ensures
            r is Ok <==> old(self)@.playback is Some,
            old(self)@.playback matches Some(p) ==> final(self)@ == with_playback(
                old(self)@,
                avrcp::with_status(p, status@),
            ),
            r matches Err(e) ==> e@ == RuntimeErrorView::AvrcpNotReady && final(self)@ == old(self)@,
    {
        match self.playback_info.take() {
            Some(mut p) => {
                avrcp::update_status(&mut p, status);
                self.playback_info = Some(p);
                Ok(())
            },
            None => Err(RuntimeError::AvrcpNotReady),
        }
    }

    /// Progress or seeking.
    pub fn update_position(&mut self, position_us: u64) -> (r: Result<(), RuntimeError>)
        ensures
            r is Ok <==> old(self)@.playback is Some,
            old(self)@.playback matches Some(p) ==> final(self)@ == with_playback(
                old(self)@,
                avrcp::with_position(p, position_us),
            ),
            r matches Err(e) ==> e@ == RuntimeErrorView::AvrcpNotReady && final(self)@ == old(self)@,
    {
        match self.playback_info.take() {
            Some(mut p) => {
                avrcp::update_position(&mut p, position_us);
                self.playback_info = Some(p);
                Ok(())
            },
            None => Err(RuntimeError::AvrcpNotReady),
        }
    }
}

// ---------------------------------------------------------------------------------
// Laws of settings, signals and streams
// ---------------------------------------------------------------------------------

/// A setting is switched on by four words, in whatever case they are written, and by nothing
/// else.
pub proof fn law_switch_words(s: Seq<char>, t: Seq<char>)
    ensures
        !switched_on(None),
        text::lower(s) == text::lower(t) ==> switched_on(Some(s)) == switched_on(Some(t)),
        s == "1"@ || s == "true"@ || s == "yes"@ || s == "on"@ ==> switched_on(Some(s)),
        switched_on(Some(s)) ==> text::lower(s) == "1"@ || text::lower(s) == "true"@ || text::lower(
            s,
        ) == "yes"@ || text::lower(s) == "on"@,
{
    reveal_strlit("1");
    reveal_strlit("true");
    reveal_strlit("yes");
    reveal_strlit("on");
    assert(text::lower("1"@) =~= "1"@);
    assert(text::lower("true"@) =~= "true"@);
    assert(text::lower("yes"@) =~= "yes"@);
    assert(text::lower("on"@) =~= "on"@);
}

/// A setting counts as it stands, unless it is absent or blank.
pub proof fn law_blank_setting(s: Seq<char>)
    ensures
        meaningful(None) is None,
        (forall|i: int| 0 <= i < s.len() ==> text::is_white(#[trigger] s[i])) ==> meaningful(
            Some(s),
        ) is None,
        (exists|i: int| 0 <= i < s.len() && !text::is_white(#[trigger] s[i])) ==> meaningful(
            Some(s),
        ) == Some(s),
{
    text::law_blank(s);
}

/// The adapter in use is powered wherever a powered one was found, and then the first such;
/// where none is powered it is the first adapter; without adapters it is the default.
pub proof fn law_adapter_in_use(objects: Seq<ManagedObject>, path: Seq<char>, i: int)
    requires
        adapter_choice(objects, path),
        0 <= i < objects.len(),
    ensures
        ({
            let powered = |j: int| objects[j].adapter && objects[j].powered;
            &&& powered(i) && (forall|j: int| 0 <= j < i ==> !#[trigger] powered(j)) ==> path
                == objects[i].path@
            &&& objects[i].adapter && (forall|j: int|
                0 <= j < i ==> !(#[trigger] objects[j]).adapter) && (forall|j: int|
                0 <= j < objects.len() ==> !#[trigger] powered(j)) ==> path == objects[i].path@
            &&& (forall|j: int| 0 <= j < objects.len() ==> !(#[trigger] objects[j]).adapter) ==> path
                == "/org/bluez/hci0"@
        }),
{
    let powered = |j: int| objects[j].adapter && objects[j].powered;
    if powered(i) && (forall|j: int| 0 <= j < i ==> !#[trigger] powered(j)) {
        assert forall|j: int| 0 <= j < i implies !((#[trigger] objects[j]).adapter
            && objects[j].powered) by {
            assert(!powered(j));
        }
        assert(first_adapter(objects, i, true));
    }
    if objects[i].adapter && (forall|j: int| 0 <= j < i ==> !(#[trigger] objects[j]).adapter) && (
    forall|j: int| 0 <= j < objects.len() ==> !#[trigger] powered(j)) {
        assert(first_adapter(objects, i, false));
        assert forall|j: int| !first_adapter(objects, j, true) by {
            if 0 <= j < objects.len() {
                assert(!powered(j));
            }
        }
    }
    if forall|j: int| 0 <= j < objects.len() ==> !(#[trigger] objects[j]).adapter {
        assert forall|j: int| !first_adapter(objects, j, false) by {}
        assert(!has_adapter(objects, false));
    }
}

/// A rejection asks for content protection if it speaks of it, or of its scheme, anywhere and
/// in any case.
pub proof fn law_protection_asked_for(
    before: Seq<char>,
    word: Seq<char>,
    between: Seq<char>,
    second: Seq<char>,
    after: Seq<char>,
)
    ensures
        text::lower(word) == "scms"@ ==> asks_for_protection(before + word + after),
        text::lower(word) == "content"@ && text::lower(second) == "protection"@
            ==> asks_for_protection(before + word + between + second + after),
        text::lower(word) == "protection"@ && text::lower(second) == "content"@
            ==> asks_for_protection(before + word + between + second + after),
{
    let low = text::lower(before + word + after);
    assert(low =~= text::lower(before) + text::lower(word) + text::lower(after));
    text::law_occurs_between(text::lower(before), text::lower(word), text::lower(after));
    let all = text::lower(before + word + between + second + after);
    let tail = text::lower(between) + text::lower(second) + text::lower(after);
    let head = text::lower(before) + text::lower(word) + text::lower(between);
    assert(all =~= text::lower(before) + text::lower(word) + tail);
    assert(all =~= head + text::lower(second) + text::lower(after));
    text::law_occurs_between(text::lower(before), text::lower(word), tail);
    text::law_occurs_between(head, text::lower(second), text::lower(after));
}

/// A rejection that speaks neither of the scheme nor of both words does not ask for content
/// protection.
pub proof fn law_protection_not_asked_for(message: Seq<char>)
    requires
        !text::occurs(text::lower(message), "scms"@),
        !text::occurs(text::lower(message), "content"@) || !text::occurs(
            text::lower(message),
            "protection"@,
        ),
    ensures
        !asks_for_protection(message),
{
}

/// The head is that of a property change.
pub open spec fn announces_change(head: SignalHead) -> bool {
    &&& head.is_signal
    &&& head.interface matches Some(i) && i@ == "org.freedesktop.DBus.Properties"@
    &&& head.member matches Some(m) && m@ == "PropertiesChanged"@
}

proof fn lemma_interfaces_differ()
    ensures
        "org.bluez.Device1"@ != "org.bluez.MediaTransport1"@,
{
    reveal_strlit("org.bluez.Device1");
    reveal_strlit("org.bluez.MediaTransport1");
    assert("org.bluez.Device1"@.len() == 17);
    assert("org.bluez.MediaTransport1"@.len() == 25);
}

/// The mark of a device comes first in its path where its adapter's path has none.
proof fn lemma_first_in_device_path(root: Seq<char>, rest: Seq<char>)
    requires
        root.len() > 0,
        root.last() == '/',
        !text::occurs(root, "dev_"@),
    ensures
        text::first_occurrence(root + "dev_"@ + rest, "dev_"@, root.len() as int),
{
    reveal_strlit("dev_");
    let path = root + "dev_"@ + rest;
    let n = root.len() as int;
    assert(path.subrange(n, n + 4) =~= "dev_"@);
    assert forall|j: int| j < n implies !text::occurs_at(path, "dev_"@, j) by {
        if text::occurs_at(path, "dev_"@, j) {
            let found = path.subrange(j, j + 4);
            if j + 4 <= n {
                assert(root.subrange(j, j + 4) =~= found);
                assert(text::occurs_at(root, "dev_"@, j));
            } else {
                assert(found[n - 1 - j] == path[n - 1]);
                assert(path[n - 1] == '/');
            }
        }
    }
}

/// A device that connects and then disconnects is named by the same address in both events:
/// the one of which its object path is made. Each change gives exactly one event.
pub proof fn law_device_named_alike(
    head: SignalHead,
    on: ChangedProperties,
    off: ChangedProperties,
    root: Seq<char>,
    address: Seq<char>,
)
    requires
        announces_change(head),
        head.path matches Some(p) && p@ == root + "dev_"@ + text::replaced(address, ':', '_'),
        root.len() > 0,
        root.last() == '/',
        !text::occurs(root, "dev_"@),
        !address.contains('_'),
        address.contains(':'),
        on.interface@ == "org.bluez.Device1"@,
        off.interface@ == "org.bluez.Device1"@,
        on.connected == Some(true),
        off.connected == Some(false),
        on.address is None,
        off.address is None,
    ensures
        signal_events(head, Some(on)).len() == 1,
        signal_events(head, Some(on))[0] matches bluez::EventView::DeviceConnected {
            address: a,
            name,
        } && a == address && name == (match on.name {
            Some(n) => n@,
            None => "Unknown"@,
        }),
        signal_events(head, Some(off)) == seq![bluez::EventView::DeviceDisconnected { address }],
{
    lemma_interfaces_differ();
    lemma_first_in_device_path(root, text::replaced(address, ':', '_'));
    law_address_read_back(root, address);
}

/// Where a change of a device brings its address, the event has that address.
pub proof fn law_device_named_by_property(head: SignalHead, body: ChangedProperties)
    requires
        announces_change(head),
        body.interface@ == "org.bluez.Device1"@,
        body.address is Some,
    ensures
        body.connected == Some(true) ==> signal_events(head, Some(body)) == seq![
            bluez::EventView::DeviceConnected {
                address: body.address->0@,
                name: match body.name {
                    Some(n) => n@,
                    None => "Unknown"@,
                },
            },
        ],
        body.connected == Some(false) ==> signal_events(head, Some(body)) == seq![
            bluez::EventView::DeviceDisconnected { address: body.address->0@ },
        ],
{
    lemma_interfaces_differ();
}

/// A device whose address neither the change nor the path tells is named by a question mark;
/// a change of a device that is not about its connection gives no event.
pub proof fn law_device_without_address(head: SignalHead, body: ChangedProperties)
    requires
        announces_change(head),
        body.interface@ == "org.bluez.Device1"@,
        body.address is None,
        head.path matches Some(p) ==> !text::occurs(p@, "dev_"@),
    ensures
        body.connected == Some(false) ==> signal_events(head, Some(body)) == seq![
            bluez::EventView::DeviceDisconnected { address: "?"@ },
        ],
        body.connected == Some(true) ==> signal_events(head, Some(body)) == seq![
            bluez::EventView::DeviceConnected {
                address: "?"@,
                name: match body.name {
                    Some(n) => n@,
                    None => "Unknown"@,
                },
            },
        ],
        body.connected is None ==> signal_events(head, Some(body)).len() == 0,
{
    lemma_interfaces_differ();
    reveal_strlit("?");
    reveal_strlit("dev_");
    assert(!text::occurs("?"@, "dev_"@));
}

/// A transport that becomes pending is reported under its path, and a volume as it came, in
/// this order; any other change of a transport gives no event.
pub proof fn law_transport_reported(head: SignalHead, body: ChangedProperties)
    requires
        announces_change(head),
        body.interface@ == "org.bluez.MediaTransport1"@,
    ensures
        ({
            let events = signal_events(head, Some(body));
            let pending = body.state matches Some(s) && s@ == "pending"@;
            let path = match head.path {
                Some(p) => p@,
                None => "?"@,
            };
            &&& events.len() == (if pending {
                1int
            } else {
                0int
            }) + (if body.volume is Some {
                1int
            } else {
                0int
            })
            &&& pending ==> events[0] == (bluez::EventView::TransportPending { path })
            &&& body.volume is Some ==> events.last() == (bluez::EventView::VolumeChanged {
                volume: body.volume->0,
            })
        }),
{
}

/// Nothing but a property change of a transport or a device gives rise to events.
pub proof fn law_other_messages_ignored(head: SignalHead, body: ChangedProperties)
    ensures
        signal_events(head, None).len() == 0,
        !announces_change(head) ==> signal_events(head, Some(body)).len() == 0,
        body.interface@ != "org.bluez.MediaTransport1"@ && body.interface@ != "org.bluez.Device1"@
            ==> signal_events(head, Some(body)).len() == 0,
        is_property_change(head) <==> announces_change(head),
{
}

/// An event that is posted is the one that a poll gives once those before it were polled.
pub proof fn law_posted_event_is_polled(v: RuntimeView, event: bluez::EventView)
    ensures
        polled_in_turn(after_post(v, event), v.events.len() + 1) == v.events + seq![event],
{
    let w = after_post(v, event);
    law_events_in_order(w, w.events.len());
    assert(w.events.take(w.events.len() as int) =~= v.events + seq![event]);
}

/// The end of an engine is reported under the path of the transport that was acquired for
/// it, and the transport is no longer in use.
pub proof fn law_engine_end_names_transport(
    v: RuntimeView,
    path: Seq<char>,
    fd: i32,
    read_mtu: u16,
    write_mtu: u16,
    codec_config: Seq<u8>,
)
    ensures
        ({
            let w = after_start(
                after_begin(after_acquire(v, path, fd, read_mtu, write_mtu)),
                codec_config,
            );
            &&& polled(w, false) == Some(bluez::EventView::TransportReleased { path })
            &&& after_poll(w, false).active is None
            &&& after_poll(w, false).engine is None
            &&& polled(w, true) == polled(after_acquire(v, path, fd, read_mtu, write_mtu), true)
            &&& w.active == Some(path)
            &&& w.events == v.events.push(
                bluez::EventView::TransportAcquired { path, fd, read_mtu, write_mtu },
            )
        }),
{
}

/// Nothing is polled while the queue is empty and no engine has ended, and such a poll
/// changes nothing.
pub proof fn law_nothing_to_poll(v: RuntimeView, running: bool)
    requires
        v.events.len() == 0,
        v.engine is None || running,
    ensures
        polled(v, running) is None,
        after_poll(v, running) == v,
{
}

/// A configuration that was negotiated, and polled, is the one that the next stream uses.
pub proof fn law_negotiated_configuration_is_used(
    v: RuntimeView,
    codec: crate::codec::AudioCodec,
    config: Seq<u8>,
)
    requires
        v.events.len() > 0,
        v.events[0] == (bluez::EventView::CodecNegotiated { codec, config }),
        config.len() > 0,
    ensures
        stream_config(after_poll(v, true)) == config,
        stream_config(after_stop(after_poll(v, true))) == config,
        stream_config(after_begin(after_poll(v, true))) == config,
{
}

/// An event of any other kind leaves the negotiated configuration as it was.
pub proof fn law_other_events_keep_configuration(v: RuntimeView, running: bool)
    requires
        v.events.len() > 0 ==> v.events[0] !is CodecNegotiated,
    ensures
        after_poll(v, running).codec_config == v.codec_config,
        stream_config(after_poll(v, running)) == stream_config(v),
{
}

/// Without a negotiated configuration a stream uses what an endpoint with bitpool 53 answers
/// to capabilities that offer everything.
pub proof fn law_default_configuration(v: RuntimeView, caps: Seq<u8>)
    requires
        v.codec_config.len() == 0,
        caps == seq![0xFFu8, 0xFFu8, 2u8, 53u8],
    ensures
        stream_config(v) == bluez::selected(caps, 53),
{
    assert(0xFFu8 & 0x40 != 0 && 0xFFu8 & 0x08 != 0 && 0xFFu8 & 0x80 != 0 && 0xFFu8 & 0x02 != 0)
        by (bit_vector);
    bluez::law_selection_keeps_best(caps, 53);
    bluez::law_bitpool_is_highest(2, 53, 53, 53);
    assert(stream_config(v) =~= bluez::selected(caps, 53));
}

/// The volume is what was set last, brought into the scale; the engine has the same, if there
/// is one, and an engine that starts later has it too.
pub proof fn law_last_volume_counts(v: RuntimeView, first: u16, volume: u16, codec_config: Seq<u8>)
    ensures
        volume <= 127 ==> after_volume(v, volume).volume == volume,
        volume >= 127 ==> after_volume(v, volume).volume == 127,
        v.engine is Some ==> after_volume(v, volume).engine == Some(after_volume(v, volume).volume),
        v.engine is None ==> after_volume(v, volume).engine is None,
        after_volume(after_volume(v, first), volume) == after_volume(v, volume),
        after_start(after_volume(v, volume), codec_config).engine == Some(
            after_volume(v, volume).volume,
        ),
        after_start(v, codec_config).volume == v.volume,
{
}

/// A volume goes to the transport in use if it differs from the one that was set last and
/// there is a connection, and to no other.
pub proof fn law_volume_goes_out(v: RuntimeView, volume: u16)
    requires
        volume <= 127,
    ensures
        v.connected && volume != v.volume ==> volume_goes_to(v, volume) == v.active,
        volume == v.volume ==> volume_goes_to(v, volume) is None,
        !v.connected ==> volume_goes_to(v, volume) is None,
{
}

/// Two states agree in what registration made of them: the connection, the adapter, content
/// protection, the bitpool and the playback state; and in the configuration and the packet
/// numbering.
pub open spec fn same_registration(v: RuntimeView, w: RuntimeView) -> bool {
    &&& w.connected == v.connected
    &&& w.adapter == v.adapter
    &&& w.wanted_adapter == v.wanted_adapter
    &&& w.max_bitpool == v.max_bitpool
    &&& w.scms_t == v.scms_t
    &&& w.playback == v.playback
    &&& w.pipeline.config == v.pipeline.config
    &&& w.pipeline.dcf_transport == v.pipeline.dcf_transport
}

/// Each step changes what it is about and nothing else; none of the steps of a stream, no
/// event and no volume changes what registration made.
pub proof fn law_steps_keep_the_rest(
    v: RuntimeView,
    running: bool,
    event: bluez::EventView,
    path: Seq<char>,
    fd: i32,
    read_mtu: u16,
    write_mtu: u16,
    codec_config: Seq<u8>,
    volume: u16,
    playback: avrcp::PlaybackView,
)
    ensures
        same_registration(v, after_poll(v, running)),
        same_registration(v, after_post(v, event)),
        same_registration(v, after_stop(v)),
        same_registration(v, after_begin(v)),
        same_registration(v, after_start(v, codec_config)),
        same_registration(v, after_acquire(v, path, fd, read_mtu, write_mtu)),
        same_registration(v, after_volume(v, volume)),
        after_poll(v, running).pipeline == v.pipeline,
        after_poll(v, running).volume == v.volume,
        after_poll(v, true).engine == v.engine,
        after_poll(v, true).active == v.active,
        after_post(v, event).pipeline == v.pipeline,
        after_post(v, event).engine == v.engine,
        after_post(v, event).active == v.active,
        after_post(v, event).codec_config == v.codec_config,
        after_post(v, event).volume == v.volume,
        after_stop(v).pipeline == v.pipeline,
        after_stop(v).events == v.events,
        after_stop(v).engine is None,
        v.engine is Some ==> after_stop(v).active is None,
        v.engine is None ==> after_stop(v) == v,
        after_begin(v).events == v.events,
        after_begin(v).active == v.active,
        after_begin(v).codec_config == v.codec_config,
        after_begin(v).volume == v.volume,
        after_start(v, codec_config).pipeline == v.pipeline,
        after_start(v, codec_config).events == v.events,
        after_start(v, codec_config).active == v.active,
        after_start(v, codec_config).codec_config == codec_config,
        after_acquire(v, path, fd, read_mtu, write_mtu).pipeline == v.pipeline,
        after_acquire(v, path, fd, read_mtu, write_mtu).engine == v.engine,
        after_acquire(v, path, fd, read_mtu, write_mtu).codec_config == v.codec_config,
        after_acquire(v, path, fd, read_mtu, write_mtu).volume == v.volume,
        after_volume(v, volume).pipeline == v.pipeline,
        after_volume(v, volume).events == v.events,
        after_volume(v, volume).active == v.active,
        after_volume(v, volume).codec_config == v.codec_config,
        with_playback(v, playback).playback == Some(playback),
        (RuntimeView { playback: v.playback, ..with_playback(v, playback) }) == v,
{
}

/// Registration connects, takes over what was found, and starts a playback state of its own;
/// the stream is not touched.
pub proof fn law_registration(
    v: RuntimeView,
    adapter: Seq<char>,
    scms_t: ScmsTConfig,
    max_bitpool: u8,
)
    ensures
        ({
            let w = after_registration(v, adapter, scms_t, max_bitpool);
            &&& w.connected
            &&& w.adapter == adapter
            &&& w.scms_t == scms_t
            &&& w.max_bitpool == max_bitpool
            &&& w.playback matches Some(p) && p.status == "stopped"@ && p.title.len() == 0
                && p.position_us == 0
            &&& w.pipeline == v.pipeline
            &&& w.engine == v.engine
            &&& w.events == v.events
            &&& w.codec_config == v.codec_config
            &&& w.active == v.active
            &&& w.wanted_adapter == v.wanted_adapter
            &&& w.volume == v.volume
        }),
{
}

/// A transport that cannot be acquired is not ready yet where the reason says so, and any
/// other reason is passed on.
pub proof fn law_acquire_failures(path: Seq<char>, before: Seq<char>, after: Seq<char>, message: Seq<char>)
    ensures
        acquire_error(path, before + "not permitted"@ + after)
            == RuntimeErrorView::TransportNotReady(path),
        acquire_error(path, before + "not available"@ + after)
            == RuntimeErrorView::TransportNotReady(path),
        !text::occurs(message, "not permitted"@) && !text::occurs(message, "not available"@)
            ==> acquire_error(path, message) == RuntimeErrorView::TransportAcquire(message),
{
    text::law_occurs_between(before, "not permitted"@, after);
    text::law_occurs_between(before, "not available"@, after);
}

/// A failure of the orchestrator says what failed, and why.
pub proof fn law_runtime_errors_say_why(s: Seq<char>)
    ensures
        text::begins_and_ends(
            RuntimeErrorView::TokioInit(s).text(),
            "Tokio runtime init failed: "@,
            s,
        ),
        text::begins_and_ends(
            RuntimeErrorView::DBusConnect(s).text(),
            "D-Bus connection failed: "@,
            s,
        ),
        text::begins_and_ends(
            RuntimeErrorView::EndpointRegister(s).text(),
            "Endpoint registration failed: "@,
            s,
        ),
        text::begins_and_ends(
            RuntimeErrorView::AvrcpRegister(s).text(),
            "AVRCP registration failed: "@,
            s,
        ),
        text::begins_and_ends(
            RuntimeErrorView::TransportAcquire(s).text(),
            "Transport acquisition failed: "@,
            s,
        ),
        text::begins_and_ends(
            RuntimeErrorView::TransportNotReady(s).text(),
            "Transport not ready (wrong state, will retry): "@,
            s,
        ),
        text::begins_and_ends(
            RuntimeErrorView::EngineStart(s).text(),
            "Engine start failed: "@,
            s,
        ),
        RuntimeErrorView::AvrcpNotReady.text() == "AVRCP not ready (MediaPlayer1 not registered)"@,
        RuntimeErrorView::NotConnected.text() == "Not connected to D-Bus"@,
{
    text::lemma_joined_parts("Tokio runtime init failed: "@, s);
    text::lemma_joined_parts("D-Bus connection failed: "@, s);
    text::lemma_joined_parts("Endpoint registration failed: "@, s);
    text::lemma_joined_parts("AVRCP registration failed: "@, s);
    text::lemma_joined_parts("Transport acquisition failed: "@, s);
    text::lemma_joined_parts("Transport not ready (wrong state, will retry): "@, s);
    text::lemma_joined_parts("Engine start failed: "@, s);
}

/// Before anything was registered there is no connection, no engine, no transport and no
/// event; the volume is full, the bitpool is the standard one, and a stream would use the
/// configuration of standard high quality.
pub proof fn law_initial_state(
    v: RuntimeView,
    config: AudioConfig,
    adapter: Option<Seq<char>>,
    protection: Option<Seq<char>>,
)
    requires
        initial(v, config, adapter, protection),
    ensures
        !v.connected,
        polled(v, true) is None && polled(v, false) is None,
        after_stop(v) == v,
        v.active is None,
        v.playback is None,
        v.volume == 127,
        in_scale(v),
        v.max_bitpool == compat::compat_of(None).max_safe_bitpool,
        stream_config(v) == seq![0x48u8, 0x8Au8, 53u8, 53u8],
        v.adapter == "/org/bluez/hci0"@,
        v.wanted_adapter == meaningful(adapter),
        compat::protection_bytes(v.scms_t) is Some <==> switched_on(protection),
        v.pipeline.config == config,
        v.pipeline.stream_generation == 0,
        v.pipeline.dcf_transport.next_sequence() == 0,
        v.pipeline.dcf_transport.next_frame_id() == 0,
        v.pipeline.dcf_transport.payload_limit() <= 1455,
        config.dcf_payload_size <= 1455 ==> v.pipeline.dcf_transport.payload_limit()
            == config.dcf_payload_size,
{
}

/// What events say, one for each and in the same order.
pub proof fn law_event_views(events: Seq<BlueZEvent>, i: int)
    requires
        0 <= i < events.len(),
    ensures
        event_views(events).len() == events.len(),
        event_views(events)[i] == events[i]@,
{
}

/// Whatever the path and the properties, a connection and the disconnection that follows it
/// are one event each, and both name the device alike.
pub proof fn law_connection_and_disconnection_agree(
    head: SignalHead,
    on: ChangedProperties,
    off: ChangedProperties,
)
    requires
        announces_change(head),
        on.interface@ == "org.bluez.Device1"@,
        off.interface@ == "org.bluez.Device1"@,
        on.connected == Some(true),
        off.connected == Some(false),
        match (on.address, off.address) {
            (Some(a), Some(b)) => a@ == b@,
            (None, None) => true,
            _ => false,
        },
    ensures
        signal_events(head, Some(on)).len() == 1,
        signal_events(head, Some(off)).len() == 1,
        signal_events(head, Some(on))[0] matches bluez::EventView::DeviceConnected {
            address: a,
            name,
        } && (signal_events(head, Some(off))[0] matches bluez::EventView::DeviceDisconnected {
            address: b,
        } && a == b),
        on.address is None ==> (head.path matches Some(p) ==> (address_in(p@) matches Some(a) ==> (
        signal_events(head, Some(off)) == seq![
            bluez::EventView::DeviceDisconnected { address: a },
        ]))),
        on.address is None ==> (head.path matches Some(p) ==> (address_in(p@) is None ==> (
        signal_events(head, Some(off)) == seq![
            bluez::EventView::DeviceDisconnected { address: "?"@ },
        ]))),
{
    lemma_interfaces_differ();
}

/// A path without the mark of a device has no address, and neither has one in which nothing
/// behind the mark separates the parts of an address.
pub proof fn law_path_without_address(path: Seq<char>, i: int)
    ensures
        !text::occurs(path, "dev_"@) ==> address_in(path) is None,
        text::first_occurrence(path, "dev_"@, i) && !path.skip(i + 4).contains('_') && !path.skip(
            i + 4,
        ).contains(':') ==> address_in(path) is None,
{
    if text::first_occurrence(path, "dev_"@, i) && !path.skip(i + 4).contains('_') && !path.skip(
        i + 4,
    ).contains(':') {
        reveal_strlit("dev_");
        let k = choose|k: int| text::first_occurrence(path, "dev_"@, k);
        assert(text::first_occurrence(path, "dev_"@, k));
        assert(k == i) by {
            if k < i {
                assert(!text::occurs_at(path, "dev_"@, k));
            }
            if k > i {
                assert(!text::occurs_at(path, "dev_"@, i));
            }
        }
        let tail = path.skip(i + 4);
        assert forall|j: int| 0 <= j < tail.len() implies text::replaced(tail, '_', ':')[j] != ':' by {
            assert(tail.contains(tail[j]));
        }
    }
}

} // verus!
