//! Media endpoints and transports of the Bluetooth daemon: codec negotiation, the table of
//! open transports, and the events that go to the control plane.

use vstd::prelude::*;

use crate::codec::AudioCodec;
use crate::text;

verus! {

// ---------------------------------------------------------------------------------
// Transports and events
// ---------------------------------------------------------------------------------

/// State of a transport.
#[derive(Debug, Clone, Copy, PartialEq, Eq, Structural)]
pub enum TransportState {
    Idle,
    Pending,
    Active,
}

/// An audio transport that the Bluetooth daemon opened.
#[derive(Debug, Clone)]
pub struct BluetoothTransport {
    /// Object path of the transport.
    pub path: String,
    /// Negotiated codec.
    pub codec: AudioCodec,
    /// Negotiated codec configuration.
    pub configuration: Vec<u8>,
    pub state: TransportState,
}

/// What a transport holds.
pub ghost struct TransportView {
    pub path: Seq<char>,
    pub codec: AudioCodec,
    pub configuration: Seq<u8>,
    pub state: TransportState,
}

impl View for BluetoothTransport {
    type V = TransportView;

    open spec fn view(&self) -> TransportView {
        TransportView {
            path: self.path@,
            codec: self.codec,
            configuration: self.configuration@,
            state: self.state,
        }
    }
}

/// An event for the control plane.
#[derive(Debug, Clone)]
pub enum BlueZEvent {
    DeviceConnected { address: String, name: String },
    DeviceDisconnected { address: String },
    TransportPending { path: String },
    TransportAcquired { path: String, fd: i32, read_mtu: u16, write_mtu: u16 },
    TransportReleased { path: String },
    CodecNegotiated { codec: AudioCodec, config: Vec<u8> },
    VolumeChanged { volume: u16 },
    Error { message: String },
}

/// What an event says.
pub ghost enum EventView {
    DeviceConnected { address: Seq<char>, name: Seq<char> },
    DeviceDisconnected { address: Seq<char> },
    TransportPending { path: Seq<char> },
    TransportAcquired { path: Seq<char>, fd: i32, read_mtu: u16, write_mtu: u16 },
    TransportReleased { path: Seq<char> },
    CodecNegotiated { codec: AudioCodec, config: Seq<u8> },
    VolumeChanged { volume: u16 },
    Error { message: Seq<char> },
}

impl View for BlueZEvent {
    type V = EventView;

    open spec fn view(&self) -> EventView {
        match *self {
            BlueZEvent::DeviceConnected { address, name } => EventView::DeviceConnected {
                address: address@,
                name: name@,
            },
            BlueZEvent::DeviceDisconnected { address } => EventView::DeviceDisconnected {
                address: address@,
            },
            BlueZEvent::TransportPending { path } => EventView::TransportPending { path: path@ },
            BlueZEvent::TransportAcquired { path, fd, read_mtu, write_mtu } =>
                EventView::TransportAcquired { path: path@, fd, read_mtu, write_mtu },
            BlueZEvent::TransportReleased { path } => EventView::TransportReleased { path: path@ },
            BlueZEvent::CodecNegotiated { codec, config } => EventView::CodecNegotiated {
                codec,
                config: config@,
            },
            BlueZEvent::VolumeChanged { volume } => EventView::VolumeChanged { volume },
            BlueZEvent::Error { message } => EventView::Error { message: message@ },
        }
    }
}

// ---------------------------------------------------------------------------------
// Endpoints
// ---------------------------------------------------------------------------------

/// A sink receives audio from a phone; a source sends audio to headphones.
#[derive(Debug, Clone, Copy, PartialEq, Eq, Structural)]
pub enum StreamDirection {
    Sink,
    Source,
}

/// The service identifier of an endpoint.
pub open spec fn uuid_text(direction: StreamDirection) -> Seq<char> {
    match direction {
        StreamDirection::Sink => "0000110b-0000-1000-8000-00805f9b34fb"@,
        StreamDirection::Source => "0000110a-0000-1000-8000-00805f9b34fb"@,
    }
}

/// The object path of an endpoint.
pub open spec fn path_text(direction: StreamDirection) -> Seq<char> {
    match direction {
        StreamDirection::Sink => "/org/demod/bt/sink/sbc"@,
        StreamDirection::Source => "/org/demod/bt/source/sbc"@,
    }
}

/// The service identifier of an endpoint.
pub fn endpoint_uuid(direction: StreamDirection) -> (s: &'static str)
    ensures
        s@ == uuid_text(direction),
{
    match direction {
        StreamDirection::Sink => "0000110b-0000-1000-8000-00805f9b34fb",
        StreamDirection::Source => "0000110a-0000-1000-8000-00805f9b34fb",
    }
}

/// The object path of an endpoint.
pub fn endpoint_path(direction: StreamDirection) -> (s: &'static str)
    ensures
        s@ == path_text(direction),
{
    match direction {
        StreamDirection::Sink => "/org/demod/bt/sink/sbc",
        StreamDirection::Source => "/org/demod/bt/source/sbc",
    }
}

/// The properties with which an endpoint is registered.
#[derive(Debug)]
pub struct EndpointProperties {
    pub uuid: &'static str,
    pub codec: u8,
    /// Channel mode and frequency flags, block length, subband and allocation flags, and the
    /// smallest and largest bitpool.
    pub capabilities: Vec<u8>,
    pub content_protection: Option<Vec<u8>>,
}

/// The properties with which an endpoint is registered: SBC with all its modes and standard
/// bitpools, and content protection where it is asked for.
pub fn endpoint_properties(
    direction: StreamDirection,
    content_protection: Option<Vec<u8>>,
) -> (p: EndpointProperties)
    ensures
        p.uuid@ == uuid_text(direction),
        p.codec == AudioCodec::Sbc.code(),
        p.capabilities@ == seq![0xFFu8, 0xFFu8, 2u8, 53u8],
        p.content_protection == content_protection,
{
    EndpointProperties {
        uuid: endpoint_uuid(direction),
        codec: AudioCodec::Sbc.id(),
        capabilities: vec![0xFFu8, 0xFFu8, 2u8, 53u8],
        content_protection,
    }
}

// ---------------------------------------------------------------------------------
// Negotiation
// ---------------------------------------------------------------------------------

/// Largest bitpool of high-quality SBC.
pub const SBC_XQ_MAX_BITPOOL: u8 = 76;

/// Says why a remote device's capabilities cannot be used.
#[derive(Debug, Clone, Copy, PartialEq, Eq, Structural)]
pub enum SelectError {
    TooShort,
}

impl SelectError {
    /// The text of an error.
    pub fn message(&self) -> (s: &'static str)
        ensures
            s@ == "SBC capabilities too short"@,
    {
        "SBC capabilities too short"
    }
}

/// A remote device offers a feature.
pub open spec fn offers(caps: u8, flag: u8) -> bool {
    caps & flag != 0
}

/// The first of four features that is offered; the last if none of the others is.
pub open spec fn first_offered(caps: u8, a: u8, b: u8, c: u8, d: u8) -> u8 {
    if offers(caps, a) {
        a
    } else if offers(caps, b) {
        b
    } else if offers(caps, c) {
        c
    } else {
        d
    }
}

/// The sampling frequency to use: 44.1 kHz, or else 48, 32 or 16 kHz.
pub open spec fn frequency_choice(caps: u8) -> u8 {
    first_offered(caps, 0x40, 0x80, 0x20, 0x10)
}

/// The channel mode to use: joint stereo, or else stereo, dual channel or mono.
pub open spec fn channel_choice(caps: u8) -> u8 {
    first_offered(caps, 0x08, 0x04, 0x02, 0x01)
}

/// The block length to use: 16, or else 12, 8 or 4.
pub open spec fn block_choice(caps: u8) -> u8 {
    first_offered(caps, 0x80, 0x40, 0x20, 0x10)
}

/// The subbands to use: eight, or else four.
pub open spec fn subband_choice(caps: u8) -> u8 {
    if offers(caps, 0x08) {
        0x08
    } else {
        0x04
    }
}

/// The allocation method to use: loudness, or else SNR.
pub open spec fn allocation_choice(caps: u8) -> u8 {
    if offers(caps, 0x02) {
        0x02
    } else {
        0x01
    }
}

/// The bitpool to use: as high as both sides and the codec allow, but not below the remote
/// minimum.
pub open spec fn bitpool_choice(lowest: u8, highest: u8, own_limit: u8) -> u8 {
    let limit = if own_limit < SBC_XQ_MAX_BITPOOL {
        own_limit
    } else {
        SBC_XQ_MAX_BITPOOL
    };
    let wanted = if highest < limit {
        highest
    } else {
        limit
    };
    if wanted < lowest {
        lowest
    } else {
        wanted
    }
}

/// The configuration that answers a remote device's capabilities.
pub open spec fn selected(caps: Seq<u8>, own_limit: u8) -> Seq<u8> {
    let bitpool = bitpool_choice(caps[2], caps[3], own_limit);
    seq![
        frequency_choice(caps[0]) | channel_choice(caps[0]),
        block_choice(caps[1]) | subband_choice(caps[1]) | allocation_choice(caps[1]),
        bitpool,
        bitpool,
    ]
}

/// What is chosen was offered, wherever the remote device offers anything of the kind.
pub proof fn law_selection_was_offered(caps: u8)
    ensures
        offers(caps, 0xF0) ==> offers(caps, frequency_choice(caps)),
        offers(caps, 0x0F) ==> offers(caps, channel_choice(caps)),
        offers(caps, 0xF0) ==> offers(caps, block_choice(caps)),
        offers(caps, 0x0C) ==> offers(caps, subband_choice(caps)),
        offers(caps, 0x03) ==> offers(caps, allocation_choice(caps)),
{
    assert((caps & 0xF0u8 != 0) ==> (caps & 0x80u8 != 0) || (caps & 0x40u8 != 0) || (caps & 0x20u8
        != 0) || (caps & 0x10u8 != 0)) by (bit_vector);
    assert((caps & 0x0Fu8 != 0) ==> (caps & 0x08u8 != 0) || (caps & 0x04u8 != 0) || (caps & 0x02u8
        != 0) || (caps & 0x01u8 != 0)) by (bit_vector);
    assert((caps & 0x0Cu8 != 0) ==> (caps & 0x08u8 != 0) || (caps & 0x04u8 != 0)) by (bit_vector);
    assert((caps & 0x03u8 != 0) ==> (caps & 0x02u8 != 0) || (caps & 0x01u8 != 0)) by (bit_vector);
}

/// The chosen bitpool lies within the remote device's range, and within the own limits
/// unless the remote minimum is higher.
pub proof fn law_bitpool_in_range(lowest: u8, highest: u8, own_limit: u8)
    requires
        lowest <= highest,
    ensures
        lowest <= bitpool_choice(lowest, highest, own_limit) <= highest,
        lowest <= own_limit ==> bitpool_choice(lowest, highest, own_limit) <= own_limit,
        lowest <= SBC_XQ_MAX_BITPOOL ==> bitpool_choice(lowest, highest, own_limit)
            <= SBC_XQ_MAX_BITPOOL,
{
}

/// A remote device that has the features of highest quality is answered with exactly these,
/// whatever else it has.
pub proof fn law_selection_keeps_best(caps: Seq<u8>, own_limit: u8)
    requires
        caps.len() >= 4,
        offers(caps[0], 0x40),
        offers(caps[0], 0x08),
        offers(caps[1], 0x80),
        offers(caps[1], 0x08),
        offers(caps[1], 0x02),
    ensures
        selected(caps, own_limit)[0] == 0x48,
        selected(caps, own_limit)[1] == 0x8A,
{
    assert(0x40u8 | 0x08u8 == 0x48u8) by (bit_vector);
    assert(0x80u8 | 0x08u8 | 0x02u8 == 0x8Au8) by (bit_vector);
}

// ---------------------------------------------------------------------------------
// The endpoint
// ---------------------------------------------------------------------------------

/// No two transports have the same path.
pub open spec fn paths_distinct(ts: Seq<BluetoothTransport>) -> bool {
    forall|i: int, j: int|
        #![trigger ts[i], ts[j]]
        0 <= i < j < ts.len() ==> ts[i].path@ != ts[j].path@
}

/// Transport `i` has this path.
pub open spec fn path_at(ts: Seq<BluetoothTransport>, i: int, path: Seq<char>) -> bool {
    0 <= i < ts.len() && ts[i].path@ == path
}

/// Transports by path.
pub open spec fn table_of(ts: Seq<BluetoothTransport>) -> Map<Seq<char>, TransportView> {
    Map::new(
        |path: Seq<char>| exists|i: int| path_at(ts, i, path),
        |path: Seq<char>| ts[choose|i: int| path_at(ts, i, path)]@,
    )
}

/// A transport that is set and then cleared leaves the table as it was.
pub proof fn law_clear_undoes_set(
    table: Map<Seq<char>, TransportView>,
    path: Seq<char>,
    t: TransportView,
)
    requires
        !table.contains_key(path),
    ensures
        table.insert(path, t).remove(path) == table,
{
    assert(table.insert(path, t).remove(path) =~= table);
}

proof fn lemma_table_entry(ts: Seq<BluetoothTransport>, i: int)
    requires
        paths_distinct(ts),
        0 <= i < ts.len(),
    ensures
        table_of(ts).contains_key(ts[i].path@),
        table_of(ts)[ts[i].path@] == ts[i]@,
{
    let path = ts[i].path@;
    assert(path_at(ts, i, path));
    let j = choose|j: int| path_at(ts, j, path);
    assert(path_at(ts, j, path));
    assert(ts[i].path@ == ts[j].path@);
    assert(i == j);
}

proof fn lemma_table_remove(ts: Seq<BluetoothTransport>, i: int)
    requires
        paths_distinct(ts),
        0 <= i < ts.len(),
    ensures
        paths_distinct(ts.remove(i)),
        table_of(ts.remove(i)) == table_of(ts).remove(ts[i].path@),
{
    let less = ts.remove(i);
    let gone = ts[i].path@;
    assert forall|path: Seq<char>| #[trigger]
        table_of(less).contains_key(path) <==> table_of(ts).remove(gone).contains_key(path) by {
        if table_of(less).contains_key(path) {
            let j = choose|j: int| path_at(less, j, path);
            let k = if j < i {
                j
            } else {
                j + 1
            };
            assert(ts[k].path@ == path);
            lemma_table_entry(ts, k);
            assert(ts[i].path@ != ts[k].path@);
        }
        if table_of(ts).remove(gone).contains_key(path) {
            let k = choose|k: int| path_at(ts, k, path);
            let j = if k < i {
                k
            } else {
                k - 1
            };
            assert(path_at(less, j, path));
        }
    }
    assert(paths_distinct(less)) by {
        assert forall|a: int, b: int|
            #![trigger less[a], less[b]]
            0 <= a < b < less.len() implies less[a].path@ != less[b].path@ by {
            let a2 = if a < i {
                a
            } else {
                a + 1
            };
            let b2 = if b < i {
                b
            } else {
                b + 1
            };
            assert(ts[a2].path@ != ts[b2].path@);
        }
    }
    assert forall|path: Seq<char>| #[trigger] table_of(less).contains_key(path) implies table_of(
        less,
    )[path] == table_of(ts).remove(gone)[path] by {
        let j = choose|j: int| path_at(less, j, path);
        let k = if j < i {
            j
        } else {
            j + 1
        };
        lemma_table_entry(less, j);
        lemma_table_entry(ts, k);
        assert(ts[i].path@ != ts[k].path@);
    }
    assert(table_of(less) =~= table_of(ts).remove(gone));
}

proof fn lemma_table_push(ts: Seq<BluetoothTransport>, t: BluetoothTransport)
    requires
        paths_distinct(ts),
        !table_of(ts).contains_key(t.path@),
    ensures
        paths_distinct(ts.push(t)),
        table_of(ts.push(t)) == table_of(ts).insert(t.path@, t@),
{
    let more = ts.push(t);
    assert forall|a: int, b: int|
        #![trigger more[a], more[b]]
        0 <= a < b < more.len() implies more[a].path@ != more[b].path@ by {
        if b == ts.len() {
            lemma_table_entry(ts, a);
        } else {
            assert(ts[a].path@ != ts[b].path@);
        }
    }
    lemma_table_entry(more, ts.len() as int);
    assert forall|path: Seq<char>| #[trigger]
        table_of(more).contains_key(path) <==> table_of(ts).insert(t.path@, t@).contains_key(
            path,
        ) by {
        if table_of(more).contains_key(path) && path != t.path@ {
            let j = choose|j: int| path_at(more, j, path);
            assert(path_at(ts, j, path));
        }
        if table_of(ts).contains_key(path) {
            let j = choose|j: int| path_at(ts, j, path);
            assert(path_at(more, j, path));
        }
    }
    assert forall|path: Seq<char>| #[trigger] table_of(more).contains_key(path) implies table_of(
        more,
    )[path] == table_of(ts).insert(t.path@, t@)[path] by {
        if path != t.path@ {
            let j = choose|j: int| path_at(more, j, path);
            lemma_table_entry(more, j);
            lemma_table_entry(ts, j);
        }
    }
    assert(table_of(more) =~= table_of(ts).insert(t.path@, t@));
}

/// A media endpoint: it negotiates the codec configuration and keeps the open transports.
#[derive(Debug)]
pub struct MediaEndpoint {
    transports: Vec<BluetoothTransport>,
    direction: StreamDirection,
    max_bitpool: u8,
}

impl MediaEndpoint {
    /// The open transports by path.
    pub closed spec fn table(&self) -> Map<Seq<char>, TransportView> {
        table_of(self.transports@)
    }

    /// The direction of the endpoint.
    pub closed spec fn flow(&self) -> StreamDirection {
        self.direction
    }

    /// The largest bitpool that the endpoint agrees to.
    pub closed spec fn bitpool_limit(&self) -> u8 {
        self.max_bitpool
    }

    #[verifier::type_invariant]
    spec fn transports_distinct(&self) -> bool {
        paths_distinct(self.transports@)
    }

    /// An endpoint without transports.
    pub fn new(direction: StreamDirection, max_bitpool: u8) -> (e: MediaEndpoint)
        ensures
            e.table() == Map::<Seq<char>, TransportView>::empty(),
            e.flow() == direction,
            e.bitpool_limit() == max_bitpool,
    {
        let e = MediaEndpoint { transports: Vec::new(), direction, max_bitpool };
        assert(e.table() =~= Map::<Seq<char>, TransportView>::empty());
        e
    }

    /// Answers a remote device's capabilities with the configuration of highest quality that
    /// it offers.
    pub fn select_configuration(&self, capabilities: &[u8]) -> (r: Result<Vec<u8>, SelectError>)
        ensures
            r is Ok <==> capabilities@.len() >= 4,
            r matches Ok(config) ==> config@ == selected(capabilities@, self.bitpool_limit()),
            r matches Err(e) ==> e == SelectError::TooShort,
    {
        if capabilities.len() < 4 {
            return Err(SelectError::TooShort);
        }
        let cap0: u8 = capabilities[0];
        let cap1: u8 = capabilities[1];
        let min_bp: u8 = capabilities[2];
        let max_bp: u8 = capabilities[3];

        let freq: u8 = if cap0 & 0x40 != 0 {
            0x40
        } else if cap0 & 0x80 != 0 {
            0x80
        } else if cap0 & 0x20 != 0 {
            0x20
        } else {
            0x10
        };
        let chan: u8 = if cap0 & 0x08 != 0 {
            0x08
        } else if cap0 & 0x04 != 0 {
            0x04
        } else if cap0 & 0x02 != 0 {
            0x02
        } else {
            0x01
        };
        let blocks: u8 = if cap1 & 0x80 != 0 {
            0x80
        } else if cap1 & 0x40 != 0 {
            0x40
        } else if cap1 & 0x20 != 0 {
            0x20
        } else {
            0x10
        };
        let subbands: u8 = if cap1 & 0x08 != 0 {
            0x08
        } else {
            0x04
        };
        let alloc: u8 = if cap1 & 0x02 != 0 {
            0x02
        } else {
            0x01
        };
        let limit: u8 = if self.max_bitpool < SBC_XQ_MAX_BITPOOL {
            self.max_bitpool
        } else {
            SBC_XQ_MAX_BITPOOL
        };
        let wanted: u8 = if max_bp < limit {
            max_bp
        } else {
            limit
        };
        let bitpool: u8 = if wanted < min_bp {
            min_bp
        } else {
            wanted
        };
        Ok(vec![freq | chan, blocks | subbands | alloc, bitpool, bitpool])
    }

    /// The index of the transport with this path, if there is one.
    fn position(&self, path: &str) -> (r: Option<usize>)
        ensures
            r matches Some(i) ==> path_at(self.transports@, i as int, path@),
            r is None ==> !self.table().contains_key(path@),
    {
        let mut i: usize = 0;
        while i < self.transports.len()
            invariant
                i <= self.transports@.len(),
                forall|j: int| 0 <= j < i ==> !#[trigger] path_at(self.transports@, j, path@),
            decreases self.transports.len() - i,
        {
            if text::str_equal(self.transports[i].path.as_str(), path) {
                return Some(i);
            }
            i += 1;
        }
        None
    }

    /// Takes the transport with this path out of the table, if there is one.
    fn forget(&mut self, path: &str)
        ensures
            final(self).table() == old(self).table().remove(path@),
            final(self).flow() == old(self).flow(),
            final(self).bitpool_limit() == old(self).bitpool_limit(),
    {
        proof {
            use_type_invariant(&*self);
        }
        match self.position(path) {
            Some(i) => {
                proof {
                    lemma_table_remove(self.transports@, i as int);
                }
                let mut transports: Vec<BluetoothTransport> = Vec::new();
                std::mem::swap(&mut transports, &mut self.transports);
                let _ = transports.remove(i);
                self.transports = transports;
            },
            None => {
                assert(self.table() =~= self.table().remove(path@));
            },
        }
    }

    /// A transport was created with this configuration and codec identifier. Whatever the
    /// table held under its path is replaced. An unknown codec counts as SBC. Returns the
    /// event for the control plane.
    pub fn set_configuration(
        &mut self,
        path: &str,
        config: Option<Vec<u8>>,
        codec_id: Option<u8>,
    ) -> (event: BlueZEvent)
        ensures
            ({
                let codec = codec_or_sbc(codec_id);
                let bytes = match config {
                    Some(c) => c@,
                    None => Seq::<u8>::empty(),
                };
                &&& final(self).table() == old(self).table().insert(
                    path@,
                    (TransportView {
                        path: path@,
                        codec,
                        configuration: bytes,
                        state: TransportState::Pending,
                    }),
                )
                &&& event@ == (EventView::CodecNegotiated { codec, config: bytes })
            }),
            final(self).flow() == old(self).flow(),
            final(self).bitpool_limit() == old(self).bitpool_limit(),
    {
        let config: Vec<u8> = match config {
            Some(c) => c,
            None => Vec::new(),
        };
        let id: u8 = match codec_id {
            Some(id) => id,
            None => AudioCodec::Sbc.id(),
        };
        let codec: AudioCodec = match AudioCodec::from_id(id) {
            Some(c) => c,
            None => AudioCodec::Sbc,
        };
        proof {
            lemma_codec_or_sbc(codec_id, codec);
        }
        let transport = BluetoothTransport {
            path: path.to_owned(),
            codec,
            configuration: copied(config.as_slice()),
            state: TransportState::Pending,
        };
        self.forget(path);
        proof {
            use_type_invariant(&*self);
            lemma_table_push(self.transports@, transport);
            assert(old(self).table().remove(path@).insert(path@, transport@) =~= old(
                self,
            ).table().insert(path@, transport@));
        }
        let mut transports: Vec<BluetoothTransport> = Vec::new();
        std::mem::swap(&mut transports, &mut self.transports);
        transports.push(transport);
        self.transports = transports;
        BlueZEvent::CodecNegotiated { codec, config }
    }

    /// A transport is gone. Returns the event for the control plane.
    pub fn clear_configuration(&mut self, path: &str) -> (event: BlueZEvent)
        ensures
            final(self).table() == old(self).table().remove(path@),
            final(self).flow() == old(self).flow(),
            final(self).bitpool_limit() == old(self).bitpool_limit(),
            event@ == (EventView::TransportReleased { path: path@ }),
    {
        self.forget(path);
        BlueZEvent::TransportReleased { path: path.to_owned() }
    }

    /// The open transport with this path, if there is one.
    pub fn transport(&self, path: &str) -> (r: Option<&BluetoothTransport>)
        ensures
            r is Some <==> self.table().contains_key(path@),
            r matches Some(t) ==> t@ == self.table()[path@],
    {
        proof {
            use_type_invariant(self);
        }
        match self.position(path) {
            Some(i) => {
                proof {
                    lemma_table_entry(self.transports@, i as int);
                }
                Some(&self.transports[i])
            },
            None => None,
        }
    }
}

/// The codec with this identifier; SBC where there is none.
pub open spec fn codec_or_sbc(codec_id: Option<u8>) -> AudioCodec {
    match codec_id {
        Some(id) => if exists|c: AudioCodec| c.code() == id {
            choose|c: AudioCodec| c.code() == id
        } else {
            AudioCodec::Sbc
        },
        None => AudioCodec::Sbc,
    }
}

proof fn lemma_codec_or_sbc(codec_id: Option<u8>, codec: AudioCodec)
    requires
        codec_id is None ==> codec == AudioCodec::Sbc,
        codec_id matches Some(id) ==> codec.code() == id || (codec == AudioCodec::Sbc && forall|
            c: AudioCodec,
        |
            c.code() != id),
    ensures
        codec == codec_or_sbc(codec_id),
{
    if let Some(id) = codec_id {
        if codec.code() == id {
            let d = choose|c: AudioCodec| c.code() == id;
            crate::codec::law_codec_ids_distinct(codec, d);
        }
    }
}

/// A copy of some bytes.
fn copied(bytes: &[u8]) -> (v: Vec<u8>)
    ensures
        v@ == bytes@,
{
    let mut v: Vec<u8> = Vec::new();
    v.extend_from_slice(bytes);
    v
}

// ---------------------------------------------------------------------------------
// Laws of the negotiation
// ---------------------------------------------------------------------------------

/// No bitpool that both sides and the codec allow is higher than the chosen one; and where
/// none is allowed, the remote minimum is taken.
pub proof fn law_bitpool_is_highest(lowest: u8, highest: u8, own_limit: u8, b: u8)
    ensures
        ({
            let chosen = bitpool_choice(lowest, highest, own_limit);
            let allowed = |x: u8| lowest <= x && x <= highest && x <= own_limit && x <= 76;
            &&& allowed(b) ==> b <= chosen && allowed(chosen)
            &&& allowed(chosen) || chosen == lowest
            &&& chosen >= lowest
        }),
{
}

/// The answer to any capabilities: four bytes, of which the last two are the bitpool.
pub proof fn law_selection_bitpool(caps: Seq<u8>, own_limit: u8, b: u8)
    requires
        caps.len() >= 4,
        caps[2] <= b <= caps[3],
        b <= own_limit,
        b <= 76,
    ensures
        selected(caps, own_limit).len() == 4,
        selected(caps, own_limit)[2] == selected(caps, own_limit)[3],
        b <= selected(caps, own_limit)[3],
        caps[2] <= selected(caps, own_limit)[3] <= caps[3],
        selected(caps, own_limit)[3] <= own_limit,
        selected(caps, own_limit)[3] <= 76,
{
    law_bitpool_is_highest(caps[2], caps[3], own_limit, b);
}

/// The answer has one flag of each kind: the one of highest quality that the remote device
/// offers, and the one of lowest quality where it offers none.
pub proof fn law_selection_prefers_quality(caps: Seq<u8>, own_limit: u8)
    requires
        caps.len() >= 4,
    ensures
        ({
            let c = caps[0];
            let r = selected(caps, own_limit)[0];
            &&& (r & 0x40 != 0) <==> (c & 0x40 != 0)
            &&& (r & 0x80 != 0) <==> (c & 0x80 != 0 && c & 0x40 == 0)
            &&& (r & 0x20 != 0) <==> (c & 0x20 != 0 && c & 0x40 == 0 && c & 0x80 == 0)
            &&& (r & 0x10 != 0) <==> (c & 0x40 == 0 && c & 0x80 == 0 && c & 0x20 == 0)
            &&& (r & 0x08 != 0) <==> (c & 0x08 != 0)
            &&& (r & 0x04 != 0) <==> (c & 0x04 != 0 && c & 0x08 == 0)
            &&& (r & 0x02 != 0) <==> (c & 0x02 != 0 && c & 0x08 == 0 && c & 0x04 == 0)
            &&& (r & 0x01 != 0) <==> (c & 0x08 == 0 && c & 0x04 == 0 && c & 0x02 == 0)
        }),
        ({
            let c = caps[1];
            let r = selected(caps, own_limit)[1];
            &&& (r & 0x80 != 0) <==> (c & 0x80 != 0)
            &&& (r & 0x40 != 0) <==> (c & 0x40 != 0 && c & 0x80 == 0)
            &&& (r & 0x20 != 0) <==> (c & 0x20 != 0 && c & 0x80 == 0 && c & 0x40 == 0)
            &&& (r & 0x10 != 0) <==> (c & 0x80 == 0 && c & 0x40 == 0 && c & 0x20 == 0)
            &&& (r & 0x08 != 0) <==> (c & 0x08 != 0)
            &&& (r & 0x04 != 0) <==> (c & 0x08 == 0)
            &&& (r & 0x02 != 0) <==> (c & 0x02 != 0)
            &&& (r & 0x01 != 0) <==> (c & 0x02 == 0)
        }),
{
    let f = frequency_choice(caps[0]);
    let m = channel_choice(caps[0]);
    let r = f | m;
    assert((r & 0x40 != 0 <==> f == 0x40) && (r & 0x80 != 0 <==> f == 0x80) && (r & 0x20 != 0 <==> f
        == 0x20) && (r & 0x10 != 0 <==> f == 0x10) && (r & 0x08 != 0 <==> m == 0x08) && (r & 0x04
        != 0 <==> m == 0x04) && (r & 0x02 != 0 <==> m == 0x02) && (r & 0x01 != 0 <==> m == 0x01))
        by (bit_vector)
        requires
            r == f | m,
            f == 0x40u8 || f == 0x80u8 || f == 0x20u8 || f == 0x10u8,
            m == 0x08u8 || m == 0x04u8 || m == 0x02u8 || m == 0x01u8,
    ;
    let b = block_choice(caps[1]);
    let s = subband_choice(caps[1]);
    let a = allocation_choice(caps[1]);
    let q = b | s | a;
    assert((q & 0x80 != 0 <==> b == 0x80) && (q & 0x40 != 0 <==> b == 0x40) && (q & 0x20 != 0 <==> b
        == 0x20) && (q & 0x10 != 0 <==> b == 0x10) && (q & 0x08 != 0 <==> s == 0x08) && (q & 0x04
        != 0 <==> s == 0x04) && (q & 0x02 != 0 <==> a == 0x02) && (q & 0x01 != 0 <==> a == 0x01))
        by (bit_vector)
        requires
            q == b | s | a,
            b == 0x80u8 || b == 0x40u8 || b == 0x20u8 || b == 0x10u8,
            s == 0x08u8 || s == 0x04u8,
            a == 0x02u8 || a == 0x01u8,
    ;
}

/// A transport's codec is the one that has the identifier; every other identifier, and none,
/// is SBC.
pub proof fn law_transport_codec(codec_id: Option<u8>, c: AudioCodec)
    ensures
        codec_or_sbc(Some(c.code())) == c,
        codec_or_sbc(None) == AudioCodec::Sbc,
        (forall|d: AudioCodec| Some(#[trigger] d.code()) != codec_id) ==> codec_or_sbc(codec_id)
            == AudioCodec::Sbc,
{
    lemma_codec_or_sbc(Some(c.code()), c);
}

/// The table lists a transport under its path, and nothing under a path that none has.
pub proof fn law_table_lists_transports(ts: Seq<BluetoothTransport>, i: int, path: Seq<char>)
    requires
        paths_distinct(ts),
        0 <= i < ts.len(),
    ensures
        table_of(ts).contains_key(ts[i].path@),
        table_of(ts)[ts[i].path@].path == ts[i].path@,
        table_of(ts)[ts[i].path@].codec == ts[i].codec,
        table_of(ts)[ts[i].path@].configuration == ts[i].configuration@,
        table_of(ts)[ts[i].path@].state == ts[i].state,
        (forall|j: int| 0 <= j < ts.len() ==> #[trigger] ts[j].path@ != path)
            ==> !table_of(ts).contains_key(path),
{
    lemma_table_entry(ts, i);
}

/// The two directions have the service identifiers of audio sink and audio source, and
/// different object paths.
pub proof fn law_endpoint_names()
    ensures
        uuid_text(StreamDirection::Sink) == "0000110b-0000-1000-8000-00805f9b34fb"@,
        uuid_text(StreamDirection::Source) == "0000110a-0000-1000-8000-00805f9b34fb"@,
        path_text(StreamDirection::Sink) == "/org/demod/bt/sink/sbc"@,
        path_text(StreamDirection::Source) == "/org/demod/bt/source/sbc"@,
{
}

} // verus!
