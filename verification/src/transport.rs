//! The audio pipeline: stream configuration and metrics, and a fresh ring buffer for every
//! stream session.

use vstd::prelude::*;

use rtrb::{Consumer, Producer};

use crate::codec::{AudioCodec, CodecConfig};
use crate::dcf;
use crate::dcf::{DcfFrame, DcfTransport};
use crate::ring;
use crate::text;

verus! {

/// Direction of an audio stream.
#[derive(Debug, Clone, Copy, PartialEq, Eq, Structural)]
pub enum StreamDirection {
    /// Audio comes in over Bluetooth and goes to the speakers.
    Sink,
    /// Audio comes from the microphone and goes out over Bluetooth.
    Source,
}

/// Audio configuration of the pipeline.
#[derive(Debug, Clone)]
pub struct AudioConfig {
    pub sample_rate: u32,
    pub channels: u16,
    pub bit_depth: u16,
    pub direction: StreamDirection,
    pub codec: AudioCodec,
    pub codec_config: Option<CodecConfig>,
    /// Depth of the jitter buffer in milliseconds.
    pub jitter_buffer_ms: u32,
    /// Payload limit of a packet.
    pub dcf_payload_size: usize,
}

impl Default for AudioConfig {
    fn default() -> (c: AudioConfig)
        ensures
            c.sample_rate == 44100,
            c.channels == 2,
            c.bit_depth == 16,
            c.direction == StreamDirection::Sink,
            c.codec == AudioCodec::Sbc,
            c.codec_config is None,
            c.jitter_buffer_ms == 40,
            c.dcf_payload_size == 239,
    {
        AudioConfig {
            sample_rate: 44100,
            channels: 2,
            bit_depth: 16,
            direction: StreamDirection::Sink,
            codec: AudioCodec::Sbc,
            codec_config: None,
            jitter_buffer_ms: 40,
            dcf_payload_size: 239,
        }
    }
}

/// What happened on a stream since it started.
#[derive(Debug, Clone, Copy, PartialEq, Eq, Structural)]
pub struct StreamMetrics {
    /// Audio callbacks that moved samples.
    pub frames_processed: u32,
    /// Audio callbacks that found too few samples.
    pub underruns: u32,
    /// Frames dropped for want of room in the ring.
    pub overruns: u32,
    /// Samples waiting in the ring.
    pub buffer_level: u32,
    /// The stream is running.
    pub running: bool,
}

/// Metrics as plain numbers.
#[derive(Debug, Clone, Copy, PartialEq, Eq, Structural)]
pub struct MetricsSnapshot {
    pub frames_processed: u32,
    pub underruns: u32,
    pub overruns: u32,
    pub buffer_level: u32,
    /// One for a running stream, zero otherwise.
    pub running: u8,
}

/// The metrics of a stream that has not started.
pub open spec fn fresh_metrics() -> StreamMetrics {
    StreamMetrics { frames_processed: 0, underruns: 0, overruns: 0, buffer_level: 0, running: false }
}

impl StreamMetrics {
    /// The metrics of a stream that has not started.
    pub fn new() -> (m: StreamMetrics)
        ensures
            m == fresh_metrics(),
    {
        StreamMetrics {
            frames_processed: 0,
            underruns: 0,
            overruns: 0,
            buffer_level: 0,
            running: false,
        }
    }

    /// The metrics as plain numbers.
    pub fn snapshot(&self) -> (s: MetricsSnapshot)
        ensures
            s.frames_processed == self.frames_processed,
            s.underruns == self.underruns,
            s.overruns == self.overruns,
            s.buffer_level == self.buffer_level,
            s.running == (if self.running {
                1u8
            } else {
                0u8
            }),
    {
        MetricsSnapshot {
            frames_processed: self.frames_processed,
            underruns: self.underruns,
            overruns: self.overruns,
            buffer_level: self.buffer_level,
            running: if self.running {
                1
            } else {
                0
            },
        }
    }
}

impl Default for StreamMetrics {
    fn default() -> (m: StreamMetrics)
        ensures
            m == fresh_metrics(),
    {
        StreamMetrics::new()
    }
}

/// Fewest samples that a stream's ring has room for.
pub const MIN_BUFFER_SAMPLES: usize = 4096;

/// Samples in `ms` milliseconds of audio.
pub open spec fn samples_in(sample_rate: u32, channels: u16, ms: u32) -> int {
    sample_rate as int * channels as int * ms as int / 1000
}

/// Samples that a stream's ring has room for.
pub open spec fn ring_samples(config: AudioConfig) -> int {
    let n = samples_in(config.sample_rate, config.channels, config.jitter_buffer_ms);
    if n < MIN_BUFFER_SAMPLES {
        MIN_BUFFER_SAMPLES as int
    } else {
        n
    }
}

/// A ring for this configuration can be allocated.
pub open spec fn ring_fits(config: AudioConfig) -> bool {
    &&& config.sample_rate as int * config.channels as int * config.jitter_buffer_ms as int
        <= usize::MAX
    &&& ring_samples(config) * 2 <= isize::MAX
}

/// Whether a ring for this configuration can be allocated.
pub fn ring_can_be_allocated(config: &AudioConfig) -> (b: bool)
    ensures
        b == ring_fits(*config),
{
    let rate: u128 = config.sample_rate as u128;
    let channels: u128 = config.channels as u128;
    let ms: u128 = config.jitter_buffer_ms as u128;
    assert(0 <= rate * channels <= 0xFFFF_FFFF * 0xFFFF) by (nonlinear_arith)
        requires
            0 <= rate <= 0xFFFF_FFFF,
            0 <= channels <= 0xFFFF,
    ;
    assert(0 <= rate * channels * ms <= 0xFFFF_FFFF * 0xFFFF * 0xFFFF_FFFF) by (nonlinear_arith)
        requires
            0 <= rate * channels <= 0xFFFF_FFFF * 0xFFFF,
            0 <= ms <= 0xFFFF_FFFF,
    ;
    let total: u128 = rate * channels * ms;
    let samples: u128 = if total / 1000 < 4096 {
        4096
    } else {
        total / 1000
    };
    total <= usize::MAX as u128 && samples * 2 <= isize::MAX as u128
}

/// The serialized forms of packets.
pub open spec fn wire_forms(wire: Seq<Vec<u8>>, packets: Seq<DcfFrame>) -> bool {
    &&& wire.len() == packets.len()
    &&& forall|i: int|
        0 <= i < wire.len() ==> (#[trigger] wire[i])@ == dcf::frame_bytes(
            packets[i].header,
            packets[i].payload@,
        )
}

/// The audio pipeline. It keeps the configuration, and hands out a fresh ring for every
/// stream session, so that a device can come back after it went away.
#[derive(Debug)]
pub struct AudioPipeline {
    pub config: AudioConfig,
    pub metrics: StreamMetrics,
    /// The packet numbering.
    pub dcf_transport: DcfTransport,
    /// Streams started so far.
    pub stream_generation: u32,
}

impl AudioPipeline {
    /// A pipeline with the given configuration. No ring is allocated yet.
    pub fn new(config: AudioConfig) -> (p: AudioPipeline)
        ensures
            p.config == config,
            p.metrics == fresh_metrics(),
            p.stream_generation == 0,
            p.dcf_transport.next_sequence() == 0,
            p.dcf_transport.next_frame_id() == 0,
            p.dcf_transport.payload_limit() == (if config.dcf_payload_size <= dcf::DCF_MAX_PAYLOAD {
                config.dcf_payload_size
            } else {
                dcf::DCF_MAX_PAYLOAD
            }),
    {
        let dcf_transport = DcfTransport::new(config.dcf_payload_size);
        AudioPipeline { config, metrics: StreamMetrics::new(), dcf_transport, stream_generation: 0 }
    }

    /// Samples that a stream's ring has room for: what the jitter buffer depth asks for, but
    /// never too few to work with.
    pub fn buffer_samples(&self) -> (n: usize)
        requires
            ring_fits(self.config),
        ensures
            n == ring_samples(self.config),
    {
        let rate: usize = self.config.sample_rate as usize;
        let channels: usize = self.config.channels as usize;
        let ms: usize = self.config.jitter_buffer_ms as usize;
        if ms == 0 || channels == 0 || rate == 0 {
            assert(rate * channels * ms == 0) by (nonlinear_arith)
                requires
                    ms == 0 || channels == 0 || rate == 0,
            ;
            return MIN_BUFFER_SAMPLES;
        }
        assert(rate * channels <= rate * channels * ms) by (nonlinear_arith)
            requires
                ms >= 1,
                rate >= 0,
                channels >= 0,
        ;
        let n: usize = rate * channels * ms / 1000;
        if n < MIN_BUFFER_SAMPLES {
            MIN_BUFFER_SAMPLES
        } else {
            n
        }
    }

    /// Starts a stream session: hands out the two ends of a fresh, empty ring, counts the
    /// session and clears the metrics. It can be called again for every reconnection.
    pub fn create_stream_buffers(&mut self) -> (ends: (Producer<i16>, Consumer<i16>))
        requires
            ring_fits(old(self).config),
            old(self).stream_generation < u32::MAX,
        ensures
            ring::same_ring(ends.0, ends.1),
            ring::producer_capacity(ends.0) == ring_samples(old(self).config),
            ring::producer_written(ends.0) == Seq::<i16>::empty(),
            ring::consumer_read(ends.1) == Seq::<i16>::empty(),
            ring::consumer_waiting(ends.1) == 0,
            ring::producer_room(ends.0) == ring::producer_capacity(ends.0),
            final(self).stream_generation == old(self).stream_generation + 1,
            final(self).metrics == fresh_metrics(),
            final(self).config == old(self).config,
            final(self).dcf_transport == old(self).dcf_transport,
    {
        let capacity: usize = self.buffer_samples();
        self.stream_generation = self.stream_generation + 1;
        self.metrics = StreamMetrics::new();
        ring::new_ring(capacity)
    }

    /// The packet numbering, for packing audio.
    pub fn dcf_transport(&mut self) -> (t: &mut DcfTransport)
        ensures
            *t == old(self).dcf_transport,
            final(self).dcf_transport == *final(t),
            final(self).config == old(self).config,
            final(self).metrics == old(self).metrics,
            final(self).stream_generation == old(self).stream_generation,
    {
        &mut self.dcf_transport
    }

    /// The metrics of the current stream.
    pub fn metrics(&self) -> (m: StreamMetrics)
        ensures
            m == self.metrics,
    {
        self.metrics
    }

    /// Streams started so far.
    pub fn generation(&self) -> (n: u32)
        ensures
            n == self.stream_generation,
    {
        self.stream_generation
    }

    /// Packs a codec frame and serializes the packets.
    pub fn packetize_audio(&mut self, codec_frame: &[u8]) -> (wire: Vec<Vec<u8>>)
        requires
            dcf::can_pack(codec_frame@.len() as int, old(self).dcf_transport.payload_limit()),
        ensures
            exists|packets: Seq<DcfFrame>|
                #![auto]
                dcf::packets_carry(
                    packets,
                    codec_frame@,
                    old(self).dcf_transport.next_sequence(),
                    old(self).dcf_transport.payload_limit(),
                    old(self).dcf_transport.next_frame_id(),
                ) && wire_forms(wire@, packets),
            final(self).dcf_transport.next_sequence() == dcf::sequence_after(
                old(self).dcf_transport.next_sequence(),
                wire@.len() as int,
            ),
            final(self).dcf_transport.next_frame_id() == (old(self).dcf_transport.next_frame_id() + 1)
                % 0x1_0000,
            final(self).dcf_transport.payload_limit() == old(self).dcf_transport.payload_limit(),
            final(self).config == old(self).config,
            final(self).metrics == old(self).metrics,
            final(self).stream_generation == old(self).stream_generation,
    {
        let packets: Vec<DcfFrame> = self.dcf_transport.packetize(codec_frame);
        let mut wire: Vec<Vec<u8>> = Vec::new();
        let mut i: usize = 0;
        while i < packets.len()
            invariant
                i <= packets@.len(),
                wire@.len() == i,
                forall|j: int|
                    0 <= j < i ==> (#[trigger] wire@[j])@ == dcf::frame_bytes(
                        packets@[j].header,
                        packets@[j].payload@,
                    ),
            decreases packets.len() - i,
        {
            wire.push(packets[i].serialize());
            i += 1;
        }
        assert(wire_forms(wire@, packets@));
        wire
    }
}

/// Failures of the pipeline.
#[derive(Debug)]
pub enum TransportError {
    NotInitialized(String),
    DeviceError(String),
    BufferError(String),
}

impl TransportError {
    /// The text of an error.
    pub open spec fn text(self) -> Seq<char> {
        match self {
            TransportError::NotInitialized(s) => "Pipeline not initialized: "@ + s@,
            TransportError::DeviceError(s) => "Audio device error: "@ + s@,
            TransportError::BufferError(s) => "Ring buffer error: "@ + s@,
        }
    }

    /// The text of an error.
    pub fn message(&self) -> (s: String)
        ensures
            s@ == self.text(),
    {
        match self {
            TransportError::NotInitialized(s) => text::joined(
                "Pipeline not initialized: ",
                s.as_str(),
            ),
            TransportError::DeviceError(s) => text::joined("Audio device error: ", s.as_str()),
            TransportError::BufferError(s) => text::joined("Ring buffer error: ", s.as_str()),
        }
    }
}

/// A ring has room for the whole jitter buffer depth, and never for fewer than 4096 samples;
/// it is no larger than that asks for.
pub proof fn law_ring_samples(config: AudioConfig)
    ensures
        ({
            let total = config.sample_rate * config.channels * config.jitter_buffer_ms;
            let n = ring_samples(config);
            &&& n >= 4096
            &&& total < 1000 * (n + 1)
            &&& n > 4096 ==> 1000 * n <= total
        }),
{
}

/// The wire form of each packet stands at the packet's place.
pub proof fn law_wire_forms(wire: Seq<Vec<u8>>, packets: Seq<DcfFrame>, i: int)
    requires
        wire_forms(wire, packets),
        0 <= i < packets.len(),
    ensures
        wire.len() == packets.len(),
        wire[i]@.len() == 17 + packets[i].payload@.len(),
        wire[i]@.take(17) == dcf::header_bytes(packets[i].header),
        wire[i]@.skip(17) == packets[i].payload@,
{
    let f = packets[i];
    dcf::law_header_layout(f.header);
    assert(wire[i]@ == dcf::frame_bytes(f.header, f.payload@));
    assert(wire[i]@.take(17) =~= dcf::header_bytes(f.header));
    assert(wire[i]@.skip(17) =~= f.payload@);
}

/// A stream that has not started has counted nothing, and does not run.
pub proof fn law_fresh_metrics()
    ensures
        fresh_metrics().frames_processed == 0,
        fresh_metrics().underruns == 0,
        fresh_metrics().overruns == 0,
        fresh_metrics().buffer_level == 0,
        !fresh_metrics().running,
{
}

/// A failure of the pipeline says what failed, and why.
pub proof fn law_transport_errors_say_why(s: String)
    ensures
        text::begins_and_ends(
            TransportError::NotInitialized(s).text(),
            "Pipeline not initialized: "@,
            s@,
        ),
        text::begins_and_ends(TransportError::DeviceError(s).text(), "Audio device error: "@, s@),
        text::begins_and_ends(TransportError::BufferError(s).text(), "Ring buffer error: "@, s@),
{
    text::lemma_joined_parts("Pipeline not initialized: "@, s@);
    text::lemma_joined_parts("Audio device error: "@, s@);
    text::lemma_joined_parts("Ring buffer error: "@, s@);
}

} // verus!
