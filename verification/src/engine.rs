//! The streaming engine: what the audio callbacks and the Bluetooth threads do with
//! samples and bytes, between the ring buffer and the codec.

use vstd::arithmetic::power2::pow2;
use vstd::prelude::*;

use rtrb::{Consumer, Producer};

use crate::codec;
use crate::codec::{CodecError, LiveCodec, OpenedContext, SbcCodecLive};
use crate::ring;
use crate::sbc_ffi::{SbcContext, SbcError};
use crate::text;

verus! {

// ---------------------------------------------------------------------------------
// Volume
// ---------------------------------------------------------------------------------

/// Full volume on the AVRCP scale.
pub const MAX_VOLUME: u16 = 127;

/// Brings a volume into the AVRCP scale.
pub fn clamp_volume(volume: u16) -> (v: u16)
    ensures
        v == (if volume <= MAX_VOLUME {
            volume
        } else {
            MAX_VOLUME
        }),
{
    if volume <= MAX_VOLUME {
        volume
    } else {
        MAX_VOLUME
    }
}

/// A sample at a volume: that share of it, rounded towards zero.
pub open spec fn scaled(x: int, volume: u16) -> int {
    if volume >= MAX_VOLUME {
        x
    } else if x >= 0 {
        x * volume / 127
    } else {
        -((-x) * volume / 127)
    }
}

/// Scaling never makes a sample louder and never changes its sign, zero volume is silence
/// and full volume changes nothing.
pub proof fn law_scaling_attenuates(x: int, volume: u16)
    ensures
        x >= 0 ==> 0 <= scaled(x, volume) <= x,
        x <= 0 ==> x <= scaled(x, volume) <= 0,
        volume == 0 ==> scaled(x, volume) == 0,
        volume >= MAX_VOLUME ==> scaled(x, volume) == x,
{
    let m = if x >= 0 {
        x
    } else {
        -x
    };
    if volume < MAX_VOLUME {
        assert(0 <= m * volume <= m * 127) by (nonlinear_arith)
            requires
                m >= 0,
                0 <= volume < 127,
        ;
        assert(volume == 0 ==> m * volume == 0) by (nonlinear_arith);
    }
}

/// A higher volume is at least as loud.
pub proof fn law_scaling_is_monotone(x: int, a: u16, b: u16)
    requires
        a <= b,
        x >= 0,
    ensures
        scaled(x, a) <= scaled(x, b),
        scaled(-x, b) <= scaled(-x, a),
{
    law_scaling_attenuates(x, a);
    law_scaling_attenuates(-x, a);
    assert(x * a <= x * b) by (nonlinear_arith)
        requires
            a <= b,
            x >= 0,
    ;
}

/// Scales one sample.
fn scale(x: i16, volume: u16) -> (y: i16)
    ensures
        y == scaled(x as int, volume),
{
    if volume >= MAX_VOLUME {
        return x;
    }
    let wide: i32 = x as i32;
    let vol: i32 = volume as i32;
    assert(-32768 * 127 <= wide * vol <= 32767 * 127) by (nonlinear_arith)
        requires
            -32768 <= wide <= 32767,
            0 <= vol <= 127,
    ;
    proof {
        law_scaling_attenuates(x as int, volume);
        assert((-wide) * vol == -(wide * vol)) by (nonlinear_arith);
        assert(wide >= 0 ==> wide * vol >= 0) by (nonlinear_arith)
            requires
                0 <= vol,
        ;
        assert(wide <= 0 ==> wide * vol <= 0) by (nonlinear_arith)
            requires
                0 <= vol,
        ;
    }
    ((wide * vol) / 127) as i16
}

// ---------------------------------------------------------------------------------
// Audio callbacks
// ---------------------------------------------------------------------------------

/// What an output callback did.
#[derive(Debug, Clone, Copy, PartialEq, Eq, Structural)]
pub struct OutputReport {
    /// Samples taken from the ring; the rest was silence.
    pub filled: usize,
    /// Some samples were played, so one more frame counts as processed.
    pub played: bool,
    /// Too few samples were there, so one more underrun counts.
    pub starved: bool,
    /// Samples left waiting.
    pub level: u32,
}

/// Sample `i` of the output, when the first `filled` samples are there.
pub open spec fn output_sample(samples: Seq<i16>, filled: int, volume: u16, i: int) -> int {
    scaled(
        if i < filled {
            samples[i] as int
        } else {
            0
        },
        volume,
    )
}

/// Completes an output block of which the first `filled` samples are there: the rest
/// becomes silence, and the whole is brought to the volume.
pub fn finish_output(data: &mut [i16], filled: usize, volume: u16)
    requires
        filled <= old(data)@.len(),
    ensures
        final(data)@.len() == old(data)@.len(),
        forall|i: int|
            0 <= i < final(data)@.len() ==> #[trigger] final(data)@[i] == output_sample(
                old(data)@,
                filled as int,
                volume,
                i,
            ),
{
    let mut i: usize = 0;
    let n: usize = data.len();
    while i < n
        invariant
            n == data@.len(),
            n == old(data)@.len(),
            i <= n,
            filled <= n,
            forall|j: int|
                0 <= j < i ==> #[trigger] data@[j] == output_sample(
                    old(data)@,
                    filled as int,
                    volume,
                    j,
                ),
            forall|j: int| i <= j < n ==> data@[j] == old(data)@[j],
        decreases n - i,
    {
        let x: i16 = if i < filled {
            data[i]
        } else {
            0
        };
        data[i] = scale(x, volume);
        i += 1;
    }
}

/// Plays from a ring in which `available` samples are known to be waiting: as many of them
/// as the block has room for, and silence for the rest, at the volume. Returns how many were
/// played.
pub fn play_available(
    consumer: &mut Consumer<i16>,
    available: usize,
    data: &mut [i16],
    volume: u16,
) -> (filled: usize)
    requires
        available <= ring::consumer_waiting(*old(consumer)),
    ensures
        final(data)@.len() == old(data)@.len(),
        filled == (if available >= old(data)@.len() {
            old(data)@.len() as int
        } else {
            available as int
        }),
        ring::consumer_capacity(*final(consumer)) == ring::consumer_capacity(*old(consumer)),
        ring::consumer_tape(*final(consumer)) == ring::consumer_tape(*old(consumer)),
        ring::consumer_read(*final(consumer)).len() == ring::consumer_read(*old(consumer)).len()
            + filled,
        ring::consumer_read(*old(consumer)).is_prefix_of(ring::consumer_read(*final(consumer))),
        ring::consumer_read(*final(consumer)).is_prefix_of(ring::consumer_tape(*final(consumer))),
        forall|i: int|
            0 <= i < final(data)@.len() ==> #[trigger] final(data)@[i] == output_sample(
                ring::consumer_read(*final(consumer)).skip(
                    ring::consumer_read(*old(consumer)).len() as int,
                ),
                filled as int,
                volume,
                i,
            ),
{
    let needed: usize = data.len();
    let filled: usize = if available >= needed {
        needed
    } else {
        available
    };
    let ghost before = ring::consumer_read(*consumer);
    let (front, _rest) = data.split_at_mut(filled);
    let _popped: bool = ring::pop_all(consumer, front);
    let ghost taken = data@.take(filled as int);
    assert(ring::consumer_read(*consumer) == before + taken);
    assert(ring::consumer_read(*consumer).skip(before.len() as int) =~= taken);
    finish_output(data, filled, volume);
    filled
}

/// The output callback: looks how many samples are waiting and plays them, up to a full
/// block, with silence for the rest. If a full block is known to be waiting, it is played in
/// full.
pub fn render_output(consumer: &mut Consumer<i16>, data: &mut [i16], volume: u16) -> (r:
    OutputReport)
    ensures
        final(data)@.len() == old(data)@.len(),
        r.filled <= old(data)@.len(),
        ring::consumer_capacity(*final(consumer)) == ring::consumer_capacity(*old(consumer)),
        ring::consumer_tape(*final(consumer)) == ring::consumer_tape(*old(consumer)),
        ring::consumer_read(*final(consumer)).len() == ring::consumer_read(*old(consumer)).len()
            + r.filled,
        ring::consumer_read(*old(consumer)).is_prefix_of(ring::consumer_read(*final(consumer))),
        ring::consumer_read(*final(consumer)).is_prefix_of(ring::consumer_tape(*final(consumer))),
        forall|i: int|
            0 <= i < final(data)@.len() ==> #[trigger] final(data)@[i] == output_sample(
                ring::consumer_read(*final(consumer)).skip(
                    ring::consumer_read(*old(consumer)).len() as int,
                ),
                r.filled as int,
                volume,
                i,
            ),
        ring::consumer_waiting(*old(consumer)) >= old(data)@.len() ==> r.filled
            == old(data)@.len(),
        ring::consumer_waiting(*old(consumer)) < old(data)@.len() ==> r.filled
            >= ring::consumer_waiting(*old(consumer)),
        r.played == (r.filled > 0),
        r.starved == (r.filled < old(data)@.len()),
        ring::consumer_capacity(*old(consumer)) <= u32::MAX ==> r.level
            == ring::consumer_waiting(*final(consumer)),
{
    let needed: usize = data.len();
    let available: usize = ring::waiting(consumer);
    let filled: usize = play_available(consumer, available, data, volume);
    let level: usize = ring::waiting(consumer);
    OutputReport { filled, played: filled > 0, starved: filled < needed, level: level as u32 }
}

/// What is played at full volume is what went into the ring, in the same order: of a block
/// that starts when `start` samples were played already, the samples that were there are
/// those that follow in the ring.
pub proof fn law_playback_in_order(
    p: Producer<i16>,
    c: Consumer<i16>,
    start: int,
    filled: int,
    volume: u16,
    i: int,
)
    requires
        ring::same_ring(p, c),
        volume >= MAX_VOLUME,
        0 <= start,
        start + filled == ring::consumer_read(c).len(),
        0 <= i < filled,
        start + i < ring::producer_written(p).len(),
    ensures
        output_sample(ring::consumer_read(c).skip(start), filled, volume, i)
            == ring::producer_written(p)[start + i],
{
    ring::law_ring_is_fifo(p, c, start + i);
}

/// The input callback: puts a block of captured samples into the ring. It is dropped as a
/// whole when it does not fit, which counts as an overrun.
pub fn capture_input(producer: &mut Producer<i16>, data: &[i16]) -> (taken: bool)
    ensures
        ring::producer_capacity(*final(producer)) == ring::producer_capacity(*old(producer)),
        ring::producer_tape(*final(producer)) == ring::producer_tape(*old(producer)),
        ring::producer_written(*final(producer)) == (if taken {
            ring::producer_written(*old(producer)) + data@
        } else {
            ring::producer_written(*old(producer))
        }),
        ring::producer_written(*final(producer)).is_prefix_of(
            ring::producer_tape(*final(producer)),
        ),
        ring::producer_written(*old(producer)).len() + data@.len() <= ring::producer_capacity(
            *old(producer),
        ) ==> taken,
        data@.len() > ring::producer_capacity(*old(producer)) ==> !taken,
        data@.len() <= ring::producer_room(*old(producer)) ==> taken,
        taken ==> ring::producer_room(*final(producer)) >= ring::producer_room(*old(producer))
            - data@.len(),
        !taken ==> ring::producer_room(*old(producer)) <= ring::producer_room(*final(producer))
            < data@.len(),
        ring::producer_room(*final(producer)) <= ring::producer_capacity(*final(producer)),
{
    ring::push_all(producer, data)
}

// ---------------------------------------------------------------------------------
// Reading from Bluetooth
// ---------------------------------------------------------------------------------

/// How a read from the Bluetooth socket ended.
#[derive(Debug, Clone, Copy, PartialEq, Eq, Structural)]
pub enum ReadOutcome {
    Bytes(usize),
    Interrupted,
    WouldBlock,
    Failed,
}

/// What the reader thread does next.
#[derive(Debug, Clone, Copy, PartialEq, Eq, Structural)]
pub enum ReadAction {
    /// Decode what was read.
    Decode,
    /// Read again.
    Retry,
    /// Let other threads run, and read again.
    Yield,
    /// The stream is over.
    Stop,
}

/// What the reader thread does after a read. A read of nothing is the end of the stream.
pub fn after_read(outcome: ReadOutcome) -> (a: ReadAction)
    ensures
        a == match outcome {
            ReadOutcome::Bytes(n) => if n == 0 {
                ReadAction::Stop
            } else {
                ReadAction::Decode
            },
            ReadOutcome::Interrupted => ReadAction::Retry,
            ReadOutcome::WouldBlock => ReadAction::Yield,
            ReadOutcome::Failed => ReadAction::Stop,
        },
{
    match outcome {
        ReadOutcome::Bytes(n) => {
            if n == 0 {
                ReadAction::Stop
            } else {
                ReadAction::Decode
            }
        },
        ReadOutcome::Interrupted => ReadAction::Retry,
        ReadOutcome::WouldBlock => ReadAction::Yield,
        ReadOutcome::Failed => ReadAction::Stop,
    }
}

/// The samples of a decoded frame.
pub open spec fn decoded_pcm(bytes: Seq<u8>) -> Seq<i16> {
    Seq::new(bytes.len() / 2, |i: int| codec::pcm_sample(bytes, i) as i16)
}

/// The samples that conceal a lost frame.
pub open spec fn concealed_pcm(good: Seq<i16>, losses: nat, room: nat) -> Seq<i16> {
    Seq::new(
        codec::concealed_len(good, room),
        |i: int| codec::concealed_sample(good, losses, i) as i16,
    )
}

/// The decoding side of a stream: bytes that were read and not decoded yet, and the codec.
/// Frames are decoded one by one; what is left waits for more bytes. Where decoding fails,
/// bytes are skipped until it succeeds again, and every frame's length of skipped bytes
/// counts as one lost frame.
#[derive(Debug)]
pub struct BtReader {
    codec: SbcCodecLive,
    frame_len: usize,
    pcm: Vec<i16>,
    pending: Vec<u8>,
    offset: usize,
    covered: usize,
}

impl BtReader {
    /// What every operation keeps.
    pub closed spec fn wf(&self) -> bool {
        &&& self.codec.opened()
        &&& self.frame_len > 0
        &&& self.offset <= self.pending@.len()
        &&& self.covered < self.frame_len
    }

    /// Bytes that were read and not decoded yet.
    pub closed spec fn unread(&self) -> Seq<u8> {
        self.pending@.skip(self.offset as int)
    }

    /// Fewest bytes that are tried as a frame.
    pub closed spec fn frame_size(&self) -> nat {
        self.frame_len as nat
    }

    /// Most samples that a frame decodes to.
    pub closed spec fn room(&self) -> nat {
        self.pcm@.len()
    }

    /// How many more bytes can be skipped that belong to the lost frame that was concealed
    /// last.
    pub closed spec fn still_covered(&self) -> nat {
        self.covered as nat
    }

    /// The codec.
    pub closed spec fn decoder(&self) -> SbcCodecLive {
        self.codec
    }

    /// Takes the outcome of opening an SBC context, with the frame length and the code size
    /// that the library reports for it. There is room for four times the samples of a frame.
    pub fn open(context: Result<SbcContext, SbcError>, frame_len: usize, codesize: usize) -> (r:
        Result<BtReader, CodecError>)
        requires
            context is Ok ==> frame_len > 0 && codesize / 2 * 4 <= usize::MAX,
        ensures
            r is Ok <==> context is Ok,
            context matches Err(e) ==> r->Err_0@ == codec::codec_error_of_sbc(e),
            r matches Ok(reader) ==> {
                &&& reader.wf()
                &&& reader.unread() == Seq::<u8>::empty()
                &&& reader.frame_size() == frame_len
                &&& reader.room() == codesize / 2 * 4
                &&& reader.still_covered() == 0
                &&& reader.decoder().last_good() == Seq::<i16>::empty()
                &&& reader.decoder().losses() == 0
            },
    {
        let ghost sbc = codec::AudioCodec::Sbc;
        assert(sbc.code() == 0x00u8);
        match codec::create_codec(0x00, OpenedContext::Sbc(context)) {
            Ok(LiveCodec::Sbc(live)) => {
                let frame_len: usize = live.frame_length(frame_len);
                let codesize: usize = live.codesize(codesize);
                let pcm: Vec<i16> = vec![0i16; codesize / 2 * 4];
                let pending: Vec<u8> = Vec::new();
                assert(pending@.skip(0) =~= Seq::<u8>::empty());
                Ok(BtReader { codec: live, frame_len, pcm, pending, offset: 0, covered: 0 })
            },
            Ok(LiveCodec::Lc3(_)) => {
                assert(false);
                Err(CodecError::Unsupported("LC3".to_owned()))
            },
            Err(e) => Err(e),
        }
    }

    /// Takes bytes that were read.
    pub fn feed(&mut self, bytes: &[u8])
        requires
            old(self).wf(),
        ensures
            final(self).wf(),
            final(self).unread() == old(self).unread() + bytes@,
            final(self).frame_size() == old(self).frame_size(),
            final(self).room() == old(self).room(),
            final(self).still_covered() == old(self).still_covered(),
            final(self).decoder() == old(self).decoder(),
    {
        let mut pending: Vec<u8> = Vec::new();
        pending.extend_from_slice(&self.pending.as_slice()[self.offset..self.pending.len()]);
        pending.extend_from_slice(bytes);
        self.pending = pending;
        self.offset = 0;
        assert(self.unread() =~= old(self).unread() + bytes@);
    }

    /// Whether there are enough bytes to try as a frame.
    pub fn frame_ready(&self) -> (b: bool)
        requires
            self.wf(),
        ensures
            b == (self.unread().len() >= self.frame_size()),
    {
        self.pending.len() - self.offset >= self.frame_len
    }

    /// The bytes to decode from: all that are not decoded yet.
    pub fn window(&self) -> (bytes: &[u8])
        requires
            self.wf(),
        ensures
            bytes@ == self.unread(),
    {
        let bytes = &self.pending.as_slice()[self.offset..self.pending.len()];
        assert(bytes@ =~= self.unread());
        bytes
    }

    /// Most samples that a frame decodes to.
    pub fn pcm_room(&self) -> (n: usize)
        ensures
            n == self.room(),
    {
        self.pcm.len()
    }

    /// Frames concealed since the last good one.
    pub fn loss_count(&self) -> (n: u32)
        ensures
            n == self.decoder().losses(),
    {
        self.codec.loss_count()
    }

    /// Takes the decoder's reply for the window: the bytes it consumed and the PCM bytes it
    /// wrote. A decoded frame goes into the ring. After an error one byte is skipped to find
    /// the next frame. The first such byte is the loss of a frame, for which a concealed frame
    /// goes into the ring; the next loss comes when a further frame's length was skipped. Says
    /// whether samples were dropped because the ring is full, which counts as an overrun.
    pub fn accept(
        &mut self,
        reply: Result<(usize, &[u8]), SbcError>,
        producer: &mut Producer<i16>,
    ) -> (overrun: bool)
        requires
            old(self).wf(),
            old(self).unread().len() >= old(self).frame_size(),
            reply matches Ok(p) ==> p.0 <= old(self).unread().len() && p.1@.len() / 2 <= old(
                self,
            ).room(),
            reply is Err && old(self).still_covered() == 0 ==> old(self).decoder().losses()
                < u32::MAX,
        ensures
            final(self).wf(),
            final(self).frame_size() == old(self).frame_size(),
            final(self).room() == old(self).room(),
            ring::producer_capacity(*final(producer)) == ring::producer_capacity(*old(producer)),
            ring::producer_tape(*final(producer)) == ring::producer_tape(*old(producer)),
            ring::producer_written(*old(producer)).is_prefix_of(ring::producer_tape(*old(producer)))
                ==> ring::producer_written(*final(producer)).is_prefix_of(
                ring::producer_tape(*final(producer)),
            ),
            final(self).unread() == old(self).unread().skip(step_bytes(reply) as int),
            final(self).still_covered() == step_covered(
                reply,
                old(self).still_covered(),
                old(self).frame_size(),
            ),
            final(self).decoder().last_good() == step_good(reply, old(self).decoder().last_good()),
            final(self).decoder().losses() == step_losses(
                reply,
                old(self).still_covered(),
                old(self).decoder().last_good(),
                old(self).decoder().losses(),
            ),
            ({
                let pcm = step_pcm(
                    reply,
                    old(self).still_covered(),
                    old(self).decoder().last_good(),
                    old(self).decoder().losses(),
                    old(self).room(),
                );
                let written = ring::producer_written(*old(producer));
                let capacity = ring::producer_capacity(*old(producer));
                &&& ring::producer_written(*final(producer)) == (if overrun {
                    written
                } else {
                    written + pcm
                })
                &&& written.len() + pcm.len() <= capacity ==> !overrun
                &&& pcm.len() > capacity ==> overrun
                &&& pcm.len() == 0 ==> !overrun
                &&& pcm.len() <= ring::producer_room(*old(producer)) ==> !overrun
                &&& !overrun ==> ring::producer_room(*final(producer)) >= ring::producer_room(
                    *old(producer),
                ) - pcm.len()
                &&& overrun ==> ring::producer_room(*old(producer)) <= ring::producer_room(
                    *final(producer),
                ) < pcm.len()
            }),
    {
        let failed: bool = reply.is_err();
        let end: usize = self.pending.len();
        assert(self.offset + step_bytes(reply) <= end);
        let n: usize = match self.codec.decode_frame(reply, self.pcm.as_mut_slice()) {
            Ok((consumed, samples)) => {
                self.offset = self.offset + consumed;
                self.covered = 0;
                samples
            },
            Err(_) => {
                self.offset = self.offset + 1;
                if self.covered > 0 {
                    self.covered = self.covered - 1;
                    0
                } else {
                    self.covered = self.frame_len - 1;
                    match self.codec.plc(self.pcm.as_mut_slice()) {
                        Ok(samples) => samples,
                        Err(_) => 0,
                    }
                }
            },
        };
        let ghost pcm = step_pcm(
            reply,
            old(self).still_covered(),
            old(self).decoder().last_good(),
            old(self).decoder().losses(),
            old(self).room(),
        );
        proof {
            let good = old(self).decoder().last_good();
            let losses = old(self).decoder().losses();
            if failed {
                assert forall|i: int| 0 <= i < n implies #[trigger] self.pcm@[i] == pcm[i] by {
                    if good.len() > 0 {
                        codec::law_concealment_fades(good, losses, i);
                    }
                }
            }
            assert(self.pcm@.take(n as int) =~= pcm);
            if !failed && n > 0 {
                assert(self.codec.last_good() == pcm);
            }
            assert(self.unread() =~= old(self).unread().skip(step_bytes(reply) as int));
        }
        if n == 0 {
            assert(pcm =~= Seq::<i16>::empty());
            assert(ring::producer_written(*producer) + pcm =~= ring::producer_written(*producer));
            return false;
        }
        !ring::push_all(producer, &self.pcm.as_slice()[0..n])
    }
}

/// Bytes that a decoding step uses up.
pub open spec fn step_bytes(reply: Result<(usize, &[u8]), SbcError>) -> nat {
    match reply {
        Ok(p) => p.0 as nat,
        Err(_) => 1,
    }
}

/// How many more bytes can be skipped after a decoding step that belong to the lost frame
/// that was concealed last.
pub open spec fn step_covered(
    reply: Result<(usize, &[u8]), SbcError>,
    covered: nat,
    frame: nat,
) -> nat {
    match reply {
        Ok(_) => 0,
        Err(_) => covered_after_skip(covered, frame),
    }
}

/// The same after one more byte was skipped: the byte belongs to the lost frame that was
/// concealed last, or else it begins another one.
pub open spec fn covered_after_skip(covered: nat, frame: nat) -> nat {
    if covered > 0 {
        (covered - 1) as nat
    } else {
        (frame - 1) as nat
    }
}

/// Samples that a decoding step brings forth.
pub open spec fn step_pcm(
    reply: Result<(usize, &[u8]), SbcError>,
    covered: nat,
    good: Seq<i16>,
    losses: nat,
    room: nat,
) -> Seq<i16> {
    match reply {
        Ok(p) => decoded_pcm(p.1@),
        Err(_) => if covered > 0 {
            Seq::empty()
        } else {
            concealed_pcm(good, losses, room)
        },
    }
}

/// The last good frame after a decoding step.
pub open spec fn step_good(reply: Result<(usize, &[u8]), SbcError>, good: Seq<i16>) -> Seq<i16> {
    match reply {
        Ok(p) => if decoded_pcm(p.1@).len() > 0 {
            decoded_pcm(p.1@)
        } else {
            good
        },
        Err(_) => good,
    }
}

/// The loss count after a decoding step.
pub open spec fn step_losses(
    reply: Result<(usize, &[u8]), SbcError>,
    covered: nat,
    good: Seq<i16>,
    losses: nat,
) -> nat {
    match reply {
        Ok(p) => if decoded_pcm(p.1@).len() > 0 {
            0
        } else {
            losses
        },
        Err(_) => if covered > 0 {
            losses
        } else {
            codec::concealed_losses(good, losses)
        },
    }
}

/// How many frames are concealed while `n` bytes are skipped one after the other.
pub open spec fn concealments(covered: nat, frame: nat, n: nat) -> nat
    decreases n,
{
    if n == 0 {
        0
    } else {
        (if covered > 0 {
            0nat
        } else {
            1nat
        }) + concealments(covered_after_skip(covered, frame), frame, (n - 1) as nat)
    }
}

/// A lost frame is concealed once: skipping `n` bytes brings one concealed frame for every
/// frame's length of them, and one for what is left over.
pub proof fn law_one_concealment_per_lost_frame(frame: nat, n: nat)
    requires
        frame > 0,
    ensures
        concealments(0, frame, n) == (n + frame - 1) / frame as int,
        n <= frame ==> concealments(0, frame, n) <= 1,
{
    lemma_concealments(0, frame, n);
    assert((frame - 1) / frame as int == 0) by (nonlinear_arith)
        requires
            frame > 0,
    ;
    assert(n <= frame ==> (n + frame - 1) / frame as int <= 1) by (nonlinear_arith)
        requires
            frame > 0,
    ;
}

proof fn lemma_concealments(covered: nat, frame: nat, n: nat)
    requires
        covered < frame,
    ensures
        concealments(covered, frame, n) == (if n <= covered {
            0
        } else {
            (n - covered + frame - 1) / frame as int
        }),
    decreases n,
{
    if n > 0 {
        let next = covered_after_skip(covered, frame);
        lemma_concealments(next, frame, (n - 1) as nat);
        if covered == 0 {
            if n <= frame {
                assert((n + frame - 1) / frame as int == 1) by (nonlinear_arith)
                    requires
                        1 <= n <= frame,
                ;
            } else {
                assert((n + frame - 1) / frame as int == 1 + (n - 1) / frame as int)
                    by (nonlinear_arith)
                    requires
                        frame > 0,
                ;
                assert((n - 1) - next + frame - 1 == n - 1);
            }
        }
    }
}

// ---------------------------------------------------------------------------------
// Writing to Bluetooth
// ---------------------------------------------------------------------------------

/// How a write to the Bluetooth socket ended.
#[derive(Debug, Clone, Copy, PartialEq, Eq, Structural)]
pub enum WriteOutcome {
    Done,
    BrokenPipe,
    Failed,
}

/// Whether the writer thread goes on after a write: only a closed transport ends it.
pub fn goes_on_after_write(outcome: WriteOutcome) -> (b: bool)
    ensures
        b == (outcome != WriteOutcome::BrokenPipe),
{
    match outcome {
        WriteOutcome::Done => true,
        WriteOutcome::BrokenPipe => false,
        WriteOutcome::Failed => true,
    }
}

/// The encoding side of a stream.
#[derive(Debug)]
pub struct BtWriter {
    codec: SbcCodecLive,
    samples_per_frame: usize,
    frame_room: usize,
}

impl BtWriter {
    /// What every operation keeps.
    pub closed spec fn wf(&self) -> bool {
        self.codec.opened()
    }

    /// Samples that make a frame.
    pub closed spec fn block(&self) -> nat {
        self.samples_per_frame as nat
    }

    /// Bytes that there is room for when a frame is encoded.
    pub closed spec fn room(&self) -> nat {
        self.frame_room as nat
    }

    /// Takes the outcome of opening an SBC context, with the frame length and the code size
    /// that the library reports for it. There is some room to spare beyond a frame.
    pub fn open(context: Result<SbcContext, SbcError>, frame_len: usize, codesize: usize) -> (r:
        Result<BtWriter, CodecError>)
        requires
            context is Ok ==> frame_len + 64 <= usize::MAX,
        ensures
            r is Ok <==> context is Ok,
            context matches Err(e) ==> r->Err_0@ == codec::codec_error_of_sbc(e),
            r matches Ok(w) ==> w.wf() && w.block() == codesize / 2 && w.room() == frame_len + 64,
    {
        let ghost sbc = codec::AudioCodec::Sbc;
        assert(sbc.code() == 0x00u8);
        match codec::create_codec(0x00, OpenedContext::Sbc(context)) {
            Ok(LiveCodec::Sbc(live)) => {
                let frame_len: usize = live.frame_length(frame_len);
                let codesize: usize = live.codesize(codesize);
                Ok(
                    BtWriter {
                        codec: live,
                        samples_per_frame: codesize / 2,
                        frame_room: frame_len + 64,
                    },
                )
            },
            Ok(LiveCodec::Lc3(_)) => {
                assert(false);
                Err(CodecError::Unsupported("LC3".to_owned()))
            },
            Err(e) => Err(e),
        }
    }

    /// Samples that make a frame.
    pub fn samples_per_frame(&self) -> (n: usize)
        ensures
            n == self.block(),
    {
        self.samples_per_frame
    }

    /// Bytes that there is room for when a frame is encoded.
    pub fn frame_room(&self) -> (n: usize)
        ensures
            n == self.room(),
    {
        self.frame_room
    }

    /// Takes the samples of one frame out of a ring in which `available` samples are known to
    /// be waiting, if these are enough.
    pub fn block_from(&self, consumer: &mut Consumer<i16>, available: usize) -> (r: Option<
        Vec<i16>,
    >)
        requires
            available <= ring::consumer_waiting(*old(consumer)),
        ensures
            ring::consumer_capacity(*final(consumer)) == ring::consumer_capacity(*old(consumer)),
            ring::consumer_tape(*final(consumer)) == ring::consumer_tape(*old(consumer)),
            r is Some <==> available >= self.block(),
            r matches Some(pcm) ==> pcm@.len() == self.block() && ring::consumer_read(
                *final(consumer),
            ) == ring::consumer_read(*old(consumer)) + pcm@ && ring::consumer_read(
                *final(consumer),
            ).is_prefix_of(ring::consumer_tape(*final(consumer))),
            r is None ==> *final(consumer) == *old(consumer),
    {
        if available < self.samples_per_frame {
            return None;
        }
        let mut pcm: Vec<i16> = vec![0i16; self.samples_per_frame];
        let _popped: bool = ring::pop_all(consumer, pcm.as_mut_slice());
        Some(pcm)
    }

    /// Takes the samples of one frame out of the ring, if that many are waiting.
    pub fn next_block(&self, consumer: &mut Consumer<i16>) -> (r: Option<Vec<i16>>)
        ensures
            ring::consumer_capacity(*final(consumer)) == ring::consumer_capacity(*old(consumer)),
            ring::consumer_tape(*final(consumer)) == ring::consumer_tape(*old(consumer)),
            ring::consumer_waiting(*old(consumer)) >= self.block() ==> r is Some,
            self.block() > ring::consumer_capacity(*old(consumer)) ==> r is None,
            r matches Some(pcm) ==> pcm@.len() == self.block() && ring::consumer_read(
                *final(consumer),
            ) == ring::consumer_read(*old(consumer)) + pcm@ && ring::consumer_read(
                *final(consumer),
            ).is_prefix_of(ring::consumer_tape(*final(consumer))),
            r is None ==> ring::consumer_read(*final(consumer)) == ring::consumer_read(
                *old(consumer),
            ),
            r is None ==> ring::consumer_waiting(*final(consumer)) < self.block(),
    {
        let available: usize = ring::waiting(consumer);
        self.block_from(consumer, available)
    }

    /// Takes the encoder's reply for one frame, encoded into `buf`: the bytes to write, or
    /// the error, after which the stream goes on with the next frame.
    pub fn encoded<'a>(&self, reply: Result<(usize, usize), SbcError>, buf: &'a [u8]) -> (r: Result<
        &'a [u8],
        CodecError,
    >)
        requires
            self.wf(),
            reply matches Ok(p) ==> p.1 <= buf@.len(),
        ensures
            r is Ok <==> reply is Ok,
            r matches Ok(bytes) ==> bytes@ == buf@.take(reply->Ok_0.1 as int),
            r matches Err(e) ==> e@ == codec::codec_error_of_sbc(reply->Err_0),
    {
        match self.codec.encode_frame(reply) {
            Ok((_, written)) => {
                let bytes = &buf[0..written];
                assert(bytes@ =~= buf@.take(written as int));
                Ok(bytes)
            },
            Err(e) => Err(e),
        }
    }
}

// ---------------------------------------------------------------------------------
// Errors
// ---------------------------------------------------------------------------------

/// Failures to start an engine.
#[derive(Debug)]
pub enum EngineError {
    NoAudioDevice,
    AudioStreamFailed(String),
    ThreadSpawnFailed(String),
    CodecInitFailed(String),
}

impl EngineError {
    /// The text of an error.
    pub open spec fn text(self) -> Seq<char> {
        match self {
            EngineError::NoAudioDevice => "No audio device found"@,
            EngineError::AudioStreamFailed(s) => "Audio stream setup failed: "@ + s@,
            EngineError::ThreadSpawnFailed(s) => "Thread spawn failed: "@ + s@,
            EngineError::CodecInitFailed(s) => "Codec init failed: "@ + s@,
        }
    }

    /// The text of an error.
    pub fn message(&self) -> (s: String)
        ensures
            s@ == self.text(),
    {
        match self {
            EngineError::NoAudioDevice => "No audio device found".to_owned(),
            EngineError::AudioStreamFailed(s) => text::joined(
                "Audio stream setup failed: ",
                s.as_str(),
            ),
            EngineError::ThreadSpawnFailed(s) => text::joined("Thread spawn failed: ", s.as_str()),
            EngineError::CodecInitFailed(s) => text::joined("Codec init failed: ", s.as_str()),
        }
    }
}

// ---------------------------------------------------------------------------------
// Laws of what is heard
// ---------------------------------------------------------------------------------

/// A sample at a volume is that share of it out of 127, rounded towards zero.
pub proof fn law_scaled_is_the_share(x: int, volume: u16)
    requires
        volume <= 127,
    ensures
        x >= 0 ==> 127 * scaled(x, volume) <= x * volume < 127 * (scaled(x, volume) + 1),
        x <= 0 ==> 127 * (scaled(x, volume) - 1) < x * volume <= 127 * scaled(x, volume),
        x >= 0 ==> 0 <= scaled(x, volume) <= x,
        x <= 0 ==> x <= scaled(x, volume) <= 0,
{
    law_scaling_attenuates(x, volume);
    assert((-x) * volume == -(x * volume)) by (nonlinear_arith);
    assert(x * 127 == 127 * x);
    assert(volume == 127 ==> x * volume == x * 127);
}

/// What a block of output holds: silence where there was no sample, and the volume's share of
/// every sample that was there.
pub proof fn law_output_block(samples: Seq<i16>, filled: int, volume: u16, i: int)
    requires
        0 <= i,
        filled <= samples.len(),
    ensures
        i >= filled ==> output_sample(samples, filled, volume, i) == 0,
        i < filled && volume >= 127 ==> output_sample(samples, filled, volume, i) == samples[i],
        i < filled && volume <= 127 ==> {
            let x = samples[i] as int;
            let y = output_sample(samples, filled, volume, i);
            &&& x >= 0 ==> 127 * y <= x * volume < 127 * (y + 1)
            &&& x <= 0 ==> 127 * (y - 1) < x * volume <= 127 * y
        },
{
    law_scaling_attenuates(0, volume);
    if i < filled && volume <= 127 {
        law_scaled_is_the_share(samples[i] as int, volume);
    }
}

/// What is played at any volume is the volume's share of what went into the ring, in the same
/// order.
pub proof fn law_playback_share(
    p: Producer<i16>,
    c: Consumer<i16>,
    start: int,
    filled: int,
    volume: u16,
    i: int,
)
    requires
        ring::same_ring(p, c),
        volume <= 127,
        0 <= start,
        start + filled == ring::consumer_read(c).len(),
        0 <= i < filled,
        start + i < ring::producer_written(p).len(),
    ensures
        ({
            let x = ring::producer_written(p)[start + i] as int;
            let y = output_sample(ring::consumer_read(c).skip(start), filled, volume, i);
            &&& x >= 0 ==> 127 * y <= x * volume < 127 * (y + 1)
            &&& x <= 0 ==> 127 * (y - 1) < x * volume <= 127 * y
        }),
{
    ring::law_ring_is_fifo(p, c, start + i);
    law_output_block(ring::consumer_read(c).skip(start), filled, volume, i);
}

/// A decoded frame holds one sample for every two bytes: the number that they spell, low byte
/// first, in two's complement.
pub proof fn law_decoded_frame(bytes: Seq<u8>, i: int)
    requires
        0 <= i < bytes.len() / 2,
    ensures
        decoded_pcm(bytes).len() == bytes.len() / 2,
        (decoded_pcm(bytes)[i] - (bytes[2 * i] + 256 * bytes[2 * i + 1])) % 0x1_0000 == 0,
{
    codec::law_pcm_sample_value(bytes, i);
}

/// A concealed frame is the whole last good frame, as far as there is room: on the `k`-th loss
/// in a row every sample of it is a `2^k`-th of the good one, rounded down, and after the
/// eighth it is silence. Without a good frame all the room is silence.
pub proof fn law_concealed_frame(good: Seq<i16>, losses: nat, room: nat, i: int)
    requires
        0 <= i < concealed_pcm(good, losses, room).len(),
    ensures
        concealed_pcm(good, losses, room).len() == (if good.len() == 0 || room <= good.len() {
            room
        } else {
            good.len()
        }),
        good.len() == 0 ==> concealed_pcm(good, losses, room)[i] == 0,
        losses >= 8 ==> concealed_pcm(good, losses, room)[i] == 0,
        good.len() > 0 && losses < 8 ==> {
            let y = concealed_pcm(good, losses, room)[i] as int;
            let p = pow2(losses + 1) as int;
            p * y <= good[i] < p * (y + 1)
        },
{
    if good.len() > 0 {
        codec::law_concealment_fades(good, losses, i);
        codec::law_concealment_amplitude(good, losses, i);
    }
}

/// A frame that decodes to samples starts the fading over: the loss that follows it is
/// concealed with half of it.
pub proof fn law_good_frame_restarts_fading(
    consumed: usize,
    bytes: &[u8],
    covered: nat,
    good: Seq<i16>,
    losses: nat,
    room: nat,
    i: int,
)
    requires
        0 <= i < bytes@.len() / 2,
        i < room,
    ensures
        ({
            let reply: Result<(usize, &[u8]), SbcError> = Ok((consumed, bytes));
            let pcm = step_pcm(reply, covered, good, losses, room);
            let next = step_pcm(
                Err(SbcError::NotInitialized),
                step_covered(reply, covered, 1),
                step_good(reply, good),
                step_losses(reply, covered, good, losses),
                room,
            );
            &&& pcm.len() == bytes@.len() / 2
            &&& (pcm[i] - (bytes@[2 * i] + 256 * bytes@[2 * i + 1])) % 0x1_0000 == 0
            &&& i < next.len()
            &&& 2 * next[i] <= pcm[i] < 2 * (next[i] + 1)
            &&& step_bytes(reply) == consumed
        }),
{
    law_decoded_frame(bytes@, i);
    let pcm = decoded_pcm(bytes@);
    law_concealed_frame(pcm, 0, room, i);
    vstd::arithmetic::power2::lemma2_to64();
}

/// A skipped byte brings samples only where it begins a lost frame, and then one more loss is
/// counted and the good frame is kept for the next one.
pub proof fn law_skipped_byte(e: SbcError, covered: nat, good: Seq<i16>, losses: nat, room: nat)
    ensures
        ({
            let reply: Result<(usize, &[u8]), SbcError> = Err(e);
            &&& step_bytes(reply) == 1
            &&& step_good(reply, good) == good
            &&& covered > 0 ==> step_pcm(reply, covered, good, losses, room).len() == 0
                && step_losses(reply, covered, good, losses) == losses
            &&& covered == 0 ==> step_pcm(reply, covered, good, losses, room) == concealed_pcm(
                good,
                losses,
                room,
            )
            &&& covered == 0 && good.len() > 0 ==> step_losses(reply, covered, good, losses)
                == losses + 1
            &&& good.len() == 0 ==> step_losses(reply, covered, good, losses) == losses
        }),
{
}

/// A frame that decodes ends the lost one before it. A byte that is skipped uses up one of
/// those that the lost frame covers, and a byte beyond them begins another lost frame, of
/// which it is the first.
pub proof fn law_lost_frame_is_covered(
    consumed: usize,
    bytes: &[u8],
    e: SbcError,
    covered: nat,
    frame: nat,
)
    requires
        covered < frame,
    ensures
        step_covered(Ok((consumed, bytes)), covered, frame) == 0,
        covered > 0 ==> step_covered(Err(e), covered, frame) + 1 == covered,
        covered == 0 ==> step_covered(Err(e), covered, frame) + 1 == frame,
        step_covered(Err(e), covered, frame) < frame,
{
}

/// A reply without samples brings none, and changes neither the good frame nor the count of
/// losses.
pub proof fn law_reply_without_samples(
    consumed: usize,
    bytes: &[u8],
    covered: nat,
    good: Seq<i16>,
    losses: nat,
    room: nat,
)
    requires
        bytes@.len() < 2,
    ensures
        step_pcm(Ok((consumed, bytes)), covered, good, losses, room).len() == 0,
        step_good(Ok((consumed, bytes)), good) == good,
        step_losses(Ok((consumed, bytes)), covered, good, losses) == losses,
        step_bytes(Ok((consumed, bytes))) == consumed,
{
}

/// A failure to start says what failed, and why.
pub proof fn law_engine_errors_say_why(s: String)
    ensures
        text::begins_and_ends(
            EngineError::AudioStreamFailed(s).text(),
            "Audio stream setup failed: "@,
            s@,
        ),
        text::begins_and_ends(
            EngineError::ThreadSpawnFailed(s).text(),
            "Thread spawn failed: "@,
            s@,
        ),
        text::begins_and_ends(EngineError::CodecInitFailed(s).text(), "Codec init failed: "@, s@),
        EngineError::NoAudioDevice.text() == "No audio device found"@,
{
    text::lemma_joined_parts("Audio stream setup failed: "@, s@);
    text::lemma_joined_parts("Thread spawn failed: "@, s@);
    text::lemma_joined_parts("Codec init failed: "@, s@);
}

} // verus!
