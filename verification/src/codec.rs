//! Audio codecs: their identifiers and configuration, and the bookkeeping around the
//! system libraries that encode and decode, with the concealment of lost SBC frames.

use vstd::prelude::*;
use vstd::arithmetic::power2::pow2;

use crate::lc3_ffi::{Lc3Context, Lc3Error};
use crate::sbc_ffi::{SbcContext, SbcError};
use crate::text;

verus! {

// ---------------------------------------------------------------------------------
// Identifiers
// ---------------------------------------------------------------------------------

/// Supported audio codecs.
#[derive(Debug, Clone, Copy, PartialEq, Eq, Hash, Structural)]
pub enum AudioCodec {
    Sbc,
    Mpeg12,
    Aac,
    Lc3,
}

impl AudioCodec {
    /// The identifier by which the Bluetooth stack knows a codec.
    pub open spec fn code(self) -> u8 {
        match self {
            AudioCodec::Sbc => 0x00,
            AudioCodec::Mpeg12 => 0x01,
            AudioCodec::Aac => 0x02,
            AudioCodec::Lc3 => 0x06,
        }
    }

    /// The name of a codec.
    pub open spec fn text(self) -> Seq<char> {
        match self {
            AudioCodec::Sbc => "SBC"@,
            AudioCodec::Mpeg12 => "MPEG-1,2"@,
            AudioCodec::Aac => "AAC"@,
            AudioCodec::Lc3 => "LC3"@,
        }
    }

    /// The identifier of a codec.
    pub fn id(self) -> (id: u8)
        ensures
            id == self.code(),
    {
        match self {
            AudioCodec::Sbc => 0x00,
            AudioCodec::Mpeg12 => 0x01,
            AudioCodec::Aac => 0x02,
            AudioCodec::Lc3 => 0x06,
        }
    }

    /// The codec with identifier `id`, if there is one.
    pub fn from_id(id: u8) -> (r: Option<AudioCodec>)
        ensures
            r matches Some(c) ==> c.code() == id,
            r is None ==> forall|c: AudioCodec| c.code() != id,
    {
        match id {
            0x00 => Some(AudioCodec::Sbc),
            0x01 => Some(AudioCodec::Mpeg12),
            0x02 => Some(AudioCodec::Aac),
            0x06 => Some(AudioCodec::Lc3),
            _ => None,
        }
    }

    /// The name of a codec.
    pub fn name(self) -> (s: &'static str)
        ensures
            s@ == self.text(),
    {
        match self {
            AudioCodec::Sbc => "SBC",
            AudioCodec::Mpeg12 => "MPEG-1,2",
            AudioCodec::Aac => "AAC",
            AudioCodec::Lc3 => "LC3",
        }
    }
}

/// Codecs have distinct identifiers, so `from_id` undoes `id`.
pub proof fn law_codec_ids_distinct(a: AudioCodec, b: AudioCodec)
    ensures
        a.code() == b.code() ==> a == b,
{
}

/// A single encoded frame, ready for transmission.
#[derive(Debug, Clone)]
pub struct CodecFrame {
    pub data: Vec<u8>,
    pub duration_us: u32,
    pub pcm_samples: u32,
    pub codec: AudioCodec,
}

// ---------------------------------------------------------------------------------
// Configuration
// ---------------------------------------------------------------------------------

/// Codec configuration negotiated during A2DP setup.
#[derive(Debug, Clone)]
pub struct CodecConfig {
    pub codec: AudioCodec,
    pub sample_rate: u32,
    pub channels: u8,
    pub bit_depth: u8,
    pub bitrate: u32,
    pub raw_config: Vec<u8>,
    /// Largest SBC bitpool: 53 is standard high quality, 76 is SBC-XQ.
    pub max_bitpool: u8,
}

impl Default for CodecConfig {
    fn default() -> (c: CodecConfig)
        ensures
            c.codec == AudioCodec::Sbc,
            c.sample_rate == 44100,
            c.channels == 2,
            c.bit_depth == 16,
            c.bitrate == 328000,
            c.raw_config@ == seq![0x48u8, 0x8Au8, 2u8, 53u8],
            c.max_bitpool == 53,
    {
        CodecConfig {
            codec: AudioCodec::Sbc,
            sample_rate: 44100,
            channels: 2,
            bit_depth: 16,
            bitrate: 328000,
            raw_config: vec![0x48u8, 0x8Au8, 2u8, 53u8],
            max_bitpool: 53,
        }
    }
}

/// Samples in one frame of a codec whose frames are counted in samples.
pub open spec fn frame_samples(codec: AudioCodec) -> int {
    match codec {
        AudioCodec::Sbc => 128,
        AudioCodec::Aac => 1024,
        AudioCodec::Mpeg12 => 1152,
        AudioCodec::Lc3 => 0,
    }
}

impl CodecConfig {
    /// Estimated size of an encoded frame in bytes. For SBC it is that of a joint-stereo
    /// frame: four bytes of header, eight of scale factors, and what the bitpool of the
    /// configuration bytes makes of sixteen blocks, with one bit for each of eight subbands.
    pub fn estimated_frame_size(&self) -> (n: usize)
        ensures
            n == match self.codec {
                AudioCodec::Sbc => if self.raw_config@.len() >= 4 {
                    12 + (8 + 16 * self.raw_config@[3] as int + 7) / 8
                } else {
                    119
                },
                AudioCodec::Lc3 => (self.bitrate as int * 10) / 8000,
                AudioCodec::Aac => 256,
                AudioCodec::Mpeg12 => 417,
            },
    {
        match self.codec {
            AudioCodec::Sbc => {
                if self.raw_config.len() >= 4 {
                    let bitpool: usize = self.raw_config[3] as usize;
                    4 + 8 + (8 + 16 * bitpool + 7) / 8
                } else {
                    119
                }
            },
            AudioCodec::Lc3 => ((self.bitrate as u64 * 10) / 8000) as usize,
            AudioCodec::Aac => 256,
            AudioCodec::Mpeg12 => 417,
        }
    }

    /// Duration of a frame in microseconds, rounded down. LC3 frames last ten milliseconds.
    pub fn frame_duration_us(&self) -> (us: u32)
        requires
            self.codec == AudioCodec::Lc3 || self.sample_rate > 0,
        ensures
            us == (if self.codec == AudioCodec::Lc3 {
                10_000
            } else {
                frame_samples(self.codec) * 1_000_000 / self.sample_rate as int
            }),
    {
        let samples: u64 = match self.codec {
            AudioCodec::Sbc => 128,
            AudioCodec::Lc3 => {
                return 10_000;
            },
            AudioCodec::Aac => 1024,
            AudioCodec::Mpeg12 => 1152,
        };
        let rate: u64 = self.sample_rate as u64;
        let total: u64 = samples * 1_000_000;
        assert(total as int / rate as int <= total) by (nonlinear_arith)
            requires
                rate > 0,
                total >= 0,
        ;
        (total / rate) as u32
    }
}

// ---------------------------------------------------------------------------------
// Errors
// ---------------------------------------------------------------------------------

/// Failures of the codec layer.
#[derive(Debug)]
pub enum CodecError {
    InitFailed(String),
    EncodeFailed(String),
    DecodeFailed(String),
    Unsupported(String),
    InvalidConfig(String),
}

/// What a codec error says.
pub ghost enum CodecErrorView {
    InitFailed(Seq<char>),
    EncodeFailed(Seq<char>),
    DecodeFailed(Seq<char>),
    Unsupported(Seq<char>),
    InvalidConfig(Seq<char>),
}

impl View for CodecError {
    type V = CodecErrorView;

    open spec fn view(&self) -> CodecErrorView {
        match *self {
            CodecError::InitFailed(s) => CodecErrorView::InitFailed(s@),
            CodecError::EncodeFailed(s) => CodecErrorView::EncodeFailed(s@),
            CodecError::DecodeFailed(s) => CodecErrorView::DecodeFailed(s@),
            CodecError::Unsupported(s) => CodecErrorView::Unsupported(s@),
            CodecError::InvalidConfig(s) => CodecErrorView::InvalidConfig(s@),
        }
    }
}

impl CodecErrorView {
    /// The text of an error.
    pub open spec fn text(self) -> Seq<char> {
        match self {
            CodecErrorView::InitFailed(s) => "Codec initialization failed: "@ + s,
            CodecErrorView::EncodeFailed(s) => "Encoding error: "@ + s,
            CodecErrorView::DecodeFailed(s) => "Decoding error: "@ + s,
            CodecErrorView::Unsupported(s) => "Unsupported codec: "@ + s,
            CodecErrorView::InvalidConfig(s) => "Invalid configuration: "@ + s,
        }
    }
}

/// The codec error that an SBC error becomes.
pub open spec fn codec_error_of_sbc(e: SbcError) -> CodecErrorView {
    match e {
        SbcError::InitFailed(c) => CodecErrorView::InitFailed(
            "SBC init code "@ + text::decimal_signed(c as int),
        ),
        SbcError::NotInitialized => CodecErrorView::InitFailed("SBC not initialized"@),
        SbcError::DecodeFailed(c) => CodecErrorView::DecodeFailed(
            "SBC decode code "@ + text::decimal_signed(c as int),
        ),
        SbcError::EncodeFailed(c) => CodecErrorView::EncodeFailed(
            "SBC encode code "@ + text::decimal_signed(c as int),
        ),
    }
}

impl CodecError {
    /// The text of an error.
    pub fn message(&self) -> (s: String)
        ensures
            s@ == self@.text(),
    {
        match self {
            CodecError::InitFailed(s) => text::joined("Codec initialization failed: ", s.as_str()),
            CodecError::EncodeFailed(s) => text::joined("Encoding error: ", s.as_str()),
            CodecError::DecodeFailed(s) => text::joined("Decoding error: ", s.as_str()),
            CodecError::Unsupported(s) => text::joined("Unsupported codec: ", s.as_str()),
            CodecError::InvalidConfig(s) => text::joined("Invalid configuration: ", s.as_str()),
        }
    }

    /// Turns an SBC error into a codec error.
    pub fn from_sbc(e: SbcError) -> (r: CodecError)
        ensures
            r@ == codec_error_of_sbc(e),
    {
        match e {
            SbcError::InitFailed(c) => CodecError::InitFailed(text::with_code("SBC init code ", c)),
            SbcError::NotInitialized => CodecError::InitFailed("SBC not initialized".to_owned()),
            SbcError::DecodeFailed(c) => CodecError::DecodeFailed(
                text::with_code("SBC decode code ", c),
            ),
            SbcError::EncodeFailed(c) => CodecError::EncodeFailed(
                text::with_code("SBC encode code ", c),
            ),
        }
    }
}

// ---------------------------------------------------------------------------------
// Codecs
// ---------------------------------------------------------------------------------

/// What the engine asks of a codec library.
pub trait Codec: Send {
    /// Opens the codec from A2DP configuration bytes.
    fn init_a2dp(&mut self, config: &[u8]) -> Result<(), CodecError>;

    /// Decodes one frame. Returns the bytes consumed and the samples written.
    fn decode_frame(&mut self, input: &[u8], output: &mut [i16]) -> Result<
        (usize, usize),
        CodecError,
    >;

    /// Encodes one frame. Returns the samples consumed and the bytes written.
    fn encode_frame(&mut self, input: &[i16], output: &mut [u8]) -> Result<
        (usize, usize),
        CodecError,
    >;

    /// Conceals a lost frame. Returns the samples written.
    fn plc(&mut self, output: &mut [i16]) -> Result<usize, CodecError>;

    /// Forgets what was decoded, between tracks or after errors.
    fn reset(&mut self);

    /// Size of an encoded frame in bytes.
    fn frame_length(&mut self) -> usize;

    /// PCM bytes that make one frame.
    fn codesize(&mut self) -> usize;

    /// Duration of a frame in microseconds.
    fn frame_duration_us(&mut self) -> u32;

    /// The codec's identifier.
    fn codec_type(&self) -> AudioCodec;
}

// ---------------------------------------------------------------------------------
// SBC
// ---------------------------------------------------------------------------------

/// Consecutive lost frames that are concealed before silence sets in.
pub const PLC_MAX: u32 = 8;

/// A sample at `losses` times six decibels less: halved that often, rounded down.
pub open spec fn faded(x: i16, losses: nat) -> int {
    x as int / pow2(losses) as int
}

/// The sixteen-bit samples that little-endian bytes spell.
pub open spec fn le_sample(lo: u8, hi: u8) -> int {
    let u = lo as int + 256 * hi as int;
    if u < 0x8000 {
        u
    } else {
        u - 0x1_0000
    }
}

/// Sample `i` of a PCM byte stream.
pub open spec fn pcm_sample(bytes: Seq<u8>, i: int) -> int {
    le_sample(bytes[2 * i], bytes[2 * i + 1])
}

/// Samples as little-endian PCM bytes.
pub fn pcm_bytes(samples: &[i16]) -> (b: Vec<u8>)
    ensures
        b@.len() == 2 * samples@.len(),
        forall|i: int| 0 <= i < samples@.len() ==> #[trigger] pcm_sample(b@, i) == samples@[i],
{
    let mut b: Vec<u8> = Vec::new();
    let mut i: usize = 0;
    while i < samples.len()
        invariant
            i <= samples@.len(),
            b@.len() == 2 * i,
            forall|j: int| 0 <= j < i ==> #[trigger] pcm_sample(b@, j) == samples@[j],
        decreases samples.len() - i,
    {
        let x: i32 = samples[i] as i32;
        let u: i32 = if x >= 0 {
            x
        } else {
            x + 0x1_0000
        };
        let ghost before = b@;
        b.push((u % 256) as u8);
        b.push((u / 256) as u8);
        assert forall|j: int| 0 <= j < i + 1 implies #[trigger] pcm_sample(b@, j)
            == samples@[j] by {
            if j < i {
                assert(pcm_sample(before, j) == samples@[j]);
            }
        }
        i += 1;
    }
    b
}

/// The SBC codec: the state kept beside the library's own context.
#[derive(Debug)]
pub struct SbcCodecLive {
    ctx: Option<SbcContext>,
    last_pcm: Vec<i16>,
    plc_consecutive: u32,
    plc_max: u32,
}

impl SbcCodecLive {
    /// A context has been opened.
    pub closed spec fn opened(&self) -> bool {
        self.ctx is Some
    }

    /// The last good frame, which concealment fades out.
    pub closed spec fn last_good(&self) -> Seq<i16> {
        self.last_pcm@
    }

    /// Frames concealed since the last good one.
    pub closed spec fn losses(&self) -> nat {
        self.plc_consecutive as nat
    }

    #[verifier::type_invariant]
    spec fn limit_fixed(&self) -> bool {
        self.plc_max == PLC_MAX
    }

    /// A codec that has not been opened yet.
    pub fn new() -> (c: SbcCodecLive)
        ensures
            !c.opened(),
            c.last_good() == Seq::<i16>::empty(),
            c.losses() == 0,
    {
        SbcCodecLive { ctx: None, last_pcm: Vec::new(), plc_consecutive: 0, plc_max: PLC_MAX }
    }

    /// Takes the outcome of opening a library context from A2DP configuration bytes. On
    /// failure nothing changes.
    pub fn init_a2dp(&mut self, context: Result<SbcContext, SbcError>) -> (r: Result<(), CodecError>)
        ensures
            r is Ok <==> context is Ok,
            context matches Err(e) ==> r->Err_0@ == codec_error_of_sbc(e) && *final(self) == *old(
                self,
            ),
            context is Ok ==> final(self).opened() && final(self).last_good() == Seq::<
                i16,
            >::empty() && final(self).losses() == 0,
    {
        proof {
            use_type_invariant(&*self);
        }
        match context {
            Ok(ctx) => {
                *self = SbcCodecLive {
                    ctx: Some(ctx),
                    last_pcm: Vec::new(),
                    plc_consecutive: 0,
                    plc_max: PLC_MAX,
                };
                Ok(())
            },
            Err(e) => Err(CodecError::from_sbc(e)),
        }
    }

    /// Takes the decoder's reply for one frame: the bytes it consumed and the PCM bytes it
    /// wrote, little-endian. The samples go to the front of `output`, and a frame that
    /// holds any becomes the last good one.
    pub fn decode_frame(
        &mut self,
        reply: Result<(usize, &[u8]), SbcError>,
        output: &mut [i16],
    ) -> (r: Result<(usize, usize), CodecError>)
        requires
            reply matches Ok(p) ==> p.1@.len() / 2 <= old(output)@.len(),
        ensures
            final(output)@.len() == old(output)@.len(),
            final(self).opened() == old(self).opened(),
            r is Ok <==> old(self).opened() && reply is Ok,
            !old(self).opened() ==> r->Err_0@ == CodecErrorView::InitFailed("SBC not initialized"@),
            old(self).opened() ==> (reply matches Err(e) ==> r->Err_0@ == codec_error_of_sbc(e)),
            r is Err ==> *final(self) == *old(self) && final(output)@ == old(output)@,
            r matches Ok(p) ==> {
                let bytes = reply->Ok_0.1@;
                let n = bytes.len() / 2;
                &&& p.0 == reply->Ok_0.0
                &&& p.1 == n
                &&& forall|i: int| 0 <= i < n ==> #[trigger] final(output)@[i] == pcm_sample(bytes, i)
                &&& final(output)@.skip(n as int) == old(output)@.skip(n as int)
                &&& n > 0 ==> final(self).last_good() == final(output)@.take(n as int)
                    && final(self).losses() == 0
                &&& n == 0 ==> final(self).last_good() == old(self).last_good()
                    && final(self).losses() == old(self).losses()
            },
    {
        proof {
            use_type_invariant(&*self);
        }
        if self.ctx.is_none() {
            return Err(CodecError::InitFailed("SBC not initialized".to_owned()));
        }
        let (consumed, bytes) = match reply {
            Ok(p) => p,
            Err(e) => {
                return Err(CodecError::from_sbc(e));
            },
        };
        let n: usize = bytes.len() / 2;
        let mut good: Vec<i16> = Vec::new();
        let mut i: usize = 0;
        while i < n
            invariant
                n == bytes@.len() / 2,
                bytes@.len() <= usize::MAX,
                n <= output@.len(),
                i <= n,
                output@.len() == old(output)@.len(),
                forall|j: int| 0 <= j < i ==> #[trigger] output@[j] == pcm_sample(bytes@, j),
                forall|j: int| i <= j < output@.len() ==> output@[j] == old(output)@[j],
                good@ == output@.take(i as int),
            decreases n - i,
        {
            let u: i32 = bytes[2 * i] as i32 + 256 * bytes[2 * i + 1] as i32;
            let x: i16 = if u < 0x8000 {
                u as i16
            } else {
                (u - 0x1_0000) as i16
            };
            output[i] = x;
            good.push(x);
            i += 1;
            assert(good@ =~= output@.take(i as int));
        }
        assert(output@.skip(n as int) =~= old(output)@.skip(n as int));
        if n > 0 {
            self.last_pcm = good;
            self.plc_consecutive = 0;
        }
        Ok((consumed, n))
    }

    /// Takes the encoder's reply for one frame: the PCM bytes it consumed and the bytes it
    /// wrote. The first are counted in samples on return.
    pub fn encode_frame(&self, reply: Result<(usize, usize), SbcError>) -> (r: Result<
        (usize, usize),
        CodecError,
    >)
        ensures
            r is Ok <==> self.opened() && reply is Ok,
            !self.opened() ==> r->Err_0@ == CodecErrorView::InitFailed("SBC not initialized"@),
            self.opened() ==> (reply matches Err(e) ==> r->Err_0@ == codec_error_of_sbc(e)),
            r matches Ok(p) ==> p.0 == reply->Ok_0.0 / 2 && p.1 == reply->Ok_0.1,
    {
        if self.ctx.is_none() {
            return Err(CodecError::InitFailed("SBC not initialized".to_owned()));
        }
        match reply {
            Ok((consumed, written)) => Ok((consumed / 2, written)),
            Err(e) => Err(CodecError::from_sbc(e)),
        }
    }

    /// Conceals a lost frame: fills `output` with the last good frame, six decibels quieter
    /// for every consecutive loss, and with silence once there were too many or when there
    /// is no good frame. Returns the number of samples written.
    pub fn plc(&mut self, output: &mut [i16]) -> (r: Result<usize, CodecError>)
        requires
            old(self).losses() < u32::MAX,
        ensures
            r is Ok,
            final(output)@.len() == old(output)@.len(),
            final(self).opened() == old(self).opened(),
            final(self).last_good() == old(self).last_good(),
            final(self).losses() == concealed_losses(old(self).last_good(), old(self).losses()),
            r->Ok_0 == concealed_len(old(self).last_good(), old(output)@.len()),
            forall|i: int|
                0 <= i < r->Ok_0 ==> #[trigger] final(output)@[i] == concealed_sample(
                    old(self).last_good(),
                    old(self).losses(),
                    i,
                ),
            final(output)@.skip(r->Ok_0 as int) == old(output)@.skip(r->Ok_0 as int),
    {
        proof {
            use_type_invariant(&*self);
        }
        let room: usize = output.len();
        if self.last_pcm.len() == 0 {
            let n: usize = silence(output, room);
            return Ok(n);
        }
        self.plc_consecutive = self.plc_consecutive + 1;
        let n: usize = if room <= self.last_pcm.len() {
            room
        } else {
            self.last_pcm.len()
        };
        if self.plc_consecutive > self.plc_max {
            let n: usize = silence(output, n);
            return Ok(n);
        }
        let losses: u32 = self.plc_consecutive;
        let divisor: i32 = two_to(losses);
        let mut i: usize = 0;
        while i < n
            invariant
                n <= output@.len(),
                n <= self.last_pcm@.len(),
                i <= n,
                output@.len() == old(output)@.len(),
                divisor == pow2(losses as nat),
                1 <= divisor <= 256,
                forall|j: int|
                    0 <= j < i ==> #[trigger] output@[j] == faded(self.last_pcm@[j], losses as nat),
                forall|j: int| i <= j < output@.len() ==> output@[j] == old(output)@[j],
            decreases n - i,
        {
            output[i] = quotient(self.last_pcm[i], divisor);
            i += 1;
        }
        assert(output@.skip(n as int) =~= old(output)@.skip(n as int));
        Ok(n)
    }

    /// Frames concealed since the last good one.
    pub fn loss_count(&self) -> (n: u32)
        ensures
            n == self.losses(),
    {
        self.plc_consecutive
    }

    /// Forgets the last good frame, between tracks or after errors. The context stays open.
    pub fn reset(&mut self)
        ensures
            final(self).opened() == old(self).opened(),
            final(self).last_good() == Seq::<i16>::empty(),
            final(self).losses() == 0,
    {
        proof {
            use_type_invariant(&*self);
        }
        self.last_pcm = Vec::new();
        self.plc_consecutive = 0;
    }

    /// Size of an encoded frame: what the library reports for an open context.
    pub fn frame_length(&self, reported: usize) -> (n: usize)
        ensures
            n == (if self.opened() {
                reported
            } else {
                119
            }),
    {
        if self.ctx.is_some() {
            reported
        } else {
            119
        }
    }

    /// PCM bytes in a frame: what the library reports for an open context.
    pub fn codesize(&self, reported: usize) -> (n: usize)
        ensures
            n == (if self.opened() {
                reported
            } else {
                512
            }),
    {
        if self.ctx.is_some() {
            reported
        } else {
            512
        }
    }

    /// Duration of a frame: what the library reports for an open context.
    pub fn frame_duration_us(&self, reported: u32) -> (n: u32)
        ensures
            n == (if self.opened() {
                reported
            } else {
                2902
            }),
    {
        if self.ctx.is_some() {
            reported
        } else {
            2902
        }
    }

    /// The codec's identifier.
    pub fn codec_type(&self) -> (c: AudioCodec)
        ensures
            c == AudioCodec::Sbc,
    {
        AudioCodec::Sbc
    }
}

impl Default for SbcCodecLive {
    fn default() -> (c: SbcCodecLive)
        ensures
            !c.opened(),
            c.last_good() == Seq::<i16>::empty(),
            c.losses() == 0,
    {
        SbcCodecLive::new()
    }
}

/// The loss count after one more concealment.
pub open spec fn concealed_losses(good: Seq<i16>, losses: nat) -> nat {
    if good.len() == 0 {
        losses
    } else {
        losses + 1
    }
}

/// How many samples a concealment writes into room for `room`.
pub open spec fn concealed_len(good: Seq<i16>, room: nat) -> nat {
    if good.len() == 0 || room <= good.len() {
        room
    } else {
        good.len()
    }
}

/// Sample `i` of the concealment that follows `losses` earlier ones.
pub open spec fn concealed_sample(good: Seq<i16>, losses: nat, i: int) -> int {
    if good.len() == 0 || losses + 1 > PLC_MAX {
        0
    } else {
        faded(good[i], losses + 1)
    }
}

/// Concealment never overshoots: a concealed sample lies between the good one and zero.
pub proof fn law_concealment_fades(good: Seq<i16>, losses: nat, i: int)
    requires
        0 <= i < good.len(),
    ensures
        good[i] >= 0 ==> 0 <= concealed_sample(good, losses, i) <= good[i],
        good[i] < 0 ==> good[i] <= concealed_sample(good, losses, i) <= 0,
{
    let p = pow2(losses + 1) as int;
    let x = good[i] as int;
    vstd::arithmetic::power2::lemma_pow2_pos(losses + 1);
    assert((x >= 0 ==> 0 <= x / p <= x) && (x < 0 ==> x <= x / p <= 0)) by (nonlinear_arith)
        requires
            p > 0,
    ;
}

/// Each concealment is half as loud as the one before it, until silence sets in.
pub proof fn law_concealment_halves(good: Seq<i16>, losses: nat, i: int)
    requires
        0 <= i < good.len(),
        losses + 2 <= PLC_MAX,
    ensures
        concealed_sample(good, losses + 1, i) == concealed_sample(good, losses, i) / 2,
{
    let x = good[i] as int;
    let p = pow2(losses + 1) as int;
    vstd::arithmetic::power2::lemma_pow2_pos(losses + 1);
    vstd::arithmetic::power2::lemma_pow2_unfold(losses + 2);
    let q = x / p;
    vstd::arithmetic::div_mod::lemma_fundamental_div_mod(x, p);
    assert(x == (q / 2) * (2 * p) + ((q % 2) * p + x % p) && 0 <= (q % 2) * p + x % p < 2 * p)
        by (nonlinear_arith)
        requires
            p > 0,
            x == p * q + x % p,
            0 <= x % p < p,
            q == 2 * (q / 2) + q % 2,
            q % 2 == 0 || q % 2 == 1,
    ;
    vstd::arithmetic::div_mod::lemma_fundamental_div_mod_converse(
        x,
        2 * p,
        q / 2,
        (q % 2) * p + x % p,
    );
}

/// After too many consecutive losses there is silence.
pub proof fn law_concealment_ends_in_silence(good: Seq<i16>, losses: nat, i: int)
    requires
        losses >= PLC_MAX,
    ensures
        concealed_sample(good, losses, i) == 0,
{
}

/// Writes `n` zeros to the front of `output`.
fn silence(output: &mut [i16], n: usize) -> (r: usize)
    requires
        n <= old(output)@.len(),
    ensures
        r == n,
        final(output)@.len() == old(output)@.len(),
        forall|i: int| 0 <= i < n ==> #[trigger] final(output)@[i] == 0,
        final(output)@.skip(n as int) == old(output)@.skip(n as int),
{
    let mut i: usize = 0;
    while i < n
        invariant
            n <= output@.len(),
            i <= n,
            output@.len() == old(output)@.len(),
            forall|j: int| 0 <= j < i ==> #[trigger] output@[j] == 0,
            forall|j: int| i <= j < output@.len() ==> output@[j] == old(output)@[j],
        decreases n - i,
    {
        output[i] = 0;
        i += 1;
    }
    assert(output@.skip(n as int) =~= old(output)@.skip(n as int));
    n
}

/// Two to the power `k`.
fn two_to(k: u32) -> (p: i32)
    requires
        k <= 8,
    ensures
        p == pow2(k as nat),
        1 <= p <= 256,
{
    let mut p: i32 = 1;
    let mut i: u32 = 0;
    proof {
        vstd::arithmetic::power2::lemma2_to64();
    }
    while i < k
        invariant
            i <= k,
            k <= 8,
            p == pow2(i as nat),
            i == 8 ==> p == 256,
            pow2(8) == 256,
        decreases k - i,
    {
        proof {
            vstd::arithmetic::power2::lemma_pow2_unfold((i + 1) as nat);
            if i + 1 < 8 {
                vstd::arithmetic::power2::lemma_pow2_strictly_increases((i + 1) as nat, 8);
            }
        }
        p = p * 2;
        i += 1;
    }
    proof {
        vstd::arithmetic::power2::lemma_pow2_pos(k as nat);
        if k < 8 {
            vstd::arithmetic::power2::lemma_pow2_strictly_increases(k as nat, 8);
        }
    }
    p
}

/// Division that rounds down.
fn quotient(x: i16, divisor: i32) -> (q: i16)
    requires
        1 <= divisor <= 256,
    ensures
        q == x as int / divisor as int,
{
    let x: i32 = x as i32;
    if x >= 0 {
        let q: i32 = x / divisor;
        assert(0 <= x as int / divisor as int <= x) by (nonlinear_arith)
            requires
                divisor >= 1,
                x >= 0,
        ;
        q as i16
    } else {
        let up: i32 = (-x + (divisor - 1)) / divisor;
        let ghost n = -x as int;
        let ghost d = divisor as int;
        assert((n + (d - 1)) / d == -((-n) / d) && 0 <= (n + (d - 1)) / d <= n) by (nonlinear_arith)
            requires
                d >= 1,
                n >= 1,
        ;
        (-up) as i16
    }
}

// ---------------------------------------------------------------------------------
// LC3
// ---------------------------------------------------------------------------------

/// What LC3 configuration bytes ask for: sample rate, frame duration in microseconds and
/// bit rate.
pub open spec fn lc3_parameters(config: Seq<u8>) -> (int, int, int) {
    if config.len() < 5 {
        (48000, 10000, 96000)
    } else {
        let rate = config[0] as int + 256 * config[1] as int;
        let duration = if config[2] == 0 {
            7500int
        } else {
            10000int
        };
        (rate, duration, lc3_octets(config) * 8_000_000 / duration)
    }
}

/// Octets per frame that LC3 configuration bytes ask for.
pub open spec fn lc3_octets(config: Seq<u8>) -> int {
    if config.len() >= 9 {
        config[7] as int + 256 * config[8] as int
    } else {
        120
    }
}

/// The LC3 codec: the state kept beside the library's own context.
#[derive(Debug)]
pub struct Lc3CodecLive {
    ctx: Option<Lc3Context>,
    last_pcm: Vec<i16>,
}

impl Lc3CodecLive {
    /// The open context, if there is one.
    pub closed spec fn context(&self) -> Option<Lc3Context> {
        self.ctx
    }

    /// The last good frame.
    pub closed spec fn last_good(&self) -> Seq<i16> {
        self.last_pcm@
    }

    /// A codec that has not been opened yet.
    pub fn new() -> (c: Lc3CodecLive)
        ensures
            c.context() is None,
            c.last_good() == Seq::<i16>::empty(),
    {
        Lc3CodecLive { ctx: None, last_pcm: Vec::new() }
    }

    /// What configuration bytes ask for: sample rate, frame duration in microseconds and
    /// bit rate. The octets per frame must be few enough for the bit rate to be computed
    /// in thirty-two bits.
    pub fn parameters(config: &[u8]) -> (r: (i32, i32, u32))
        requires
            lc3_octets(config@) * 8_000_000 <= u32::MAX,
        ensures
            r.0 == lc3_parameters(config@).0,
            r.1 == lc3_parameters(config@).1,
            r.2 == lc3_parameters(config@).2,
    {
        if config.len() < 5 {
            return (48000, 10000, 96000);
        }
        let rate: i32 = config[0] as i32 + 256 * config[1] as i32;
        let octets: u32 = if config.len() >= 9 {
            config[7] as u32 + 256 * config[8] as u32
        } else {
            120
        };
        if config[2] == 0 {
            (rate, 7500, octets * 8_000_000 / 7500)
        } else {
            (rate, 10000, octets * 8_000_000 / 10000)
        }
    }

    /// Takes the outcome of opening a library context. On failure nothing changes.
    pub fn init_a2dp(&mut self, context: Result<Lc3Context, Lc3Error>) -> (r: Result<(), CodecError>)
        ensures
            final(self).last_good() == old(self).last_good(),
            r is Ok <==> context is Ok,
            context matches Ok(c) ==> final(self).context() == Some(c),
            context matches Err(e) ==> r->Err_0@ == CodecErrorView::InitFailed(e.text())
                && *final(self) == *old(self),
    {
        match context {
            Ok(ctx) => {
                self.ctx = Some(ctx);
                Ok(())
            },
            Err(e) => Err(CodecError::InitFailed(e.message())),
        }
    }

    /// Takes the decoder's reply for `input` encoded bytes: the samples it wrote to the
    /// front of `output`, which become the last good frame.
    pub fn decode_frame(
        &mut self,
        reply: Result<usize, Lc3Error>,
        input: usize,
        output: &[i16],
    ) -> (r: Result<(usize, usize), CodecError>)
        requires
            reply matches Ok(n) ==> n <= output@.len(),
        ensures
            final(self).context() == old(self).context(),
            r is Ok <==> old(self).context() is Some && reply is Ok,
            r matches Ok(p) ==> p.0 == input && p.1 == reply->Ok_0 && final(self).last_good()
                == output@.take(reply->Ok_0 as int),
            r matches Err(e) ==> *final(self) == *old(self) && e@ == lc3_failure(
                old(self).context() is Some,
                CodecErrorView::DecodeFailed(reply->Err_0.text()),
            ),
    {
        if self.ctx.is_none() {
            return Err(CodecError::InitFailed("LC3 not init".to_owned()));
        }
        match reply {
            Ok(n) => {
                let mut good: Vec<i16> = Vec::new();
                good.extend_from_slice(&output[0..n]);
                assert(good@ =~= output@.take(n as int));
                self.last_pcm = good;
                Ok((input, n))
            },
            Err(e) => Err(CodecError::DecodeFailed(e.message())),
        }
    }

    /// Takes the encoder's reply for one frame: the bytes it wrote.
    pub fn encode_frame(&self, reply: Result<usize, Lc3Error>) -> (r: Result<
        (usize, usize),
        CodecError,
    >)
        ensures
            r is Ok <==> self.context() is Some && reply is Ok,
            r matches Ok(p) ==> p.0 == self.context()->0.samples() && p.1 == reply->Ok_0,
            r matches Err(e) ==> e@ == lc3_failure(
                self.context() is Some,
                CodecErrorView::EncodeFailed(reply->Err_0.text()),
            ),
    {
        match &self.ctx {
            None => Err(CodecError::InitFailed("LC3 not init".to_owned())),
            Some(ctx) => match reply {
                Ok(written) => Ok((ctx.frame_samples(), written)),
                Err(e) => Err(CodecError::EncodeFailed(e.message())),
            },
        }
    }

    /// Takes the decoder's reply for a concealed frame: the samples it wrote.
    pub fn plc(&self, reply: Result<usize, Lc3Error>) -> (r: Result<usize, CodecError>)
        ensures
            r is Ok <==> self.context() is Some && reply is Ok,
            r matches Ok(n) ==> n == reply->Ok_0,
            r matches Err(e) ==> e@ == lc3_failure(
                self.context() is Some,
                CodecErrorView::DecodeFailed(reply->Err_0.text()),
            ),
    {
        if self.ctx.is_none() {
            return Err(CodecError::InitFailed("LC3 not init".to_owned()));
        }
        match reply {
            Ok(n) => Ok(n),
            Err(e) => Err(CodecError::DecodeFailed(e.message())),
        }
    }

    /// Forgets the last good frame. The context stays open.
    pub fn reset(&mut self)
        ensures
            final(self).context() == old(self).context(),
            final(self).last_good() == Seq::<i16>::empty(),
    {
        self.last_pcm = Vec::new();
    }

    /// Size of an encoded frame.
    pub fn frame_length(&self) -> (n: usize)
        ensures
            n == match self.context() {
                Some(c) => c.bytes(),
                None => 120,
            },
    {
        match &self.ctx {
            Some(c) => c.frame_bytes(),
            None => 120,
        }
    }

    /// PCM bytes in a frame.
    pub fn codesize(&self) -> (n: usize)
        requires
            self.context() matches Some(c) ==> c.samples() * 2 <= usize::MAX,
        ensures
            n == match self.context() {
                Some(c) => c.samples() * 2,
                None => 960,
            },
    {
        match &self.ctx {
            Some(c) => c.frame_samples() * 2,
            None => 960,
        }
    }

    /// Duration of a frame in microseconds.
    pub fn frame_duration_us(&self) -> (n: u32)
        ensures
            n == match self.context() {
                Some(c) => c.duration() as u32,
                None => 10000,
            },
    {
        match &self.ctx {
            Some(c) => c.frame_duration_us(),
            None => 10000,
        }
    }

    /// The codec's identifier.
    pub fn codec_type(&self) -> (c: AudioCodec)
        ensures
            c == AudioCodec::Lc3,
    {
        AudioCodec::Lc3
    }
}

/// The error of a call on an LC3 codec: that it is not open comes before what the library
/// said.
pub open spec fn lc3_failure(opened: bool, reported: CodecErrorView) -> CodecErrorView {
    if opened {
        reported
    } else {
        CodecErrorView::InitFailed("LC3 not init"@)
    }
}

// ---------------------------------------------------------------------------------
// Codec choice
// ---------------------------------------------------------------------------------

/// The outcome of opening a library context for a codec. `Absent` stands for a codec
/// without a library in this build.
#[derive(Debug)]
pub enum OpenedContext {
    Sbc(Result<SbcContext, SbcError>),
    Lc3(Result<Lc3Context, Lc3Error>),
    Absent,
}

/// A codec in use.
#[derive(Debug)]
pub enum LiveCodec {
    Sbc(SbcCodecLive),
    Lc3(Lc3CodecLive),
}

impl LiveCodec {
    /// The codec's identifier.
    pub fn codec_type(&self) -> (c: AudioCodec)
        ensures
            c == (if self is Sbc {
                AudioCodec::Sbc
            } else {
                AudioCodec::Lc3
            }),
    {
        match self {
            LiveCodec::Sbc(c) => c.codec_type(),
            LiveCodec::Lc3(c) => c.codec_type(),
        }
    }
}

/// Makes the codec with identifier `codec_id` from the outcome of opening a library
/// context for it. There is always a library for SBC, and there may be one for LC3; the
/// other codecs, and unknown identifiers, are unsupported.
pub fn create_codec(codec_id: u8, context: OpenedContext) -> (r: Result<LiveCodec, CodecError>)
    requires
        codec_id == AudioCodec::Sbc.code() ==> context is Sbc,
        codec_id == AudioCodec::Lc3.code() ==> context is Lc3 || context is Absent,
    ensures
        (forall|c: AudioCodec| c.code() != codec_id) ==> r is Err && r->Err_0@
            == CodecErrorView::Unsupported("codec ID 0x"@ + text::hex_byte(codec_id, true)),
        forall|c: AudioCodec| #[trigger]
            c.code() == codec_id ==> match (c, context) {
                (AudioCodec::Sbc, OpenedContext::Sbc(Ok(_))) => r matches Ok(LiveCodec::Sbc(live))
                    && live.opened() && live.last_good() == Seq::<i16>::empty() && live.losses()
                    == 0,
                (AudioCodec::Sbc, OpenedContext::Sbc(Err(e))) => r matches Err(f) && f@
                    == codec_error_of_sbc(e),
                (AudioCodec::Lc3, OpenedContext::Lc3(Ok(ctx))) => r matches Ok(
                    LiveCodec::Lc3(live),
                ) && live.context() == Some(ctx) && live.last_good() == Seq::<i16>::empty(),
                (AudioCodec::Lc3, OpenedContext::Lc3(Err(e))) => r matches Err(f) && f@
                    == CodecErrorView::InitFailed(e.text()),
                _ => r matches Err(f) && f@ == CodecErrorView::Unsupported(c.text()),
            },
{
    let codec: AudioCodec = match AudioCodec::from_id(codec_id) {
        Some(c) => c,
        None => {
            let mut s: String = "codec ID 0x".to_owned();
            text::push_hex(&mut s, codec_id, true);
            return Err(CodecError::Unsupported(s));
        },
    };
    proof {
        assert forall|c: AudioCodec| #[trigger] c.code() == codec_id implies c == codec by {
            law_codec_ids_distinct(c, codec);
        }
    }
    match (codec, context) {
        (AudioCodec::Sbc, OpenedContext::Sbc(opened)) => {
            let mut c: SbcCodecLive = SbcCodecLive::new();
            match c.init_a2dp(opened) {
                Ok(()) => Ok(LiveCodec::Sbc(c)),
                Err(e) => Err(e),
            }
        },
        (AudioCodec::Lc3, OpenedContext::Lc3(opened)) => {
            let mut c: Lc3CodecLive = Lc3CodecLive::new();
            match c.init_a2dp(opened) {
                Ok(()) => Ok(LiveCodec::Lc3(c)),
                Err(e) => Err(e),
            }
        },
        (other, _) => Err(CodecError::Unsupported(other.name().to_owned())),
    }
}

// ---------------------------------------------------------------------------------
// Laws of codecs and samples
// ---------------------------------------------------------------------------------

/// The identifiers and names of the codecs, and the samples in their frames.
pub proof fn law_codec_table()
    ensures
        AudioCodec::Sbc.code() == 0,
        AudioCodec::Mpeg12.code() == 1,
        AudioCodec::Aac.code() == 2,
        AudioCodec::Lc3.code() == 6,
        AudioCodec::Sbc.text() == "SBC"@,
        AudioCodec::Mpeg12.text() == "MPEG-1,2"@,
        AudioCodec::Aac.text() == "AAC"@,
        AudioCodec::Lc3.text() == "LC3"@,
        frame_samples(AudioCodec::Sbc) == 128,
        frame_samples(AudioCodec::Aac) == 1024,
        frame_samples(AudioCodec::Mpeg12) == 1152,
{
}

/// A sample is the number that its two bytes spell, low byte first, in two's complement.
pub proof fn law_pcm_sample_value(bytes: Seq<u8>, i: int)
    requires
        0 <= i < bytes.len() / 2,
    ensures
        -32768 <= pcm_sample(bytes, i) <= 32767,
        (pcm_sample(bytes, i) - (bytes[2 * i] + 256 * bytes[2 * i + 1])) % 0x1_0000 == 0,
{
}

/// Every sample of a concealed frame is the good one over two to the number of losses,
/// rounded down: the first concealment is half, the second a quarter, up to the eighth.
pub proof fn law_concealment_amplitude(good: Seq<i16>, losses: nat, i: int)
    requires
        0 <= i < good.len(),
    ensures
        losses < 8 ==> {
            let y = concealed_sample(good, losses, i);
            let p = pow2(losses + 1) as int;
            p * y <= good[i] < p * (y + 1)
        },
        losses >= 8 ==> concealed_sample(good, losses, i) == 0,
        losses == 0 ==> 2 * concealed_sample(good, losses, i) <= good[i] < 2 * (concealed_sample(
            good,
            losses,
            i,
        ) + 1),
{
    let p = pow2(losses + 1) as int;
    let x = good[i] as int;
    vstd::arithmetic::power2::lemma_pow2_pos(losses + 1);
    vstd::arithmetic::power2::lemma2_to64();
    assert(p * (x / p) <= x < p * (x / p + 1)) by (nonlinear_arith)
        requires
            p > 0,
    ;
}

/// A concealment fills all the room with silence where there is no good frame, and counts no
/// loss. Otherwise it writes the good frame as far as there is room, and counts one loss.
pub proof fn law_concealment_extent(good: Seq<i16>, losses: nat, room: nat)
    ensures
        good.len() == 0 ==> concealed_len(good, room) == room,
        good.len() == 0 ==> concealed_losses(good, losses) == losses,
        good.len() > 0 ==> concealed_len(good, room) <= room,
        good.len() > 0 ==> concealed_len(good, room) <= good.len(),
        good.len() > 0 ==> concealed_len(good, room) == room || concealed_len(good, room)
            == good.len(),
        good.len() > 0 ==> concealed_losses(good, losses) == losses + 1,
        forall|i: int| good.len() == 0 ==> #[trigger] concealed_sample(good, losses, i) == 0,
{
}

/// What LC3 configuration bytes ask for, and what is asked for where there are too few.
pub proof fn law_lc3_parameters(config: Seq<u8>)
    ensures
        ({
            let (rate, duration, bitrate) = lc3_parameters(config);
            let octets = if config.len() >= 9 {
                config[7] + 256 * config[8]
            } else {
                120
            };
            &&& config.len() < 5 ==> rate == 48000 && duration == 10000 && bitrate == 96000
            &&& config.len() >= 5 ==> {
                &&& rate == config[0] + 256 * config[1]
                &&& config[2] == 0 ==> duration == 7500 && 7500 * bitrate <= octets * 8_000_000
                    < 7500 * (bitrate + 1)
                &&& config[2] != 0 ==> duration == 10000 && 10000 * bitrate <= octets * 8_000_000
                    < 10000 * (bitrate + 1)
            }
            &&& lc3_octets(config) == octets
        }),
{
}

/// The texts of the errors that an SBC error becomes.
pub proof fn law_sbc_error_texts(code: i32)
    ensures
        codec_error_of_sbc(SbcError::InitFailed(code)).text()
            == "Codec initialization failed: "@ + ("SBC init code "@ + text::decimal_signed(
            code as int,
        )),
        codec_error_of_sbc(SbcError::NotInitialized).text() == "Codec initialization failed: "@
            + "SBC not initialized"@,
        codec_error_of_sbc(SbcError::DecodeFailed(code)).text() == "Decoding error: "@
            + ("SBC decode code "@ + text::decimal_signed(code as int)),
        codec_error_of_sbc(SbcError::EncodeFailed(code)).text() == "Encoding error: "@
            + ("SBC encode code "@ + text::decimal_signed(code as int)),
{
}

/// A codec error says what failed, and why.
pub proof fn law_codec_errors_say_why(s: Seq<char>)
    ensures
        text::begins_and_ends(
            CodecErrorView::InitFailed(s).text(),
            "Codec initialization failed: "@,
            s,
        ),
        text::begins_and_ends(CodecErrorView::EncodeFailed(s).text(), "Encoding error: "@, s),
        text::begins_and_ends(CodecErrorView::DecodeFailed(s).text(), "Decoding error: "@, s),
        text::begins_and_ends(CodecErrorView::Unsupported(s).text(), "Unsupported codec: "@, s),
        text::begins_and_ends(
            CodecErrorView::InvalidConfig(s).text(),
            "Invalid configuration: "@,
            s,
        ),
{
    text::lemma_joined_parts("Codec initialization failed: "@, s);
    text::lemma_joined_parts("Encoding error: "@, s);
    text::lemma_joined_parts("Decoding error: "@, s);
    text::lemma_joined_parts("Unsupported codec: "@, s);
    text::lemma_joined_parts("Invalid configuration: "@, s);
}

/// A call on an LC3 codec that is not open fails for that reason, whatever the library said;
/// on an open one it fails as the library said.
pub proof fn law_lc3_failure(reported: CodecErrorView)
    ensures
        lc3_failure(true, reported) == reported,
        lc3_failure(false, reported).text() == "Codec initialization failed: "@ + "LC3 not init"@,
{
}

/// Bytes that spell the same samples are the same bytes, so that samples have one form as
/// bytes.
pub proof fn law_pcm_form_is_unique(a: Seq<u8>, b: Seq<u8>)
    requires
        a.len() == b.len(),
        a.len() % 2 == 0,
        forall|i: int| 0 <= i < a.len() / 2 ==> #[trigger] pcm_sample(a, i) == pcm_sample(b, i),
    ensures
        a == b,
{
    assert forall|k: int| 0 <= k < a.len() implies a[k] == b[k] by {
        assert(pcm_sample(a, k / 2) == pcm_sample(b, k / 2));
        law_pcm_sample_value(a, k / 2);
        law_pcm_sample_value(b, k / 2);
    }
    assert(a =~= b);
}

} // verus!
