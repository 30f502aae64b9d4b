//! The shape of an LC3 codec context, and what the return codes of the system's LC3
//! library mean.

use vstd::prelude::*;

use crate::text;

verus! {

/// Failures of the LC3 library.
#[derive(Debug)]
pub enum Lc3Error {
    InvalidConfig(String),
    InitFailed(String),
    DecodeFailed(i32),
    EncodeFailed(i32),
    BufferTooSmall,
}

impl Lc3Error {
    /// The text of an error.
    pub open spec fn text(self) -> Seq<char> {
        match self {
            Lc3Error::InvalidConfig(s) => "LC3 invalid configuration: "@ + s@,
            Lc3Error::InitFailed(s) => "LC3 init failed: "@ + s@,
            Lc3Error::DecodeFailed(c) => "LC3 decode failed with code "@ + text::decimal_signed(
                c as int,
            ),
            Lc3Error::EncodeFailed(c) => "LC3 encode failed with code "@ + text::decimal_signed(
                c as int,
            ),
            Lc3Error::BufferTooSmall => "Buffer too small for LC3 frame"@,
        }
    }

    /// The text of an error.
    pub fn message(&self) -> (s: String)
        ensures
            s@ == self.text(),
    {
        match self {
            Lc3Error::InvalidConfig(s) => text::joined("LC3 invalid configuration: ", s.as_str()),
            Lc3Error::InitFailed(s) => text::joined("LC3 init failed: ", s.as_str()),
            Lc3Error::DecodeFailed(c) => text::with_code("LC3 decode failed with code ", *c),
            Lc3Error::EncodeFailed(c) => text::with_code("LC3 encode failed with code ", *c),
            Lc3Error::BufferTooSmall => "Buffer too small for LC3 frame".to_owned(),
        }
    }
}

/// An LC3 codec context: its frame duration and sample rate, and the size of a frame
/// before and after encoding.
#[derive(Debug)]
pub struct Lc3Context {
    dt_us: i32,
    sr_hz: i32,
    frame_samples: usize,
    frame_bytes: usize,
}

/// What a failed size query is reported as.
pub open spec fn size_query_text(enc_size: i32, dec_size: i32) -> Seq<char> {
    "lc3 size query failed: enc="@ + text::decimal_signed(enc_size as int) + ", dec="@
        + text::decimal_signed(dec_size as int)
}

impl Lc3Context {
    /// Frame duration in microseconds.
    pub closed spec fn duration(&self) -> i32 {
        self.dt_us
    }

    /// Sample rate in hertz.
    pub closed spec fn rate(&self) -> i32 {
        self.sr_hz
    }

    /// Samples in a frame.
    pub closed spec fn samples(&self) -> usize {
        self.frame_samples
    }

    /// Bytes of an encoded frame.
    pub closed spec fn bytes(&self) -> usize {
        self.frame_bytes
    }

    /// Takes the library's answer on how much memory an encoder and a decoder need. Both
    /// must be positive for the set-up to go on.
    pub fn check_sizes(enc_size: i32, dec_size: i32) -> (r: Result<(), Lc3Error>)
        ensures
            r is Ok <==> enc_size > 0 && dec_size > 0,
            r matches Err(e) ==> (e matches Lc3Error::InvalidConfig(s) && s@ == size_query_text(
                enc_size,
                dec_size,
            )),
    {
        if enc_size <= 0 || dec_size <= 0 {
            let mut s: String = text::with_code("lc3 size query failed: enc=", enc_size);
            s.append(", dec=");
            text::push_signed(&mut s, dec_size);
            return Err(Lc3Error::InvalidConfig(s));
        }
        Ok(())
    }

    /// Takes the outcome of the library's set-up: whether it handed out both an encoder and
    /// a decoder, how many samples it puts in a frame, and the size of an encoded frame.
    pub fn new(dt_us: i32, sr_hz: i32, handles: bool, frame_samples: i32, frame_bytes: usize) -> (r:
        Result<Lc3Context, Lc3Error>)
        ensures
            r is Ok <==> handles,
            r matches Ok(c) ==> c.duration() == dt_us && c.rate() == sr_hz && c.samples()
                == frame_samples as usize && c.bytes() == frame_bytes,
            r matches Err(e) ==> (e matches Lc3Error::InitFailed(s) && s@
                == "lc3_setup returned NULL"@),
    {
        if !handles {
            return Err(Lc3Error::InitFailed("lc3_setup returned NULL".to_owned()));
        }
        Ok(Lc3Context { dt_us, sr_hz, frame_samples: frame_samples as usize, frame_bytes })
    }

    /// Whether a decoded frame fits into room for `room` samples.
    pub fn fits(&self, room: usize) -> (r: Result<(), Lc3Error>)
        ensures
            r is Ok <==> room >= self.samples(),
            r matches Err(e) ==> e is BufferTooSmall,
    {
        if room < self.frame_samples {
            Err(Lc3Error::BufferTooSmall)
        } else {
            Ok(())
        }
    }

    /// Takes the decoder's return code for one frame: zero is a good frame and one a
    /// recovered frame. Returns the samples of a frame.
    pub fn decode(&self, code: i32) -> (r: Result<usize, Lc3Error>)
        ensures
            r is Ok <==> code == 0 || code == 1,
            r matches Ok(n) ==> n == self.samples(),
            r matches Err(e) ==> e == Lc3Error::DecodeFailed(code),
    {
        match code {
            0 => Ok(self.frame_samples),
            1 => Ok(self.frame_samples),
            _ => Err(Lc3Error::DecodeFailed(code)),
        }
    }

    /// Takes the decoder's return code for a concealed frame. Returns the samples of a
    /// frame.
    pub fn plc(&self, code: i32) -> (r: Result<usize, Lc3Error>)
        ensures
            r is Ok <==> code >= 0,
            r matches Ok(n) ==> n == self.samples(),
            r matches Err(e) ==> e == Lc3Error::DecodeFailed(code),
    {
        if code < 0 {
            Err(Lc3Error::DecodeFailed(code))
        } else {
            Ok(self.frame_samples)
        }
    }

    /// Whether `given` samples make a frame and its encoding fits into `room` bytes.
    pub fn encodes(&self, given: usize, room: usize) -> (r: Result<(), Lc3Error>)
        ensures
            r is Ok <==> given >= self.samples() && room >= self.bytes(),
            r matches Err(e) ==> e is BufferTooSmall,
    {
        if given < self.frame_samples {
            return Err(Lc3Error::BufferTooSmall);
        }
        if room < self.frame_bytes {
            return Err(Lc3Error::BufferTooSmall);
        }
        Ok(())
    }

    /// Takes the encoder's return code for one frame. Returns the bytes of an encoded frame.
    pub fn encode(&self, code: i32) -> (r: Result<usize, Lc3Error>)
        ensures
            r is Ok <==> code >= 0,
            r matches Ok(n) ==> n == self.bytes(),
            r matches Err(e) ==> e == Lc3Error::EncodeFailed(code),
    {
        if code < 0 {
            Err(Lc3Error::EncodeFailed(code))
        } else {
            Ok(self.frame_bytes)
        }
    }

    /// Samples in a frame.
    pub fn frame_samples(&self) -> (n: usize)
        ensures
            n == self.samples(),
    {
        self.frame_samples
    }

    /// Bytes of an encoded frame.
    pub fn frame_bytes(&self) -> (n: usize)
        ensures
            n == self.bytes(),
    {
        self.frame_bytes
    }

    /// Frame duration in microseconds.
    pub fn frame_duration_us(&self) -> (n: u32)
        ensures
            n == self.duration() as u32,
    {
        self.dt_us as u32
    }
}

/// An error of the library says what failed, and why.
pub proof fn law_lc3_errors_say_why(s: String, code: i32, enc_size: i32, dec_size: i32)
    ensures
        text::begins_and_ends(
            Lc3Error::InvalidConfig(s).text(),
            "LC3 invalid configuration: "@,
            s@,
        ),
        text::begins_and_ends(Lc3Error::InitFailed(s).text(), "LC3 init failed: "@, s@),
        text::begins_and_ends(
            Lc3Error::DecodeFailed(code).text(),
            "LC3 decode failed with code "@,
            text::decimal_signed(code as int),
        ),
        text::begins_and_ends(
            Lc3Error::EncodeFailed(code).text(),
            "LC3 encode failed with code "@,
            text::decimal_signed(code as int),
        ),
        Lc3Error::BufferTooSmall.text() == "Buffer too small for LC3 frame"@,
        size_query_text(enc_size, dec_size) == "lc3 size query failed: enc="@
            + text::decimal_signed(enc_size as int) + (", dec="@ + text::decimal_signed(
            dec_size as int,
        )),
{
    let d = text::decimal_signed(code as int);
    text::lemma_joined_parts("LC3 invalid configuration: "@, s@);
    text::lemma_joined_parts("LC3 init failed: "@, s@);
    text::lemma_joined_parts("LC3 decode failed with code "@, d);
    text::lemma_joined_parts("LC3 encode failed with code "@, d);
    assert(size_query_text(enc_size, dec_size) =~= "lc3 size query failed: enc="@
        + text::decimal_signed(enc_size as int) + (", dec="@ + text::decimal_signed(
        dec_size as int,
    )));
}

} // verus!
