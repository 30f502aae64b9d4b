//! The life of an SBC codec context: what the return codes of the system's SBC library
//! mean, and when its calls may be made.

use vstd::prelude::*;

use crate::text;

verus! {

/// Failures of the SBC library.
#[derive(Debug, Clone, Copy, PartialEq, Eq, Structural)]
pub enum SbcError {
    InitFailed(i32),
    NotInitialized,
    DecodeFailed(i32),
    EncodeFailed(i32),
}

impl SbcError {
    /// The text of an error.
    pub open spec fn text(self) -> Seq<char> {
        match self {
            SbcError::InitFailed(c) => "SBC init failed with code "@ + text::decimal_signed(c as int),
            SbcError::NotInitialized => "SBC not initialized"@,
            SbcError::DecodeFailed(c) => "SBC decode failed with code "@ + text::decimal_signed(
                c as int,
            ),
            SbcError::EncodeFailed(c) => "SBC encode failed with code "@ + text::decimal_signed(
                c as int,
            ),
        }
    }

    /// The text of an error.
    pub fn message(&self) -> (s: String)
        ensures
            s@ == self.text(),
    {
        match *self {
            SbcError::InitFailed(c) => text::with_code("SBC init failed with code ", c),
            SbcError::NotInitialized => "SBC not initialized".to_owned(),
            SbcError::DecodeFailed(c) => text::with_code("SBC decode failed with code ", c),
            SbcError::EncodeFailed(c) => text::with_code("SBC encode failed with code ", c),
        }
    }
}

/// An SBC codec context. It is live from its successful initialization until it is
/// finished, and only a live context may be used.
#[derive(Debug)]
pub struct SbcContext {
    initialized: bool,
}

impl SbcContext {
    /// The context may be used.
    pub closed spec fn live(&self) -> bool {
        self.initialized
    }

    /// Takes the return code of the library's initialization: negative codes are failures.
    pub fn new(code: i32) -> (r: Result<SbcContext, SbcError>)
        ensures
            r is Ok <==> code >= 0,
            r matches Ok(c) ==> c.live(),
            r matches Err(e) ==> e == SbcError::InitFailed(code),
    {
        if code < 0 {
            return Err(SbcError::InitFailed(code));
        }
        Ok(SbcContext { initialized: true })
    }

    /// Takes the return code of the library's initialization from A2DP configuration bytes.
    pub fn from_a2dp_config(code: i32) -> (r: Result<SbcContext, SbcError>)
        ensures
            r is Ok <==> code >= 0,
            r matches Ok(c) ==> c.live(),
            r matches Err(e) ==> e == SbcError::InitFailed(code),
    {
        SbcContext::new(code)
    }

    /// Whether the library may be called on this context.
    pub fn ready(&self) -> (r: Result<(), SbcError>)
        ensures
            r is Ok <==> self.live(),
            r matches Err(e) ==> e == SbcError::NotInitialized,
    {
        if self.initialized {
            Ok(())
        } else {
            Err(SbcError::NotInitialized)
        }
    }

    /// Takes what the library's decoder returned: the bytes it consumed, or a negative
    /// code, and the bytes it wrote.
    pub fn decode(&self, consumed: isize, written: usize) -> (r: Result<(usize, usize), SbcError>)
        ensures
            r is Ok <==> self.live() && consumed >= 0,
            r matches Ok(p) ==> p.0 == consumed && p.1 == written,
            r matches Err(e) ==> e == (if self.live() {
                SbcError::DecodeFailed(consumed as i32)
            } else {
                SbcError::NotInitialized
            }),
    {
        if !self.initialized {
            return Err(SbcError::NotInitialized);
        }
        if consumed < 0 {
            return Err(SbcError::DecodeFailed(consumed as i32));
        }
        Ok((consumed as usize, written))
    }

    /// Takes what the library's encoder returned: the bytes it consumed, or a negative
    /// code, and the bytes it wrote.
    pub fn encode(&self, consumed: isize, written: isize) -> (r: Result<(usize, usize), SbcError>)
        ensures
            r is Ok <==> self.live() && consumed >= 0,
            r matches Ok(p) ==> p.0 == consumed && p.1 == written as usize,
            r matches Err(e) ==> e == (if self.live() {
                SbcError::EncodeFailed(consumed as i32)
            } else {
                SbcError::NotInitialized
            }),
    {
        if !self.initialized {
            return Err(SbcError::NotInitialized);
        }
        if consumed < 0 {
            return Err(SbcError::EncodeFailed(consumed as i32));
        }
        Ok((consumed as usize, written as usize))
    }

    /// Ends the context's life. Says whether the library still has to release it, which
    /// is so exactly once.
    pub fn finish(&mut self) -> (release: bool)
        ensures
            release == old(self).live(),
            !final(self).live(),
    {
        let release = self.initialized;
        self.initialized = false;
        release
    }
}

/// An error of the library says what failed, and its code.
pub proof fn law_sbc_errors_say_why(code: i32)
    ensures
        text::begins_and_ends(
            SbcError::InitFailed(code).text(),
            "SBC init failed with code "@,
            text::decimal_signed(code as int),
        ),
        text::begins_and_ends(
            SbcError::DecodeFailed(code).text(),
            "SBC decode failed with code "@,
            text::decimal_signed(code as int),
        ),
        text::begins_and_ends(
            SbcError::EncodeFailed(code).text(),
            "SBC encode failed with code "@,
            text::decimal_signed(code as int),
        ),
        SbcError::NotInitialized.text() == "SBC not initialized"@,
{
    text::lemma_joined_parts("SBC init failed with code "@, text::decimal_signed(code as int));
    text::lemma_joined_parts("SBC decode failed with code "@, text::decimal_signed(code as int));
    text::lemma_joined_parts("SBC encode failed with code "@, text::decimal_signed(code as int));
}

} // verus!
