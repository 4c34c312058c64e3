//! Sample formats a stream's audio data can use.

use vstd::prelude::*;

verus! {

/// The sample format of a stream, as carried inside a sample specification.
#[allow(non_camel_case_types)]
#[derive(Debug, Clone, Copy, PartialEq, Eq, Structural)]
pub enum SampleFormat {
    /// Unsigned 8-bit PCM
    U8,
    /// 8-bit a-Law
    ALAW,
    /// 8-bit mu-Law
    ULAW,
    /// Signed 16-bit PCM, little endian
    S16LE,
    /// Signed 16-bit PCM, big endian
    S16BE,
    /// 32-bit IEEE floating point, little endian
    F32LE,
    /// 32-bit IEEE floating point, big endian
    F32BE,
    /// Signed 32-bit PCM, little endian
    S32LE,
    /// Signed 32-bit PCM, big endian
    S32BE,
    /// Signed 24-bit PCM packed, little endian
    S24LE,
    /// Signed 24-bit PCM packed, big endian
    S24BE,
    /// Signed 24-bit PCM in the low bytes of 32-bit words, little endian
    S24_32LE,
    /// Signed 24-bit PCM in the low bytes of 32-bit words, big endian
    S24_32BE,
    /// An invalid value
    INVALID,
}

impl SampleFormat {
    /// The code that stands for this value on the wire.
    pub open spec fn code(self) -> u8 {
        match self {
            SampleFormat::U8 => 0,
            SampleFormat::ALAW => 1,
            SampleFormat::ULAW => 2,
            SampleFormat::S16LE => 3,
            SampleFormat::S16BE => 4,
            SampleFormat::F32LE => 5,
            SampleFormat::F32BE => 6,
            SampleFormat::S32LE => 7,
            SampleFormat::S32BE => 8,
            SampleFormat::S24LE => 9,
            SampleFormat::S24BE => 10,
            SampleFormat::S24_32LE => 11,
            SampleFormat::S24_32BE => 12,
            SampleFormat::INVALID => 0xFF,
        }
    }

    /// The value a wire code stands for, if any.
    pub open spec fn from_code(c: u8) -> Option<SampleFormat> {
        match c {
            0 => Some(SampleFormat::U8),
            1 => Some(SampleFormat::ALAW),
            2 => Some(SampleFormat::ULAW),
            3 => Some(SampleFormat::S16LE),
            4 => Some(SampleFormat::S16BE),
            5 => Some(SampleFormat::F32LE),
            6 => Some(SampleFormat::F32BE),
            7 => Some(SampleFormat::S32LE),
            8 => Some(SampleFormat::S32BE),
            9 => Some(SampleFormat::S24LE),
            10 => Some(SampleFormat::S24BE),
            11 => Some(SampleFormat::S24_32LE),
            12 => Some(SampleFormat::S24_32BE),
            0xFF => Some(SampleFormat::INVALID),
            _ => None,
        }
    }

    pub fn to_u8(self) -> (c: u8)
        ensures
            c == self.code(),
    {
        match self {
            SampleFormat::U8 => 0,
            SampleFormat::ALAW => 1,
            SampleFormat::ULAW => 2,
            SampleFormat::S16LE => 3,
            SampleFormat::S16BE => 4,
            SampleFormat::F32LE => 5,
            SampleFormat::F32BE => 6,
            SampleFormat::S32LE => 7,
            SampleFormat::S32BE => 8,
            SampleFormat::S24LE => 9,
            SampleFormat::S24BE => 10,
            SampleFormat::S24_32LE => 11,
            SampleFormat::S24_32BE => 12,
            SampleFormat::INVALID => 0xFF,
        }
    }

    pub fn from_u8(c: u8) -> (r: Option<SampleFormat>)
        ensures
            r == SampleFormat::from_code(c),
    {
        match c {
            0 => Some(SampleFormat::U8),
            1 => Some(SampleFormat::ALAW),
            2 => Some(SampleFormat::ULAW),
            3 => Some(SampleFormat::S16LE),
            4 => Some(SampleFormat::S16BE),
            5 => Some(SampleFormat::F32LE),
            6 => Some(SampleFormat::F32BE),
            7 => Some(SampleFormat::S32LE),
            8 => Some(SampleFormat::S32BE),
            9 => Some(SampleFormat::S24LE),
            10 => Some(SampleFormat::S24BE),
            11 => Some(SampleFormat::S24_32LE),
            12 => Some(SampleFormat::S24_32BE),
            0xFF => Some(SampleFormat::INVALID),
            _ => None,
        }
    }

    /// Decoding the code of a value gives that value back.
    pub proof fn lemma_code_round_trip(self)
        ensures
            SampleFormat::from_code(self.code()) == Some(self),
    {
    }

    /// Encoding a decoded code gives that code back.
    pub proof fn lemma_from_code_round_trip(c: u8)
        ensures
            SampleFormat::from_code(c) matches Some(v) ==> v.code() == c,
    {
    }


}

} // verus!
