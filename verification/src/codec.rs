//! Codec-side types: errors and encoded frames.

use vstd::prelude::*;

use crate::text::{concat_text, dec_text, push_decimal};

verus! {

/// Codec errors.
#[derive(Debug)]
pub enum CodecError {
    EncoderCreation(String),
    DecoderCreation(String),
    Encoding(String),
    Decoding(String),
    InvalidFrameSize(usize),
    BufferTooSmall { needed: usize, available: usize },
}

/// The message of a codec error.
pub open spec fn codec_error_text(e: CodecError) -> Seq<char> {
    match e {
        CodecError::EncoderCreation(s) => "Failed to create encoder: "@ + s@,
        CodecError::DecoderCreation(s) => "Failed to create decoder: "@ + s@,
        CodecError::Encoding(s) => "Encoding error: "@ + s@,
        CodecError::Decoding(s) => "Decoding error: "@ + s@,
        CodecError::InvalidFrameSize(n) => "Invalid frame size: "@ + dec_text(n as nat),
        CodecError::BufferTooSmall { needed, available } => "Buffer too small: need "@ + dec_text(
            needed as nat,
        ) + ", have "@ + dec_text(available as nat),
    }
}

impl CodecError {
    /// The human-readable message.
    pub fn message(&self) -> (r: String)
        ensures
            r@ == codec_error_text(*self),
    {
        match self {
            CodecError::EncoderCreation(s) => concat_text("Failed to create encoder: ", s.as_str()),
            CodecError::DecoderCreation(s) => concat_text("Failed to create decoder: ", s.as_str()),
            CodecError::Encoding(s) => concat_text("Encoding error: ", s.as_str()),
            CodecError::Decoding(s) => concat_text("Decoding error: ", s.as_str()),
            CodecError::InvalidFrameSize(n) => {
                let mut r = String::from_str("Invalid frame size: ");
                push_decimal(&mut r, *n as u64);
                r
            },
            CodecError::BufferTooSmall { needed, available } => {
                let mut r = String::from_str("Buffer too small: need ");
                push_decimal(&mut r, *needed as u64);
                r.append(", have ");
                push_decimal(&mut r, *available as u64);
                r
            },
        }
    }
}

/// Encoded audio frame.
#[derive(Debug)]
pub struct EncodedFrame {
    /// The encoded data.
    pub data: Vec<u8>,
    /// Number of samples encoded.
    pub samples: usize,
    /// Whether this frame contains voice (if VAD is enabled).
    pub has_voice: bool,
}

impl EncodedFrame {
    /// A frame of encoded data, marked as containing voice.
    pub fn new(data: Vec<u8>, samples: usize) -> (r: Self)
        ensures
            r.data@ == data@,
            r.samples == samples,
            r.has_voice,
    {
        EncodedFrame { data, samples, has_voice: true }
    }

    /// The same frame with its voice flag set to `has_voice`.
    pub fn with_voice(self, has_voice: bool) -> (r: Self)
        ensures
            r.data@ == self.data@,
            r.samples == self.samples,
            r.has_voice == has_voice,
    {
        let mut f = self;
        f.has_voice = has_voice;
        f
    }
}

/// The sample rates the Opus codec runs at.
#[derive(Debug, Clone, Copy, PartialEq, Eq, Structural)]
pub enum OpusRate {
    Hz8000,
    Hz12000,
    Hz16000,
    Hz24000,
    Hz48000,
}

/// The rate in Hz of an Opus rate.
pub open spec fn opus_rate_hz(r: OpusRate) -> u32 {
    match r {
        OpusRate::Hz8000 => 8000,
        OpusRate::Hz12000 => 12000,
        OpusRate::Hz16000 => 16000,
        OpusRate::Hz24000 => 24000,
        OpusRate::Hz48000 => 48000,
    }
}

/// Whether Opus runs at `hz`.
pub open spec fn opus_supports(hz: u32) -> bool {
    hz == 8000 || hz == 12000 || hz == 16000 || hz == 24000 || hz == 48000
}

/// The Opus rate for `hz`, if Opus runs at it.
pub fn opus_rate(hz: u32) -> (r: Option<OpusRate>)
    ensures
        r.is_some() == opus_supports(hz),
        r matches Some(x) ==> opus_rate_hz(x) == hz,
{
    match hz {
        8000 => Some(OpusRate::Hz8000),
        12000 => Some(OpusRate::Hz12000),
        16000 => Some(OpusRate::Hz16000),
        24000 => Some(OpusRate::Hz24000),
        48000 => Some(OpusRate::Hz48000),
        _ => None,
    }
}

/// The text naming an unsupported rate: "Unsupported sample rate: " and
/// the rate.
pub open spec fn unsupported_rate_text(hz: u32) -> Seq<char> {
    "Unsupported sample rate: "@ + dec_text(hz as nat)
}

/// The rate an encoder is made for, or the creation error for a rate Opus
/// does not run at.
pub fn encoder_rate(hz: u32) -> (r: Result<OpusRate, CodecError>)
    ensures
        r is Ok == opus_supports(hz),
        r matches Ok(x) ==> opus_rate_hz(x) == hz,
        r matches Err(e) ==> (e matches CodecError::EncoderCreation(m) && m@ == unsupported_rate_text(hz)),
{
    match opus_rate(hz) {
        Some(r) => Ok(r),
        None => {
            let mut m = String::from_str("Unsupported sample rate: ");
            push_decimal(&mut m, hz as u64);
            Err(CodecError::EncoderCreation(m))
        },
    }
}

/// The rate a decoder is made for, or the creation error for a rate Opus
/// does not run at.
pub fn decoder_rate(hz: u32) -> (r: Result<OpusRate, CodecError>)
    ensures
        r is Ok == opus_supports(hz),
        r matches Ok(x) ==> opus_rate_hz(x) == hz,
        r matches Err(e) ==> (e matches CodecError::DecoderCreation(m) && m@ == unsupported_rate_text(hz)),
{
    match opus_rate(hz) {
        Some(r) => Ok(r),
        None => {
            let mut m = String::from_str("Unsupported sample rate: ");
            push_decimal(&mut m, hz as u64);
            Err(CodecError::DecoderCreation(m))
        },
    }
}

/// An encoder takes exactly one frame of `frame_size` samples.
pub fn check_frame(len: usize, frame_size: usize) -> (r: Result<(), CodecError>)
    ensures
        r is Ok == (len == frame_size),
        r matches Err(e) ==> (e matches CodecError::InvalidFrameSize(n) && n == len),
{
    if len != frame_size {
        Err(CodecError::InvalidFrameSize(len))
    } else {
        Ok(())
    }
}

} // verus!
