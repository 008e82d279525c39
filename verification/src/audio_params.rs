//! Audio parameters used throughout the system.

use vstd::prelude::*;

verus! {

/// Sample rate in Hz.
pub const SAMPLE_RATE: u32 = 48000;

/// Number of audio channels (mono).
pub const CHANNELS: u16 = 1;

/// Frame size in samples (10 ms at 48 kHz).
pub const FRAME_SIZE: usize = 480;

/// Frame duration in milliseconds.
pub const FRAME_DURATION_MS: u32 = 10;

/// Target bitrate for the Opus encoder in bits per second.
pub const OPUS_BITRATE: i32 = 48000;

} // verus!
