//! Verified core of a low-latency voice intercom: wire formats, session state,
//! jitter buffering, encryption framing and device selection.

pub mod audio_params;
pub mod base64;
pub mod client;
pub mod codec;
pub mod config;
pub mod clock;
pub mod crypto;
pub mod devices;
pub mod errors;
pub mod ffi;
pub mod idmap;
pub mod ids;
pub mod jitter_buffer;
pub mod messages;
pub mod mixer;
pub mod packet;
pub mod server;
pub mod session;
pub mod session_laws;
pub mod signaling;
pub mod text;
pub mod transport;
pub mod vad;
