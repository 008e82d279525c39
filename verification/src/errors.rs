//! The error of the intercom facade, wrapping each component's error.

use vstd::prelude::*;

use crate::codec::{codec_error_text, CodecError};
use crate::crypto::{crypto_error_text, CryptoError};
use crate::devices::{audio_error_text, AudioError};
use crate::session::{session_error_text, SessionError};
use crate::signaling::{is_signaling_error_text, SignalingError};
use crate::text::concat_text;
use crate::transport::{transport_error_text, TransportError};

verus! {

/// Core errors.
#[derive(Debug)]
pub enum CoreError {
    Audio(AudioError),
    Codec(CodecError),
    Transport(TransportError),
    Signaling(SignalingError),
    Session(SessionError),
    Crypto(CryptoError),
    NotConnected,
    AlreadyConnected,
    InvalidConfig(String),
    Timeout,
}

/// Whether `text` is the message of a core error: a prefix naming the
/// component, then the component error's own message.
pub open spec fn is_core_error_text(e: CoreError, text: Seq<char>) -> bool {
    match e {
        CoreError::Audio(a) => text == "Audio error: "@ + audio_error_text(a),
        CoreError::Codec(c) => text == "Codec error: "@ + codec_error_text(c),
        CoreError::Transport(t) => text == "Transport error: "@ + transport_error_text(t),
        CoreError::Signaling(s) => exists|t: Seq<char>|
            text == "Signaling error: "@ + t && is_signaling_error_text(s, t),
        CoreError::Session(s) => text == "Session error: "@ + session_error_text(s@),
        CoreError::Crypto(c) => text == "Crypto error: "@ + crypto_error_text(c),
        CoreError::NotConnected => text == "Not connected"@,
        CoreError::AlreadyConnected => text == "Already connected"@,
        CoreError::InvalidConfig(s) => text == "Invalid configuration: "@ + s@,
        CoreError::Timeout => text == "Operation timeout"@,
    }
}

impl CoreError {
    /// The human-readable message.
    pub fn message(&self) -> (r: String)
        ensures
            is_core_error_text(*self, r@),
    {
        match self {
            CoreError::Audio(a) => {
                let m = a.message();
                concat_text("Audio error: ", m.as_str())
            },
            CoreError::Codec(c) => {
                let m = c.message();
                concat_text("Codec error: ", m.as_str())
            },
            CoreError::Transport(t) => {
                let m = t.message();
                concat_text("Transport error: ", m.as_str())
            },
            CoreError::Signaling(s) => {
                let m = s.message();
                let r = concat_text("Signaling error: ", m.as_str());
                assert(r@ == "Signaling error: "@ + m@ && is_signaling_error_text(*s, m@));
                r
            },
            CoreError::Session(s) => {
                let m = s.message();
                concat_text("Session error: ", m.as_str())
            },
            CoreError::Crypto(c) => {
                let m = c.message();
                concat_text("Crypto error: ", m.as_str())
            },
            CoreError::NotConnected => String::from_str("Not connected"),
            CoreError::AlreadyConnected => String::from_str("Already connected"),
            CoreError::InvalidConfig(s) => concat_text("Invalid configuration: ", s.as_str()),
            CoreError::Timeout => String::from_str("Operation timeout"),
        }
    }
}

} // verus!
