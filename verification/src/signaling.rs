//! Signaling over a Firebase Realtime Database: endpoint URLs and the
//! messages exchanged through per-user inboxes.
//!
//! The HTTP exchanges themselves are made by the caller; this module builds
//! what is sent and reads what comes back.

use vstd::prelude::*;

use crate::ids::{RoomId, UserId};
use crate::text::{concat_text, text_eq};

verus! {

#[verifier::external_type_specification]
#[verifier::external_body]
pub struct ExHttpError(reqwest::Error);

#[verifier::external_type_specification]
#[verifier::external_body]
pub struct ExJsonError(serde_json::Error);

/// Signaling errors.
#[derive(Debug)]
pub enum SignalingError {
    Http(reqwest::Error),
    Json(serde_json::Error),
    Firebase(String),
    Timeout,
    PeerNotFound(String),
    RoomNotFound(String),
    InvalidConfig(String),
}

/// Whether `text` is the message of a signaling error. The text of an HTTP
/// or JSON error after its prefix is that error's own display text.
pub open spec fn is_signaling_error_text(e: SignalingError, text: Seq<char>) -> bool {
    match e {
        SignalingError::Http(_) => exists|t: Seq<char>| text == "HTTP error: "@ + t,
        SignalingError::Json(_) => exists|t: Seq<char>| text == "JSON error: "@ + t,
        SignalingError::Firebase(s) => text == "Firebase error: "@ + s@,
        SignalingError::Timeout => text == "Connection timeout"@,
        SignalingError::PeerNotFound(s) => text == "Peer not found: "@ + s@,
        SignalingError::RoomNotFound(s) => text == "Room not found: "@ + s@,
        SignalingError::InvalidConfig(s) => text == "Invalid configuration: "@ + s@,
    }
}

impl SignalingError {
    /// The human-readable message.
    pub fn message(&self) -> (r: String)
        ensures
            is_signaling_error_text(*self, r@),
    {
        match self {
            SignalingError::Http(e) => {
                let t = e.to_string();
                let r = concat_text("HTTP error: ", t.as_str());
                assert(r@ == "HTTP error: "@ + t@);
                r
            },
            SignalingError::Json(e) => {
                let t = e.to_string();
                let r = concat_text("JSON error: ", t.as_str());
                assert(r@ == "JSON error: "@ + t@);
                r
            },
            SignalingError::Firebase(s) => concat_text("Firebase error: ", s.as_str()),
            SignalingError::Timeout => String::from_str("Connection timeout"),
            SignalingError::PeerNotFound(s) => concat_text("Peer not found: ", s.as_str()),
            SignalingError::RoomNotFound(s) => concat_text("Room not found: ", s.as_str()),
            SignalingError::InvalidConfig(s) => concat_text("Invalid configuration: ", s.as_str()),
        }
    }
}

/// Signaling message types.
#[derive(Debug)]
pub enum SignalMessage {
    /// SDP offer.
    Offer { sdp: String },
    /// SDP answer.
    Answer { sdp: String },
    /// ICE candidate.
    IceCandidate { candidate: String, sdp_mid: Option<String>, sdp_mline_index: Option<u16> },
}

/// The model of a signaling message.
pub enum SignalView {
    Offer { sdp: Seq<char> },
    Answer { sdp: Seq<char> },
    IceCandidate { candidate: Seq<char>, sdp_mid: Option<Seq<char>>, sdp_mline_index: Option<u16> },
}

/// The view of an optional string.
pub open spec fn opt_text(o: Option<String>) -> Option<Seq<char>> {
    match o {
        Some(s) => Some(s@),
        None => None,
    }
}

impl View for SignalMessage {
    type V = SignalView;

    open spec fn view(&self) -> SignalView {
        match self {
            SignalMessage::Offer { sdp } => SignalView::Offer { sdp: sdp@ },
            SignalMessage::Answer { sdp } => SignalView::Answer { sdp: sdp@ },
            SignalMessage::IceCandidate { candidate, sdp_mid, sdp_mline_index } => SignalView::IceCandidate {
                candidate: candidate@,
                sdp_mid: opt_text(*sdp_mid),
                sdp_mline_index: *sdp_mline_index,
            },
        }
    }
}

/// Firebase Realtime Database configuration.
#[derive(Debug)]
pub struct FirebaseConfig {
    /// Firebase project URL (e.g., "https://your-project.firebaseio.com").
    pub database_url: String,
    /// Optional authentication token.
    pub auth_token: Option<String>,
    /// Polling interval for receiving messages, in milliseconds.
    pub poll_interval_ms: u64,
}

impl Default for FirebaseConfig {
    /// No database URL and no token, polling every 500 ms.
    fn default() -> (r: Self)
        ensures
            r.database_url@.len() == 0,
            r.auth_token.is_none(),
            r.poll_interval_ms == 500,
    {
        FirebaseConfig { database_url: String::new(), auth_token: None, poll_interval_ms: 500 }
    }
}

impl Clone for FirebaseConfig {
    fn clone(&self) -> (r: Self)
        ensures
            r.database_url@ == self.database_url@,
            opt_text(r.auth_token) == opt_text(self.auth_token),
            r.poll_interval_ms == self.poll_interval_ms,
    {
        FirebaseConfig {
            database_url: self.database_url.clone(),
            auth_token: match &self.auth_token {
                Some(t) => Some(t.clone()),
                None => None,
            },
            poll_interval_ms: self.poll_interval_ms,
        }
    }
}

/// The query suffix that carries the token, if any.
pub open spec fn auth_suffix_text(token: Option<Seq<char>>) -> Seq<char> {
    match token {
        Some(t) => "?auth="@ + t,
        None => Seq::empty(),
    }
}

/// Append the token's query suffix, if any.
fn push_auth(s: &mut String, config: &FirebaseConfig)
    ensures
        final(s)@ == old(s)@ + auth_suffix_text(opt_text(config.auth_token)),
{
    match &config.auth_token {
        Some(t) => {
            s.append("?auth=");
            s.append(t.as_str());
            assert(final(s)@ =~= old(s)@ + ("?auth="@ + t@));
        },
        None => {
            assert(old(s)@ + Seq::<char>::empty() =~= old(s)@);
        },
    }
}

/// The URL of a room's data.
pub fn room_url(config: &FirebaseConfig, room_id: &RoomId) -> (r: String)
    ensures
        r@ == config.database_url@ + "/rooms/"@ + room_id@ + ".json"@ + auth_suffix_text(
            opt_text(config.auth_token),
        ),
{
    let mut s = String::from_str(config.database_url.as_str());
    s.append("/rooms/");
    s.append(room_id.as_str());
    s.append(".json");
    push_auth(&mut s, config);
    s
}

/// The URL of a user's inbox in a room.
pub fn inbox_url(config: &FirebaseConfig, room_id: &RoomId, user_id: &UserId) -> (r: String)
    ensures
        r@ == config.database_url@ + "/rooms/"@ + room_id@ + "/inbox/"@ + user_id@ + ".json"@
            + auth_suffix_text(opt_text(config.auth_token)),
{
    let mut s = String::from_str(config.database_url.as_str());
    s.append("/rooms/");
    s.append(room_id.as_str());
    s.append("/inbox/");
    s.append(user_id.as_str());
    s.append(".json");
    push_auth(&mut s, config);
    s
}

/// The URL of a user's presence record in a room.
pub fn presence_url(config: &FirebaseConfig, room_id: &RoomId, user_id: &UserId) -> (r: String)
    ensures
        r@ == config.database_url@ + "/rooms/"@ + room_id@ + "/presence/"@ + user_id@ + ".json"@
            + auth_suffix_text(opt_text(config.auth_token)),
{
    let mut s = String::from_str(config.database_url.as_str());
    s.append("/rooms/");
    s.append(room_id.as_str());
    s.append("/presence/");
    s.append(user_id.as_str());
    s.append(".json");
    push_auth(&mut s, config);
    s
}

/// The URL of all presence records in a room.
pub fn presence_list_url(config: &FirebaseConfig, room_id: &RoomId) -> (r: String)
    ensures
        r@ == config.database_url@ + "/rooms/"@ + room_id@ + "/presence.json"@ + auth_suffix_text(
            opt_text(config.auth_token),
        ),
{
    let mut s = String::from_str(config.database_url.as_str());
    s.append("/rooms/");
    s.append(room_id.as_str());
    s.append("/presence.json");
    push_auth(&mut s, config);
    s
}

/// A signaling message as stored in an inbox.
#[derive(Debug)]
pub struct StoredMessage {
    pub msg_type: String,
    pub from: String,
    pub to: String,
    pub sdp: Option<String>,
    pub candidate: Option<String>,
    pub sdp_mid: Option<String>,
    pub sdp_mline_index: Option<u16>,
    pub timestamp: i64,
}

/// What a stored message means to its recipient: the sender and the
/// message, for an offer or answer with an SDP or an ICE message with a
/// candidate; nothing for anything else.
pub open spec fn signal_spec(m: StoredMessage) -> Option<(Seq<char>, SignalView)> {
    if m.msg_type@ == "offer"@ {
        match m.sdp {
            Some(s) => Some((m.from@, SignalView::Offer { sdp: s@ })),
            None => None,
        }
    } else if m.msg_type@ == "answer"@ {
        match m.sdp {
            Some(s) => Some((m.from@, SignalView::Answer { sdp: s@ })),
            None => None,
        }
    } else if m.msg_type@ == "ice"@ {
        match m.candidate {
            Some(c) => Some(
                (
                    m.from@,
                    SignalView::IceCandidate {
                        candidate: c@,
                        sdp_mid: opt_text(m.sdp_mid),
                        sdp_mline_index: m.sdp_mline_index,
                    },
                ),
            ),
            None => None,
        }
    } else {
        None
    }
}

/// The view of a decoded signal.
pub open spec fn signal_pair_view(p: (UserId, SignalMessage)) -> (Seq<char>, SignalView) {
    (p.0@, p.1@)
}

/// A copy of an optional string.
fn copy_opt(o: &Option<String>) -> (r: Option<String>)
    ensures
        opt_text(r) == opt_text(*o),
{
    match o {
        Some(s) => Some(s.clone()),
        None => None,
    }
}

/// Read one stored message: who sent it and what it says, or `None` for an
/// unknown type or a message without its payload.
pub fn signal_of(m: &StoredMessage) -> (r: Option<(UserId, SignalMessage)>)
    ensures
        match r {
            Some(p) => signal_spec(*m) == Some(signal_pair_view(p)),
            None => signal_spec(*m).is_none(),
        },
{
    let from = UserId::new(m.from.as_str());
    if text_eq(m.msg_type.as_str(), "offer") {
        match &m.sdp {
            Some(s) => Some((from, SignalMessage::Offer { sdp: s.clone() })),
            None => None,
        }
    } else if text_eq(m.msg_type.as_str(), "answer") {
        match &m.sdp {
            Some(s) => Some((from, SignalMessage::Answer { sdp: s.clone() })),
            None => None,
        }
    } else if text_eq(m.msg_type.as_str(), "ice") {
        match &m.candidate {
            Some(c) => Some(
                (
                    from,
                    SignalMessage::IceCandidate {
                        candidate: c.clone(),
                        sdp_mid: copy_opt(&m.sdp_mid),
                        sdp_mline_index: m.sdp_mline_index,
                    },
                ),
            ),
            None => None,
        }
    } else {
        None
    }
}

/// The signals in an inbox's messages, in the order given, skipping those
/// that say nothing.
pub open spec fn inbox_spec(ms: Seq<StoredMessage>) -> Seq<(Seq<char>, SignalView)>
    decreases ms.len(),
{
    if ms.len() == 0 {
        Seq::empty()
    } else {
        let rest = inbox_spec(ms.drop_last());
        match signal_spec(ms.last()) {
            Some(p) => rest.push(p),
            None => rest,
        }
    }
}

/// Read the messages taken from an inbox.
pub fn inbox_signals(messages: &[StoredMessage]) -> (r: Vec<(UserId, SignalMessage)>)
    ensures
        r@.map_values(|p: (UserId, SignalMessage)| signal_pair_view(p)) == inbox_spec(messages@),
{
    let mut r: Vec<(UserId, SignalMessage)> = Vec::new();
    let mut i: usize = 0;
    while i < messages.len()
        invariant
            i <= messages@.len(),
            r@.map_values(|p: (UserId, SignalMessage)| signal_pair_view(p)) == inbox_spec(
                messages@.subrange(0, i as int),
            ),
        decreases messages@.len() - i,
    {
        let ghost before = r@;
        assert(messages@.subrange(0, i + 1).drop_last() =~= messages@.subrange(0, i as int));
        match signal_of(&messages[i]) {
            Some(p) => {
                r.push(p);
                assert(r@.map_values(|p: (UserId, SignalMessage)| signal_pair_view(p)) =~= before.map_values(
                    |p: (UserId, SignalMessage)| signal_pair_view(p),
                ).push(signal_pair_view(r@.last())));
            },
            None => {},
        }
        i = i + 1;
    }
    assert(messages@.subrange(0, messages@.len() as int) =~= messages@);
    r
}

/// The stored form of an offer, answer or other message from `from` to `to`.
pub fn outgoing_message(
    from: &UserId,
    to: &UserId,
    msg_type: &str,
    sdp: Option<&str>,
    candidate: Option<&str>,
    timestamp: i64,
) -> (m: StoredMessage)
    ensures
        m.msg_type@ == msg_type@,
        m.from@ == from@,
        m.to@ == to@,
        opt_text(m.sdp) == (match sdp {
            Some(s) => Some(s@),
            None => None::<Seq<char>>,
        }),
        opt_text(m.candidate) == (match candidate {
            Some(s) => Some(s@),
            None => None::<Seq<char>>,
        }),
        m.sdp_mid.is_none(),
        m.sdp_mline_index.is_none(),
        m.timestamp == timestamp,
{
    StoredMessage {
        msg_type: String::from_str(msg_type),
        from: from.to_string(),
        to: to.to_string(),
        sdp: match sdp {
            Some(s) => Some(String::from_str(s)),
            None => None,
        },
        candidate: match candidate {
            Some(s) => Some(String::from_str(s)),
            None => None,
        },
        sdp_mid: None,
        sdp_mline_index: None,
        timestamp,
    }
}

/// The stored form of an ICE candidate from `from` to `to`.
pub fn ice_message(
    from: &UserId,
    to: &UserId,
    candidate: &str,
    sdp_mid: Option<&str>,
    sdp_mline_index: Option<u16>,
    timestamp: i64,
) -> (m: StoredMessage)
    ensures
        m.msg_type@ == "ice"@,
        m.from@ == from@,
        m.to@ == to@,
        m.sdp.is_none(),
        opt_text(m.candidate) == Some(candidate@),
        opt_text(m.sdp_mid) == (match sdp_mid {
            Some(s) => Some(s@),
            None => None::<Seq<char>>,
        }),
        m.sdp_mline_index == sdp_mline_index,
        m.timestamp == timestamp,
{
    StoredMessage {
        msg_type: String::from_str("ice"),
        from: from.to_string(),
        to: to.to_string(),
        sdp: None,
        candidate: Some(String::from_str(candidate)),
        sdp_mid: match sdp_mid {
            Some(s) => Some(String::from_str(s)),
            None => None,
        },
        sdp_mline_index,
        timestamp,
    }
}

/// An ICE message read back by its recipient is the candidate that was
/// sent, from its sender.
pub proof fn law_ice_message_read_back(m: StoredMessage, from: Seq<char>, candidate: Seq<char>, mid: Option<Seq<char>>, index: Option<u16>)
    requires
        m.msg_type@ == "ice"@,
        m.from@ == from,
        opt_text(m.candidate) == Some(candidate),
        opt_text(m.sdp_mid) == mid,
        m.sdp_mline_index == index,
    ensures
        signal_spec(m) == Some((from, SignalView::IceCandidate { candidate, sdp_mid: mid, sdp_mline_index: index })),
{
    reveal_strlit("ice");
    reveal_strlit("offer");
    reveal_strlit("answer");
    assert("ice"@.len() == 3 && "offer"@.len() == 5 && "answer"@.len() == 6);
}

/// An offer or answer read back by its recipient is the SDP that was sent,
/// from its sender.
pub proof fn law_sdp_message_read_back(m: StoredMessage, from: Seq<char>, sdp: Seq<char>)
    requires
        m.msg_type@ == "offer"@ || m.msg_type@ == "answer"@,
        m.from@ == from,
        opt_text(m.sdp) == Some(sdp),
    ensures
        m.msg_type@ == "offer"@ ==> signal_spec(m) == Some((from, SignalView::Offer { sdp })),
        m.msg_type@ == "answer"@ ==> signal_spec(m) == Some((from, SignalView::Answer { sdp })),
{
    reveal_strlit("offer");
    reveal_strlit("answer");
    assert("offer"@.len() == 5 && "answer"@.len() == 6);
}

} // verus!
