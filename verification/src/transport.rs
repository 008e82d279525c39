//! Transport-side types: errors, connection states and ICE configuration.

use vstd::prelude::*;

use crate::text::concat_text;

verus! {

/// Transport errors.
#[derive(Debug)]
pub enum TransportError {
    WebRTC(String),
    ConnectionFailed(String),
    IceGatheringFailed,
    SignalingError(String),
    ChannelClosed,
    Timeout,
    InvalidSdp(String),
    NotConnected,
}

/// The message of a transport error.
pub open spec fn transport_error_text(e: TransportError) -> Seq<char> {
    match e {
        TransportError::WebRTC(s) => "WebRTC error: "@ + s@,
        TransportError::ConnectionFailed(s) => "Connection failed: "@ + s@,
        TransportError::IceGatheringFailed => "ICE gathering failed"@,
        TransportError::SignalingError(s) => "Signaling error: "@ + s@,
        TransportError::ChannelClosed => "Channel closed"@,
        TransportError::Timeout => "Timeout"@,
        TransportError::InvalidSdp(s) => "Invalid SDP: "@ + s@,
        TransportError::NotConnected => "Peer not connected"@,
    }
}

impl TransportError {
    /// The human-readable message.
    pub fn message(&self) -> (r: String)
        ensures
            r@ == transport_error_text(*self),
    {
        match self {
            TransportError::WebRTC(s) => concat_text("WebRTC error: ", s.as_str()),
            TransportError::ConnectionFailed(s) => concat_text("Connection failed: ", s.as_str()),
            TransportError::IceGatheringFailed => String::from_str("ICE gathering failed"),
            TransportError::SignalingError(s) => concat_text("Signaling error: ", s.as_str()),
            TransportError::ChannelClosed => String::from_str("Channel closed"),
            TransportError::Timeout => String::from_str("Timeout"),
            TransportError::InvalidSdp(s) => concat_text("Invalid SDP: ", s.as_str()),
            TransportError::NotConnected => String::from_str("Peer not connected"),
        }
    }
}

/// The public STUN servers used for NAT traversal, in order of preference.
pub open spec fn stun_server_texts() -> Seq<Seq<char>> {
    seq![
        "stun:stun.l.google.com:19302"@,
        "stun:stun1.l.google.com:19302"@,
        "stun:stun2.l.google.com:19302"@,
        "stun:stun.cloudflare.com:3478"@,
    ]
}

/// The views of a list of strings.
pub open spec fn texts(v: Seq<String>) -> Seq<Seq<char>> {
    v.map_values(|s: String| s@)
}

/// Public STUN servers for NAT traversal.
pub fn stun_servers() -> (r: Vec<String>)
    ensures
        texts(r@) == stun_server_texts(),
{
    let mut r: Vec<String> = Vec::new();
    r.push(String::from_str("stun:stun.l.google.com:19302"));
    r.push(String::from_str("stun:stun1.l.google.com:19302"));
    r.push(String::from_str("stun:stun2.l.google.com:19302"));
    r.push(String::from_str("stun:stun.cloudflare.com:3478"));
    assert(texts(r@) =~= stun_server_texts());
    r
}

/// Connection state for peer connections.
#[derive(Debug, Clone, Copy, PartialEq, Eq, Structural)]
pub enum ConnectionState {
    New,
    Connecting,
    Connected,
    Disconnected,
    Failed,
    Closed,
}

/// The display name of a connection state.
pub open spec fn connection_state_text(s: ConnectionState) -> Seq<char> {
    match s {
        ConnectionState::New => "New"@,
        ConnectionState::Connecting => "Connecting"@,
        ConnectionState::Connected => "Connected"@,
        ConnectionState::Disconnected => "Disconnected"@,
        ConnectionState::Failed => "Failed"@,
        ConnectionState::Closed => "Closed"@,
    }
}

impl ConnectionState {
    /// The display name.
    pub fn as_str(&self) -> (r: &'static str)
        ensures
            r@ == connection_state_text(*self),
    {
        match self {
            ConnectionState::New => "New",
            ConnectionState::Connecting => "Connecting",
            ConnectionState::Connected => "Connected",
            ConnectionState::Disconnected => "Disconnected",
            ConnectionState::Failed => "Failed",
            ConnectionState::Closed => "Closed",
        }
    }
}

/// TURN server configuration.
#[derive(Debug)]
pub struct TurnServer {
    pub urls: Vec<String>,
    pub username: String,
    pub credential: String,
}

/// ICE candidate for signaling.
#[derive(Debug)]
pub struct IceCandidate {
    pub candidate: String,
    pub sdp_mid: Option<String>,
    pub sdp_mline_index: Option<u16>,
}

/// Transport configuration.
#[derive(Debug)]
pub struct TransportConfig {
    /// STUN server URLs.
    pub stun_servers: Vec<String>,
    /// Optional TURN server URLs with credentials.
    pub turn_servers: Vec<TurnServer>,
    /// Ordered/reliable data channel.
    pub ordered: bool,
    /// Max retransmits (for unreliable mode).
    pub max_retransmits: Option<u16>,
}

impl Default for TransportConfig {
    /// The public STUN servers, no TURN server, and an unordered channel
    /// without retransmits, for low latency.
    fn default() -> (r: Self)
        ensures
            texts(r.stun_servers@) == stun_server_texts(),
            r.turn_servers@.len() == 0,
            !r.ordered,
            r.max_retransmits == Some(0u16),
    {
        TransportConfig {
            stun_servers: stun_servers(),
            turn_servers: Vec::new(),
            ordered: false,
            max_retransmits: Some(0),
        }
    }
}

/// One ICE server entry of a peer connection's configuration.
#[derive(Debug)]
pub struct IceServer {
    pub urls: Vec<String>,
    pub username: String,
    pub credential: String,
}

/// A copy of a list of strings.
pub fn copy_texts(v: &Vec<String>) -> (r: Vec<String>)
    ensures
        texts(r@) == texts(v@),
{
    let mut r: Vec<String> = Vec::new();
    let mut i: usize = 0;
    while i < v.len()
        invariant
            i <= v@.len(),
            texts(r@) == texts(v@.subrange(0, i as int)),
        decreases v@.len() - i,
    {
        let ghost before = r@;
        let t = v[i].clone();
        r.push(t);
        assert(r@ =~= before.push(v@[i as int]));
        assert(v@.subrange(0, i + 1) =~= v@.subrange(0, i as int).push(v@[i as int]));
        assert(texts(r@) =~= texts(before).push(v@[i as int]@));
        assert(texts(v@.subrange(0, i + 1)) =~= texts(v@.subrange(0, i as int)).push(v@[i as int]@));
        i = i + 1;
    }
    assert(v@.subrange(0, v@.len() as int) =~= v@);
    r
}

/// The ICE servers of a peer connection: first one entry with all the STUN
/// URLs and no credentials, then one entry per TURN server.
pub fn ice_servers(config: &TransportConfig) -> (r: Vec<IceServer>)
    ensures
        r@.len() == config.turn_servers@.len() + 1,
        texts(r@[0].urls@) == texts(config.stun_servers@),
        r@[0].username@.len() == 0,
        r@[0].credential@.len() == 0,
        forall|i: int|
            0 <= i < config.turn_servers@.len() ==> {
                &&& texts(#[trigger] r@[i + 1].urls@) == texts(config.turn_servers@[i].urls@)
                &&& r@[i + 1].username@ == config.turn_servers@[i].username@
                &&& r@[i + 1].credential@ == config.turn_servers@[i].credential@
            },
{
    let mut r: Vec<IceServer> = Vec::new();
    r.push(IceServer { urls: copy_texts(&config.stun_servers), username: String::new(), credential: String::new() });
    let mut i: usize = 0;
    while i < config.turn_servers.len()
        invariant
            i <= config.turn_servers@.len(),
            r@.len() == i + 1,
            texts(r@[0].urls@) == texts(config.stun_servers@),
            r@[0].username@.len() == 0,
            r@[0].credential@.len() == 0,
            forall|j: int|
                0 <= j < i ==> {
                    &&& texts(#[trigger] r@[j + 1].urls@) == texts(config.turn_servers@[j].urls@)
                    &&& r@[j + 1].username@ == config.turn_servers@[j].username@
                    &&& r@[j + 1].credential@ == config.turn_servers@[j].credential@
                },
        decreases config.turn_servers@.len() - i,
    {
        let turn = &config.turn_servers[i];
        r.push(IceServer { urls: copy_texts(&turn.urls), username: turn.username.clone(), credential: turn.credential.clone() });
        i = i + 1;
    }
    r
}

} // verus!
