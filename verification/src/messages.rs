//! Protocol message definitions.

use vstd::prelude::*;

use crate::ids::{ChannelId, ChannelInfo, RoomId, UserId, UserInfo};
use crate::text::{concat_text, dec_text, push_decimal};

verus! {

/// Protocol version for compatibility checking.
pub const PROTOCOL_VERSION: u32 = 1;

#[verifier::external_type_specification]
#[verifier::external_body]
pub struct ExBincodeErrorKind(bincode::ErrorKind);

/// Errors that can occur during protocol operations.
#[derive(Debug)]
pub enum ProtocolError {
    Serialization(bincode::Error),
    Json(serde_json::Error),
    InvalidMessageType(u8),
    VersionMismatch { expected: u32, actual: u32 },
    InvalidPayloadSize(usize),
}

/// Whether `text` is the message of a protocol error. The text of a
/// serialization or JSON error after its prefix is that error's own display
/// text.
pub open spec fn is_protocol_error_text(e: ProtocolError, text: Seq<char>) -> bool {
    match e {
        ProtocolError::Serialization(_) => exists|t: Seq<char>| text == "Serialization error: "@ + t,
        ProtocolError::Json(_) => exists|t: Seq<char>| text == "JSON error: "@ + t,
        ProtocolError::InvalidMessageType(n) => text == "Invalid message type: "@ + dec_text(n as nat),
        ProtocolError::VersionMismatch { expected, actual } => text == "Version mismatch: expected "@
            + dec_text(expected as nat) + ", got "@ + dec_text(actual as nat),
        ProtocolError::InvalidPayloadSize(n) => text == "Invalid payload size: "@ + dec_text(n as nat),
    }
}

impl ProtocolError {
    /// The human-readable message.
    pub fn message(&self) -> (r: String)
        ensures
            is_protocol_error_text(*self, r@),
    {
        match self {
            ProtocolError::Serialization(e) => {
                let t = e.to_string();
                let r = concat_text("Serialization error: ", t.as_str());
                assert(r@ == "Serialization error: "@ + t@);
                r
            },
            ProtocolError::Json(e) => {
                let t = e.to_string();
                let r = concat_text("JSON error: ", t.as_str());
                assert(r@ == "JSON error: "@ + t@);
                r
            },
            ProtocolError::InvalidMessageType(n) => {
                let mut r = String::from_str("Invalid message type: ");
                push_decimal(&mut r, *n as u64);
                r
            },
            ProtocolError::VersionMismatch { expected, actual } => {
                let mut r = String::from_str("Version mismatch: expected ");
                push_decimal(&mut r, *expected as u64);
                r.append(", got ");
                push_decimal(&mut r, *actual as u64);
                r
            },
            ProtocolError::InvalidPayloadSize(n) => {
                let mut r = String::from_str("Invalid payload size: ");
                push_decimal(&mut r, *n as u64);
                r
            },
        }
    }
}

/// Message types for client-to-server communication.
#[derive(Debug)]
pub enum ClientMessage {
    /// Request to join a room.
    JoinRoom { room_id: RoomId, user_info: UserInfo, password: Option<String> },
    /// Request to leave the current room.
    LeaveRoom,
    /// Subscribe to a channel for listening.
    SubscribeChannel { channel_id: ChannelId },
    /// Unsubscribe from a channel.
    UnsubscribeChannel { channel_id: ChannelId },
    /// Start talking on a channel.
    StartTalk { channel_id: ChannelId },
    /// Stop talking.
    StopTalk,
    /// Audio data packet.
    AudioData { sequence: u32, timestamp: u64, channel_id: ChannelId, data: Vec<u8> },
    /// Ping for connection keep-alive.
    Ping { timestamp: u64 },
    /// Update user display name.
    UpdateDisplayName { name: String },
}

/// Message types for server-to-client communication.
#[derive(Debug)]
pub enum ServerMessage {
    /// Welcome message after successful join.
    Welcome { protocol_version: u32, user_id: UserId, room_info: RoomInfo },
    /// Error response.
    Error { code: ErrorCode, message: String },
    /// Room state update.
    RoomUpdate { room_info: RoomInfo },
    /// User joined the room.
    UserJoined { user: UserInfo },
    /// User left the room.
    UserLeft { user_id: UserId },
    /// User started talking.
    UserTalkStart { user_id: UserId, channel_id: ChannelId },
    /// User stopped talking.
    UserTalkStop { user_id: UserId },
    /// Mixed audio data for playback.
    AudioData {
        sequence: u32,
        timestamp: u64,
        channel_id: ChannelId,
        data: Vec<u8>,
        speakers: Vec<UserId>,
    },
    /// Pong response to ping.
    Pong { timestamp: u64, server_time: u64 },
    /// Channel created.
    ChannelCreated { channel: ChannelInfo },
    /// Channel deleted.
    ChannelDeleted { channel_id: ChannelId },
}

/// Room information.
#[derive(Debug)]
pub struct RoomInfo {
    pub id: RoomId,
    pub name: String,
    pub channels: Vec<ChannelInfo>,
    pub users: Vec<UserInfo>,
}

impl RoomInfo {
    /// A room with no channels and no users.
    pub fn new(id: RoomId, name: &str) -> (r: Self)
        ensures
            r.id@ == id@,
            r.name@ == name@,
            r.channels@.len() == 0,
            r.users@.len() == 0,
    {
        RoomInfo { id, name: String::from_str(name), channels: Vec::new(), users: Vec::new() }
    }
}

/// Error codes for protocol errors.
#[derive(Debug, Clone, Copy, PartialEq, Eq, Structural)]
pub enum ErrorCode {
    /// Unknown error.
    Unknown,
    /// Invalid password.
    InvalidPassword,
    /// Room not found.
    RoomNotFound,
    /// Channel not found.
    ChannelNotFound,
    /// User not found.
    UserNotFound,
    /// Already in room.
    AlreadyInRoom,
    /// Not in room.
    NotInRoom,
    /// Permission denied.
    PermissionDenied,
    /// Rate limited.
    RateLimited,
    /// Protocol version mismatch.
    VersionMismatch,
    /// Room full.
    RoomFull,
    /// Invalid request.
    InvalidRequest,
}

/// The wire number of an error code.
pub open spec fn error_code_number(c: ErrorCode) -> u16 {
    match c {
        ErrorCode::Unknown => 0,
        ErrorCode::InvalidPassword => 1,
        ErrorCode::RoomNotFound => 2,
        ErrorCode::ChannelNotFound => 3,
        ErrorCode::UserNotFound => 4,
        ErrorCode::AlreadyInRoom => 5,
        ErrorCode::NotInRoom => 6,
        ErrorCode::PermissionDenied => 7,
        ErrorCode::RateLimited => 8,
        ErrorCode::VersionMismatch => 9,
        ErrorCode::RoomFull => 10,
        ErrorCode::InvalidRequest => 11,
    }
}

/// The display text of an error code.
pub open spec fn error_code_text(c: ErrorCode) -> Seq<char> {
    match c {
        ErrorCode::Unknown => "Unknown error"@,
        ErrorCode::InvalidPassword => "Invalid password"@,
        ErrorCode::RoomNotFound => "Room not found"@,
        ErrorCode::ChannelNotFound => "Channel not found"@,
        ErrorCode::UserNotFound => "User not found"@,
        ErrorCode::AlreadyInRoom => "Already in room"@,
        ErrorCode::NotInRoom => "Not in room"@,
        ErrorCode::PermissionDenied => "Permission denied"@,
        ErrorCode::RateLimited => "Rate limited"@,
        ErrorCode::VersionMismatch => "Protocol version mismatch"@,
        ErrorCode::RoomFull => "Room full"@,
        ErrorCode::InvalidRequest => "Invalid request"@,
    }
}

impl ErrorCode {
    /// The wire number of the code.
    pub fn code(&self) -> (r: u16)
        ensures
            r == error_code_number(*self),
    {
        match self {
            ErrorCode::Unknown => 0,
            ErrorCode::InvalidPassword => 1,
            ErrorCode::RoomNotFound => 2,
            ErrorCode::ChannelNotFound => 3,
            ErrorCode::UserNotFound => 4,
            ErrorCode::AlreadyInRoom => 5,
            ErrorCode::NotInRoom => 6,
            ErrorCode::PermissionDenied => 7,
            ErrorCode::RateLimited => 8,
            ErrorCode::VersionMismatch => 9,
            ErrorCode::RoomFull => 10,
            ErrorCode::InvalidRequest => 11,
        }
    }

    /// The code with a given wire number, if any.
    pub fn from_code(n: u16) -> (r: Option<ErrorCode>)
        ensures
            match r {
                Some(c) => error_code_number(c) == n,
                None => n > 11,
            },
    {
        match n {
            0 => Some(ErrorCode::Unknown),
            1 => Some(ErrorCode::InvalidPassword),
            2 => Some(ErrorCode::RoomNotFound),
            3 => Some(ErrorCode::ChannelNotFound),
            4 => Some(ErrorCode::UserNotFound),
            5 => Some(ErrorCode::AlreadyInRoom),
            6 => Some(ErrorCode::NotInRoom),
            7 => Some(ErrorCode::PermissionDenied),
            8 => Some(ErrorCode::RateLimited),
            9 => Some(ErrorCode::VersionMismatch),
            10 => Some(ErrorCode::RoomFull),
            11 => Some(ErrorCode::InvalidRequest),
            _ => None,
        }
    }

    /// The display text.
    pub fn as_str(&self) -> (r: &'static str)
        ensures
            r@ == error_code_text(*self),
    {
        match self {
            ErrorCode::Unknown => "Unknown error",
            ErrorCode::InvalidPassword => "Invalid password",
            ErrorCode::RoomNotFound => "Room not found",
            ErrorCode::ChannelNotFound => "Channel not found",
            ErrorCode::UserNotFound => "User not found",
            ErrorCode::AlreadyInRoom => "Already in room",
            ErrorCode::NotInRoom => "Not in room",
            ErrorCode::PermissionDenied => "Permission denied",
            ErrorCode::RateLimited => "Rate limited",
            ErrorCode::VersionMismatch => "Protocol version mismatch",
            ErrorCode::RoomFull => "Room full",
            ErrorCode::InvalidRequest => "Invalid request",
        }
    }
}

/// Wire numbers identify error codes: reading back the number of a code
/// gives the code.
pub proof fn law_error_code_numbers_distinct(a: ErrorCode, b: ErrorCode)
    ensures
        error_code_number(a) == error_code_number(b) ==> a == b,
        error_code_number(a) <= 11,
{
}

/// Signaling messages for WebRTC connection establishment.
#[derive(Debug)]
pub enum SignalingMessage {
    /// SDP offer from initiator.
    Offer { from: UserId, to: UserId, sdp: String },
    /// SDP answer from responder.
    Answer { from: UserId, to: UserId, sdp: String },
    /// ICE candidate.
    IceCandidate {
        from: UserId,
        to: UserId,
        candidate: String,
        sdp_mid: Option<String>,
        sdp_mline_index: Option<u16>,
    },
}

} // verus!
