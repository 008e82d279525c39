use intercom::base64;
use intercom::ids::{ChannelId, ChannelInfo, RoomId, UserId, UserInfo};
use intercom::messages::{ErrorCode, ProtocolError, RoomInfo, PROTOCOL_VERSION};
use intercom::packet::{packet_parse_is_total, AudioPacket};

#[test]
fn test_user_id() {
    let id = UserId::new("user123");
    assert_eq!(id.as_str(), "user123");
    assert_eq!(id.to_string(), "user123");
}

#[test]
fn test_channel_id() {
    let id = ChannelId::new("channel1");
    assert_eq!(id.as_str(), "channel1");
}

#[test]
fn test_audio_packet_roundtrip() {
    let packet = AudioPacket::new(
        42,
        12345,
        ChannelId::new("channel1"),
        UserId::new("user1"),
        vec![1, 2, 3, 4, 5],
    );

    let bytes = packet.to_bytes();
    let decoded = AudioPacket::from_bytes(&bytes).unwrap();

    assert_eq!(decoded.sequence, packet.sequence);
    assert_eq!(decoded.timestamp, packet.timestamp);
    assert_eq!(decoded.channel_id, packet.channel_id);
    assert_eq!(decoded.user_id, packet.user_id);
    assert_eq!(decoded.data, packet.data);
    assert_eq!(decoded.contains_voice, packet.contains_voice);
}

#[test]
fn packet_layout_is_little_endian_with_length_prefixes() {
    let packet = AudioPacket::new(1, 2, ChannelId::new("c"), UserId::new("u"), vec![9]);
    let bytes = packet.to_bytes();
    assert_eq!(
        bytes,
        vec![1, 0, 0, 0, 2, 0, 0, 0, 0, 0, 0, 0, 1, 1, 0, b'c', 1, 0, b'u', 1, 0, 9]
    );
}

#[test]
fn packet_too_short_is_rejected_with_its_length() {
    let short = [0u8; 10];
    assert!(packet_parse_is_total(&short));
    match AudioPacket::from_bytes(&short) {
        Err(ProtocolError::InvalidPayloadSize(n)) => assert_eq!(n, 10),
        other => panic!("unexpected: {:?}", other),
    }
}

#[test]
fn packet_with_truncated_data_is_rejected() {
    let packet = AudioPacket::new(7, 8, ChannelId::new("ch"), UserId::new("us"), vec![1, 2, 3]);
    let bytes = packet.to_bytes();
    let cut = &bytes[..bytes.len() - 1];
    assert!(packet_parse_is_total(cut));
    assert!(matches!(AudioPacket::from_bytes(cut), Err(ProtocolError::InvalidPayloadSize(_))));
}

#[test]
fn base64_known_values() {
    assert_eq!(base64::encode(b""), "");
    assert_eq!(base64::encode(b"f"), "Zg==");
    assert_eq!(base64::encode(b"fo"), "Zm8=");
    assert_eq!(base64::encode(b"foo"), "Zm9v");
    assert_eq!(base64::encode(b"foobar"), "Zm9vYmFy");
    assert_eq!(base64::decode("Zm9vYmFy").unwrap(), b"foobar".to_vec());
}

#[test]
fn base64_roundtrip_all_bytes() {
    let data: Vec<u8> = (0..=255u8).collect();
    let text = base64::encode(&data);
    assert_eq!(base64::decode(&text).unwrap(), data);
}

#[test]
fn error_codes_have_wire_numbers_and_texts() {
    assert_eq!(ErrorCode::Unknown.code(), 0);
    assert_eq!(ErrorCode::RoomFull.code(), 10);
    assert_eq!(ErrorCode::InvalidRequest.code(), 11);
    assert_eq!(ErrorCode::from_code(9), Some(ErrorCode::VersionMismatch));
    assert_eq!(ErrorCode::from_code(12), None);
    assert_eq!(ErrorCode::VersionMismatch.as_str(), "Protocol version mismatch");
    assert_eq!(ErrorCode::Unknown.as_str(), "Unknown error");
}

#[test]
fn protocol_error_messages() {
    assert_eq!(ProtocolError::InvalidMessageType(7).message(), "Invalid message type: 7");
    assert_eq!(
        ProtocolError::VersionMismatch { expected: PROTOCOL_VERSION, actual: 2 }.message(),
        "Version mismatch: expected 1, got 2"
    );
    assert_eq!(ProtocolError::InvalidPayloadSize(120).message(), "Invalid payload size: 120");
}

#[test]
fn room_info_starts_empty() {
    let info = RoomInfo::new(RoomId::new("r1"), "Room");
    assert_eq!(info.id.as_str(), "r1");
    assert_eq!(info.name, "Room");
    assert!(info.channels.is_empty());
    assert!(info.users.is_empty());
}

#[test]
fn user_and_channel_records() {
    let user = UserInfo::new(UserId::new("user1"), "Test User");
    assert_eq!(user.id.as_str(), "user1");
    assert_eq!(user.display_name, "Test User");
    assert!(!user.is_talking);
    let channel = ChannelInfo::new(ChannelId::new("ch1"), "Channel 1");
    assert_eq!(channel.id.as_str(), "ch1");
    assert_eq!(channel.name, "Channel 1");
    assert!(channel.description.is_none());
}
