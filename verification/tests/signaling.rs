use intercom::ids::{RoomId, UserId};
use intercom::signaling::{
    ice_message, inbox_signals, inbox_url, outgoing_message, presence_list_url, presence_url, room_url,
    signal_of, FirebaseConfig, SignalMessage, SignalingError, StoredMessage,
};

#[test]
fn test_config_default() {
    let config = FirebaseConfig::default();
    assert!(config.database_url.is_empty());
    assert!(config.auth_token.is_none());
}

#[test]
fn default_poll_interval_is_half_a_second() {
    assert_eq!(FirebaseConfig::default().poll_interval_ms, 500);
}

fn config(token: Option<&str>) -> FirebaseConfig {
    FirebaseConfig {
        database_url: "https://test.firebaseio.com".to_string(),
        auth_token: token.map(|t| t.to_string()),
        ..Default::default()
    }
}

#[test]
fn urls_without_token() {
    let c = config(None);
    let room = RoomId::new("test-room");
    let user = UserId::new("test-user");
    assert_eq!(room_url(&c, &room), "https://test.firebaseio.com/rooms/test-room.json");
    assert_eq!(inbox_url(&c, &room, &user), "https://test.firebaseio.com/rooms/test-room/inbox/test-user.json");
    assert_eq!(
        presence_url(&c, &room, &user),
        "https://test.firebaseio.com/rooms/test-room/presence/test-user.json"
    );
    assert_eq!(presence_list_url(&c, &room), "https://test.firebaseio.com/rooms/test-room/presence.json");
}

#[test]
fn urls_with_token() {
    let c = config(Some("tok"));
    let room = RoomId::new("r");
    assert_eq!(room_url(&c, &room), "https://test.firebaseio.com/rooms/r.json?auth=tok");
    assert_eq!(
        inbox_url(&c, &room, &UserId::new("u")),
        "https://test.firebaseio.com/rooms/r/inbox/u.json?auth=tok"
    );
}

fn stored(kind: &str, sdp: Option<&str>, candidate: Option<&str>) -> StoredMessage {
    StoredMessage {
        msg_type: kind.to_string(),
        from: "alice".to_string(),
        to: "bob".to_string(),
        sdp: sdp.map(|s| s.to_string()),
        candidate: candidate.map(|s| s.to_string()),
        sdp_mid: Some("0".to_string()),
        sdp_mline_index: Some(1),
        timestamp: 5,
    }
}

#[test]
fn stored_messages_are_read_by_type() {
    let (from, msg) = signal_of(&stored("offer", Some("v=0"), None)).unwrap();
    assert_eq!(from.as_str(), "alice");
    assert!(matches!(msg, SignalMessage::Offer { ref sdp } if sdp == "v=0"));
    let (_, msg) = signal_of(&stored("answer", Some("v=1"), None)).unwrap();
    assert!(matches!(msg, SignalMessage::Answer { ref sdp } if sdp == "v=1"));
    let (_, msg) = signal_of(&stored("ice", None, Some("cand"))).unwrap();
    match msg {
        SignalMessage::IceCandidate { candidate, sdp_mid, sdp_mline_index } => {
            assert_eq!(candidate, "cand");
            assert_eq!(sdp_mid.as_deref(), Some("0"));
            assert_eq!(sdp_mline_index, Some(1));
        }
        _ => panic!("not an ICE candidate"),
    }
    assert!(signal_of(&stored("offer", None, None)).is_none());
    assert!(signal_of(&stored("ice", Some("x"), None)).is_none());
    assert!(signal_of(&stored("bye", Some("x"), Some("y"))).is_none());
}

#[test]
fn inbox_keeps_meaningful_messages_in_order() {
    let msgs = vec![
        stored("offer", Some("a"), None),
        stored("junk", None, None),
        stored("answer", Some("b"), None),
    ];
    let out = inbox_signals(&msgs);
    assert_eq!(out.len(), 2);
    assert!(matches!(out[0].1, SignalMessage::Offer { .. }));
    assert!(matches!(out[1].1, SignalMessage::Answer { .. }));
}

#[test]
fn outgoing_messages_read_back() {
    let from = UserId::new("alice");
    let to = UserId::new("bob");
    let m = outgoing_message(&from, &to, "offer", Some("sdp"), None, 42);
    assert_eq!(m.msg_type, "offer");
    assert_eq!(m.to, "bob");
    assert_eq!(m.timestamp, 42);
    let (who, msg) = signal_of(&m).unwrap();
    assert_eq!(who.as_str(), "alice");
    assert!(matches!(msg, SignalMessage::Offer { ref sdp } if sdp == "sdp"));
    let ice = ice_message(&from, &to, "c1", Some("m"), Some(3), 7);
    let (_, msg) = signal_of(&ice).unwrap();
    assert!(matches!(msg, SignalMessage::IceCandidate { ref candidate, .. } if candidate == "c1"));
}

#[test]
fn signaling_error_messages() {
    assert_eq!(SignalingError::Timeout.message(), "Connection timeout");
    assert_eq!(SignalingError::PeerNotFound("p".to_string()).message(), "Peer not found: p");
    let json_err = serde_json::from_str::<u32>("x").unwrap_err();
    assert!(SignalingError::Json(json_err).message().starts_with("JSON error: "));
}
