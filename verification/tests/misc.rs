use intercom::devices::{is_dante_name, marks_dante, AudioDevice, DeviceType};
use intercom::errors::CoreError;
use intercom::ffi::{
    channel_records, list_input_devices, server_config_from, user_records, IntercomError, ServerConfiguration,
};
use intercom::ids::{ChannelId, ChannelInfo, UserId, UserInfo};
use intercom::text::{concat_text, contains_text, push_decimal, push_hex, text_eq};
use intercom::transport::{ice_servers, stun_servers, ConnectionState, TransportConfig, TransportError, TurnServer};
use intercom::vad::VoiceGate;

#[test]
fn text_helpers() {
    assert!(text_eq("abc", "abc"));
    assert!(!text_eq("abc", "abd"));
    assert!(contains_text("hello world", "o w"));
    assert!(!contains_text("hello", "world"));
    assert!(contains_text("x", ""));
    assert_eq!(concat_text("ab", "cd"), "abcd");
    let mut s = String::new();
    push_hex(&mut s, 0xbeef, 6);
    assert_eq!(s, "00beef");
    let mut d = String::from("n=");
    push_decimal(&mut d, 1234567890);
    assert_eq!(d, "n=1234567890");
    let mut z = String::new();
    push_decimal(&mut z, 0);
    assert_eq!(z, "0");
}

#[test]
fn dante_detection() {
    assert!(marks_dante("my dante card"));
    assert!(marks_dante("dvs"));
    assert!(!marks_dante("DANTE"));
    assert!(is_dante_name("DANTE Virtual"));
    assert!(is_dante_name("Audinate DVS"));
    assert!(!is_dante_name("Speakers"));
}

#[test]
fn voice_gate_hysteresis() {
    let mut g = VoiceGate::new(2, 3);
    assert!(!g.step(true));
    assert!(g.step(true));
    assert!(g.step(false));
    assert!(g.step(false));
    assert!(!g.step(false));
    assert!(!g.is_voice_active());
    g.step(true);
    g.step(true);
    assert!(g.is_voice_active());
    g.reset();
    assert!(!g.is_voice_active());
}

#[test]
fn transport_defaults() {
    let servers = stun_servers();
    assert_eq!(servers.len(), 4);
    assert_eq!(servers[0], "stun:stun.l.google.com:19302");
    assert_eq!(servers[3], "stun:stun.cloudflare.com:3478");
    let c = TransportConfig::default();
    assert!(!c.ordered);
    assert_eq!(c.max_retransmits, Some(0));
    assert!(c.turn_servers.is_empty());
    assert_eq!(c.stun_servers, servers);
}

#[test]
fn ice_server_list() {
    let mut c = TransportConfig::default();
    c.turn_servers.push(TurnServer {
        urls: vec!["turn:t".to_string()],
        username: "u".to_string(),
        credential: "p".to_string(),
    });
    let list = ice_servers(&c);
    assert_eq!(list.len(), 2);
    assert_eq!(list[0].urls.len(), 4);
    assert!(list[0].username.is_empty());
    assert_eq!(list[1].urls, vec!["turn:t"]);
    assert_eq!(list[1].username, "u");
    assert_eq!(list[1].credential, "p");
}

#[test]
fn connection_state_names() {
    assert_eq!(ConnectionState::Connected.as_str(), "Connected");
    assert_eq!(ConnectionState::Failed.as_str(), "Failed");
    assert_eq!(TransportError::NotConnected.message(), "Peer not connected");
    assert_eq!(TransportError::InvalidSdp("x".to_string()).message(), "Invalid SDP: x");
}

#[test]
fn binding_errors_from_core_errors() {
    let e = IntercomError::from_core(CoreError::NotConnected);
    assert!(matches!(e, IntercomError::NotConnected { ref message } if message == "Not connected"));
    let e = IntercomError::from_core(CoreError::Timeout);
    assert_eq!(e.message(), "Operation timed out");
    let e = IntercomError::from_core(CoreError::Transport(TransportError::Timeout));
    assert!(matches!(e, IntercomError::ConnectionError { ref message } if message == "Timeout"));
    let e = IntercomError::from_core(CoreError::Crypto(intercom::crypto::CryptoError::EncryptionFailed));
    assert!(matches!(e, IntercomError::ConnectionError { ref message } if message == "Crypto error: Encryption failed"));
    let e = IntercomError::from_core(CoreError::InvalidConfig("bad".to_string()));
    assert!(matches!(e, IntercomError::InvalidConfig { ref message } if message == "bad"));
}

#[test]
fn binding_records() {
    let devices = vec![
        AudioDevice {
            name: "Dante In".to_string(),
            device_type: DeviceType::Input,
            is_default: false,
            sample_rates: vec![],
            max_channels: 1,
        },
        AudioDevice {
            name: "DVS In".to_string(),
            device_type: DeviceType::Input,
            is_default: true,
            sample_rates: vec![],
            max_channels: 1,
        },
    ];
    let infos = list_input_devices(&devices);
    assert_eq!(infos.len(), 2);
    assert!(infos[0].is_dante);
    assert!(!infos[1].is_dante);
    assert!(infos[1].is_default);
    let users = user_records(&[UserInfo::new(UserId::new("u1"), "User")]);
    assert_eq!(users[0].id, "u1");
    assert_eq!(users[0].display_name, "User");
    let chans = channel_records(&[ChannelInfo::new(ChannelId::new("c1"), "Chan")]);
    assert_eq!(chans[0].id, "c1");
    assert!(chans[0].description.is_none());
    let cfg = server_config_from(ServerConfiguration {
        name: "S".to_string(),
        password: None,
        firebase_url: "https://db".to_string(),
        max_users: 7,
        default_channels: vec!["X".to_string()],
        prefer_dante: false,
    });
    assert_eq!(cfg.name, "S");
    assert_eq!(cfg.max_users, 7);
    assert_eq!(cfg.firebase.database_url, "https://db");
    assert!(cfg.auto_create_channels);
}
