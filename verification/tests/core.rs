use intercom::client::{uuid_from_nanos, uuid_v4, ClientSession};
use intercom::config::{version, DeviceSelector, ServerConfig};
use intercom::devices::{AudioDevice, AudioError, DeviceType};
use intercom::errors::CoreError;
use intercom::ids::{ChannelId, RoomId, UserId, UserInfo};
use intercom::server::IntercomServer;

#[test]
fn test_version() {
    assert!(!version().is_empty());
}

#[test]
fn test_uuid_generation() {
    let id1 = uuid_v4();
    let id2 = uuid_v4();
    assert_ne!(id1, id2);
    assert_eq!(id1.len(), 36);
}

#[test]
fn uuid_layout_from_timestamp() {
    let id = uuid_from_nanos(0);
    assert_eq!(id, "12345678-9abc-4ef0-bedc-ba9876543210");
    let id = uuid_from_nanos(1);
    assert_eq!(id, "12345678-9abc-4ef0-bedc-ba9876543211");
    for t in [5u128, 1 << 70, u128::MAX] {
        let s = uuid_from_nanos(t);
        assert_eq!(s.len(), 36);
        assert_eq!(&s[14..15], "4");
    }
}

fn device(name: &str, t: DeviceType, is_default: bool) -> AudioDevice {
    AudioDevice { name: name.to_string(), device_type: t, is_default, sample_rates: vec![48000], max_channels: 2 }
}

fn devices() -> Vec<AudioDevice> {
    vec![
        device("Built-in Mic", DeviceType::Input, false),
        device("USB Mic", DeviceType::Input, true),
        device("Dante Virtual Soundcard", DeviceType::Input, false),
        device("Speakers", DeviceType::Output, true),
        device("My DVS Out", DeviceType::Output, false),
    ]
}

#[test]
fn select_prefers_requested_device() {
    let d = devices();
    assert_eq!(DeviceSelector::select_input(&d, Some("Built-in Mic"), true).unwrap(), "Built-in Mic");
}

#[test]
fn select_prefers_dante_when_asked() {
    let d = devices();
    assert_eq!(DeviceSelector::select_input(&d, Some("Missing"), true).unwrap(), "Dante Virtual Soundcard");
    assert_eq!(DeviceSelector::select_output(&d, None, true).unwrap(), "My DVS Out");
}

#[test]
fn select_falls_back_to_default_then_first() {
    let d = devices();
    assert_eq!(DeviceSelector::select_input(&d, None, false).unwrap(), "USB Mic");
    let no_default = vec![device("A", DeviceType::Output, false), device("B", DeviceType::Output, false)];
    assert_eq!(DeviceSelector::select_output(&no_default, None, false).unwrap(), "A");
}

#[test]
fn select_without_devices_fails() {
    let r = DeviceSelector::select_input(&[], None, true);
    assert!(matches!(r, Err(CoreError::Audio(AudioError::NoDevice))));
}

#[test]
fn device_lists_with_priority() {
    let d = devices();
    let inputs = DeviceSelector::list_inputs_with_priority(&d);
    assert_eq!(inputs.len(), 3);
    assert_eq!(inputs[1], ("USB Mic".to_string(), false, true));
    assert_eq!(inputs[2], ("Dante Virtual Soundcard".to_string(), true, false));
    let outputs = DeviceSelector::list_outputs_with_priority(&d);
    assert_eq!(outputs, vec![("Speakers".to_string(), false, true), ("My DVS Out".to_string(), true, false)]);
}

#[test]
fn device_filters_and_defaults() {
    let d = devices();
    let inputs = AudioDevice::list_inputs(&d);
    assert_eq!(inputs.len(), 3);
    assert!(inputs.iter().all(|x| x.device_type == DeviceType::Input));
    let outputs = AudioDevice::list_outputs(&d);
    assert_eq!(outputs.len(), 2);
    assert_eq!(AudioDevice::default_input(&d).unwrap().name, "USB Mic");
    assert_eq!(AudioDevice::default_output(&d).unwrap().name, "Speakers");
    let only_inputs = vec![device("X", DeviceType::Input, false)];
    assert!(matches!(AudioDevice::default_output(&only_inputs), Err(AudioError::NoDevice)));
}

#[test]
fn sample_rate_support_and_capabilities() {
    let d = device("X", DeviceType::Input, false);
    assert!(d.supports_sample_rate(48000));
    assert!(!d.supports_sample_rate(44100));
    let (rates, channels) = AudioDevice::capabilities_from_configs(&[(44100, 48000, 2), (8000, 16000, 1)]);
    assert_eq!(rates, vec![8000, 16000, 44100, 48000]);
    assert_eq!(channels, 2);
    let (rates, channels) = AudioDevice::capabilities_from_configs(&[]);
    assert!(rates.is_empty());
    assert_eq!(channels, 0);
}

#[test]
fn audio_error_messages() {
    assert_eq!(AudioError::NoDevice.message(), "No audio device available");
    assert_eq!(
        AudioError::SampleRateMismatch { expected: 48000, actual: 44100 }.message(),
        "Sample rate mismatch: expected 48000, got 44100"
    );
    assert_eq!(AudioError::DeviceNotFound("x".to_string()).message(), "Device not found: x");
}

#[test]
fn server_config_defaults_and_builders() {
    let c = ServerConfig::default();
    assert_eq!(c.name, "Intercom Server");
    assert_eq!(c.max_users, 50);
    assert!(c.auto_create_channels);
    assert_eq!(c.default_channels, vec!["Main", "Channel 1", "Channel 2"]);
    assert!(c.prefer_dante);
    assert!(c.password.is_none());
    let c = ServerConfig::new("Test Server")
        .with_password("pw")
        .with_max_users(3)
        .with_firebase_url("https://x")
        .with_channels(vec!["A".to_string()])
        .with_prefer_dante(false);
    assert_eq!(c.name, "Test Server");
    assert_eq!(c.password.as_deref(), Some("pw"));
    assert_eq!(c.max_users, 3);
    assert_eq!(c.firebase.database_url, "https://x");
    assert_eq!(c.default_channels, vec!["A"]);
    assert!(!c.prefer_dante);
}

#[test]
fn server_opens_default_channels() {
    let mut server = IntercomServer::new(ServerConfig::new("Test Server")).unwrap();
    assert!(!server.is_running());
    assert_eq!(server.encryption_key().len(), 32);
    let created = server.open_room().unwrap();
    let ids: Vec<&str> = created.iter().map(|c| c.as_str()).collect();
    assert_eq!(ids, vec!["channel-0", "channel-1", "channel-2"]);
    let channels = server.get_channels().unwrap();
    assert_eq!(channels.len(), 3);
    assert!(server.get_users().unwrap().is_empty());
    let id = server.create_channel("Extra").unwrap();
    assert_eq!(server.get_channels().unwrap().len(), 4);
    server.delete_channel(&id).unwrap();
    assert!(server.delete_channel(&ChannelId::new("nope")).is_err());
    server.close_room();
    assert!(server.get_channels().is_err());
}

#[test]
fn server_uses_configured_key() {
    let mut config = ServerConfig::new("K");
    config.encryption_key = Some([9u8; 32]);
    let server = IntercomServer::new(config).unwrap();
    assert_eq!(server.encryption_key(), &[9u8; 32][..]);
}

#[test]
fn channel_stats_of_unknown_channel_are_zero() {
    let mut server = IntercomServer::new(ServerConfig::new("S")).unwrap();
    server.open_room().unwrap();
    let stats = server.get_channel_stats(&ChannelId::new("none"));
    assert_eq!(stats.subscriber_count, 0);
    assert_eq!(stats.talker_count, 0);
    let stats = server.get_channel_stats(&ChannelId::new("channel-0"));
    assert_eq!(stats.channel_id.as_str(), "channel-0");
    assert_eq!(stats.subscriber_count, 0);
}

#[test]
fn client_session_phases() {
    let mut c = ClientSession::new();
    assert!(!c.is_connected());
    assert!(matches!(c.start_talk(ChannelId::new("a")), Err(CoreError::NotConnected)));
    c.begin_connect().unwrap();
    assert!(matches!(c.begin_connect(), Err(CoreError::AlreadyConnected)));
    c.finish_connect(RoomId::new("r"));
    assert!(c.is_connected());
    c.start_talk(ChannelId::new("a")).unwrap();
    assert!(c.is_talking());
    assert_eq!(c.talk_channel().unwrap().as_str(), "a");
    c.stop_talking();
    c.clear_talk_channel();
    assert!(!c.is_talking());
    assert!(c.talk_channel().is_none());
    assert_eq!(c.disconnect().unwrap().as_str(), "r");
    assert!(!c.is_connected());
    assert!(c.room_id().is_none());
    assert_eq!(c.user_id().as_str().len(), 36);
}

#[test]
fn client_subscriptions() {
    let mut c = ClientSession::new();
    c.subscribe_channel(ChannelId::new("a"));
    c.subscribe_channel(ChannelId::new("b"));
    c.subscribe_channel(ChannelId::new("a"));
    assert_eq!(c.subscribed_channels().len(), 3);
    c.unsubscribe_channel(&ChannelId::new("a"));
    let left: Vec<&str> = c.subscribed_channels().iter().map(|x| x.as_str()).collect();
    assert_eq!(left, vec!["b"]);
}

#[test]
fn core_error_messages() {
    assert_eq!(CoreError::NotConnected.message(), "Not connected");
    assert_eq!(CoreError::Timeout.message(), "Operation timeout");
    assert_eq!(CoreError::Audio(AudioError::NoDevice).message(), "Audio error: No audio device available");
    assert_eq!(CoreError::InvalidConfig("x".to_string()).message(), "Invalid configuration: x");
    let _ = UserInfo::new(UserId::new("u"), "U");
}

#[test]
fn test_server_creation() {
    let config = ServerConfig::new("Test Server");
    let server = IntercomServer::new(config);
    assert!(server.is_ok());
}

#[test]
fn test_encryption_key() {
    let config = ServerConfig::new("Test Server");
    let server = IntercomServer::new(config).unwrap();
    assert_eq!(server.encryption_key().len(), 32);
}

#[test]
fn server_config_polls_signaling_every_half_second() {
    let config = ServerConfig::new("Poll").with_firebase_url("https://example.firebaseio.com");
    assert_eq!(config.firebase.poll_interval_ms, 500);
    assert_eq!(config.firebase.database_url, "https://example.firebaseio.com");
}

#[test]
fn server_ids_use_their_own_masks() {
    assert_eq!(intercom::server::uuid_from_nanos(0), "fedcba98-7654-4210-9234-56789abcdef0");
    assert_ne!(intercom::server::uuid_from_nanos(0), uuid_from_nanos(0));
}

#[test]
fn uuid_variant_digit_and_hex_groups() {
    for t in [0u128, 1, 12345, 1 << 61, (1 << 62) - 1, u128::MAX] {
        let s = uuid_from_nanos(t);
        let c = s.as_bytes()[19];
        assert!(c == b'8' || c == b'9' || c == b'a' || c == b'b');
        for (i, b) in s.bytes().enumerate() {
            if i == 8 || i == 13 || i == 18 || i == 23 {
                assert_eq!(b, b'-');
            } else {
                assert!(b.is_ascii_digit() || (b'a'..=b'f').contains(&b));
            }
        }
    }
    assert_ne!(uuid_from_nanos(1 << 61), uuid_from_nanos(0));
}

#[test]
fn server_channel_ids_have_the_id_layout() {
    let mut server = IntercomServer::new(ServerConfig::new("S")).unwrap();
    server.open_room().unwrap();
    let id = server.create_channel("Extra").unwrap();
    assert_eq!(id.as_str().len(), 36);
    assert_eq!(&id.as_str()[14..15], "4");
    assert_eq!(server.room_id().as_str().len(), 36);
}

#[test]
fn reopening_the_room_keeps_one_room_with_default_channels() {
    let mut server = IntercomServer::new(ServerConfig::new("S")).unwrap();
    server.open_room().unwrap();
    server.create_channel("Extra").unwrap();
    let ids = server.open_room().unwrap();
    assert_eq!(ids.len(), 3);
    assert_eq!(server.get_channels().unwrap().len(), 3);
}
