use intercom::ids::{ChannelId, UserId};
use intercom::jitter_buffer::JitterBufferConfig;
use intercom::mixer::{ChannelMixer, MixerError};

fn mixer() -> ChannelMixer<Vec<f32>, f32> {
    ChannelMixer::with_config(JitterBufferConfig { min_delay_ms: 0, initial_delay_ms: 0, ..Default::default() }, 1.0)
}

#[test]
fn test_add_remove_channel() {
    let mut mixer: ChannelMixer<Vec<f32>, f32> = ChannelMixer::new(1.0);
    let channel = ChannelId::new("test");

    mixer.add_channel(&channel);
    assert!(mixer.list_channels().contains(&channel));

    mixer.remove_channel(&channel);
    assert!(!mixer.list_channels().contains(&channel));
}

#[test]
fn test_add_remove_user() {
    let mut mixer: ChannelMixer<Vec<f32>, f32> = ChannelMixer::new(1.0);
    let channel = ChannelId::new("test");
    let user = UserId::new("user1");

    mixer.add_channel(&channel);
    mixer.add_user(&channel, &user);

    assert!(mixer.list_users(&channel).contains(&user));

    mixer.remove_user(&channel, &user);
    assert!(!mixer.list_users(&channel).contains(&user));
}

#[test]
fn pushed_audio_comes_out_for_mixing() {
    let mut m = mixer();
    let channel = ChannelId::new("test");
    let user = UserId::new("user1");
    m.add_channel(&channel);
    let outcome = m.push_audio(&channel, &user, 0, 0, vec![0.5f32; 480]).unwrap();
    assert!(outcome.added);
    assert!(outcome.kept);
    let (frames, gain) = m.pop_channel(&channel).unwrap();
    assert_eq!(gain, 1.0);
    assert_eq!(frames.len(), 1);
    assert_eq!(frames[0].0, "user1");
    assert_eq!(frames[0].1.samples.len(), 480);
    assert_eq!(frames[0].2, 1.0);
}

#[test]
fn muted_users_are_not_heard() {
    let mut m = mixer();
    let channel = ChannelId::new("c");
    m.add_channel(&channel);
    m.push_audio(&channel, &UserId::new("a"), 0, 0, vec![0.3f32; 480]).unwrap();
    m.push_audio(&channel, &UserId::new("b"), 0, 0, vec![0.4f32; 480]).unwrap();
    m.set_user_muted(&channel, &UserId::new("a"), true).unwrap();
    m.set_user_gain(&channel, &UserId::new("b"), 0.5).unwrap();
    let (frames, _) = m.pop_channel(&channel).unwrap();
    assert_eq!(frames.len(), 1);
    assert_eq!(frames[0].0, "b");
    assert_eq!(frames[0].2, 0.5);
    let stats = m.get_user_stats(&channel, &UserId::new("a")).unwrap();
    assert_eq!(stats.buffered_frames, 1);
}

#[test]
fn unknown_channel_and_user_errors() {
    let mut m = mixer();
    let channel = ChannelId::new("c");
    let r = m.push_audio(&channel, &UserId::new("a"), 0, 0, vec![]);
    assert!(matches!(r, Err(MixerError::ChannelNotFound(ref s)) if s == "c"));
    assert!(matches!(m.pop_channel(&channel), Err(MixerError::ChannelNotFound(_))));
    m.add_channel(&channel);
    let r = m.set_user_gain(&channel, &UserId::new("x"), 2.0);
    assert!(matches!(r, Err(MixerError::UserNotFound(ref s)) if s == "x"));
    assert!(m.get_user_stats(&channel, &UserId::new("x")).is_none());
    assert!(m.set_channel_gain(&ChannelId::new("nope"), 1.0).is_err());
    assert!(m.list_users(&ChannelId::new("nope")).is_empty());
    assert_eq!(MixerError::UserNotFound("x".to_string()).message(), "User not found: x");
    assert_eq!(MixerError::InvalidSequence.message(), "Invalid sequence number");
}

#[test]
fn cleanup_keeps_recent_users() {
    let mut m = mixer();
    let channel = ChannelId::new("c");
    m.add_channel(&channel);
    m.add_user(&channel, &UserId::new("a"));
    m.cleanup_inactive(60);
    assert_eq!(m.list_users(&channel).len(), 1);
    m.cleanup_inactive(0);
    assert!(m.list_users(&channel).is_empty());
}

#[test]
fn adapt_user_delay_clamps() {
    let mut m: ChannelMixer<u8, u8> = ChannelMixer::new(1);
    let channel = ChannelId::new("c");
    let user = UserId::new("u");
    m.add_channel(&channel);
    m.add_user(&channel, &user);
    m.adapt_user_delay(&channel, &user, 99);
    assert_eq!(m.get_user_stats(&channel, &user).unwrap().target_delay_frames, 10);
    m.adapt_user_delay(&channel, &user, 0);
    assert_eq!(m.get_user_stats(&channel, &user).unwrap().target_delay_frames, 2);
}
