use intercom::ids::{ChannelId, ChannelInfo, RoomId, UserId, UserInfo};
use intercom::session::{RoomSession, SessionError, SessionManager};

#[test]
fn test_create_room() {
    let mut manager = SessionManager::new();
    let room = RoomSession::new(RoomId::new("test"), "Test Room");
    let id = manager.create_room(room);
    assert_eq!(id.as_str(), "test");
    assert!(manager.list_rooms().contains(&id));
}

#[test]
fn test_join_leave_room() {
    let mut manager = SessionManager::new();
    let room = RoomSession::new(RoomId::new("test"), "Test Room");
    let room_id = manager.create_room(room);

    let user = UserInfo::new(UserId::new("user1"), "User 1");
    manager.join_room(&room_id, user).unwrap();

    assert!(manager.get_user_room(&UserId::new("user1")).is_some());

    manager.leave_room(&UserId::new("user1")).unwrap();
    assert!(manager.get_user_room(&UserId::new("user1")).is_none());
}

#[test]
fn test_channel_subscription() {
    let mut manager = SessionManager::new();
    let room = RoomSession::new(RoomId::new("test"), "Test Room");
    let room_id = manager.create_room(room);

    let channel = ChannelInfo::new(ChannelId::new("ch1"), "Channel 1");
    manager.create_channel(&room_id, channel).unwrap();

    let user = UserInfo::new(UserId::new("user1"), "User 1");
    manager.join_room(&room_id, user).unwrap();

    manager.subscribe_channel(&UserId::new("user1"), &ChannelId::new("ch1")).unwrap();

    let subs = manager.get_channel_subscribers(&room_id, &ChannelId::new("ch1")).unwrap();
    assert!(subs.contains(&UserId::new("user1")));
}

#[test]
fn test_talk_state() {
    let mut manager = SessionManager::new();
    let room = RoomSession::new(RoomId::new("test"), "Test Room");
    let room_id = manager.create_room(room);

    let channel = ChannelInfo::new(ChannelId::new("ch1"), "Channel 1");
    manager.create_channel(&room_id, channel).unwrap();

    let user = UserInfo::new(UserId::new("user1"), "User 1");
    manager.join_room(&room_id, user).unwrap();

    manager.start_talk(&UserId::new("user1"), &ChannelId::new("ch1")).unwrap();

    let talkers = manager.get_channel_talkers(&room_id, &ChannelId::new("ch1")).unwrap();
    assert!(talkers.contains(&UserId::new("user1")));

    manager.stop_talk(&UserId::new("user1")).unwrap();

    let talkers = manager.get_channel_talkers(&room_id, &ChannelId::new("ch1")).unwrap();
    assert!(!talkers.contains(&UserId::new("user1")));
}

#[test]
fn joining_twice_is_refused() {
    let mut manager = SessionManager::new();
    let room_id = manager.create_room(RoomSession::new(RoomId::new("r"), "R"));
    manager.join_room(&room_id, UserInfo::new(UserId::new("u"), "U")).unwrap();
    let again = manager.join_room(&room_id, UserInfo::new(UserId::new("u"), "U"));
    assert!(matches!(again, Err(SessionError::AlreadyInRoom)));
}

#[test]
fn full_room_refuses_join() {
    let mut manager = SessionManager::new();
    let room = RoomSession::new(RoomId::new("r"), "R").with_max_users(1);
    let room_id = manager.create_room(room);
    manager.join_room(&room_id, UserInfo::new(UserId::new("a"), "A")).unwrap();
    let r = manager.join_room(&room_id, UserInfo::new(UserId::new("b"), "B"));
    assert!(matches!(r, Err(SessionError::PermissionDenied)));
}

#[test]
fn unknown_room_and_channel_errors() {
    let mut manager = SessionManager::new();
    let r = manager.join_room(&RoomId::new("nope"), UserInfo::new(UserId::new("a"), "A"));
    assert!(matches!(r, Err(SessionError::RoomNotFound(ref s)) if s == "nope"));
    assert!(matches!(manager.leave_room(&UserId::new("a")), Err(SessionError::NotInRoom)));
    let room_id = manager.create_room(RoomSession::new(RoomId::new("r"), "R"));
    manager.join_room(&room_id, UserInfo::new(UserId::new("a"), "A")).unwrap();
    let s = manager.subscribe_channel(&UserId::new("a"), &ChannelId::new("missing"));
    assert!(matches!(s, Err(SessionError::ChannelNotFound(ref c)) if c == "missing"));
    assert!(matches!(manager.stop_talk(&UserId::new("zz")), Err(SessionError::NotInRoom)));
}

#[test]
fn leaving_removes_user_from_channels() {
    let mut manager = SessionManager::new();
    let room_id = manager.create_room(RoomSession::new(RoomId::new("r"), "R"));
    manager.create_channel(&room_id, ChannelInfo::new(ChannelId::new("c"), "C")).unwrap();
    manager.join_room(&room_id, UserInfo::new(UserId::new("u"), "U")).unwrap();
    manager.subscribe_channel(&UserId::new("u"), &ChannelId::new("c")).unwrap();
    manager.start_talk(&UserId::new("u"), &ChannelId::new("c")).unwrap();
    let left = manager.leave_room(&UserId::new("u")).unwrap();
    assert_eq!(left.as_str(), "r");
    assert!(manager.get_channel_subscribers(&room_id, &ChannelId::new("c")).unwrap().is_empty());
    assert!(manager.get_channel_talkers(&room_id, &ChannelId::new("c")).unwrap().is_empty());
    assert!(manager.get_room_users(&room_id).unwrap().is_empty());
}

#[test]
fn deleting_channel_stops_its_talkers() {
    let mut manager = SessionManager::new();
    let room_id = manager.create_room(RoomSession::new(RoomId::new("r"), "R"));
    manager.create_channel(&room_id, ChannelInfo::new(ChannelId::new("c"), "C")).unwrap();
    manager.join_room(&room_id, UserInfo::new(UserId::new("u"), "U")).unwrap();
    manager.start_talk(&UserId::new("u"), &ChannelId::new("c")).unwrap();
    manager.delete_channel(&room_id, &ChannelId::new("c")).unwrap();
    assert!(manager.get_room_channels(&room_id).unwrap().is_empty());
    assert_eq!(manager.stop_talk(&UserId::new("u")).unwrap(), None);
}

#[test]
fn delete_room_forgets_its_users() {
    let mut manager = SessionManager::new();
    let room_id = manager.create_room(RoomSession::new(RoomId::new("r"), "R"));
    manager.join_room(&room_id, UserInfo::new(UserId::new("u"), "U")).unwrap();
    manager.delete_room(&room_id).unwrap();
    assert!(manager.get_user_room(&UserId::new("u")).is_none());
    assert!(manager.list_rooms().is_empty());
    assert!(matches!(manager.delete_room(&room_id), Err(SessionError::RoomNotFound(_))));
}

#[test]
fn cleanup_removes_idle_users_only() {
    let mut manager = SessionManager::new();
    let room_id = manager.create_room(RoomSession::new(RoomId::new("r"), "R"));
    manager.join_room_at(&room_id, UserInfo::new(UserId::new("old"), "Old"), 1_000).unwrap();
    manager.join_room_at(&room_id, UserInfo::new(UserId::new("new"), "New"), 9_000).unwrap();
    let removed = manager.cleanup_idle_users_at(10_000, 5_000);
    assert_eq!(removed.len(), 1);
    assert_eq!(removed[0].1.as_str(), "old");
    assert!(manager.get_user_room(&UserId::new("old")).is_none());
    assert!(manager.get_user_room(&UserId::new("new")).is_some());
}

#[test]
fn session_error_messages() {
    assert_eq!(SessionError::UserNotFound("u".to_string()).message(), "User not found: u");
    assert_eq!(SessionError::AlreadyInRoom.message(), "Already in room");
}
