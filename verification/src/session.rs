//! Room, channel and user session state.
//!
//! A `SessionManager` tracks rooms; each room holds user sessions and channel
//! sessions, and a side map records which room every joined user is in.
//! Activity times are wall-clock milliseconds.

use vstd::prelude::*;

use crate::clock::now_millis;
use crate::idmap::{IdMap, IdSet};
use crate::text::concat_text;
use crate::ids::{ChannelId, ChannelInfo, ChannelInfoView, RoomId, UserId, UserInfo, UserInfoView};

verus! {

/// Session errors.
#[derive(Debug)]
pub enum SessionError {
    UserNotFound(String),
    ChannelNotFound(String),
    RoomNotFound(String),
    AlreadyInRoom,
    NotInRoom,
    PermissionDenied,
}

/// Session errors as values of the model.
pub enum SessionFault {
    UserNotFound(Seq<char>),
    ChannelNotFound(Seq<char>),
    RoomNotFound(Seq<char>),
    AlreadyInRoom,
    NotInRoom,
    PermissionDenied,
}

impl View for SessionError {
    type V = SessionFault;

    open spec fn view(&self) -> SessionFault {
        match self {
            SessionError::UserNotFound(s) => SessionFault::UserNotFound(s@),
            SessionError::ChannelNotFound(s) => SessionFault::ChannelNotFound(s@),
            SessionError::RoomNotFound(s) => SessionFault::RoomNotFound(s@),
            SessionError::AlreadyInRoom => SessionFault::AlreadyInRoom,
            SessionError::NotInRoom => SessionFault::NotInRoom,
            SessionError::PermissionDenied => SessionFault::PermissionDenied,
        }
    }
}

/// The message of a session error.
pub open spec fn session_error_text(e: SessionFault) -> Seq<char> {
    match e {
        SessionFault::UserNotFound(s) => "User not found: "@ + s,
        SessionFault::ChannelNotFound(s) => "Channel not found: "@ + s,
        SessionFault::RoomNotFound(s) => "Room not found: "@ + s,
        SessionFault::AlreadyInRoom => "Already in room"@,
        SessionFault::NotInRoom => "Not in room"@,
        SessionFault::PermissionDenied => "Permission denied"@,
    }
}

impl SessionError {
    /// The human-readable message.
    pub fn message(&self) -> (r: String)
        ensures
            r@ == session_error_text(self@),
    {
        match self {
            SessionError::UserNotFound(s) => concat_text("User not found: ", s.as_str()),
            SessionError::ChannelNotFound(s) => concat_text("Channel not found: ", s.as_str()),
            SessionError::RoomNotFound(s) => concat_text("Room not found: ", s.as_str()),
            SessionError::AlreadyInRoom => String::from_str("Already in room"),
            SessionError::NotInRoom => String::from_str("Not in room"),
            SessionError::PermissionDenied => String::from_str("Permission denied"),
        }
    }
}

/// The model value of a unit result.
pub open spec fn unit_result(r: Result<(), SessionError>) -> Result<(), SessionFault> {
    match r {
        Ok(()) => Ok(()),
        Err(e) => Err(e@),
    }
}

/// User connection state.
#[derive(Debug, Clone, Copy, PartialEq, Eq, Structural)]
pub enum UserState {
    Connecting,
    Connected,
    Talking,
    Idle,
    Disconnected,
}

/// The model of a user session.
pub struct UserView {
    pub info: UserInfoView,
    pub state: UserState,
    pub subscribed: Set<Seq<char>>,
    pub talk_channel: Option<Seq<char>>,
    pub joined_at: u64,
    pub last_activity: u64,
}

/// The model of a channel session.
pub struct ChannelView {
    pub info: ChannelInfoView,
    pub subscribers: Set<Seq<char>>,
    pub talkers: Set<Seq<char>>,
}

/// The model of a room.
pub struct RoomView {
    pub id: Seq<char>,
    pub name: Seq<char>,
    pub max_users: nat,
    pub users: Map<Seq<char>, UserView>,
    pub channels: Map<Seq<char>, ChannelView>,
}

/// The model of the whole session state: rooms by id, and the room of every
/// joined user.
pub struct SessionView {
    pub rooms: Map<Seq<char>, RoomView>,
    pub user_room: Map<Seq<char>, Seq<char>>,
}

/// The model of an optional channel id.
pub open spec fn opt_id(c: Option<ChannelId>) -> Option<Seq<char>> {
    match c {
        Some(c) => Some(c@),
        None => None,
    }
}

/// Extended user state for session management.
#[derive(Debug)]
pub struct UserSession {
    pub info: UserInfo,
    pub state: UserState,
    pub joined_at: u64,
    pub last_activity: u64,
    pub subscribed_channels: IdSet,
    pub talk_channel: Option<ChannelId>,
    pub muted: bool,
}

impl View for UserSession {
    type V = UserView;

    open spec fn view(&self) -> UserView {
        UserView {
            info: self.info@,
            state: self.state,
            subscribed: self.subscribed_channels.set(),
            talk_channel: opt_id(self.talk_channel),
            joined_at: self.joined_at,
            last_activity: self.last_activity,
        }
    }
}

/// A freshly joined user.
pub open spec fn fresh_user(info: UserInfoView, now: u64) -> UserView {
    UserView {
        info,
        state: UserState::Connected,
        subscribed: Set::empty(),
        talk_channel: None,
        joined_at: now,
        last_activity: now,
    }
}

impl UserSession {
    pub open spec fn wf(&self) -> bool {
        self.subscribed_channels.wf()
    }

    /// A connected user with no subscriptions, stamped with time `now`.
    pub fn new_at(info: UserInfo, now: u64) -> (r: Self)
        ensures
            r.wf(),
            r@ == fresh_user(info@, now),
            !r.muted,
    {
        UserSession {
            info,
            state: UserState::Connected,
            joined_at: now,
            last_activity: now,
            subscribed_channels: IdSet::new(),
            talk_channel: None,
            muted: false,
        }
    }

    /// A connected user with no subscriptions, stamped with the current time.
    pub fn new(info: UserInfo) -> (r: Self)
        ensures
            r.wf(),
            r@ == fresh_user(info@, r.joined_at),
            !r.muted,
    {
        let now = now_millis();
        Self::new_at(info, now)
    }

    /// Records activity at time `now`.
    pub fn touch_at(&mut self, now: u64)
        ensures
            final(self)@ == (UserView { last_activity: now, ..old(self)@ }),
            final(self).info == old(self).info,
            final(self).muted == old(self).muted,
            final(self).subscribed_channels == old(self).subscribed_channels,
    {
        self.last_activity = now;
    }

    /// Records activity now: the activity time becomes a reading of the
    /// wall clock, of which nothing is promised; nothing else changes.
    /// `touch_at` states the update for a given time.
    pub fn touch(&mut self)
        ensures
            final(self)@ == (UserView { last_activity: final(self).last_activity, ..old(self)@ }),
            final(self).info == old(self).info,
            final(self).muted == old(self).muted,
            final(self).subscribed_channels == old(self).subscribed_channels,
    {
        let now = now_millis();
        self.touch_at(now);
    }

    /// Milliseconds since the last activity, as seen at time `now` (zero if
    /// `now` is earlier).
    pub fn idle_duration_at(&self, now: u64) -> (d: u64)
        ensures
            d == idle_ms(self.last_activity, now),
    {
        if now >= self.last_activity {
            now - self.last_activity
        } else {
            0
        }
    }

    /// Milliseconds since the last activity.
    pub fn idle_duration(&self) -> (d: u64)
        ensures
            exists|now: u64| d == idle_ms(self.last_activity, now),
    {
        let now = now_millis();
        self.idle_duration_at(now)
    }
}

/// Elapsed milliseconds from `last` to `now`, saturating at zero.
pub open spec fn idle_ms(last: u64, now: u64) -> u64 {
    if now >= last {
        (now - last) as u64
    } else {
        0
    }
}

/// Channel state for session management.
#[derive(Debug)]
pub struct ChannelSession {
    pub info: ChannelInfo,
    pub subscribers: IdSet,
    pub talkers: IdSet,
}

impl View for ChannelSession {
    type V = ChannelView;

    open spec fn view(&self) -> ChannelView {
        ChannelView {
            info: self.info@,
            subscribers: self.subscribers.set(),
            talkers: self.talkers.set(),
        }
    }
}

/// A channel nobody has subscribed to or talks on.
pub open spec fn fresh_channel(info: ChannelInfoView) -> ChannelView {
    ChannelView { info, subscribers: Set::empty(), talkers: Set::empty() }
}

impl ChannelSession {
    pub open spec fn wf(&self) -> bool {
        self.subscribers.wf() && self.talkers.wf()
    }

    /// A channel with no subscribers and no talkers.
    pub fn new(info: ChannelInfo) -> (r: Self)
        ensures
            r.wf(),
            r@ == fresh_channel(info@),
    {
        ChannelSession { info, subscribers: IdSet::new(), talkers: IdSet::new() }
    }
}

/// Room session state.
#[derive(Debug)]
pub struct RoomSession {
    pub id: RoomId,
    pub name: String,
    pub password_hash: Option<String>,
    pub users: IdMap<UserSession>,
    pub channels: IdMap<ChannelSession>,
    pub created_at: u64,
    pub max_users: usize,
}

impl View for RoomSession {
    type V = RoomView;

    open spec fn view(&self) -> RoomView {
        RoomView {
            id: self.id@,
            name: self.name@,
            max_users: self.max_users as nat,
            users: self.users.map().map_values(|u: UserSession| u@),
            channels: self.channels.map().map_values(|c: ChannelSession| c@),
        }
    }
}

impl RoomSession {
    pub open spec fn wf(&self) -> bool {
        &&& self.users.wf()
        &&& self.channels.wf()
        &&& forall|k: Seq<char>| #[trigger]
            self.users.map().contains_key(k) ==> self.users.map()[k].wf()
        &&& forall|k: Seq<char>| #[trigger]
            self.channels.map().contains_key(k) ==> self.channels.map()[k].wf()
        &&& forall|k: Seq<char>| #[trigger]
            self.users.map().contains_key(k) ==> self.users.map()[k].info.id@ == k
        &&& forall|k: Seq<char>| #[trigger]
            self.channels.map().contains_key(k) ==> self.channels.map()[k].info.id@ == k
    }

    /// An empty room holding up to 100 users, created at time `now`.
    pub fn new_at(id: RoomId, name: &str, now: u64) -> (r: Self)
        ensures
            r.wf(),
            r@ == (RoomView {
                id: id@,
                name: name@,
                max_users: 100,
                users: Map::empty(),
                channels: Map::empty(),
            }),
            r.password_hash.is_none(),
            r.created_at == now,
    {
        let r = RoomSession {
            id,
            name: name.to_string(),
            password_hash: None,
            users: IdMap::new(),
            channels: IdMap::new(),
            created_at: now,
            max_users: 100,
        };
        assert(r@.users =~= Map::empty());
        assert(r@.channels =~= Map::empty());
        r
    }

    /// An empty room holding up to 100 users, created now.
    pub fn new(id: RoomId, name: &str) -> (r: Self)
        ensures
            r.wf(),
            r@ == (RoomView {
                id: id@,
                name: name@,
                max_users: 100,
                users: Map::empty(),
                channels: Map::empty(),
            }),
            r.password_hash.is_none(),
    {
        let now = now_millis();
        Self::new_at(id, name, now)
    }

    /// The same room, protected by the given password hash.
    pub fn with_password(self, password_hash: String) -> (r: Self)
        ensures
            r@ == self@,
            r.wf() == self.wf(),
            r.password_hash matches Some(h) && h@ == password_hash@,
            r.created_at == self.created_at,
    {
        RoomSession { password_hash: Some(password_hash), ..self }
    }

    /// The same room, holding up to `max` users.
    pub fn with_max_users(self, max: usize) -> (r: Self)
        ensures
            r@ == (RoomView { max_users: max as nat, ..self@ }),
            r.wf() == self.wf(),
            r.password_hash == self.password_hash,
            r.created_at == self.created_at,
    {
        RoomSession { max_users: max, ..self }
    }
}

} // verus!

verus! {

/// A channel with `u` taken out of its subscribers and talkers.
pub open spec fn strip_channel(c: ChannelView, u: Seq<char>) -> ChannelView {
    ChannelView { subscribers: c.subscribers.remove(u), talkers: c.talkers.remove(u), ..c }
}

/// A room with user `u` removed, including from every channel.
pub open spec fn room_without_user(rv: RoomView, u: Seq<char>) -> RoomView {
    RoomView {
        users: rv.users.remove(u),
        channels: rv.channels.map_values(|c: ChannelView| strip_channel(c, u)),
        ..rv
    }
}

/// Every joined user's room exists and lists the user; every room is stored
/// under its own id.
pub open spec fn consistent(m: SessionView) -> bool {
    &&& forall|u: Seq<char>| #[trigger]
        m.user_room.contains_key(u) ==> m.rooms.contains_key(m.user_room[u])
            && m.rooms[m.user_room[u]].users.contains_key(u)
    &&& forall|r: Seq<char>| #[trigger] m.rooms.contains_key(r) ==> m.rooms[r].id == r
    &&& forall|r: Seq<char>, u: Seq<char>|
        m.rooms.contains_key(r) && #[trigger] m.rooms[r].users.contains_key(u) ==> m.rooms[r].users[u].info.id
            == u
    &&& forall|r: Seq<char>, c: Seq<char>|
        m.rooms.contains_key(r) && #[trigger] m.rooms[r].channels.contains_key(c)
            ==> m.rooms[r].channels[c].info.id == c
}

/// The keys among the first `i` of `ks`.
pub open spec fn prefix_set(ks: Seq<Seq<char>>, i: int) -> Set<Seq<char>> {
    Set::new(|k: Seq<char>| exists|j: int| 0 <= j < i && ks[j] == k)
}

/// Model of `create_room`.
pub open spec fn create_room_spec(m: SessionView, room: RoomView) -> SessionView {
    SessionView { rooms: m.rooms.insert(room.id, room), ..m }
}

/// Model of `delete_room`.
pub open spec fn delete_room_spec(m: SessionView, r: Seq<char>) -> (SessionView, Result<(), SessionFault>) {
    if !m.rooms.contains_key(r) {
        (m, Err(SessionFault::RoomNotFound(r)))
    } else {
        (
            SessionView {
                rooms: m.rooms.remove(r),
                user_room: m.user_room.remove_keys(m.rooms[r].users.dom()),
            },
            Ok(()),
        )
    }
}

/// Model of `join_room` at time `now`.
pub open spec fn join_room_spec(
    m: SessionView,
    r: Seq<char>,
    info: UserInfoView,
    now: u64,
) -> (SessionView, Result<(), SessionFault>) {
    let u = info.id;
    if m.user_room.contains_key(u) {
        (m, Err(SessionFault::AlreadyInRoom))
    } else if !m.rooms.contains_key(r) {
        (m, Err(SessionFault::RoomNotFound(r)))
    } else if m.rooms[r].users.len() >= m.rooms[r].max_users {
        (m, Err(SessionFault::PermissionDenied))
    } else {
        (
            SessionView {
                rooms: m.rooms.insert(
                    r,
                    RoomView { users: m.rooms[r].users.insert(u, fresh_user(info, now)), ..m.rooms[r] },
                ),
                user_room: m.user_room.insert(u, r),
            },
            Ok(()),
        )
    }
}

/// Model of `leave_room`.
pub open spec fn leave_room_spec(m: SessionView, u: Seq<char>) -> (SessionView, Result<Seq<char>, SessionFault>) {
    if !m.user_room.contains_key(u) {
        (m, Err(SessionFault::NotInRoom))
    } else {
        let r = m.user_room[u];
        let rooms = if m.rooms.contains_key(r) {
            m.rooms.insert(r, room_without_user(m.rooms[r], u))
        } else {
            m.rooms
        };
        (SessionView { rooms, user_room: m.user_room.remove(u) }, Ok(r))
    }
}

/// Session manager for tracking all state.
#[derive(Debug)]
pub struct SessionManager {
    rooms: IdMap<RoomSession>,
    user_room_map: IdMap<RoomId>,
}

impl View for SessionManager {
    type V = SessionView;

    closed spec fn view(&self) -> SessionView {
        SessionView {
            rooms: self.rooms.map().map_values(|r: RoomSession| r@),
            user_room: self.user_room_map.map().map_values(|r: RoomId| r@),
        }
    }
}

impl SessionManager {
    /// Well-formedness: well-formed containers, and a consistent model.
    pub closed spec fn wf(&self) -> bool {
        &&& self.rooms.wf()
        &&& self.user_room_map.wf()
        &&& forall|k: Seq<char>| #[trigger]
            self.rooms.map().contains_key(k) ==> self.rooms.map()[k].wf()
        &&& consistent(self@)
    }

    pub proof fn lemma_wf_consistent(&self)
        requires
            self.wf(),
        ensures
            consistent(self@),
    {
    }

    /// An empty manager.
    pub fn new() -> (r: Self)
        ensures
            r.wf(),
            r@.rooms =~= Map::<Seq<char>, RoomView>::empty(),
            r@.user_room =~= Map::<Seq<char>, Seq<char>>::empty(),
    {
        let r = SessionManager { rooms: IdMap::new(), user_room_map: IdMap::new() };
        assert(r@.rooms =~= Map::empty());
        assert(r@.user_room =~= Map::empty());
        r
    }

    /// Adds (or replaces) a room under its own id and returns that id.
    ///
    /// It is not called while users are assigned to a room with the same
    /// id: replacing that room would leave them assigned to a room that does
    /// not list them, and once the new room was deleted their next
    /// subscription or talk request would look up a room that no longer
    /// exists. Every operation here relies on each user's room listing them.
    pub fn create_room(&mut self, room: RoomSession) -> (id: RoomId)
        requires
            old(self).wf(),
            room.wf(),
            forall|u: Seq<char>| #[trigger]
                old(self)@.user_room.contains_key(u) ==> old(self)@.user_room[u] != room.id@,
        ensures
            final(self).wf(),
            id@ == room.id@,
            final(self)@ == create_room_spec(old(self)@, room@),
    {
        let id = room.id.clone();
        let key = room.id.0.clone();
        let ghost rv = room@;
        self.rooms.insert(key, room);
        proof {
            let m = self.rooms.map();
            assert(self@.rooms =~= old(self)@.rooms.insert(rv.id, rv));
            assert forall|k: Seq<char>| #[trigger] m.contains_key(k) implies m[k].wf() by {
                if k != rv.id {
                    assert(old(self).rooms.map().contains_key(k));
                }
            }
            assert(self@.user_room == old(self)@.user_room);
            self.lemma_keyed();
        }
        id
    }

    /// Name, user count and capacity of a room.
    pub fn get_room(&self, room_id: &RoomId) -> (r: Option<(String, usize, usize)>)
        requires
            self.wf(),
        ensures
            r.is_some() == self@.rooms.contains_key(room_id@),
            r matches Some(t) ==> t.0@ == self@.rooms[room_id@].name && t.1
                == self@.rooms[room_id@].users.len() && t.2 == self@.rooms[room_id@].max_users,
    {
        match self.rooms.get(room_id.as_str()) {
            Some(room) => {
                proof {
                    room.users.lemma_keys();
                    assert(room@.users.dom() =~= room.users.map().dom());
                }
                Some((room.name.clone(), room.users.len(), room.max_users))
            },
            None => None,
        }
    }

    /// Ids of all rooms, each once.
    pub fn list_rooms(&self) -> (r: Vec<RoomId>)
        requires
            self.wf(),
        ensures
            r@.map_values(|x: RoomId| x@).no_duplicates(),
            r@.map_values(|x: RoomId| x@).to_set() =~= self@.rooms.dom(),
    {
        let n = self.rooms.len();
        let mut out: Vec<RoomId> = Vec::new();
        let mut i: usize = 0;
        while i < n
            invariant
                self.wf(),
                n == self.rooms.key_seq().len(),
                i <= n,
                out@.len() == i,
                forall|j: int| 0 <= j < i ==> #[trigger] out@[j]@ == self.rooms.key_seq()[j],
            decreases n - i,
        {
            let k = self.rooms.key_at(i);
            out.push(RoomId(k.clone()));
            i = i + 1;
        }
        proof {
            self.rooms.lemma_keys();
            assert(out@.map_values(|x: RoomId| x@) =~= self.rooms.key_seq());
            assert forall|k: Seq<char>| #[trigger] self@.rooms.dom().contains(k)
                <==> self.rooms.key_seq().to_set().contains(k) by {}
        }
        out
    }

    /// The room a user is in, if any.
    pub fn get_user_room(&self, user_id: &UserId) -> (r: Option<RoomId>)
        requires
            self.wf(),
        ensures
            r.is_some() == self@.user_room.contains_key(user_id@),
            r matches Some(id) ==> id@ == self@.user_room[user_id@],
    {
        match self.user_room_map.get(user_id.as_str()) {
            Some(id) => Some(id.clone()),
            None => None,
        }
    }
}


impl RoomSession {
    /// Takes user `u` out of every channel's subscribers and talkers.
    fn strip_user_from_channels(&mut self, u: &str)
        requires
            old(self).wf(),
        ensures
            final(self).wf(),
            final(self)@ == (RoomView {
                channels: old(self)@.channels.map_values(|c: ChannelView| strip_channel(c, u@)),
                ..old(self)@
            }),
            final(self).users == old(self).users,
    {
        let ghost old_map = self.channels.map();
        let ghost ks = self.channels.key_seq();
        let n = self.channels.len();
        let mut i: usize = 0;
        proof {
            self.channels.lemma_keys();
        }
        while i < n
            invariant
                self.channels.wf(),
                self.channels.key_seq() == ks,
                ks.no_duplicates(),
                n == ks.len(),
                i <= n,
                self.channels.map().dom() == old_map.dom(),
                forall|k: Seq<char>| #[trigger] old_map.contains_key(k) <==> ks.contains(k),
                forall|j: int|
                    0 <= j < i ==> (#[trigger] self.channels.map()[ks[j]])@ == strip_channel(
                        old_map[ks[j]]@,
                        u@,
                    ) && self.channels.map()[ks[j]].wf(),
                forall|j: int|
                    i <= j < n ==> #[trigger] self.channels.map()[ks[j]] == old_map[ks[j]],
                forall|k: Seq<char>| #[trigger] old_map.contains_key(k) ==> old_map[k].wf(),
                self.users == old(self).users,
                self.id == old(self).id,
                self.name == old(self).name,
                self.max_users == old(self).max_users,
            decreases n - i,
        {
            let (key, mut ch) = self.channels.take_at(i);
            proof {
                assert(ks[i as int] == key@);
                assert(ch == old_map[key@]);
            }
            ch.subscribers.remove(u);
            ch.talkers.remove(u);
            self.channels.put_at(i, key, ch);
            proof {
                assert(self.channels.key_seq() =~= ks);
                assert forall|j: int| 0 <= j < n && j != i implies ks[j] != ks[i as int] by {}
            }
            i = i + 1;
        }
        proof {
            let newv = self@.channels;
            let want = old(self)@.channels.map_values(|c: ChannelView| strip_channel(c, u@));
            assert forall|k: Seq<char>| #[trigger] newv.contains_key(k) <==> want.contains_key(k) by {}
            assert forall|k: Seq<char>| #[trigger] newv.contains_key(k) implies newv[k] == want[k] by {
                let j = ks.index_of(k);
                ks.index_of_first_ensures(k);
            }
            assert(newv =~= want);
            assert forall|k: Seq<char>| #[trigger] self.channels.map().contains_key(k) implies self.channels.map()[k].wf() by {
                let j = ks.index_of(k);
                ks.index_of_first_ensures(k);
            }
        }
    }
}

impl SessionManager {
    /// Adds a user to a room, stamped with time `now`.
    pub fn join_room_at(&mut self, room_id: &RoomId, user: UserInfo, now: u64) -> (r: Result<(), SessionError>)
        requires
            old(self).wf(),
        ensures
            final(self).wf(),
            (final(self)@, unit_result(r)) == join_room_spec(
                old(self)@,
                room_id@,
                user@,
                now,
            ),
    {
        if self.user_room_map.contains_key(user.id.as_str()) {
            return Err(SessionError::AlreadyInRoom);
        }
        let idx = match self.rooms.find(room_id.as_str()) {
            Some(i) => i,
            None => {
                return Err(SessionError::RoomNotFound(room_id.to_string()));
            },
        };
        let ghost old_rooms = self.rooms.map();
        let (key, mut room) = self.rooms.take_at(idx);
        proof {
            room.users.lemma_keys();
            assert(room@.users.dom() =~= room.users.map().dom());
            assert(room@ == old(self)@.rooms[room_id@]);
        }
        if room.users.len() >= room.max_users {
            self.rooms.put_at(idx, key, room);
            proof {
                assert(self.rooms.map() =~= old_rooms);
            }
            return Err(SessionError::PermissionDenied);
        }
        let uid = user.id.clone();
        let ghost info = user@;
        let session = UserSession::new_at(user, now);
        room.users.insert(uid.0.clone(), session);
        self.rooms.put_at(idx, key, room);
        self.user_room_map.insert(uid.0.clone(), room_id.clone());
        proof {
            let m0 = old(self)@;
            let want = join_room_spec(m0, room_id@, info, now).0;
            assert(self@.user_room =~= want.user_room);
            assert(room@.users =~= m0.rooms[room_id@].users.insert(uid@, fresh_user(info, now)));
            assert(self@.rooms =~= want.rooms);
            assert forall|k: Seq<char>| #[trigger] room.users.map().contains_key(k) implies room.users.map()[k].wf() by {
                if k != uid@ {
                    assert(old_rooms[room_id@].users.map().contains_key(k));
                }
            }
            assert forall|k: Seq<char>| #[trigger] self.rooms.map().contains_key(k) implies self.rooms.map()[k].wf() by {
                if k != room_id@ {
                    assert(old_rooms.contains_key(k));
                }
            }
            assert forall|u: Seq<char>| #[trigger] self@.user_room.contains_key(u) implies self@.rooms.contains_key(self@.user_room[u])
                && self@.rooms[self@.user_room[u]].users.contains_key(u) by {
                if u != uid@ {
                    assert(m0.user_room.contains_key(u));
                }
            }
            assert forall|r: Seq<char>| #[trigger] self@.rooms.contains_key(r) implies self@.rooms[r].id == r by {
                if r != room_id@ {
                    assert(m0.rooms.contains_key(r));
                }
            }
        }
        Ok(())
    }

    /// Adds a user to a room, stamped with the current time.
    pub fn join_room(&mut self, room_id: &RoomId, user: UserInfo) -> (r: Result<(), SessionError>)
        requires
            old(self).wf(),
        ensures
            final(self).wf(),
            exists|now: u64|
                (final(self)@, unit_result(r)) == join_room_spec(
                    old(self)@,
                    room_id@,
                    user@,
                    now,
                ),
    {
        let now = now_millis();
        let ghost info = user@;
        let r = self.join_room_at(room_id, user, now);
        assert((self@, unit_result(r)) == join_room_spec(old(self)@, room_id@, info, now));
        r
    }
}

impl SessionManager {
    /// Removes a user from their room, including from all its channels, and
    /// returns that room's id.
    pub fn leave_room(&mut self, user_id: &UserId) -> (r: Result<RoomId, SessionError>)
        requires
            old(self).wf(),
        ensures
            final(self).wf(),
            final(self)@ == leave_room_spec(old(self)@, user_id@).0,
            match (r, leave_room_spec(old(self)@, user_id@).1) {
                (Ok(id), Ok(rid)) => id@ == rid,
                (Err(e), Err(f)) => e@ == f,
                _ => false,
            },
    {
        let room_id = match self.user_room_map.remove(user_id.as_str()) {
            Some(id) => id,
            None => {
                proof {
                    assert(self.user_room_map.map() =~= old(self).user_room_map.map());
                    assert(self@ == old(self)@);
                }
                return Err(SessionError::NotInRoom);
            },
        };
        let ghost m0 = old(self)@;
        let ghost u = user_id@;
        let ghost r = room_id@;
        match self.rooms.find(room_id.as_str()) {
            Some(idx) => {
                let ghost old_rooms = self.rooms.map();
                let (key, mut room) = self.rooms.take_at(idx);
                room.strip_user_from_channels(user_id.as_str());
                let _removed = room.users.remove(user_id.as_str());
                proof {
                    assert(room@.users =~= m0.rooms[r].users.remove(u));
                    assert(room@ =~= room_without_user(m0.rooms[r], u));
                    assert forall|k: Seq<char>| #[trigger] room.users.map().contains_key(k) implies room.users.map()[k].wf() by {
                        assert(old_rooms[r].users.map().contains_key(k));
                    }
                }
                self.rooms.put_at(idx, key, room);
                proof {
                    assert forall|k: Seq<char>| #[trigger] self.rooms.map().contains_key(k) implies self.rooms.map()[k].wf() by {
                        if k != r {
                            assert(old_rooms.contains_key(k));
                        }
                    }
                }
            },
            None => {},
        }
        proof {
            let want = leave_room_spec(m0, u).0;
            assert(self@.rooms =~= want.rooms);
            assert(self@.user_room =~= want.user_room);
            assert forall|v: Seq<char>| #[trigger] self@.user_room.contains_key(v) implies self@.rooms.contains_key(self@.user_room[v])
                && self@.rooms[self@.user_room[v]].users.contains_key(v) by {
                assert(m0.user_room.contains_key(v));
                assert(v != u);
            }
            assert forall|x: Seq<char>| #[trigger] self@.rooms.contains_key(x) implies self@.rooms[x].id == x by {
                assert(m0.rooms.contains_key(x));
            }
        }
        Ok(room_id)
    }

    /// Deletes a room and forgets the room of every user listed in it.
    pub fn delete_room(&mut self, room_id: &RoomId) -> (r: Result<(), SessionError>)
        requires
            old(self).wf(),
        ensures
            final(self).wf(),
            (final(self)@, unit_result(r)) == delete_room_spec(old(self)@, room_id@),
    {
        let room = match self.rooms.remove(room_id.as_str()) {
            Some(room) => room,
            None => {
                proof {
                    assert(self.rooms.map() =~= old(self).rooms.map());
                    assert(self@ == old(self)@);
                }
                return Err(SessionError::RoomNotFound(room_id.to_string()));
            },
        };
        let ghost m0 = old(self)@;
        let ghost old_map = self.user_room_map.map();
        let ghost ks = room.users.key_seq();
        let ghost rooms_now = self.rooms;
        proof {
            room.users.lemma_keys();
        }
        let n = room.users.len();
        let mut i: usize = 0;
        while i < n
            invariant
                room.users.wf(),
                ks == room.users.key_seq(),
                n == ks.len(),
                i <= n,
                self.user_room_map.wf(),
                self.user_room_map.map() =~= old_map.remove_keys(prefix_set(ks, i as int)),
                self.rooms == rooms_now,
            decreases n - i,
        {
            let k = room.users.key_at(i);
            let _ = self.user_room_map.remove(k.as_str());
            proof {
                assert(prefix_set(ks, i + 1) =~= prefix_set(ks, i as int).insert(ks[i as int]));
            }
            i = i + 1;
        }
        proof {
            assert(prefix_set(ks, n as int) =~= m0.rooms[room_id@].users.dom());
            let want = delete_room_spec(m0, room_id@).0;
            assert(self@.rooms =~= want.rooms);
            assert(self@.user_room =~= want.user_room);
            assert forall|k: Seq<char>| #[trigger] self.rooms.map().contains_key(k) implies self.rooms.map()[k].wf() by {
                assert(old(self).rooms.map().contains_key(k));
            }
            assert forall|v: Seq<char>| #[trigger] self@.user_room.contains_key(v) implies self@.rooms.contains_key(self@.user_room[v])
                && self@.rooms[self@.user_room[v]].users.contains_key(v) by {
                assert(m0.user_room.contains_key(v));
                assert(!m0.rooms[room_id@].users.contains_key(v));
            }
            assert forall|x: Seq<char>| #[trigger] self@.rooms.contains_key(x) implies self@.rooms[x].id == x by {
                assert(m0.rooms.contains_key(x));
            }
        }
        Ok(())
    }
}

/// A user after subscribing to channel `c` at time `now`.
pub open spec fn subscribed_user(uv: UserView, c: Seq<char>, now: u64) -> UserView {
    UserView { subscribed: uv.subscribed.insert(c), last_activity: now, ..uv }
}

/// A user after leaving channel `c` (no longer subscribed, and no longer
/// talking there), without an activity stamp.
pub open spec fn user_without_channel(uv: UserView, c: Seq<char>) -> UserView {
    if uv.talk_channel == Some(c) {
        UserView {
            subscribed: uv.subscribed.remove(c),
            talk_channel: None,
            state: UserState::Idle,
            ..uv
        }
    } else {
        UserView { subscribed: uv.subscribed.remove(c), ..uv }
    }
}

/// A user after unsubscribing from channel `c` at time `now`.
pub open spec fn unsubscribed_user(uv: UserView, c: Seq<char>, now: u64) -> UserView {
    UserView { last_activity: now, ..user_without_channel(uv, c) }
}

/// A user after starting to talk on channel `c` at time `now`.
pub open spec fn talking_user(uv: UserView, c: Seq<char>, now: u64) -> UserView {
    UserView { talk_channel: Some(c), state: UserState::Talking, last_activity: now, ..uv }
}

/// A user after stopping talking at time `now`.
pub open spec fn silent_user(uv: UserView, now: u64) -> UserView {
    UserView { talk_channel: None, state: UserState::Idle, last_activity: now, ..uv }
}

/// A map with the value under `k` replaced by `v`, if `k` is present.
pub open spec fn replace_if_present<V>(m: Map<Seq<char>, V>, k: Seq<char>, v: V) -> Map<Seq<char>, V> {
    if m.contains_key(k) {
        m.insert(k, v)
    } else {
        m
    }
}

/// The model of an optional channel id result.
pub open spec fn opt_channel_result(r: Result<Option<ChannelId>, SessionError>) -> Result<
    Option<Seq<char>>,
    SessionFault,
> {
    match r {
        Ok(c) => Ok(opt_id(c)),
        Err(e) => Err(e@),
    }
}

/// The model of a channel id result.
pub open spec fn channel_result(r: Result<ChannelId, SessionError>) -> Result<Seq<char>, SessionFault> {
    match r {
        Ok(c) => Ok(c@),
        Err(e) => Err(e@),
    }
}

/// Model of `create_channel`.
pub open spec fn create_channel_spec(m: SessionView, r: Seq<char>, info: ChannelInfoView) -> (
    SessionView,
    Result<Seq<char>, SessionFault>,
) {
    if !m.rooms.contains_key(r) {
        (m, Err(SessionFault::RoomNotFound(r)))
    } else {
        (
            SessionView {
                rooms: m.rooms.insert(
                    r,
                    RoomView { channels: m.rooms[r].channels.insert(info.id, fresh_channel(info)), ..m.rooms[r] },
                ),
                ..m
            },
            Ok(info.id),
        )
    }
}

/// Model of `delete_channel`.
pub open spec fn delete_channel_spec(m: SessionView, r: Seq<char>, c: Seq<char>) -> (
    SessionView,
    Result<(), SessionFault>,
) {
    if !m.rooms.contains_key(r) {
        (m, Err(SessionFault::RoomNotFound(r)))
    } else if !m.rooms[r].channels.contains_key(c) {
        (m, Err(SessionFault::ChannelNotFound(c)))
    } else {
        (
            SessionView {
                rooms: m.rooms.insert(
                    r,
                    RoomView {
                        channels: m.rooms[r].channels.remove(c),
                        users: m.rooms[r].users.map_values(|uv: UserView| user_without_channel(uv, c)),
                        ..m.rooms[r]
                    },
                ),
                ..m
            },
            Ok(()),
        )
    }
}

/// Model of `subscribe_channel` at time `now`.
pub open spec fn subscribe_spec(m: SessionView, u: Seq<char>, c: Seq<char>, now: u64) -> (
    SessionView,
    Result<(), SessionFault>,
) {
    if !m.user_room.contains_key(u) {
        (m, Err(SessionFault::NotInRoom))
    } else {
        let r = m.user_room[u];
        let rv = m.rooms[r];
        if !rv.channels.contains_key(c) {
            (m, Err(SessionFault::ChannelNotFound(c)))
        } else {
            let ch = rv.channels[c];
            let rv2 = RoomView {
                channels: rv.channels.insert(c, ChannelView { subscribers: ch.subscribers.insert(u), ..ch }),
                users: replace_if_present(rv.users, u, subscribed_user(rv.users[u], c, now)),
                ..rv
            };
            (SessionView { rooms: m.rooms.insert(r, rv2), ..m }, Ok(()))
        }
    }
}

/// Model of `unsubscribe_channel` at time `now`.
pub open spec fn unsubscribe_spec(m: SessionView, u: Seq<char>, c: Seq<char>, now: u64) -> (
    SessionView,
    Result<(), SessionFault>,
) {
    if !m.user_room.contains_key(u) {
        (m, Err(SessionFault::NotInRoom))
    } else {
        let r = m.user_room[u];
        let rv = m.rooms[r];
        let rv2 = RoomView {
            channels: replace_if_present(rv.channels, c, strip_channel(rv.channels[c], u)),
            users: replace_if_present(rv.users, u, unsubscribed_user(rv.users[u], c, now)),
            ..rv
        };
        (SessionView { rooms: m.rooms.insert(r, rv2), ..m }, Ok(()))
    }
}

/// Model of `start_talk` at time `now`.
pub open spec fn start_talk_spec(m: SessionView, u: Seq<char>, c: Seq<char>, now: u64) -> (
    SessionView,
    Result<(), SessionFault>,
) {
    if !m.user_room.contains_key(u) {
        (m, Err(SessionFault::NotInRoom))
    } else {
        let r = m.user_room[u];
        let rv = m.rooms[r];
        if !rv.channels.contains_key(c) {
            (m, Err(SessionFault::ChannelNotFound(c)))
        } else {
            let ch = rv.channels[c];
            let rv2 = RoomView {
                channels: rv.channels.insert(c, ChannelView { talkers: ch.talkers.insert(u), ..ch }),
                users: replace_if_present(rv.users, u, talking_user(rv.users[u], c, now)),
                ..rv
            };
            (SessionView { rooms: m.rooms.insert(r, rv2), ..m }, Ok(()))
        }
    }
}

/// Model of `stop_talk` at time `now`: returns the channel the user was
/// talking on.
pub open spec fn stop_talk_spec(m: SessionView, u: Seq<char>, now: u64) -> (
    SessionView,
    Result<Option<Seq<char>>, SessionFault>,
) {
    if !m.user_room.contains_key(u) {
        (m, Err(SessionFault::NotInRoom))
    } else {
        let r = m.user_room[u];
        let rv = m.rooms[r];
        let ch = if rv.users.contains_key(u) {
            rv.users[u].talk_channel
        } else {
            None
        };
        let channels = match ch {
            Some(c) => replace_if_present(
                rv.channels,
                c,
                ChannelView { talkers: rv.channels[c].talkers.remove(u), ..rv.channels[c] },
            ),
            None => rv.channels,
        };
        let rv2 = RoomView {
            channels,
            users: replace_if_present(rv.users, u, silent_user(rv.users[u], now)),
            ..rv
        };
        (SessionView { rooms: m.rooms.insert(r, rv2), ..m }, Ok(ch))
    }
}

impl SessionManager {
    proof fn lemma_keyed(&self)
        requires
            self.rooms.wf(),
            forall|k: Seq<char>| #[trigger] self.rooms.map().contains_key(k) ==> self.rooms.map()[k].wf(),
        ensures
            forall|r: Seq<char>, u: Seq<char>|
                self@.rooms.contains_key(r) && #[trigger] self@.rooms[r].users.contains_key(u)
                    ==> self@.rooms[r].users[u].info.id == u,
            forall|r: Seq<char>, c: Seq<char>|
                self@.rooms.contains_key(r) && #[trigger] self@.rooms[r].channels.contains_key(c)
                    ==> self@.rooms[r].channels[c].info.id == c,
    {
        assert forall|r: Seq<char>, u: Seq<char>|
            self@.rooms.contains_key(r) && #[trigger] self@.rooms[r].users.contains_key(u)
                implies self@.rooms[r].users[u].info.id == u by {
            assert(self.rooms.map()[r].wf());
            assert(self.rooms.map()[r].users.map().contains_key(u));
        }
        assert forall|r: Seq<char>, c: Seq<char>|
            self@.rooms.contains_key(r) && #[trigger] self@.rooms[r].channels.contains_key(c)
                implies self@.rooms[r].channels[c].info.id == c by {
            assert(self.rooms.map()[r].wf());
            assert(self.rooms.map()[r].channels.map().contains_key(c));
        }
    }

    proof fn lemma_put_back_room(&self, old_self: &Self, r: Seq<char>)
        requires
            old_self.wf(),
            old_self.rooms.map().contains_key(r),
            self.rooms.wf(),
            self.user_room_map == old_self.user_room_map,
            self.rooms.map().dom() == old_self.rooms.map().dom(),
            forall|k: Seq<char>| #[trigger]
                self.rooms.map().contains_key(k) && k != r ==> self.rooms.map()[k]
                    == old_self.rooms.map()[k],
            self.rooms.map()[r].wf(),
            self.rooms.map()[r].id@ == r,
            self.rooms.map()[r].users.map().dom() == old_self.rooms.map()[r].users.map().dom(),
        ensures
            self.wf(),
    {
        assert forall|k: Seq<char>| #[trigger] self.rooms.map().contains_key(k) implies self.rooms.map()[k].wf() by {
            if k != r {
                assert(old_self.rooms.map().contains_key(k));
            }
        }
        let m0 = old_self@;
        assert forall|v: Seq<char>| #[trigger] self@.user_room.contains_key(v) implies self@.rooms.contains_key(self@.user_room[v])
            && self@.rooms[self@.user_room[v]].users.contains_key(v) by {
            assert(m0.user_room.contains_key(v));
            let x = m0.user_room[v];
            assert(m0.rooms.contains_key(x));
            if x == r {
                assert(old_self.rooms.map()[r].users.map().contains_key(v));
            }
        }
        assert forall|x: Seq<char>| #[trigger] self@.rooms.contains_key(x) implies self@.rooms[x].id == x by {
            assert(m0.rooms.contains_key(x));
        }
        self.lemma_keyed();
    }
}

impl RoomSession {
    /// Applies a subscription to user `u`, if present.
    fn subscribe_user_at(&mut self, u: &str, c: &ChannelId, now: u64)
        requires
            old(self).wf(),
        ensures
            final(self).wf(),
            final(self)@ == (RoomView {
                users: replace_if_present(old(self)@.users, u@, subscribed_user(old(self)@.users[u@], c@, now)),
                ..old(self)@
            }),
            final(self).users.map().dom() == old(self).users.map().dom(),
            final(self).channels == old(self).channels,
    {
        match self.users.find(u) {
            Some(i) => {
                let ghost old_users = self.users.map();
                let (k, mut us) = self.users.take_at(i);
                us.subscribed_channels.insert(c.0.clone());
                us.touch_at(now);
                self.users.put_at(i, k, us);
                proof {
                    assert(self@.users =~= old(self)@.users.insert(u@, subscribed_user(old(self)@.users[u@], c@, now)));
                    assert(self.users.map().dom() =~= old_users.dom());
                    assert forall|x: Seq<char>| #[trigger] self.users.map().contains_key(x) implies self.users.map()[x].wf() by {
                        if x != u@ {
                            assert(old_users.contains_key(x));
                        }
                    }
                }
            },
            None => {},
        }
    }

    /// Applies an unsubscription to user `u`, if present.
    fn unsubscribe_user_at(&mut self, u: &str, c: &ChannelId, now: u64)
        requires
            old(self).wf(),
        ensures
            final(self).wf(),
            final(self)@ == (RoomView {
                users: replace_if_present(old(self)@.users, u@, unsubscribed_user(old(self)@.users[u@], c@, now)),
                ..old(self)@
            }),
            final(self).users.map().dom() == old(self).users.map().dom(),
            final(self).channels == old(self).channels,
    {
        match self.users.find(u) {
            Some(i) => {
                let ghost old_users = self.users.map();
                let (k, mut us) = self.users.take_at(i);
                us.subscribed_channels.remove(c.as_str());
                let talking_here = match &us.talk_channel {
                    Some(t) => crate::text::text_eq(t.as_str(), c.as_str()),
                    None => false,
                };
                if talking_here {
                    us.talk_channel = None;
                    us.state = UserState::Idle;
                }
                us.touch_at(now);
                self.users.put_at(i, k, us);
                proof {
                    assert(self@.users =~= old(self)@.users.insert(u@, unsubscribed_user(old(self)@.users[u@], c@, now)));
                    assert(self.users.map().dom() =~= old_users.dom());
                    assert forall|x: Seq<char>| #[trigger] self.users.map().contains_key(x) implies self.users.map()[x].wf() by {
                        if x != u@ {
                            assert(old_users.contains_key(x));
                        }
                    }
                }
            },
            None => {},
        }
    }

    /// Makes user `u`, if present, a talker on channel `c`.
    fn talk_user_at(&mut self, u: &str, c: &ChannelId, now: u64)
        requires
            old(self).wf(),
        ensures
            final(self).wf(),
            final(self)@ == (RoomView {
                users: replace_if_present(old(self)@.users, u@, talking_user(old(self)@.users[u@], c@, now)),
                ..old(self)@
            }),
            final(self).users.map().dom() == old(self).users.map().dom(),
            final(self).channels == old(self).channels,
    {
        match self.users.find(u) {
            Some(i) => {
                let ghost old_users = self.users.map();
                let (k, mut us) = self.users.take_at(i);
                us.talk_channel = Some(c.clone());
                us.state = UserState::Talking;
                us.touch_at(now);
                self.users.put_at(i, k, us);
                proof {
                    assert(self@.users =~= old(self)@.users.insert(u@, talking_user(old(self)@.users[u@], c@, now)));
                    assert(self.users.map().dom() =~= old_users.dom());
                    assert forall|x: Seq<char>| #[trigger] self.users.map().contains_key(x) implies self.users.map()[x].wf() by {
                        if x != u@ {
                            assert(old_users.contains_key(x));
                        }
                    }
                }
            },
            None => {},
        }
    }

    /// Stops user `u`, if present, from talking; returns the channel it was
    /// talking on.
    fn silence_user_at(&mut self, u: &str, now: u64) -> (ch: Option<ChannelId>)
        requires
            old(self).wf(),
        ensures
            final(self).wf(),
            final(self)@ == (RoomView {
                users: replace_if_present(old(self)@.users, u@, silent_user(old(self)@.users[u@], now)),
                ..old(self)@
            }),
            opt_id(ch) == (if old(self)@.users.contains_key(u@) {
                old(self)@.users[u@].talk_channel
            } else {
                None
            }),
            final(self).users.map().dom() == old(self).users.map().dom(),
            final(self).channels == old(self).channels,
    {
        match self.users.find(u) {
            Some(i) => {
                let ghost old_users = self.users.map();
                let (k, mut us) = self.users.take_at(i);
                let ch = us.talk_channel.take();
                us.state = UserState::Idle;
                us.touch_at(now);
                self.users.put_at(i, k, us);
                proof {
                    assert(self@.users =~= old(self)@.users.insert(u@, silent_user(old(self)@.users[u@], now)));
                    assert(self.users.map().dom() =~= old_users.dom());
                    assert forall|x: Seq<char>| #[trigger] self.users.map().contains_key(x) implies self.users.map()[x].wf() by {
                        if x != u@ {
                            assert(old_users.contains_key(x));
                        }
                    }
                }
                ch
            },
            None => None,
        }
    }
}

impl SessionManager {
    /// Position of the room that user `u` is in (present whenever `u` has a room).
    fn room_slot_of(&self, u: &str) -> (r: Option<(RoomId, usize)>)
        requires
            self.wf(),
        ensures
            r.is_none() == !self@.user_room.contains_key(u@),
            r matches Some(p) ==> p.0@ == self@.user_room[u@] && p.1 < self.rooms.key_seq().len()
                && self.rooms.key_seq()[p.1 as int] == p.0@ && self.rooms.map().contains_key(p.0@),
    {
        let room_id = match self.user_room_map.get(u) {
            Some(r) => r.clone(),
            None => {
                return None;
            },
        };
        proof {
            assert(self@.user_room.contains_key(u@));
            assert(self@.rooms.contains_key(room_id@));
        }
        match self.rooms.find(room_id.as_str()) {
            Some(i) => Some((room_id, i)),
            None => None,
        }
    }

    /// Subscribes a user to a channel of their room, stamped with time `now`.
    pub fn subscribe_channel_at(&mut self, user_id: &UserId, channel_id: &ChannelId, now: u64) -> (r: Result<(), SessionError>)
        requires
            old(self).wf(),
        ensures
            final(self).wf(),
            (final(self)@, unit_result(r)) == subscribe_spec(old(self)@, user_id@, channel_id@, now),
    {
        let (room_id, idx) = match self.room_slot_of(user_id.as_str()) {
            Some(p) => p,
            None => {
                return Err(SessionError::NotInRoom);
            },
        };
        let ghost m0 = old(self)@;
        let (key, mut room) = self.rooms.take_at(idx);
        let ci = match room.channels.find(channel_id.as_str()) {
            Some(ci) => ci,
            None => {
                self.rooms.put_at(idx, key, room);
                proof {
                    assert(self.rooms.map() =~= old(self).rooms.map());
                    assert(self@ == old(self)@);
                }
                return Err(SessionError::ChannelNotFound(channel_id.to_string()));
            },
        };
        let ghost room0 = room;
        let (ck, mut ch) = room.channels.take_at(ci);
        ch.subscribers.insert(user_id.0.clone());
        room.channels.put_at(ci, ck, ch);
        proof {
            assert forall|x: Seq<char>| #[trigger] room.channels.map().contains_key(x) implies room.channels.map()[x].wf() by {
                if x != channel_id@ {
                    assert(room0.channels.map().contains_key(x));
                }
            }
        }
        let ghost room1 = room;
        room.subscribe_user_at(user_id.as_str(), channel_id, now);
        self.rooms.put_at(idx, key, room);
        proof {
            let want = subscribe_spec(m0, user_id@, channel_id@, now).0;
            assert(room1@.channels =~= want.rooms[room_id@].channels);
            assert(room@ =~= want.rooms[room_id@]);
            assert(self@.rooms =~= want.rooms);
            assert(self@.user_room =~= want.user_room);
            self.lemma_put_back_room(old(self), room_id@);
        }
        Ok(())
    }

    /// Subscribes a user to a channel of their room.
    pub fn subscribe_channel(&mut self, user_id: &UserId, channel_id: &ChannelId) -> (r: Result<(), SessionError>)
        requires
            old(self).wf(),
        ensures
            final(self).wf(),
            exists|now: u64|
                (final(self)@, unit_result(r)) == subscribe_spec(old(self)@, user_id@, channel_id@, now),
    {
        let now = now_millis();
        self.subscribe_channel_at(user_id, channel_id, now)
    }

    /// Unsubscribes a user from a channel (and stops them talking there),
    /// stamped with time `now`.
    pub fn unsubscribe_channel_at(&mut self, user_id: &UserId, channel_id: &ChannelId, now: u64) -> (r: Result<(), SessionError>)
        requires
            old(self).wf(),
        ensures
            final(self).wf(),
            (final(self)@, unit_result(r)) == unsubscribe_spec(old(self)@, user_id@, channel_id@, now),
    {
        let (room_id, idx) = match self.room_slot_of(user_id.as_str()) {
            Some(p) => p,
            None => {
                return Err(SessionError::NotInRoom);
            },
        };
        let ghost m0 = old(self)@;
        let (key, mut room) = self.rooms.take_at(idx);
        let ghost room0 = room;
        match room.channels.find(channel_id.as_str()) {
            Some(ci) => {
                let (ck, mut ch) = room.channels.take_at(ci);
                ch.subscribers.remove(user_id.as_str());
                ch.talkers.remove(user_id.as_str());
                room.channels.put_at(ci, ck, ch);
                proof {
                    assert forall|x: Seq<char>| #[trigger] room.channels.map().contains_key(x) implies room.channels.map()[x].wf() by {
                        if x != channel_id@ {
                            assert(room0.channels.map().contains_key(x));
                        }
                    }
                }
            },
            None => {},
        }
        let ghost room1 = room;
        room.unsubscribe_user_at(user_id.as_str(), channel_id, now);
        self.rooms.put_at(idx, key, room);
        proof {
            let want = unsubscribe_spec(m0, user_id@, channel_id@, now).0;
            assert(room1@.channels =~= want.rooms[room_id@].channels);
            assert(room@ =~= want.rooms[room_id@]);
            assert(self@.rooms =~= want.rooms);
            assert(self@.user_room =~= want.user_room);
            self.lemma_put_back_room(old(self), room_id@);
        }
        Ok(())
    }

    /// Unsubscribes a user from a channel (and stops them talking there).
    pub fn unsubscribe_channel(&mut self, user_id: &UserId, channel_id: &ChannelId) -> (r: Result<(), SessionError>)
        requires
            old(self).wf(),
        ensures
            final(self).wf(),
            exists|now: u64|
                (final(self)@, unit_result(r)) == unsubscribe_spec(old(self)@, user_id@, channel_id@, now),
    {
        let now = now_millis();
        self.unsubscribe_channel_at(user_id, channel_id, now)
    }

    /// Makes a user a talker on a channel of their room, stamped with time `now`.
    pub fn start_talk_at(&mut self, user_id: &UserId, channel_id: &ChannelId, now: u64) -> (r: Result<(), SessionError>)
        requires
            old(self).wf(),
        ensures
            final(self).wf(),
            (final(self)@, unit_result(r)) == start_talk_spec(old(self)@, user_id@, channel_id@, now),
    {
        let (room_id, idx) = match self.room_slot_of(user_id.as_str()) {
            Some(p) => p,
            None => {
                return Err(SessionError::NotInRoom);
            },
        };
        let ghost m0 = old(self)@;
        let (key, mut room) = self.rooms.take_at(idx);
        let ci = match room.channels.find(channel_id.as_str()) {
            Some(ci) => ci,
            None => {
                self.rooms.put_at(idx, key, room);
                proof {
                    assert(self.rooms.map() =~= old(self).rooms.map());
                    assert(self@ == old(self)@);
                }
                return Err(SessionError::ChannelNotFound(channel_id.to_string()));
            },
        };
        let ghost room0 = room;
        let (ck, mut ch) = room.channels.take_at(ci);
        ch.talkers.insert(user_id.0.clone());
        room.channels.put_at(ci, ck, ch);
        proof {
            assert forall|x: Seq<char>| #[trigger] room.channels.map().contains_key(x) implies room.channels.map()[x].wf() by {
                if x != channel_id@ {
                    assert(room0.channels.map().contains_key(x));
                }
            }
        }
        let ghost room1 = room;
        room.talk_user_at(user_id.as_str(), channel_id, now);
        self.rooms.put_at(idx, key, room);
        proof {
            let want = start_talk_spec(m0, user_id@, channel_id@, now).0;
            assert(room1@.channels =~= want.rooms[room_id@].channels);
            assert(room@ =~= want.rooms[room_id@]);
            assert(self@.rooms =~= want.rooms);
            assert(self@.user_room =~= want.user_room);
            self.lemma_put_back_room(old(self), room_id@);
        }
        Ok(())
    }

    /// Makes a user a talker on a channel of their room.
    pub fn start_talk(&mut self, user_id: &UserId, channel_id: &ChannelId) -> (r: Result<(), SessionError>)
        requires
            old(self).wf(),
        ensures
            final(self).wf(),
            exists|now: u64|
                (final(self)@, unit_result(r)) == start_talk_spec(old(self)@, user_id@, channel_id@, now),
    {
        let now = now_millis();
        self.start_talk_at(user_id, channel_id, now)
    }

    /// Stops a user talking, stamped with time `now`; returns the channel
    /// they were talking on.
    pub fn stop_talk_at(&mut self, user_id: &UserId, now: u64) -> (r: Result<Option<ChannelId>, SessionError>)
        requires
            old(self).wf(),
        ensures
            final(self).wf(),
            (final(self)@, opt_channel_result(r)) == stop_talk_spec(old(self)@, user_id@, now),
    {
        let (room_id, idx) = match self.room_slot_of(user_id.as_str()) {
            Some(p) => p,
            None => {
                return Err(SessionError::NotInRoom);
            },
        };
        let ghost m0 = old(self)@;
        let (key, mut room) = self.rooms.take_at(idx);
        let ghost room0 = room;
        let ch = room.silence_user_at(user_id.as_str(), now);
        let ghost room1 = room;
        match &ch {
            Some(c) => {
                match room.channels.find(c.as_str()) {
                    Some(ci) => {
                        let (ck, mut cs) = room.channels.take_at(ci);
                        cs.talkers.remove(user_id.as_str());
                        room.channels.put_at(ci, ck, cs);
                        proof {
                            assert forall|x: Seq<char>| #[trigger] room.channels.map().contains_key(x) implies room.channels.map()[x].wf() by {
                                if x != c@ {
                                    assert(room1.channels.map().contains_key(x));
                                }
                            }
                        }
                    },
                    None => {},
                }
            },
            None => {},
        }
        self.rooms.put_at(idx, key, room);
        proof {
            let want = stop_talk_spec(m0, user_id@, now).0;
            assert(room@.channels =~= want.rooms[room_id@].channels);
            assert(room@ =~= want.rooms[room_id@]);
            assert(self@.rooms =~= want.rooms);
            assert(self@.user_room =~= want.user_room);
            self.lemma_put_back_room(old(self), room_id@);
        }
        Ok(ch)
    }

    /// Stops a user talking; returns the channel they were talking on.
    pub fn stop_talk(&mut self, user_id: &UserId) -> (r: Result<Option<ChannelId>, SessionError>)
        requires
            old(self).wf(),
        ensures
            final(self).wf(),
            exists|now: u64| (final(self)@, opt_channel_result(r)) == stop_talk_spec(old(self)@, user_id@, now),
    {
        let now = now_millis();
        self.stop_talk_at(user_id, now)
    }
}

impl RoomSession {
    /// Removes channel `c` from every user's subscriptions, and stops users
    /// talking on it.
    fn drop_channel_from_users(&mut self, c: &ChannelId)
        requires
            old(self).wf(),
        ensures
            final(self).wf(),
            final(self)@ == (RoomView {
                users: old(self)@.users.map_values(|uv: UserView| user_without_channel(uv, c@)),
                ..old(self)@
            }),
            final(self).channels == old(self).channels,
            final(self).users.map().dom() == old(self).users.map().dom(),
    {
        let ghost old_map = self.users.map();
        let ghost ks = self.users.key_seq();
        let n = self.users.len();
        let mut i: usize = 0;
        proof {
            self.users.lemma_keys();
        }
        while i < n
            invariant
                self.users.wf(),
                self.users.key_seq() == ks,
                ks.no_duplicates(),
                n == ks.len(),
                i <= n,
                self.users.map().dom() == old_map.dom(),
                forall|k: Seq<char>| #[trigger] old_map.contains_key(k) <==> ks.contains(k),
                forall|j: int|
                    0 <= j < i ==> (#[trigger] self.users.map()[ks[j]])@ == user_without_channel(
                        old_map[ks[j]]@,
                        c@,
                    ) && self.users.map()[ks[j]].wf() && self.users.map()[ks[j]].info.id@ == ks[j],
                forall|j: int| i <= j < n ==> #[trigger] self.users.map()[ks[j]] == old_map[ks[j]],
                forall|k: Seq<char>| #[trigger] old_map.contains_key(k) ==> old_map[k].wf() && old_map[k].info.id@ == k,
                self.channels == old(self).channels,
                self.id == old(self).id,
                self.name == old(self).name,
                self.max_users == old(self).max_users,
            decreases n - i,
        {
            let (key, mut us) = self.users.take_at(i);
            proof {
                assert(ks[i as int] == key@);
                assert(us == old_map[key@]);
            }
            us.subscribed_channels.remove(c.as_str());
            let talking_here = match &us.talk_channel {
                Some(t) => crate::text::text_eq(t.as_str(), c.as_str()),
                None => false,
            };
            if talking_here {
                us.talk_channel = None;
                us.state = UserState::Idle;
            }
            self.users.put_at(i, key, us);
            proof {
                assert(self.users.key_seq() =~= ks);
                assert forall|j: int| 0 <= j < n && j != i implies ks[j] != ks[i as int] by {}
            }
            i = i + 1;
        }
        proof {
            let newv = self@.users;
            let want = old(self)@.users.map_values(|uv: UserView| user_without_channel(uv, c@));
            assert forall|k: Seq<char>| #[trigger] newv.contains_key(k) <==> want.contains_key(k) by {}
            assert forall|k: Seq<char>| #[trigger] newv.contains_key(k) implies newv[k] == want[k] by {
                ks.index_of_first_ensures(k);
            }
            assert(newv =~= want);
            assert forall|k: Seq<char>| #[trigger] self.users.map().contains_key(k) implies self.users.map()[k].wf()
                && self.users.map()[k].info.id@ == k by {
                ks.index_of_first_ensures(k);
            }
        }
    }
}

impl SessionManager {
    /// Adds (or replaces) a channel in a room and returns its id.
    pub fn create_channel(&mut self, room_id: &RoomId, channel: ChannelInfo) -> (r: Result<ChannelId, SessionError>)
        requires
            old(self).wf(),
        ensures
            final(self).wf(),
            (final(self)@, channel_result(r)) == create_channel_spec(old(self)@, room_id@, channel@),
    {
        let channel_id = channel.id.clone();
        let idx = match self.rooms.find(room_id.as_str()) {
            Some(i) => i,
            None => {
                return Err(SessionError::RoomNotFound(room_id.to_string()));
            },
        };
        let ghost m0 = old(self)@;
        let ghost info = channel@;
        let (key, mut room) = self.rooms.take_at(idx);
        let ghost room0 = room;
        room.channels.insert(channel_id.0.clone(), ChannelSession::new(channel));
        proof {
            assert forall|x: Seq<char>| #[trigger] room.channels.map().contains_key(x) implies room.channels.map()[x].wf()
                && room.channels.map()[x].info.id@ == x by {
                if x != channel_id@ {
                    assert(room0.channels.map().contains_key(x));
                }
            }
        }
        self.rooms.put_at(idx, key, room);
        proof {
            let want = create_channel_spec(m0, room_id@, info).0;
            assert(room@.channels =~= want.rooms[room_id@].channels);
            assert(room@ =~= want.rooms[room_id@]);
            assert(self@.rooms =~= want.rooms);
            assert(self@.user_room =~= want.user_room);
            self.lemma_put_back_room(old(self), room_id@);
        }
        Ok(channel_id)
    }

    /// Deletes a channel from a room, dropping it from users' subscriptions
    /// and stopping users that talk on it.
    pub fn delete_channel(&mut self, room_id: &RoomId, channel_id: &ChannelId) -> (r: Result<(), SessionError>)
        requires
            old(self).wf(),
        ensures
            final(self).wf(),
            (final(self)@, unit_result(r)) == delete_channel_spec(old(self)@, room_id@, channel_id@),
    {
        let idx = match self.rooms.find(room_id.as_str()) {
            Some(i) => i,
            None => {
                return Err(SessionError::RoomNotFound(room_id.to_string()));
            },
        };
        let ghost m0 = old(self)@;
        let (key, mut room) = self.rooms.take_at(idx);
        let ghost room0 = room;
        match room.channels.remove(channel_id.as_str()) {
            Some(_c) => {},
            None => {
                proof {
                    assert(room.channels.map() =~= room0.channels.map());
                    assert(room@ =~= room0@);
                    assert(m0.rooms.contains_key(room_id@));
                    assert(room0@ == m0.rooms[room_id@]);
                    assert(room.id@ == room_id@);
                }
                self.rooms.put_at(idx, key, room);
                proof {
                    self.lemma_put_back_room(old(self), room_id@);
                    assert(self@.rooms =~= old(self)@.rooms);
                    assert(self@.user_room =~= old(self)@.user_room);
                }
                return Err(SessionError::ChannelNotFound(channel_id.to_string()));
            },
        }
        proof {
            assert forall|x: Seq<char>| #[trigger] room.channels.map().contains_key(x) implies room.channels.map()[x].wf()
                && room.channels.map()[x].info.id@ == x by {
                assert(room0.channels.map().contains_key(x));
            }
        }
        room.drop_channel_from_users(channel_id);
        self.rooms.put_at(idx, key, room);
        proof {
            let want = delete_channel_spec(m0, room_id@, channel_id@).0;
            assert(room@.channels =~= want.rooms[room_id@].channels);
            assert(room@ =~= want.rooms[room_id@]);
            assert(self@.rooms =~= want.rooms);
            assert(self@.user_room =~= want.user_room);
            self.lemma_put_back_room(old(self), room_id@);
        }
        Ok(())
    }
}

/// The identifiers listed, each once, are exactly those of `set`.
pub open spec fn lists_exactly(v: Seq<UserId>, set: Set<Seq<char>>) -> bool {
    &&& v.map_values(|x: UserId| x@).no_duplicates()
    &&& v.map_values(|x: UserId| x@).to_set() =~= set
}

/// Every user of the room, each once, by their stored record.
pub open spec fn lists_users(v: Seq<UserInfo>, users: Map<Seq<char>, UserView>) -> bool {
    &&& v.map_values(|x: UserInfo| x.id@).no_duplicates()
    &&& v.map_values(|x: UserInfo| x.id@).to_set() =~= users.dom()
    &&& forall|i: int| 0 <= i < v.len() ==> #[trigger] v[i]@ == users[v[i].id@].info
}

/// Every channel of the room, each once, by its stored record.
pub open spec fn lists_channels(v: Seq<ChannelInfo>, channels: Map<Seq<char>, ChannelView>) -> bool {
    &&& v.map_values(|x: ChannelInfo| x.id@).no_duplicates()
    &&& v.map_values(|x: ChannelInfo| x.id@).to_set() =~= channels.dom()
    &&& forall|i: int| 0 <= i < v.len() ==> #[trigger] v[i]@ == channels[v[i].id@].info
}

/// The identifiers held by an identifier set, each once.
fn ids_of(set: &IdSet) -> (r: Vec<UserId>)
    requires
        set.wf(),
    ensures
        lists_exactly(r@, set.set()),
{
    let n = set.len();
    let mut out: Vec<UserId> = Vec::new();
    let mut i: usize = 0;
    while i < n
        invariant
            set.wf(),
            n == set.item_seq().len(),
            i <= n,
            out@.len() == i,
            forall|j: int| 0 <= j < i ==> #[trigger] out@[j]@ == set.item_seq()[j],
        decreases n - i,
    {
        out.push(UserId(set.item_at(i).clone()));
        i = i + 1;
    }
    proof {
        set.lemma_items();
        assert(out@.map_values(|x: UserId| x@) =~= set.item_seq());
        assert forall|k: Seq<char>| #[trigger] set.set().contains(k) <==> set.item_seq().to_set().contains(k) by {}
    }
    out
}

impl SessionManager {
    /// The records of all users in a room.
    pub fn get_room_users(&self, room_id: &RoomId) -> (r: Result<Vec<UserInfo>, SessionError>)
        requires
            self.wf(),
        ensures
            r is Err <==> !self@.rooms.contains_key(room_id@),
            r matches Err(e) ==> e@ == SessionFault::RoomNotFound(room_id@),
            r matches Ok(v) ==> lists_users(v@, self@.rooms[room_id@].users),
    {
        let room = match self.rooms.get(room_id.as_str()) {
            Some(room) => room,
            None => {
                return Err(SessionError::RoomNotFound(room_id.to_string()));
            },
        };
        proof {
            assert(self.rooms.map().contains_key(room_id@));
        }
        let n = room.users.len();
        let mut out: Vec<UserInfo> = Vec::new();
        let mut i: usize = 0;
        while i < n
            invariant
                room.wf(),
                n == room.users.key_seq().len(),
                i <= n,
                out@.len() == i,
                forall|j: int| 0 <= j < i ==> #[trigger] out@[j].id@ == room.users.key_seq()[j]
                    && out@[j]@ == room@.users[room.users.key_seq()[j]].info,
            decreases n - i,
        {
            let us = room.users.value_at(i);
            out.push(us.info.clone());
            i = i + 1;
        }
        proof {
            room.users.lemma_keys();
            assert(out@.map_values(|x: UserInfo| x.id@) =~= room.users.key_seq());
            assert forall|k: Seq<char>| #[trigger] room@.users.dom().contains(k) <==> room.users.key_seq().to_set().contains(k) by {}
            assert(room@ == self@.rooms[room_id@]);
        }
        Ok(out)
    }

    /// The records of all channels in a room.
    pub fn get_room_channels(&self, room_id: &RoomId) -> (r: Result<Vec<ChannelInfo>, SessionError>)
        requires
            self.wf(),
        ensures
            r is Err <==> !self@.rooms.contains_key(room_id@),
            r matches Err(e) ==> e@ == SessionFault::RoomNotFound(room_id@),
            r matches Ok(v) ==> lists_channels(v@, self@.rooms[room_id@].channels),
    {
        let room = match self.rooms.get(room_id.as_str()) {
            Some(room) => room,
            None => {
                return Err(SessionError::RoomNotFound(room_id.to_string()));
            },
        };
        proof {
            assert(self.rooms.map().contains_key(room_id@));
        }
        let n = room.channels.len();
        let mut out: Vec<ChannelInfo> = Vec::new();
        let mut i: usize = 0;
        while i < n
            invariant
                room.wf(),
                n == room.channels.key_seq().len(),
                i <= n,
                out@.len() == i,
                forall|j: int| 0 <= j < i ==> #[trigger] out@[j].id@ == room.channels.key_seq()[j]
                    && out@[j]@ == room@.channels[room.channels.key_seq()[j]].info,
            decreases n - i,
        {
            let cs = room.channels.value_at(i);
            out.push(cs.info.clone());
            i = i + 1;
        }
        proof {
            room.channels.lemma_keys();
            assert(out@.map_values(|x: ChannelInfo| x.id@) =~= room.channels.key_seq());
            assert forall|k: Seq<char>| #[trigger] room@.channels.dom().contains(k) <==> room.channels.key_seq().to_set().contains(k) by {}
            assert(room@ == self@.rooms[room_id@]);
        }
        Ok(out)
    }

    /// The channel session of a room, or the error the lookups give.
    fn channel_of(&self, room_id: &RoomId, channel_id: &ChannelId) -> (r: Result<&ChannelSession, SessionError>)
        requires
            self.wf(),
        ensures
            r matches Err(e) ==> (e@ == if !self@.rooms.contains_key(room_id@) {
                SessionFault::RoomNotFound(room_id@)
            } else {
                SessionFault::ChannelNotFound(channel_id@)
            }) && (!self@.rooms.contains_key(room_id@) || !self@.rooms[room_id@].channels.contains_key(
                channel_id@,
            )),
            r matches Ok(c) ==> self@.rooms.contains_key(room_id@)
                && self@.rooms[room_id@].channels.contains_key(channel_id@) && c@
                == self@.rooms[room_id@].channels[channel_id@] && c.wf(),
    {
        let room = match self.rooms.get(room_id.as_str()) {
            Some(room) => room,
            None => {
                return Err(SessionError::RoomNotFound(room_id.to_string()));
            },
        };
        proof {
            assert(self.rooms.map().contains_key(room_id@));
        }
        match room.channels.get(channel_id.as_str()) {
            Some(c) => {
                proof {
                    assert(room.channels.map().contains_key(channel_id@));
                }
                Ok(c)
            },
            None => Err(SessionError::ChannelNotFound(channel_id.to_string())),
        }
    }

    /// The users subscribed to a channel.
    pub fn get_channel_subscribers(&self, room_id: &RoomId, channel_id: &ChannelId) -> (r: Result<Vec<UserId>, SessionError>)
        requires
            self.wf(),
        ensures
            r is Err <==> !self@.rooms.contains_key(room_id@) || !self@.rooms[room_id@].channels.contains_key(
                channel_id@,
            ),
            r matches Err(e) ==> e@ == if !self@.rooms.contains_key(room_id@) {
                SessionFault::RoomNotFound(room_id@)
            } else {
                SessionFault::ChannelNotFound(channel_id@)
            },
            r matches Ok(v) ==> lists_exactly(v@, self@.rooms[room_id@].channels[channel_id@].subscribers),
    {
        let c = self.channel_of(room_id, channel_id)?;
        Ok(ids_of(&c.subscribers))
    }

    /// The users talking on a channel.
    pub fn get_channel_talkers(&self, room_id: &RoomId, channel_id: &ChannelId) -> (r: Result<Vec<UserId>, SessionError>)
        requires
            self.wf(),
        ensures
            r is Err <==> !self@.rooms.contains_key(room_id@) || !self@.rooms[room_id@].channels.contains_key(
                channel_id@,
            ),
            r matches Err(e) ==> e@ == if !self@.rooms.contains_key(room_id@) {
                SessionFault::RoomNotFound(room_id@)
            } else {
                SessionFault::ChannelNotFound(channel_id@)
            },
            r matches Ok(v) ==> lists_exactly(v@, self@.rooms[room_id@].channels[channel_id@].talkers),
    {
        let c = self.channel_of(room_id, channel_id)?;
        Ok(ids_of(&c.talkers))
    }
}

/// Users of a room idle for more than `max_idle` milliseconds at time `now`.
pub open spec fn idle_set(rv: RoomView, now: u64, max_idle: u64) -> Set<Seq<char>> {
    Set::new(|u: Seq<char>| rv.users.contains_key(u) && idle_ms(rv.users[u].last_activity, now) > max_idle)
}

/// A channel with the users of `s` taken out of its subscribers and talkers.
pub open spec fn strip_channel_all(c: ChannelView, s: Set<Seq<char>>) -> ChannelView {
    ChannelView { subscribers: c.subscribers.difference(s), talkers: c.talkers.difference(s), ..c }
}

/// A room with the users of `s` removed, including from every channel.
pub open spec fn room_without_users(rv: RoomView, s: Set<Seq<char>>) -> RoomView {
    RoomView {
        users: rv.users.remove_keys(s),
        channels: rv.channels.map_values(|c: ChannelView| strip_channel_all(c, s)),
        ..rv
    }
}

/// Users idle in some room.
pub open spec fn all_idle(m: SessionView, now: u64, max_idle: u64) -> Set<Seq<char>> {
    Set::new(|u: Seq<char>| exists|r: Seq<char>| #[trigger] m.rooms.contains_key(r) && idle_set(m.rooms[r], now, max_idle).contains(u))
}

/// Model of `cleanup_idle_users` at time `now`.
pub open spec fn cleanup_spec(m: SessionView, now: u64, max_idle: u64) -> SessionView {
    SessionView {
        rooms: m.rooms.map_values(|rv: RoomView| room_without_users(rv, idle_set(rv, now, max_idle))),
        user_room: m.user_room.remove_keys(all_idle(m, now, max_idle)),
    }
}

/// Every (room, user) pair with the user idle in that room, each once.
pub open spec fn lists_idle_pairs(v: Seq<(RoomId, UserId)>, m: SessionView, now: u64, max_idle: u64) -> bool {
    &&& v.map_values(|p: (RoomId, UserId)| (p.0@, p.1@)).no_duplicates()
    &&& v.map_values(|p: (RoomId, UserId)| (p.0@, p.1@)).to_set() =~= Set::new(
        |p: (Seq<char>, Seq<char>)| m.rooms.contains_key(p.0) && idle_set(m.rooms[p.0], now, max_idle).contains(p.1),
    )
}

impl RoomSession {
    /// Ids of the users idle for more than `max_idle` milliseconds at `now`.
    fn idle_user_ids(&self, now: u64, max_idle: u64) -> (r: IdSet)
        requires
            self.wf(),
        ensures
            r.wf(),
            r.set() =~= idle_set(self@, now, max_idle),
    {
        let n = self.users.len();
        let mut out = IdSet::new();
        let mut i: usize = 0;
        let ghost ks = self.users.key_seq();
        proof {
            self.users.lemma_keys();
        }
        while i < n
            invariant
                self.wf(),
                ks == self.users.key_seq(),
                n == ks.len(),
                i <= n,
                forall|k: Seq<char>| #[trigger] self.users.map().contains_key(k) <==> ks.contains(k),
                out.wf(),
                out.set() =~= Set::new(
                    |u: Seq<char>|
                        exists|j: int|
                            0 <= j < i && #[trigger] ks[j] == u && idle_ms(self@.users[u].last_activity, now)
                                > max_idle,
                ),
            decreases n - i,
        {
            let us = self.users.value_at(i);
            let k = self.users.key_at(i);
            if us.idle_duration_at(now) > max_idle {
                out.insert(k.clone());
            }
            i = i + 1;
        }
        proof {
            assert forall|u: Seq<char>| #[trigger] out.set().contains(u) <==> idle_set(self@, now, max_idle).contains(u) by {
                if idle_set(self@, now, max_idle).contains(u) {
                    assert(ks.contains(u));
                    let j = choose|j: int| 0 <= j < ks.len() && ks[j] == u;
                    assert(ks[j] == u);
                }
            }
        }
        out
    }
}

/// The identifiers among the first `j` items of `s`.
pub open spec fn item_prefix(s: Seq<Seq<char>>, j: int) -> Set<Seq<char>> {
    Set::new(|u: Seq<char>| exists|k: int| 0 <= k < j && #[trigger] s[k] == u)
}

impl RoomSession {
    /// Removes the users of `gone`, including from every channel.
    fn remove_users(&mut self, gone: &IdSet)
        requires
            old(self).wf(),
            gone.wf(),
        ensures
            final(self).wf(),
            final(self)@ == room_without_users(old(self)@, gone.set()),
    {
        let n = gone.len();
        let ghost items = gone.item_seq();
        let mut j: usize = 0;
        proof {
            gone.lemma_items();
            assert(old(self)@.users.remove_keys(item_prefix(items, 0)) =~= old(self)@.users);
            assert forall|c: Seq<char>| #[trigger] old(self)@.channels.contains_key(c) implies old(self)@.channels[c]
                == strip_channel_all(old(self)@.channels[c], item_prefix(items, 0)) by {
                let cv = old(self)@.channels[c];
                assert(cv.subscribers.difference(item_prefix(items, 0)) =~= cv.subscribers);
                assert(cv.talkers.difference(item_prefix(items, 0)) =~= cv.talkers);
            }
            let w0 = room_without_users(old(self)@, item_prefix(items, 0));
            assert(w0.users =~= old(self)@.users);
            assert(w0.channels =~= old(self)@.channels);
            assert(w0 == old(self)@);
        }
        while j < n
            invariant
                gone.wf(),
                items == gone.item_seq(),
                n == items.len(),
                j <= n,
                self.wf(),
                self@ == room_without_users(old(self)@, item_prefix(items, j as int)),
            decreases n - j,
        {
            let u = gone.item_at(j);
            let ghost before = self@;
            let ghost before_users = self.users.map();
            let _ = self.users.remove(u.as_str());
            proof {
                assert(self@.users =~= before.users.remove(u@));
            }
            proof {
                assert forall|k: Seq<char>| #[trigger] self.users.map().contains_key(k) implies self.users.map()[k].wf()
                    && self.users.map()[k].info.id@ == k by {
                    assert(old(self).users.map().contains_key(k) || before.users.contains_key(k));
                }
            }
            self.strip_user_from_channels(u.as_str());
            proof {
                let p0 = item_prefix(items, j as int);
                let p1 = item_prefix(items, j + 1);
                assert(p1 =~= p0.insert(u@));
                let want = room_without_users(old(self)@, p1);
                assert(self@.users =~= want.users);
                assert forall|c: Seq<char>| #[trigger] self@.channels.contains_key(c) implies self@.channels[c]
                    == want.channels[c] by {
                    let cv = old(self)@.channels[c];
                    assert(cv.subscribers.difference(p0).remove(u@) =~= cv.subscribers.difference(p1));
                    assert(cv.talkers.difference(p0).remove(u@) =~= cv.talkers.difference(p1));
                }
                assert(self@.channels =~= want.channels);
                assert(self@ == want);
            }
            j = j + 1;
        }
        proof {
            assert(item_prefix(items, n as int) =~= gone.set());
        }
    }
}

/// Users idle in one of the first `i` rooms of `ks`.
pub open spec fn idle_in_prefix(m: SessionView, ks: Seq<Seq<char>>, i: int, now: u64, max_idle: u64) -> Set<Seq<char>> {
    Set::new(|u: Seq<char>| exists|j: int| 0 <= j < i && #[trigger] idle_set(m.rooms[ks[j]], now, max_idle).contains(u))
}

/// (room, user) pairs with the user idle in one of the first `i` rooms of `ks`.
pub open spec fn idle_pairs_in_prefix(m: SessionView, ks: Seq<Seq<char>>, i: int, now: u64, max_idle: u64) -> Set<(Seq<char>, Seq<char>)> {
    Set::new(|p: (Seq<char>, Seq<char>)| exists|j: int| 0 <= j < i && #[trigger] ks[j] == p.0 && idle_set(m.rooms[ks[j]], now, max_idle).contains(p.1))
}

/// Forgets the room of each user in `gone`, recording each as removed from
/// room `room_key`.
fn forget_users(map: &mut IdMap<RoomId>, room_key: &String, gone: &IdSet, removed: &mut Vec<(RoomId, UserId)>)
    requires
        old(map).wf(),
        gone.wf(),
    ensures
        final(map).wf(),
        final(map).map() =~= old(map).map().remove_keys(gone.set()),
        final(removed)@.len() == old(removed)@.len() + gone.item_seq().len(),
        forall|a: int| 0 <= a < old(removed)@.len() ==> #[trigger] final(removed)@[a] == old(removed)@[a],
        forall|a: int|
            #![trigger final(removed)@[old(removed)@.len() + a]]
            0 <= a < gone.item_seq().len() ==> final(removed)@[old(removed)@.len() + a].0@ == room_key@
                && final(removed)@[old(removed)@.len() + a].1@ == gone.item_seq()[a],
{
    let cnt = gone.len();
    let ghost items = gone.item_seq();
    let ghost before_map = map.map();
    let ghost before_pairs = removed@;
    proof {
        gone.lemma_items();
        assert(before_map.remove_keys(item_prefix(items, 0)) =~= before_map);
    }
    let mut j: usize = 0;
    while j < cnt
        invariant
            gone.wf(),
            items == gone.item_seq(),
            cnt == items.len(),
            j <= cnt,
            map.wf(),
            map.map() =~= before_map.remove_keys(item_prefix(items, j as int)),
            removed@.len() == before_pairs.len() + j,
            forall|a: int| 0 <= a < before_pairs.len() ==> #[trigger] removed@[a] == before_pairs[a],
            forall|a: int|
                #![trigger removed@[before_pairs.len() + a]]
                0 <= a < j ==> removed@[before_pairs.len() + a].0@ == room_key@
                    && removed@[before_pairs.len() + a].1@ == items[a],
        decreases cnt - j,
    {
        let u = gone.item_at(j);
        let _ = map.remove(u.as_str());
        removed.push((RoomId(room_key.clone()), UserId(u.clone())));
        proof {
            assert(item_prefix(items, j + 1) =~= item_prefix(items, j as int).insert(u@));
        }
        j = j + 1;
    }
    proof {
        assert(item_prefix(items, cnt as int) =~= gone.set());
    }
}

impl SessionManager {
    /// Removes every user idle for more than `max_idle` milliseconds at time
    /// `now` from their room (and its channels) and from the user map;
    /// returns the removed (room, user) pairs.
    pub fn cleanup_idle_users_at(&mut self, now: u64, max_idle: u64) -> (removed: Vec<(RoomId, UserId)>)
        requires
            old(self).wf(),
        ensures
            final(self).wf(),
            final(self)@ == cleanup_spec(old(self)@, now, max_idle),
            lists_idle_pairs(removed@, old(self)@, now, max_idle),
    {
        let ghost m0 = old(self)@;
        let ghost old_rooms = self.rooms.map();
        let ghost old_users = self.user_room_map.map();
        let ghost ks = self.rooms.key_seq();
        let n = self.rooms.len();
        let mut removed: Vec<(RoomId, UserId)> = Vec::new();
        let mut i: usize = 0;
        proof {
            self.rooms.lemma_keys();
            assert(old_users.remove_keys(idle_in_prefix(m0, ks, 0, now, max_idle)) =~= old_users);
            assert(removed@.map_values(|p: (RoomId, UserId)| (p.0@, p.1@)).to_set() =~= idle_pairs_in_prefix(m0, ks, 0, now, max_idle));
        }
        while i < n
            invariant
                self.rooms.wf(),
                self.user_room_map.wf(),
                self.rooms.key_seq() == ks,
                ks.no_duplicates(),
                n == ks.len(),
                i <= n,
                self.rooms.map().dom() == old_rooms.dom(),
                forall|k: Seq<char>| #[trigger] old_rooms.contains_key(k) <==> ks.contains(k),
                forall|k: Seq<char>| #[trigger] old_rooms.contains_key(k) ==> old_rooms[k].wf() && old_rooms[k]@ == m0.rooms[k],
                forall|j: int|
                    0 <= j < i ==> (#[trigger] self.rooms.map()[ks[j]])@ == room_without_users(
                        m0.rooms[ks[j]],
                        idle_set(m0.rooms[ks[j]], now, max_idle),
                    ) && self.rooms.map()[ks[j]].wf(),
                forall|j: int| i <= j < n ==> #[trigger] self.rooms.map()[ks[j]] == old_rooms[ks[j]],
                self.user_room_map.map() =~= old_users.remove_keys(idle_in_prefix(m0, ks, i as int, now, max_idle)),
                removed@.map_values(|p: (RoomId, UserId)| (p.0@, p.1@)).no_duplicates(),
                removed@.map_values(|p: (RoomId, UserId)| (p.0@, p.1@)).to_set() =~= idle_pairs_in_prefix(m0, ks, i as int, now, max_idle),
                forall|a: int| 0 <= a < removed@.len() ==> exists|j: int| 0 <= j < i && #[trigger] removed@[a].0@ == ks[j],
            decreases n - i,
        {
            let (key, mut room) = self.rooms.take_at(i);
            let ghost rk = key@;
            proof {
                assert(ks[i as int] == rk);
                assert(room == old_rooms[rk]);
            }
            let idle = room.idle_user_ids(now, max_idle);
            room.remove_users(&idle);
            let ghost before_pairs = removed@;
            let ghost before_map = self.user_room_map.map();
            let ghost items = idle.item_seq();
            proof {
                idle.lemma_items();
            }
            forget_users(&mut self.user_room_map, &key, &idle, &mut removed);
            let cnt = idle.len();
            self.rooms.put_at(i, key, room);
            proof {
                assert(self.rooms.key_seq() =~= ks);
                assert forall|a: int| 0 <= a < n && a != i implies ks[a] != ks[i as int] by {}
                let s_i = idle_set(m0.rooms[rk], now, max_idle);
                assert(idle_in_prefix(m0, ks, i + 1, now, max_idle) =~= idle_in_prefix(m0, ks, i as int, now, max_idle).union(s_i));
                assert(self.user_room_map.map() =~= old_users.remove_keys(idle_in_prefix(m0, ks, i + 1, now, max_idle)));
                let pv = removed@.map_values(|p: (RoomId, UserId)| (p.0@, p.1@));
                let pv0 = before_pairs.map_values(|p: (RoomId, UserId)| (p.0@, p.1@));
                assert forall|a: int, b: int| 0 <= a < pv.len() && 0 <= b < pv.len() && a != b implies pv[a] != pv[b] by {
                    let bp = before_pairs.len() as int;
                    if a < bp && b < bp {
                        assert(pv0[a] == pv[a] && pv0[b] == pv[b]);
                    } else if a >= bp && b >= bp {
                        let xa = a - bp;
                        let xb = b - bp;
                        assert(removed@[before_pairs.len() + xa].1@ == items[xa]);
                        assert(removed@[before_pairs.len() + xb].1@ == items[xb]);
                        assert(pv[a] == (rk, items[a - bp]));
                        assert(pv[b] == (rk, items[b - bp]));
                        assert(items[a - bp] != items[b - bp]);
                    } else if a < bp {
                        assert(removed@[a] == before_pairs[a]);
                        let jj = choose|jj: int| 0 <= jj < i && #[trigger] before_pairs[a].0@ == ks[jj];
                        assert(ks[jj] != ks[i as int]);
                        let xb = b - bp;
                        assert(removed@[before_pairs.len() + xb].0@ == rk);
                        assert(pv[b].0 == rk);
                    } else {
                        assert(removed@[b] == before_pairs[b]);
                        let jj = choose|jj: int| 0 <= jj < i && #[trigger] before_pairs[b].0@ == ks[jj];
                        assert(ks[jj] != ks[i as int]);
                        let xa = a - bp;
                        assert(removed@[before_pairs.len() + xa].0@ == rk);
                        assert(pv[a].0 == rk);
                    }
                }
                assert forall|p: (Seq<char>, Seq<char>)| #[trigger] pv.to_set().contains(p)
                    <==> idle_pairs_in_prefix(m0, ks, i + 1, now, max_idle).contains(p) by {
                    if pv.to_set().contains(p) {
                        let a = choose|a: int| 0 <= a < pv.len() && pv[a] == p;
                        if a < before_pairs.len() {
                            assert(pv0[a] == p);
                            assert(pv0.to_set().contains(p));
                        } else {
                            let bp = before_pairs.len() as int;
                            let xa = a - bp;
                            assert(removed@[before_pairs.len() + xa].1@ == items[xa]);
                            assert(items[a - bp] == p.1);
                            assert(items.contains(p.1));
                            assert(idle.set().contains(p.1));
                            assert(ks[i as int] == p.0);
                        }
                    }
                    if idle_pairs_in_prefix(m0, ks, i + 1, now, max_idle).contains(p) {
                        let jj = choose|jj: int| 0 <= jj < i + 1 && #[trigger] ks[jj] == p.0 && idle_set(m0.rooms[ks[jj]], now, max_idle).contains(p.1);
                        if jj < i {
                            assert(idle_pairs_in_prefix(m0, ks, i as int, now, max_idle).contains(p));
                            assert(pv0.to_set().contains(p));
                            let a = choose|a: int| 0 <= a < pv0.len() && pv0[a] == p;
                            assert(pv[a] == p);
                        } else {
                            assert(idle.set().contains(p.1));
                            assert(items.contains(p.1));
                            let b = choose|b: int| 0 <= b < items.len() && items[b] == p.1;
                            assert(pv[before_pairs.len() + b] == p);
                        }
                    }
                }
                assert forall|a: int| 0 <= a < removed@.len() implies exists|jj: int| 0 <= jj < i + 1 && #[trigger] removed@[a].0@ == ks[jj] by {
                    if a < before_pairs.len() {
                        assert(removed@[a] == before_pairs[a]);
                        let jj = choose|jj: int| 0 <= jj < i && #[trigger] before_pairs[a].0@ == ks[jj];
                        assert(removed@[a].0@ == ks[jj]);
                    } else {
                        let xa = a - before_pairs.len();
                        assert(removed@[before_pairs.len() + xa].0@ == rk);
                        assert(removed@[a].0@ == ks[i as int]);
                    }
                }
            }
            i = i + 1;
        }
        proof {
            let want = cleanup_spec(m0, now, max_idle);
            assert(idle_in_prefix(m0, ks, n as int, now, max_idle) =~= all_idle(m0, now, max_idle)) by {
                assert forall|u: Seq<char>| #[trigger] all_idle(m0, now, max_idle).contains(u) implies idle_in_prefix(m0, ks, n as int, now, max_idle).contains(u) by {
                    let r = choose|r: Seq<char>| #[trigger] m0.rooms.contains_key(r) && idle_set(m0.rooms[r], now, max_idle).contains(u);
                    assert(old_rooms.contains_key(r));
                    let jj = choose|jj: int| 0 <= jj < ks.len() && ks[jj] == r;
                    assert(idle_set(m0.rooms[ks[jj]], now, max_idle).contains(u));
                }
                assert forall|u: Seq<char>| #[trigger] idle_in_prefix(m0, ks, n as int, now, max_idle).contains(u) implies all_idle(m0, now, max_idle).contains(u) by {
                    let jj = choose|jj: int| 0 <= jj < n && #[trigger] idle_set(m0.rooms[ks[jj]], now, max_idle).contains(u);
                    assert(m0.rooms.contains_key(ks[jj]));
                }
            }
            assert(self@.user_room =~= want.user_room);
            assert forall|k: Seq<char>| #[trigger] self@.rooms.contains_key(k) implies self@.rooms[k] == want.rooms[k] by {
                ks.index_of_first_ensures(k);
            }
            assert(self@.rooms =~= want.rooms);
            let pairs = Set::new(|p: (Seq<char>, Seq<char>)| m0.rooms.contains_key(p.0) && idle_set(m0.rooms[p.0], now, max_idle).contains(p.1));
            assert forall|p: (Seq<char>, Seq<char>)| #[trigger] pairs.contains(p) <==> idle_pairs_in_prefix(m0, ks, n as int, now, max_idle).contains(p) by {
                if pairs.contains(p) {
                    assert(old_rooms.contains_key(p.0));
                    let jj = choose|jj: int| 0 <= jj < ks.len() && ks[jj] == p.0;
                    assert(ks[jj] == p.0);
                }
            }
            assert forall|k: Seq<char>| #[trigger] self.rooms.map().contains_key(k) implies self.rooms.map()[k].wf() by {
                ks.index_of_first_ensures(k);
            }
            assert forall|v: Seq<char>| #[trigger] self@.user_room.contains_key(v) implies self@.rooms.contains_key(self@.user_room[v])
                && self@.rooms[self@.user_room[v]].users.contains_key(v) by {
                assert(m0.user_room.contains_key(v));
                let r = m0.user_room[v];
                assert(m0.rooms.contains_key(r));
                assert(!all_idle(m0, now, max_idle).contains(v));
                assert(!idle_set(m0.rooms[r], now, max_idle).contains(v));
            }
            assert forall|x: Seq<char>| #[trigger] self@.rooms.contains_key(x) implies self@.rooms[x].id == x by {
                assert(m0.rooms.contains_key(x));
            }
            self.lemma_keyed();
        }
        removed
    }

    /// Removes every user idle for more than `max_idle` milliseconds from
    /// their room (and its channels) and from the user map; returns the
    /// removed (room, user) pairs.
    pub fn cleanup_idle_users(&mut self, max_idle: u64) -> (removed: Vec<(RoomId, UserId)>)
        requires
            old(self).wf(),
        ensures
            final(self).wf(),
            exists|now: u64|
                final(self)@ == cleanup_spec(old(self)@, now, max_idle) && lists_idle_pairs(
                    removed@,
                    old(self)@,
                    now,
                    max_idle,
                ),
    {
        let now = now_millis();
        self.cleanup_idle_users_at(now, max_idle)
    }
}
} // verus!
