//! The server's room: its session state, channels and encryption key.
//!
//! Signaling, audio and peer connections are driven by the caller around
//! these operations.

use vstd::prelude::*;

use crate::client::{id_from_halves, id_text, law_id_layout, lemma_id_text_low_bits};
use crate::clock::now_nanos;
use crate::config::ServerConfig;
use crate::crypto::{Cipher, KEY_SIZE};
use crate::errors::CoreError;
use crate::ids::{ChannelId, ChannelInfo, ChannelInfoView, RoomId, UserId, UserInfo};
use crate::session::{
    channel_result, create_channel_spec, create_room_spec, delete_channel_spec, delete_room_spec,
    fresh_channel, leave_room_spec, lists_channels, lists_exactly, lists_users, unit_result,
    ChannelView, RoomSession, RoomView, SessionFault, SessionManager, SessionView, all_idle, cleanup_spec,
    idle_set, lists_idle_pairs,
};
use crate::signaling::opt_text;
use crate::text::{dec_text, push_decimal};
use crate::transport::texts;

verus! {

/// Channel statistics.
#[derive(Debug)]
pub struct ChannelStats {
    pub channel_id: ChannelId,
    pub subscriber_count: usize,
    pub talker_count: usize,
    pub active_talkers: Vec<UserId>,
}

/// The id of the `i`-th default channel: `channel-` and `i` in decimal.
pub open spec fn channel_label(i: nat) -> Seq<char> {
    "channel-"@ + dec_text(i)
}

/// The record of the `i`-th default channel named `name`.
pub open spec fn default_channel_info(i: nat, name: Seq<char>) -> ChannelInfoView {
    ChannelInfoView { id: channel_label(i), name, description: None, members: Seq::empty() }
}

/// The channels made from the first `n` default channel names.
pub open spec fn default_channels_map(names: Seq<Seq<char>>, n: nat) -> Map<Seq<char>, ChannelView>
    decreases n,
{
    if n == 0 {
        Map::empty()
    } else {
        let i = (n - 1) as nat;
        default_channels_map(names, i).insert(channel_label(i), fresh_channel(default_channel_info(i, names[i as int])))
    }
}

/// The record of a new channel with the given id and name.
pub open spec fn named_channel(id: Seq<char>, name: Seq<char>) -> ChannelInfoView {
    ChannelInfoView { id, name, description: None, members: Seq::empty() }
}

/// The room a configuration opens: named after the server, with its user
/// limit, no users, and the default channels if they are created
/// automatically.
pub open spec fn opened_room(room_id: Seq<char>, config: ServerConfig) -> RoomView {
    RoomView {
        id: room_id,
        name: config.name@,
        max_users: config.max_users as nat,
        users: Map::empty(),
        channels: if config.auto_create_channels {
            default_channels_map(texts(config.default_channels@), config.default_channels@.len())
        } else {
            Map::empty()
        },
    }
}

/// Model of opening the room: the configured room is created, replacing an
/// earlier room under the same id.
pub open spec fn open_room_spec(s: SessionView, room_id: Seq<char>, config: ServerConfig) -> SessionView {
    create_room_spec(s, opened_room(room_id, config))
}

/// The two 64-bit halves of a nanosecond timestamp as the server scrambles
/// them: the high half with `0xfedcba9876543210`, the low half with
/// `0x123456789abcdef0`.
pub open spec fn server_halves(timestamp: u128) -> (u64, u64) {
    (((timestamp >> 64u128) as u64) ^ 0xfedcba9876543210u64, (timestamp as u64) ^ 0x123456789abcdef0u64)
}

/// The server's id text for a timestamp: `id_text` of its scrambled halves.
pub open spec fn server_uuid_text(timestamp: u128) -> Seq<char> {
    let (high, low) = server_halves(timestamp);
    id_text(high, low)
}

/// The server's id for a nanosecond timestamp.
pub fn uuid_from_nanos(timestamp: u128) -> (id: String)
    ensures
        id@ == server_uuid_text(timestamp),
{
    let high: u64 = ((timestamp >> 64u128) as u64) ^ 0xfedcba9876543210u64;
    let low: u64 = (timestamp as u64) ^ 0x123456789abcdef0u64;
    id_from_halves(high, low)
}

/// A room or channel id from the current time in nanoseconds.
fn uuid_v4() -> (id: String)
    ensures
        exists|t: u128| id@ == server_uuid_text(t),
{
    let t = now_nanos();
    uuid_from_nanos(t)
}

/// Server ids have the common id layout (see `law_id_layout`), and
/// timestamps below 2^62 nanoseconds give distinct ids.
pub proof fn law_server_uuid_distinct(t1: u128, t2: u128)
    requires
        t1 < 0x4000_0000_0000_0000,
        t2 < 0x4000_0000_0000_0000,
        t1 != t2,
    ensures
        server_uuid_text(t1) != server_uuid_text(t2),
        server_uuid_text(t1).len() == 36,
{
    let (h1, l1) = server_halves(t1);
    let (h2, l2) = server_halves(t2);
    law_id_layout(h1, l1);
    if server_uuid_text(t1) == server_uuid_text(t2) {
        lemma_id_text_low_bits(h1, l1, h2, l2);
        assert(t1 == t2) by (bit_vector)
            requires
                t1 < 0x4000_0000_0000_0000,
                t2 < 0x4000_0000_0000_0000,
                l1 == (t1 as u64) ^ 0x123456789abcdef0u64,
                l2 == (t2 as u64) ^ 0x123456789abcdef0u64,
                (((l1 >> 48u64) as u16) & 0x3fffu16) | 0x8000u16 == (((l2 >> 48u64) as u16) & 0x3fffu16)
                    | 0x8000u16,
                l1 & 0xffff_ffff_ffffu64 == l2 & 0xffff_ffff_ffffu64,
        ;
    }
}

/// An idle limit of `secs` seconds in milliseconds, saturating at the
/// largest `u64`.
pub open spec fn idle_limit_ms(secs: u64) -> u64 {
    if secs > u64::MAX / 1000 {
        u64::MAX
    } else {
        (secs * 1000) as u64
    }
}

/// The model of a server: its room id, session state and key.
pub struct ServerView {
    pub room_id: Seq<char>,
    pub session: SessionView,
    pub key: Seq<u8>,
    pub running: bool,
}

/// Intercom server state for hosting one room.
pub struct IntercomServer {
    config: ServerConfig,
    room_id: RoomId,
    session_manager: SessionManager,
    cipher: Cipher,
    running: bool,
}

impl View for IntercomServer {
    type V = ServerView;

    closed spec fn view(&self) -> ServerView {
        ServerView {
            room_id: self.room_id@,
            session: self.session_manager@,
            key: self.cipher@.key,
            running: self.running,
        }
    }
}

/// The id text of a default channel.
fn channel_label_text(i: usize) -> (r: ChannelId)
    ensures
        r@ == channel_label(i as nat),
{
    let mut s = String::from_str("channel-");
    push_decimal(&mut s, i as u64);
    ChannelId(s)
}

impl IntercomServer {
    /// Well-formedness of the session state; no user is assigned to a room,
    /// since the server's session state never has users join.
    pub closed spec fn wf(&self) -> bool {
        &&& self.session_manager.wf()
        &&& forall|u: Seq<char>| !(#[trigger] self.session_manager@.user_room.contains_key(u))
    }

    /// The configuration the server was made with.
    pub closed spec fn settings(&self) -> ServerConfig {
        self.config
    }

    /// A stopped server with a fresh room id, no rooms, and the configured
    /// key or a random one.
    pub fn new(config: ServerConfig) -> (r: Result<Self, CoreError>)
        ensures
            r matches Ok(s) && s.wf() && s.settings() == config && !s@.running && s@.session.rooms.len() == 0
                && (exists|t: u128| s@.room_id == server_uuid_text(t))
                && s@.session.rooms.dom().finite() && s@.session.user_room.len() == 0
                && s@.key.len() == KEY_SIZE && (config.encryption_key matches Some(k) ==> s@.key == k@),
    {
        let id = uuid_v4();
        let room_id = RoomId(id);
        let cipher = match &config.encryption_key {
            Some(key) => match Cipher::from_key(key.as_slice()) {
                Ok(c) => c,
                Err(e) => {
                    return Err(CoreError::Crypto(e));
                },
            },
            None => Cipher::new(),
        };
        let session_manager = SessionManager::new();
        Ok(IntercomServer { config, room_id, session_manager, cipher, running: false })
    }

    /// The room id.
    pub fn room_id(&self) -> (r: &RoomId)
        ensures
            r@ == self@.room_id,
    {
        &self.room_id
    }

    /// The encryption key, for sharing with clients.
    pub fn encryption_key(&self) -> (r: &[u8])
        ensures
            r@ == self@.key,
    {
        self.cipher.key_bytes()
    }

    /// The configuration.
    pub fn config(&self) -> (r: &ServerConfig)
        ensures
            *r == self.settings(),
    {
        &self.config
    }

    /// Whether the server is running.
    pub fn is_running(&self) -> (r: bool)
        ensures
            r == self@.running,
    {
        self.running
    }

    /// Mark the server running or stopped.
    pub fn set_running(&mut self, running: bool)
        ensures
            final(self)@ == (ServerView { running, ..old(self)@ }),
            final(self).wf() == old(self).wf(),
            final(self).settings() == old(self).settings(),
    {
        self.running = running;
    }

    /// Open the room in the session state: the room, named after the
    /// server, with the configured user limit and password, and the default
    /// channels `channel-0`, `channel-1`, ... when they are created
    /// automatically; it replaces a room already open under the server's
    /// id. Returns the ids of the channels created.
    pub fn open_room(&mut self) -> (r: Result<Vec<ChannelId>, CoreError>)
        requires
            old(self).wf(),
        ensures
            final(self).wf(),
            final(self).settings() == old(self).settings(),
            final(self)@ == (ServerView {
                session: open_room_spec(old(self)@.session, old(self)@.room_id, old(self).settings()),
                ..old(self)@
            }),
            r matches Ok(ids) && ids@.len() == (if old(self).settings().auto_create_channels {
                old(self).settings().default_channels@.len()
            } else {
                0
            }) && forall|i: int| 0 <= i < ids@.len() ==> #[trigger] ids@[i]@ == channel_label(i as nat),
    {
        let ghost s0 = self.session_manager@;
        let ghost cfg = self.config;
        let mut room = RoomSession::new(self.room_id.clone(), self.config.name.as_str());
        room = room.with_max_users(self.config.max_users);
        if let Some(password) = &self.config.password {
            room = room.with_password(password.clone());
        }
        let ghost rv = room@;
        self.session_manager.create_room(room);
        let ghost names = texts(self.config.default_channels@);
        proof {
            let want = RoomView { channels: default_channels_map(names, 0), ..opened_room(self.room_id@, cfg) };
            assert(rv =~= want);
            assert(open_room_spec(s0, self.room_id@, cfg).rooms.insert(self.room_id@, want) =~= self.session_manager@.rooms);
        }
        let mut created: Vec<ChannelId> = Vec::new();
        if self.config.auto_create_channels {
            let n = self.config.default_channels.len();
            let mut i: usize = 0;
            while i < n
                invariant
                    self.config == cfg,
                    self.room_id == old(self).room_id,
                    self.cipher == old(self).cipher,
                    self.running == old(self).running,
                    n == self.config.default_channels@.len(),
                    names == texts(self.config.default_channels@),
                    i <= n,
                    self.session_manager.wf(),
                    forall|u: Seq<char>| !(#[trigger] self.session_manager@.user_room.contains_key(u)),
                    self.session_manager@.rooms.contains_key(self.room_id@),
                    self.session_manager@ == (SessionView {
                        rooms: open_room_spec(s0, self.room_id@, cfg).rooms.insert(
                            self.room_id@,
                            RoomView { channels: default_channels_map(names, i as nat), ..opened_room(self.room_id@, cfg) },
                        ),
                        ..open_room_spec(s0, self.room_id@, cfg)
                    }),
                    created@.len() == i,
                    forall|j: int| 0 <= j < i ==> #[trigger] created@[j]@ == channel_label(j as nat),
                decreases n - i,
            {
                let channel_id = channel_label_text(i);
                let info = ChannelInfo::new(channel_id.clone(), self.config.default_channels[i].as_str());
                let ghost m = self.session_manager@;
                assert(info@ == default_channel_info(i as nat, names[i as int]));
                let _ = self.session_manager.create_channel(&self.room_id, info);
                proof {
                    let want = RoomView {
                        channels: default_channels_map(names, (i + 1) as nat),
                        ..opened_room(self.room_id@, cfg)
                    };
                    assert(self.session_manager@.rooms[self.room_id@] =~= want);
                    assert(self.session_manager@.rooms =~= open_room_spec(s0, self.room_id@, cfg).rooms.insert(
                        self.room_id@,
                        want,
                    ));
                }
                created.push(channel_id);
                i = i + 1;
            }
            proof {
                assert(open_room_spec(s0, self.room_id@, cfg).rooms.insert(
                    self.room_id@,
                    RoomView { channels: default_channels_map(names, n as nat), ..opened_room(self.room_id@, cfg) },
                ) =~= open_room_spec(s0, self.room_id@, cfg).rooms);
            }
        } else {
            proof {
                assert(open_room_spec(s0, self.room_id@, cfg).rooms.insert(
                    self.room_id@,
                    RoomView { channels: default_channels_map(names, 0), ..opened_room(self.room_id@, cfg) },
                ) =~= open_room_spec(s0, self.room_id@, cfg).rooms);
            }
        }
        Ok(created)
    }

    /// Close the room: the server stops and the room is deleted.
    pub fn close_room(&mut self)
        requires
            old(self).wf(),
        ensures
            final(self).wf(),
            final(self).settings() == old(self).settings(),
            final(self)@ == (ServerView {
                running: false,
                session: delete_room_spec(old(self)@.session, old(self)@.room_id).0,
                ..old(self)@
            }),
    {
        self.running = false;
        let _ = self.session_manager.delete_room(&self.room_id);
    }

    /// The users of the room.
    pub fn get_users(&self) -> (r: Result<Vec<UserInfo>, CoreError>)
        requires
            self.wf(),
        ensures
            r is Err <==> !self@.session.rooms.contains_key(self@.room_id),
            r matches Err(e) ==> (e matches CoreError::Session(s) && s@ == SessionFault::RoomNotFound(
                self@.room_id,
            )),
            r matches Ok(v) ==> lists_users(v@, self@.session.rooms[self@.room_id].users),
    {
        match self.session_manager.get_room_users(&self.room_id) {
            Ok(v) => Ok(v),
            Err(e) => Err(CoreError::Session(e)),
        }
    }

    /// The channels of the room.
    pub fn get_channels(&self) -> (r: Result<Vec<ChannelInfo>, CoreError>)
        requires
            self.wf(),
        ensures
            r is Err <==> !self@.session.rooms.contains_key(self@.room_id),
            r matches Err(e) ==> (e matches CoreError::Session(s) && s@ == SessionFault::RoomNotFound(
                self@.room_id,
            )),
            r matches Ok(v) ==> lists_channels(v@, self@.session.rooms[self@.room_id].channels),
    {
        match self.session_manager.get_room_channels(&self.room_id) {
            Ok(v) => Ok(v),
            Err(e) => Err(CoreError::Session(e)),
        }
    }

    /// Create a channel with a fresh id under the given name.
    pub fn create_channel(&mut self, name: &str) -> (r: Result<ChannelId, CoreError>)
        requires
            old(self).wf(),
        ensures
            final(self).wf(),
            final(self).settings() == old(self).settings(),
            r is Err <==> !old(self)@.session.rooms.contains_key(old(self)@.room_id),
            r matches Err(e) ==> (e matches CoreError::Session(s) && s@ == SessionFault::RoomNotFound(
                old(self)@.room_id,
            )),
            exists|id: Seq<char>|
                final(self)@ == (ServerView {
                    session: create_channel_spec(
                        old(self)@.session,
                        old(self)@.room_id,
                        #[trigger] named_channel(id, name@),
                    ).0,
                    ..old(self)@
                }) && (r matches Ok(c) ==> c@ == id) && (exists|t: u128| id == server_uuid_text(t)),
    {
        let channel_id = ChannelId(uuid_v4());
        let info = ChannelInfo::new(channel_id.clone(), name);
        assert(info@ == named_channel(channel_id@, name@));
        match self.session_manager.create_channel(&self.room_id, info) {
            Ok(c) => Ok(c),
            Err(e) => Err(CoreError::Session(e)),
        }
    }

    /// Delete a channel.
    pub fn delete_channel(&mut self, channel_id: &ChannelId) -> (r: Result<(), CoreError>)
        requires
            old(self).wf(),
        ensures
            final(self).wf(),
            final(self).settings() == old(self).settings(),
            final(self)@ == (ServerView {
                session: delete_channel_spec(old(self)@.session, old(self)@.room_id, channel_id@).0,
                ..old(self)@
            }),
            match delete_channel_spec(old(self)@.session, old(self)@.room_id, channel_id@).1 {
                Ok(_) => r is Ok,
                Err(f) => r matches Err(e) && (e matches CoreError::Session(s) && s@ == f),
            },
    {
        match self.session_manager.delete_channel(&self.room_id, channel_id) {
            Ok(()) => Ok(()),
            Err(e) => Err(CoreError::Session(e)),
        }
    }

    /// Take a user out of the session state (the session part of a kick).
    pub fn remove_user(&mut self, user_id: &UserId)
        requires
            old(self).wf(),
        ensures
            final(self).wf(),
            final(self).settings() == old(self).settings(),
            final(self)@ == (ServerView { session: leave_room_spec(old(self)@.session, user_id@).0, ..old(self)@ }),
    {
        let _ = self.session_manager.leave_room(user_id);
    }

    /// Statistics of a channel: its subscribers and talkers, none when the
    /// channel is unknown.
    pub fn get_channel_stats(&self, channel_id: &ChannelId) -> (r: ChannelStats)
        requires
            self.wf(),
        ensures
            r.channel_id@ == channel_id@,
            ({
                let rid = self@.room_id;
                let known = self@.session.rooms.contains_key(rid) && self@.session.rooms[rid].channels.contains_key(
                    channel_id@,
                );
                &&& known ==> lists_exactly(r.active_talkers@, self@.session.rooms[rid].channels[channel_id@].talkers)
                &&& known ==> r.subscriber_count == self@.session.rooms[rid].channels[channel_id@].subscribers.len()
                &&& !known ==> r.subscriber_count == 0 && r.active_talkers@.len() == 0
                &&& r.talker_count == r.active_talkers@.len()
            }),
    {
        let subscribers = match self.session_manager.get_channel_subscribers(&self.room_id, channel_id) {
            Ok(v) => v,
            Err(_) => Vec::new(),
        };
        let talkers = match self.session_manager.get_channel_talkers(&self.room_id, channel_id) {
            Ok(v) => v,
            Err(_) => Vec::new(),
        };
        proof {
            let ids = subscribers@.map_values(|x: UserId| x@);
            if self@.session.rooms.contains_key(self@.room_id) && self@.session.rooms[self@.room_id].channels.contains_key(
                channel_id@,
            ) {
                ids.unique_seq_to_set();
            }
        }
        let n_sub = subscribers.len();
        let n_talk = talkers.len();
        ChannelStats {
            channel_id: channel_id.clone(),
            subscriber_count: n_sub,
            talker_count: n_talk,
            active_talkers: talkers,
        }
    }

    /// Remove users idle for more than `max_idle_secs` seconds; returns who
    /// was removed: exactly the users idle in some room.
    pub fn cleanup_idle(&mut self, max_idle_secs: u64) -> (removed: Vec<UserId>)
        requires
            old(self).wf(),
        ensures
            final(self).wf(),
            final(self).settings() == old(self).settings(),
            final(self)@.room_id == old(self)@.room_id,
            final(self)@.key == old(self)@.key,
            final(self)@.running == old(self)@.running,
            exists|now: u64|
                #![trigger cleanup_spec(old(self)@.session, now, idle_limit_ms(max_idle_secs))]
                final(self)@.session == cleanup_spec(old(self)@.session, now, idle_limit_ms(max_idle_secs))
                    && (forall|i: int|
                    0 <= i < removed@.len() ==> all_idle(
                        old(self)@.session,
                        now,
                        idle_limit_ms(max_idle_secs),
                    ).contains(#[trigger] removed@[i]@)) && (forall|u: Seq<char>|
                    #[trigger] all_idle(old(self)@.session, now, idle_limit_ms(max_idle_secs)).contains(u)
                        ==> exists|i: int| 0 <= i < removed@.len() && removed@[i]@ == u),
    {
        let limit = if max_idle_secs > u64::MAX / 1000 {
            u64::MAX
        } else {
            max_idle_secs * 1000
        };
        assert(limit == idle_limit_ms(max_idle_secs));
        let ghost m0 = self.session_manager@;
        let pairs = self.session_manager.cleanup_idle_users(limit);
        let removed = user_ids_of(&pairs);
        proof {
            let now = choose|now: u64|
                self.session_manager@ == cleanup_spec(m0, now, limit) && lists_idle_pairs(pairs@, m0, now, limit);
            let views = pairs@.map_values(|p: (RoomId, UserId)| (p.0@, p.1@));
            assert forall|i: int| 0 <= i < removed@.len() implies all_idle(m0, now, limit).contains(
                #[trigger] removed@[i]@,
            ) by {
                assert(views.to_set().contains(views[i]));
                let r = views[i].0;
                assert(m0.rooms.contains_key(r) && idle_set(m0.rooms[r], now, limit).contains(removed@[i]@));
            }
            assert forall|u: Seq<char>| #[trigger] all_idle(m0, now, limit).contains(u) implies exists|i: int|
                0 <= i < removed@.len() && removed@[i]@ == u by {
                let r = choose|r: Seq<char>| #[trigger] m0.rooms.contains_key(r) && idle_set(m0.rooms[r], now, limit).contains(u);
                assert(views.to_set().contains((r, u)));
                let i = choose|i: int| 0 <= i < views.len() && views[i] == (r, u);
                assert(removed@[i]@ == u);
            }
            assert(m0 == old(self)@.session);
            assert(self.session_manager@ == cleanup_spec(old(self)@.session, now, idle_limit_ms(max_idle_secs)));
        }
        removed
    }
}

/// The user ids of (room, user) pairs, in order.
fn user_ids_of(pairs: &Vec<(RoomId, UserId)>) -> (r: Vec<UserId>)
    ensures
        r@.len() == pairs@.len(),
        forall|i: int| 0 <= i < r@.len() ==> #[trigger] r@[i]@ == pairs@[i].1@,
{
    let mut r: Vec<UserId> = Vec::new();
    let mut i: usize = 0;
    while i < pairs.len()
        invariant
            i <= pairs@.len(),
            r@.len() == i,
            forall|j: int| 0 <= j < i ==> #[trigger] r@[j]@ == pairs@[j].1@,
        decreases pairs@.len() - i,
    {
        r.push(pairs[i].1.clone());
        i = i + 1;
    }
    r
}

} // verus!
