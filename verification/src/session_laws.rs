//! Laws of the session model: what joining, leaving, subscribing, talking,
//! deleting and cleaning up guarantee.

use vstd::prelude::*;

use crate::ids::UserInfoView;
use crate::session::{
    consistent, delete_channel_spec, delete_room_spec, fresh_user, idle_ms, join_room_spec,
    leave_room_spec, cleanup_spec, start_talk_spec, stop_talk_spec, subscribe_spec,
    unsubscribe_spec, SessionFault, SessionView, UserState,
};

verus! {

/// A successful join places the user in the room: the user's room is the
/// room joined, and the room lists the user as freshly connected.
pub proof fn law_join_places_user(m: SessionView, r: Seq<char>, info: UserInfoView, now: u64)
    requires
        join_room_spec(m, r, info, now).1 is Ok,
    ensures
        join_room_spec(m, r, info, now).0.user_room[info.id] == r,
        join_room_spec(m, r, info, now).0.rooms[r].users[info.id] == fresh_user(info, now),
{
}

/// A user already in a room cannot join another one; nothing changes.
pub proof fn law_join_twice_refused(m: SessionView, r: Seq<char>, info: UserInfoView, now: u64)
    requires
        m.user_room.contains_key(info.id),
    ensures
        join_room_spec(m, r, info, now) == (m, Err::<(), SessionFault>(SessionFault::AlreadyInRoom)),
{
}

/// Leaving right after joining returns the room joined and restores the
/// state, when the user was not yet listed anywhere in that room.
pub proof fn law_leave_undoes_join(m: SessionView, r: Seq<char>, info: UserInfoView, now: u64)
    requires
        consistent(m),
        join_room_spec(m, r, info, now).1 is Ok,
        !m.rooms[r].users.contains_key(info.id),
        forall|c: Seq<char>| #[trigger] m.rooms[r].channels.contains_key(c) ==> !m.rooms[r].channels[c].subscribers.contains(
            info.id,
        ) && !m.rooms[r].channels[c].talkers.contains(info.id),
    ensures
        leave_room_spec(join_room_spec(m, r, info, now).0, info.id)
            == (m, Ok::<Seq<char>, SessionFault>(r)),
{
    let u = info.id;
    let m1 = join_room_spec(m, r, info, now).0;
    let m2 = leave_room_spec(m1, u).0;
    let rv = m.rooms[r];
    let rv2 = m2.rooms[r];
    assert(rv2.users =~= rv.users);
    assert forall|c: Seq<char>| #[trigger] rv2.channels.contains_key(c) implies rv2.channels[c] == rv.channels[c] by {
        assert(rv.channels[c].subscribers.remove(u) =~= rv.channels[c].subscribers);
        assert(rv.channels[c].talkers.remove(u) =~= rv.channels[c].talkers);
    }
    assert(rv2.channels =~= rv.channels);
    assert(m2.rooms =~= m.rooms);
    assert(m2.user_room =~= m.user_room);
}

/// After leaving, a user has no room and no room lists them.
pub proof fn law_leave_forgets_user(m: SessionView, u: Seq<char>)
    requires
        consistent(m),
        m.user_room.contains_key(u),
    ensures
        !leave_room_spec(m, u).0.user_room.contains_key(u),
        !leave_room_spec(m, u).0.rooms[m.user_room[u]].users.contains_key(u),
        leave_room_spec(m, u).1 == Ok::<Seq<char>, SessionFault>(m.user_room[u]),
{
}

/// A successful subscription makes the user a subscriber of the channel and
/// records the channel among the user's subscriptions.
pub proof fn law_subscribe_adds_subscriber(m: SessionView, u: Seq<char>, c: Seq<char>, now: u64)
    requires
        consistent(m),
        subscribe_spec(m, u, c, now).1 is Ok,
    ensures
        subscribe_spec(m, u, c, now).0.rooms[m.user_room[u]].channels[c].subscribers.contains(u),
        subscribe_spec(m, u, c, now).0.rooms[m.user_room[u]].users[u].subscribed.contains(c),
{
}

/// Unsubscribing right after subscribing leaves the user neither a
/// subscriber nor a talker of the channel.
pub proof fn law_unsubscribe_after_subscribe(m: SessionView, u: Seq<char>, c: Seq<char>, t1: u64, t2: u64)
    requires
        consistent(m),
        subscribe_spec(m, u, c, t1).1 is Ok,
    ensures
        unsubscribe_spec(subscribe_spec(m, u, c, t1).0, u, c, t2).1 is Ok,
        !unsubscribe_spec(subscribe_spec(m, u, c, t1).0, u, c, t2).0.rooms[m.user_room[u]].channels[c].subscribers.contains(
            u,
        ),
        !unsubscribe_spec(subscribe_spec(m, u, c, t1).0, u, c, t2).0.rooms[m.user_room[u]].users[u].subscribed.contains(
            c,
        ),
        !unsubscribe_spec(subscribe_spec(m, u, c, t1).0, u, c, t2).0.rooms[m.user_room[u]].channels[c].talkers.contains(
            u,
        ),
{
}

/// Starting to talk on a channel and then stopping returns that channel
/// and leaves the user neither talking nor among the channel's talkers.
pub proof fn law_stop_talk_after_start(m: SessionView, u: Seq<char>, c: Seq<char>, t1: u64, t2: u64)
    requires
        consistent(m),
        start_talk_spec(m, u, c, t1).1 is Ok,
    ensures
        stop_talk_spec(start_talk_spec(m, u, c, t1).0, u, t2).1 == Ok::<Option<Seq<char>>, SessionFault>(Some(c)),
        !stop_talk_spec(start_talk_spec(m, u, c, t1).0, u, t2).0.rooms[m.user_room[u]].channels[c].talkers.contains(u),
        stop_talk_spec(start_talk_spec(m, u, c, t1).0, u, t2).0.rooms[m.user_room[u]].users[u].state == UserState::Idle,
        stop_talk_spec(start_talk_spec(m, u, c, t1).0, u, t2).0.rooms[m.user_room[u]].users[u].talk_channel.is_none(),
{
}

/// Deleting a room leaves no user in it.
pub proof fn law_delete_room_empties_it(m: SessionView, r: Seq<char>, u: Seq<char>)
    requires
        consistent(m),
        m.rooms.contains_key(r),
        delete_room_spec(m, r).0.user_room.contains_key(u),
    ensures
        delete_room_spec(m, r).0.user_room[u] != r,
{
}

/// Deleting a channel leaves no user subscribed to it or talking on it.
pub proof fn law_delete_channel_clears_users(m: SessionView, r: Seq<char>, c: Seq<char>, u: Seq<char>)
    requires
        delete_channel_spec(m, r, c).1 is Ok,
        delete_channel_spec(m, r, c).0.rooms[r].users.contains_key(u),
    ensures
        !delete_channel_spec(m, r, c).0.rooms[r].users[u].subscribed.contains(c),
        delete_channel_spec(m, r, c).0.rooms[r].users[u].talk_channel != Some(c),
        !delete_channel_spec(m, r, c).0.rooms[r].channels.contains_key(c),
{
}

/// After a cleanup at time `now`, no user left in any room is idle for more
/// than the limit at that time, and no removed user keeps a room.
pub proof fn law_cleanup_leaves_no_idle_user(m: SessionView, now: u64, max_idle: u64, r: Seq<char>, u: Seq<char>)
    requires
        cleanup_spec(m, now, max_idle).rooms.contains_key(r),
        cleanup_spec(m, now, max_idle).rooms[r].users.contains_key(u),
    ensures
        idle_ms(cleanup_spec(m, now, max_idle).rooms[r].users[u].last_activity, now) <= max_idle,
{
}

/// After a successful unsubscription from a channel of their room, the user
/// is neither a subscriber nor a talker of that channel, whatever they were
/// before (talking on it included), no longer counts it among their
/// subscriptions and no longer talks on it.
pub proof fn law_unsubscribe_leaves_channel(m: SessionView, u: Seq<char>, c: Seq<char>, now: u64)
    requires
        consistent(m),
        unsubscribe_spec(m, u, c, now).1 is Ok,
        m.rooms[m.user_room[u]].channels.contains_key(c),
    ensures
        !unsubscribe_spec(m, u, c, now).0.rooms[m.user_room[u]].channels[c].subscribers.contains(u),
        !unsubscribe_spec(m, u, c, now).0.rooms[m.user_room[u]].channels[c].talkers.contains(u),
        !unsubscribe_spec(m, u, c, now).0.rooms[m.user_room[u]].users[u].subscribed.contains(c),
        unsubscribe_spec(m, u, c, now).0.rooms[m.user_room[u]].users[u].talk_channel != Some(c),
{
}

/// Talking on a channel and then unsubscribing from it leaves the user off
/// the channel's talkers.
pub proof fn law_unsubscribe_after_talk(m: SessionView, u: Seq<char>, c: Seq<char>, t1: u64, t2: u64)
    requires
        consistent(m),
        start_talk_spec(m, u, c, t1).1 is Ok,
    ensures
        unsubscribe_spec(start_talk_spec(m, u, c, t1).0, u, c, t2).1 is Ok,
        !unsubscribe_spec(start_talk_spec(m, u, c, t1).0, u, c, t2).0.rooms[m.user_room[u]].channels[c].talkers.contains(u),
{
}

} // verus!
