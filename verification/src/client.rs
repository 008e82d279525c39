//! Client-side state: identity, connection phase, subscriptions and talk
//! state. Signaling, audio and peer connections are driven by the caller
//! around these transitions.

use vstd::prelude::*;

use crate::clock::now_nanos;
use crate::errors::CoreError;
use crate::ids::{channel_ids_view, ChannelId, RoomId, UserId};
use crate::session::opt_id;
use crate::text::{hex_digit, hex_text, push_char, push_hex};

verus! {

/// The two 64-bit halves of a nanosecond timestamp, each scrambled by a
/// fixed mask: the high half with `0x123456789abcdef0`, the low half with
/// `0xfedcba9876543210`.
pub open spec fn scrambled_halves(timestamp: u128) -> (u64, u64) {
    (((timestamp >> 64u128) as u64) ^ 0x123456789abcdef0u64, (timestamp as u64) ^ 0xfedcba9876543210u64)
}

/// The fourth group of an id: bits 48..62 of the low half with the top bit
/// set.
pub open spec fn variant_group(low: u64) -> u16 {
    (((low >> 48u64) as u16) & 0x3fffu16) | 0x8000u16
}

/// The id text of two 64-bit halves, in the layout
/// `xxxxxxxx-xxxx-4xxx-yxxx-xxxxxxxxxxxx`: the top 32 bits and the next 16
/// bits of the high half, the version digit 4 and the low 12 bits of the
/// high half, `variant_group` of the low half, and the low 48 bits of the
/// low half.
pub open spec fn id_text(high: u64, low: u64) -> Seq<char> {
    hex_text(((high >> 32u64) as u32) as nat, 8) + seq!['-'] + hex_text(((high >> 16u64) as u16) as nat, 4)
        + seq!['-', '4'] + hex_text(((high as u16) & 0x0fffu16) as nat, 3) + seq!['-'] + hex_text(
        variant_group(low) as nat,
        4,
    ) + seq!['-'] + hex_text((low & 0xffff_ffff_ffffu64) as nat, 12)
}

/// The id text for a timestamp: `id_text` of its scrambled halves.
pub open spec fn uuid_text(timestamp: u128) -> Seq<char> {
    let (high, low) = scrambled_halves(timestamp);
    id_text(high, low)
}

/// Whether a character is a lowercase hexadecimal digit.
pub open spec fn is_lower_hex(c: char) -> bool {
    ('0' <= c && c <= '9') || ('a' <= c && c <= 'f')
}

/// `16^width`.
pub open spec fn pow16(width: nat) -> nat
    decreases width,
{
    if width == 0 {
        1
    } else {
        16 * pow16((width - 1) as nat)
    }
}

proof fn lemma_hex_text_len(v: nat, width: nat)
    ensures
        hex_text(v, width).len() == width,
    decreases width,
{
    if width > 0 {
        lemma_hex_text_len(v / 16, (width - 1) as nat);
    }
}

proof fn lemma_hex_text_digits(v: nat, width: nat)
    ensures
        forall|i: int| 0 <= i < width ==> is_lower_hex(#[trigger] hex_text(v, width)[i]),
    decreases width,
{
    lemma_hex_text_len(v, width);
    if width > 0 {
        lemma_hex_text_digits(v / 16, (width - 1) as nat);
        lemma_hex_text_len(v / 16, (width - 1) as nat);
        let d = v % 16;
        assert(is_lower_hex(hex_digit(d))) by {
            if d < 10 {
                assert((48 + d) as u32 as char == ((48 + d) as u32) as char);
            }
        }
        assert forall|i: int| 0 <= i < width implies is_lower_hex(#[trigger] hex_text(v, width)[i]) by {
            if i < width - 1 {
                assert(hex_text(v, width)[i] == hex_text(v / 16, (width - 1) as nat)[i]);
            }
        }
    }
}

/// Equal hexadecimal texts of one width come from equal values below
/// `16^width`.
proof fn lemma_hex_text_injective(v1: nat, v2: nat, width: nat)
    requires
        v1 < pow16(width),
        v2 < pow16(width),
        hex_text(v1, width) == hex_text(v2, width),
    ensures
        v1 == v2,
    decreases width,
{
    if width > 0 {
        let w = (width - 1) as nat;
        lemma_hex_text_len(v1 / 16, w);
        lemma_hex_text_len(v2 / 16, w);
        let t1 = hex_text(v1, width);
        let t2 = hex_text(v2, width);
        assert(t1.last() == hex_digit(v1 % 16));
        assert(t2.last() == hex_digit(v2 % 16));
        assert(v1 % 16 == v2 % 16);
        assert(t1.drop_last() =~= hex_text(v1 / 16, w));
        assert(t2.drop_last() =~= hex_text(v2 / 16, w));
        lemma_hex_text_injective(v1 / 16, v2 / 16, w);
    }
}

/// The character at `i` of a hexadecimal text: the digit `v / 16^(width-1-i)`
/// modulo 16; here for the first one.
proof fn lemma_hex_text_first(v: nat)
    ensures
        hex_text(v, 4)[0] == hex_digit((v / 16 / 16 / 16) % 16),
{
    lemma_hex_text_len(v / 16 / 16 / 16, 1);
    lemma_hex_text_len(v / 16 / 16, 2);
    lemma_hex_text_len(v / 16, 3);
}

/// The id text of two halves, built.
pub(crate) fn id_from_halves(high: u64, low: u64) -> (id: String)
    ensures
        id@ == id_text(high, low),
{
    let mut s = String::new();
    push_hex(&mut s, ((high >> 32u64) as u32) as u64, 8);
    push_char(&mut s, '-');
    push_hex(&mut s, ((high >> 16u64) as u16) as u64, 4);
    push_char(&mut s, '-');
    push_char(&mut s, '4');
    push_hex(&mut s, ((high as u16) & 0x0fffu16) as u64, 3);
    push_char(&mut s, '-');
    push_hex(&mut s, ((((low >> 48u64) as u16) & 0x3fffu16) | 0x8000u16) as u64, 4);
    push_char(&mut s, '-');
    push_hex(&mut s, low & 0xffff_ffff_ffffu64, 12);
    assert(s@ =~= id_text(high, low));
    s
}

/// The id for a nanosecond timestamp.
pub fn uuid_from_nanos(timestamp: u128) -> (id: String)
    ensures
        id@ == uuid_text(timestamp),
{
    let high: u64 = ((timestamp >> 64u128) as u64) ^ 0x123456789abcdef0u64;
    let low: u64 = (timestamp as u64) ^ 0xfedcba9876543210u64;
    id_from_halves(high, low)
}

/// Generate a user id from the current time in nanoseconds.
pub fn uuid_v4() -> (id: String)
    ensures
        exists|t: u128| id@ == uuid_text(t),
{
    let t = now_nanos();
    uuid_from_nanos(t)
}

/// The layout of every id text: 36 characters, five groups of lowercase
/// hexadecimal digits of lengths 8, 4, 4, 4 and 12 joined by hyphens, the
/// third group starting with the version digit 4 and the fourth with one of
/// `8`, `9`, `a`, `b`.
pub proof fn law_id_layout(high: u64, low: u64)
    ensures
        id_text(high, low).len() == 36,
        id_text(high, low)[8] == '-',
        id_text(high, low)[13] == '-',
        id_text(high, low)[14] == '4',
        id_text(high, low)[18] == '-',
        id_text(high, low)[23] == '-',
        id_text(high, low)[19] == '8' || id_text(high, low)[19] == '9' || id_text(high, low)[19] == 'a'
            || id_text(high, low)[19] == 'b',
        forall|i: int|
            0 <= i < 36 && i != 8 && i != 13 && i != 18 && i != 23 ==> is_lower_hex(
                #[trigger] id_text(high, low)[i],
            ),
{
    let a = ((high >> 32u64) as u32) as nat;
    let b = ((high >> 16u64) as u16) as nat;
    let c = ((high as u16) & 0x0fffu16) as nat;
    let g = variant_group(low);
    let d = g as nat;
    let e = (low & 0xffff_ffff_ffffu64) as nat;
    lemma_hex_text_len(a, 8);
    lemma_hex_text_len(b, 4);
    lemma_hex_text_len(c, 3);
    lemma_hex_text_len(d, 4);
    lemma_hex_text_len(e, 12);
    lemma_hex_text_digits(a, 8);
    lemma_hex_text_digits(b, 4);
    lemma_hex_text_digits(c, 3);
    lemma_hex_text_digits(d, 4);
    lemma_hex_text_digits(e, 12);
    let t = id_text(high, low);
    assert(0x8000 <= g && g <= 0xbfff) by (bit_vector)
        requires
            g == (((low >> 48u64) as u16) & 0x3fffu16) | 0x8000u16,
    ;
    lemma_hex_text_first(d);
    let top = (d / 16 / 16 / 16) % 16;
    assert(8 <= top && top <= 11);
    assert(t[19] == hex_text(d, 4)[0]);
    assert forall|i: int|
        0 <= i < 36 && i != 8 && i != 13 && i != 18 && i != 23 implies is_lower_hex(#[trigger] t[i]) by {
        if i < 8 {
            assert(t[i] == hex_text(a, 8)[i]);
        } else if i < 13 {
            assert(t[i] == hex_text(b, 4)[i - 9]);
        } else if i == 14 {
        } else if i < 18 {
            assert(t[i] == hex_text(c, 3)[i - 15]);
        } else if i < 23 {
            assert(t[i] == hex_text(d, 4)[i - 19]);
        } else {
            assert(t[i] == hex_text(e, 12)[i - 24]);
        }
    }
}

/// Every id is 36 characters: five groups of lowercase hexadecimal digits
/// of lengths 8, 4, 4, 4 and 12, joined by hyphens, the third group
/// starting with the version digit 4 and the fourth with `8`, `9`, `a` or
/// `b`.
pub proof fn law_uuid_layout(timestamp: u128)
    ensures
        uuid_text(timestamp).len() == 36,
        uuid_text(timestamp)[8] == '-',
        uuid_text(timestamp)[13] == '-',
        uuid_text(timestamp)[14] == '4',
        uuid_text(timestamp)[18] == '-',
        uuid_text(timestamp)[23] == '-',
        uuid_text(timestamp)[19] == '8' || uuid_text(timestamp)[19] == '9' || uuid_text(timestamp)[19]
            == 'a' || uuid_text(timestamp)[19] == 'b',
        forall|i: int|
            0 <= i < 36 && i != 8 && i != 13 && i != 18 && i != 23 ==> is_lower_hex(
                #[trigger] uuid_text(timestamp)[i],
            ),
{
    let (high, low) = scrambled_halves(timestamp);
    law_id_layout(high, low);
}

/// Equal id texts have equal low 62 bits in their low halves: the fourth
/// and fifth groups hold them.
pub proof fn lemma_id_text_low_bits(h1: u64, l1: u64, h2: u64, l2: u64)
    requires
        id_text(h1, l1) == id_text(h2, l2),
    ensures
        variant_group(l1) == variant_group(l2),
        l1 & 0xffff_ffff_ffffu64 == l2 & 0xffff_ffff_ffffu64,
{
    law_id_layout(h1, l1);
    law_id_layout(h2, l2);
    let t1 = id_text(h1, l1);
    let t2 = id_text(h2, l2);
    let d1 = variant_group(l1) as nat;
    let d2 = variant_group(l2) as nat;
    let e1 = (l1 & 0xffff_ffff_ffffu64) as nat;
    let e2 = (l2 & 0xffff_ffff_ffffu64) as nat;
    lemma_hex_text_len(((h1 >> 32u64) as u32) as nat, 8);
    lemma_hex_text_len(((h1 >> 16u64) as u16) as nat, 4);
    lemma_hex_text_len(((h1 as u16) & 0x0fffu16) as nat, 3);
    lemma_hex_text_len(((h2 >> 32u64) as u32) as nat, 8);
    lemma_hex_text_len(((h2 >> 16u64) as u16) as nat, 4);
    lemma_hex_text_len(((h2 as u16) & 0x0fffu16) as nat, 3);
    lemma_hex_text_len(d1, 4);
    lemma_hex_text_len(d2, 4);
    lemma_hex_text_len(e1, 12);
    lemma_hex_text_len(e2, 12);
    assert(t1.subrange(19, 23) =~= hex_text(d1, 4));
    assert(t2.subrange(19, 23) =~= hex_text(d2, 4));
    assert(t1.subrange(24, 36) =~= hex_text(e1, 12));
    assert(t2.subrange(24, 36) =~= hex_text(e2, 12));
    assert(pow16(4) == 0x10000) by {
        reveal_with_fuel(pow16, 5);
    }
    assert(pow16(12) == 0x1_0000_0000_0000) by {
        reveal_with_fuel(pow16, 13);
    }
    assert(l1 & 0xffff_ffff_ffffu64 < 0x1_0000_0000_0000u64) by (bit_vector);
    assert(l2 & 0xffff_ffff_ffffu64 < 0x1_0000_0000_0000u64) by (bit_vector);
    lemma_hex_text_injective(d1, d2, 4);
    lemma_hex_text_injective(e1, e2, 12);
}

/// Timestamps below 2^62 nanoseconds (about 146 years after the epoch) give
/// distinct ids: every bit of such a timestamp shows in its id.
pub proof fn law_uuid_distinct(t1: u128, t2: u128)
    requires
        t1 < 0x4000_0000_0000_0000,
        t2 < 0x4000_0000_0000_0000,
        t1 != t2,
    ensures
        uuid_text(t1) != uuid_text(t2),
{
    let (h1, l1) = scrambled_halves(t1);
    let (h2, l2) = scrambled_halves(t2);
    if uuid_text(t1) == uuid_text(t2) {
        lemma_id_text_low_bits(h1, l1, h2, l2);
        assert(t1 == t2) by (bit_vector)
            requires
                t1 < 0x4000_0000_0000_0000,
                t2 < 0x4000_0000_0000_0000,
                l1 == (t1 as u64) ^ 0xfedcba9876543210u64,
                l2 == (t2 as u64) ^ 0xfedcba9876543210u64,
                (((l1 >> 48u64) as u16) & 0x3fffu16) | 0x8000u16 == (((l2 >> 48u64) as u16) & 0x3fffu16)
                    | 0x8000u16,
                l1 & 0xffff_ffff_ffffu64 == l2 & 0xffff_ffff_ffffu64,
        ;
    }
}

/// Connection phase of a client.
#[derive(Debug, Clone, Copy, PartialEq, Eq, Structural)]
pub enum ClientState {
    Disconnected,
    Connecting,
    Connected,
    Error,
}

/// The model of a client's state.
pub struct ClientView {
    pub user_id: Seq<char>,
    pub state: ClientState,
    pub room_id: Option<Seq<char>>,
    pub subscribed: Seq<Seq<char>>,
    pub talk_channel: Option<Seq<char>>,
    pub is_talking: bool,
}

/// The model of an optional room id.
pub open spec fn opt_room(r: Option<RoomId>) -> Option<Seq<char>> {
    match r {
        Some(r) => Some(r@),
        None => None,
    }
}

/// The client connecting.
pub open spec fn connecting(v: ClientView) -> ClientView {
    ClientView { state: ClientState::Connecting, ..v }
}

/// The client connected to `room`.
pub open spec fn connected(v: ClientView, room: Seq<char>) -> ClientView {
    ClientView { state: ClientState::Connected, room_id: Some(room), ..v }
}

/// The client disconnected, in no room.
pub open spec fn disconnected(v: ClientView) -> ClientView {
    ClientView { state: ClientState::Disconnected, room_id: None, ..v }
}

/// The state of an intercom client.
pub struct ClientSession {
    user_id: UserId,
    state: ClientState,
    room_id: Option<RoomId>,
    subscribed_channels: Vec<ChannelId>,
    talk_channel: Option<ChannelId>,
    is_talking: bool,
}

impl View for ClientSession {
    type V = ClientView;

    closed spec fn view(&self) -> ClientView {
        ClientView {
            user_id: self.user_id@,
            state: self.state,
            room_id: opt_room(self.room_id),
            subscribed: channel_ids_view(self.subscribed_channels@),
            talk_channel: opt_id(self.talk_channel),
            is_talking: self.is_talking,
        }
    }
}

/// A copy of an optional channel id.
fn copy_channel(c: &Option<ChannelId>) -> (r: Option<ChannelId>)
    ensures
        opt_id(r) == opt_id(*c),
{
    match c {
        Some(c) => Some(c.clone()),
        None => None,
    }
}

impl ClientSession {
    /// A disconnected client with a fresh user id.
    pub fn new() -> (r: Self)
        ensures
            exists|t: u128| r@.user_id == uuid_text(t),
            r@.state == ClientState::Disconnected,
            r@.room_id.is_none(),
            r@.subscribed.len() == 0,
            r@.talk_channel.is_none(),
            !r@.is_talking,
    {
        let id = uuid_v4();
        let r = ClientSession {
            user_id: UserId(id),
            state: ClientState::Disconnected,
            room_id: None,
            subscribed_channels: Vec::new(),
            talk_channel: None,
            is_talking: false,
        };
        assert(r@.subscribed =~= Seq::empty());
        r
    }

    /// The user id.
    pub fn user_id(&self) -> (r: &UserId)
        ensures
            r@ == self@.user_id,
    {
        &self.user_id
    }

    /// The room joined, if any.
    pub fn room_id(&self) -> (r: Option<RoomId>)
        ensures
            opt_room(r) == self@.room_id,
    {
        match &self.room_id {
            Some(r) => Some(r.clone()),
            None => None,
        }
    }

    /// Whether the client is connected.
    pub fn is_connected(&self) -> (r: bool)
        ensures
            r == (self@.state == ClientState::Connected),
    {
        self.state == ClientState::Connected
    }

    /// Whether the client is talking.
    pub fn is_talking(&self) -> (r: bool)
        ensures
            r == self@.is_talking,
    {
        self.is_talking
    }

    /// The channel talked on, if any.
    pub fn talk_channel(&self) -> (r: Option<ChannelId>)
        ensures
            opt_id(r) == self@.talk_channel,
    {
        copy_channel(&self.talk_channel)
    }

    /// The subscribed channels, in subscription order.
    pub fn subscribed_channels(&self) -> (r: &Vec<ChannelId>)
        ensures
            channel_ids_view(r@) == self@.subscribed,
    {
        &self.subscribed_channels
    }

    /// Start connecting: refused unless disconnected, else the client is
    /// connecting until `finish_connect`.
    pub fn begin_connect(&mut self) -> (r: Result<(), CoreError>)
        ensures
            old(self)@.state != ClientState::Disconnected ==> (r matches Err(CoreError::AlreadyConnected))
                && final(self)@ == old(self)@,
            old(self)@.state == ClientState::Disconnected ==> r is Ok && final(self)@ == connecting(old(self)@),
    {
        if self.state != ClientState::Disconnected {
            return Err(CoreError::AlreadyConnected);
        }
        self.state = ClientState::Connecting;
        Ok(())
    }

    /// Finish connecting to `room_id`: the client is connected there.
    pub fn finish_connect(&mut self, room_id: RoomId)
        ensures
            final(self)@ == connected(old(self)@, room_id@),
    {
        self.room_id = Some(room_id);
        self.state = ClientState::Connected;
    }

    /// Disconnect: the client leaves its room and is disconnected. Returns
    /// the room it was in, if any.
    pub fn disconnect(&mut self) -> (r: Option<RoomId>)
        ensures
            opt_room(r) == old(self)@.room_id,
            final(self)@ == disconnected(old(self)@),
    {
        let r = self.room_id.take();
        self.state = ClientState::Disconnected;
        r
    }

    /// Subscribe to a channel (appended, even if already subscribed).
    pub fn subscribe_channel(&mut self, channel_id: ChannelId)
        ensures
            final(self)@ == (ClientView { subscribed: old(self)@.subscribed.push(channel_id@), ..old(self)@ }),
    {
        let ghost c = channel_id@;
        self.subscribed_channels.push(channel_id);
        assert(channel_ids_view(self.subscribed_channels@) =~= old(self)@.subscribed.push(c));
    }

    /// Unsubscribe from a channel: every subscription to it is dropped.
    pub fn unsubscribe_channel(&mut self, channel_id: &ChannelId)
        ensures
            final(self)@ == (ClientView {
                subscribed: old(self)@.subscribed.filter(|c: Seq<char>| c != channel_id@),
                ..old(self)@
            }),
    {
        let mut old_list: Vec<ChannelId> = Vec::new();
        std::mem::swap(&mut old_list, &mut self.subscribed_channels);
        let ghost pred = |c: Seq<char>| c != channel_id@;
        let ghost all = channel_ids_view(old_list@);
        let mut kept: Vec<ChannelId> = Vec::new();
        let mut i: usize = 0;
        while i < old_list.len()
            invariant
                i <= old_list@.len(),
                all == channel_ids_view(old_list@),
                pred == (|c: Seq<char>| c != channel_id@),
                channel_ids_view(kept@) == all.subrange(0, i as int).filter(pred),
            decreases old_list@.len() - i,
        {
            let ghost prev = all.subrange(0, i as int);
            assert(all.subrange(0, i + 1) =~= prev.push(all[i as int]));
            proof {
                prev.lemma_filter_push(all[i as int], pred);
            }
            if !crate::text::text_eq(old_list[i].as_str(), channel_id.as_str()) {
                let ghost before = kept@;
                kept.push(old_list[i].clone());
                assert(channel_ids_view(kept@) =~= channel_ids_view(before).push(all[i as int]));
            }
            i = i + 1;
        }
        assert(all.subrange(0, all.len() as int) =~= all);
        self.subscribed_channels = kept;
    }

    /// Start talking on a channel: refused unless connected.
    pub fn start_talk(&mut self, channel_id: ChannelId) -> (r: Result<(), CoreError>)
        ensures
            old(self)@.state != ClientState::Connected ==> (r matches Err(CoreError::NotConnected))
                && final(self)@ == old(self)@,
            old(self)@.state == ClientState::Connected ==> r is Ok && final(self)@ == (ClientView {
                talk_channel: Some(channel_id@),
                is_talking: true,
                ..old(self)@
            }),
    {
        if self.state != ClientState::Connected {
            return Err(CoreError::NotConnected);
        }
        self.talk_channel = Some(channel_id);
        self.is_talking = true;
        Ok(())
    }

    /// Stop talking; the talk channel is kept until `clear_talk_channel`.
    pub fn stop_talking(&mut self)
        ensures
            final(self)@ == (ClientView { is_talking: false, ..old(self)@ }),
    {
        self.is_talking = false;
    }

    /// Forget the talk channel.
    pub fn clear_talk_channel(&mut self)
        ensures
            final(self)@ == (ClientView { talk_channel: None, ..old(self)@ }),
    {
        self.talk_channel = None;
    }
}

/// Connecting to a room and disconnecting again returns a disconnected
/// client in no room to where it was: the room joined is what the
/// disconnect reports leaving.
pub proof fn law_disconnect_undoes_connect(v: ClientView, room: Seq<char>)
    requires
        v.state == ClientState::Disconnected,
        v.room_id.is_none(),
    ensures
        disconnected(connected(connecting(v), room)) == v,
        connected(connecting(v), room).room_id == Some(room),
{
}

} // verus!
