//! Identifiers and descriptive records for users, channels and rooms.

use vstd::prelude::*;

verus! {

/// Unique identifier for a user.
#[derive(Debug, PartialEq, Eq, Hash)]
pub struct UserId(pub String);

impl View for UserId {
    type V = Seq<char>;

    open spec fn view(&self) -> Seq<char> {
        self.0@
    }
}

impl Clone for UserId {
    fn clone(&self) -> (r: Self)
        ensures
            r@ == self@,
    {
        UserId(self.0.clone())
    }
}

impl UserId {
    /// Creates an identifier holding exactly the given text.
    pub fn new(id: &str) -> (r: Self)
        ensures
            r@ == id@,
    {
        UserId(id.to_string())
    }

    /// Borrows the identifier text.
    pub fn as_str(&self) -> (r: &str)
        ensures
            r@ == self@,
    {
        self.0.as_str()
    }

    /// The identifier as display text (the text itself).
    pub fn to_string(&self) -> (r: String)
        ensures
            r@ == self@,
    {
        self.0.clone()
    }
}

/// Unique identifier for a channel.
#[derive(Debug, PartialEq, Eq, Hash)]
pub struct ChannelId(pub String);

impl View for ChannelId {
    type V = Seq<char>;

    open spec fn view(&self) -> Seq<char> {
        self.0@
    }
}

impl Clone for ChannelId {
    fn clone(&self) -> (r: Self)
        ensures
            r@ == self@,
    {
        ChannelId(self.0.clone())
    }
}

impl ChannelId {
    /// Creates an identifier holding exactly the given text.
    pub fn new(id: &str) -> (r: Self)
        ensures
            r@ == id@,
    {
        ChannelId(id.to_string())
    }

    /// Borrows the identifier text.
    pub fn as_str(&self) -> (r: &str)
        ensures
            r@ == self@,
    {
        self.0.as_str()
    }

    /// The identifier as display text (the text itself).
    pub fn to_string(&self) -> (r: String)
        ensures
            r@ == self@,
    {
        self.0.clone()
    }
}

/// Unique identifier for a room (session).
#[derive(Debug, PartialEq, Eq, Hash)]
pub struct RoomId(pub String);

impl View for RoomId {
    type V = Seq<char>;

    open spec fn view(&self) -> Seq<char> {
        self.0@
    }
}

impl Clone for RoomId {
    fn clone(&self) -> (r: Self)
        ensures
            r@ == self@,
    {
        RoomId(self.0.clone())
    }
}

impl RoomId {
    /// Creates an identifier holding exactly the given text.
    pub fn new(id: &str) -> (r: Self)
        ensures
            r@ == id@,
    {
        RoomId(id.to_string())
    }

    /// Borrows the identifier text.
    pub fn as_str(&self) -> (r: &str)
        ensures
            r@ == self@,
    {
        self.0.as_str()
    }

    /// The identifier as display text (the text itself).
    pub fn to_string(&self) -> (r: String)
        ensures
            r@ == self@,
    {
        self.0.clone()
    }
}

/// The model of a user record.
pub struct UserInfoView {
    pub id: Seq<char>,
    pub display_name: Seq<char>,
    pub is_talking: bool,
    pub subscribed_channels: Seq<Seq<char>>,
    pub talk_channel: Option<Seq<char>>,
}

/// The model of a channel record.
pub struct ChannelInfoView {
    pub id: Seq<char>,
    pub name: Seq<char>,
    pub description: Option<Seq<char>>,
    pub members: Seq<Seq<char>>,
}

/// The texts of a sequence of identifiers.
pub open spec fn channel_ids_view(s: Seq<ChannelId>) -> Seq<Seq<char>> {
    s.map_values(|c: ChannelId| c@)
}

/// The texts of a sequence of identifiers.
pub open spec fn user_ids_view(s: Seq<UserId>) -> Seq<Seq<char>> {
    s.map_values(|c: UserId| c@)
}

/// User information.
#[derive(Debug)]
pub struct UserInfo {
    pub id: UserId,
    pub display_name: String,
    pub is_talking: bool,
    pub subscribed_channels: Vec<ChannelId>,
    pub talk_channel: Option<ChannelId>,
}

impl View for UserInfo {
    type V = UserInfoView;

    open spec fn view(&self) -> UserInfoView {
        UserInfoView {
            id: self.id@,
            display_name: self.display_name@,
            is_talking: self.is_talking,
            subscribed_channels: channel_ids_view(self.subscribed_channels@),
            talk_channel: match self.talk_channel {
                Some(c) => Some(c@),
                None => None,
            },
        }
    }
}

impl Clone for UserInfo {
    fn clone(&self) -> (r: Self)
        ensures
            r@ == self@,
    {
        let mut subs: Vec<ChannelId> = Vec::new();
        let n = self.subscribed_channels.len();
        let mut i: usize = 0;
        while i < n
            invariant
                n == self.subscribed_channels@.len(),
                i <= n,
                subs@.len() == i,
                forall|j: int| 0 <= j < i ==> #[trigger] subs@[j]@ == self.subscribed_channels@[j]@,
            decreases n - i,
        {
            subs.push(self.subscribed_channels[i].clone());
            i = i + 1;
        }
        let talk = match &self.talk_channel {
            Some(c) => Some(c.clone()),
            None => None,
        };
        assert(channel_ids_view(subs@) =~= channel_ids_view(self.subscribed_channels@));
        UserInfo {
            id: self.id.clone(),
            display_name: self.display_name.clone(),
            is_talking: self.is_talking,
            subscribed_channels: subs,
            talk_channel: talk,
        }
    }
}

impl UserInfo {
    /// A user that is not talking and has no subscriptions.
    pub fn new(id: UserId, display_name: &str) -> (r: Self)
        ensures
            r@ == (UserInfoView {
                id: id@,
                display_name: display_name@,
                is_talking: false,
                subscribed_channels: Seq::empty(),
                talk_channel: None,
            }),
    {
        let r = UserInfo {
            id,
            display_name: display_name.to_string(),
            is_talking: false,
            subscribed_channels: Vec::new(),
            talk_channel: None,
        };
        assert(channel_ids_view(r.subscribed_channels@) =~= Seq::empty());
        r
    }
}

/// Channel information.
#[derive(Debug)]
pub struct ChannelInfo {
    pub id: ChannelId,
    pub name: String,
    pub description: Option<String>,
    pub members: Vec<UserId>,
}

impl View for ChannelInfo {
    type V = ChannelInfoView;

    open spec fn view(&self) -> ChannelInfoView {
        ChannelInfoView {
            id: self.id@,
            name: self.name@,
            description: match self.description {
                Some(d) => Some(d@),
                None => None,
            },
            members: user_ids_view(self.members@),
        }
    }
}

impl Clone for ChannelInfo {
    fn clone(&self) -> (r: Self)
        ensures
            r@ == self@,
    {
        let mut members: Vec<UserId> = Vec::new();
        let n = self.members.len();
        let mut i: usize = 0;
        while i < n
            invariant
                n == self.members@.len(),
                i <= n,
                members@.len() == i,
                forall|j: int| 0 <= j < i ==> #[trigger] members@[j]@ == self.members@[j]@,
            decreases n - i,
        {
            members.push(self.members[i].clone());
            i = i + 1;
        }
        let description = match &self.description {
            Some(d) => Some(d.clone()),
            None => None,
        };
        assert(user_ids_view(members@) =~= user_ids_view(self.members@));
        ChannelInfo { id: self.id.clone(), name: self.name.clone(), description, members }
    }
}

impl ChannelInfo {
    /// A channel with no description and no members.
    pub fn new(id: ChannelId, name: &str) -> (r: Self)
        ensures
            r@ == (ChannelInfoView { id: id@, name: name@, description: None, members: Seq::empty() }),
    {
        let r = ChannelInfo { id, name: name.to_string(), description: None, members: Vec::new() };
        assert(user_ids_view(r.members@) =~= Seq::empty());
        r
    }
}

} // verus!
