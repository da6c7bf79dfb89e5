//! Protocol data model: events, logins and the entities nested in them.
//!
//! Each executable type has a mathematical view (`...V`) over sequences of
//! characters and plain values; the codec's contracts are stated over these
//! views.

use vstd::prelude::*;

use crate::json::{JVal, JsonValue};

verus! {

/// Identity key of one bot account: platform name plus platform-scoped id.
#[derive(PartialEq, Eq, Hash, Debug)]
pub struct BotId {
    pub id: String,
    pub platform: String,
}

/// Mathematical view of a `BotId`.
pub ghost struct BotIdV {
    pub id: Seq<char>,
    pub platform: Seq<char>,
}

impl View for BotId {
    type V = BotIdV;

    open spec fn view(&self) -> BotIdV {
        BotIdV { id: self.id@, platform: self.platform@ }
    }
}

impl DeepView for BotId {
    type V = BotIdV;

    open spec fn deep_view(&self) -> BotIdV {
        self.view()
    }
}

/// Reachability of one bot account as reported over the wire.
#[derive(Clone, Copy, Debug, PartialEq, Eq, Structural)]
pub enum Status {
    Offline,
    Online,
    Connect,
    Disconnect,
    Reconnect,
}

impl View for Status {
    type V = Status;

    open spec fn view(&self) -> Status {
        *self
    }
}

impl DeepView for Status {
    type V = Status;

    open spec fn deep_view(&self) -> Status {
        *self
    }
}

/// Wire code of a status, as carried in the numeric `status` field.
pub open spec fn status_code_spec(s: Status) -> i64 {
    match s {
        Status::Offline => 0,
        Status::Online => 1,
        Status::Connect => 2,
        Status::Disconnect => 3,
        Status::Reconnect => 4,
    }
}

/// Status for a wire code, if the code is known.
pub open spec fn status_from_code_spec(c: i64) -> Option<Status> {
    if c == 0 {
        Some(Status::Offline)
    } else if c == 1 {
        Some(Status::Online)
    } else if c == 2 {
        Some(Status::Connect)
    } else if c == 3 {
        Some(Status::Disconnect)
    } else if c == 4 {
        Some(Status::Reconnect)
    } else {
        None
    }
}

impl Status {
    /// Numeric wire code of this status.
    pub fn code(&self) -> (r: i64)
        ensures
            r == status_code_spec(*self),
    {
        match self {
            Status::Offline => 0,
            Status::Online => 1,
            Status::Connect => 2,
            Status::Disconnect => 3,
            Status::Reconnect => 4,
        }
    }

    /// Status for a numeric wire code; `None` for an unknown code.
    pub fn from_code(c: i64) -> (r: Option<Status>)
        ensures
            r == status_from_code_spec(c),
    {
        if c == 0 {
            Some(Status::Offline)
        } else if c == 1 {
            Some(Status::Online)
        } else if c == 2 {
            Some(Status::Connect)
        } else if c == 3 {
            Some(Status::Disconnect)
        } else if c == 4 {
            Some(Status::Reconnect)
        } else {
            None
        }
    }
}

/// Kind of a channel, carried as a numeric `type` field.
#[derive(Clone, Copy, Debug, PartialEq, Eq, Structural)]
pub enum ChannelType {
    Text,
    Voice,
    Category,
    Direct,
}

impl View for ChannelType {
    type V = ChannelType;

    open spec fn view(&self) -> ChannelType {
        *self
    }
}

impl DeepView for ChannelType {
    type V = ChannelType;

    open spec fn deep_view(&self) -> ChannelType {
        *self
    }
}

/// Wire code of a channel type.
pub open spec fn channel_type_code_spec(t: ChannelType) -> i64 {
    match t {
        ChannelType::Text => 0,
        ChannelType::Voice => 1,
        ChannelType::Category => 2,
        ChannelType::Direct => 3,
    }
}

/// Channel type for a wire code, if the code is known.
pub open spec fn channel_type_from_code_spec(c: i64) -> Option<ChannelType> {
    if c == 0 {
        Some(ChannelType::Text)
    } else if c == 1 {
        Some(ChannelType::Voice)
    } else if c == 2 {
        Some(ChannelType::Category)
    } else if c == 3 {
        Some(ChannelType::Direct)
    } else {
        None
    }
}

impl ChannelType {
    /// Numeric wire code of this channel type.
    pub fn code(&self) -> (r: i64)
        ensures
            r == channel_type_code_spec(*self),
    {
        match self {
            ChannelType::Text => 0,
            ChannelType::Voice => 1,
            ChannelType::Category => 2,
            ChannelType::Direct => 3,
        }
    }

    /// Channel type for a numeric wire code; `None` for an unknown code.
    pub fn from_code(c: i64) -> (r: Option<ChannelType>)
        ensures
            r == channel_type_from_code_spec(c),
    {
        if c == 0 {
            Some(ChannelType::Text)
        } else if c == 1 {
            Some(ChannelType::Voice)
        } else if c == 2 {
            Some(ChannelType::Category)
        } else if c == 3 {
            Some(ChannelType::Direct)
        } else {
            None
        }
    }
}

/// A user as reported by the platform.
#[derive(Debug, PartialEq)]
pub struct User {
    pub id: String,
    pub name: Option<String>,
    pub avatar: Option<String>,
    pub is_bot: Option<bool>,
}

/// Mathematical view of a `User`.
pub ghost struct UserV {
    pub id: Seq<char>,
    pub name: Option<Seq<char>>,
    pub avatar: Option<Seq<char>>,
    pub is_bot: Option<bool>,
}

impl View for User {
    type V = UserV;

    open spec fn view(&self) -> UserV {
        UserV {
            id: self.id@,
            name: self.name.deep_view(),
            avatar: self.avatar.deep_view(),
            is_bot: self.is_bot,
        }
    }
}

impl DeepView for User {
    type V = UserV;

    open spec fn deep_view(&self) -> UserV {
        self.view()
    }
}

/// One bot account's reachability, as announced in a READY frame.
#[derive(Debug, PartialEq)]
pub struct Login {
    pub user: Option<User>,
    pub self_id: Option<String>,
    pub platform: Option<String>,
    pub status: Status,
}

/// Mathematical view of a `Login`.
pub ghost struct LoginV {
    pub user: Option<UserV>,
    pub self_id: Option<Seq<char>>,
    pub platform: Option<Seq<char>>,
    pub status: Status,
}

impl View for Login {
    type V = LoginV;

    open spec fn view(&self) -> LoginV {
        LoginV {
            user: self.user.deep_view(),
            self_id: self.self_id.deep_view(),
            platform: self.platform.deep_view(),
            status: self.status,
        }
    }
}

impl DeepView for Login {
    type V = LoginV;

    open spec fn deep_view(&self) -> LoginV {
        self.view()
    }
}

/// A channel in which events occur.
#[derive(Debug, PartialEq)]
pub struct Channel {
    pub id: String,
    pub name: Option<String>,
    pub ty: ChannelType,
    pub parent_id: Option<String>,
}

/// Mathematical view of a `Channel`.
pub ghost struct ChannelV {
    pub id: Seq<char>,
    pub name: Option<Seq<char>>,
    pub ty: ChannelType,
    pub parent_id: Option<Seq<char>>,
}

impl View for Channel {
    type V = ChannelV;

    open spec fn view(&self) -> ChannelV {
        ChannelV {
            id: self.id@,
            name: self.name.deep_view(),
            ty: self.ty,
            parent_id: self.parent_id.deep_view(),
        }
    }
}

impl DeepView for Channel {
    type V = ChannelV;

    open spec fn deep_view(&self) -> ChannelV {
        self.view()
    }
}

/// A guild (server) in which events occur.
#[derive(Debug, PartialEq)]
pub struct Guild {
    pub id: String,
    pub name: Option<String>,
    pub avatar: Option<String>,
}

/// Mathematical view of a `Guild`.
pub ghost struct GuildV {
    pub id: Seq<char>,
    pub name: Option<Seq<char>>,
    pub avatar: Option<Seq<char>>,
}

impl View for Guild {
    type V = GuildV;

    open spec fn view(&self) -> GuildV {
        GuildV { id: self.id@, name: self.name.deep_view(), avatar: self.avatar.deep_view() }
    }
}

impl DeepView for Guild {
    type V = GuildV;

    open spec fn deep_view(&self) -> GuildV {
        self.view()
    }
}

/// A guild member.
#[derive(Debug, PartialEq)]
pub struct GuildMember {
    pub user: Option<User>,
    pub name: Option<String>,
    pub avatar: Option<String>,
    pub joined_at: Option<i64>,
}

/// Mathematical view of a `GuildMember`.
pub ghost struct GuildMemberV {
    pub user: Option<UserV>,
    pub name: Option<Seq<char>>,
    pub avatar: Option<Seq<char>>,
    pub joined_at: Option<i64>,
}

impl View for GuildMember {
    type V = GuildMemberV;

    open spec fn view(&self) -> GuildMemberV {
        GuildMemberV {
            user: self.user.deep_view(),
            name: self.name.deep_view(),
            avatar: self.avatar.deep_view(),
            joined_at: self.joined_at,
        }
    }
}

impl DeepView for GuildMember {
    type V = GuildMemberV;

    open spec fn deep_view(&self) -> GuildMemberV {
        self.view()
    }
}

/// A guild role.
#[derive(Debug, PartialEq)]
pub struct GuildRole {
    pub id: Option<String>,
    pub name: Option<String>,
}

/// Mathematical view of a `GuildRole`.
pub ghost struct GuildRoleV {
    pub id: Option<Seq<char>>,
    pub name: Option<Seq<char>>,
}

impl View for GuildRole {
    type V = GuildRoleV;

    open spec fn view(&self) -> GuildRoleV {
        GuildRoleV { id: self.id.deep_view(), name: self.name.deep_view() }
    }
}

impl DeepView for GuildRole {
    type V = GuildRoleV;

    open spec fn deep_view(&self) -> GuildRoleV {
        self.view()
    }
}

/// A chat message, as consumers of the relay see it.
#[derive(Debug, PartialEq)]
pub struct Message {
    pub id: String,
    pub content: String,
    pub channel: Option<Channel>,
    pub guild: Option<Guild>,
    pub member: Option<GuildMember>,
    pub user: Option<User>,
    pub created_at: Option<i64>,
    pub updated_at: Option<i64>,
}

/// Mathematical view of a `Message`.
pub ghost struct MessageV {
    pub id: Seq<char>,
    pub content: Seq<char>,
    pub channel: Option<ChannelV>,
    pub guild: Option<GuildV>,
    pub member: Option<GuildMemberV>,
    pub user: Option<UserV>,
    pub created_at: Option<i64>,
    pub updated_at: Option<i64>,
}

impl View for Message {
    type V = MessageV;

    open spec fn view(&self) -> MessageV {
        MessageV {
            id: self.id@,
            content: self.content@,
            channel: self.channel.deep_view(),
            guild: self.guild.deep_view(),
            member: self.member.deep_view(),
            user: self.user.deep_view(),
            created_at: self.created_at,
            updated_at: self.updated_at,
        }
    }
}

impl DeepView for Message {
    type V = MessageV;

    open spec fn deep_view(&self) -> MessageV {
        self.view()
    }
}

/// One protocol event. `extra` carries the members of the wire object that
/// are not part of the fixed schema; they round-trip through the codec
/// losslessly, in order.
#[derive(Debug, PartialEq)]
pub struct Event {
    pub id: i64,
    pub ty: String,
    pub platform: String,
    pub self_id: String,
    pub timestamp: i64,
    pub channel: Option<Channel>,
    pub guild: Option<Guild>,
    pub login: Option<Login>,
    pub member: Option<GuildMember>,
    pub operator: Option<User>,
    pub role: Option<GuildRole>,
    pub user: Option<User>,
    pub extra: Vec<(String, JsonValue)>,
}

/// Mathematical view of an `Event`.
pub ghost struct EventV {
    pub id: i64,
    pub ty: Seq<char>,
    pub platform: Seq<char>,
    pub self_id: Seq<char>,
    pub timestamp: i64,
    pub channel: Option<ChannelV>,
    pub guild: Option<GuildV>,
    pub login: Option<LoginV>,
    pub member: Option<GuildMemberV>,
    pub operator: Option<UserV>,
    pub role: Option<GuildRoleV>,
    pub user: Option<UserV>,
    pub extra: Seq<(Seq<char>, JVal)>,
}

impl View for Event {
    type V = EventV;

    open spec fn view(&self) -> EventV {
        EventV {
            id: self.id,
            ty: self.ty@,
            platform: self.platform@,
            self_id: self.self_id@,
            timestamp: self.timestamp,
            channel: self.channel.deep_view(),
            guild: self.guild.deep_view(),
            login: self.login.deep_view(),
            member: self.member.deep_view(),
            operator: self.operator.deep_view(),
            role: self.role.deep_view(),
            user: self.user.deep_view(),
            extra: crate::json::jmembers_of(self.extra@),
        }
    }
}

impl DeepView for Event {
    type V = EventV;

    open spec fn deep_view(&self) -> EventV {
        self.view()
    }
}


/// A clone of an optional string keeps its view.
pub fn clone_opt_string(o: &Option<String>) -> (r: Option<String>)
    ensures
        r.deep_view() == o.deep_view(),
{
    match o {
        Some(s) => Some(s.clone()),
        None => None,
    }
}

impl Clone for BotId {
    /// A clone has the same view as the original.
    fn clone(&self) -> (r: Self)
        ensures
            r@ == self@,
    {
        BotId { id: self.id.clone(), platform: self.platform.clone() }
    }
}

impl Clone for User {
    /// A clone has the same view as the original.
    fn clone(&self) -> (r: Self)
        ensures
            r@ == self@,
    {
        User {
            id: self.id.clone(),
            name: clone_opt_string(&self.name),
            avatar: clone_opt_string(&self.avatar),
            is_bot: self.is_bot,
        }
    }
}

/// A clone of an optional user keeps its view.
pub fn clone_opt_user(o: &Option<User>) -> (r: Option<User>)
    ensures
        r.deep_view() == o.deep_view(),
{
    match o {
        Some(u) => Some(u.clone()),
        None => None,
    }
}

impl Clone for Login {
    /// A clone has the same view as the original.
    fn clone(&self) -> (r: Self)
        ensures
            r@ == self@,
    {
        Login {
            user: clone_opt_user(&self.user),
            self_id: clone_opt_string(&self.self_id),
            platform: clone_opt_string(&self.platform),
            status: self.status,
        }
    }
}

impl Clone for Channel {
    /// A clone has the same view as the original.
    fn clone(&self) -> (r: Self)
        ensures
            r@ == self@,
    {
        Channel {
            id: self.id.clone(),
            name: clone_opt_string(&self.name),
            ty: self.ty,
            parent_id: clone_opt_string(&self.parent_id),
        }
    }
}

impl Clone for Guild {
    /// A clone has the same view as the original.
    fn clone(&self) -> (r: Self)
        ensures
            r@ == self@,
    {
        Guild {
            id: self.id.clone(),
            name: clone_opt_string(&self.name),
            avatar: clone_opt_string(&self.avatar),
        }
    }
}

impl Clone for GuildMember {
    /// A clone has the same view as the original.
    fn clone(&self) -> (r: Self)
        ensures
            r@ == self@,
    {
        GuildMember {
            user: clone_opt_user(&self.user),
            name: clone_opt_string(&self.name),
            avatar: clone_opt_string(&self.avatar),
            joined_at: self.joined_at,
        }
    }
}

impl Clone for GuildRole {
    /// A clone has the same view as the original.
    fn clone(&self) -> (r: Self)
        ensures
            r@ == self@,
    {
        GuildRole { id: clone_opt_string(&self.id), name: clone_opt_string(&self.name) }
    }
}

/// A clone of an optional channel keeps its view.
pub fn clone_opt_channel(o: &Option<Channel>) -> (r: Option<Channel>)
    ensures
        r.deep_view() == o.deep_view(),
{
    match o {
        Some(c) => Some(c.clone()),
        None => None,
    }
}

/// A clone of an optional guild keeps its view.
pub fn clone_opt_guild(o: &Option<Guild>) -> (r: Option<Guild>)
    ensures
        r.deep_view() == o.deep_view(),
{
    match o {
        Some(g) => Some(g.clone()),
        None => None,
    }
}

/// A clone of an optional guild member keeps its view.
pub fn clone_opt_member(o: &Option<GuildMember>) -> (r: Option<GuildMember>)
    ensures
        r.deep_view() == o.deep_view(),
{
    match o {
        Some(m) => Some(m.clone()),
        None => None,
    }
}

impl Clone for Message {
    /// A clone has the same view as the original.
    fn clone(&self) -> (r: Self)
        ensures
            r@ == self@,
    {
        Message {
            id: self.id.clone(),
            content: self.content.clone(),
            channel: clone_opt_channel(&self.channel),
            guild: clone_opt_guild(&self.guild),
            member: clone_opt_member(&self.member),
            user: clone_opt_user(&self.user),
            created_at: self.created_at,
            updated_at: self.updated_at,
        }
    }
}

impl Clone for Event {
    /// A clone has the same view as the original.
    fn clone(&self) -> (r: Self)
        ensures
            r@ == self@,
    {
        let mut extra: Vec<(String, JsonValue)> = Vec::new();
        let n = self.extra.len();
        for i in 0..n
            invariant
                n == self.extra.len(),
                extra.len() == i,
                forall|k: int|
                    0 <= k < i ==> extra@[k].0@ == self.extra@[k].0@ && extra@[k].1@
                        == self.extra@[k].1@,
        {
            extra.push((self.extra[i].0.clone(), self.extra[i].1.clone()));
        }
        proof {
            crate::json::lemma_jmembers_of(extra@);
            crate::json::lemma_jmembers_of(self.extra@);
            assert(crate::json::jmembers_of(extra@) =~= crate::json::jmembers_of(self.extra@));
        }
        Event {
            id: self.id,
            ty: self.ty.clone(),
            platform: self.platform.clone(),
            self_id: self.self_id.clone(),
            timestamp: self.timestamp,
            channel: clone_opt_channel(&self.channel),
            guild: clone_opt_guild(&self.guild),
            login: match &self.login {
                Some(l) => Some(l.clone()),
                None => None,
            },
            member: clone_opt_member(&self.member),
            operator: clone_opt_user(&self.operator),
            role: match &self.role {
                Some(ro) => Some(ro.clone()),
                None => None,
            },
            user: clone_opt_user(&self.user),
            extra,
        }
    }
}

} // verus!
