//! Signal wire codec.
//!
//! A `Signal` is the closed op-tagged envelope exchanged over the event
//! stream. Decoding is two-stage: the `op` member picks the variant, then the
//! `body` is checked against that variant's schema. An unrecognized op is a
//! typed, recoverable protocol violation; a body that does not match its op's
//! schema is a malformed-frame error. Unknown members of an event object are
//! preserved, in order, in the event's extension list.

use vstd::prelude::*;

use crate::json::{
    jmembers_of, jval_of, jvals_of, lemma_jmembers_of, lemma_jvals_of, obj_get, obj_get_spec, JVal,
    JsonValue,
};
use crate::structs::{
    channel_type_from_code_spec, status_from_code_spec, Channel, ChannelType, ChannelV, Event,
    EventV, Guild, GuildMember, GuildMemberV, GuildRole, GuildRoleV, GuildV, Login, LoginV, Status,
    User, UserV,
};
use vstd::string::StringExecFns;

verus! {

/// Why a frame failed to decode.
#[derive(Clone, Copy, Debug, PartialEq, Eq, Structural)]
pub enum DecodeError {
    /// The envelope carried an op outside the protocol's closed set. This is
    /// a protocol violation: the caller closes the offending connection.
    UnknownOp(i64),
    /// The envelope or a body did not match its schema. The caller logs and
    /// drops the frame.
    Malformed,
}

/// Optional string member: absent or null is `None`; a string is `Some`;
/// anything else fails (outer `None`).
pub open spec fn opt_string_field(o: Seq<(Seq<char>, JVal)>, key: Seq<char>) -> Option<
    Option<Seq<char>>,
> {
    match obj_get_spec(o, key) {
        Option::None => Some(Option::None),
        Some(JVal::Null) => Some(Option::None),
        Some(JVal::Str(s)) => Some(Some(s)),
        Some(_) => None,
    }
}

/// Required string member: anything but a string fails.
pub open spec fn req_string_field(o: Seq<(Seq<char>, JVal)>, key: Seq<char>) -> Option<Seq<char>> {
    match obj_get_spec(o, key) {
        Some(JVal::Str(s)) => Some(s),
        _ => None,
    }
}

/// Required integer member: anything but an integer fails.
pub open spec fn req_int_field(o: Seq<(Seq<char>, JVal)>, key: Seq<char>) -> Option<i64> {
    match obj_get_spec(o, key) {
        Some(JVal::Int(i)) => Some(i),
        _ => None,
    }
}

/// Optional integer member: absent or null is `None`; an integer is `Some`;
/// anything else fails (outer `None`).
pub open spec fn opt_int_field(o: Seq<(Seq<char>, JVal)>, key: Seq<char>) -> Option<Option<i64>> {
    match obj_get_spec(o, key) {
        Option::None => Some(Option::None),
        Some(JVal::Null) => Some(Option::None),
        Some(JVal::Int(i)) => Some(Some(i)),
        Some(_) => None,
    }
}

/// Optional boolean member: absent or null is `None`; a boolean is `Some`;
/// anything else fails (outer `None`).
pub open spec fn opt_bool_field(o: Seq<(Seq<char>, JVal)>, key: Seq<char>) -> Option<Option<bool>> {
    match obj_get_spec(o, key) {
        Option::None => Some(Option::None),
        Some(JVal::Null) => Some(Option::None),
        Some(JVal::Bool(b)) => Some(Some(b)),
        Some(_) => None,
    }
}

/// Read an optional string member of an object.
pub fn get_opt_string(members: &Vec<(String, JsonValue)>, key: &String) -> (r: Result<
    Option<String>,
    DecodeError,
>)
    ensures
        match r {
            Ok(s) => opt_string_field(jmembers_of(members@), key@) == Some(s.deep_view()),
            Err(e) => opt_string_field(jmembers_of(members@), key@) is None && e
                == DecodeError::Malformed,
        },
{
    match obj_get(members, key) {
        Option::None => Ok(Option::None),
        Some(JsonValue::Null) => Ok(Option::None),
        Some(JsonValue::Str(s)) => Ok(Some(s.clone())),
        Some(_) => Err(DecodeError::Malformed),
    }
}

/// Read a required string member of an object.
pub fn get_req_string(members: &Vec<(String, JsonValue)>, key: &String) -> (r: Result<
    String,
    DecodeError,
>)
    ensures
        match r {
            Ok(s) => req_string_field(jmembers_of(members@), key@) == Some(s@),
            Err(e) => req_string_field(jmembers_of(members@), key@) is None && e
                == DecodeError::Malformed,
        },
{
    match obj_get(members, key) {
        Some(JsonValue::Str(s)) => Ok(s.clone()),
        _ => Err(DecodeError::Malformed),
    }
}

/// Read a required integer member of an object.
pub fn get_req_int(members: &Vec<(String, JsonValue)>, key: &String) -> (r: Result<
    i64,
    DecodeError,
>)
    ensures
        match r {
            Ok(i) => req_int_field(jmembers_of(members@), key@) == Some(i),
            Err(e) => req_int_field(jmembers_of(members@), key@) is None && e
                == DecodeError::Malformed,
        },
{
    match obj_get(members, key) {
        Some(JsonValue::Int(i)) => Ok(*i),
        _ => Err(DecodeError::Malformed),
    }
}

/// Read an optional integer member of an object.
pub fn get_opt_int(members: &Vec<(String, JsonValue)>, key: &String) -> (r: Result<
    Option<i64>,
    DecodeError,
>)
    ensures
        match r {
            Ok(i) => opt_int_field(jmembers_of(members@), key@) == Some(i),
            Err(e) => opt_int_field(jmembers_of(members@), key@) is None && e
                == DecodeError::Malformed,
        },
{
    match obj_get(members, key) {
        Option::None => Ok(Option::None),
        Some(JsonValue::Null) => Ok(Option::None),
        Some(JsonValue::Int(i)) => Ok(Some(*i)),
        Some(_) => Err(DecodeError::Malformed),
    }
}

/// Read an optional boolean member of an object.
pub fn get_opt_bool(members: &Vec<(String, JsonValue)>, key: &String) -> (r: Result<
    Option<bool>,
    DecodeError,
>)
    ensures
        match r {
            Ok(b) => opt_bool_field(jmembers_of(members@), key@) == Some(b),
            Err(e) => opt_bool_field(jmembers_of(members@), key@) is None && e
                == DecodeError::Malformed,
        },
{
    match obj_get(members, key) {
        Option::None => Ok(Option::None),
        Some(JsonValue::Null) => Ok(Option::None),
        Some(JsonValue::Bool(b)) => Ok(Some(*b)),
        Some(_) => Err(DecodeError::Malformed),
    }
}

/// JSON member value for an optional string: null when absent.
pub open spec fn opt_str_jval(o: Option<Seq<char>>) -> JVal {
    match o {
        Some(s) => JVal::Str(s),
        Option::None => JVal::Null,
    }
}

/// JSON member value for an optional integer: null when absent.
pub open spec fn opt_int_jval(o: Option<i64>) -> JVal {
    match o {
        Some(i) => JVal::Int(i),
        Option::None => JVal::Null,
    }
}

/// JSON member value for an optional boolean: null when absent.
pub open spec fn opt_bool_jval(o: Option<bool>) -> JVal {
    match o {
        Some(b) => JVal::Bool(b),
        Option::None => JVal::Null,
    }
}

/// Encoding of a user.
pub open spec fn user_jval(u: UserV) -> JVal {
    JVal::Obj(
        seq![
            ("id"@, JVal::Str(u.id)),
            ("name"@, opt_str_jval(u.name)),
            ("avatar"@, opt_str_jval(u.avatar)),
            ("is_bot"@, opt_bool_jval(u.is_bot)),
        ],
    )
}

/// Decoding of a user object.
pub open spec fn decode_user_spec(v: JVal) -> Option<UserV> {
    match v {
        JVal::Obj(o) => {
            match (
                req_string_field(o, "id"@),
                opt_string_field(o, "name"@),
                opt_string_field(o, "avatar"@),
                opt_bool_field(o, "is_bot"@),
            ) {
                (Some(id), Some(name), Some(avatar), Some(is_bot)) => Some(
                    UserV { id, name, avatar, is_bot },
                ),
                _ => None,
            }
        },
        _ => None,
    }
}

/// Build the executable JSON member value for an optional string.
pub fn opt_str_value(o: &Option<String>) -> (r: JsonValue)
    ensures
        r@ == opt_str_jval(o.deep_view()),
{
    match o {
        Some(s) => JsonValue::Str(s.clone()),
        Option::None => JsonValue::Null,
    }
}

/// Encode a user as a JSON object.
pub fn encode_user(u: &User) -> (r: JsonValue)
    ensures
        r@ == user_jval(u@),
{
    let mut m: Vec<(String, JsonValue)> = Vec::new();
    m.push((String::from_str("id"), JsonValue::Str(u.id.clone())));
    m.push((String::from_str("name"), opt_str_value(&u.name)));
    m.push((String::from_str("avatar"), opt_str_value(&u.avatar)));
    m.push(
        (
            String::from_str("is_bot"),
            match u.is_bot {
                Some(b) => JsonValue::Bool(b),
                Option::None => JsonValue::Null,
            },
        ),
    );
    proof {
        lemma_jmembers_of(m@);
        assert(jmembers_of(m@) =~= user_jval(u@)->Obj_0);
    }
    JsonValue::Obj(m)
}

/// Decode a user from a JSON value.
pub fn decode_user(v: &JsonValue) -> (r: Result<User, DecodeError>)
    ensures
        match r {
            Ok(u) => decode_user_spec(v@) == Some(u@),
            Err(e) => decode_user_spec(v@) is None && e == DecodeError::Malformed,
        },
{
    match v {
        JsonValue::Obj(m) => {
            let id = match get_req_string(m, &String::from_str("id")) {
                Ok(s) => s,
                Err(e) => {
                    return Err(e);
                },
            };
            let name = match get_opt_string(m, &String::from_str("name")) {
                Ok(s) => s,
                Err(e) => {
                    return Err(e);
                },
            };
            let avatar = match get_opt_string(m, &String::from_str("avatar")) {
                Ok(s) => s,
                Err(e) => {
                    return Err(e);
                },
            };
            let is_bot = match get_opt_bool(m, &String::from_str("is_bot")) {
                Ok(b) => b,
                Err(e) => {
                    return Err(e);
                },
            };
            Ok(User { id, name, avatar, is_bot })
        },
        _ => Err(DecodeError::Malformed),
    }
}

/// A decoded user encodes back to the canonical user object.
pub proof fn lemma_user_round_trip(u: UserV)
    ensures
        decode_user_spec(user_jval(u)) == Some(u),
{
    reveal_strlit("id");
    reveal_strlit("name");
    reveal_strlit("avatar");
    reveal_strlit("is_bot");
    let o = user_jval(u)->Obj_0;
    assert(o[0].0 == "id"@ && o[1].0 == "name"@ && o[2].0 == "avatar"@ && o[3].0 == "is_bot"@);
    assert("id"@.len() == 2 && "name"@.len() == 4 && "avatar"@.len() == 6 && "is_bot"@.len() == 6);
    assert("avatar"@[0] == 'a' && "is_bot"@[0] == 'i');
    crate::json::lemma_obj_get_at(o, 0);
    crate::json::lemma_obj_get_at(o, 1);
    crate::json::lemma_obj_get_at(o, 2);
    crate::json::lemma_obj_get_at(o, 3);
}


/// JSON member value for an optional user: null when absent.
pub open spec fn opt_user_jval(o: Option<UserV>) -> JVal {
    match o {
        Some(u) => user_jval(u),
        Option::None => JVal::Null,
    }
}

/// Optional user member: absent or null is `None`; a user object is `Some`;
/// anything else fails (outer `None`).
pub open spec fn opt_user_field(o: Seq<(Seq<char>, JVal)>, key: Seq<char>) -> Option<Option<UserV>> {
    match obj_get_spec(o, key) {
        Option::None => Some(Option::None),
        Some(JVal::Null) => Some(Option::None),
        Some(v) => match decode_user_spec(v) {
            Some(u) => Some(Some(u)),
            Option::None => None,
        },
    }
}

/// Build the executable JSON member value for an optional user.
pub fn opt_user_value(o: &Option<User>) -> (r: JsonValue)
    ensures
        r@ == opt_user_jval(o.deep_view()),
{
    match o {
        Some(u) => encode_user(u),
        Option::None => JsonValue::Null,
    }
}

/// Read an optional user member of an object.
pub fn get_opt_user(members: &Vec<(String, JsonValue)>, key: &String) -> (r: Result<
    Option<User>,
    DecodeError,
>)
    ensures
        match r {
            Ok(u) => opt_user_field(jmembers_of(members@), key@) == Some(u.deep_view()),
            Err(e) => opt_user_field(jmembers_of(members@), key@) is None && e
                == DecodeError::Malformed,
        },
{
    match obj_get(members, key) {
        Option::None => Ok(Option::None),
        Some(JsonValue::Null) => Ok(Option::None),
        Some(v) => match decode_user(v) {
            Ok(u) => Ok(Some(u)),
            Err(e) => Err(e),
        },
    }
}

/// Encoding of a channel.
pub open spec fn channel_jval(c: ChannelV) -> JVal {
    JVal::Obj(
        seq![
            ("id"@, JVal::Str(c.id)),
            ("name"@, opt_str_jval(c.name)),
            ("type"@, JVal::Int(crate::structs::channel_type_code_spec(c.ty))),
            ("parent_id"@, opt_str_jval(c.parent_id)),
        ],
    )
}

/// Decoding of a channel object.
pub open spec fn decode_channel_spec(v: JVal) -> Option<ChannelV> {
    match v {
        JVal::Obj(o) => {
            match (
                req_string_field(o, "id"@),
                opt_string_field(o, "name"@),
                req_int_field(o, "type"@),
                opt_string_field(o, "parent_id"@),
            ) {
                (Some(id), Some(name), Some(code), Some(parent_id)) => match channel_type_from_code_spec(
                    code,
                ) {
                    Some(ty) => Some(ChannelV { id, name, ty, parent_id }),
                    Option::None => None,
                },
                _ => None,
            }
        },
        _ => None,
    }
}

/// Encode a channel as a JSON object.
pub fn encode_channel(c: &Channel) -> (r: JsonValue)
    ensures
        r@ == channel_jval(c@),
{
    let mut m: Vec<(String, JsonValue)> = Vec::new();
    m.push((String::from_str("id"), JsonValue::Str(c.id.clone())));
    m.push((String::from_str("name"), opt_str_value(&c.name)));
    m.push((String::from_str("type"), JsonValue::Int(c.ty.code())));
    m.push((String::from_str("parent_id"), opt_str_value(&c.parent_id)));
    proof {
        lemma_jmembers_of(m@);
        assert(jmembers_of(m@) =~= channel_jval(c@)->Obj_0);
    }
    JsonValue::Obj(m)
}

/// Decode a channel from a JSON value.
pub fn decode_channel(v: &JsonValue) -> (r: Result<Channel, DecodeError>)
    ensures
        match r {
            Ok(c) => decode_channel_spec(v@) == Some(c@),
            Err(e) => decode_channel_spec(v@) is None && e == DecodeError::Malformed,
        },
{
    match v {
        JsonValue::Obj(m) => {
            let id = match get_req_string(m, &String::from_str("id")) {
                Ok(s) => s,
                Err(e) => {
                    return Err(e);
                },
            };
            let name = match get_opt_string(m, &String::from_str("name")) {
                Ok(s) => s,
                Err(e) => {
                    return Err(e);
                },
            };
            let code = match get_req_int(m, &String::from_str("type")) {
                Ok(i) => i,
                Err(e) => {
                    return Err(e);
                },
            };
            let ty = match ChannelType::from_code(code) {
                Some(t) => t,
                Option::None => {
                    return Err(DecodeError::Malformed);
                },
            };
            let parent_id = match get_opt_string(m, &String::from_str("parent_id")) {
                Ok(s) => s,
                Err(e) => {
                    return Err(e);
                },
            };
            Ok(Channel { id, name, ty, parent_id })
        },
        _ => Err(DecodeError::Malformed),
    }
}

/// A channel encodes and decodes back to itself.
pub proof fn lemma_channel_round_trip(c: ChannelV)
    ensures
        decode_channel_spec(channel_jval(c)) == Some(c),
{
    reveal_strlit("id");
    reveal_strlit("name");
    reveal_strlit("type");
    reveal_strlit("parent_id");
    let o = channel_jval(c)->Obj_0;
    assert(o[0].0 == "id"@ && o[1].0 == "name"@ && o[2].0 == "type"@ && o[3].0 == "parent_id"@);
    assert("id"@.len() == 2 && "name"@.len() == 4 && "type"@.len() == 4 && "parent_id"@.len() == 9);
    assert("name"@[0] == 'n' && "type"@[0] == 't');
    crate::json::lemma_obj_get_at(o, 0);
    crate::json::lemma_obj_get_at(o, 1);
    crate::json::lemma_obj_get_at(o, 2);
    crate::json::lemma_obj_get_at(o, 3);
}

/// Encoding of a guild.
pub open spec fn guild_jval(g: GuildV) -> JVal {
    JVal::Obj(
        seq![
            ("id"@, JVal::Str(g.id)),
            ("name"@, opt_str_jval(g.name)),
            ("avatar"@, opt_str_jval(g.avatar)),
        ],
    )
}

/// Decoding of a guild object.
pub open spec fn decode_guild_spec(v: JVal) -> Option<GuildV> {
    match v {
        JVal::Obj(o) => {
            match (
                req_string_field(o, "id"@),
                opt_string_field(o, "name"@),
                opt_string_field(o, "avatar"@),
            ) {
                (Some(id), Some(name), Some(avatar)) => Some(GuildV { id, name, avatar }),
                _ => None,
            }
        },
        _ => None,
    }
}

/// Encode a guild as a JSON object.
pub fn encode_guild(g: &Guild) -> (r: JsonValue)
    ensures
        r@ == guild_jval(g@),
{
    let mut m: Vec<(String, JsonValue)> = Vec::new();
    m.push((String::from_str("id"), JsonValue::Str(g.id.clone())));
    m.push((String::from_str("name"), opt_str_value(&g.name)));
    m.push((String::from_str("avatar"), opt_str_value(&g.avatar)));
    proof {
        lemma_jmembers_of(m@);
        assert(jmembers_of(m@) =~= guild_jval(g@)->Obj_0);
    }
    JsonValue::Obj(m)
}

/// Decode a guild from a JSON value.
pub fn decode_guild(v: &JsonValue) -> (r: Result<Guild, DecodeError>)
    ensures
        match r {
            Ok(g) => decode_guild_spec(v@) == Some(g@),
            Err(e) => decode_guild_spec(v@) is None && e == DecodeError::Malformed,
        },
{
    match v {
        JsonValue::Obj(m) => {
            let id = match get_req_string(m, &String::from_str("id")) {
                Ok(s) => s,
                Err(e) => {
                    return Err(e);
                },
            };
            let name = match get_opt_string(m, &String::from_str("name")) {
                Ok(s) => s,
                Err(e) => {
                    return Err(e);
                },
            };
            let avatar = match get_opt_string(m, &String::from_str("avatar")) {
                Ok(s) => s,
                Err(e) => {
                    return Err(e);
                },
            };
            Ok(Guild { id, name, avatar })
        },
        _ => Err(DecodeError::Malformed),
    }
}

/// A guild encodes and decodes back to itself.
pub proof fn lemma_guild_round_trip(g: GuildV)
    ensures
        decode_guild_spec(guild_jval(g)) == Some(g),
{
    reveal_strlit("id");
    reveal_strlit("name");
    reveal_strlit("avatar");
    let o = guild_jval(g)->Obj_0;
    assert(o[0].0 == "id"@ && o[1].0 == "name"@ && o[2].0 == "avatar"@);
    assert("id"@.len() == 2 && "name"@.len() == 4 && "avatar"@.len() == 6);
    crate::json::lemma_obj_get_at(o, 0);
    crate::json::lemma_obj_get_at(o, 1);
    crate::json::lemma_obj_get_at(o, 2);
}

/// Encoding of a guild role.
pub open spec fn role_jval(r: GuildRoleV) -> JVal {
    JVal::Obj(seq![("id"@, opt_str_jval(r.id)), ("name"@, opt_str_jval(r.name))])
}

/// Decoding of a guild role object.
pub open spec fn decode_role_spec(v: JVal) -> Option<GuildRoleV> {
    match v {
        JVal::Obj(o) => {
            match (opt_string_field(o, "id"@), opt_string_field(o, "name"@)) {
                (Some(id), Some(name)) => Some(GuildRoleV { id, name }),
                _ => None,
            }
        },
        _ => None,
    }
}

/// Encode a guild role as a JSON object.
pub fn encode_role(r: &GuildRole) -> (res: JsonValue)
    ensures
        res@ == role_jval(r@),
{
    let mut m: Vec<(String, JsonValue)> = Vec::new();
    m.push((String::from_str("id"), opt_str_value(&r.id)));
    m.push((String::from_str("name"), opt_str_value(&r.name)));
    proof {
        lemma_jmembers_of(m@);
        assert(jmembers_of(m@) =~= role_jval(r@)->Obj_0);
    }
    JsonValue::Obj(m)
}

/// Decode a guild role from a JSON value.
pub fn decode_role(v: &JsonValue) -> (res: Result<GuildRole, DecodeError>)
    ensures
        match res {
            Ok(r) => decode_role_spec(v@) == Some(r@),
            Err(e) => decode_role_spec(v@) is None && e == DecodeError::Malformed,
        },
{
    match v {
        JsonValue::Obj(m) => {
            let id = match get_opt_string(m, &String::from_str("id")) {
                Ok(s) => s,
                Err(e) => {
                    return Err(e);
                },
            };
            let name = match get_opt_string(m, &String::from_str("name")) {
                Ok(s) => s,
                Err(e) => {
                    return Err(e);
                },
            };
            Ok(GuildRole { id, name })
        },
        _ => Err(DecodeError::Malformed),
    }
}

/// A guild role encodes and decodes back to itself.
pub proof fn lemma_role_round_trip(r: GuildRoleV)
    ensures
        decode_role_spec(role_jval(r)) == Some(r),
{
    reveal_strlit("id");
    reveal_strlit("name");
    let o = role_jval(r)->Obj_0;
    assert(o[0].0 == "id"@ && o[1].0 == "name"@);
    assert("id"@.len() == 2 && "name"@.len() == 4);
    crate::json::lemma_obj_get_at(o, 0);
    crate::json::lemma_obj_get_at(o, 1);
}

/// Encoding of a guild member.
pub open spec fn member_jval(m: GuildMemberV) -> JVal {
    JVal::Obj(
        seq![
            ("user"@, opt_user_jval(m.user)),
            ("name"@, opt_str_jval(m.name)),
            ("avatar"@, opt_str_jval(m.avatar)),
            ("joined_at"@, opt_int_jval(m.joined_at)),
        ],
    )
}

/// Decoding of a guild member object.
pub open spec fn decode_member_spec(v: JVal) -> Option<GuildMemberV> {
    match v {
        JVal::Obj(o) => {
            match (
                opt_user_field(o, "user"@),
                opt_string_field(o, "name"@),
                opt_string_field(o, "avatar"@),
                opt_int_field(o, "joined_at"@),
            ) {
                (Some(user), Some(name), Some(avatar), Some(joined_at)) => Some(
                    GuildMemberV { user, name, avatar, joined_at },
                ),
                _ => None,
            }
        },
        _ => None,
    }
}

/// Encode a guild member as a JSON object.
pub fn encode_member(gm: &GuildMember) -> (r: JsonValue)
    ensures
        r@ == member_jval(gm@),
{
    let mut m: Vec<(String, JsonValue)> = Vec::new();
    m.push((String::from_str("user"), opt_user_value(&gm.user)));
    m.push((String::from_str("name"), opt_str_value(&gm.name)));
    m.push((String::from_str("avatar"), opt_str_value(&gm.avatar)));
    m.push(
        (
            String::from_str("joined_at"),
            match gm.joined_at {
                Some(i) => JsonValue::Int(i),
                Option::None => JsonValue::Null,
            },
        ),
    );
    proof {
        lemma_jmembers_of(m@);
        assert(jmembers_of(m@) =~= member_jval(gm@)->Obj_0);
    }
    JsonValue::Obj(m)
}

/// Decode a guild member from a JSON value.
pub fn decode_member(v: &JsonValue) -> (r: Result<GuildMember, DecodeError>)
    ensures
        match r {
            Ok(gm) => decode_member_spec(v@) == Some(gm@),
            Err(e) => decode_member_spec(v@) is None && e == DecodeError::Malformed,
        },
{
    match v {
        JsonValue::Obj(m) => {
            let user = match get_opt_user(m, &String::from_str("user")) {
                Ok(u) => u,
                Err(e) => {
                    return Err(e);
                },
            };
            let name = match get_opt_string(m, &String::from_str("name")) {
                Ok(s) => s,
                Err(e) => {
                    return Err(e);
                },
            };
            let avatar = match get_opt_string(m, &String::from_str("avatar")) {
                Ok(s) => s,
                Err(e) => {
                    return Err(e);
                },
            };
            let joined_at = match get_opt_int(m, &String::from_str("joined_at")) {
                Ok(i) => i,
                Err(e) => {
                    return Err(e);
                },
            };
            Ok(GuildMember { user, name, avatar, joined_at })
        },
        _ => Err(DecodeError::Malformed),
    }
}

/// A guild member encodes and decodes back to itself.
pub proof fn lemma_member_round_trip(m: GuildMemberV)
    ensures
        decode_member_spec(member_jval(m)) == Some(m),
{
    reveal_strlit("user");
    reveal_strlit("name");
    reveal_strlit("avatar");
    reveal_strlit("joined_at");
    let o = member_jval(m)->Obj_0;
    assert(o[0].0 == "user"@ && o[1].0 == "name"@ && o[2].0 == "avatar"@ && o[3].0
        == "joined_at"@);
    assert("user"@.len() == 4 && "name"@.len() == 4 && "avatar"@.len() == 6 && "joined_at"@.len()
        == 9);
    assert("user"@[0] == 'u' && "name"@[0] == 'n');
    crate::json::lemma_obj_get_at(o, 0);
    crate::json::lemma_obj_get_at(o, 1);
    crate::json::lemma_obj_get_at(o, 2);
    crate::json::lemma_obj_get_at(o, 3);
    if m.user is Some {
        lemma_user_round_trip(m.user.unwrap());
    }
}

/// Encoding of a login.
pub open spec fn login_jval(l: LoginV) -> JVal {
    JVal::Obj(
        seq![
            ("user"@, opt_user_jval(l.user)),
            ("self_id"@, opt_str_jval(l.self_id)),
            ("platform"@, opt_str_jval(l.platform)),
            ("status"@, JVal::Int(crate::structs::status_code_spec(l.status))),
        ],
    )
}

/// Decoding of a login object.
pub open spec fn decode_login_spec(v: JVal) -> Option<LoginV> {
    match v {
        JVal::Obj(o) => {
            match (
                opt_user_field(o, "user"@),
                opt_string_field(o, "self_id"@),
                opt_string_field(o, "platform"@),
                req_int_field(o, "status"@),
            ) {
                (Some(user), Some(self_id), Some(platform), Some(code)) => match status_from_code_spec(
                    code,
                ) {
                    Some(status) => Some(LoginV { user, self_id, platform, status }),
                    Option::None => None,
                },
                _ => None,
            }
        },
        _ => None,
    }
}

/// Encode a login as a JSON object.
pub fn encode_login(l: &Login) -> (r: JsonValue)
    ensures
        r@ == login_jval(l@),
{
    let mut m: Vec<(String, JsonValue)> = Vec::new();
    m.push((String::from_str("user"), opt_user_value(&l.user)));
    m.push((String::from_str("self_id"), opt_str_value(&l.self_id)));
    m.push((String::from_str("platform"), opt_str_value(&l.platform)));
    m.push((String::from_str("status"), JsonValue::Int(l.status.code())));
    proof {
        lemma_jmembers_of(m@);
        assert(jmembers_of(m@) =~= login_jval(l@)->Obj_0);
    }
    JsonValue::Obj(m)
}

/// Decode a login from a JSON value.
pub fn decode_login(v: &JsonValue) -> (r: Result<Login, DecodeError>)
    ensures
        match r {
            Ok(l) => decode_login_spec(v@) == Some(l@),
            Err(e) => decode_login_spec(v@) is None && e == DecodeError::Malformed,
        },
{
    match v {
        JsonValue::Obj(m) => {
            let user = match get_opt_user(m, &String::from_str("user")) {
                Ok(u) => u,
                Err(e) => {
                    return Err(e);
                },
            };
            let self_id = match get_opt_string(m, &String::from_str("self_id")) {
                Ok(s) => s,
                Err(e) => {
                    return Err(e);
                },
            };
            let platform = match get_opt_string(m, &String::from_str("platform")) {
                Ok(s) => s,
                Err(e) => {
                    return Err(e);
                },
            };
            let code = match get_req_int(m, &String::from_str("status")) {
                Ok(i) => i,
                Err(e) => {
                    return Err(e);
                },
            };
            let status = match Status::from_code(code) {
                Some(st) => st,
                Option::None => {
                    return Err(DecodeError::Malformed);
                },
            };
            Ok(Login { user, self_id, platform, status })
        },
        _ => Err(DecodeError::Malformed),
    }
}

/// A login encodes and decodes back to itself.
pub proof fn lemma_login_round_trip(l: LoginV)
    ensures
        decode_login_spec(login_jval(l)) == Some(l),
{
    reveal_strlit("user");
    reveal_strlit("self_id");
    reveal_strlit("platform");
    reveal_strlit("status");
    let o = login_jval(l)->Obj_0;
    assert(o[0].0 == "user"@ && o[1].0 == "self_id"@ && o[2].0 == "platform"@ && o[3].0
        == "status"@);
    assert("user"@.len() == 4 && "self_id"@.len() == 7 && "platform"@.len() == 8
        && "status"@.len() == 6);
    crate::json::lemma_obj_get_at(o, 0);
    crate::json::lemma_obj_get_at(o, 1);
    crate::json::lemma_obj_get_at(o, 2);
    crate::json::lemma_obj_get_at(o, 3);
    if l.user is Some {
        lemma_user_round_trip(l.user.unwrap());
    }
}


/// JSON member value for an optional channel: null when absent.
pub open spec fn opt_channel_jval(o: Option<ChannelV>) -> JVal {
    match o {
        Some(c) => channel_jval(c),
        Option::None => JVal::Null,
    }
}

/// JSON member value for an optional guild: null when absent.
pub open spec fn opt_guild_jval(o: Option<GuildV>) -> JVal {
    match o {
        Some(g) => guild_jval(g),
        Option::None => JVal::Null,
    }
}

/// JSON member value for an optional login: null when absent.
pub open spec fn opt_login_jval(o: Option<LoginV>) -> JVal {
    match o {
        Some(l) => login_jval(l),
        Option::None => JVal::Null,
    }
}

/// JSON member value for an optional guild member: null when absent.
pub open spec fn opt_member_jval(o: Option<GuildMemberV>) -> JVal {
    match o {
        Some(m) => member_jval(m),
        Option::None => JVal::Null,
    }
}

/// JSON member value for an optional guild role: null when absent.
pub open spec fn opt_role_jval(o: Option<GuildRoleV>) -> JVal {
    match o {
        Some(r) => role_jval(r),
        Option::None => JVal::Null,
    }
}

/// Optional channel member of an object.
pub open spec fn opt_channel_field(o: Seq<(Seq<char>, JVal)>, key: Seq<char>) -> Option<
    Option<ChannelV>,
> {
    match obj_get_spec(o, key) {
        Option::None => Some(Option::None),
        Some(JVal::Null) => Some(Option::None),
        Some(v) => match decode_channel_spec(v) {
            Some(c) => Some(Some(c)),
            Option::None => None,
        },
    }
}

/// Optional guild member of an object.
pub open spec fn opt_guild_field(o: Seq<(Seq<char>, JVal)>, key: Seq<char>) -> Option<
    Option<GuildV>,
> {
    match obj_get_spec(o, key) {
        Option::None => Some(Option::None),
        Some(JVal::Null) => Some(Option::None),
        Some(v) => match decode_guild_spec(v) {
            Some(g) => Some(Some(g)),
            Option::None => None,
        },
    }
}

/// Optional login member of an object.
pub open spec fn opt_login_field(o: Seq<(Seq<char>, JVal)>, key: Seq<char>) -> Option<
    Option<LoginV>,
> {
    match obj_get_spec(o, key) {
        Option::None => Some(Option::None),
        Some(JVal::Null) => Some(Option::None),
        Some(v) => match decode_login_spec(v) {
            Some(l) => Some(Some(l)),
            Option::None => None,
        },
    }
}

/// Optional guild-member member of an object.
pub open spec fn opt_member_field(o: Seq<(Seq<char>, JVal)>, key: Seq<char>) -> Option<
    Option<GuildMemberV>,
> {
    match obj_get_spec(o, key) {
        Option::None => Some(Option::None),
        Some(JVal::Null) => Some(Option::None),
        Some(v) => match decode_member_spec(v) {
            Some(m) => Some(Some(m)),
            Option::None => None,
        },
    }
}

/// Optional guild-role member of an object.
pub open spec fn opt_role_field(o: Seq<(Seq<char>, JVal)>, key: Seq<char>) -> Option<
    Option<GuildRoleV>,
> {
    match obj_get_spec(o, key) {
        Option::None => Some(Option::None),
        Some(JVal::Null) => Some(Option::None),
        Some(v) => match decode_role_spec(v) {
            Some(r) => Some(Some(r)),
            Option::None => None,
        },
    }
}

/// Read an optional channel member of an object.
pub fn get_opt_channel(members: &Vec<(String, JsonValue)>, key: &String) -> (r: Result<
    Option<Channel>,
    DecodeError,
>)
    ensures
        match r {
            Ok(c) => opt_channel_field(jmembers_of(members@), key@) == Some(c.deep_view()),
            Err(e) => opt_channel_field(jmembers_of(members@), key@) is None && e
                == DecodeError::Malformed,
        },
{
    match obj_get(members, key) {
        Option::None => Ok(Option::None),
        Some(JsonValue::Null) => Ok(Option::None),
        Some(v) => match decode_channel(v) {
            Ok(c) => Ok(Some(c)),
            Err(e) => Err(e),
        },
    }
}

/// Read an optional guild member of an object.
pub fn get_opt_guild(members: &Vec<(String, JsonValue)>, key: &String) -> (r: Result<
    Option<Guild>,
    DecodeError,
>)
    ensures
        match r {
            Ok(g) => opt_guild_field(jmembers_of(members@), key@) == Some(g.deep_view()),
            Err(e) => opt_guild_field(jmembers_of(members@), key@) is None && e
                == DecodeError::Malformed,
        },
{
    match obj_get(members, key) {
        Option::None => Ok(Option::None),
        Some(JsonValue::Null) => Ok(Option::None),
        Some(v) => match decode_guild(v) {
            Ok(g) => Ok(Some(g)),
            Err(e) => Err(e),
        },
    }
}

/// Read an optional login member of an object.
pub fn get_opt_login(members: &Vec<(String, JsonValue)>, key: &String) -> (r: Result<
    Option<Login>,
    DecodeError,
>)
    ensures
        match r {
            Ok(l) => opt_login_field(jmembers_of(members@), key@) == Some(l.deep_view()),
            Err(e) => opt_login_field(jmembers_of(members@), key@) is None && e
                == DecodeError::Malformed,
        },
{
    match obj_get(members, key) {
        Option::None => Ok(Option::None),
        Some(JsonValue::Null) => Ok(Option::None),
        Some(v) => match decode_login(v) {
            Ok(l) => Ok(Some(l)),
            Err(e) => Err(e),
        },
    }
}

/// Read an optional guild-member member of an object.
pub fn get_opt_member(members: &Vec<(String, JsonValue)>, key: &String) -> (r: Result<
    Option<GuildMember>,
    DecodeError,
>)
    ensures
        match r {
            Ok(m) => opt_member_field(jmembers_of(members@), key@) == Some(m.deep_view()),
            Err(e) => opt_member_field(jmembers_of(members@), key@) is None && e
                == DecodeError::Malformed,
        },
{
    match obj_get(members, key) {
        Option::None => Ok(Option::None),
        Some(JsonValue::Null) => Ok(Option::None),
        Some(v) => match decode_member(v) {
            Ok(m) => Ok(Some(m)),
            Err(e) => Err(e),
        },
    }
}

/// Read an optional guild-role member of an object.
pub fn get_opt_role(members: &Vec<(String, JsonValue)>, key: &String) -> (r: Result<
    Option<GuildRole>,
    DecodeError,
>)
    ensures
        match r {
            Ok(ro) => opt_role_field(jmembers_of(members@), key@) == Some(ro.deep_view()),
            Err(e) => opt_role_field(jmembers_of(members@), key@) is None && e
                == DecodeError::Malformed,
        },
{
    match obj_get(members, key) {
        Option::None => Ok(Option::None),
        Some(JsonValue::Null) => Ok(Option::None),
        Some(v) => match decode_role(v) {
            Ok(ro) => Ok(Some(ro)),
            Err(e) => Err(e),
        },
    }
}

/// True for a member name that belongs to the event's fixed schema.
pub open spec fn is_fixed_event_key(k: Seq<char>) -> bool {
    ||| k == "id"@
    ||| k == "type"@
    ||| k == "platform"@
    ||| k == "self_id"@
    ||| k == "timestamp"@
    ||| k == "channel"@
    ||| k == "guild"@
    ||| k == "login"@
    ||| k == "member"@
    ||| k == "operator"@
    ||| k == "role"@
    ||| k == "user"@
}

/// The members of an event object outside the fixed schema, in order.
pub open spec fn extra_of(o: Seq<(Seq<char>, JVal)>) -> Seq<(Seq<char>, JVal)>
    decreases o.len(),
{
    if o.len() == 0 {
        Seq::empty()
    } else if is_fixed_event_key(o[0].0) {
        extra_of(o.drop_first())
    } else {
        seq![o[0]] + extra_of(o.drop_first())
    }
}

/// Test whether a member name belongs to the event's fixed schema.
pub fn is_fixed_event_key_exec(k: &String) -> (r: bool)
    ensures
        r == is_fixed_event_key(k@),
{
    ||| k.eq(&String::from_str("id"))
    ||| k.eq(&String::from_str("type"))
    ||| k.eq(&String::from_str("platform"))
    ||| k.eq(&String::from_str("self_id"))
    ||| k.eq(&String::from_str("timestamp"))
    ||| k.eq(&String::from_str("channel"))
    ||| k.eq(&String::from_str("guild"))
    ||| k.eq(&String::from_str("login"))
    ||| k.eq(&String::from_str("member"))
    ||| k.eq(&String::from_str("operator"))
    ||| k.eq(&String::from_str("role"))
    ||| k.eq(&String::from_str("user"))
}

/// The fixed members of an event's encoding, in schema order.
pub open spec fn event_fixed_jvals(e: EventV) -> Seq<(Seq<char>, JVal)> {
    seq![
        ("id"@, JVal::Int(e.id)),
        ("type"@, JVal::Str(e.ty)),
        ("platform"@, JVal::Str(e.platform)),
        ("self_id"@, JVal::Str(e.self_id)),
        ("timestamp"@, JVal::Int(e.timestamp)),
        ("channel"@, opt_channel_jval(e.channel)),
        ("guild"@, opt_guild_jval(e.guild)),
        ("login"@, opt_login_jval(e.login)),
        ("member"@, opt_member_jval(e.member)),
        ("operator"@, opt_user_jval(e.operator)),
        ("role"@, opt_role_jval(e.role)),
        ("user"@, opt_user_jval(e.user)),
    ]
}

/// Encoding of an event: the fixed schema members followed by the extension
/// members, in their stored order.
pub open spec fn event_jval(e: EventV) -> JVal {
    JVal::Obj(event_fixed_jvals(e) + e.extra)
}

/// Decoding of an event object. Members outside the fixed schema are
/// collected, in order, as the event's extension list.
pub open spec fn decode_event_spec(v: JVal) -> Option<EventV> {
    match v {
        JVal::Obj(o) => {
            match (
                req_int_field(o, "id"@),
                req_string_field(o, "type"@),
                req_string_field(o, "platform"@),
                req_string_field(o, "self_id"@),
                req_int_field(o, "timestamp"@),
            ) {
                (Some(id), Some(ty), Some(platform), Some(self_id), Some(timestamp)) => {
                    match (
                        opt_channel_field(o, "channel"@),
                        opt_guild_field(o, "guild"@),
                        opt_login_field(o, "login"@),
                        opt_member_field(o, "member"@),
                        opt_user_field(o, "operator"@),
                        opt_role_field(o, "role"@),
                        opt_user_field(o, "user"@),
                    ) {
                        (
                            Some(channel),
                            Some(guild),
                            Some(login),
                            Some(member),
                            Some(operator),
                            Some(role),
                            Some(user),
                        ) => Some(
                            EventV {
                                id,
                                ty,
                                platform,
                                self_id,
                                timestamp,
                                channel,
                                guild,
                                login,
                                member,
                                operator,
                                role,
                                user,
                                extra: extra_of(o),
                            },
                        ),
                        _ => None,
                    }
                },
                _ => None,
            }
        },
        _ => None,
    }
}

/// Encode an event as a JSON object.
pub fn encode_event(e: &Event) -> (r: JsonValue)
    ensures
        r@ == event_jval(e@),
{
    let mut m: Vec<(String, JsonValue)> = Vec::new();
    m.push((String::from_str("id"), JsonValue::Int(e.id)));
    m.push((String::from_str("type"), JsonValue::Str(e.ty.clone())));
    m.push((String::from_str("platform"), JsonValue::Str(e.platform.clone())));
    m.push((String::from_str("self_id"), JsonValue::Str(e.self_id.clone())));
    m.push((String::from_str("timestamp"), JsonValue::Int(e.timestamp)));
    m.push(
        (
            String::from_str("channel"),
            match &e.channel {
                Some(c) => encode_channel(c),
                Option::None => JsonValue::Null,
            },
        ),
    );
    m.push(
        (
            String::from_str("guild"),
            match &e.guild {
                Some(g) => encode_guild(g),
                Option::None => JsonValue::Null,
            },
        ),
    );
    m.push(
        (
            String::from_str("login"),
            match &e.login {
                Some(l) => encode_login(l),
                Option::None => JsonValue::Null,
            },
        ),
    );
    m.push(
        (
            String::from_str("member"),
            match &e.member {
                Some(gm) => encode_member(gm),
                Option::None => JsonValue::Null,
            },
        ),
    );
    m.push((String::from_str("operator"), opt_user_value(&e.operator)));
    m.push(
        (
            String::from_str("role"),
            match &e.role {
                Some(ro) => encode_role(ro),
                Option::None => JsonValue::Null,
            },
        ),
    );
    m.push((String::from_str("user"), opt_user_value(&e.user)));
    let ghost fixed = m@;
    let n = e.extra.len();
    for i in 0..n
        invariant
            n == e.extra.len(),
            m@.len() == 12 + i,
            m@.subrange(0, 12) == fixed,
            fixed.len() == 12,
            forall|k: int|
                0 <= k < 12 ==> (#[trigger] m@[k].0@, jval_of(m@[k].1)) == event_fixed_jvals(
                    e@,
                )[k],
            forall|k: int|
                0 <= k < i ==> (#[trigger] m@[12 + k].0@, jval_of(m@[12 + k].1)) == (
                    e.extra@[k].0@,
                    jval_of(e.extra@[k].1),
                ),
    {
        m.push((e.extra[i].0.clone(), e.extra[i].1.clone()));
        proof {
            assert(m@.subrange(0, 12) =~= fixed);
        }
    }
    proof {
        lemma_jmembers_of(m@);
        lemma_jmembers_of(e.extra@);
        let rhs = event_fixed_jvals(e@) + jmembers_of(e.extra@);
        assert forall|k: int| 0 <= k < jmembers_of(m@).len() implies jmembers_of(m@)[k] == rhs[k] by {
            if k >= 12 {
                let k2 = k - 12;
                assert((m@[12 + k2].0@, jval_of(m@[12 + k2].1)) == (
                    e.extra@[k2].0@,
                    jval_of(e.extra@[k2].1),
                ));
            }
        }
        assert(jmembers_of(m@) =~= rhs);
    }
    JsonValue::Obj(m)
}

/// Decode an event from a JSON value.
pub fn decode_event(v: &JsonValue) -> (r: Result<Event, DecodeError>)
    ensures
        match r {
            Ok(e) => decode_event_spec(v@) == Some(e@),
            Err(e) => decode_event_spec(v@) is None && e == DecodeError::Malformed,
        },
{
    match v {
        JsonValue::Obj(m) => {
            let id = match get_req_int(m, &String::from_str("id")) {
                Ok(i) => i,
                Err(e) => {
                    return Err(e);
                },
            };
            let ty = match get_req_string(m, &String::from_str("type")) {
                Ok(s) => s,
                Err(e) => {
                    return Err(e);
                },
            };
            let platform = match get_req_string(m, &String::from_str("platform")) {
                Ok(s) => s,
                Err(e) => {
                    return Err(e);
                },
            };
            let self_id = match get_req_string(m, &String::from_str("self_id")) {
                Ok(s) => s,
                Err(e) => {
                    return Err(e);
                },
            };
            let timestamp = match get_req_int(m, &String::from_str("timestamp")) {
                Ok(i) => i,
                Err(e) => {
                    return Err(e);
                },
            };
            let channel = match get_opt_channel(m, &String::from_str("channel")) {
                Ok(c) => c,
                Err(e) => {
                    return Err(e);
                },
            };
            let guild = match get_opt_guild(m, &String::from_str("guild")) {
                Ok(g) => g,
                Err(e) => {
                    return Err(e);
                },
            };
            let login = match get_opt_login(m, &String::from_str("login")) {
                Ok(l) => l,
                Err(e) => {
                    return Err(e);
                },
            };
            let member = match get_opt_member(m, &String::from_str("member")) {
                Ok(gm) => gm,
                Err(e) => {
                    return Err(e);
                },
            };
            let operator = match get_opt_user(m, &String::from_str("operator")) {
                Ok(u) => u,
                Err(e) => {
                    return Err(e);
                },
            };
            let role = match get_opt_role(m, &String::from_str("role")) {
                Ok(ro) => ro,
                Err(e) => {
                    return Err(e);
                },
            };
            let user = match get_opt_user(m, &String::from_str("user")) {
                Ok(u) => u,
                Err(e) => {
                    return Err(e);
                },
            };
            let ghost o = jmembers_of(m@);
            proof {
                lemma_jmembers_of(m@);
                assert(o.skip(0) =~= o);
            }
            let mut extra: Vec<(String, JsonValue)> = Vec::new();
            let n = m.len();
            for i in 0..n
                invariant
                    n == m.len(),
                    o == jmembers_of(m@),
                    o.len() == n,
                    forall|k: int| 0 <= k < n ==> o[k] == (m@[k].0@, jval_of(m@[k].1)),
                    extra_of(o) =~= jmembers_of(extra@) + extra_of(o.skip(i as int)),
            {
                proof {
                    assert(o.skip(i as int)[0] == o[i as int]);
                    assert(o.skip(i as int).drop_first() =~= o.skip(i as int + 1));
                }
                let ghost prev = extra@;
                if !is_fixed_event_key_exec(&m[i].0) {
                    extra.push((m[i].0.clone(), m[i].1.clone()));
                    proof {
                        lemma_jmembers_of(prev);
                        lemma_jmembers_of(extra@);
                        assert(jmembers_of(extra@) =~= jmembers_of(prev) + seq![o[i as int]]);
                        assert(jmembers_of(prev) + seq![o[i as int]] + extra_of(
                            o.skip(i as int + 1),
                        ) =~= jmembers_of(prev) + (seq![o[i as int]] + extra_of(
                            o.skip(i as int + 1),
                        )));
                    }
                }
            }
            proof {
                assert(o.skip(n as int) =~= Seq::<(Seq<char>, JVal)>::empty());
                assert(extra_of(o) =~= jmembers_of(extra@));
            }
            Ok(Event {
                id,
                ty,
                platform,
                self_id,
                timestamp,
                channel,
                guild,
                login,
                member,
                operator,
                role,
                user,
                extra,
            })
        },
        _ => Err(DecodeError::Malformed),
    }
}


/// True when an event's extension members stay clear of the fixed schema:
/// none is named like a fixed member. Encoding such an event and decoding
/// the result restores it exactly.
pub open spec fn event_extra_wf(e: EventV) -> bool {
    forall|i: int| 0 <= i < e.extra.len() ==> !is_fixed_event_key(#[trigger] e.extra[i].0)
}

proof fn lemma_extra_of_all_unknown(o: Seq<(Seq<char>, JVal)>)
    requires
        forall|i: int| 0 <= i < o.len() ==> !is_fixed_event_key(#[trigger] o[i].0),
    ensures
        extra_of(o) == o,
    decreases o.len(),
{
    if o.len() > 0 {
        assert(!is_fixed_event_key(o[0].0));
        assert forall|i: int| 0 <= i < o.drop_first().len() implies !is_fixed_event_key(
            #[trigger] o.drop_first()[i].0,
        ) by {
            assert(o.drop_first()[i] == o[i + 1]);
        }
        lemma_extra_of_all_unknown(o.drop_first());
        assert(seq![o[0]] + o.drop_first() =~= o);
    }
}

proof fn lemma_extra_of_concat(o1: Seq<(Seq<char>, JVal)>, o2: Seq<(Seq<char>, JVal)>)
    requires
        forall|i: int| 0 <= i < o1.len() ==> is_fixed_event_key(#[trigger] o1[i].0),
        forall|i: int| 0 <= i < o2.len() ==> !is_fixed_event_key(#[trigger] o2[i].0),
    ensures
        extra_of(o1 + o2) == o2,
    decreases o1.len(),
{
    if o1.len() == 0 {
        assert(o1 + o2 =~= o2);
        lemma_extra_of_all_unknown(o2);
    } else {
        assert((o1 + o2)[0] == o1[0]);
        assert(is_fixed_event_key((o1 + o2)[0].0));
        assert((o1 + o2).drop_first() =~= o1.drop_first() + o2);
        assert forall|i: int| 0 <= i < o1.drop_first().len() implies is_fixed_event_key(
            #[trigger] o1.drop_first()[i].0,
        ) by {
            assert(o1.drop_first()[i] == o1[i + 1]);
        }
        lemma_extra_of_concat(o1.drop_first(), o2);
    }
}

/// Round trip for events: decoding the encoding of any event whose extension
/// members stay clear of the fixed schema restores the event exactly,
/// extension members included.
pub proof fn lemma_event_round_trip(e: EventV)
    requires
        event_extra_wf(e),
    ensures
        decode_event_spec(event_jval(e)) == Some(e),
{
    reveal_strlit("id");
    reveal_strlit("type");
    reveal_strlit("platform");
    reveal_strlit("self_id");
    reveal_strlit("timestamp");
    reveal_strlit("channel");
    reveal_strlit("guild");
    reveal_strlit("login");
    reveal_strlit("member");
    reveal_strlit("operator");
    reveal_strlit("role");
    reveal_strlit("user");
    let f = event_fixed_jvals(e);
    let o = f + e.extra;
    assert("id"@.len() == 2 && "type"@.len() == 4 && "platform"@.len() == 8 && "self_id"@.len()
        == 7 && "timestamp"@.len() == 9 && "channel"@.len() == 7 && "guild"@.len() == 5
        && "login"@.len() == 5 && "member"@.len() == 6 && "operator"@.len() == 8 && "role"@.len()
        == 4 && "user"@.len() == 4);
    assert("type"@[0] == 't' && "role"@[0] == 'r' && "user"@[0] == 'u');
    assert("self_id"@[0] == 's' && "channel"@[0] == 'c');
    assert("platform"@[0] == 'p' && "operator"@[0] == 'o');
    assert("guild"@[0] == 'g' && "login"@[0] == 'l');
    assert(forall|k: int| 0 <= k < 12 ==> #[trigger] o[k] == f[k]);
    assert(o[0].0 == "id"@ && o[1].0 == "type"@ && o[2].0 == "platform"@ && o[3].0 == "self_id"@
        && o[4].0 == "timestamp"@ && o[5].0 == "channel"@ && o[6].0 == "guild"@ && o[7].0
        == "login"@ && o[8].0 == "member"@ && o[9].0 == "operator"@ && o[10].0 == "role"@
        && o[11].0 == "user"@);
    crate::json::lemma_obj_get_at(o, 0);
    crate::json::lemma_obj_get_at(o, 1);
    crate::json::lemma_obj_get_at(o, 2);
    crate::json::lemma_obj_get_at(o, 3);
    crate::json::lemma_obj_get_at(o, 4);
    crate::json::lemma_obj_get_at(o, 5);
    crate::json::lemma_obj_get_at(o, 6);
    crate::json::lemma_obj_get_at(o, 7);
    crate::json::lemma_obj_get_at(o, 8);
    crate::json::lemma_obj_get_at(o, 9);
    crate::json::lemma_obj_get_at(o, 10);
    crate::json::lemma_obj_get_at(o, 11);
    if e.channel is Some {
        lemma_channel_round_trip(e.channel.unwrap());
    }
    if e.guild is Some {
        lemma_guild_round_trip(e.guild.unwrap());
    }
    if e.login is Some {
        lemma_login_round_trip(e.login.unwrap());
    }
    if e.member is Some {
        lemma_member_round_trip(e.member.unwrap());
    }
    if e.operator is Some {
        lemma_user_round_trip(e.operator.unwrap());
    }
    if e.role is Some {
        lemma_role_round_trip(e.role.unwrap());
    }
    if e.user is Some {
        lemma_user_round_trip(e.user.unwrap());
    }
    assert forall|i: int| 0 <= i < f.len() implies is_fixed_event_key(#[trigger] f[i].0) by {}
    lemma_extra_of_concat(f, e.extra);
}


/// IDENTIFY handshake body: credential and last-seen sequence number.
#[derive(Debug, PartialEq)]
pub struct Identify {
    pub token: String,
    pub sequence: i64,
}

/// Mathematical view of an `Identify` body.
pub ghost struct IdentifyV {
    pub token: Seq<char>,
    pub sequence: i64,
}

impl View for Identify {
    type V = IdentifyV;

    open spec fn view(&self) -> IdentifyV {
        IdentifyV { token: self.token@, sequence: self.sequence }
    }
}

impl Clone for Identify {
    /// A clone has the same view as the original.
    fn clone(&self) -> (r: Self)
        ensures
            r@ == self@,
    {
        Identify { token: self.token.clone(), sequence: self.sequence }
    }
}

/// READY body: the set of bot accounts live on this connection.
#[derive(Debug, PartialEq)]
pub struct Logins {
    pub logins: Vec<Login>,
}

impl View for Logins {
    type V = Seq<LoginV>;

    open spec fn view(&self) -> Seq<LoginV> {
        self.logins.deep_view()
    }
}

/// The wire envelope: a closed op-tagged variant. The op codes on the wire
/// are EVENT 0, PING 1, PONG 2, IDENTIFY 3, READY 4.
#[derive(Debug, PartialEq)]
pub enum Signal {
    Event(Event),
    Ping,
    Pong,
    Identify(Identify),
    Ready(Logins),
}

/// Mathematical view of a `Signal`.
pub ghost enum SignalV {
    Event(EventV),
    Ping,
    Pong,
    Identify(IdentifyV),
    Ready(Seq<LoginV>),
}

impl View for Signal {
    type V = SignalV;

    open spec fn view(&self) -> SignalV {
        match self {
            Signal::Event(e) => SignalV::Event(e@),
            Signal::Ping => SignalV::Ping,
            Signal::Pong => SignalV::Pong,
            Signal::Identify(i) => SignalV::Identify(i@),
            Signal::Ready(l) => SignalV::Ready(l@),
        }
    }
}

impl Signal {
    /// Wrap an event for the wire.
    pub fn event(event: Event) -> (r: Self)
        ensures
            r@ == SignalV::Event(event@),
    {
        Signal::Event(event)
    }

    /// The keepalive request frame.
    pub fn ping() -> (r: Self)
        ensures
            r@ == SignalV::Ping,
    {
        Signal::Ping
    }

    /// The keepalive reply frame.
    pub fn pong() -> (r: Self)
        ensures
            r@ == SignalV::Pong,
    {
        Signal::Pong
    }

    /// The handshake frame carrying a credential and the last-seen sequence.
    pub fn identfy(token: &str, seq: i64) -> (r: Self)
        ensures
            r@ == SignalV::Identify(IdentifyV { token: token@, sequence: seq }),
    {
        Signal::Identify(Identify { token: String::from_str(token), sequence: seq })
    }

    /// The frame declaring which bot accounts are live on this connection.
    pub fn ready(logins: Vec<Login>) -> (r: Self)
        ensures
            r@ == SignalV::Ready(logins.deep_view()),
    {
        Signal::Ready(Logins { logins })
    }
}

/// Wire op code of a signal.
pub open spec fn signal_op(s: SignalV) -> i64 {
    match s {
        SignalV::Event(_) => 0,
        SignalV::Ping => 1,
        SignalV::Pong => 2,
        SignalV::Identify(_) => 3,
        SignalV::Ready(_) => 4,
    }
}

/// Encoding of a sequence of logins as a JSON array.
pub open spec fn logins_jvals(ls: Seq<LoginV>) -> Seq<JVal> {
    Seq::new(ls.len(), |i: int| login_jval(ls[i]))
}

/// Encoding of a signal body.
pub open spec fn signal_body_jval(s: SignalV) -> JVal {
    match s {
        SignalV::Event(e) => event_jval(e),
        SignalV::Ping => JVal::Null,
        SignalV::Pong => JVal::Null,
        SignalV::Identify(i) => JVal::Obj(
            seq![("token"@, JVal::Str(i.token)), ("sequence"@, JVal::Int(i.sequence))],
        ),
        SignalV::Ready(ls) => JVal::Obj(seq![("logins"@, JVal::Arr(logins_jvals(ls)))]),
    }
}

/// Encoding of a signal envelope.
pub open spec fn signal_jval(s: SignalV) -> JVal {
    JVal::Obj(seq![("op"@, JVal::Int(signal_op(s))), ("body"@, signal_body_jval(s))])
}

/// Decoding of an array of logins.
pub open spec fn decode_logins_spec(a: Seq<JVal>) -> Option<Seq<LoginV>>
    decreases a.len(),
{
    if a.len() == 0 {
        Some(Seq::empty())
    } else {
        match (decode_login_spec(a[0]), decode_logins_spec(a.drop_first())) {
            (Some(l), Some(rest)) => Some(seq![l] + rest),
            _ => None,
        }
    }
}

/// Decoding of a signal envelope: read the op, then check the body against
/// the schema that op implies. An op outside the closed set is an
/// `UnknownOp` protocol violation; any schema mismatch is `Malformed`.
pub open spec fn decode_signal_spec(v: JVal) -> Result<SignalV, DecodeError> {
    match v {
        JVal::Obj(o) => match req_int_field(o, "op"@) {
            Option::None => Err(DecodeError::Malformed),
            Some(op) => {
                if op == 1 {
                    Ok(SignalV::Ping)
                } else if op == 2 {
                    Ok(SignalV::Pong)
                } else if op == 0 {
                    match obj_get_spec(o, "body"@) {
                        Some(b) => match decode_event_spec(b) {
                            Some(e) => Ok(SignalV::Event(e)),
                            Option::None => Err(DecodeError::Malformed),
                        },
                        Option::None => Err(DecodeError::Malformed),
                    }
                } else if op == 3 {
                    match obj_get_spec(o, "body"@) {
                        Some(JVal::Obj(b)) => match (
                            req_string_field(b, "token"@),
                            req_int_field(b, "sequence"@),
                        ) {
                            (Some(token), Some(sequence)) => Ok(
                                SignalV::Identify(IdentifyV { token, sequence }),
                            ),
                            _ => Err(DecodeError::Malformed),
                        },
                        _ => Err(DecodeError::Malformed),
                    }
                } else if op == 4 {
                    match obj_get_spec(o, "body"@) {
                        Some(JVal::Obj(b)) => match obj_get_spec(b, "logins"@) {
                            Some(JVal::Arr(a)) => match decode_logins_spec(a) {
                                Some(ls) => Ok(SignalV::Ready(ls)),
                                Option::None => Err(DecodeError::Malformed),
                            },
                            _ => Err(DecodeError::Malformed),
                        },
                        _ => Err(DecodeError::Malformed),
                    }
                } else {
                    Err(DecodeError::UnknownOp(op))
                }
            },
        },
        _ => Err(DecodeError::Malformed),
    }
}

/// Encode a signal as a JSON envelope.
pub fn encode_signal(s: &Signal) -> (r: JsonValue)
    ensures
        r@ == signal_jval(s@),
{
    let op: i64 = match s {
        Signal::Event(_) => 0,
        Signal::Ping => 1,
        Signal::Pong => 2,
        Signal::Identify(_) => 3,
        Signal::Ready(_) => 4,
    };
    let body: JsonValue = match s {
        Signal::Event(e) => encode_event(e),
        Signal::Ping => JsonValue::Null,
        Signal::Pong => JsonValue::Null,
        Signal::Identify(i) => {
            let mut b: Vec<(String, JsonValue)> = Vec::new();
            b.push((String::from_str("token"), JsonValue::Str(i.token.clone())));
            b.push((String::from_str("sequence"), JsonValue::Int(i.sequence)));
            proof {
                lemma_jmembers_of(b@);
                assert(jmembers_of(b@) =~= signal_body_jval(s@)->Obj_0);
            }
            JsonValue::Obj(b)
        },
        Signal::Ready(lg) => {
            let mut arr: Vec<JsonValue> = Vec::new();
            let n = lg.logins.len();
            for i in 0..n
                invariant
                    n == lg.logins.len(),
                    arr.len() == i,
                    forall|k: int| 0 <= k < i ==> arr@[k]@ == login_jval(lg.logins@[k]@),
            {
                arr.push(encode_login(&lg.logins[i]));
            }
            proof {
                lemma_jvals_of(arr@);
                assert(jvals_of(arr@) =~= logins_jvals(lg@));
            }
            let mut b: Vec<(String, JsonValue)> = Vec::new();
            b.push((String::from_str("logins"), JsonValue::Arr(arr)));
            proof {
                lemma_jmembers_of(b@);
                assert(jmembers_of(b@) =~= signal_body_jval(s@)->Obj_0);
            }
            JsonValue::Obj(b)
        },
    };
    let mut m: Vec<(String, JsonValue)> = Vec::new();
    m.push((String::from_str("op"), JsonValue::Int(op)));
    m.push((String::from_str("body"), body));
    proof {
        lemma_jmembers_of(m@);
        assert(jmembers_of(m@) =~= signal_jval(s@)->Obj_0);
    }
    JsonValue::Obj(m)
}

/// Decode a signal from a JSON envelope.
#[verifier::loop_isolation(false)]
#[verifier::rlimit(80)]
#[verifier::spinoff_prover]
pub fn decode_signal(v: &JsonValue) -> (r: Result<Signal, DecodeError>)
    ensures
        match r {
            Ok(s) => decode_signal_spec(v@) == Ok::<SignalV, DecodeError>(s@),
            Err(e) => decode_signal_spec(v@) == Err::<SignalV, DecodeError>(e),
        },
{
    match v {
        JsonValue::Obj(m) => {
            let op = match get_req_int(m, &String::from_str("op")) {
                Ok(i) => i,
                Err(e) => {
                    return Err(e);
                },
            };
            if op == 1 {
                Ok(Signal::Ping)
            } else if op == 2 {
                Ok(Signal::Pong)
            } else if op == 0 {
                match obj_get(m, &String::from_str("body")) {
                    Some(b) => match decode_event(b) {
                        Ok(e) => Ok(Signal::Event(e)),
                        Err(e) => Err(e),
                    },
                    Option::None => Err(DecodeError::Malformed),
                }
            } else if op == 3 {
                match obj_get(m, &String::from_str("body")) {
                    Some(JsonValue::Obj(b)) => {
                        let token = match get_req_string(b, &String::from_str("token")) {
                            Ok(t) => t,
                            Err(e) => {
                                return Err(e);
                            },
                        };
                        let sequence = match get_req_int(b, &String::from_str("sequence")) {
                            Ok(i) => i,
                            Err(e) => {
                                return Err(e);
                            },
                        };
                        Ok(Signal::Identify(Identify { token, sequence }))
                    },
                    _ => Err(DecodeError::Malformed),
                }
            } else if op == 4 {
                match obj_get(m, &String::from_str("body")) {
                    Some(JsonValue::Obj(b)) => match obj_get(b, &String::from_str("logins")) {
                        Some(JsonValue::Arr(a)) => {
                            let ghost av = jvals_of(a@);
                            proof {
                                lemma_jvals_of(a@);
                                assert(av.skip(0) =~= av);
                            }
                            let mut logins: Vec<Login> = Vec::new();
                            let n = a.len();
                            for i in 0..n
                                invariant
                                    n == a.len(),
                                    av == jvals_of(a@),
                                    av.len() == n,
                                    forall|k: int| 0 <= k < n ==> av[k] == a@[k]@,
                                    decode_logins_spec(av) is Some <==> decode_logins_spec(
                                        av.skip(i as int),
                                    ) is Some,
                                    decode_logins_spec(av) is Some ==> decode_logins_spec(
                                        av,
                                    ).unwrap() =~= logins.deep_view() + decode_logins_spec(
                                        av.skip(i as int),
                                    ).unwrap(),
                            {
                                proof {
                                    assert(av.skip(i as int)[0] == av[i as int]);
                                    assert(av.skip(i as int).drop_first() =~= av.skip(i as int + 1));
                                }
                                let ghost prev = logins.deep_view();
                                match decode_login(&a[i]) {
                                    Ok(l) => {
                                        logins.push(l);
                                        proof {
                                            assert(logins.deep_view() =~= prev + seq![l@]);
                                            if decode_logins_spec(av) is Some {
                                                assert(prev + seq![l@] + decode_logins_spec(
                                                    av.skip(i as int + 1),
                                                ).unwrap() =~= prev + (seq![l@]
                                                    + decode_logins_spec(
                                                    av.skip(i as int + 1),
                                                ).unwrap()));
                                            }
                                        }
                                    },
                                    Err(_) => {
                                        proof {
                                            assert(decode_login_spec(av.skip(i as int)[0]) is None);
                                            assert(decode_logins_spec(av.skip(i as int)) is None);
                                        }
                                        return Err(DecodeError::Malformed);
                                    },
                                }
                            }
                            proof {
                                assert(av.skip(n as int) =~= Seq::<JVal>::empty());
                                assert(decode_logins_spec(av).unwrap() =~= logins.deep_view());
                            }
                            Ok(Signal::Ready(Logins { logins }))
                        },
                        _ => Err(DecodeError::Malformed),
                    },
                    _ => Err(DecodeError::Malformed),
                }
            } else {
                Err(DecodeError::UnknownOp(op))
            }
        },
        _ => Err(DecodeError::Malformed),
    }
}

/// Round trip for logins arrays.
proof fn lemma_logins_round_trip(ls: Seq<LoginV>)
    ensures
        decode_logins_spec(logins_jvals(ls)) == Some(ls),
    decreases ls.len(),
{
    let a = logins_jvals(ls);
    if ls.len() == 0 {
        assert(a.len() == 0);
    } else {
        lemma_login_round_trip(ls[0]);
        lemma_logins_round_trip(ls.drop_first());
        assert(a[0] == login_jval(ls[0]));
        assert(a.drop_first() =~= logins_jvals(ls.drop_first()));
        assert(seq![ls[0]] + ls.drop_first() =~= ls);
    }
}

/// True when a signal survives the codec round trip: only an EVENT signal
/// constrains anything, namely that the event's extension members stay clear
/// of the fixed schema.
pub open spec fn signal_wf(s: SignalV) -> bool {
    match s {
        SignalV::Event(e) => event_extra_wf(e),
        _ => true,
    }
}

/// Round trip for signals: decoding the encoding of any well-formed signal
/// restores it exactly.
pub proof fn lemma_signal_round_trip(s: SignalV)
    requires
        signal_wf(s),
    ensures
        decode_signal_spec(signal_jval(s)) == Ok::<SignalV, DecodeError>(s),
{
    reveal_strlit("op");
    reveal_strlit("body");
    let o = signal_jval(s)->Obj_0;
    assert(o[0].0 == "op"@ && o[1].0 == "body"@);
    assert("op"@.len() == 2 && "body"@.len() == 4);
    crate::json::lemma_obj_get_at(o, 0);
    crate::json::lemma_obj_get_at(o, 1);
    match s {
        SignalV::Event(e) => {
            lemma_event_round_trip(e);
        },
        SignalV::Ping => {
        },
        SignalV::Pong => {
        },
        SignalV::Identify(i) => {
            reveal_strlit("token");
            reveal_strlit("sequence");
            let b = signal_body_jval(s)->Obj_0;
            assert(b[0].0 == "token"@ && b[1].0 == "sequence"@);
            assert("token"@.len() == 5 && "sequence"@.len() == 8);
            crate::json::lemma_obj_get_at(b, 0);
            crate::json::lemma_obj_get_at(b, 1);
        },
        SignalV::Ready(ls) => {
            reveal_strlit("logins");
            let b = signal_body_jval(s)->Obj_0;
            assert(b[0].0 == "logins"@);
            crate::json::lemma_obj_get_at(b, 0);
            lemma_logins_round_trip(ls);
        },
    }
}

} // verus!
