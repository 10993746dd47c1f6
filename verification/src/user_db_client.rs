//! The user database as the engine sees it: what it can be asked, and what it answers.
use crate::json::{
    int_json, items, json_int, json_str, json_text, list, no_members, object, put, write_json,
    Json, JsonView,
};
use crate::proto::{clone_all, clone_opt, opt_view, views};
use vstd::prelude::*;

verus! {

/// A user's channel on a platform.
#[derive(Debug)]
pub struct ChannelRef {
    pub platform: String,
    pub channel_id: String,
    pub handle: String,
}

/// What a [`ChannelRef`] says.
#[verifier::ext_equal]
pub struct ChannelRefView {
    pub platform: Seq<char>,
    pub channel_id: Seq<char>,
    pub handle: Seq<char>,
}

impl View for ChannelRef {
    type V = ChannelRefView;

    open spec fn view(&self) -> ChannelRefView {
        ChannelRefView {
            platform: self.platform@,
            channel_id: self.channel_id@,
            handle: self.handle@,
        }
    }
}

impl Clone for ChannelRef {
    fn clone(&self) -> (r: Self)
        ensures
            r@ == self@,
    {
        ChannelRef {
            platform: self.platform.clone(),
            channel_id: self.channel_id.clone(),
            handle: self.handle.clone(),
        }
    }
}

/// A user.
#[derive(Debug)]
pub struct UserRecord {
    pub uuid7: String,
    pub username: String,
    pub is_sponsor: bool,
    pub is_moderator: bool,
    pub is_admin: bool,
    pub is_owner: bool,
    pub score: i64,
    pub commendations: i64,
    pub reprimands: i64,
    pub channels: Vec<ChannelRef>,
    pub flags: String,
    pub created_at: i64,
    pub updated_at: i64,
}

/// What a [`UserRecord`] says.
#[verifier::ext_equal]
pub struct UserRecordView {
    pub uuid7: Seq<char>,
    pub username: Seq<char>,
    pub is_sponsor: bool,
    pub is_moderator: bool,
    pub is_admin: bool,
    pub is_owner: bool,
    pub score: i64,
    pub commendations: i64,
    pub reprimands: i64,
    pub channels: Seq<ChannelRefView>,
    pub flags: Seq<char>,
    pub created_at: i64,
    pub updated_at: i64,
}

impl View for UserRecord {
    type V = UserRecordView;

    open spec fn view(&self) -> UserRecordView {
        UserRecordView {
            uuid7: self.uuid7@,
            username: self.username@,
            is_sponsor: self.is_sponsor,
            is_moderator: self.is_moderator,
            is_admin: self.is_admin,
            is_owner: self.is_owner,
            score: self.score,
            commendations: self.commendations,
            reprimands: self.reprimands,
            channels: views(self.channels@),
            flags: self.flags@,
            created_at: self.created_at,
            updated_at: self.updated_at,
        }
    }
}

impl Clone for UserRecord {
    fn clone(&self) -> (r: Self)
        ensures
            r@ == self@,
    {
        UserRecord {
            uuid7: self.uuid7.clone(),
            username: self.username.clone(),
            is_sponsor: self.is_sponsor,
            is_moderator: self.is_moderator,
            is_admin: self.is_admin,
            is_owner: self.is_owner,
            score: self.score,
            commendations: self.commendations,
            reprimands: self.reprimands,
            channels: clone_all(&self.channels),
            flags: self.flags.clone(),
            created_at: self.created_at,
            updated_at: self.updated_at,
        }
    }
}

/// A named value kept with a user.
#[derive(Debug)]
pub struct UserValue {
    pub key: String,
    pub value: String,
}

/// What a [`UserValue`] says.
#[verifier::ext_equal]
pub struct UserValueView {
    pub key: Seq<char>,
    pub value: Seq<char>,
}

impl View for UserValue {
    type V = UserValueView;

    open spec fn view(&self) -> UserValueView {
        UserValueView {
            key: self.key@,
            value: self.value@,
        }
    }
}

impl Clone for UserValue {
    fn clone(&self) -> (r: Self)
        ensures
            r@ == self@,
    {
        UserValue {
            key: self.key.clone(),
            value: self.value.clone(),
        }
    }
}

/// What the user database answers.
#[derive(Debug)]
pub struct UserDbResponse {
    pub success: bool,
    pub error: String,
    pub user: Option<UserRecord>,
    pub users: Vec<UserRecord>,
    pub message: String,
    pub value: Option<UserValue>,
    pub values: Vec<UserValue>,
}

/// What a [`UserDbResponse`] says.
#[verifier::ext_equal]
pub struct UserDbResponseView {
    pub success: bool,
    pub error: Seq<char>,
    pub user: Option<UserRecordView>,
    pub users: Seq<UserRecordView>,
    pub message: Seq<char>,
    pub value: Option<UserValueView>,
    pub values: Seq<UserValueView>,
}

impl View for UserDbResponse {
    type V = UserDbResponseView;

    open spec fn view(&self) -> UserDbResponseView {
        UserDbResponseView {
            success: self.success,
            error: self.error@,
            user: opt_view(self.user),
            users: views(self.users@),
            message: self.message@,
            value: opt_view(self.value),
            values: views(self.values@),
        }
    }
}

impl Clone for UserDbResponse {
    fn clone(&self) -> (r: Self)
        ensures
            r@ == self@,
    {
        UserDbResponse {
            success: self.success,
            error: self.error.clone(),
            user: clone_opt(&self.user),
            users: clone_all(&self.users),
            message: self.message.clone(),
            value: clone_opt(&self.value),
            values: clone_all(&self.values),
        }
    }
}

/// What the user database is asked.
#[derive(Debug)]
pub enum UserDbOp {
    AddUser { username: String, channel: Option<ChannelRef> },
    DeleteUser { uuid7: String, actor_uuid7: String, actor_role: String },
    AddScore { uuid7: String, delta: i64, reason: String },
    RemoveScore { uuid7: String, delta: i64, reason: String },
    AddChannel { uuid7: String, channel: Option<ChannelRef> },
    RemoveChannel { uuid7: String, platform: String, channel_id: String },
    GetUser { uuid7: String, platform: String, channel_id: String, handle: String },
    ListUsers { platform: String, limit: i32, offset: i32 },
    UpdateFlags { uuid7: String, flags: String },
    SetRoles { uuid7: String, actor_uuid7: String, actor_role: String, is_sponsor: bool, is_moderator: bool, is_admin: bool, is_owner: bool },
    ReadUserValue { uuid7: String, key: String },
    WriteUserValue { uuid7: String, key: String, value: String },
    DeleteUserValue { uuid7: String, key: String },
    ListUserValues { uuid7: String },
    /// A rating of one user by another.
    RateUser { giver_uuid7: String, recipient_uuid7: String, is_commendation: bool, platform: String, handle: String, reason: String },
}

/// What a [`UserDbOp`] says.
#[verifier::ext_equal]
pub enum UserDbOpView {
    AddUser { username: Seq<char>, channel: Option<ChannelRefView> },
    DeleteUser { uuid7: Seq<char>, actor_uuid7: Seq<char>, actor_role: Seq<char> },
    AddScore { uuid7: Seq<char>, delta: i64, reason: Seq<char> },
    RemoveScore { uuid7: Seq<char>, delta: i64, reason: Seq<char> },
    AddChannel { uuid7: Seq<char>, channel: Option<ChannelRefView> },
    RemoveChannel { uuid7: Seq<char>, platform: Seq<char>, channel_id: Seq<char> },
    GetUser { uuid7: Seq<char>, platform: Seq<char>, channel_id: Seq<char>, handle: Seq<char> },
    ListUsers { platform: Seq<char>, limit: i32, offset: i32 },
    UpdateFlags { uuid7: Seq<char>, flags: Seq<char> },
    SetRoles { uuid7: Seq<char>, actor_uuid7: Seq<char>, actor_role: Seq<char>, is_sponsor: bool, is_moderator: bool, is_admin: bool, is_owner: bool },
    ReadUserValue { uuid7: Seq<char>, key: Seq<char> },
    WriteUserValue { uuid7: Seq<char>, key: Seq<char>, value: Seq<char> },
    DeleteUserValue { uuid7: Seq<char>, key: Seq<char> },
    ListUserValues { uuid7: Seq<char> },
    RateUser { giver_uuid7: Seq<char>, recipient_uuid7: Seq<char>, is_commendation: bool, platform: Seq<char>, handle: Seq<char>, reason: Seq<char> },
}

impl View for UserDbOp {
    type V = UserDbOpView;

    open spec fn view(&self) -> UserDbOpView {
        match *self {
            UserDbOp::AddUser { username, channel } => UserDbOpView::AddUser {
                username: username@,
                channel: opt_view(channel),
            },
            UserDbOp::DeleteUser { uuid7, actor_uuid7, actor_role } => UserDbOpView::DeleteUser {
                uuid7: uuid7@,
                actor_uuid7: actor_uuid7@,
                actor_role: actor_role@,
            },
            UserDbOp::AddScore { uuid7, delta, reason } => UserDbOpView::AddScore {
                uuid7: uuid7@,
                delta: delta,
                reason: reason@,
            },
            UserDbOp::RemoveScore { uuid7, delta, reason } => UserDbOpView::RemoveScore {
                uuid7: uuid7@,
                delta: delta,
                reason: reason@,
            },
            UserDbOp::AddChannel { uuid7, channel } => UserDbOpView::AddChannel {
                uuid7: uuid7@,
                channel: opt_view(channel),
            },
            UserDbOp::RemoveChannel { uuid7, platform, channel_id } => UserDbOpView::RemoveChannel {
                uuid7: uuid7@,
                platform: platform@,
                channel_id: channel_id@,
            },
            UserDbOp::GetUser { uuid7, platform, channel_id, handle } => UserDbOpView::GetUser {
                uuid7: uuid7@,
                platform: platform@,
                channel_id: channel_id@,
                handle: handle@,
            },
            UserDbOp::ListUsers { platform, limit, offset } => UserDbOpView::ListUsers {
                platform: platform@,
                limit: limit,
                offset: offset,
            },
            UserDbOp::UpdateFlags { uuid7, flags } => UserDbOpView::UpdateFlags {
                uuid7: uuid7@,
                flags: flags@,
            },
            UserDbOp::SetRoles { uuid7, actor_uuid7, actor_role, is_sponsor, is_moderator, is_admin, is_owner } => UserDbOpView::SetRoles {
                uuid7: uuid7@,
                actor_uuid7: actor_uuid7@,
                actor_role: actor_role@,
                is_sponsor: is_sponsor,
                is_moderator: is_moderator,
                is_admin: is_admin,
                is_owner: is_owner,
            },
            UserDbOp::ReadUserValue { uuid7, key } => UserDbOpView::ReadUserValue {
                uuid7: uuid7@,
                key: key@,
            },
            UserDbOp::WriteUserValue { uuid7, key, value } => UserDbOpView::WriteUserValue {
                uuid7: uuid7@,
                key: key@,
                value: value@,
            },
            UserDbOp::DeleteUserValue { uuid7, key } => UserDbOpView::DeleteUserValue {
                uuid7: uuid7@,
                key: key@,
            },
            UserDbOp::ListUserValues { uuid7 } => UserDbOpView::ListUserValues {
                uuid7: uuid7@,
            },
            UserDbOp::RateUser { giver_uuid7, recipient_uuid7, is_commendation, platform, handle, reason } => UserDbOpView::RateUser {
                giver_uuid7: giver_uuid7@,
                recipient_uuid7: recipient_uuid7@,
                is_commendation: is_commendation,
                platform: platform@,
                handle: handle@,
                reason: reason@,
            },
        }
    }
}

impl Clone for UserDbOp {
    fn clone(&self) -> (r: Self)
        ensures
            r@ == self@,
    {
        match self {
            UserDbOp::AddUser { username, channel } => UserDbOp::AddUser {
                username: username.clone(),
                channel: clone_opt(channel),
            },
            UserDbOp::DeleteUser { uuid7, actor_uuid7, actor_role } => UserDbOp::DeleteUser {
                uuid7: uuid7.clone(),
                actor_uuid7: actor_uuid7.clone(),
                actor_role: actor_role.clone(),
            },
            UserDbOp::AddScore { uuid7, delta, reason } => UserDbOp::AddScore {
                uuid7: uuid7.clone(),
                delta: *delta,
                reason: reason.clone(),
            },
            UserDbOp::RemoveScore { uuid7, delta, reason } => UserDbOp::RemoveScore {
                uuid7: uuid7.clone(),
                delta: *delta,
                reason: reason.clone(),
            },
            UserDbOp::AddChannel { uuid7, channel } => UserDbOp::AddChannel {
                uuid7: uuid7.clone(),
                channel: clone_opt(channel),
            },
            UserDbOp::RemoveChannel { uuid7, platform, channel_id } => UserDbOp::RemoveChannel {
                uuid7: uuid7.clone(),
                platform: platform.clone(),
                channel_id: channel_id.clone(),
            },
            UserDbOp::GetUser { uuid7, platform, channel_id, handle } => UserDbOp::GetUser {
                uuid7: uuid7.clone(),
                platform: platform.clone(),
                channel_id: channel_id.clone(),
                handle: handle.clone(),
            },
            UserDbOp::ListUsers { platform, limit, offset } => UserDbOp::ListUsers {
                platform: platform.clone(),
                limit: *limit,
                offset: *offset,
            },
            UserDbOp::UpdateFlags { uuid7, flags } => UserDbOp::UpdateFlags {
                uuid7: uuid7.clone(),
                flags: flags.clone(),
            },
            UserDbOp::SetRoles { uuid7, actor_uuid7, actor_role, is_sponsor, is_moderator, is_admin, is_owner } => UserDbOp::SetRoles {
                uuid7: uuid7.clone(),
                actor_uuid7: actor_uuid7.clone(),
                actor_role: actor_role.clone(),
                is_sponsor: *is_sponsor,
                is_moderator: *is_moderator,
                is_admin: *is_admin,
                is_owner: *is_owner,
            },
            UserDbOp::ReadUserValue { uuid7, key } => UserDbOp::ReadUserValue {
                uuid7: uuid7.clone(),
                key: key.clone(),
            },
            UserDbOp::WriteUserValue { uuid7, key, value } => UserDbOp::WriteUserValue {
                uuid7: uuid7.clone(),
                key: key.clone(),
                value: value.clone(),
            },
            UserDbOp::DeleteUserValue { uuid7, key } => UserDbOp::DeleteUserValue {
                uuid7: uuid7.clone(),
                key: key.clone(),
            },
            UserDbOp::ListUserValues { uuid7 } => UserDbOp::ListUserValues {
                uuid7: uuid7.clone(),
            },
            UserDbOp::RateUser { giver_uuid7, recipient_uuid7, is_commendation, platform, handle, reason } => UserDbOp::RateUser {
                giver_uuid7: giver_uuid7.clone(),
                recipient_uuid7: recipient_uuid7.clone(),
                is_commendation: *is_commendation,
                platform: platform.clone(),
                handle: handle.clone(),
                reason: reason.clone(),
            },
        }
    }
}

/// A channel, as JSON.
pub open spec fn channel_json(c: ChannelRefView) -> JsonView {
    JsonView::Object(
        map![
            "platform"@ => JsonView::Text(c.platform),
            "channel_id"@ => JsonView::Text(c.channel_id),
            "handle"@ => JsonView::Text(c.handle),
        ],
    )
}

/// A user, as JSON.
pub open spec fn user_json(u: UserRecordView) -> JsonView {
    JsonView::Object(
        map![
            "uuid7"@ => JsonView::Text(u.uuid7),
            "username"@ => JsonView::Text(u.username),
            "is_sponsor"@ => JsonView::Bool(u.is_sponsor),
            "is_moderator"@ => JsonView::Bool(u.is_moderator),
            "is_admin"@ => JsonView::Bool(u.is_admin),
            "is_owner"@ => JsonView::Bool(u.is_owner),
            "score"@ => int_json(u.score),
            "commendations"@ => int_json(u.commendations),
            "reprimands"@ => int_json(u.reprimands),
            "channels"@ => JsonView::List(
                u.channels.map_values(|c: ChannelRefView| channel_json(c)),
            ),
            "flags"@ => JsonView::Text(u.flags),
            "created_at"@ => int_json(u.created_at),
            "updated_at"@ => int_json(u.updated_at),
        ],
    )
}

/// A named value, as JSON.
pub open spec fn value_json(v: UserValueView) -> JsonView {
    JsonView::Object(
        map!["key"@ => JsonView::Text(v.key), "value"@ => JsonView::Text(v.value)],
    )
}

/// An answer of the user database, as JSON.
pub open spec fn response_json(r: UserDbResponseView) -> JsonView {
    JsonView::Object(
        map![
            "success"@ => JsonView::Bool(r.success),
            "error"@ => JsonView::Text(r.error),
            "user"@ => match r.user {
                Some(u) => user_json(u),
                None => JsonView::Null,
            },
            "users"@ => JsonView::List(r.users.map_values(|u: UserRecordView| user_json(u))),
            "message"@ => JsonView::Text(r.message),
            "value"@ => match r.value {
                Some(v) => value_json(v),
                None => JsonView::Null,
            },
            "values"@ => JsonView::List(r.values.map_values(|v: UserValueView| value_json(v))),
        ],
    )
}

fn channel_to_json(c: &ChannelRef) -> (r: Json)
    ensures
        r@ == channel_json(c@),
{
    let mut m = no_members();
    put(&mut m, "platform", json_str(c.platform.as_str()));
    put(&mut m, "channel_id", json_str(c.channel_id.as_str()));
    put(&mut m, "handle", json_str(c.handle.as_str()));
    object(m)
}

fn channels_to_json(v: &Vec<ChannelRef>) -> (r: Json)
    ensures
        r@ == JsonView::List(views(v@).map_values(|c: ChannelRefView| channel_json(c))),
{
    let mut out: Vec<Json> = Vec::new();
    let ghost all = views(v@).map_values(|c: ChannelRefView| channel_json(c));
    for i in 0..v.len()
        invariant
            out@.len() == i,
            all == views(v@).map_values(|c: ChannelRefView| channel_json(c)),
            forall|j: int| 0 <= j < i ==> (#[trigger] out@[j])@ == all[j],
    {
        out.push(channel_to_json(&v[i]));
    }
    assert(items(out@) =~= all);
    list(out)
}

fn user_to_json(u: &UserRecord) -> (r: Json)
    ensures
        r@ == user_json(u@),
{
    let mut m = no_members();
    put(&mut m, "uuid7", json_str(u.uuid7.as_str()));
    put(&mut m, "username", json_str(u.username.as_str()));
    put(&mut m, "is_sponsor", Json::Bool(u.is_sponsor));
    put(&mut m, "is_moderator", Json::Bool(u.is_moderator));
    put(&mut m, "is_admin", Json::Bool(u.is_admin));
    put(&mut m, "is_owner", Json::Bool(u.is_owner));
    put(&mut m, "score", json_int(u.score));
    put(&mut m, "commendations", json_int(u.commendations));
    put(&mut m, "reprimands", json_int(u.reprimands));
    put(&mut m, "channels", channels_to_json(&u.channels));
    put(&mut m, "flags", json_str(u.flags.as_str()));
    put(&mut m, "created_at", json_int(u.created_at));
    put(&mut m, "updated_at", json_int(u.updated_at));
    object(m)
}

fn value_to_json(v: &UserValue) -> (r: Json)
    ensures
        r@ == value_json(v@),
{
    let mut m = no_members();
    put(&mut m, "key", json_str(v.key.as_str()));
    put(&mut m, "value", json_str(v.value.as_str()));
    object(m)
}

/// An answer of the user database, as JSON.
pub fn response_to_json(resp: &UserDbResponse) -> (r: Json)
    ensures
        r@ == response_json(resp@),
{
    let mut users: Vec<Json> = Vec::new();
    let ghost all_users = views(resp.users@).map_values(|u: UserRecordView| user_json(u));
    for i in 0..resp.users.len()
        invariant
            users@.len() == i,
            all_users == views(resp.users@).map_values(|u: UserRecordView| user_json(u)),
            forall|j: int| 0 <= j < i ==> (#[trigger] users@[j])@ == all_users[j],
    {
        users.push(user_to_json(&resp.users[i]));
    }
    assert(items(users@) =~= all_users);
    let mut values: Vec<Json> = Vec::new();
    let ghost all_values = views(resp.values@).map_values(|v: UserValueView| value_json(v));
    for i in 0..resp.values.len()
        invariant
            values@.len() == i,
            all_values == views(resp.values@).map_values(|v: UserValueView| value_json(v)),
            forall|j: int| 0 <= j < i ==> (#[trigger] values@[j])@ == all_values[j],
    {
        values.push(value_to_json(&resp.values[i]));
    }
    assert(items(values@) =~= all_values);
    let mut m = no_members();
    put(&mut m, "success", Json::Bool(resp.success));
    put(&mut m, "error", json_str(resp.error.as_str()));
    put(
        &mut m,
        "user",
        match &resp.user {
            Some(u) => user_to_json(u),
            None => Json::Null,
        },
    );
    put(&mut m, "users", list(users));
    put(&mut m, "message", json_str(resp.message.as_str()));
    put(
        &mut m,
        "value",
        match &resp.value {
            Some(v) => value_to_json(v),
            None => Json::Null,
        },
    );
    put(&mut m, "values", list(values));
    object(m)
}

/// An answer of the user database, as JSON text.
pub fn userdb_response_to_json(resp: &UserDbResponse) -> (r: String)
    ensures
        r@ == json_text(response_json(resp@)),
{
    write_json(&response_to_json(resp))
}

/// How a request to the user database went.
#[derive(Debug)]
pub enum Exchange {
    /// There was no connection, and none could be made.
    NotConnected(String),
    NotSent(String),
    Answered(UserDbResponse),
    /// The answer cannot be read.
    Unreadable(String),
    /// The answer is not in binary.
    NotBinary,
    Broken(String),
    Closed,
    TimedOut,
}

/// The words for a request that failed.
pub open spec fn failure_words(e: Exchange) -> Seq<char> {
    match e {
        Exchange::NotConnected(w) => "UserDB connect failed: "@ + w@,
        Exchange::NotSent(w) => "UserDB send failed: "@ + w@,
        Exchange::Answered(_) => Seq::empty(),
        Exchange::Unreadable(w) => w@,
        Exchange::NotBinary => "UserDB returned non-binary message"@,
        Exchange::Broken(w) => "UserDB recv error: "@ + w@,
        Exchange::Closed => "UserDB closed connection"@,
        Exchange::TimedOut => "UserDB request timed out"@,
    }
}

fn with_words(before: &str, words: &str) -> (r: String)
    ensures
        r@ == before@ + words@,
{
    let mut e = before.to_owned();
    e.append(words);
    e
}

/// The address of the user database.
pub struct UserDbClient {
    pub url: String,
    pub token: String,
}

impl UserDbClient {
    /// A client of the user database at a host and port.
    pub fn new(host: &str, port: u16, token: &str) -> (r: Self)
        ensures
            r.url@ == "ws://"@ + host@ + ":"@ + crate::text::decimal(port as nat),
            r.token@ == token@,
    {
        let mut url = "ws://".to_owned();
        url.append(host);
        url.append(":");
        url.append(crate::text::u64_text(port as u64).as_str());
        UserDbClient { url, token: token.to_owned() }
    }

    /// What a request comes to, and whether its connection is used again: one that failed is
    /// dropped, so that the next request connects anew.
    pub fn request(&self, exchange: Exchange) -> (r: (Result<UserDbResponse, String>, bool))
        ensures
            (match exchange {
                Exchange::Answered(a) => r.0 matches Ok(b) && b@ == a@,
                _ => r.0 matches Err(e) && e@ == failure_words(exchange),
            }),
            r.1 == r.0 is Ok,
    {
        match exchange {
            Exchange::Answered(a) => (Ok(a), true),
            Exchange::NotConnected(w) => (
                Err(with_words("UserDB connect failed: ", w.as_str())),
                false,
            ),
            Exchange::NotSent(w) => (Err(with_words("UserDB send failed: ", w.as_str())), false),
            Exchange::Unreadable(w) => (Err(w), false),
            Exchange::NotBinary => (
                Err("UserDB returned non-binary message".to_owned()),
                false,
            ),
            Exchange::Broken(w) => (Err(with_words("UserDB recv error: ", w.as_str())), false),
            Exchange::Closed => (Err("UserDB closed connection".to_owned()), false),
            Exchange::TimedOut => (Err("UserDB request timed out".to_owned()), false),
        }
    }

    /// Adds a user.
    pub fn add_user(&self, username: &str, channel: Option<ChannelRef>) -> (r: UserDbOp)
        ensures
            r@ == (UserDbOpView::AddUser { username: username@, channel: opt_view(channel) }),
    {
        UserDbOp::AddUser { username: username.to_owned(), channel }
    }

    /// Deletes a user on behalf of an actor.
    pub fn delete_user(&self, uuid7: &str, actor_uuid7: &str, actor_role: &str) -> (r: UserDbOp)
        ensures
            r@ == (UserDbOpView::DeleteUser {
                uuid7: uuid7@,
                actor_uuid7: actor_uuid7@,
                actor_role: actor_role@,
            }),
    {
        UserDbOp::DeleteUser {
            uuid7: uuid7.to_owned(),
            actor_uuid7: actor_uuid7.to_owned(),
            actor_role: actor_role.to_owned(),
        }
    }

    /// Raises a user's score.
    pub fn add_score(&self, uuid7: &str, delta: i64, reason: &str) -> (r: UserDbOp)
        ensures
            r@ == (UserDbOpView::AddScore { uuid7: uuid7@, delta, reason: reason@ }),
    {
        UserDbOp::AddScore { uuid7: uuid7.to_owned(), delta, reason: reason.to_owned() }
    }

    /// Lowers a user's score.
    pub fn remove_score(&self, uuid7: &str, delta: i64, reason: &str) -> (r: UserDbOp)
        ensures
            r@ == (UserDbOpView::RemoveScore { uuid7: uuid7@, delta, reason: reason@ }),
    {
        UserDbOp::RemoveScore { uuid7: uuid7.to_owned(), delta, reason: reason.to_owned() }
    }

    /// Adds a channel to a user.
    pub fn add_channel(&self, uuid7: &str, channel: Option<ChannelRef>) -> (r: UserDbOp)
        ensures
            r@ == (UserDbOpView::AddChannel { uuid7: uuid7@, channel: opt_view(channel) }),
    {
        UserDbOp::AddChannel { uuid7: uuid7.to_owned(), channel }
    }

    /// Takes a channel from a user.
    pub fn remove_channel(&self, uuid7: &str, platform: &str, channel_id: &str) -> (r: UserDbOp)
        ensures
            r@ == (UserDbOpView::RemoveChannel {
                uuid7: uuid7@,
                platform: platform@,
                channel_id: channel_id@,
            }),
    {
        UserDbOp::RemoveChannel {
            uuid7: uuid7.to_owned(),
            platform: platform.to_owned(),
            channel_id: channel_id.to_owned(),
        }
    }

    /// Looks a user up.
    pub fn get_user(&self, uuid7: &str, platform: &str, channel_id: &str, handle: &str) -> (r:
        UserDbOp)
        ensures
            r@ == (UserDbOpView::GetUser {
                uuid7: uuid7@,
                platform: platform@,
                channel_id: channel_id@,
                handle: handle@,
            }),
    {
        UserDbOp::GetUser {
            uuid7: uuid7.to_owned(),
            platform: platform.to_owned(),
            channel_id: channel_id.to_owned(),
            handle: handle.to_owned(),
        }
    }

    /// Lists users of a platform.
    pub fn list_users(&self, platform: &str, limit: i32, offset: i32) -> (r: UserDbOp)
        ensures
            r@ == (UserDbOpView::ListUsers { platform: platform@, limit, offset }),
    {
        UserDbOp::ListUsers { platform: platform.to_owned(), limit, offset }
    }

    /// Replaces a user's flags.
    pub fn update_flags(&self, uuid7: &str, flags: &str) -> (r: UserDbOp)
        ensures
            r@ == (UserDbOpView::UpdateFlags { uuid7: uuid7@, flags: flags@ }),
    {
        UserDbOp::UpdateFlags { uuid7: uuid7.to_owned(), flags: flags.to_owned() }
    }

    /// Sets a user's roles on behalf of an actor.
    pub fn set_roles(
        &self,
        uuid7: &str,
        actor_uuid7: &str,
        actor_role: &str,
        is_sponsor: bool,
        is_moderator: bool,
        is_admin: bool,
        is_owner: bool,
    ) -> (r: UserDbOp)
        ensures
            r@ == (UserDbOpView::SetRoles {
                uuid7: uuid7@,
                actor_uuid7: actor_uuid7@,
                actor_role: actor_role@,
                is_sponsor,
                is_moderator,
                is_admin,
                is_owner,
            }),
    {
        UserDbOp::SetRoles {
            uuid7: uuid7.to_owned(),
            actor_uuid7: actor_uuid7.to_owned(),
            actor_role: actor_role.to_owned(),
            is_sponsor,
            is_moderator,
            is_admin,
            is_owner,
        }
    }

    /// Reads a named value of a user.
    pub fn read_user_value(&self, uuid7: &str, key: &str) -> (r: UserDbOp)
        ensures
            r@ == (UserDbOpView::ReadUserValue { uuid7: uuid7@, key: key@ }),
    {
        UserDbOp::ReadUserValue { uuid7: uuid7.to_owned(), key: key.to_owned() }
    }

    /// Writes a named value of a user.
    pub fn write_user_value(&self, uuid7: &str, key: &str, value: &str) -> (r: UserDbOp)
        ensures
            r@ == (UserDbOpView::WriteUserValue { uuid7: uuid7@, key: key@, value: value@ }),
    {
        UserDbOp::WriteUserValue {
            uuid7: uuid7.to_owned(),
            key: key.to_owned(),
            value: value.to_owned(),
        }
    }

    /// Deletes a named value of a user.
    pub fn delete_user_value(&self, uuid7: &str, key: &str) -> (r: UserDbOp)
        ensures
            r@ == (UserDbOpView::DeleteUserValue { uuid7: uuid7@, key: key@ }),
    {
        UserDbOp::DeleteUserValue { uuid7: uuid7.to_owned(), key: key.to_owned() }
    }

    /// Lists the named values of a user.
    pub fn list_user_values(&self, uuid7: &str) -> (r: UserDbOp)
        ensures
            r@ == (UserDbOpView::ListUserValues { uuid7: uuid7@ }),
    {
        UserDbOp::ListUserValues { uuid7: uuid7.to_owned() }
    }

    /// Rates a user on behalf of another.
    pub fn rate_user(
        &self,
        giver_uuid7: &str,
        recipient_uuid7: &str,
        is_commendation: bool,
        platform: &str,
        handle: &str,
        reason: &str,
    ) -> (r: UserDbOp)
        ensures
            r@ == (UserDbOpView::RateUser {
                giver_uuid7: giver_uuid7@,
                recipient_uuid7: recipient_uuid7@,
                is_commendation,
                platform: platform@,
                handle: handle@,
                reason: reason@,
            }),
    {
        UserDbOp::RateUser {
            giver_uuid7: giver_uuid7.to_owned(),
            recipient_uuid7: recipient_uuid7.to_owned(),
            is_commendation,
            platform: platform.to_owned(),
            handle: handle.to_owned(),
            reason: reason.to_owned(),
        }
    }
}

} // verus!
