//! Queries about users: what a module may ask of the user database, on whose behalf, and
//! what it is answered.
//!
//! The user database is outside. Each query is a chain of steps: a step says what to ask
//! the database next, and the answer is handed to the function for the next step.
use crate::json::{
    json_read, json_str, json_text, member, member_bool, member_int, member_text, no_members,
    object, parse_json, put, view_of, write_json, Json, JsonView,
};
use crate::proto::{
    opt_view, pair_views, views, ChatMessage, ChatMessageView, SendToPlatforms,
    SendToPlatformsView, UserData, UserDataView, UserStylingTemplate, UserStylingTemplateView,
};
use crate::text::{
    count, count_char, decimal, decimal_int, has_byte_len, i64_text, same, u64_text, utf8_len,
};
use crate::trust::{actor_perm, userdb_actor_perm};
use crate::user_db_client::{
    response_json, userdb_response_to_json, ChannelRef, ChannelRefView, UserDbOp, UserDbOpView,
    UserDbResponse, UserDbResponseView, UserRecord, UserRecordView,
};
use vstd::prelude::*;

verus! {

/// What a query is answered.
#[derive(Debug)]
pub struct QueryReply {
    pub success: bool,
    pub text: String,
    pub error: String,
}

/// What a [`QueryReply`] says.
#[verifier::ext_equal]
pub struct QueryReplyView {
    pub success: bool,
    pub text: Seq<char>,
    pub error: Seq<char>,
}

impl View for QueryReply {
    type V = QueryReplyView;

    open spec fn view(&self) -> QueryReplyView {
        QueryReplyView {
            success: self.success,
            text: self.text@,
            error: self.error@,
        }
    }
}

impl Clone for QueryReply {
    fn clone(&self) -> (r: Self)
        ensures
            r@ == self@,
    {
        QueryReply {
            success: self.success,
            text: self.text.clone(),
            error: self.error.clone(),
        }
    }
}

/// The next step of a user database query.
#[derive(Debug)]
pub enum UserDbStep {
    /// Ask the user database.
    Ask(UserDbOp),
    /// Answer the query.
    Reply(QueryReply),
    /// The time at which a timeout ends cannot be written down.
    OutOfRange,
}

/// What a [`UserDbStep`] says.
#[verifier::ext_equal]
pub enum UserDbStepView {
    Ask(UserDbOpView),
    Reply(QueryReplyView),
    OutOfRange,
}

impl View for UserDbStep {
    type V = UserDbStepView;

    open spec fn view(&self) -> UserDbStepView {
        match *self {
            UserDbStep::Ask(x) => UserDbStepView::Ask(x@),
            UserDbStep::Reply(x) => UserDbStepView::Reply(x@),
            UserDbStep::OutOfRange => UserDbStepView::OutOfRange,
        }
    }
}

/// The next step of a moderation query.
#[derive(Debug)]
pub enum ModStep {
    /// Look up who asks.
    FindActor(UserDbOp),
    /// Look up who is meant.
    FindTarget(UserDbOp),
    /// Do it.
    Act(UserDbOp),
    /// Answer the query.
    Reply(QueryReply),
    /// The time at which a timeout ends cannot be written down.
    OutOfRange,
}

/// What a [`ModStep`] says.
#[verifier::ext_equal]
pub enum ModStepView {
    FindActor(UserDbOpView),
    FindTarget(UserDbOpView),
    Act(UserDbOpView),
    Reply(QueryReplyView),
    OutOfRange,
}

impl View for ModStep {
    type V = ModStepView;

    open spec fn view(&self) -> ModStepView {
        match *self {
            ModStep::FindActor(x) => ModStepView::FindActor(x@),
            ModStep::FindTarget(x) => ModStepView::FindTarget(x@),
            ModStep::Act(x) => ModStepView::Act(x@),
            ModStep::Reply(x) => ModStepView::Reply(x@),
            ModStep::OutOfRange => ModStepView::OutOfRange,
        }
    }
}

/// The next step of a rating.
#[derive(Debug)]
pub enum RatingStep {
    /// Look up who rates.
    FindGiver(UserDbOp),
    /// Look up who is rated.
    FindRecipient { giver: String, op: UserDbOp },
    /// Rate.
    Rate(UserDbOp),
    /// Answer the query.
    Reply(QueryReply),
}

/// What a [`RatingStep`] says.
#[verifier::ext_equal]
pub enum RatingStepView {
    FindGiver(UserDbOpView),
    FindRecipient { giver: Seq<char>, op: UserDbOpView },
    Rate(UserDbOpView),
    Reply(QueryReplyView),
}

impl View for RatingStep {
    type V = RatingStepView;

    open spec fn view(&self) -> RatingStepView {
        match *self {
            RatingStep::FindGiver(x) => RatingStepView::FindGiver(x@),
            RatingStep::FindRecipient { giver, op } => RatingStepView::FindRecipient {
                giver: giver@,
                op: op@,
            },
            RatingStep::Rate(x) => RatingStepView::Rate(x@),
            RatingStep::Reply(x) => RatingStepView::Reply(x@),
        }
    }
}

/// An answer of the user database, or the words of an error on the way to it.
pub open spec fn outcome_view(r: Result<UserDbResponse, String>) -> Result<
    UserDbResponseView,
    Seq<char>,
> {
    match r {
        Ok(resp) => Ok(resp@),
        Err(e) => Err(e@),
    }
}

/// A refusal.
pub open spec fn refused(error: Seq<char>) -> QueryReplyView {
    QueryReplyView { success: false, text: Seq::empty(), error }
}

pub(crate) fn refuse(error: String) -> (r: QueryReply)
    ensures
        r@ == refused(error@),
{
    QueryReply { success: false, text: String::new(), error }
}

pub(crate) fn refuse_with(error: &str) -> (r: QueryReply)
    ensures
        r@ == refused(error@),
{
    QueryReply { success: false, text: String::new(), error: error.to_owned() }
}

/// Two texts, one behind the other.
fn concat(a: &str, b: &str) -> (r: String)
    ensures
        r@ == a@ + b@,
{
    let mut r = a.to_owned();
    r.append(b);
    r
}

/// What a query is answered, given the user database's answer.
pub open spec fn answered(outcome: Result<UserDbResponseView, Seq<char>>) -> QueryReplyView {
    match outcome {
        Ok(resp) => QueryReplyView {
            success: resp.success,
            text: json_text(response_json(resp)),
            error: if resp.success {
                Seq::empty()
            } else {
                resp.error
            },
        },
        Err(e) => refused(e),
    }
}

/// What a query is answered, given the user database's answer.
pub fn finish_query(outcome: Result<UserDbResponse, String>) -> (r: QueryReply)
    ensures
        r@ == answered(outcome_view(outcome)),
{
    match outcome {
        Ok(resp) => {
            let text = userdb_response_to_json(&resp);
            QueryReply {
                success: resp.success,
                text,
                error: if resp.success {
                    String::new()
                } else {
                    resp.error
                },
            }
        },
        Err(e) => refuse(e),
    }
}

/// A member that is there and not null.
pub open spec fn given(payload: JsonView, key: Seq<char>) -> Option<JsonView> {
    match member(payload, key) {
        Some(v) => if v is Null {
            None
        } else {
            Some(v)
        },
        None => None,
    }
}

fn given_member<'a>(payload: &'a Json, key: &str) -> (r: Option<&'a Json>)
    ensures
        view_of(r) == given(payload@, key@),
{
    match payload.get(key) {
        Some(v) => if v.is_null() {
            None
        } else {
            Some(v)
        },
        None => None,
    }
}

/// The channel that a value describes.
pub open spec fn channel_of(v: Option<JsonView>) -> Option<ChannelRefView> {
    match v {
        Some(j) => if j is Null {
            None
        } else {
            Some(
                ChannelRefView {
                    platform: member_text(j, "platform"@, ""@),
                    channel_id: member_text(j, "channel_id"@, ""@),
                    handle: member_text(j, "handle"@, ""@),
                },
            )
        },
        None => None,
    }
}

/// The channel that a value describes.
pub fn parse_channel_ref(value: Option<&Json>) -> (r: Option<ChannelRef>)
    ensures
        opt_view(r) == channel_of(view_of(value)),
{
    match value {
        Some(j) => if j.is_null() {
            None
        } else {
            Some(
                ChannelRef {
                    platform: j.text_at("platform", ""),
                    channel_id: j.text_at("channel_id", ""),
                    handle: j.text_at("handle", ""),
                },
            )
        },
        None => None,
    }
}

/// When a timeout ends, in milliseconds since the epoch; `None` where that is no number
/// that can be written down.
pub open spec fn expiry(now_ms: Option<u64>, duration_secs: i64) -> Option<u64> {
    let now = match now_ms {
        Some(n) => n,
        None => 0,
    };
    if duration_secs >= 0 && now + duration_secs * 1000 <= u64::MAX {
        Some((now + duration_secs * 1000) as u64)
    } else {
        None
    }
}

fn expires_at(now_ms: Option<u64>, duration_secs: i64) -> (r: Option<u64>)
    ensures
        r == expiry(now_ms, duration_secs),
{
    let now: u64 = match now_ms {
        Some(n) => n,
        None => 0,
    };
    if duration_secs < 0 {
        return None;
    }
    let end: u128 = now as u128 + duration_secs as u128 * 1000u128;
    if end <= u64::MAX as u128 {
        Some(end as u64)
    } else {
        None
    }
}

/// The note of a ban.
pub open spec fn ban_note(reason: Seq<char>, now_ms: Option<u64>) -> JsonView {
    JsonView::Object(
        map![
            "banned"@ => JsonView::Bool(true),
            "reason"@ => JsonView::Text(reason),
            "at"@ => JsonView::Text(
                match now_ms {
                    Some(n) => decimal(n as nat),
                    None => Seq::empty(),
                },
            ),
        ],
    )
}

fn write_ban_note(reason: &str, now_ms: Option<u64>) -> (r: String)
    ensures
        r@ == json_text(ban_note(reason@, now_ms)),
{
    let at = match now_ms {
        Some(n) => u64_text(n),
        None => String::new(),
    };
    let mut m = no_members();
    put(&mut m, "banned", Json::Bool(true));
    put(&mut m, "reason", json_str(reason));
    put(&mut m, "at", json_str(at.as_str()));
    write_json(&object(m))
}

/// The note of a timeout.
pub open spec fn timeout_note(reason: Seq<char>, expires: u64) -> JsonView {
    JsonView::Object(
        map![
            "timed_out"@ => JsonView::Bool(true),
            "reason"@ => JsonView::Text(reason),
            "expires_at_ms"@ => JsonView::Pos(expires),
        ],
    )
}

fn write_timeout_note(reason: &str, expires: u64) -> (r: String)
    ensures
        r@ == json_text(timeout_note(reason@, expires)),
{
    let mut m = no_members();
    put(&mut m, "timed_out", Json::Bool(true));
    put(&mut m, "reason", json_str(reason));
    put(&mut m, "expires_at_ms", Json::Pos(expires));
    write_json(&object(m))
}

/// The low 32 bits of a number, as a signed number.
pub open spec fn low_i32(n: i64) -> i32 {
    n as i32
}

/// What a user database query asks.
pub open spec fn userdb_step(
    query_id: Seq<char>,
    p: JsonView,
    peer_loopback: bool,
    now_ms: Option<u64>,
) -> UserDbStepView {
    let uuid7 = member_text(p, "uuid7"@, ""@);
    let reason = member_text(p, "reason"@, ""@);
    let actor = member_text(p, "actor_uuid7"@, ""@);
    let role = actor_perm(peer_loopback, member_text(p, "actor_role"@, "user"@));
    let platform = member_text(p, "platform"@, ""@);
    let channel_id = member_text(p, "channel_id"@, ""@);
    let key = member_text(p, "key"@, ""@);
    if query_id == "userdb_add_user"@ {
        UserDbStepView::Ask(
            UserDbOpView::AddUser {
                username: member_text(p, "username"@, ""@),
                channel: channel_of(member(p, "channel"@)),
            },
        )
    } else if query_id == "userdb_delete_user"@ {
        UserDbStepView::Ask(
            UserDbOpView::DeleteUser { uuid7, actor_uuid7: actor, actor_role: role },
        )
    } else if query_id == "userdb_add_score"@ {
        UserDbStepView::Ask(
            UserDbOpView::AddScore { uuid7, delta: member_int(p, "delta"@, 1), reason },
        )
    } else if query_id == "userdb_remove_score"@ {
        UserDbStepView::Ask(
            UserDbOpView::RemoveScore { uuid7, delta: member_int(p, "delta"@, 1), reason },
        )
    } else if query_id == "userdb_add_channel"@ {
        UserDbStepView::Ask(
            UserDbOpView::AddChannel { uuid7, channel: channel_of(member(p, "channel"@)) },
        )
    } else if query_id == "userdb_remove_channel"@ {
        UserDbStepView::Ask(UserDbOpView::RemoveChannel { uuid7, platform, channel_id })
    } else if query_id == "userdb_get_user"@ {
        UserDbStepView::Ask(
            UserDbOpView::GetUser {
                uuid7,
                platform,
                channel_id,
                handle: member_text(p, "handle"@, ""@),
            },
        )
    } else if query_id == "userdb_list_users"@ {
        UserDbStepView::Ask(
            UserDbOpView::ListUsers {
                platform,
                limit: low_i32(member_int(p, "limit"@, 100)),
                offset: low_i32(member_int(p, "offset"@, 0)),
            },
        )
    } else if query_id == "userdb_update_flags"@ {
        UserDbStepView::Ask(
            UserDbOpView::UpdateFlags { uuid7, flags: member_text(p, "flags"@, "{}"@) },
        )
    } else if query_id == "userdb_set_roles"@ {
        UserDbStepView::Ask(
            UserDbOpView::SetRoles {
                uuid7,
                actor_uuid7: actor,
                actor_role: role,
                is_sponsor: member_bool(p, "is_sponsor"@),
                is_moderator: member_bool(p, "is_moderator"@),
                is_admin: member_bool(p, "is_admin"@),
                is_owner: member_bool(p, "is_owner"@),
            },
        )
    } else if query_id == "userdb_read_user_value"@ {
        UserDbStepView::Ask(UserDbOpView::ReadUserValue { uuid7, key })
    } else if query_id == "userdb_write_user_value"@ {
        UserDbStepView::Ask(
            UserDbOpView::WriteUserValue { uuid7, key, value: member_text(p, "value"@, ""@) },
        )
    } else if query_id == "userdb_delete_user_value"@ {
        UserDbStepView::Ask(UserDbOpView::DeleteUserValue { uuid7, key })
    } else if query_id == "userdb_list_user_values"@ {
        UserDbStepView::Ask(UserDbOpView::ListUserValues { uuid7 })
    } else if query_id == "userdb_commendation"@ {
        UserDbStepView::Ask(UserDbOpView::AddScore { uuid7, delta: 1, reason })
    } else if query_id == "userdb_reprimand"@ {
        UserDbStepView::Ask(UserDbOpView::RemoveScore { uuid7, delta: 1, reason })
    } else if query_id == "userdb_ban"@ {
        UserDbStepView::Ask(
            UserDbOpView::WriteUserValue {
                uuid7,
                key: "ban"@,
                value: json_text(ban_note(reason, now_ms)),
            },
        )
    } else if query_id == "userdb_timeout"@ {
        match expiry(now_ms, member_int(p, "duration_secs"@, 300)) {
            Some(expires) => UserDbStepView::Ask(
                UserDbOpView::WriteUserValue {
                    uuid7,
                    key: "timeout"@,
                    value: json_text(timeout_note(reason, expires)),
                },
            ),
            None => UserDbStepView::OutOfRange,
        }
    } else {
        UserDbStepView::Reply(refused("Unknown userdb query: "@ + query_id))
    }
}

/// What a user database query asks.
pub fn userdb_request(query_id: &str, p: &Json, peer_loopback: bool, now_ms: Option<u64>) -> (r:
    UserDbStep)
    ensures
        r@ == userdb_step(query_id@, p@, peer_loopback, now_ms),
{
    let uuid7 = p.text_at("uuid7", "");
    if same(query_id, "userdb_add_user") {
        UserDbStep::Ask(
            UserDbOp::AddUser {
                username: p.text_at("username", ""),
                channel: parse_channel_ref(p.get("channel")),
            },
        )
    } else if same(query_id, "userdb_delete_user") {
        UserDbStep::Ask(
            UserDbOp::DeleteUser {
                uuid7,
                actor_uuid7: p.text_at("actor_uuid7", ""),
                actor_role: userdb_actor_perm(
                    peer_loopback,
                    p.text_at("actor_role", "user").as_str(),
                ),
            },
        )
    } else if same(query_id, "userdb_add_score") {
        UserDbStep::Ask(
            UserDbOp::AddScore {
                uuid7,
                delta: p.int_at("delta", 1),
                reason: p.text_at("reason", ""),
            },
        )
    } else if same(query_id, "userdb_remove_score") {
        UserDbStep::Ask(
            UserDbOp::RemoveScore {
                uuid7,
                delta: p.int_at("delta", 1),
                reason: p.text_at("reason", ""),
            },
        )
    } else if same(query_id, "userdb_add_channel") {
        UserDbStep::Ask(
            UserDbOp::AddChannel { uuid7, channel: parse_channel_ref(p.get("channel")) },
        )
    } else if same(query_id, "userdb_remove_channel") {
        UserDbStep::Ask(
            UserDbOp::RemoveChannel {
                uuid7,
                platform: p.text_at("platform", ""),
                channel_id: p.text_at("channel_id", ""),
            },
        )
    } else if same(query_id, "userdb_get_user") {
        UserDbStep::Ask(
            UserDbOp::GetUser {
                uuid7,
                platform: p.text_at("platform", ""),
                channel_id: p.text_at("channel_id", ""),
                handle: p.text_at("handle", ""),
            },
        )
    } else if same(query_id, "userdb_list_users") {
        UserDbStep::Ask(
            UserDbOp::ListUsers {
                platform: p.text_at("platform", ""),
                limit: p.int_at("limit", 100) as i32,
                offset: p.int_at("offset", 0) as i32,
            },
        )
    } else if same(query_id, "userdb_update_flags") {
        UserDbStep::Ask(UserDbOp::UpdateFlags { uuid7, flags: p.text_at("flags", "{}") })
    } else if same(query_id, "userdb_set_roles") {
        UserDbStep::Ask(
            UserDbOp::SetRoles {
                uuid7,
                actor_uuid7: p.text_at("actor_uuid7", ""),
                actor_role: userdb_actor_perm(
                    peer_loopback,
                    p.text_at("actor_role", "user").as_str(),
                ),
                is_sponsor: p.bool_at("is_sponsor"),
                is_moderator: p.bool_at("is_moderator"),
                is_admin: p.bool_at("is_admin"),
                is_owner: p.bool_at("is_owner"),
            },
        )
    } else if same(query_id, "userdb_read_user_value") {
        UserDbStep::Ask(UserDbOp::ReadUserValue { uuid7, key: p.text_at("key", "") })
    } else if same(query_id, "userdb_write_user_value") {
        UserDbStep::Ask(
            UserDbOp::WriteUserValue {
                uuid7,
                key: p.text_at("key", ""),
                value: p.text_at("value", ""),
            },
        )
    } else if same(query_id, "userdb_delete_user_value") {
        UserDbStep::Ask(UserDbOp::DeleteUserValue { uuid7, key: p.text_at("key", "") })
    } else if same(query_id, "userdb_list_user_values") {
        UserDbStep::Ask(UserDbOp::ListUserValues { uuid7 })
    } else if same(query_id, "userdb_commendation") {
        UserDbStep::Ask(UserDbOp::AddScore { uuid7, delta: 1, reason: p.text_at("reason", "") })
    } else if same(query_id, "userdb_reprimand") {
        UserDbStep::Ask(UserDbOp::RemoveScore { uuid7, delta: 1, reason: p.text_at("reason", "") })
    } else if same(query_id, "userdb_ban") {
        UserDbStep::Ask(
            UserDbOp::WriteUserValue {
                uuid7,
                key: "ban".to_owned(),
                value: write_ban_note(p.text_at("reason", "").as_str(), now_ms),
            },
        )
    } else if same(query_id, "userdb_timeout") {
        match expires_at(now_ms, p.int_at("duration_secs", 300)) {
            Some(expires) => UserDbStep::Ask(
                UserDbOp::WriteUserValue {
                    uuid7,
                    key: "timeout".to_owned(),
                    value: write_timeout_note(p.text_at("reason", "").as_str(), expires),
                },
            ),
            None => UserDbStep::OutOfRange,
        }
    } else {
        UserDbStep::Reply(refuse(concat("Unknown userdb query: ", query_id)))
    }
}

/// Begins a user database query of the control surface. Its answer is [`finish_query`]'s.
pub fn userdb_virtual_query(
    query_id: &str,
    sql: &str,
    peer_loopback: bool,
    now_ms: Option<u64>,
) -> (r: UserDbStep)
    ensures
        r@ == (match json_read(sql@) {
            Ok(p) => userdb_step(query_id@, p, peer_loopback, now_ms),
            Err(e) => UserDbStepView::Reply(refused("Invalid userdb payload: "@ + e)),
        }),
{
    match parse_json(sql) {
        Ok(p) => userdb_request(query_id, &p, peer_loopback, now_ms),
        Err(e) => UserDbStep::Reply(refuse(concat("Invalid userdb payload: ", e.as_str()))),
    }
}

/// How a user is looked up: by id where one is given, else by platform and handle.
pub open spec fn lookup(uuid7: Seq<char>, platform: Seq<char>, handle: Seq<char>) -> UserDbOpView {
    if uuid7.len() > 0 {
        UserDbOpView::GetUser { uuid7, platform: ""@, channel_id: ""@, handle: ""@ }
    } else {
        UserDbOpView::GetUser { uuid7: ""@, platform, channel_id: handle, handle }
    }
}

fn look_up(uuid7: &str, platform: &str, handle: &str) -> (r: UserDbOp)
    ensures
        r@ == lookup(uuid7@, platform@, handle@),
{
    if uuid7.unicode_len() > 0 {
        UserDbOp::GetUser {
            uuid7: uuid7.to_owned(),
            platform: "".to_owned(),
            channel_id: "".to_owned(),
            handle: "".to_owned(),
        }
    } else {
        UserDbOp::GetUser {
            uuid7: "".to_owned(),
            platform: platform.to_owned(),
            channel_id: handle.to_owned(),
            handle: handle.to_owned(),
        }
    }
}

/// A user who may moderate.
pub open spec fn may_moderate(u: UserRecordView) -> bool {
    u.is_moderator || u.is_admin || u.is_owner
}

/// `User 'handle' not found on platform`, and the like.
pub open spec fn not_found(
    who: Seq<char>,
    handle: Seq<char>,
    platform: Seq<char>,
) -> Seq<char> {
    who + " '"@ + handle + "' not found on "@ + platform
}

fn not_found_text(who: &str, handle: &str, platform: &str) -> (r: String)
    ensures
        r@ == not_found(who@, handle@, platform@),
{
    let mut r = who.to_owned();
    r.append(" '");
    r.append(handle);
    r.append("' not found on ");
    r.append(platform);
    r
}

/// The automated scorer may change scores without a human behind it; nothing else may.
pub open spec fn system_path(query_id: Seq<char>, requester: Seq<char>) -> bool {
    (query_id == "mod_commend"@ || query_id == "mod_reprimand"@) && requester
        == "score-messages"@
}

/// What a moderation query does to a user.
pub open spec fn mod_act_step(
    query_id: Seq<char>,
    p: JsonView,
    uuid7: Seq<char>,
    now_ms: Option<u64>,
) -> ModStepView {
    let reason = member_text(p, "reason"@, ""@);
    if query_id == "mod_commend"@ {
        ModStepView::Act(UserDbOpView::AddScore { uuid7, delta: 1, reason })
    } else if query_id == "mod_reprimand"@ {
        ModStepView::Act(UserDbOpView::RemoveScore { uuid7, delta: 1, reason })
    } else if query_id == "mod_ban"@ {
        ModStepView::Act(
            UserDbOpView::WriteUserValue {
                uuid7,
                key: "ban"@,
                value: json_text(ban_note(reason, now_ms)),
            },
        )
    } else if query_id == "mod_timeout"@ {
        match expiry(now_ms, member_int(p, "duration_secs"@, 300)) {
            Some(expires) => ModStepView::Act(
                UserDbOpView::WriteUserValue {
                    uuid7,
                    key: "timeout"@,
                    value: json_text(timeout_note(reason, expires)),
                },
            ),
            None => ModStepView::OutOfRange,
        }
    } else {
        ModStepView::Reply(refused("Unknown mod query: "@ + query_id))
    }
}

fn mod_act(query_id: &str, p: &Json, uuid7: &str, now_ms: Option<u64>) -> (r: ModStep)
    ensures
        r@ == mod_act_step(query_id@, p@, uuid7@, now_ms),
{
    let reason = p.text_at("reason", "");
    if same(query_id, "mod_commend") {
        ModStep::Act(UserDbOp::AddScore { uuid7: uuid7.to_owned(), delta: 1, reason })
    } else if same(query_id, "mod_reprimand") {
        ModStep::Act(UserDbOp::RemoveScore { uuid7: uuid7.to_owned(), delta: 1, reason })
    } else if same(query_id, "mod_ban") {
        ModStep::Act(
            UserDbOp::WriteUserValue {
                uuid7: uuid7.to_owned(),
                key: "ban".to_owned(),
                value: write_ban_note(reason.as_str(), now_ms),
            },
        )
    } else if same(query_id, "mod_timeout") {
        match expires_at(now_ms, p.int_at("duration_secs", 300)) {
            Some(expires) => ModStep::Act(
                UserDbOp::WriteUserValue {
                    uuid7: uuid7.to_owned(),
                    key: "timeout".to_owned(),
                    value: write_timeout_note(reason.as_str(), expires),
                },
            ),
            None => ModStep::OutOfRange,
        }
    } else {
        ModStep::Reply(refuse(concat("Unknown mod query: ", query_id)))
    }
}

/// Who a moderation query is about: by id where one is given, else by platform and handle.
pub open spec fn mod_target_step(
    query_id: Seq<char>,
    p: JsonView,
    now_ms: Option<u64>,
) -> ModStepView {
    let uuid7 = member_text(p, "uuid7"@, ""@);
    let platform = member_text(p, "platform"@, ""@);
    let handle = member_text(p, "handle"@, ""@);
    if uuid7.len() > 0 {
        mod_act_step(query_id, p, uuid7, now_ms)
    } else if platform.len() > 0 && handle.len() > 0 {
        ModStepView::FindTarget(lookup(""@, platform, handle))
    } else {
        ModStepView::Reply(refused("mod query requires uuid7 or platform + handle"@))
    }
}

fn mod_target(query_id: &str, p: &Json, now_ms: Option<u64>) -> (r: ModStep)
    ensures
        r@ == mod_target_step(query_id@, p@, now_ms),
{
    let uuid7 = p.text_at("uuid7", "");
    let platform = p.text_at("platform", "");
    let handle = p.text_at("handle", "");
    proof {
        reveal_strlit("");
    }
    if uuid7.as_str().unicode_len() > 0 {
        mod_act(query_id, p, uuid7.as_str(), now_ms)
    } else if platform.as_str().unicode_len() > 0 && handle.as_str().unicode_len() > 0 {
        ModStep::FindTarget(look_up("", platform.as_str(), handle.as_str()))
    } else {
        ModStep::Reply(refuse_with("mod query requires uuid7 or platform + handle"))
    }
}

/// How a moderation query begins: with the one who asks, who has to be found first.
pub open spec fn mod_begin_step(
    query_id: Seq<char>,
    p: JsonView,
    requester: Seq<char>,
    now_ms: Option<u64>,
) -> ModStepView {
    match given(p, "actor"@) {
        Some(a) => ModStepView::FindActor(
            lookup(
                member_text(a, "uuid7"@, ""@),
                member_text(a, "platform"@, ""@),
                member_text(a, "handle"@, ""@),
            ),
        ),
        None => if system_path(query_id, requester) {
            mod_target_step(query_id, p, now_ms)
        } else {
            ModStepView::Reply(refused("permission denied: missing actor"@))
        },
    }
}

/// Begins a moderation query whose payload was read.
pub fn mod_begin(query_id: &str, p: &Json, requester: &str, now_ms: Option<u64>) -> (r: ModStep)
    ensures
        r@ == mod_begin_step(query_id@, p@, requester@, now_ms),
{
    match given_member(p, "actor") {
        Some(a) => ModStep::FindActor(
            look_up(
                a.text_at("uuid7", "").as_str(),
                a.text_at("platform", "").as_str(),
                a.text_at("handle", "").as_str(),
            ),
        ),
        None => {
            if (same(query_id, "mod_commend") || same(query_id, "mod_reprimand")) && same(
                requester,
                "score-messages",
            ) {
                mod_target(query_id, p, now_ms)
            } else {
                ModStep::Reply(refuse_with("permission denied: missing actor"))
            }
        },
    }
}

/// Begins a moderation query, and gives its payload for the steps that follow.
pub fn mod_virtual_query(query_id: &str, sql: &str, requester: &str, now_ms: Option<u64>) -> (r: (
    ModStep,
    Json,
))
    ensures
        (match json_read(sql@) {
            Ok(p) => r.1@ == p && r.0@ == mod_begin_step(query_id@, p, requester@, now_ms),
            Err(e) => r.0@ == ModStepView::Reply(refused("Invalid mod payload: "@ + e)),
        }),
{
    match parse_json(sql) {
        Ok(p) => {
            let step = mod_begin(query_id, &p, requester, now_ms);
            (step, p)
        },
        Err(e) => (
            ModStep::Reply(refuse(concat("Invalid mod payload: ", e.as_str()))),
            Json::Null,
        ),
    }
}

/// The step after the one who asks was looked up.
pub open spec fn mod_actor_step(
    query_id: Seq<char>,
    p: JsonView,
    outcome: Result<UserDbResponseView, Seq<char>>,
    now_ms: Option<u64>,
) -> ModStepView {
    match outcome {
        Err(e) => ModStepView::Reply(refused("Actor lookup failed: "@ + e)),
        Ok(resp) => match resp.user {
            Some(u) if may_moderate(u) => mod_target_step(query_id, p, now_ms),
            _ => ModStepView::Reply(
                refused("permission denied: actor is not a moderator/admin/owner"@),
            ),
        },
    }
}

/// The step after the one who asks was looked up.
pub fn mod_actor_found(
    query_id: &str,
    p: &Json,
    outcome: Result<UserDbResponse, String>,
    now_ms: Option<u64>,
) -> (r: ModStep)
    ensures
        r@ == mod_actor_step(query_id@, p@, outcome_view(outcome), now_ms),
{
    match outcome {
        Err(e) => ModStep::Reply(refuse(concat("Actor lookup failed: ", e.as_str()))),
        Ok(resp) => {
            let allowed = match &resp.user {
                Some(u) => u.is_moderator || u.is_admin || u.is_owner,
                None => false,
            };
            if allowed {
                mod_target(query_id, p, now_ms)
            } else {
                ModStep::Reply(
                    refuse_with("permission denied: actor is not a moderator/admin/owner"),
                )
            }
        },
    }
}

/// The step after the one who is meant was looked up.
pub open spec fn mod_found_step(
    query_id: Seq<char>,
    p: JsonView,
    outcome: Result<UserDbResponseView, Seq<char>>,
    now_ms: Option<u64>,
) -> ModStepView {
    let missing = ModStepView::Reply(
        refused(
            not_found("User"@, member_text(p, "handle"@, ""@), member_text(p, "platform"@, ""@)),
        ),
    );
    match outcome {
        Err(e) => ModStepView::Reply(refused(e)),
        Ok(resp) => match resp.user {
            Some(u) if resp.success => mod_act_step(query_id, p, u.uuid7, now_ms),
            _ => missing,
        },
    }
}

/// The step after the one who is meant was looked up.
pub fn mod_target_found(
    query_id: &str,
    p: &Json,
    outcome: Result<UserDbResponse, String>,
    now_ms: Option<u64>,
) -> (r: ModStep)
    ensures
        r@ == mod_found_step(query_id@, p@, outcome_view(outcome), now_ms),
{
    match outcome {
        Err(e) => ModStep::Reply(refuse(e)),
        Ok(resp) => {
            if resp.success {
                if let Some(u) = &resp.user {
                    return mod_act(query_id, p, u.uuid7.as_str(), now_ms);
                }
            }
            ModStep::Reply(
                refuse(
                    not_found_text(
                        "User",
                        p.text_at("handle", "").as_str(),
                        p.text_at("platform", "").as_str(),
                    ),
                ),
            )
        },
    }
}

/// Without an actor a moderation query acts only on the automated scorer's behalf, and
/// then only on scores.
pub proof fn law_no_action_without_actor(
    query_id: Seq<char>,
    p: JsonView,
    requester: Seq<char>,
    now_ms: Option<u64>,
)
    ensures
        ({
            let step = mod_begin_step(query_id, p, requester, now_ms);
            &&& (step is Act || step is FindTarget) ==> system_path(query_id, requester)
            &&& (step matches ModStepView::Act(op) ==> op is AddScore || op is RemoveScore)
        }),
{
}

/// With an actor a moderation query goes on only where the actor was found and moderates.
pub proof fn law_only_moderators_act(
    query_id: Seq<char>,
    p: JsonView,
    outcome: Result<UserDbResponseView, Seq<char>>,
    now_ms: Option<u64>,
)
    ensures
        ({
            let step = mod_actor_step(query_id, p, outcome, now_ms);
            (step is Act || step is FindTarget || step is OutOfRange) ==> (outcome matches Ok(resp)
                && resp.user matches Some(u) && may_moderate(u))
        }),
{
}

/// The module that may bring a rating.
pub open spec fn rating_module(query_id: Seq<char>) -> Seq<char> {
    if query_id == "chat_commend"@ {
        "commend"@
    } else {
        "reprimand"@
    }
}

/// The rating itself. Nobody rates themselves.
pub open spec fn rate_step(
    query_id: Seq<char>,
    p: JsonView,
    giver: Seq<char>,
    recipient: Seq<char>,
) -> RatingStepView {
    if recipient == giver {
        RatingStepView::Reply(refused("you cannot rate yourself"@))
    } else {
        RatingStepView::Rate(
            UserDbOpView::RateUser {
                giver_uuid7: giver,
                recipient_uuid7: recipient,
                is_commendation: query_id == "chat_commend"@,
                platform: member_text(p, "platform"@, ""@),
                handle: member_text(p, "handle"@, ""@),
                reason: member_text(p, "reason"@, ""@),
            },
        )
    }
}

fn rate(query_id: &str, p: &Json, giver: &str, recipient: &str) -> (r: RatingStep)
    ensures
        r@ == rate_step(query_id@, p@, giver@, recipient@),
{
    if same(recipient, giver) {
        RatingStep::Reply(refuse_with("you cannot rate yourself"))
    } else {
        RatingStep::Rate(
            UserDbOp::RateUser {
                giver_uuid7: giver.to_owned(),
                recipient_uuid7: recipient.to_owned(),
                is_commendation: same(query_id, "chat_commend"),
                platform: p.text_at("platform", ""),
                handle: p.text_at("handle", ""),
                reason: p.text_at("reason", ""),
            },
        )
    }
}

/// The step when it is known who rates.
pub open spec fn rating_recipient_step(
    query_id: Seq<char>,
    p: JsonView,
    giver: Seq<char>,
) -> RatingStepView {
    let uuid7 = member_text(p, "uuid7"@, ""@);
    let platform = member_text(p, "platform"@, ""@);
    let handle = member_text(p, "handle"@, ""@);
    if uuid7.len() > 0 {
        rate_step(query_id, p, giver, uuid7)
    } else if platform.len() > 0 && handle.len() > 0 {
        RatingStepView::FindRecipient { giver, op: lookup(""@, platform, handle) }
    } else {
        RatingStepView::Reply(refused("rating requires uuid7 or platform+handle"@))
    }
}

fn rating_recipient(query_id: &str, p: &Json, giver: &str) -> (r: RatingStep)
    ensures
        r@ == rating_recipient_step(query_id@, p@, giver@),
{
    let uuid7 = p.text_at("uuid7", "");
    let platform = p.text_at("platform", "");
    let handle = p.text_at("handle", "");
    proof {
        reveal_strlit("");
    }
    if uuid7.as_str().unicode_len() > 0 {
        rate(query_id, p, giver, uuid7.as_str())
    } else if platform.as_str().unicode_len() > 0 && handle.as_str().unicode_len() > 0 {
        RatingStep::FindRecipient {
            giver: giver.to_owned(),
            op: look_up("", platform.as_str(), handle.as_str()),
        }
    } else {
        RatingStep::Reply(refuse_with("rating requires uuid7 or platform+handle"))
    }
}

/// How a rating begins: with the one who rates, who has to be found first. Any known user may
/// rate.
pub open spec fn rating_begin_step(p: JsonView) -> RatingStepView {
    match given(p, "actor"@) {
        None => RatingStepView::Reply(refused("rating requires an actor"@)),
        Some(a) => {
            let uuid7 = member_text(a, "uuid7"@, ""@);
            let platform = member_text(a, "platform"@, ""@);
            let handle = member_text(a, "handle"@, ""@);
            if uuid7.len() > 0 || (platform.len() > 0 && handle.len() > 0) {
                RatingStepView::FindGiver(lookup(uuid7, platform, handle))
            } else {
                RatingStepView::Reply(refused("rating actor requires uuid7 or platform+handle"@))
            }
        },
    }
}

/// Begins a rating whose payload was read.
pub fn rating_begin(p: &Json) -> (r: RatingStep)
    ensures
        r@ == rating_begin_step(p@),
{
    proof {
        reveal_strlit("");
    }
    match given_member(p, "actor") {
        None => RatingStep::Reply(refuse_with("rating requires an actor")),
        Some(a) => {
            let uuid7 = a.text_at("uuid7", "");
            let platform = a.text_at("platform", "");
            let handle = a.text_at("handle", "");
            if uuid7.as_str().unicode_len() > 0 || (platform.as_str().unicode_len() > 0
                && handle.as_str().unicode_len() > 0) {
                RatingStep::FindGiver(
                    look_up(uuid7.as_str(), platform.as_str(), handle.as_str()),
                )
            } else {
                RatingStep::Reply(refuse_with("rating actor requires uuid7 or platform+handle"))
            }
        },
    }
}

/// Begins a rating, and gives its payload for the steps that follow. Only the module made for
/// a rating may bring it.
pub fn chat_rating_virtual_query(query_id: &str, sql: &str, requester: &str) -> (r: (
    RatingStep,
    Json,
))
    ensures
        (if requester@ != rating_module(query_id@) {
            r.0@ == RatingStepView::Reply(
                refused(query_id@ + " denied: not the '"@ + rating_module(query_id@) + "' module"@),
            )
        } else {
            match json_read(sql@) {
                Ok(p) => r.1@ == p && r.0@ == rating_begin_step(p),
                Err(e) => r.0@ == RatingStepView::Reply(refused("Invalid rating payload: "@ + e)),
            }
        }),
{
    let expected = if same(query_id, "chat_commend") {
        "commend"
    } else {
        "reprimand"
    };
    if !same(requester, expected) {
        let mut error = query_id.to_owned();
        error.append(" denied: not the '");
        error.append(expected);
        error.append("' module");
        return (RatingStep::Reply(refuse(error)), Json::Null);
    }
    match parse_json(sql) {
        Ok(p) => {
            let step = rating_begin(&p);
            (step, p)
        },
        Err(e) => (
            RatingStep::Reply(refuse(concat("Invalid rating payload: ", e.as_str()))),
            Json::Null,
        ),
    }
}

/// The id of a user who was looked up; else why there is none, such as that nobody was found.
pub open spec fn found_uuid(
    outcome: Result<UserDbResponseView, Seq<char>>,
    who: Seq<char>,
    nobody: Seq<char>,
) -> Result<Seq<char>, Seq<char>> {
    match outcome {
        Err(e) => Err(who + " lookup failed: "@ + e),
        Ok(resp) => match resp.user {
            Some(u) if resp.success => Ok(u.uuid7),
            _ => Err(nobody),
        },
    }
}

fn find_uuid(outcome: Result<UserDbResponse, String>, who: &str, nobody: String) -> (r: Result<
    String,
    String,
>)
    ensures
        (match r {
            Ok(u) => found_uuid(outcome_view(outcome), who@, nobody@)
                == Ok::<Seq<char>, Seq<char>>(u@),
            Err(e) => found_uuid(outcome_view(outcome), who@, nobody@)
                == Err::<Seq<char>, Seq<char>>(e@),
        }),
{
    match outcome {
        Err(e) => {
            let mut t = who.to_owned();
            t.append(" lookup failed: ");
            t.append(e.as_str());
            Err(t)
        },
        Ok(resp) => {
            if resp.success {
                if let Some(u) = resp.user {
                    return Ok(u.uuid7);
                }
            }
            Err(nobody)
        },
    }
}

/// What is said of one who would rate and was not found: the id they were looked up by, else
/// the handle and the platform.
pub open spec fn unknown_giver(a: JsonView) -> Seq<char> {
    let uuid7 = member_text(a, "uuid7"@, ""@);
    if uuid7.len() > 0 {
        "giver '"@ + uuid7 + "' not found"@
    } else {
        not_found("giver"@, member_text(a, "handle"@, ""@), member_text(a, "platform"@, ""@))
    }
}

fn unknown_giver_text(a: &Json) -> (r: String)
    ensures
        r@ == unknown_giver(a@),
{
    proof {
        reveal_strlit("");
    }
    let uuid7 = a.text_at("uuid7", "");
    if uuid7.as_str().unicode_len() > 0 {
        let mut r = "giver '".to_owned();
        r.append(uuid7.as_str());
        r.append("' not found");
        r
    } else {
        not_found_text(
            "giver",
            a.text_at("handle", "").as_str(),
            a.text_at("platform", "").as_str(),
        )
    }
}

/// The step after the one who rates was looked up.
pub open spec fn rating_giver_step(
    query_id: Seq<char>,
    p: JsonView,
    outcome: Result<UserDbResponseView, Seq<char>>,
) -> RatingStepView {
    let a = match given(p, "actor"@) {
        Some(a) => a,
        None => JsonView::Null,
    };
    match found_uuid(outcome, "giver"@, unknown_giver(a)) {
        Ok(giver) => rating_recipient_step(query_id, p, giver),
        Err(e) => RatingStepView::Reply(refused(e)),
    }
}

/// The step after the one who rates was looked up.
pub fn rating_giver_found(query_id: &str, p: &Json, outcome: Result<UserDbResponse, String>) -> (r:
    RatingStep)
    ensures
        r@ == rating_giver_step(query_id@, p@, outcome_view(outcome)),
{
    let nobody = match given_member(p, "actor") {
        Some(a) => unknown_giver_text(a),
        None => unknown_giver_text(&Json::Null),
    };
    match find_uuid(outcome, "giver", nobody) {
        Ok(giver) => rating_recipient(query_id, p, giver.as_str()),
        Err(e) => RatingStep::Reply(refuse(e)),
    }
}

/// The step after the one who is rated was looked up.
pub open spec fn rating_found_step(
    query_id: Seq<char>,
    p: JsonView,
    giver: Seq<char>,
    outcome: Result<UserDbResponseView, Seq<char>>,
) -> RatingStepView {
    match found_uuid(
        outcome,
        "target"@,
        not_found("target"@, member_text(p, "handle"@, ""@), member_text(p, "platform"@, ""@)),
    ) {
        Ok(recipient) => rate_step(query_id, p, giver, recipient),
        Err(e) => RatingStepView::Reply(refused(e)),
    }
}

/// The step after the one who is rated was looked up.
pub fn rating_recipient_found(
    query_id: &str,
    p: &Json,
    giver: &str,
    outcome: Result<UserDbResponse, String>,
) -> (r: RatingStep)
    ensures
        r@ == rating_found_step(query_id@, p@, giver@, outcome_view(outcome)),
{
    let handle = p.text_at("handle", "");
    let platform = p.text_at("platform", "");
    let nobody = not_found_text("target", handle.as_str(), platform.as_str());
    match find_uuid(outcome, "target", nobody) {
        Ok(recipient) => rate(query_id, p, giver, recipient.as_str()),
        Err(e) => RatingStep::Reply(refuse(e)),
    }
}

/// What a rating is answered. A refusal gives its reason, such as how long one has to wait.
pub open spec fn rating_answer(outcome: Result<UserDbResponseView, Seq<char>>) -> QueryReplyView {
    match outcome {
        Ok(resp) => if resp.success {
            QueryReplyView { success: true, text: resp.message, error: Seq::empty() }
        } else {
            refused(
                if resp.error.len() == 0 {
                    resp.message
                } else {
                    resp.error
                },
            )
        },
        Err(e) => refused("rating failed: "@ + e),
    }
}

/// What a rating is answered.
pub fn rating_finish(outcome: Result<UserDbResponse, String>) -> (r: QueryReply)
    ensures
        r@ == rating_answer(outcome_view(outcome)),
{
    match outcome {
        Ok(resp) => if resp.success {
            QueryReply { success: true, text: resp.message, error: String::new() }
        } else if resp.error.as_str().unicode_len() == 0 {
            refuse(resp.message)
        } else {
            refuse(resp.error)
        },
        Err(e) => refuse(concat("rating failed: ", e.as_str())),
    }
}

/// Whatever the way to it, nobody rates themselves.
pub proof fn law_nobody_rates_themselves(
    query_id: Seq<char>,
    p: JsonView,
    giver: Seq<char>,
    outcome: Result<UserDbResponseView, Seq<char>>,
)
    ensures
        forall|step: RatingStepView|
            #![trigger step is Rate]
            (step == rating_begin_step(p) || step == rating_giver_step(
                query_id,
                p,
                outcome,
            ) || step == rating_found_step(query_id, p, giver, outcome)) && step is Rate ==> (
            step->Rate_0 matches UserDbOpView::RateUser { giver_uuid7, recipient_uuid7, .. }
                && giver_uuid7 != recipient_uuid7),
{
}

/// A rating goes out, or goes on to the one who is rated, only where the one who rates was
/// looked up and found; it is then theirs.
pub proof fn law_only_found_users_rate(
    query_id: Seq<char>,
    p: JsonView,
    outcome: Result<UserDbResponseView, Seq<char>>,
)
    ensures
        rating_begin_step(p) is FindGiver || rating_begin_step(p) is Reply,
        (match rating_giver_step(query_id, p, outcome) {
            RatingStepView::Rate(op) => {
                &&& outcome matches Ok(resp)
                &&& resp.success
                &&& resp.user matches Some(u)
                &&& op matches UserDbOpView::RateUser { giver_uuid7, .. }
                &&& giver_uuid7 == u.uuid7
            },
            RatingStepView::FindRecipient { giver, op } => {
                &&& outcome matches Ok(resp)
                &&& resp.success
                &&& resp.user matches Some(u)
                &&& giver == u.uuid7
            },
            _ => true,
        }),
{
}

/// How an identity that the terminal chat vouches for is recorded: the user is found by
/// channel, or added.
pub open spec fn identity_add_op(p: JsonView) -> UserDbOpView {
    let platform = member_text(p, "platform"@, ""@);
    let handle = member_text(p, "handle"@, ""@);
    UserDbOpView::AddUser {
        username: handle,
        channel: Some(ChannelRefView { platform, channel_id: ""@, handle }),
    }
}

/// Begins the recording of an identity whose payload was read.
pub fn identity_begin(p: &Json) -> (r: UserDbOp)
    ensures
        r@ == identity_add_op(p@),
{
    let handle = p.text_at("handle", "");
    UserDbOp::AddUser {
        username: handle.clone(),
        channel: Some(
            ChannelRef {
                platform: p.text_at("platform", ""),
                channel_id: "".to_owned(),
                handle,
            },
        ),
    }
}

/// Begins the recording of an identity, and gives its payload for the step that follows.
/// Only the terminal chat may record identities.
pub fn chat_verify_identity_virtual_query(sql: &str, module_name: &str) -> (r: Result<
    (UserDbOp, Json),
    QueryReply,
>)
    ensures
        (if module_name@ != "term-chat"@ {
            r matches Err(e) && e@ == refused("access denied: not term-chat"@)
        } else {
            match json_read(sql@) {
                Ok(p) => r matches Ok(next) && next.0@ == identity_add_op(p) && next.1@ == p,
                Err(w) => r matches Err(e) && e@ == refused(
                    "Invalid chat_verify_identity payload: "@ + w,
                ),
            }
        }),
{
    if !same(module_name, "term-chat") {
        return Err(refuse_with("access denied: not term-chat"));
    }
    match parse_json(sql) {
        Ok(p) => {
            let op = identity_begin(&p);
            Ok((op, p))
        },
        Err(e) => Err(refuse(concat("Invalid chat_verify_identity payload: ", e.as_str()))),
    }
}

/// The roles that the platform vouches for.
pub open spec fn vouched(p: JsonView, role: Seq<char>) -> bool {
    match member(p, "verified_roles"@) {
        Some(v) => member_bool(v, role),
        None => false,
    }
}

/// The step after the user was found or added: the user gets every role they had or are
/// vouched for.
pub open spec fn identity_roles_step(
    p: JsonView,
    outcome: Result<UserDbResponseView, Seq<char>>,
) -> UserDbStepView {
    match outcome {
        Err(e) => UserDbStepView::Reply(refused(e)),
        Ok(resp) => if !resp.success {
            UserDbStepView::Reply(refused(resp.error))
        } else {
            match resp.user {
                None => UserDbStepView::Reply(
                    refused("chat_verify_identity: no user returned"@),
                ),
                Some(u) => UserDbStepView::Ask(
                    UserDbOpView::SetRoles {
                        uuid7: u.uuid7,
                        actor_uuid7: ""@,
                        actor_role: "owner"@,
                        is_sponsor: u.is_sponsor || vouched(p, "is_sponsor"@),
                        is_moderator: u.is_moderator || vouched(p, "is_moderator"@),
                        is_admin: u.is_admin || vouched(p, "is_admin"@),
                        is_owner: u.is_owner || vouched(p, "is_owner"@),
                    },
                ),
            }
        },
    }
}

fn is_vouched(p: &Json, role: &str) -> (r: bool)
    ensures
        r == vouched(p@, role@),
{
    match p.get("verified_roles") {
        Some(v) => v.bool_at(role),
        None => false,
    }
}

/// The step after the user was found or added.
pub fn identity_added(p: &Json, outcome: Result<UserDbResponse, String>) -> (r: UserDbStep)
    ensures
        r@ == identity_roles_step(p@, outcome_view(outcome)),
{
    match outcome {
        Err(e) => UserDbStep::Reply(refuse(e)),
        Ok(resp) => {
            if !resp.success {
                return UserDbStep::Reply(refuse(resp.error));
            }
            match resp.user {
                None => UserDbStep::Reply(refuse_with("chat_verify_identity: no user returned")),
                Some(u) => UserDbStep::Ask(
                    UserDbOp::SetRoles {
                        uuid7: u.uuid7,
                        actor_uuid7: "".to_owned(),
                        actor_role: "owner".to_owned(),
                        is_sponsor: u.is_sponsor || is_vouched(p, "is_sponsor"),
                        is_moderator: u.is_moderator || is_vouched(p, "is_moderator"),
                        is_admin: u.is_admin || is_vouched(p, "is_admin"),
                        is_owner: u.is_owner || is_vouched(p, "is_owner"),
                    },
                ),
            }
        },
    }
}

/// What the recording of an identity is answered.
pub open spec fn identity_answer(outcome: Result<UserDbResponseView, Seq<char>>) -> QueryReplyView {
    match outcome {
        Err(e) => refused(e),
        Ok(resp) => if resp.success {
            QueryReplyView {
                success: true,
                text: json_text(response_json(resp)),
                error: Seq::empty(),
            }
        } else {
            refused(resp.error)
        },
    }
}

/// What the recording of an identity is answered.
pub fn identity_finish(outcome: Result<UserDbResponse, String>) -> (r: QueryReply)
    ensures
        r@ == identity_answer(outcome_view(outcome)),
{
    match outcome {
        Err(e) => refuse(e),
        Ok(resp) => if resp.success {
            let text = userdb_response_to_json(&resp);
            QueryReply { success: true, text, error: String::new() }
        } else {
            refuse(resp.error)
        },
    }
}

/// Recording an identity never takes a role away.
pub proof fn law_identity_never_revokes(
    p: JsonView,
    outcome: Result<UserDbResponseView, Seq<char>>,
)
    ensures
        (identity_roles_step(p, outcome) matches UserDbStepView::Ask(op) ==> (outcome matches Ok(
            resp,
        ) && resp.user matches Some(u) && op matches UserDbOpView::SetRoles {
            uuid7,
            is_sponsor,
            is_moderator,
            is_admin,
            is_owner,
            ..
        } && uuid7 == u.uuid7 && (u.is_sponsor ==> is_sponsor) && (u.is_moderator ==> is_moderator)
            && (u.is_admin ==> is_admin) && (u.is_owner ==> is_owner))),
{
}

/// A text that has the shape of a UUID.
pub open spec fn looks_like_uuid(s: Seq<char>) -> bool {
    utf8_len(s) == 36 && count(s, '-') == 4
}

/// How the author of a message is looked up; `None` where the message names none.
pub open spec fn author_lookup(chat: ChatMessageView) -> Option<UserDbOpView> {
    if chat.user_uuid7.len() == 0 {
        None
    } else if looks_like_uuid(chat.user_uuid7) {
        Some(
            UserDbOpView::GetUser {
                uuid7: chat.user_uuid7,
                platform: chat.platform,
                channel_id: ""@,
                handle: ""@,
            },
        )
    } else {
        Some(
            UserDbOpView::GetUser {
                uuid7: ""@,
                platform: chat.platform,
                channel_id: chat.user_uuid7,
                handle: chat.user_uuid7,
            },
        )
    }
}

/// How the author of a message is looked up; `None` where the message names none.
pub fn enrich_lookup(chat: &ChatMessage) -> (r: Option<UserDbOp>)
    ensures
        opt_view(r) == author_lookup(chat@),
{
    let uid = chat.user_uuid7.as_str();
    if uid.unicode_len() == 0 {
        return None;
    }
    if has_byte_len(uid, 36) && count_char(uid, '-') == 4 {
        Some(
            UserDbOp::GetUser {
                uuid7: uid.to_owned(),
                platform: chat.platform.clone(),
                channel_id: "".to_owned(),
                handle: "".to_owned(),
            },
        )
    } else {
        Some(
            UserDbOp::GetUser {
                uuid7: "".to_owned(),
                platform: chat.platform.clone(),
                channel_id: uid.to_owned(),
                handle: uid.to_owned(),
            },
        )
    }
}

/// The user that an answer brings.
pub open spec fn user_in(outcome: Result<UserDbResponseView, Seq<char>>) -> Option<
    UserRecordView,
> {
    match outcome {
        Ok(resp) => if resp.success {
            resp.user
        } else {
            None
        },
        Err(_) => None,
    }
}

/// The author of a message, where the lookup found one.
pub fn enrich_user(outcome: Result<UserDbResponse, String>) -> (r: Option<UserRecord>)
    ensures
        opt_view(r) == user_in(outcome_view(outcome)),
{
    match outcome {
        Ok(resp) => if resp.success {
            resp.user
        } else {
            None
        },
        Err(_) => None,
    }
}

/// The name colour that an answer brings.
pub open spec fn color_in(outcome: Result<UserDbResponseView, Seq<char>>) -> Seq<char> {
    match outcome {
        Ok(resp) => match resp.value {
            Some(v) if resp.success => v.value,
            _ => Seq::empty(),
        },
        Err(_) => Seq::empty(),
    }
}

/// The tier that a user is shown in: by role, else by score.
pub open spec fn rank_of(u: UserRecordView) -> Seq<char> {
    if u.is_owner {
        "owner"@
    } else if u.is_admin {
        "admin"@
    } else if u.is_moderator {
        "mod"@
    } else if u.is_sponsor {
        "sponsor"@
    } else if u.score >= 50 {
        "opal"@
    } else if u.score >= 20 {
        "gold"@
    } else if u.score >= 5 {
        "silver"@
    } else if u.score <= -20 {
        "trash"@
    } else if u.score <= -5 {
        "coal"@
    } else {
        "regular"@
    }
}

/// The tier that a user is shown in.
pub fn user_rank(u: &UserRecord) -> (r: &'static str)
    ensures
        r@ == rank_of(u@),
{
    if u.is_owner {
        "owner"
    } else if u.is_admin {
        "admin"
    } else if u.is_moderator {
        "mod"
    } else if u.is_sponsor {
        "sponsor"
    } else if u.score >= 50 {
        "opal"
    } else if u.score >= 20 {
        "gold"
    } else if u.score >= 5 {
        "silver"
    } else if u.score <= -20 {
        "trash"
    } else if u.score <= -5 {
        "coal"
    } else {
        "regular"
    }
}

/// How a user's messages are styled.
pub open spec fn styling_of(u: UserRecordView, color: Seq<char>) -> Seq<(Seq<char>, Seq<char>)> {
    (if color.len() > 0 {
        seq![("color"@, color)]
    } else {
        Seq::empty()
    }) + seq![
        ("rank"@, rank_of(u)),
        ("score"@, decimal_int(u.score as int)),
        ("reprimands"@, decimal_int(u.reprimands as int)),
        ("commendations"@, decimal_int(u.commendations as int)),
    ]
}

/// A message with its author's data.
pub open spec fn enriched(chat: ChatMessageView, u: UserRecordView, color: Seq<char>) -> ChatMessageView {
    ChatMessageView {
        user_uuid7: u.uuid7,
        user_data: Some(
            UserDataView {
                uuid: u.uuid7,
                username: u.username,
                is_sponsor: u.is_sponsor,
                is_moderator: u.is_moderator,
                is_admin: u.is_admin,
                is_owner: u.is_owner,
                bans: Seq::empty(),
                commendations: Seq::empty(),
                styling: Some(UserStylingTemplateView { css_properties: styling_of(u, color) }),
                platform_ids: Seq::empty(),
            },
        ),
        ..chat
    }
}

/// Attaches its author's data to a message, given the answer about their name colour.
pub fn enrich_chat_user(
    chat: &mut ChatMessage,
    user: UserRecord,
    color: Result<UserDbResponse, String>,
)
    ensures
        final(chat)@ == enriched(old(chat)@, user@, color_in(outcome_view(color))),
{
    let mut css: Vec<(String, String)> = Vec::new();
    let mut name_color = String::new();
    if let Ok(resp) = color {
        if resp.success {
            if let Some(v) = resp.value {
                name_color = v.value;
            }
        }
    }
    if name_color.as_str().unicode_len() > 0 {
        css.push(("color".to_owned(), name_color));
    }
    css.push(("rank".to_owned(), user_rank(&user).to_owned()));
    css.push(("score".to_owned(), i64_text(user.score)));
    css.push(("reprimands".to_owned(), i64_text(user.reprimands)));
    css.push(("commendations".to_owned(), i64_text(user.commendations)));
    assert(pair_views(css@) =~= styling_of(user@, name_color@));
    let uuid = user.uuid7.clone();
    let data = UserData {
        uuid: user.uuid7,
        username: user.username,
        is_sponsor: user.is_sponsor,
        is_moderator: user.is_moderator,
        is_admin: user.is_admin,
        is_owner: user.is_owner,
        bans: Vec::new(),
        commendations: Vec::new(),
        styling: Some(UserStylingTemplate { css_properties: css }),
        platform_ids: Vec::new(),
    };
    proof {
        assert(views(data.bans@) =~= Seq::<Seq<u8>>::empty());
        assert(views(data.commendations@) =~= Seq::<Seq<u8>>::empty());
        assert(pair_views(data.platform_ids@) =~= Seq::<(Seq<char>, Seq<char>)>::empty());
    }
    chat.user_uuid7 = uuid;
    chat.user_data = Some(data);
}

/// How the human behind an outbound message is looked up.
pub fn sender_lookup(send: &SendToPlatforms) -> (r: UserDbOp)
    ensures
        r@ == lookup(send@.actor_uuid7, send@.actor_platform, send@.actor_handle),
{
    look_up(
        send.actor_uuid7.as_str(),
        send.actor_platform.as_str(),
        send.actor_handle.as_str(),
    )
}

/// Whether an outbound message may go out: the human behind it was found and moderates.
pub open spec fn sender_may_send(outcome: Result<UserDbResponseView, Seq<char>>) -> bool {
    outcome matches Ok(resp) && resp.user matches Some(u) && may_moderate(u)
}

/// Whether an outbound message may go out.
pub fn sender_allowed(outcome: &Result<UserDbResponse, String>) -> (r: bool)
    ensures
        r == sender_may_send(outcome_view(*outcome)),
{
    match outcome {
        Ok(resp) => match &resp.user {
            Some(u) => u.is_moderator || u.is_admin || u.is_owner,
            None => false,
        },
        Err(_) => false,
    }
}

/// How an outbound message is labelled in the timeline.
pub open spec fn sent_note(send: SendToPlatformsView) -> JsonView {
    JsonView::Object(
        map![
            "actor_platform"@ => JsonView::Text(send.actor_platform),
            "actor_handle"@ => JsonView::Text(send.actor_handle),
            "target"@ => JsonView::Text(send.platform),
        ],
    )
}

/// How an outbound message is labelled in the timeline.
pub fn sender_note(send: &SendToPlatforms) -> (r: String)
    ensures
        r@ == json_text(sent_note(send@)),
{
    let mut m = no_members();
    put(&mut m, "actor_platform", json_str(send.actor_platform.as_str()));
    put(&mut m, "actor_handle", json_str(send.actor_handle.as_str()));
    put(&mut m, "target", json_str(send.platform.as_str()));
    write_json(&object(m))
}

} // verus!
