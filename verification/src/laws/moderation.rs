//! Users: what queries about them ask of the user database, who may act on whom, and how
//! an author is shown.
use crate::json::{json_text, member, JsonView};
use crate::proto::{ChatMessageView, SendToPlatformsView};
use crate::text::{decimal, decimal_int};
use crate::user_db_client::{
    response_json, user_json, UserDbOpView, UserDbResponseView, UserRecordView,
};
use crate::user_queries::{
    answered, author_lookup, channel_of, color_in, enriched, expiry, identity_add_op,
    identity_answer, identity_roles_step, lookup, looks_like_uuid, mod_act_step, mod_actor_step,
    mod_begin_step, mod_found_step, mod_target_step, rank_of, rate_step, rating_answer,
    rating_begin_step, rating_found_step, rating_giver_step, rating_module, sender_may_send,
    sent_note, user_in, userdb_step, ModStepView, RatingStepView, UserDbStepView,
};
use vstd::prelude::*;

verus! {

/// The text that a payload gives under a key, or another where it gives none.
pub open spec fn said(p: JsonView, key: Seq<char>, otherwise: Seq<char>) -> Seq<char> {
    match member(p, key) {
        Some(JsonView::Text(t)) => t,
        _ => otherwise,
    }
}

/// The whole number that a payload gives under a key, or another where it gives none.
pub open spec fn counted(p: JsonView, key: Seq<char>, otherwise: int) -> int {
    match member(p, key) {
        Some(JsonView::Pos(n)) => if n <= i64::MAX {
            n as int
        } else {
            otherwise
        },
        Some(JsonView::Neg(n)) => n as int,
        _ => otherwise,
    }
}

/// Whether a payload says `true` under a key.
pub open spec fn affirmed(p: JsonView, key: Seq<char>) -> bool {
    member(p, key) == Some(JsonView::Bool(true))
}

/// Whether a stored value is a note that somebody is banned, for this reason and since then.
pub open spec fn bans(value: Seq<char>, reason: Seq<char>, now_ms: Option<u64>) -> bool {
    exists|note: JsonView| #[trigger]
        json_text(note) == value && member(note, "banned"@) == Some(JsonView::Bool(true))
            && member(note, "reason"@) == Some(JsonView::Text(reason)) && member(note, "at"@)
            == Some(
            JsonView::Text(
                match now_ms {
                    Some(n) => decimal(n as nat),
                    None => Seq::empty(),
                },
            ),
        ) && member(note, "timed_out"@) is None && member(note, "expires_at_ms"@) is None
}

/// Whether a stored value is a note that somebody is timed out, for this reason and until
/// then.
pub open spec fn times_out(value: Seq<char>, reason: Seq<char>, until_ms: int) -> bool {
    exists|note: JsonView| #[trigger]
        json_text(note) == value && member(note, "timed_out"@) == Some(JsonView::Bool(true))
            && member(note, "reason"@) == Some(JsonView::Text(reason)) && (member(
            note,
            "expires_at_ms"@,
        ) matches Some(JsonView::Pos(n)) && n == until_ms) && member(note, "banned"@) is None
            && member(note, "at"@) is None
}

proof fn lemma_note_keys()
    ensures
        "banned"@.len() == 6,
        "reason"@.len() == 6,
        "banned"@[0] == 'b',
        "reason"@[0] == 'r',
        "at"@.len() == 2,
        "timed_out"@.len() == 9,
        "expires_at_ms"@.len() == 13,
{
    reveal_strlit("banned");
    reveal_strlit("reason");
    reveal_strlit("at");
    reveal_strlit("timed_out");
    reveal_strlit("expires_at_ms");
}

proof fn lemma_ban_note(reason: Seq<char>, now_ms: Option<u64>)
    ensures
        bans(json_text(crate::user_queries::ban_note(reason, now_ms)), reason, now_ms),
{
    lemma_note_keys();
    let note = crate::user_queries::ban_note(reason, now_ms);
    assert(member(note, "banned"@) == Some(JsonView::Bool(true)));
    assert(member(note, "reason"@) == Some(JsonView::Text(reason)));
    assert(json_text(note) == json_text(note));
}

proof fn lemma_timeout_note(reason: Seq<char>, expires: u64)
    ensures
        times_out(
            json_text(crate::user_queries::timeout_note(reason, expires)),
            reason,
            expires as int,
        ),
{
    lemma_note_keys();
    let note = crate::user_queries::timeout_note(reason, expires);
    assert(member(note, "timed_out"@) == Some(JsonView::Bool(true)));
    assert(member(note, "reason"@) == Some(JsonView::Text(reason)));
    assert(member(note, "expires_at_ms"@) == Some(JsonView::Pos(expires)));
    assert(json_text(note) == json_text(note));
}

proof fn lemma_mod_ids()
    ensures
        "mod_commend"@.len() == 11,
        "mod_reprimand"@.len() == 13,
        "mod_ban"@.len() == 7,
        "mod_timeout"@.len() == 11,
        "mod_commend"@[4] == 'c',
        "mod_timeout"@[4] == 't',
{
    reveal_strlit("mod_commend");
    reveal_strlit("mod_reprimand");
    reveal_strlit("mod_ban");
    reveal_strlit("mod_timeout");
}

/// What the four moderation queries do to their target: a commendation raises its score by
/// one and a reprimand lowers it by one; a ban is kept under `ban`, a timeout under
/// `timeout` until its end, five minutes on where the query does not say how long. Each
/// carries the query's reason.
pub proof fn law_moderation_does_what_it_says(p: JsonView, target: Seq<char>, now_ms: Option<u64>)
    ensures
        ({
            &&& mod_act_step("mod_commend"@, p, target, now_ms) matches ModStepView::Act(op)
            &&& op matches UserDbOpView::AddScore { uuid7, delta, reason }
            &&& uuid7 == target
            &&& delta == 1
            &&& reason == said(p, "reason"@, ""@)
        }),
        ({
            &&& mod_act_step("mod_reprimand"@, p, target, now_ms) matches ModStepView::Act(op)
            &&& op matches UserDbOpView::RemoveScore { uuid7, delta, reason }
            &&& uuid7 == target
            &&& delta == 1
            &&& reason == said(p, "reason"@, ""@)
        }),
        ({
            &&& mod_act_step("mod_ban"@, p, target, now_ms) matches ModStepView::Act(op)
            &&& op matches UserDbOpView::WriteUserValue { uuid7, key, value }
            &&& uuid7 == target
            &&& key == "ban"@
            &&& bans(value, said(p, "reason"@, ""@), now_ms)
        }),
        ({
            let now = match now_ms {
                Some(n) => n as int,
                None => 0,
            };
            let secs = counted(p, "duration_secs"@, 300);
            let step = mod_act_step("mod_timeout"@, p, target, now_ms);
            &&& secs >= 0 && now + secs * 1000 <= u64::MAX ==> {
                &&& step matches ModStepView::Act(op)
                &&& op matches UserDbOpView::WriteUserValue { uuid7, key, value }
                &&& uuid7 == target
                &&& key == "timeout"@
                &&& times_out(value, said(p, "reason"@, ""@), now + secs * 1000)
            }
            &&& !(secs >= 0 && now + secs * 1000 <= u64::MAX) ==> step is OutOfRange
        }),
{
    lemma_mod_ids();
    let reason = said(p, "reason"@, ""@);
    lemma_ban_note(reason, now_ms);
    if let Some(e) = expiry(now_ms, counted(p, "duration_secs"@, 300) as i64) {
        lemma_timeout_note(reason, e);
    }
}

/// Any other moderation query is refused, and says so.
pub proof fn law_other_moderation_is_refused(
    query_id: Seq<char>,
    p: JsonView,
    target: Seq<char>,
    now_ms: Option<u64>,
)
    requires
        query_id != "mod_commend"@,
        query_id != "mod_reprimand"@,
        query_id != "mod_ban"@,
        query_id != "mod_timeout"@,
    ensures
        mod_act_step(query_id, p, target, now_ms) matches ModStepView::Reply(r) && !r.success
            && r.error == "Unknown mod query: "@ + query_id && r.text.len() == 0,
{
}

/// Who acts in a moderation query is looked up: by their id where the query gives it, and
/// else by platform and handle. The target likewise; where the query gives its id, that
/// is the target, and where it gives neither it is refused.
pub proof fn law_people_are_looked_up(
    query_id: Seq<char>,
    p: JsonView,
    a: JsonView,
    requester: Seq<char>,
    now_ms: Option<u64>,
)
    ensures
        member(p, "actor"@) == Some(a) && !(a is Null) ==> {
            let id = said(a, "uuid7"@, ""@);
            &&& mod_begin_step(query_id, p, requester, now_ms) matches ModStepView::FindActor(op)
            &&& op matches UserDbOpView::GetUser { uuid7, platform, channel_id, handle }
            &&& uuid7 == id
            &&& id.len() > 0 ==> platform == ""@ && channel_id == ""@ && handle == ""@
            &&& id.len() == 0 ==> {
                &&& platform == said(a, "platform"@, ""@)
                &&& handle == said(a, "handle"@, ""@)
                &&& channel_id == said(a, "handle"@, ""@)
            }
        },
        ({
            let id = said(p, "uuid7"@, ""@);
            let where_ = said(p, "platform"@, ""@);
            let who = said(p, "handle"@, ""@);
            let step = mod_target_step(query_id, p, now_ms);
            &&& id.len() > 0 ==> step == mod_act_step(query_id, p, id, now_ms)
            &&& id.len() == 0 && where_.len() > 0 && who.len() > 0 ==> {
                &&& step matches ModStepView::FindTarget(op)
                &&& op matches UserDbOpView::GetUser { uuid7, platform, channel_id, handle }
                &&& uuid7.len() == 0
                &&& platform == where_
                &&& channel_id == who
                &&& handle == who
            }
            &&& id.len() == 0 && (where_.len() == 0 || who.len() == 0) ==> {
                &&& step matches ModStepView::Reply(r)
                &&& !r.success
                &&& r.error == "mod query requires uuid7 or platform + handle"@
            }
        }),
{
    reveal_strlit("");
    if said(a, "uuid7"@, ""@).len() == 0 {
        assert(said(a, "uuid7"@, ""@) =~= ""@);
    }
}

/// A moderation query without an actor is refused, unless the message scorer commends or
/// reprimands: then the target is dealt with at once.
pub proof fn law_moderation_needs_an_actor(
    query_id: Seq<char>,
    p: JsonView,
    requester: Seq<char>,
    now_ms: Option<u64>,
)
    requires
        member(p, "actor"@) is None || member(p, "actor"@) == Some(JsonView::Null),
    ensures
        ({
            let step = mod_begin_step(query_id, p, requester, now_ms);
            let scorer = requester == "score-messages"@ && (query_id == "mod_commend"@ || query_id
                == "mod_reprimand"@);
            &&& scorer ==> step == mod_target_step(query_id, p, now_ms)
            &&& !scorer ==> {
                &&& step matches ModStepView::Reply(r)
                &&& !r.success
                &&& r.error == "permission denied: missing actor"@
            }
        }),
{
}

/// A moderation query goes on exactly where its actor was found and is a moderator, an
/// admin or an owner; anybody else is told that they may not.
pub proof fn law_moderators_admins_and_owners_moderate(
    query_id: Seq<char>,
    p: JsonView,
    outcome: Result<UserDbResponseView, Seq<char>>,
    now_ms: Option<u64>,
)
    ensures
        (match outcome {
            Ok(resp) => match resp.user {
                Some(u) => if u.is_moderator || u.is_admin || u.is_owner {
                    mod_actor_step(query_id, p, outcome, now_ms) == mod_target_step(
                        query_id,
                        p,
                        now_ms,
                    )
                } else {
                    mod_actor_step(query_id, p, outcome, now_ms) matches ModStepView::Reply(r)
                        && !r.success && r.error
                        == "permission denied: actor is not a moderator/admin/owner"@
                },
                None => mod_actor_step(query_id, p, outcome, now_ms) matches ModStepView::Reply(r)
                    && !r.success && r.error
                    == "permission denied: actor is not a moderator/admin/owner"@,
            },
            Err(e) => mod_actor_step(query_id, p, outcome, now_ms) matches ModStepView::Reply(r)
                && !r.success && r.error == "Actor lookup failed: "@ + e,
        }),
        sender_may_send(outcome) == (match outcome {
            Ok(resp) => match resp.user {
                Some(u) => u.is_moderator || u.is_admin || u.is_owner,
                None => false,
            },
            Err(_) => false,
        }),
{
}

/// A target that was looked up and found is the one that is acted on; one that was not
/// found is named in the refusal.
pub proof fn law_the_target_found_is_acted_on(
    query_id: Seq<char>,
    p: JsonView,
    outcome: Result<UserDbResponseView, Seq<char>>,
    now_ms: Option<u64>,
)
    ensures
        (match outcome {
            Ok(resp) => if resp.success && resp.user is Some {
                mod_found_step(query_id, p, outcome, now_ms) == mod_act_step(
                    query_id,
                    p,
                    resp.user.unwrap().uuid7,
                    now_ms,
                )
            } else {
                mod_found_step(query_id, p, outcome, now_ms) matches ModStepView::Reply(r)
                    && !r.success && r.error == "User"@ + (" '"@ + (said(p, "handle"@, ""@) + (
                "' not found on "@ + said(p, "platform"@, ""@))))
            },
            Err(e) => mod_found_step(query_id, p, outcome, now_ms) matches ModStepView::Reply(r)
                && !r.success && r.error == e,
        }),
{
    if let ModStepView::Reply(r) = mod_found_step(query_id, p, outcome, now_ms) {
        if let Ok(_) = outcome {
            assert(!(outcome->Ok_0.success && outcome->Ok_0.user is Some) ==> r.error =~= "User"@ + (
            " '"@ + (said(p, "handle"@, ""@) + ("' not found on "@ + said(p, "platform"@, ""@)))));
        }
    }
}

proof fn lemma_userdb_ids()
    ensures
        "userdb_add_user"@.len() == 15 && "userdb_add_user"@[7] == 'a',
        "userdb_delete_user"@.len() == 18 && "userdb_delete_user"@[7] == 'd',
        "userdb_add_score"@.len() == 16 && "userdb_add_score"@[7] == 'a',
        "userdb_remove_score"@.len() == 19 && "userdb_remove_score"@[7] == 'r',
        "userdb_add_channel"@.len() == 18 && "userdb_add_channel"@[7] == 'a',
        "userdb_remove_channel"@.len() == 21,
        "userdb_get_user"@.len() == 15 && "userdb_get_user"@[7] == 'g',
        "userdb_list_users"@.len() == 17,
        "userdb_update_flags"@.len() == 19 && "userdb_update_flags"@[7] == 'u',
        "userdb_set_roles"@.len() == 16 && "userdb_set_roles"@[7] == 's',
        "userdb_read_user_value"@.len() == 22,
        "userdb_write_user_value"@.len() == 23 && "userdb_write_user_value"@[7] == 'w',
        "userdb_delete_user_value"@.len() == 24,
        "userdb_list_user_values"@.len() == 23 && "userdb_list_user_values"@[7] == 'l',
        "userdb_commendation"@.len() == 19 && "userdb_commendation"@[7] == 'c',
        "userdb_reprimand"@.len() == 16 && "userdb_reprimand"@[7] == 'r',
        "userdb_ban"@.len() == 10,
        "userdb_timeout"@.len() == 14,
{
    reveal_strlit("userdb_add_user");
    reveal_strlit("userdb_delete_user");
    reveal_strlit("userdb_add_score");
    reveal_strlit("userdb_remove_score");
    reveal_strlit("userdb_add_channel");
    reveal_strlit("userdb_remove_channel");
    reveal_strlit("userdb_get_user");
    reveal_strlit("userdb_list_users");
    reveal_strlit("userdb_update_flags");
    reveal_strlit("userdb_set_roles");
    reveal_strlit("userdb_read_user_value");
    reveal_strlit("userdb_write_user_value");
    reveal_strlit("userdb_delete_user_value");
    reveal_strlit("userdb_list_user_values");
    reveal_strlit("userdb_commendation");
    reveal_strlit("userdb_reprimand");
    reveal_strlit("userdb_ban");
    reveal_strlit("userdb_timeout");
}

/// Scores: what adds and what commends raises one, what removes and what reprimands lowers
/// one, each of the user that the query names. Adding and removing go by the query's
/// delta, or by one where it gives none; commending and reprimanding always go by one.
pub proof fn law_score_queries(p: JsonView, peer_loopback: bool, now_ms: Option<u64>)
    ensures
        ({
            &&& userdb_step("userdb_add_score"@, p, peer_loopback, now_ms) matches UserDbStepView::Ask(
                op,
            )
            &&& op matches UserDbOpView::AddScore { uuid7, delta, reason }
            &&& uuid7 == said(p, "uuid7"@, ""@)
            &&& delta == counted(p, "delta"@, 1)
            &&& reason == said(p, "reason"@, ""@)
        }),
        ({
            &&& userdb_step("userdb_remove_score"@, p, peer_loopback, now_ms) matches UserDbStepView::Ask(
                op,
            )
            &&& op matches UserDbOpView::RemoveScore { uuid7, delta, reason }
            &&& uuid7 == said(p, "uuid7"@, ""@)
            &&& delta == counted(p, "delta"@, 1)
            &&& reason == said(p, "reason"@, ""@)
        }),
        ({
            &&& userdb_step("userdb_commendation"@, p, peer_loopback, now_ms) matches UserDbStepView::Ask(
                op,
            )
            &&& op matches UserDbOpView::AddScore { uuid7, delta, reason }
            &&& uuid7 == said(p, "uuid7"@, ""@)
            &&& delta == 1
            &&& reason == said(p, "reason"@, ""@)
        }),
        ({
            &&& userdb_step("userdb_reprimand"@, p, peer_loopback, now_ms) matches UserDbStepView::Ask(
                op,
            )
            &&& op matches UserDbOpView::RemoveScore { uuid7, delta, reason }
            &&& uuid7 == said(p, "uuid7"@, ""@)
            &&& delta == 1
            &&& reason == said(p, "reason"@, ""@)
        }),
{
    lemma_userdb_ids();
}

/// Users: one is added under a name, removed, found, or all are listed, as the query's id
/// says.
pub proof fn law_user_queries(p: JsonView, peer_loopback: bool, now_ms: Option<u64>)
    ensures
        ({
            &&& userdb_step("userdb_add_user"@, p, peer_loopback, now_ms) matches UserDbStepView::Ask(
                op,
            )
            &&& op matches UserDbOpView::AddUser { username, channel }
            &&& username == said(p, "username"@, ""@)
            &&& channel == channel_of(member(p, "channel"@))
        }),
        ({
            &&& userdb_step("userdb_delete_user"@, p, peer_loopback, now_ms) matches UserDbStepView::Ask(
                op,
            )
            &&& op matches UserDbOpView::DeleteUser { uuid7, actor_uuid7, actor_role }
            &&& uuid7 == said(p, "uuid7"@, ""@)
            &&& actor_uuid7 == said(p, "actor_uuid7"@, ""@)
            &&& peer_loopback ==> actor_role == "owner"@
            &&& !peer_loopback ==> actor_role == said(p, "actor_role"@, "user"@)
        }),
        ({
            &&& userdb_step("userdb_get_user"@, p, peer_loopback, now_ms) matches UserDbStepView::Ask(
                op,
            )
            &&& op matches UserDbOpView::GetUser { uuid7, platform, channel_id, handle }
            &&& uuid7 == said(p, "uuid7"@, ""@)
            &&& platform == said(p, "platform"@, ""@)
            &&& channel_id == said(p, "channel_id"@, ""@)
            &&& handle == said(p, "handle"@, ""@)
        }),
        ({
            let n = counted(p, "limit"@, 100);
            let k = counted(p, "offset"@, 0);
            &&& userdb_step("userdb_list_users"@, p, peer_loopback, now_ms) matches UserDbStepView::Ask(
                op,
            )
            &&& op matches UserDbOpView::ListUsers { platform, limit, offset }
            &&& platform == said(p, "platform"@, ""@)
            &&& i32::MIN <= n <= i32::MAX ==> limit == n
            &&& i32::MIN <= k <= i32::MAX ==> offset == k
        }),
{
    lemma_userdb_ids();
}

/// Channels: one is linked to the user that the query names, or one is unlinked from them.
pub proof fn law_channel_queries(p: JsonView, c: JsonView, peer_loopback: bool, now_ms: Option<u64>)
    ensures
        ({
            &&& userdb_step("userdb_add_channel"@, p, peer_loopback, now_ms) matches UserDbStepView::Ask(
                op,
            )
            &&& op matches UserDbOpView::AddChannel { uuid7, channel }
            &&& uuid7 == said(p, "uuid7"@, ""@)
            &&& channel is None <==> member(p, "channel"@) is None || member(p, "channel"@) == Some(
                JsonView::Null,
            )
            &&& member(p, "channel"@) == Some(c) && !(c is Null) ==> {
                &&& channel matches Some(ch)
                &&& ch.platform == said(c, "platform"@, ""@)
                &&& ch.channel_id == said(c, "channel_id"@, ""@)
                &&& ch.handle == said(c, "handle"@, ""@)
            }
        }),
        ({
            &&& userdb_step("userdb_remove_channel"@, p, peer_loopback, now_ms)
                matches UserDbStepView::Ask(op)
            &&& op matches UserDbOpView::RemoveChannel { uuid7, platform, channel_id }
            &&& uuid7 == said(p, "uuid7"@, ""@)
            &&& platform == said(p, "platform"@, ""@)
            &&& channel_id == said(p, "channel_id"@, ""@)
        }),
{
    lemma_userdb_ids();
}

/// What is kept of a user: a value is read, written or removed under the query's key, all
/// are listed, flags are replaced, and roles are set to what the query affirms.
pub proof fn law_value_and_role_queries(p: JsonView, peer_loopback: bool, now_ms: Option<u64>)
    ensures
        userdb_step("userdb_read_user_value"@, p, peer_loopback, now_ms) == UserDbStepView::Ask(
            UserDbOpView::ReadUserValue {
                uuid7: said(p, "uuid7"@, ""@),
                key: said(p, "key"@, ""@),
            },
        ),
        userdb_step("userdb_write_user_value"@, p, peer_loopback, now_ms) == UserDbStepView::Ask(
            UserDbOpView::WriteUserValue {
                uuid7: said(p, "uuid7"@, ""@),
                key: said(p, "key"@, ""@),
                value: said(p, "value"@, ""@),
            },
        ),
        userdb_step("userdb_delete_user_value"@, p, peer_loopback, now_ms) == UserDbStepView::Ask(
            UserDbOpView::DeleteUserValue {
                uuid7: said(p, "uuid7"@, ""@),
                key: said(p, "key"@, ""@),
            },
        ),
        userdb_step("userdb_list_user_values"@, p, peer_loopback, now_ms) == UserDbStepView::Ask(
            UserDbOpView::ListUserValues { uuid7: said(p, "uuid7"@, ""@) },
        ),
        userdb_step("userdb_update_flags"@, p, peer_loopback, now_ms) == UserDbStepView::Ask(
            UserDbOpView::UpdateFlags {
                uuid7: said(p, "uuid7"@, ""@),
                flags: said(p, "flags"@, "{}"@),
            },
        ),
        ({
            &&& userdb_step("userdb_set_roles"@, p, peer_loopback, now_ms) matches UserDbStepView::Ask(
                op,
            )
            &&& op matches UserDbOpView::SetRoles {
                uuid7,
                actor_uuid7,
                actor_role,
                is_sponsor,
                is_moderator,
                is_admin,
                is_owner,
            }
            &&& uuid7 == said(p, "uuid7"@, ""@)
            &&& actor_uuid7 == said(p, "actor_uuid7"@, ""@)
            &&& peer_loopback ==> actor_role == "owner"@
            &&& !peer_loopback ==> actor_role == said(p, "actor_role"@, "user"@)
            &&& is_sponsor == affirmed(p, "is_sponsor"@)
            &&& is_moderator == affirmed(p, "is_moderator"@)
            &&& is_admin == affirmed(p, "is_admin"@)
            &&& is_owner == affirmed(p, "is_owner"@)
        }),
{
    lemma_userdb_ids();
}

/// Bans and timeouts asked of the user database are kept as those of moderators are: under
/// `ban` and under `timeout`, for the user that the query names.
pub proof fn law_ban_queries(p: JsonView, peer_loopback: bool, now_ms: Option<u64>)
    ensures
        ({
            &&& userdb_step("userdb_ban"@, p, peer_loopback, now_ms) matches UserDbStepView::Ask(op)
            &&& op matches UserDbOpView::WriteUserValue { uuid7, key, value }
            &&& uuid7 == said(p, "uuid7"@, ""@)
            &&& key == "ban"@
            &&& bans(value, said(p, "reason"@, ""@), now_ms)
        }),
        ({
            let now = match now_ms {
                Some(n) => n as int,
                None => 0,
            };
            let secs = counted(p, "duration_secs"@, 300);
            let step = userdb_step("userdb_timeout"@, p, peer_loopback, now_ms);
            &&& secs >= 0 && now + secs * 1000 <= u64::MAX ==> {
                &&& step matches UserDbStepView::Ask(op)
                &&& op matches UserDbOpView::WriteUserValue { uuid7, key, value }
                &&& uuid7 == said(p, "uuid7"@, ""@)
                &&& key == "timeout"@
                &&& times_out(value, said(p, "reason"@, ""@), now + secs * 1000)
            }
            &&& !(secs >= 0 && now + secs * 1000 <= u64::MAX) ==> step is OutOfRange
        }),
{
    lemma_userdb_ids();
    let reason = said(p, "reason"@, ""@);
    lemma_ban_note(reason, now_ms);
    if let Some(e) = expiry(now_ms, counted(p, "duration_secs"@, 300) as i64) {
        lemma_timeout_note(reason, e);
    }
}

/// Any other query for the user database is refused, and says so.
pub proof fn law_other_user_queries_are_refused(
    query_id: Seq<char>,
    p: JsonView,
    peer_loopback: bool,
    now_ms: Option<u64>,
)
    requires
        query_id != "userdb_add_user"@,
        query_id != "userdb_delete_user"@,
        query_id != "userdb_add_score"@,
        query_id != "userdb_remove_score"@,
        query_id != "userdb_add_channel"@,
        query_id != "userdb_remove_channel"@,
        query_id != "userdb_get_user"@,
        query_id != "userdb_list_users"@,
        query_id != "userdb_update_flags"@,
        query_id != "userdb_set_roles"@,
        query_id != "userdb_read_user_value"@,
        query_id != "userdb_write_user_value"@,
        query_id != "userdb_delete_user_value"@,
        query_id != "userdb_list_user_values"@,
        query_id != "userdb_commendation"@,
        query_id != "userdb_reprimand"@,
        query_id != "userdb_ban"@,
        query_id != "userdb_timeout"@,
    ensures
        userdb_step(query_id, p, peer_loopback, now_ms) matches UserDbStepView::Reply(r)
            && !r.success && r.text.len() == 0 && r.error == "Unknown userdb query: "@ + query_id,
{
}

/// A viewer's rating: a commendation is one and a reprimand is none, it is by the one who
/// was found to rate and of the one who is named or was found, and each may be brought only
/// by the module of its own name.
pub proof fn law_ratings_are_as_named(
    p: JsonView,
    giver: Seq<char>,
    recipient: Seq<char>,
    query_id: Seq<char>,
)
    ensures
        giver != recipient ==> {
            &&& rate_step("chat_commend"@, p, giver, recipient) matches RatingStepView::Rate(op)
            &&& op matches UserDbOpView::RateUser {
                giver_uuid7,
                recipient_uuid7,
                is_commendation,
                platform,
                handle,
                reason,
            }
            &&& giver_uuid7 == giver
            &&& recipient_uuid7 == recipient
            &&& is_commendation
            &&& platform == said(p, "platform"@, ""@)
            &&& handle == said(p, "handle"@, ""@)
            &&& reason == said(p, "reason"@, ""@)
        },
        giver != recipient ==> {
            &&& rate_step("chat_reprimand"@, p, giver, recipient) matches RatingStepView::Rate(op)
            &&& op matches UserDbOpView::RateUser {
                giver_uuid7,
                recipient_uuid7,
                is_commendation,
                platform,
                handle,
                reason,
            }
            &&& giver_uuid7 == giver
            &&& recipient_uuid7 == recipient
            &&& !is_commendation
            &&& platform == said(p, "platform"@, ""@)
            &&& handle == said(p, "handle"@, ""@)
            &&& reason == said(p, "reason"@, ""@)
        },
        rate_step(query_id, p, giver, giver) matches RatingStepView::Reply(r) && !r.success
            && r.error == "you cannot rate yourself"@,
        rating_module("chat_commend"@) == "commend"@,
        rating_module("chat_reprimand"@) == "reprimand"@,
{
    reveal_strlit("chat_commend");
    reveal_strlit("chat_reprimand");
    assert("chat_commend"@.len() == 12 && "chat_reprimand"@.len() == 14);
}

/// A rating's way: its actor is looked up, then the one who is rated where the rating does
/// not give their id, and both are who the lookups found.
pub proof fn law_ratings_find_both_sides(
    query_id: Seq<char>,
    p: JsonView,
    a: JsonView,
    giver: Seq<char>,
    outcome: Result<UserDbResponseView, Seq<char>>,
)
    ensures
        member(p, "actor"@) == Some(a) && !(a is Null) ==> {
            let id = said(a, "uuid7"@, ""@);
            let where_ = said(a, "platform"@, ""@);
            let who = said(a, "handle"@, ""@);
            let step = rating_begin_step(p);
            &&& id.len() > 0 ==> {
                &&& step matches RatingStepView::FindGiver(op)
                &&& op matches UserDbOpView::GetUser { uuid7, platform, channel_id, handle }
                &&& uuid7 == id
            }
            &&& id.len() == 0 && where_.len() > 0 && who.len() > 0 ==> {
                &&& step matches RatingStepView::FindGiver(op)
                &&& op matches UserDbOpView::GetUser { uuid7, platform, channel_id, handle }
                &&& uuid7.len() == 0 && platform == where_ && channel_id == who && handle == who
            }
            &&& id.len() == 0 && (where_.len() == 0 || who.len() == 0) ==> step is Reply
        },
        member(p, "actor"@) is None ==> rating_begin_step(p) is Reply,
        ({
            let found = outcome matches Ok(resp) && resp.success && resp.user is Some;
            let by = outcome->Ok_0.user.unwrap().uuid7;
            let id = said(p, "uuid7"@, ""@);
            let step = rating_giver_step(query_id, p, outcome);
            &&& !found ==> (step matches RatingStepView::Reply(r) && !r.success)
            &&& found && id.len() > 0 ==> step == rate_step(query_id, p, by, id)
            &&& found && id.len() == 0 && said(p, "platform"@, ""@).len() > 0 && said(
                p,
                "handle"@,
                ""@,
            ).len() > 0 ==> {
                &&& step matches RatingStepView::FindRecipient { giver: g, op }
                &&& g == by
                &&& op matches UserDbOpView::GetUser { uuid7, platform, channel_id, handle }
                &&& uuid7.len() == 0
                &&& platform == said(p, "platform"@, ""@)
                &&& channel_id == said(p, "handle"@, ""@)
                &&& handle == said(p, "handle"@, ""@)
            }
        }),
        ({
            let found = outcome matches Ok(resp) && resp.success && resp.user is Some;
            let step = rating_found_step(query_id, p, giver, outcome);
            &&& found ==> step == rate_step(
                query_id,
                p,
                giver,
                outcome->Ok_0.user.unwrap().uuid7,
            )
            &&& !found ==> (step matches RatingStepView::Reply(r) && !r.success)
        }),
{
    reveal_strlit("");
}

/// What is answered to a rating: the user database's own words where it took the rating,
/// and why not where it did not.
pub proof fn law_rating_answers(outcome: Result<UserDbResponseView, Seq<char>>)
    ensures
        rating_answer(outcome).success == (outcome matches Ok(resp) && resp.success),
        rating_answer(outcome).success ==> rating_answer(outcome).text == outcome->Ok_0.message
            && rating_answer(outcome).error.len() == 0,
        outcome matches Ok(resp) ==> (!resp.success && resp.error.len() > 0 ==> rating_answer(
            outcome,
        ).error == resp.error),
        outcome matches Ok(resp) ==> (!resp.success && resp.error.len() == 0 ==> rating_answer(
            outcome,
        ).error == resp.message),
        outcome matches Err(e) ==> rating_answer(outcome).error == "rating failed: "@ + e,
{
}

/// A user database answer is passed on whole: it succeeds where the user database did, its
/// text is the whole answer, and its error is there only where it failed.
pub proof fn law_user_answers_are_passed_on(outcome: Result<UserDbResponseView, Seq<char>>)
    ensures
        answered(outcome).success == (outcome matches Ok(resp) && resp.success),
        outcome matches Ok(resp) ==> answered(outcome).text == json_text(response_json(resp)),
        outcome matches Ok(resp) ==> (!resp.success ==> answered(outcome).error == resp.error),
        answered(outcome).success ==> answered(outcome).error.len() == 0,
        outcome matches Err(e) ==> answered(outcome).error == e,
        identity_answer(outcome).success == (outcome matches Ok(resp) && resp.success),
        outcome matches Ok(resp) ==> (resp.success ==> identity_answer(outcome).text == json_text(
            response_json(resp),
        )),
        outcome matches Ok(resp) ==> (!resp.success ==> identity_answer(outcome).error
            == resp.error),
{
}

/// A verified identity is the user of that handle on that platform, and gets each role that
/// they had or that the terminal chat vouches for, and no other.
pub proof fn law_identity_roles(
    p: JsonView,
    roles: JsonView,
    outcome: Result<UserDbResponseView, Seq<char>>,
)
    ensures
        ({
            &&& identity_add_op(p) matches UserDbOpView::AddUser { username, channel }
            &&& username == said(p, "handle"@, ""@)
            &&& channel matches Some(ch)
            &&& ch.platform == said(p, "platform"@, ""@)
            &&& ch.handle == said(p, "handle"@, ""@)
            &&& ch.channel_id == ""@
        }),
        member(p, "verified_roles"@) == Some(roles) && (outcome matches Ok(resp) && resp.success
            && resp.user is Some) ==> {
            let u = outcome->Ok_0.user.unwrap();
            &&& identity_roles_step(p, outcome) matches UserDbStepView::Ask(op)
            &&& op matches UserDbOpView::SetRoles {
                uuid7,
                actor_uuid7,
                actor_role,
                is_sponsor,
                is_moderator,
                is_admin,
                is_owner,
            }
            &&& uuid7 == u.uuid7
            &&& actor_uuid7 == ""@
            &&& actor_role == "owner"@
            &&& is_sponsor <==> u.is_sponsor || affirmed(roles, "is_sponsor"@)
            &&& is_moderator <==> u.is_moderator || affirmed(roles, "is_moderator"@)
            &&& is_admin <==> u.is_admin || affirmed(roles, "is_admin"@)
            &&& is_owner <==> u.is_owner || affirmed(roles, "is_owner"@)
        },
        member(p, "verified_roles"@) is None && (outcome matches Ok(resp) && resp.success
            && resp.user is Some) ==> {
            let u = outcome->Ok_0.user.unwrap();
            &&& identity_roles_step(p, outcome) matches UserDbStepView::Ask(op)
            &&& op matches UserDbOpView::SetRoles {
                uuid7,
                is_sponsor,
                is_moderator,
                is_admin,
                is_owner,
                ..
            }
            &&& uuid7 == u.uuid7
            &&& is_sponsor == u.is_sponsor
            &&& is_moderator == u.is_moderator
            &&& is_admin == u.is_admin
            &&& is_owner == u.is_owner
        },
        !(outcome matches Ok(resp) && resp.success && resp.user is Some) ==> (identity_roles_step(
            p,
            outcome,
        ) matches UserDbStepView::Reply(r) && !r.success),
{
}

/// The author of a message is looked up by id where the message has one that looks like an
/// id, by the name it gives on its own platform where it does not, and not at all where it
/// names nobody.
pub proof fn law_authors_are_looked_up(chat: ChatMessageView)
    ensures
        author_lookup(chat) is None <==> chat.user_uuid7.len() == 0,
        chat.user_uuid7.len() > 0 ==> {
            &&& author_lookup(chat) matches Some(op)
            &&& op matches UserDbOpView::GetUser { uuid7, platform, channel_id, handle }
            &&& platform == chat.platform
            &&& looks_like_uuid(chat.user_uuid7) ==> uuid7 == chat.user_uuid7 && handle == ""@
                && channel_id == ""@
            &&& !looks_like_uuid(chat.user_uuid7) ==> uuid7 == ""@ && handle == chat.user_uuid7
                && channel_id == chat.user_uuid7
        },
{
}

/// What a message gets of its author: their id, name and roles, their colour where they have
/// chosen one, and their rank, score, reprimands and commendations. Nothing else about the
/// message changes.
pub proof fn law_author_is_attached(chat: ChatMessageView, u: UserRecordView, color: Seq<char>)
    ensures
        ({
            let r = enriched(chat, u, color);
            &&& r.platform == chat.platform
            &&& r.raw_message == chat.raw_message
            &&& r.raw_data == chat.raw_data
            &&& r.command == chat.command
            &&& r.channel_id == chat.channel_id
            &&& r.user_uuid7 == u.uuid7
            &&& r.user_data matches Some(d)
            &&& d.uuid == u.uuid7
            &&& d.username == u.username
            &&& d.is_sponsor == u.is_sponsor
            &&& d.is_moderator == u.is_moderator
            &&& d.is_admin == u.is_admin
            &&& d.is_owner == u.is_owner
            &&& d.bans.len() == 0
            &&& d.commendations.len() == 0
            &&& d.platform_ids.len() == 0
            &&& d.styling matches Some(st)
            &&& st.css_properties.contains(("score"@, decimal_int(u.score as int)))
            &&& st.css_properties.contains(("reprimands"@, decimal_int(u.reprimands as int)))
            &&& st.css_properties.contains(("commendations"@, decimal_int(u.commendations as int)))
            &&& exists|rank: Seq<char>| #[trigger]
                st.css_properties.contains(("rank"@, rank)) && rank == rank_of(u)
            &&& color.len() > 0 ==> st.css_properties[0] == ("color"@, color)
                && st.css_properties.len() == 5
            &&& color.len() == 0 ==> st.css_properties.len() == 4
        }),
{
    let r = enriched(chat, u, color);
    let css = r.user_data.unwrap().styling.unwrap().css_properties;
    let n = if color.len() > 0 {
        1int
    } else {
        0
    };
    assert(css[n] == ("rank"@, rank_of(u)));
    assert(css[n + 1] == ("score"@, decimal_int(u.score as int)));
    assert(css[n + 2] == ("reprimands"@, decimal_int(u.reprimands as int)));
    assert(css[n + 3] == ("commendations"@, decimal_int(u.commendations as int)));
    assert(css.contains(("rank"@, rank_of(u))));
}

/// How an author ranks: by their highest role, and without one by their score.
pub proof fn law_ranks(u: UserRecordView)
    ensures
        u.is_owner ==> rank_of(u) == "owner"@,
        !u.is_owner && u.is_admin ==> rank_of(u) == "admin"@,
        !u.is_owner && !u.is_admin && u.is_moderator ==> rank_of(u) == "mod"@,
        !u.is_owner && !u.is_admin && !u.is_moderator && u.is_sponsor ==> rank_of(u) == "sponsor"@,
        !u.is_owner && !u.is_admin && !u.is_moderator && !u.is_sponsor ==> {
            &&& 50 <= u.score ==> rank_of(u) == "opal"@
            &&& 20 <= u.score <= 49 ==> rank_of(u) == "gold"@
            &&& 5 <= u.score <= 19 ==> rank_of(u) == "silver"@
            &&& -4 <= u.score <= 4 ==> rank_of(u) == "regular"@
            &&& -19 <= u.score <= -5 ==> rank_of(u) == "coal"@
            &&& u.score <= -20 ==> rank_of(u) == "trash"@
        },
{
}

/// An author's data and colour are taken only from an answer that succeeded.
pub proof fn law_failed_lookups_give_nothing(outcome: Result<UserDbResponseView, Seq<char>>)
    ensures
        user_in(outcome) == (if outcome matches Ok(resp) && resp.success {
            outcome->Ok_0.user
        } else {
            None
        }),
        !(outcome matches Ok(resp) && resp.success && resp.value is Some) ==> color_in(
            outcome,
        ).len() == 0,
        outcome matches Ok(resp) ==> (resp.success && resp.value is Some ==> color_in(outcome)
            == resp.value.unwrap().value),
{
}

/// How an outbound message is labelled: with the human behind it and with where it goes.
pub proof fn law_sent_messages_are_labelled(send: SendToPlatformsView)
    ensures
        member(sent_note(send), "actor_platform"@) == Some(JsonView::Text(send.actor_platform)),
        member(sent_note(send), "actor_handle"@) == Some(JsonView::Text(send.actor_handle)),
        member(sent_note(send), "target"@) == Some(JsonView::Text(send.platform)),
{
    reveal_strlit("actor_platform");
    reveal_strlit("actor_handle");
    reveal_strlit("target");
    assert("actor_platform"@.len() == 14 && "actor_handle"@.len() == 12 && "target"@.len() == 6);
}

proof fn lemma_user_keys()
    ensures
        "uuid7"@.len() == 5 && "uuid7"@[0] == 'u',
        "username"@.len() == 8 && "username"@[0] == 'u',
        "is_sponsor"@.len() == 10 && "is_sponsor"@[0] == 'i',
        "is_moderator"@.len() == 12,
        "is_admin"@.len() == 8 && "is_admin"@[0] == 'i' && "is_admin"@[3] == 'a',
        "is_owner"@.len() == 8 && "is_owner"@[0] == 'i' && "is_owner"@[3] == 'o',
        "score"@.len() == 5 && "score"@[0] == 's',
        "commendations"@.len() == 13,
        "reprimands"@.len() == 10 && "reprimands"@[0] == 'r',
        "channels"@.len() == 8 && "channels"@[0] == 'c',
        "flags"@.len() == 5 && "flags"@[0] == 'f',
        "created_at"@.len() == 10 && "created_at"@[0] == 'c',
        "updated_at"@.len() == 10 && "updated_at"@[0] == 'u',
{
    reveal_strlit("uuid7");
    reveal_strlit("username");
    reveal_strlit("is_sponsor");
    reveal_strlit("is_moderator");
    reveal_strlit("is_admin");
    reveal_strlit("is_owner");
    reveal_strlit("score");
    reveal_strlit("commendations");
    reveal_strlit("reprimands");
    reveal_strlit("channels");
    reveal_strlit("flags");
    reveal_strlit("created_at");
    reveal_strlit("updated_at");
}

/// A user is shown with everything that is known of them, each under its own name.
pub proof fn law_users_are_shown_whole(u: UserRecordView, i: int)
    ensures
        member(user_json(u), "uuid7"@) == Some(JsonView::Text(u.uuid7)),
        member(user_json(u), "username"@) == Some(JsonView::Text(u.username)),
        member(user_json(u), "is_sponsor"@) == Some(JsonView::Bool(u.is_sponsor)),
        member(user_json(u), "is_moderator"@) == Some(JsonView::Bool(u.is_moderator)),
        member(user_json(u), "is_admin"@) == Some(JsonView::Bool(u.is_admin)),
        member(user_json(u), "is_owner"@) == Some(JsonView::Bool(u.is_owner)),
        member(user_json(u), "flags"@) == Some(JsonView::Text(u.flags)),
        counted(user_json(u), "score"@, u.score + 1) == u.score,
        counted(user_json(u), "commendations"@, u.commendations + 1) == u.commendations,
        counted(user_json(u), "reprimands"@, u.reprimands + 1) == u.reprimands,
        counted(user_json(u), "created_at"@, u.created_at + 1) == u.created_at,
        counted(user_json(u), "updated_at"@, u.updated_at + 1) == u.updated_at,
        0 <= i < u.channels.len() ==> {
            &&& member(user_json(u), "channels"@) matches Some(JsonView::List(l))
            &&& l.len() == u.channels.len()
            &&& said(l[i], "platform"@, u.channels[i].platform.push('x')) == u.channels[i].platform
            &&& said(l[i], "channel_id"@, u.channels[i].channel_id.push('x'))
                == u.channels[i].channel_id
            &&& said(l[i], "handle"@, u.channels[i].handle.push('x')) == u.channels[i].handle
        },
{
    lemma_user_keys();
    reveal_strlit("platform");
    reveal_strlit("channel_id");
    reveal_strlit("handle");
    assert("platform"@.len() == 8 && "channel_id"@.len() == 10 && "handle"@.len() == 6);
}

/// An answer of the user database is shown whole: whether it succeeded, its words, and the
/// users and values in it.
pub proof fn law_answers_are_shown_whole(r: UserDbResponseView, i: int)
    ensures
        member(response_json(r), "success"@) == Some(JsonView::Bool(r.success)),
        member(response_json(r), "error"@) == Some(JsonView::Text(r.error)),
        member(response_json(r), "message"@) == Some(JsonView::Text(r.message)),
        r.user is None ==> member(response_json(r), "user"@) == Some(JsonView::Null),
        r.user matches Some(u) ==> member(response_json(r), "user"@) == Some(user_json(u)),
        r.value is None ==> member(response_json(r), "value"@) == Some(JsonView::Null),
        r.value matches Some(v) ==> {
            &&& member(response_json(r), "value"@) matches Some(j)
            &&& member(j, "key"@) == Some(JsonView::Text(v.key))
            &&& member(j, "value"@) == Some(JsonView::Text(v.value))
        },
        ({
            &&& member(response_json(r), "users"@) matches Some(JsonView::List(l))
            &&& l.len() == r.users.len()
            &&& 0 <= i < l.len() ==> l[i] == user_json(r.users[i])
        }),
        ({
            &&& member(response_json(r), "values"@) matches Some(JsonView::List(l))
            &&& l.len() == r.values.len()
            &&& 0 <= i < l.len() ==> member(l[i], "key"@) == Some(JsonView::Text(r.values[i].key))
                && member(l[i], "value"@) == Some(JsonView::Text(r.values[i].value))
        }),
{
    reveal_strlit("success");
    reveal_strlit("error");
    reveal_strlit("message");
    reveal_strlit("user");
    reveal_strlit("users");
    reveal_strlit("value");
    reveal_strlit("values");
    reveal_strlit("key");
    assert("success"@.len() == 7 && "success"@[0] == 's');
    assert("message"@.len() == 7 && "message"@[0] == 'm');
    assert("error"@.len() == 5 && "error"@[0] == 'e');
    assert("users"@.len() == 5 && "users"@[0] == 'u');
    assert("value"@.len() == 5 && "value"@[0] == 'v');
    assert("user"@.len() == 4 && "values"@.len() == 6 && "key"@.len() == 3);
}

/// A rating whose actor or target cannot be found says who, or why the lookup failed.
pub proof fn law_ratings_say_who_is_missing(
    query_id: Seq<char>,
    p: JsonView,
    a: JsonView,
    giver: Seq<char>,
    e: Seq<char>,
    resp: UserDbResponseView,
)
    requires
        !resp.success || resp.user is None,
        member(p, "actor"@) == Some(a),
        !(a is Null),
    ensures
        ({
            &&& rating_giver_step(query_id, p, Err(e)) matches RatingStepView::Reply(r)
            &&& r.error == "giver"@ + (" lookup failed: "@ + e)
        }),
        ({
            &&& rating_giver_step(query_id, p, Ok(resp)) matches RatingStepView::Reply(r)
            &&& said(a, "uuid7"@, ""@).len() > 0 ==> r.error == "giver '"@ + (said(a, "uuid7"@, ""@)
                + "' not found"@)
            &&& said(a, "uuid7"@, ""@).len() == 0 ==> r.error == "giver"@ + (" '"@ + (said(
                a,
                "handle"@,
                ""@,
            ) + ("' not found on "@ + said(a, "platform"@, ""@))))
        }),
        ({
            &&& rating_found_step(query_id, p, giver, Err(e)) matches RatingStepView::Reply(r)
            &&& r.error == "target"@ + (" lookup failed: "@ + e)
        }),
        ({
            &&& rating_found_step(query_id, p, giver, Ok(resp)) matches RatingStepView::Reply(r)
            &&& r.error == "target"@ + (" '"@ + (said(p, "handle"@, ""@) + ("' not found on "@
                + said(p, "platform"@, ""@))))
        }),
{
    let ga = rating_giver_step(query_id, p, Err(e))->Reply_0.error;
    assert(ga =~= "giver"@ + (" lookup failed: "@ + e));
    let gb = rating_giver_step(query_id, p, Ok(resp))->Reply_0.error;
    if said(a, "uuid7"@, ""@).len() > 0 {
        assert(gb =~= "giver '"@ + (said(a, "uuid7"@, ""@) + "' not found"@));
    } else {
        assert(gb =~= "giver"@ + (" '"@ + (said(a, "handle"@, ""@) + ("' not found on "@ + said(
            a,
            "platform"@,
            ""@,
        )))));
    }
    let ta = rating_found_step(query_id, p, giver, Err(e))->Reply_0.error;
    assert(ta =~= "target"@ + (" lookup failed: "@ + e));
    let tb = rating_found_step(query_id, p, giver, Ok(resp))->Reply_0.error;
    assert(tb =~= "target"@ + (" '"@ + (said(p, "handle"@, ""@) + ("' not found on "@ + said(
        p,
        "platform"@,
        ""@,
    )))));
}

/// Nobody is rated without an actor, or by one who is not named, or where nobody is named.
pub proof fn law_ratings_need_both_sides(
    query_id: Seq<char>,
    p: JsonView,
    a: JsonView,
    outcome: Result<UserDbResponseView, Seq<char>>,
)
    ensures
        member(p, "actor"@) is None || member(p, "actor"@) == Some(JsonView::Null) ==> (
        rating_begin_step(p) matches RatingStepView::Reply(r) && !r.success && r.error
            == "rating requires an actor"@),
        member(p, "actor"@) == Some(a) && !(a is Null) && said(a, "uuid7"@, ""@).len() == 0 && (said(
            a,
            "platform"@,
            ""@,
        ).len() == 0 || said(a, "handle"@, ""@).len() == 0) ==> (rating_begin_step(p)
            matches RatingStepView::Reply(r) && !r.success && r.error
            == "rating actor requires uuid7 or platform+handle"@),
        (outcome matches Ok(resp) && resp.success && resp.user is Some) && said(p, "uuid7"@, ""@).len()
            == 0 && (said(p, "platform"@, ""@).len() == 0 || said(p, "handle"@, ""@).len() == 0) ==> (
        rating_giver_step(query_id, p, outcome) matches RatingStepView::Reply(r) && !r.success
            && r.error == "rating requires uuid7 or platform+handle"@),
{
}

} // verus!
