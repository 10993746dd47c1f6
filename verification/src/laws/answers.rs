//! What functions of the engine give back: replies to queries, who may bring which query,
//! where backups go, and what a new message and a post become.
use crate::chat_commands::{engine_reply_to_platform, help_reply, PlatformReply};
use crate::command_registry::CommandRegistry;
use crate::config::create_config;
use crate::connection::{assign_uuid, ingest, send_targets};
use crate::database::{AuditRow, DatabaseManager, Recovery, SqlValueView, Statement};
use crate::json::{json_text, member, Json, JsonView};
use crate::laws::chat::holds_text;
use crate::laws::moderation::{counted, said};
use crate::laws::queries::is_tui;
use crate::liveness::{checkpoint_due, probe_container};
use crate::module_client::accepted;
use crate::module_registry::{named, ModuleRegistryPersistence};
use crate::prompts::{handle_audit_flag, prompt_user_to_auth_module};
use crate::proto::{
    AuditFlag, Command, ConnectionRequestReturn, Container, DatabaseQuery, MessagePreProcess,
    PayloadView, Prompt, SendToPlatforms,
};
use crate::queries::{
    archive_flags, archive_reply, audio_result, credentials_reply, db_status, engine_info,
    held_list, plan_query, query_result, read_reply, release_reply, run_test_suite, QueryPlan,
    QueryPlanView, QueryRun,
};
use crate::text::{decimal, texts, trim};
use crate::tls::{cert_path, key_path, must_generate};
use crate::user_db_client::{ChannelRef, UserDbClient, UserDbOp, UserDbOpView, UserDbResponse};
use crate::user_queries::{
    chat_rating_virtual_query, chat_verify_identity_virtual_query, mod_target_found,
    mod_virtual_query, userdb_request, userdb_virtual_query, ModStep, ModStepView, QueryReply,
    RatingStep, RatingStepView, UserDbStep, UserDbStepView,
};
use vstd::prelude::*;
use vstd::utf8::encode_utf8;

verus! {

/// The tests succeed where they passed; what they wrote is the answer, and what they wrote
/// of errors is told only where they did not.
pub proof fn law_test_runs_are_answered(
    passed: bool,
    stdout: &Vec<u8>,
    stderr: &Vec<u8>,
    r: QueryReply,
)
    requires
        call_ensures(run_test_suite, (passed, stdout, stderr), r),
    ensures
        r@.success == passed,
        r@.text == crate::database::lossy_text(stdout@),
        passed ==> r@.error.len() == 0,
        !passed ==> r@.error == crate::database::lossy_text(stderr@),
{
}

/// A release that worked is answered with the message and whether it goes on; one that did
/// not is answered with why.
pub proof fn law_releases_are_answered(
    id: &str,
    approve: bool,
    e: &str,
    done: QueryReply,
    failed: QueryReply,
)
    requires
        call_ensures(release_reply, (id, approve, None::<&str>), done),
        call_ensures(release_reply, (id, approve, Some(e)), failed),
    ensures
        done@.success && done@.error.len() == 0,
        exists|j: JsonView| #[trigger]
            json_text(j) == done@.text && member(j, "uuid7"@) == Some(JsonView::Text(id@)) && member(
                j,
                "released"@,
            ) == Some(JsonView::Bool(approve)),
        !failed@.success && failed@.error == "audit action failed: "@ + e@,
{
    reveal_strlit("uuid7");
    reveal_strlit("released");
    assert("uuid7"@.len() == 5 && "released"@.len() == 8);
    let j = crate::queries::released_json(id@, approve);
    assert(json_text(j) == done@.text);
    assert(member(j, "uuid7"@) == Some(JsonView::Text(id@)));
}

/// Held messages are listed one by one where they could be read, and otherwise it is said
/// why not.
pub proof fn law_held_messages_are_answered(e: String, r: QueryReply)
    requires
        call_ensures(held_list, (Err::<Vec<AuditRow>, String>(e),), r),
    ensures
        !r@.success,
        r@.error == "audit_list failed: "@ + e@,
{
}

/// Stored credentials are confirmed, and an error is passed on as it is.
pub proof fn law_credentials_are_answered(
    name: &str,
    e: &str,
    done: QueryReply,
    failed: QueryReply,
)
    requires
        call_ensures(credentials_reply, (name, None::<&str>), done),
        call_ensures(credentials_reply, (name, Some(e)), failed),
    ensures
        done@.success && done@.error.len() == 0,
        !failed@.success && failed@.error == e@,
{
}

/// Kept test results are counted; a failure says after how many it came.
pub proof fn law_archives_are_answered(n: u64, e: &str, batch: &str, r: QueryReply, flags: String)
    requires
        call_ensures(archive_reply, (n, e), r),
        call_ensures(archive_flags, (batch,), flags),
    ensures
        r@.success <==> e@.len() == 0,
        e@.len() > 0 ==> r@.error == "test_archive failed after "@ + (decimal(n as nat) + (
        " inserts: "@ + e@)),
        flags@ == "test-runner|"@ + batch@,
{
    if e@.len() > 0 {
        assert(r@.error =~= "test_archive failed after "@ + (decimal(n as nat) + (" inserts: "@
            + e@)));
    }
}

/// A statement's rows are the answer where it ran, and its error where it did not.
pub proof fn law_statements_are_answered(run: QueryRun, r: QueryReply)
    requires
        call_ensures(read_reply, (run,), r),
    ensures
        r@.success <==> run is Done,
        run matches QueryRun::Done(t) ==> r@.text == t@ && r@.error.len() == 0,
        run matches QueryRun::Failed(e) ==> r@.error == e@ && r@.text.len() == 0,
{
}

/// An answer goes out under the query's id, with the reply's success, error and text.
pub proof fn law_results_carry_the_reply(
    asked: &Container,
    id: &str,
    query_id: &str,
    reply: &QueryReply,
    r: Container,
)
    requires
        call_ensures(query_result, (asked, id, query_id, reply), r),
    ensures
        r@.auth_token == asked@.auth_token,
        r@.module_name == "cockatiel"@,
        r@.payload matches Some(PayloadView::DatabaseQueryResult(x)) && x.query_id == query_id@
            && x.success == reply@.success && x.error == reply@.error && x.result_blob
            == encode_utf8(reply@.text),
{
}

/// A message's audio is answered as its bytes, and with none where there is none; an error
/// is told.
pub proof fn law_audio_is_answered(
    asked: &Container,
    id: &str,
    audio: Result<Option<(String, Vec<u8>)>, String>,
    r: Container,
)
    requires
        call_ensures(audio_result, (asked, id, audio), r),
    ensures
        ({
            &&& r@.payload matches Some(PayloadView::DatabaseQueryResult(x))
            &&& x.query_id == "audio_for_message"@
            &&& x.success <==> audio is Ok
            &&& audio matches Ok(Some(a)) ==> x.result_blob == a.1@
            &&& !(audio matches Ok(Some(_))) ==> x.result_blob.len() == 0
            &&& audio matches Err(e) ==> x.error == "audio_for_message failed: "@ + e@
        }),
{
}

/// The engine's port and place are told to whoever asks, and its PIN only with leave.
pub proof fn law_the_engine_is_described(
    port: u16,
    pin: u32,
    location: &str,
    open: QueryReply,
    closed_: QueryReply,
)
    requires
        call_ensures(engine_info, (port, pin, true, location), open),
        call_ensures(engine_info, (port, pin, false, location), closed_),
    ensures
        open@.success && closed_@.success,
        exists|j: JsonView| #[trigger]
            json_text(j) == open@.text && member(j, "pin"@) == Some(JsonView::Pos(pin as u64))
                && member(j, "port"@) == Some(JsonView::Pos(port as u64)),
        exists|j: JsonView| #[trigger]
            json_text(j) == closed_@.text && member(j, "pin"@) == Some(JsonView::Null) && member(
                j,
                "port"@,
            ) == Some(JsonView::Pos(port as u64)),
{
    reveal_strlit("port");
    reveal_strlit("pin");
    reveal_strlit("timeline_database_location");
    assert("port"@.len() == 4 && "pin"@.len() == 3 && "timeline_database_location"@.len() == 26);
    let a = crate::queries::info_json(port, Some(pin), location@);
    let b = crate::queries::info_json(port, None, location@);
    assert(json_text(a) == open@.text);
    assert(json_text(b) == closed_@.text);
    assert(member(a, "pin"@) == Some(JsonView::Pos(pin as u64)));
    assert(member(b, "pin"@) == Some(JsonView::Null));
}

/// A backup is configured exactly where it has a place that is not blank; a snapshot goes
/// there, put together beside it first. A broken database is restored only from a backup
/// that is there.
pub proof fn law_where_backups_go(
    db: &DatabaseManager,
    configured: bool,
    snapshot: Option<(String, String)>,
    with: Recovery,
    without: Recovery,
)
    requires
        call_ensures(DatabaseManager::backup_configured, (db,), configured),
        call_ensures(DatabaseManager::sync_to_remote, (db,), snapshot),
        call_ensures(DatabaseManager::initialize, (db, true), with),
        call_ensures(DatabaseManager::initialize, (db, false), without),
    ensures
        snapshot is Some <==> configured,
        configured ==> (db.settings().remote_url matches Some(p) && trim(p).len() > 0
            && snapshot.unwrap().0@ == p && snapshot.unwrap().1@ == p + ".tmp"@),
        with is Restore <==> db.settings().remote_url is Some,
        without is GiveUp,
{
}

/// Rendered audio is fetched with its type, and there is none where no bytes are kept.
pub proof fn law_audio_is_fetched(
    blob: Option<Vec<u8>>,
    flags: &str,
    r: Option<(String, Vec<u8>)>,
)
    requires
        call_ensures(DatabaseManager::get_audio, (blob, flags), r),
    ensures
        r is Some <==> (blob matches Some(b) && b@.len() > 0),
        r matches Some(a) ==> a.1@ == blob.unwrap()@ && a.0@ == crate::database::audio_type_of(
            flags@,
        ),
{
}

/// Held messages are listed oldest first, a hundred at a time where no limit is given.
pub proof fn law_held_messages_are_listed(
    db: &DatabaseManager,
    limit: i32,
    offset: i32,
    r: Statement,
)
    requires
        call_ensures(DatabaseManager::list_audit, (db, limit, offset), r),
    ensures
        r@.sql
            == "SELECT uuid7, platform, raw_message, user_uuid7, flags, persisted_at FROM timeline_events WHERE pipeline_status = 'audit' ORDER BY persisted_at ASC LIMIT ?1 OFFSET ?2"@,
        r@.params.len() == 2,
        limit > 0 ==> r@.params[0] == SqlValueView::Integer(limit as i64),
        limit <= 0 ==> r@.params[0] == SqlValueView::Integer(100),
        offset >= 0 ==> r@.params[1] == SqlValueView::Integer(offset as i64),
        offset < 0 ==> r@.params[1] == SqlValueView::Integer(0),
{
}

/// The database's own statements set what they are named after, of the message that is
/// given.
pub proof fn law_statements_set_what_they_name(
    db: &DatabaseManager,
    id: &Vec<u8>,
    t: &str,
    status: Statement,
    error: Statement,
    processed: Statement,
    user: Statement,
    flags: Statement,
    command: Statement,
)
    requires
        call_ensures(DatabaseManager::set_pipeline_status, (db, id, t), status),
        call_ensures(DatabaseManager::set_error, (db, id, t), error),
        call_ensures(DatabaseManager::set_processed_message, (db, id, t), processed),
        call_ensures(DatabaseManager::set_user_uuid, (db, id, t), user),
        call_ensures(DatabaseManager::set_flags, (db, id, t), flags),
        call_ensures(DatabaseManager::set_command, (db, id, t), command),
    ensures
        ({
            let p = seq![SqlValueView::Text(t@), SqlValueView::Blob(id@)];
            &&& status@.params == p
            &&& error@.params == p
            &&& processed@.params == p
            &&& user@.params == p
            &&& flags@.params == p
            &&& command@.params == p
        }),
        status@.sql == "UPDATE timeline_events SET pipeline_status = ?1 WHERE uuid7 = ?2"@,
        error@.sql
            == "UPDATE timeline_events SET error_message = ?1, pipeline_status = 'failed' WHERE uuid7 = ?2"@,
        processed@.sql == "UPDATE timeline_events SET processed_message = ?1 WHERE uuid7 = ?2"@,
        user@.sql
            == "UPDATE timeline_events SET user_uuid7 = ?1 WHERE uuid7 = ?2 AND user_uuid7 IS NULL"@,
        flags@.sql == "UPDATE timeline_events SET flags = ?1 WHERE uuid7 = ?2"@,
        command@.sql == "UPDATE timeline_events SET command = ?1 WHERE uuid7 = ?2"@,
{
}

/// Only the module made for a rating may bring it, and only the terminal chat an identity;
/// a payload that cannot be read is refused.
pub proof fn law_who_may_bring_which_query(
    sql: &str,
    requester: &str,
    commend: (RatingStep, Json),
    reprimand: (RatingStep, Json),
    identity: Result<(UserDbOp, Json), QueryReply>,
)
    requires
        call_ensures(chat_rating_virtual_query, ("chat_commend", sql, requester), commend),
        call_ensures(chat_rating_virtual_query, ("chat_reprimand", sql, requester), reprimand),
        call_ensures(chat_verify_identity_virtual_query, (sql, requester), identity),
    ensures
        requester@ != "commend"@ ==> (commend.0@ matches RatingStepView::Reply(r) && !r.success),
        requester@ != "reprimand"@ ==> (reprimand.0@ matches RatingStepView::Reply(r)
            && !r.success),
        requester@ != "term-chat"@ ==> (identity matches Err(r) && !r@.success),
        crate::json::json_read(sql@) is Err ==> commend.0@ is Reply && reprimand.0@ is Reply
            && identity is Err,
        crate::json::json_read(sql@) matches Ok(p) ==> (requester@ == "commend"@ ==> commend.1@ == p
            && commend.0@ == crate::user_queries::rating_begin_step(p)),
        crate::json::json_read(sql@) matches Ok(p) ==> (requester@ == "term-chat"@ ==> identity
            is Ok && identity->Ok_0.1@ == p),
{
    reveal_strlit("chat_commend");
    reveal_strlit("chat_reprimand");
    assert("chat_commend"@.len() == 12 && "chat_reprimand"@.len() == 14);
}

/// A payload of a moderation or user query that cannot be read is refused with the reason,
/// and asks nothing.
pub proof fn law_unreadable_queries_ask_nothing(
    query_id: &str,
    sql: &str,
    requester: &str,
    local: bool,
    now_ms: Option<u64>,
    e: Seq<char>,
    moderation: (ModStep, Json),
    userdb: UserDbStep,
)
    requires
        crate::json::json_read(sql@) == Err::<JsonView, Seq<char>>(e),
        call_ensures(mod_virtual_query, (query_id, sql, requester, now_ms), moderation),
        call_ensures(userdb_virtual_query, (query_id, sql, local, now_ms), userdb),
    ensures
        moderation.0@ is Reply && !moderation.0@->Reply_0.success && moderation.0@->Reply_0.error
            == "Invalid mod payload: "@ + e,
        userdb@ matches UserDbStepView::Reply(r) && !r.success && r.error
            == "Invalid userdb payload: "@ + e,
{
}

/// A new message enters as it came, with its author and its command, under the header of who
/// brought it.
pub proof fn law_new_messages_are_taken_in(
    container: &Container,
    message: MessagePreProcess,
    registry: &CommandRegistry,
    r: (Container, Option<PlatformReply>),
)
    requires
        call_ensures(ingest, (container, message, registry), r),
    ensures
        r.0@.module_name == container@.module_name,
        r.0@.auth_token == container@.auth_token,
        r.0@.module_instance_uuid7 == container@.module_instance_uuid7,
        ({
            &&& r.0@.payload matches Some(PayloadView::MessagePreProcess(m))
            &&& m.message_uuid7 == message@.message_uuid7
            &&& m.audio == message@.audio
            &&& message@.raw_message is None ==> m.raw_message is None && r.1 is None
            &&& message@.raw_message matches Some(a) ==> {
                &&& m.raw_message matches Some(b)
                &&& b.raw_message == a.raw_message
                &&& b.platform == a.platform
                &&& b.channel_id == a.channel_id
                &&& b.user_uuid7 == a.user_uuid7
                &&& b.user_data == a.user_data
            }
        }),
{
}

/// What the engine posts goes to the adapters of its platform and to nobody where the
/// platform is unknown; what a module posts goes to those of them that are connected.
pub proof fn law_posts_go_to_their_platform(
    platform: &str,
    channel: &str,
    msg: &str,
    send: &SendToPlatforms,
    connected: &Vec<String>,
    a: Option<PlatformReply>,
    b: Vec<String>,
)
    requires
        call_ensures(engine_reply_to_platform, (platform, channel, msg), a),
        call_ensures(send_targets, (send, connected), b),
    ensures
        platform@ == "twitch"@ ==> a is Some && texts(a.unwrap().targets@) == seq![
            "twitch-adapter"@,
        ],
        platform@ == "discord"@ ==> a is Some && texts(a.unwrap().targets@) == seq![
            "discord-adapter"@,
        ],
        a matches Some(p) ==> (p.container@.payload matches Some(PayloadView::SendToPlatforms(s))
            && s.msg == msg@ && s.platform == platform@ && s.channel_id == channel@),
        send@.platform == "kick"@ ==> texts(b@) == (if texts(connected@).contains("kick-adapter"@) {
            seq!["kick-adapter"@]
        } else {
            Seq::<Seq<char>>::empty()
        }),
{
    crate::laws::chat::law_platforms_have_their_adapters(platform@);
    let names = seq!["kick-adapter"@];
    assert(names.drop_last() =~= Seq::<Seq<char>>::empty());
    assert(crate::orchestrator::only_connected(names.drop_last(), texts(connected@))
        =~= Seq::<Seq<char>>::empty());
    assert(crate::orchestrator::only_connected(names, texts(connected@)) =~= (if texts(
        connected@,
    ).contains("kick-adapter"@) {
        seq!["kick-adapter"@]
    } else {
        Seq::<Seq<char>>::empty()
    }));
}

/// A flagged message is asked about exactly where it is held now and was not before.
pub proof fn law_flagged_messages_are_asked_about_once(
    flag: &AuditFlag,
    already_held: bool,
    held: bool,
    entry: &Option<Json>,
    r: Option<Prompt>,
)
    requires
        call_ensures(handle_audit_flag, (flag, already_held, held, entry), r),
    ensures
        r is Some <==> held && !already_held,
        r matches Some(q) ==> q@.yes_dialog == "Approve"@ && q@.no_dialog == "Reject"@,
{
}

/// On the terminal no answer lets nobody in.
pub proof fn law_no_answer_is_no(r: bool)
    requires
        call_ensures(prompt_user_to_auth_module, (None::<&str>,), r),
    ensures
        !r,
{
}

/// A module never gets an id that is taken.
pub proof fn law_no_id_is_given_twice(
    requested: &str,
    taken: &Vec<String>,
    candidate: String,
    r: Option<String>,
)
    requires
        call_ensures(assign_uuid, (requested, taken, candidate), r),
    ensures
        r matches Some(u) ==> !texts(taken@).contains(u@) && (u@ == requested@ || u@ == candidate@),
        requested@.len() > 0 && !texts(taken@).contains(requested@) ==> (r matches Some(u) && u@
            == requested@),
        r is None ==> texts(taken@).contains(candidate@),
{
}

/// What is kept of an approved module is what is found of it: whether it needs no question
/// and which token it has.
pub proof fn law_what_is_known_of_a_module(
    registry: &ModuleRegistryPersistence,
    name: &str,
    known: bool,
    token: Option<String>,
)
    requires
        call_ensures(ModuleRegistryPersistence::is_known_and_auto_auth, (registry, name), known),
        call_ensures(ModuleRegistryPersistence::get_token_for, (registry, name), token),
    ensures
        known <==> (named(registry@, name@) matches Some(m) && m.auto_auth),
        token is Some <==> named(registry@, name@) is Some,
        named(registry@, name@) matches Some(m) ==> token.unwrap()@ == m.auth_token,
{
}

/// The write-ahead log is merged when it exceeds five mebibytes, and at every fourth tick.
pub proof fn law_when_the_log_is_merged(size: u64, ticks: u32, r: (bool, u32))
    requires
        call_ensures(checkpoint_due, (size, ticks), r),
    ensures
        size > 5 * 1024 * 1024 ==> r.0,
        ticks >= 3 ==> r.0,
        size <= 5 * 1024 * 1024 && ticks < 3 ==> !r.0 && r.1 == ticks + 1,
        r.0 ==> r.1 == 0,
{
}

/// Settings that are there are never overwritten; a certificate is made only where it or its
/// key is missing; and the engine lets a module go on exactly where it sends it nowhere else.
pub proof fn law_what_is_there_stays(
    t: String,
    kept: (String, bool),
    fresh: (String, bool),
    a: bool,
    b: bool,
    made: bool,
    answer: &ConnectionRequestReturn,
    on: bool,
)
    requires
        call_ensures(create_config, (Some(t),), kept),
        call_ensures(create_config, (None::<String>,), fresh),
        call_ensures(must_generate, (a, b), made),
        call_ensures(accepted, (answer,), on),
    ensures
        kept.0@ == t@ && !kept.1,
        fresh.1,
        made <==> !a || !b,
        on <==> answer@.new_port == 0,
{
}

/// A module is probed with a question for its token, from the engine.
pub proof fn law_probes_come_from_the_engine(r: Container)
    requires
        call_ensures(probe_container, (), r),
    ensures
        r@.module_name == "engine"@,
        r@.payload matches Some(PayloadView::AuthVerify(v)) && v.cur_auth.len() == 0,
{
}

/// The user database is reached at its host and port; users and channels are added as they
/// are given, and users listed by platform.
pub proof fn law_the_client_adds_what_it_is_given(
    host: &str,
    port: u16,
    token: &str,
    client: UserDbClient,
    name: &str,
    channel: Option<ChannelRef>,
    limit: i32,
    offset: i32,
    added: UserDbOp,
    linked: UserDbOp,
    listed: UserDbOp,
)
    requires
        call_ensures(UserDbClient::new, (host, port, token), client),
        call_ensures(UserDbClient::add_user, (&client, name, channel), added),
        call_ensures(UserDbClient::add_channel, (&client, name, channel), linked),
        call_ensures(UserDbClient::list_users, (&client, name, limit, offset), listed),
    ensures
        client.url@ == "ws://"@ + (host@ + (":"@ + decimal(port as nat))),
        client.token@ == token@,
        added@ is AddUser && added@->username == name@ && added@->AddUser_channel
            == crate::proto::opt_view(channel),
        linked@ is AddChannel && linked@->AddChannel_uuid7 == name@ && linked@->AddChannel_channel
            == crate::proto::opt_view(channel),
        listed@ == (UserDbOpView::ListUsers { platform: name@, limit, offset }),
{
    assert(client.url@ =~= "ws://"@ + (host@ + (":"@ + decimal(port as nat))));
}

/// Each held message stands in the list, in the order in which they were read, with its id,
/// its text and why it is held.
pub proof fn law_every_held_message_is_listed(rows: Vec<AuditRow>, r: QueryReply)
    requires
        call_ensures(held_list, (Ok::<Vec<AuditRow>, String>(rows),), r),
    ensures
        r@.success && r@.error.len() == 0,
        exists|l: Seq<JsonView>|
            {
                &&& #[trigger] json_text(JsonView::List(l)) == r@.text
                &&& l.len() == rows@.len()
                &&& forall|i: int|
                    0 <= i < l.len() ==> {
                        &&& member(#[trigger] l[i], "uuid7"@) == Some(
                            JsonView::Text(crate::database::lossy_text(rows@[i].uuid7@)),
                        )
                        &&& member(l[i], "raw_message"@) == Some(
                            JsonView::Text(rows@[i].raw_message@),
                        )
                        &&& rows@[i].flags matches Some(f) ==> member(l[i], "reason"@) == Some(
                            JsonView::Text(f@),
                        )
                        &&& rows@[i].platform matches Some(p) ==> member(l[i], "platform"@) == Some(
                            JsonView::Text(p@),
                        )
                    }
            },
{
    reveal_strlit("uuid7");
    reveal_strlit("platform");
    reveal_strlit("raw_message");
    reveal_strlit("user_uuid7");
    reveal_strlit("reason");
    reveal_strlit("persisted_at");
    assert("uuid7"@.len() == 5 && "platform"@.len() == 8 && "raw_message"@.len() == 11
        && "user_uuid7"@.len() == 10 && "reason"@.len() == 6 && "persisted_at"@.len() == 12);
    let l = crate::proto::views(rows@).map_values(
        |a: crate::database::AuditRowView| crate::database::audit_row_json(a),
    );
    assert(json_text(JsonView::List(l)) == r@.text);
    assert forall|i: int| 0 <= i < l.len() implies l[i] == crate::database::audit_row_json(
        rows@[i]@,
    ) by {
        assert(crate::proto::views(rows@)[i] == rows@[i]@);
    }
}

/// Each database is said to be backed up exactly where its backup has a place that is not
/// blank, and the sizes told are those of the timeline.
pub proof fn law_backups_are_told(
    db: &DatabaseManager,
    path: Option<&str>,
    size: u64,
    r: QueryReply,
)
    requires
        call_ensures(db_status, (db, path, size), r),
    ensures
        r@.success && r@.error.len() == 0,
        exists|j: JsonView|
            {
                &&& #[trigger] json_text(j) == r@.text
                &&& member(j, "timeline_backup"@) == Some(
                    JsonView::Bool(
                        db.settings().remote_url matches Some(p) && trim(p).len() > 0,
                    ),
                )
                &&& member(j, "userdb_backup"@) == Some(
                    JsonView::Bool(path matches Some(p) && trim(p@).len() > 0),
                )
                &&& member(j, "timeline_db_size_bytes"@) == Some(JsonView::Pos(size))
                &&& member(j, "timeline_db_target_mb"@) == Some(
                    JsonView::Pos(db.settings().local_target_mb as u64),
                )
            },
{
    reveal_strlit("timeline_backup");
    reveal_strlit("userdb_backup");
    reveal_strlit("timeline_db_size_bytes");
    reveal_strlit("timeline_db_target_mb");
    assert("timeline_backup"@.len() == 15 && "userdb_backup"@.len() == 13
        && "timeline_db_size_bytes"@.len() == 22 && "timeline_db_target_mb"@.len() == 21);
    let j = crate::queries::status_json(
        db.settings().remote_url matches Some(p) && trim(p).len() > 0,
        path matches Some(p) && trim(p@).len() > 0,
        size,
        db.settings().local_target_mb,
    );
    assert(json_text(j) == r@.text);
    assert(member(j, "timeline_db_size_bytes"@) == Some(JsonView::Pos(size)));
}

/// The certificate and its key are kept apart, in the same directory.
pub proof fn law_certificate_and_key_are_kept_apart(cert: String, key: String)
    requires
        call_ensures(cert_path, (), cert),
        call_ensures(key_path, (), key),
    ensures
        cert@ == "tls/cockatiel-cert.pem"@,
        key@ == "tls/cockatiel-key.pem"@,
{
    reveal_strlit("tls");
    reveal_strlit("/");
    reveal_strlit("cockatiel-cert.pem");
    reveal_strlit("cockatiel-key.pem");
    reveal_strlit("tls/cockatiel-cert.pem");
    reveal_strlit("tls/cockatiel-key.pem");
    assert(cert@ =~= "tls/cockatiel-cert.pem"@);
    assert(key@ =~= "tls/cockatiel-key.pem"@);
}

/// A held message that is approved goes on and one that is rejected does not, each the
/// message that the query names.
pub proof fn law_held_messages_are_decided_on(
    query: &DatabaseQuery,
    from: &str,
    payload: JsonView,
    r: QueryPlan,
)
    requires
        crate::json::json_read(query@.sql) == Ok::<JsonView, Seq<char>>(payload),
        is_tui(from@),
        said(payload, "uuid7"@, ""@).len() > 0,
        query@.query_id == "audit_approve"@ || query@.query_id == "audit_reject"@,
        call_ensures(plan_query, (query, from), r),
    ensures
        ({
            &&& r@ matches QueryPlanView::Release { uuid7, approve }
            &&& uuid7 == said(payload, "uuid7"@, ""@)
            &&& approve <==> query@.query_id == "audit_approve"@
        }),
{
    crate::laws::queries::law_approval_and_rejection_differ(query@.sql, from@, payload);
    reveal_strlit("audit_approve");
    reveal_strlit("audit_reject");
    assert("audit_approve"@.len() == 13 && "audit_reject"@.len() == 12);
}

/// What is asked of the user database to raise a score adds to it, and what is asked to
/// lower it takes away, by as much as the payload says.
pub proof fn law_scores_go_the_right_way(
    query_id: &str,
    p: &Json,
    local: bool,
    now_ms: Option<u64>,
    r: UserDbStep,
)
    requires
        call_ensures(userdb_request, (query_id, p, local, now_ms), r),
    ensures
        query_id@ == "userdb_add_score"@ ==> (r@ matches UserDbStepView::Ask(
            UserDbOpView::AddScore { uuid7, delta, .. },
        ) && uuid7 == said(p@, "uuid7"@, ""@) && delta == counted(p@, "delta"@, 1)),
        query_id@ == "userdb_remove_score"@ ==> (r@ matches UserDbStepView::Ask(
            UserDbOpView::RemoveScore { uuid7, delta, .. },
        ) && uuid7 == said(p@, "uuid7"@, ""@) && delta == counted(p@, "delta"@, 1)),
        query_id@ == "userdb_commendation"@ ==> (r@ matches UserDbStepView::Ask(
            UserDbOpView::AddScore { uuid7, delta, .. },
        ) && uuid7 == said(p@, "uuid7"@, ""@) && delta == 1),
        query_id@ == "userdb_reprimand"@ ==> (r@ matches UserDbStepView::Ask(
            UserDbOpView::RemoveScore { uuid7, delta, .. },
        ) && uuid7 == said(p@, "uuid7"@, ""@) && delta == 1),
        query_id@ == "userdb_ban"@ ==> (r@ matches UserDbStepView::Ask(
            UserDbOpView::WriteUserValue { uuid7, key, .. },
        ) && uuid7 == said(p@, "uuid7"@, ""@) && key == "ban"@),
{
    crate::laws::moderation::law_score_queries(p@, local, now_ms);
    crate::laws::moderation::law_ban_queries(p@, local, now_ms);
}

/// A moderator's word is carried out on the user that was found: praise adds to their score,
/// a reprimand takes away, a ban is written as a ban and a timeout as a timeout.
pub proof fn law_moderation_is_carried_out(
    query_id: &str,
    p: &Json,
    found: Result<UserDbResponse, String>,
    now_ms: Option<u64>,
    r: ModStep,
)
    requires
        found matches Ok(resp) && resp@.success && resp@.user is Some,
        call_ensures(mod_target_found, (query_id, p, found, now_ms), r),
    ensures
        ({
            let who = found->Ok_0@.user.unwrap().uuid7;
            let secs = counted(p@, "duration_secs"@, 300);
            &&& query_id@ == "mod_commend"@ ==> (r@ matches ModStepView::Act(
                UserDbOpView::AddScore { uuid7, delta, .. },
            ) && uuid7 == who && delta == 1)
            &&& query_id@ == "mod_reprimand"@ ==> (r@ matches ModStepView::Act(
                UserDbOpView::RemoveScore { uuid7, delta, .. },
            ) && uuid7 == who && delta == 1)
            &&& query_id@ == "mod_ban"@ ==> (r@ matches ModStepView::Act(
                UserDbOpView::WriteUserValue { uuid7, key, .. },
            ) && uuid7 == who && key == "ban"@)
            &&& query_id@ == "mod_timeout"@ && now_ms is None && 0 <= secs <= 31_536_000 ==> (r@
                matches ModStepView::Act(UserDbOpView::WriteUserValue { uuid7, key, .. }) && uuid7
                == who && key == "timeout"@)
        }),
{
    let who = found->Ok_0@.user.unwrap().uuid7;
    crate::laws::moderation::law_moderation_does_what_it_says(p@, who, now_ms);
}

/// What is posted for `!help` names every command that there is, with its description.
pub proof fn law_help_is_complete(commands: &Vec<Command>, i: int, r: String)
    requires
        0 <= i < commands@.len(),
        call_ensures(help_reply, (commands,), r),
    ensures
        holds_text(r@, commands@[i]@.command_flag + commands@[i]@.command_name),
        holds_text(r@, commands@[i]@.command_description),
{
    let all = crate::proto::views(commands@);
    assert(all[i] == commands@[i]@);
    crate::laws::chat::law_help_names_every_command(all, i);
}

} // verus!
