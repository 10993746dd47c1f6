//! Queries: what each of them is planned as, who may ask it and what it is answered.
use crate::json::{member, JsonView};
use crate::proto::{ContainerView, DatabaseQueryResultView, DatabaseQueryView, PayloadView};
use crate::queries::{
    answered_with, archived, info_json, planned, released_json, result_container, results_in,
    run_outcome, status_json, stored_json, submitted, test_args, QueryPlanView, QueryRunView,
};
use crate::laws::moderation::{counted, said};
use crate::sql::read_only;
use crate::text::decimal_int;
use crate::user_queries::refused;
use vstd::prelude::*;

verus! {

proof fn lemma_query_ids()
    ensures
        "db_status"@.len() == 9 && "db_status"@[0] == 'd',
        "module_list"@.len() == 11 && "module_list"@[0] == 'm',
        "engine_info"@.len() == 11 && "engine_info"@[0] == 'e',
        "test_run"@.len() == 8 && "test_run"@[0] == 't',
        "audit_list"@.len() == 10 && "audit_list"@[0] == 'a',
        "audit_approve"@.len() == 13 && "audit_approve"@[0] == 'a',
        "audit_reject"@.len() == 12 && "audit_reject"@[0] == 'a',
        "chat_commend"@.len() == 12 && "chat_commend"@[0] == 'c',
        "chat_reprimand"@.len() == 14 && "chat_reprimand"@[0] == 'c',
        "chat_verify_identity"@.len() == 20 && "chat_verify_identity"@[0] == 'c',
        "set_credentials"@.len() == 15 && "set_credentials"@[0] == 's',
        "audio_for_message"@.len() == 17 && "audio_for_message"@[0] == 'a',
        "test_archive"@.len() == 12 && "test_archive"@[0] == 't',
        "mod_"@.len() == 4 && "mod_"@[0] == 'm',
        "userdb_"@.len() == 7 && "userdb_"@[0] == 'u',
{
    reveal_strlit("db_status");
    reveal_strlit("module_list");
    reveal_strlit("engine_info");
    reveal_strlit("test_run");
    reveal_strlit("audit_list");
    reveal_strlit("audit_approve");
    reveal_strlit("audit_reject");
    reveal_strlit("chat_commend");
    reveal_strlit("chat_reprimand");
    reveal_strlit("chat_verify_identity");
    reveal_strlit("set_credentials");
    reveal_strlit("audio_for_message");
    reveal_strlit("test_archive");
    reveal_strlit("mod_");
    reveal_strlit("userdb_");
}

proof fn lemma_no_prefix(a: Seq<char>, b: Seq<char>)
    requires
        a.len() > 0,
        b.len() > 0,
        a[0] != b[0],
    ensures
        !a.is_prefix_of(b),
{
    if a.is_prefix_of(b) {
        assert(a[0] == b.subrange(0, a.len() as int)[0]);
    }
}

/// Whether a module is the terminal interface or one of its children.
pub open spec fn is_tui(from: Seq<char>) -> bool {
    from == "cockatiel-tui"@ || from == "cockatiel-tui-child"@
}

/// A message that is held for review is released to go on where it is approved, and to end
/// where it is rejected: the two queries never mean the same. Only the terminal interface
/// may ask either, and it has to say which message it means.
pub proof fn law_approval_and_rejection_differ(
    sql: Seq<char>,
    from: Seq<char>,
    payload: JsonView,
)
    requires
        crate::json::json_read(sql) == Ok::<JsonView, Seq<char>>(payload),
    ensures
        ({
            let id = said(payload, "uuid7"@, ""@);
            let yes = planned(DatabaseQueryView { query_id: "audit_approve"@, sql }, from);
            let no = planned(DatabaseQueryView { query_id: "audit_reject"@, sql }, from);
            &&& is_tui(from) && id.len() > 0 ==> {
                &&& yes matches QueryPlanView::Release { uuid7: a, approve: go_on }
                &&& no matches QueryPlanView::Release { uuid7: b, approve: go_on_too }
                &&& a == id
                &&& b == id
                &&& go_on
                &&& !go_on_too
            }
            &&& is_tui(from) && id.len() == 0 ==> {
                &&& yes == QueryPlanView::Reply(refused("audit action requires uuid7"@))
                &&& no == QueryPlanView::Reply(refused("audit action requires uuid7"@))
            }
            &&& !is_tui(from) ==> {
                &&& yes == QueryPlanView::Reply(refused("Audit access denied: not the TUI"@))
                &&& no == QueryPlanView::Reply(refused("Audit access denied: not the TUI"@))
            }
        }),
{
    lemma_query_ids();
}

/// What the terminal interface alone may ask: to run the tests, to list what is held, to
/// use the user database and to store credentials. Each is what its id says; from anybody
/// else it is refused.
pub proof fn law_queries_of_the_terminal(q: DatabaseQueryView, from: Seq<char>, payload: JsonView)
    requires
        crate::json::json_read(q.sql) == Ok::<JsonView, Seq<char>>(payload),
    ensures
        q.query_id == "test_run"@ ==> {
            &&& is_tui(from) ==> planned(q, from) == (QueryPlanView::RunTests {
                args: test_args(payload),
            })
            &&& !is_tui(from) ==> planned(q, from) == QueryPlanView::Reply(
                refused("Test runner access denied: not the TUI"@),
            )
        },
        q.query_id == "audit_list"@ ==> {
            &&& is_tui(from) ==> {
                let n = counted(payload, "limit"@, 100);
                let k = counted(payload, "offset"@, 0);
                &&& planned(q, from) matches QueryPlanView::ListHeld { limit, offset }
                &&& i32::MIN <= n <= i32::MAX ==> limit == n
                &&& i32::MIN <= k <= i32::MAX ==> offset == k
            }
            &&& !is_tui(from) ==> planned(q, from) == QueryPlanView::Reply(
                refused("Audit access denied: not the TUI"@),
            )
        },
        q.query_id == "set_credentials"@ ==> {
            &&& is_tui(from) ==> planned(q, from) is SetCredentials
            &&& !is_tui(from) ==> planned(q, from) == QueryPlanView::Reply(
                refused("set_credentials denied: not the TUI"@),
            )
        },
        "userdb_"@.is_prefix_of(q.query_id) ==> {
            &&& is_tui(from) ==> planned(q, from) is UserDb
            &&& !is_tui(from) ==> planned(q, from) == QueryPlanView::Reply(
                refused("User database access denied: not the TUI"@),
            )
        },
{
    lemma_query_ids();
    if q.query_id == "set_credentials"@ {
        lemma_no_prefix("mod_"@, q.query_id);
        lemma_no_prefix("userdb_"@, q.query_id);
    }
    if "userdb_"@.is_prefix_of(q.query_id) {
        assert(q.query_id[0] == "userdb_"@[0]) by {
            assert("userdb_"@[0] == q.query_id.subrange(0, 7)[0]);
        }
        lemma_no_prefix("mod_"@, q.query_id);
    }
}

/// What every module may ask: how the databases are backed up, which modules there are,
/// where the engine is reached, to moderate, to rate and to record an identity. Credentials
/// are shown only to the terminal interface and the terminal chat, and the PIN only to the
/// terminal interface.
pub proof fn law_queries_of_every_module(q: DatabaseQueryView, from: Seq<char>)
    ensures
        q.query_id == "db_status"@ ==> planned(q, from) is DbStatus,
        q.query_id == "module_list"@ ==> planned(q, from) == (QueryPlanView::ModuleList {
            expose: is_tui(from) || from == "term-chat"@,
        }),
        q.query_id == "engine_info"@ ==> planned(q, from) == (QueryPlanView::EngineInfo {
            with_pin: is_tui(from),
        }),
        q.query_id == "mod_commend"@ || q.query_id == "mod_reprimand"@ || q.query_id == "mod_ban"@
            || q.query_id == "mod_timeout"@ ==> planned(q, from) is Moderate,
        q.query_id == "chat_commend"@ || q.query_id == "chat_reprimand"@ ==> planned(q, from)
            is Rate,
        q.query_id == "chat_verify_identity"@ ==> planned(q, from) is VerifyIdentity,
{
    lemma_query_ids();
    reveal_strlit("mod_");
    reveal_strlit("mod_commend");
    reveal_strlit("mod_reprimand");
    reveal_strlit("mod_ban");
    reveal_strlit("mod_timeout");
    if q.query_id == "mod_commend"@ || q.query_id == "mod_reprimand"@ || q.query_id == "mod_ban"@
        || q.query_id == "mod_timeout"@ {
        assert(q.query_id[0] == 'm' && q.query_id[3] == '_');
        reveal_strlit("module_list");
        assert("module_list"@[3] == 'u');
        assert("mod_"@ =~= q.query_id.subrange(0, 4));
        assert("mod_"@.is_prefix_of(q.query_id));
    } else if q.query_id.len() > 0 && q.query_id[0] == 'c' {
        lemma_no_prefix("mod_"@, q.query_id);
        lemma_no_prefix("userdb_"@, q.query_id);
    }
}

/// The audio of a message is fetched for the message that the query names; test results are
/// kept only for the test runner, in the batch that it names and with every result that
/// holds anything; and any other statement is run only where it reads.
pub proof fn law_other_queries(q: DatabaseQueryView, from: Seq<char>, payload: JsonView)
    requires
        crate::json::json_read(q.sql) == Ok::<JsonView, Seq<char>>(payload),
    ensures
        q.query_id == "audio_for_message"@ ==> {
            let id = said(payload, "uuid7"@, ""@);
            &&& id.len() > 0 ==> planned(q, from) == (QueryPlanView::Audio { uuid7: id })
            &&& id.len() == 0 ==> planned(q, from) == QueryPlanView::Reply(
                refused("audio_for_message requires uuid7"@),
            )
        },
        q.query_id == "test_archive"@ ==> {
            &&& from == "cockatiel-test-runner"@ ==> {
                &&& planned(q, from) matches QueryPlanView::Archive { batch, entries }
                &&& batch == said(payload, "batch_uuid"@, "test"@)
                &&& entries == archived(payload)
            }
            &&& from != "cockatiel-test-runner"@ ==> planned(q, from) == QueryPlanView::Reply(
                refused("test_archive access denied: not the test runner"@),
            )
        },
        q.query_id != "db_status"@ && q.query_id != "module_list"@ && q.query_id != "engine_info"@
            && q.query_id != "test_run"@ && q.query_id != "audit_list"@ && q.query_id
            != "audit_approve"@ && q.query_id != "audit_reject"@ && q.query_id != "chat_commend"@
            && q.query_id != "chat_reprimand"@ && q.query_id != "chat_verify_identity"@
            && q.query_id != "set_credentials"@ && q.query_id != "audio_for_message"@
            && q.query_id != "test_archive"@ && !"mod_"@.is_prefix_of(q.query_id)
            && !"userdb_"@.is_prefix_of(q.query_id) ==> {
            &&& read_only(q.sql) ==> planned(q, from) == (QueryPlanView::Read { sql: q.sql })
            &&& !read_only(q.sql) ==> planned(q, from) == QueryPlanView::Reply(
                refused(
                    "Denied: only read-only SQL (SELECT/WITH/EXPLAIN) is allowed via DatabaseQuery — use a dedicated virtual query for writes"@,
                ),
            )
        },
{
    lemma_query_ids();
    if q.query_id == "audio_for_message"@ || q.query_id == "test_archive"@ {
        lemma_no_prefix("mod_"@, q.query_id);
        lemma_no_prefix("userdb_"@, q.query_id);
    }
}

/// Of test results every one that holds anything is kept, in order, and no other.
pub proof fn law_results_are_kept_in_order(entries: Seq<JsonView>, e: JsonView)
    ensures
        said(e, "json"@, ""@).len() > 0 ==> results_in(entries.push(e)) == results_in(entries).push(
            said(e, "json"@, ""@),
        ),
        said(e, "json"@, ""@).len() == 0 ==> results_in(entries.push(e)) == results_in(entries),
        results_in(Seq::<JsonView>::empty()).len() == 0,
{
    assert(entries.push(e).drop_last() =~= entries);
}

/// How the tests are run: the suite and the number of iterations are the query's, all of
/// them and a hundred where it says nothing; a module is given only where the query names
/// one; and the results are asked for in machine-readable form.
pub proof fn law_test_arguments(payload: JsonView)
    ensures
        ({
            let args = test_args(payload);
            let module = said(payload, "module"@, ""@);
            let n = args.len();
            &&& args[0] == "--suite"@
            &&& args[1] == said(payload, "suite"@, "all"@)
            &&& n == if module.len() > 0 {
                7int
            } else {
                5int
            }
            &&& module.len() > 0 ==> args[2] == "--module"@ && args[3] == module
            &&& args[n - 3] == "--iterations"@
            &&& args[n - 2] == decimal_int(counted(payload, "iterations"@, 100))
            &&& args[n - 1] == "--json"@
        }),
{
}

/// What is answered about a release names the message and says whether it goes on; about
/// stored credentials it says whose they are; about the databases and the engine it says
/// each thing under its own name.
pub proof fn law_answers_say_what_was_asked(
    uuid7: Seq<char>,
    approve: bool,
    timeline_backup: bool,
    userdb_backup: bool,
    size: u64,
    target_mb: u32,
    port: u16,
    pin: u32,
    location: Seq<char>,
)
    ensures
        member(released_json(uuid7, approve), "uuid7"@) == Some(JsonView::Text(uuid7)),
        member(released_json(uuid7, approve), "released"@) == Some(JsonView::Bool(approve)),
        ({
            let j = status_json(timeline_backup, userdb_backup, size, target_mb);
            &&& member(j, "timeline_backup"@) == Some(JsonView::Bool(timeline_backup))
            &&& member(j, "userdb_backup"@) == Some(JsonView::Bool(userdb_backup))
            &&& member(j, "timeline_db_size_bytes"@) == Some(JsonView::Pos(size))
            &&& member(j, "timeline_db_target_mb"@) == Some(JsonView::Pos(target_mb as u64))
        }),
        ({
            let j = info_json(port, Some(pin), location);
            &&& member(j, "port"@) == Some(JsonView::Pos(port as u64))
            &&& member(j, "pin"@) == Some(JsonView::Pos(pin as u64))
            &&& member(j, "timeline_database_location"@) == Some(JsonView::Text(location))
        }),
        member(info_json(port, None, location), "port"@) == Some(JsonView::Pos(port as u64)),
        member(stored_json(uuid7), "success"@) == Some(JsonView::Bool(true)),
        member(stored_json(uuid7), "message"@) == Some(
            JsonView::Text("Credentials saved for '"@ + (uuid7 + "'"@)),
        ),
{
    reveal_strlit("uuid7");
    reveal_strlit("released");
    assert("uuid7"@.len() == 5 && "released"@.len() == 8);
    reveal_strlit("timeline_backup");
    reveal_strlit("userdb_backup");
    reveal_strlit("timeline_db_size_bytes");
    reveal_strlit("timeline_db_target_mb");
    assert("timeline_backup"@.len() == 15 && "userdb_backup"@.len() == 13);
    assert("timeline_db_size_bytes"@.len() == 22 && "timeline_db_target_mb"@.len() == 21);
    reveal_strlit("port");
    reveal_strlit("pin");
    reveal_strlit("timeline_database_location");
    assert("port"@.len() == 4 && "pin"@.len() == 3 && "timeline_database_location"@.len() == 26);
    reveal_strlit("success");
    reveal_strlit("message");
    assert("success"@[0] == 's' && "message"@[0] == 'm');
    assert("Credentials saved for '"@ + uuid7 + "'"@ =~= "Credentials saved for '"@ + (uuid7 + "'"@));
}

/// What running a statement gives is its rows where it ran; where it did not, the error
/// holds the driver's own words.
pub proof fn law_statement_outcomes(run: QueryRunView)
    ensures
        run_outcome(run) is Ok <==> run is Done,
        run matches QueryRunView::Done(t) ==> run_outcome(run)->Ok_0 == t,
        run matches QueryRunView::Failed(e) ==> run_outcome(run)->Err_0 == e,
        run matches QueryRunView::Broke { words, reopen_error } ==> {
            let said = run_outcome(run)->Err_0;
            &&& reopen_error is None ==> words == said.skip(
                "query panicked (unsupported SQL?); database reopened: "@.len() as int,
            )
            &&& reopen_error matches Some(e) ==> said == "query panicked ("@ + (words + (
            "); reopen failed: "@ + e))
        },
{
    if let QueryRunView::Broke { words, reopen_error } = run {
        let said = run_outcome(run)->Err_0;
        match reopen_error {
            None => {
                assert(said.skip(
                    "query panicked (unsupported SQL?); database reopened: "@.len() as int,
                ) =~= words);
            },
            Some(e) => {
                assert(said =~= "query panicked ("@ + (words + ("); reopen failed: "@ + e)));
            },
        }
    }
}

/// Credentials are taken as they are submitted: every text under `values` under its own
/// key, and nothing that is not a text.
pub proof fn law_credentials_are_taken_as_submitted(
    payload: JsonView,
    m: Map<Seq<char>, JsonView>,
    k: Seq<char>,
)
    requires
        member(payload, "values"@) == Some(JsonView::Object(m)),
    ensures
        submitted(payload).dom().contains(k) <==> m.dom().contains(k) && m[k] is Text,
        m.dom().contains(k) ==> (m[k] matches JsonView::Text(t) ==> submitted(payload)[k] == t),
{
}

/// An answer goes out as the engine's, with the token of the one who asked and the result
/// as it is.
pub proof fn law_answers_go_to_who_asked(
    asked: ContainerView,
    instance_uuid7: Seq<char>,
    result: DatabaseQueryResultView,
    text: Seq<char>,
)
    ensures
        ({
            let c = result_container(asked, instance_uuid7, result);
            &&& c.auth_token == asked.auth_token
            &&& c.module_name == "cockatiel"@
            &&& c.module_instance_uuid7 == instance_uuid7
            &&& c.payload == Some(PayloadView::DatabaseQueryResult(result))
            &&& c.version == 1
        }),
        answered_with(text).success && answered_with(text).text == text && answered_with(
            text,
        ).error.len() == 0,
        !refused(text).success && refused(text).error == text && refused(text).text.len() == 0,
{
}

/// A payload that cannot be read counts as one that says nothing; only for the tests it is
/// refused.
pub proof fn law_unreadable_payloads(q: DatabaseQueryView, from: Seq<char>, e: Seq<char>)
    requires
        crate::json::json_read(q.sql) == Err::<JsonView, Seq<char>>(e),
        is_tui(from),
    ensures
        q.query_id == "test_run"@ ==> planned(q, from) == QueryPlanView::Reply(
            refused("Invalid test_run payload: "@ + e),
        ),
        q.query_id == "audit_list"@ ==> planned(q, from) == (QueryPlanView::ListHeld {
            limit: 100,
            offset: 0,
        }),
        q.query_id == "audit_approve"@ || q.query_id == "audit_reject"@ ==> planned(q, from)
            == QueryPlanView::Reply(refused("audit action requires uuid7"@)),
{
    lemma_query_ids();
    reveal_strlit("");
}

} // verus!
