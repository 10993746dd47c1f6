//! What is kept: which column each write goes to, how rows are shown, what is known of
//! users, and how their conduct is judged.
use crate::conduct::{
    ban_ages, counts, multiplier_of, rank_of_score, seconds_between, weighings, BanRecordView,
    CommendationRecordView, ConductRank, Timestamp,
};
use crate::database::{
    archival_statement, audit_entry_json, audit_row_json, cell_json, column_name, event_json,
    lossy_text,
    row_json, row_members, stage_column, synced_statement, AuditRowView, DatabaseManager,
    EventRowView, SqlValueView, Statement,
};
use crate::json::{member, JsonView};
use crate::laws::moderation::counted;
use crate::orchestrator::DbOpView;
use crate::proto::UserDataView;
use crate::text::{decimal, trim};
use crate::timeline_database::{event_error, kept_event};
use crate::user_database::{kept_user, settings_with};
use crate::user_store::{can_merge, merged_members, new_user};
use crate::writes::statement_for;
use vstd::prelude::*;
use vstd::utf8::encode_utf8;

verus! {

/// Each write of the pipeline sets the column that it is about, to the value that it
/// carries, of the message that it names and of no other.
pub proof fn law_each_write_sets_its_column(
    id: Seq<char>,
    t: Seq<char>,
    flags: Seq<char>,
    now_ms: i64,
)
    ensures
        ({
            &&& statement_for(DbOpView::SetCommand { uuid7: id, command: t }, flags, now_ms)
                matches Some(st)
            &&& st.sql == "UPDATE timeline_events SET command = ?1 WHERE uuid7 = ?2"@
            &&& st.params == seq![SqlValueView::Text(t), SqlValueView::Blob(encode_utf8(id))]
        }),
        ({
            &&& statement_for(DbOpView::SetUserUuid { uuid7: id, user_uuid7: t }, flags, now_ms)
                matches Some(st)
            &&& st.sql
                == "UPDATE timeline_events SET user_uuid7 = ?1 WHERE uuid7 = ?2 AND user_uuid7 IS NULL"@
            &&& st.params == seq![SqlValueView::Text(t), SqlValueView::Blob(encode_utf8(id))]
        }),
        ({
            &&& statement_for(DbOpView::SetStatus { uuid7: id, status: t }, flags, now_ms)
                matches Some(st)
            &&& st.sql == "UPDATE timeline_events SET pipeline_status = ?1 WHERE uuid7 = ?2"@
            &&& st.params == seq![SqlValueView::Text(t), SqlValueView::Blob(encode_utf8(id))]
        }),
        ({
            &&& statement_for(DbOpView::SetProcessed { uuid7: id, processed: t }, flags, now_ms)
                matches Some(st)
            &&& st.sql == "UPDATE timeline_events SET processed_message = ?1 WHERE uuid7 = ?2"@
            &&& st.params == seq![SqlValueView::Text(t), SqlValueView::Blob(encode_utf8(id))]
        }),
        ({
            &&& statement_for(DbOpView::SetError { uuid7: id, error: t }, flags, now_ms)
                matches Some(st)
            &&& st.sql
                == "UPDATE timeline_events SET error_message = ?1, pipeline_status = 'failed' WHERE uuid7 = ?2"@
            &&& st.params == seq![SqlValueView::Text(t), SqlValueView::Blob(encode_utf8(id))]
        }),
{
}

/// A new message is recorded as waiting, each of its parts in the column of its name.
pub proof fn law_new_messages_are_kept_whole(
    id: Seq<char>,
    event_type: i32,
    platform: Seq<char>,
    raw_message: Seq<char>,
    command: Seq<char>,
    flags: Seq<char>,
    before: Seq<char>,
    now_ms: i64,
)
    ensures
        ({
            &&& statement_for(
                DbOpView::InsertEvent { uuid7: id, event_type, platform, raw_message, command, flags },
                before,
                now_ms,
            ) matches Some(st)
            &&& st.sql
                == "INSERT INTO timeline_events (uuid7, schema_version, event_type, platform, raw_data, raw_message, command, flags, pipeline_status) VALUES (?1, ?2, ?3, ?4, ?5, ?6, ?7, ?8, 'queued')"@
            &&& st.params.len() == 8
            &&& st.params[0] == SqlValueView::Blob(encode_utf8(id))
            &&& st.params[1] == SqlValueView::Integer(1)
            &&& st.params[2] == SqlValueView::Integer(event_type as i64)
            &&& st.params[3] == SqlValueView::Text(platform)
            &&& st.params[5] == SqlValueView::Text(raw_message)
            &&& st.params[6] == SqlValueView::Text(command)
            &&& st.params[7] == SqlValueView::Text(flags)
        }),
{
}

/// Rendered audio is kept with its message, and its type among the flags, from which it is
/// read back.
pub proof fn law_audio_is_kept_with_its_type(
    id: Seq<char>,
    audio_type: Seq<char>,
    audio: Seq<u8>,
    flags: Seq<char>,
    now_ms: i64,
)
    ensures
        ({
            &&& statement_for(
                DbOpView::SetAudio { uuid7: id, audio_type, audio },
                flags,
                now_ms,
            ) matches Some(st)
            &&& st.sql == "UPDATE timeline_events SET data_blob = ?1, flags = ?2 WHERE uuid7 = ?3"@
            &&& st.params.len() == 3
            &&& st.params[0] == SqlValueView::Blob(audio)
            &&& st.params[2] == SqlValueView::Blob(encode_utf8(id))
            &&& flags.len() == 0 ==> st.params[1] == SqlValueView::Text(
                "audio_type="@ + audio_type,
            )
        }),
{
    if flags.len() == 0 {
        reveal_strlit("audio_type=");
        assert(crate::text::split_on(flags, ',') =~= seq![flags]);
        if crate::text::split_on(flags, ',').contains("audio_type="@ + audio_type) {
            assert(flags == "audio_type="@ + audio_type);
            assert(("audio_type="@ + audio_type).len() >= 11);
        }
    }
}

/// When a stage was done is kept in the stage's own column, and no other stage is known.
pub proof fn law_stages_have_their_columns(stage: Seq<char>, id: Seq<char>, flags: Seq<char>, now_ms: i64)
    ensures
        stage_column("pre_process"@) == Some("pre_process"@ + "_completed_at"@),
        stage_column("in_process"@) == Some("in_process"@ + "_completed_at"@),
        stage_column("post_process"@) == Some("post_process"@ + "_completed_at"@),
        stage_column("persisted"@) == Some("persisted"@ + "_at"@),
        stage_column(stage) is Some <==> stage == "pre_process"@ || stage == "in_process"@ || stage
            == "post_process"@ || stage == "persisted"@,
        stage_column(stage) matches Some(column) ==> {
            &&& statement_for(DbOpView::StageCompleted { uuid7: id, stage }, flags, now_ms)
                matches Some(st)
            &&& st.sql == "UPDATE timeline_events SET "@ + (column + " = ?1 WHERE uuid7 = ?2"@)
            &&& st.params == seq![SqlValueView::Integer(now_ms), SqlValueView::Blob(encode_utf8(id))]
        },
{
    reveal_strlit("pre_process");
    reveal_strlit("in_process");
    reveal_strlit("post_process");
    reveal_strlit("persisted");
    reveal_strlit("_completed_at");
    reveal_strlit("_at");
    reveal_strlit("pre_process_completed_at");
    reveal_strlit("in_process_completed_at");
    reveal_strlit("post_process_completed_at");
    reveal_strlit("persisted_at");
    assert("pre_process"@.len() == 11 && "in_process"@.len() == 10 && "post_process"@.len() == 12
        && "persisted"@.len() == 9);
    assert("pre_process_completed_at"@ =~= "pre_process"@ + "_completed_at"@);
    assert("in_process_completed_at"@ =~= "in_process"@ + "_completed_at"@);
    assert("post_process_completed_at"@ =~= "post_process"@ + "_completed_at"@);
    assert("persisted_at"@ =~= "persisted"@ + "_at"@);
    if let Some(column) = stage_column(stage) {
        assert("UPDATE timeline_events SET "@ + column + " = ?1 WHERE uuid7 = ?2"@
            =~= "UPDATE timeline_events SET "@ + (column + " = ?1 WHERE uuid7 = ?2"@));
    }
}

/// A held message is one whose status is `audit`: it is marked so with the reason, asked
/// about and listed by that status, and released only out of it: to complete where it is
/// approved and to failed where it is rejected.
pub proof fn law_holding_and_releasing(
    db: &DatabaseManager,
    id: &Vec<u8>,
    reason: &str,
    now_ms: i64,
    marked: Statement,
    asked: Statement,
    approved: Statement,
    rejected: Statement,
)
    requires
        call_ensures(DatabaseManager::mark_audit, (db, id, reason), marked),
        call_ensures(DatabaseManager::is_audited, (db, id), asked),
        call_ensures(DatabaseManager::release_audit, (db, id, true, now_ms), approved),
        call_ensures(DatabaseManager::release_audit, (db, id, false, now_ms), rejected),
    ensures
        marked@.sql
            == "UPDATE timeline_events SET pipeline_status = 'audit', flags = ?1 WHERE uuid7 = ?2"@,
        marked@.params == seq![SqlValueView::Text(reason@), SqlValueView::Blob(id@)],
        asked@.sql
            == "SELECT 1 FROM timeline_events WHERE uuid7 = ?1 AND pipeline_status = 'audit'"@,
        asked@.params == seq![SqlValueView::Blob(id@)],
        approved@.sql
            == "UPDATE timeline_events SET pipeline_status = 'complete', persisted_at = ?2 WHERE uuid7 = ?1 AND pipeline_status = 'audit'"@,
        approved@.params == seq![SqlValueView::Blob(id@), SqlValueView::Integer(now_ms)],
        rejected@.sql
            == "UPDATE timeline_events SET pipeline_status = 'failed' WHERE uuid7 = ?1 AND pipeline_status = 'audit'"@,
        rejected@.params == seq![SqlValueView::Blob(id@)],
{
}

/// What waits is what is queued or under way; what was under way when the engine stopped is
/// queued again; and what is not synced is counted only where it is complete.
pub proof fn law_the_queue(
    db: &DatabaseManager,
    next: Statement,
    incomplete: Statement,
    again: Statement,
    unsynced: Statement,
)
    requires
        call_ensures(DatabaseManager::get_next_queued, (db,), next),
        call_ensures(DatabaseManager::get_incomplete, (db,), incomplete),
        call_ensures(DatabaseManager::mark_all_processing_as_queued, (db,), again),
        call_ensures(DatabaseManager::get_unsynced_count, (db,), unsynced),
    ensures
        next@.sql
            == "SELECT uuid7 FROM timeline_events WHERE pipeline_status = 'queued' ORDER BY uuid7 ASC LIMIT 1"@,
        incomplete@.sql
            == "SELECT uuid7 FROM timeline_events WHERE pipeline_status IN ('queued', 'processing') AND synced_at IS NULL ORDER BY uuid7 ASC"@,
        again@.sql
            == "UPDATE timeline_events SET pipeline_status = 'queued' WHERE pipeline_status = 'processing'"@,
        unsynced@.sql
            == "SELECT COUNT(*) FROM timeline_events WHERE synced_at IS NULL AND pipeline_status = 'complete'"@,
{
}

/// What the engine records of itself is complete and synced from the start, so that
/// neither the pipeline nor the backup takes it up; each part is in the column of its name.
pub proof fn law_records_are_not_taken_up(
    uuid7: Seq<u8>,
    platform: Seq<char>,
    command: Seq<char>,
    raw_message: Seq<char>,
    flags: Seq<char>,
    now_ms: i64,
)
    ensures
        ({
            let st = archival_statement(uuid7, platform, command, raw_message, flags, now_ms);
            &&& st.sql
                == "INSERT INTO timeline_events (uuid7, schema_version, event_type, platform, raw_message, command, flags, pipeline_status, synced_at) VALUES (?1, ?2, ?3, ?4, ?5, ?6, ?7, 'complete', ?8)"@
            &&& st.params.len() == 8
            &&& st.params[0] == SqlValueView::Blob(uuid7)
            &&& st.params[1] == SqlValueView::Integer(1)
            &&& st.params[2] == SqlValueView::Integer(5)
            &&& st.params[3] == SqlValueView::Text(platform)
            &&& st.params[4] == SqlValueView::Text(raw_message)
            &&& st.params[5] == SqlValueView::Text(command)
            &&& st.params[6] == SqlValueView::Text(flags)
            &&& st.params[7] == SqlValueView::Integer(now_ms)
        }),
        synced_statement(uuid7, now_ms).sql
            == "UPDATE timeline_events SET synced_at = ?1 WHERE uuid7 = ?2"@,
        synced_statement(uuid7, now_ms).params == seq![
            SqlValueView::Integer(now_ms),
            SqlValueView::Blob(uuid7),
        ],
{
}

proof fn lemma_column_names()
    ensures
        "schema_version"@.len() == 14,
        "event_type"@.len() == 10 && "event_type"@[0] == 'e',
        "platform"@.len() == 8,
        "raw_message"@.len() == 11,
        "command"@.len() == 7,
        "flags"@.len() == 5 && "flags"@[0] == 'f',
        "user_uuid7"@.len() == 10 && "user_uuid7"@[0] == 'u',
        "processed_message"@.len() == 17,
        "error_message"@.len() == 13,
        "pre_process_completed_at"@.len() == 24,
        "in_process_completed_at"@.len() == 23,
        "post_process_completed_at"@.len() == 25,
        "persisted_at"@.len() == 12,
        "pipeline_status"@.len() == 15,
        "synced_at"@.len() == 9,
        "reason"@.len() == 6,
        "uuid7"@.len() == 5 && "uuid7"@[0] == 'u',
{
    reveal_strlit("schema_version");
    reveal_strlit("event_type");
    reveal_strlit("platform");
    reveal_strlit("raw_message");
    reveal_strlit("command");
    reveal_strlit("flags");
    reveal_strlit("user_uuid7");
    reveal_strlit("processed_message");
    reveal_strlit("error_message");
    reveal_strlit("pre_process_completed_at");
    reveal_strlit("in_process_completed_at");
    reveal_strlit("post_process_completed_at");
    reveal_strlit("persisted_at");
    reveal_strlit("pipeline_status");
    reveal_strlit("synced_at");
    reveal_strlit("reason");
    reveal_strlit("uuid7");
}

/// A text that may be missing, as it is shown: nothing where it is.
pub open spec fn shows_text(j: Option<JsonView>, t: Option<Seq<char>>) -> bool {
    match t {
        Some(x) => j == Some(JsonView::Text(x)),
        None => j == Some(JsonView::Null),
    }
}

/// A number that may be missing, as it is shown: nothing where it is.
pub open spec fn shows_number(v: JsonView, key: Seq<char>, n: Option<i64>) -> bool {
    match n {
        Some(x) => counted(v, key, x + 1) == x,
        None => member(v, key) == Some(JsonView::Null),
    }
}

/// A message is shown with everything that is kept of it, each under its column's name.
pub proof fn law_messages_are_shown_whole(row: EventRowView)
    ensures
        ({
            let j = event_json(row);
            &&& counted(j, "schema_version"@, row.schema_version + 1) == row.schema_version
            &&& counted(j, "event_type"@, row.event_type + 1) == row.event_type
            &&& shows_text(member(j, "platform"@), row.platform)
            &&& member(j, "raw_message"@) == Some(JsonView::Text(row.raw_message))
            &&& shows_text(member(j, "command"@), row.command)
            &&& shows_text(member(j, "flags"@), row.flags)
            &&& shows_text(member(j, "user_uuid7"@), row.user_uuid7)
            &&& shows_text(member(j, "processed_message"@), row.processed_message)
            &&& shows_text(member(j, "error_message"@), row.error_message)
            &&& shows_number(j, "pre_process_completed_at"@, row.pre_process_completed_at)
            &&& shows_number(j, "in_process_completed_at"@, row.in_process_completed_at)
            &&& shows_number(j, "post_process_completed_at"@, row.post_process_completed_at)
            &&& shows_number(j, "persisted_at"@, row.persisted_at)
            &&& member(j, "pipeline_status"@) == Some(JsonView::Text(row.pipeline_status))
            &&& shows_number(j, "synced_at"@, row.synced_at)
        }),
{
    lemma_column_names();
}

/// A held message is shown with its text, platform and author, and the reason why it is
/// held, which is kept as its flags.
pub proof fn law_held_messages_are_shown(row: AuditRowView)
    ensures
        ({
            let j = audit_entry_json(row);
            &&& shows_text(member(j, "platform"@), row.platform)
            &&& member(j, "raw_message"@) == Some(JsonView::Text(row.raw_message))
            &&& shows_text(member(j, "user_uuid7"@), row.user_uuid7)
            &&& shows_text(member(j, "reason"@), row.flags)
        }),
        ({
            let j = audit_row_json(row);
            &&& member(j, "uuid7"@) == Some(JsonView::Text(lossy_text(row.uuid7)))
            &&& shows_text(member(j, "platform"@), row.platform)
            &&& member(j, "raw_message"@) == Some(JsonView::Text(row.raw_message))
            &&& shows_text(member(j, "user_uuid7"@), row.user_uuid7)
            &&& shows_text(member(j, "reason"@), row.flags)
            &&& shows_number(j, "persisted_at"@, row.persisted_at)
        }),
{
    lemma_column_names();
}

proof fn lemma_row_members(columns: Seq<Seq<char>>, row: Seq<SqlValueView>, n: nat, i: int)
    requires
        0 <= i < n <= row.len(),
        row.len() <= columns.len(),
        columns.no_duplicates(),
    ensures
        row_members(columns, row, n).dom().contains(columns[i]),
        row_members(columns, row, n)[columns[i]] == cell_json(row[i]),
    decreases n,
{
    if i < n - 1 {
        lemma_row_members(columns, row, (n - 1) as nat, i);
        assert(columns[i] != columns[n - 1]);
    }
}

/// Every value in a row of a result is shown under its column's name: nothing as nothing,
/// whole numbers as such, texts as they are, and bytes as the text they hold.
pub proof fn law_rows_are_shown_whole(columns: Seq<Seq<char>>, row: Seq<SqlValueView>, i: int)
    requires
        row.len() <= columns.len(),
        columns.no_duplicates(),
        0 <= i < row.len(),
    ensures
        member(row_json(columns, row), columns[i]) == Some(cell_json(row[i])),
        row[i] is Null ==> member(row_json(columns, row), columns[i]) == Some(JsonView::Null),
        row[i] matches SqlValueView::Integer(n) ==> counted(
            row_json(columns, row),
            columns[i],
            n + 1,
        ) == n,
        row[i] matches SqlValueView::Text(t) ==> member(row_json(columns, row), columns[i]) == Some(
            JsonView::Text(t),
        ),
        row[i] matches SqlValueView::Blob(b) ==> member(row_json(columns, row), columns[i]) == Some(
            JsonView::Text(lossy_text(b)),
        ),
{
    lemma_row_members(columns, row, row.len(), i);
}

/// A user is kept under an id with their name, roles and whole record, each in the column of
/// its name, in place of what was kept under that id.
pub proof fn law_users_are_kept_whole(id: Seq<char>, u: UserDataView, data_json: Seq<char>)
    ensures
        ({
            let st = kept_user(id, u, data_json);
            &&& st.sql
                == "INSERT INTO users (uuid7, username, is_sponsor, is_moderator, is_admin, is_owner, data_json) VALUES (?1, ?2, ?3, ?4, ?5, ?6, ?7) ON CONFLICT(uuid7) DO UPDATE SET username = excluded.username, is_sponsor = excluded.is_sponsor, is_moderator = excluded.is_moderator, is_admin = excluded.is_admin, is_owner = excluded.is_owner, data_json = excluded.data_json"@
            &&& st.params.len() == 7
            &&& st.params[0] == SqlValueView::Text(id)
            &&& st.params[1] == SqlValueView::Text(u.username)
            &&& st.params[2] == SqlValueView::Integer(if u.is_sponsor { 1 } else { 0 })
            &&& st.params[3] == SqlValueView::Integer(if u.is_moderator { 1 } else { 0 })
            &&& st.params[4] == SqlValueView::Integer(if u.is_admin { 1 } else { 0 })
            &&& st.params[5] == SqlValueView::Integer(if u.is_owner { 1 } else { 0 })
            &&& st.params[6] == SqlValueView::Text(data_json)
        }),
{
}

/// An event for the timeline is kept with each of its parts in the column of its name.
pub proof fn law_events_are_kept_whole(e: crate::proto::TimelineEventView)
    ensures
        ({
            let st = kept_event(e);
            &&& st.params.len() == 12
            &&& st.params[1] == SqlValueView::Text(e.c)
            &&& st.params[2] == SqlValueView::Blob(e.d)
            &&& st.params[3] == SqlValueView::Text(e.e)
            &&& st.params[4] == SqlValueView::Text(e.f)
            &&& st.params[5] == SqlValueView::Text(e.o)
            &&& st.params[6] == SqlValueView::Text(e.p)
            &&& st.params[7] == SqlValueView::Text(e.r)
            &&& st.params[8] == SqlValueView::Text(e.s)
            &&& st.params[9] == SqlValueView::Text(e.t)
            &&& trim(e.u).len() == 0 ==> st.params[10] is Null
            &&& st.params[11] == SqlValueView::Integer(if e.v == 0 { 1 } else { e.v as i64 })
        }),
        trim(e.i).len() == 0 || trim(e.o).len() == 0 || trim(e.t).len() == 0 ==> event_error(e)
            is Some,
{
}

/// Settings saved for a module leave those of every other module as they are.
pub proof fn law_other_settings_stay(
    m: Map<Seq<char>, JsonView>,
    module_name: Seq<char>,
    config: JsonView,
    other: Seq<char>,
)
    ensures
        ({
            &&& settings_with(JsonView::Object(m), module_name, config) matches Some(j)
            &&& member(j, module_name) == Some(config)
            &&& other != module_name ==> member(j, other) == member(JsonView::Object(m), other)
        }),
{
}

pub(crate) proof fn lemma_person_keys()
    ensures
        "version"@.len() == 7 && "version"@[0] == 'v',
        "username"@.len() == 8 && "username"@[0] == 'u',
        "uuid7"@.len() == 5,
        "channels"@.len() == 8 && "channels"@[0] == 'c',
        "ttsBans"@.len() == 7 && "ttsBans"@[0] == 't',
        "channelBans"@.len() == 11 && "channelBans"@[0] == 'c',
        "conduct_score"@.len() == 13 && "conduct_score"@[0] == 'c',
        "commendments"@.len() == 12,
        "misconduct"@.len() == 10 && "misconduct"@[0] == 'm',
        "icon"@.len() == 4,
        "isSponsor"@.len() == 9 && "isSponsor"@[0] == 'i',
        "isChatModerator"@.len() == 15,
        "isChatAdmin"@.len() == 11 && "isChatAdmin"@[0] == 'i',
        "isVerified"@.len() == 10 && "isVerified"@[0] == 'i',
        "firstSeen"@.len() == 9 && "firstSeen"@[0] == 'f',
        "points"@.len() == 6,
        "totalPoints"@.len() == 11 && "totalPoints"@[0] == 't',
        "totalMessages"@.len() == 13 && "totalMessages"@[0] == 't',
        "styling"@.len() == 7 && "styling"@[0] == 's',
{
    reveal_strlit("version");
    reveal_strlit("username");
    reveal_strlit("uuid7");
    reveal_strlit("channels");
    reveal_strlit("ttsBans");
    reveal_strlit("channelBans");
    reveal_strlit("conduct_score");
    reveal_strlit("commendments");
    reveal_strlit("misconduct");
    reveal_strlit("icon");
    reveal_strlit("isSponsor");
    reveal_strlit("isChatModerator");
    reveal_strlit("isChatAdmin");
    reveal_strlit("isVerified");
    reveal_strlit("firstSeen");
    reveal_strlit("points");
    reveal_strlit("totalPoints");
    reveal_strlit("totalMessages");
    reveal_strlit("styling");
}

/// A new user has their name and id, the one channel that they came from, no role, no
/// points and no bans, and was first seen now.
pub proof fn law_new_users_start_with_nothing(
    id: Seq<char>,
    username: Seq<char>,
    platform: Seq<char>,
    platform_id: Seq<char>,
    now_millis: i64,
)
    ensures
        ({
            let j = new_user(id, username, platform, platform_id, now_millis);
            &&& member(j, "username"@) == Some(JsonView::Text(username))
            &&& member(j, "uuid7"@) == Some(JsonView::Text(id))
            &&& member(j, "channels"@) matches Some(c)
            &&& member(c, platform) == Some(JsonView::List(seq![JsonView::Text(platform_id)]))
            &&& member(j, "isSponsor"@) == Some(JsonView::Bool(false))
            &&& member(j, "isChatModerator"@) == Some(JsonView::Bool(false))
            &&& member(j, "isChatAdmin"@) == Some(JsonView::Bool(false))
            &&& member(j, "isVerified"@) == Some(JsonView::Bool(false))
            &&& member(j, "points"@) == Some(JsonView::Pos(0))
            &&& member(j, "totalPoints"@) == Some(JsonView::Pos(0))
            &&& member(j, "totalMessages"@) == Some(JsonView::Pos(0))
            &&& member(j, "ttsBans"@) == Some(JsonView::List(Seq::empty()))
            &&& member(j, "channelBans"@) == Some(JsonView::List(Seq::empty()))
            &&& member(j, "conduct_score"@) == Some(JsonView::Float("0.0"@))
            &&& counted(j, "firstSeen"@, now_millis + 1) == now_millis
        }),
{
    lemma_person_keys();
}

/// Combining two users adds up their points and messages, takes the earlier first sight,
/// and leaves everything else but channels and roles as the first user has it.
pub proof fn law_combining_adds_up(m: Map<Seq<char>, JsonView>, other: JsonView, key: Seq<char>)
    requires
        can_merge(JsonView::Object(m), other),
    ensures
        ({
            let both = JsonView::Object(merged_members(m, other));
            let own = JsonView::Object(m);
            &&& (key == "points"@ || key == "totalPoints"@ || key == "totalMessages"@) && (member(
                own,
                key,
            ) matches Some(JsonView::Pos(n)) && n <= i64::MAX) ==> counted(both, key, -1)
                == counted(own, key, 0) + counted(other, key, 0)
            &&& counted(both, "firstSeen"@, 0) == (if counted(own, "firstSeen"@, i64::MAX as int)
                <= counted(other, "firstSeen"@, i64::MAX as int) {
                counted(own, "firstSeen"@, i64::MAX as int)
            } else {
                counted(other, "firstSeen"@, i64::MAX as int)
            })
            &&& key != "points"@ && key != "totalPoints"@ && key != "totalMessages"@ && key
                != "channels"@ && key != "isSponsor"@ && key != "isChatModerator"@ && key
                != "isChatAdmin"@ && key != "isVerified"@ && key != "firstSeen"@ ==> member(both, key)
                == member(own, key)
        }),
{
    lemma_person_keys();
}

/// Which rank a score gives: a hundred points a rank up to obsidian, and opal beyond.
pub proof fn law_scores_give_ranks(score: int)
    ensures
        score <= -400 <==> rank_of_score(score) == ConductRank::Trash,
        -400 < score <= -300 <==> rank_of_score(score) == ConductRank::Dirt,
        -300 < score <= -200 <==> rank_of_score(score) == ConductRank::Concrete,
        -200 < score <= -100 <==> rank_of_score(score) == ConductRank::Copper,
        -100 < score <= 0 <==> rank_of_score(score) == ConductRank::Bronze,
        0 < score <= 100 <==> rank_of_score(score) == ConductRank::Silver,
        100 < score <= 200 <==> rank_of_score(score) == ConductRank::Gold,
        200 < score <= 300 <==> rank_of_score(score) == ConductRank::Platinum,
        300 < score <= 400 <==> rank_of_score(score) == ConductRank::Diamond,
        400 < score <= 450 <==> rank_of_score(score) == ConductRank::Obsidian,
        450 < score <==> rank_of_score(score) == ConductRank::Opal,
{
}

/// What a rank is worth, in percent.
pub proof fn law_what_ranks_are_worth()
    ensures
        multiplier_of(ConductRank::Trash) == 50,
        multiplier_of(ConductRank::Dirt) == 100,
        multiplier_of(ConductRank::Concrete) == 100,
        multiplier_of(ConductRank::Copper) == 75,
        multiplier_of(ConductRank::Bronze) == 85,
        multiplier_of(ConductRank::Silver) == 100,
        multiplier_of(ConductRank::Gold) == 110,
        multiplier_of(ConductRank::Platinum) == 100,
        multiplier_of(ConductRank::Diamond) == 120,
        multiplier_of(ConductRank::Obsidian) == 100,
        multiplier_of(ConductRank::Opal) == 150,
{
}

/// A ban weighs only where it lasted an hour and is recent enough: each that does adds its
/// age, each that does not adds nothing.
pub proof fn law_bans_weigh_by_age(bans: Seq<BanRecordView>, b: BanRecordView, now: Timestamp)
    ensures
        b.duration_seconds >= 3600 && seconds_between(b.created_at, now) < 94672800 ==> ban_ages(
            bans.push(b),
            now,
        ) == ban_ages(bans, now).push(seconds_between(b.created_at, now) as i128),
        b.duration_seconds < 3600 || seconds_between(b.created_at, now) >= 94672800 ==> ban_ages(
            bans.push(b),
            now,
        ) == ban_ages(bans, now),
{
    assert(bans.push(b).drop_last() =~= bans);
}

/// Between two moments that share their nanoseconds lies the difference of their seconds;
/// what lies three years back no longer counts.
pub proof fn law_time_between(event: Timestamp, now: Timestamp)
    requires
        event.nanos == now.nanos,
    ensures
        seconds_between(event, now) == now.secs - event.secs,
        counts(event, now) <==> now.secs - event.secs < 94672800,
{
    let d = (now.secs - event.secs) * 1_000_000_000;
    assert(now.secs * 1_000_000_000 - event.secs * 1_000_000_000 == d) by (nonlinear_arith)
        requires
            d == (now.secs - event.secs) * 1_000_000_000,
    ;
    if d >= 0 {
        assert(d / 1_000_000_000 == now.secs - event.secs) by (nonlinear_arith)
            requires
                d == (now.secs - event.secs) * 1_000_000_000,
        ;
    } else {
        assert((-d) / 1_000_000_000 == event.secs - now.secs) by (nonlinear_arith)
            requires
                d == (now.secs - event.secs) * 1_000_000_000,
        ;
    }
}

/// The first commendation of a sender that counts weighs as their first, and each further
/// one as one more than the last; how old each is stands beside it.
pub proof fn law_commendations_weigh_by_occurrence(
    list: Seq<CommendationRecordView>,
    c: CommendationRecordView,
    now: Timestamp,
)
    requires
        list.len() < usize::MAX,
    ensures
        counts(c.created_at, now) ==> {
            let w = weighings(list.push(c), now);
            &&& w.len() == weighings(list, now).len() + 1
            &&& w.drop_last() == weighings(list, now)
            &&& w.last().elapsed == seconds_between(c.created_at, now) as i128
            &&& w.last().occurrence == crate::conduct::counted_from(list, c.sender_id, now) + 1
        },
        !counts(c.created_at, now) ==> weighings(list.push(c), now) == weighings(list, now),
{
    assert(list.push(c).drop_last() =~= list);
    lemma_counted_bound(list, c.sender_id, now);
    if counts(c.created_at, now) {
        assert(weighings(list.push(c), now).drop_last() =~= weighings(list, now));
    }
}

proof fn lemma_counted_bound(list: Seq<CommendationRecordView>, sender: Seq<char>, now: Timestamp)
    ensures
        crate::conduct::counted_from(list, sender, now) <= list.len(),
    decreases list.len(),
{
    if list.len() > 0 {
        lemma_counted_bound(list.drop_last(), sender, now);
    }
}

/// A value without a column of its own is shown under its place.
pub proof fn law_columns_without_a_name(columns: Seq<Seq<char>>, i: int)
    requires
        i >= 0,
    ensures
        i < columns.len() ==> column_name(columns, i) == columns[i],
        i >= columns.len() ==> column_name(columns, i) == "col_"@ + decimal(i as nat),
{
}

/// Two users can be combined exactly where each sum of their points and messages can be
/// written down.
pub proof fn law_who_can_be_combined(m: Map<Seq<char>, JsonView>, other: JsonView)
    ensures
        can_merge(JsonView::Object(m), other) <==> sum_can_be_written(
            JsonView::Object(m),
            other,
            "points"@,
        ) && sum_can_be_written(JsonView::Object(m), other, "totalPoints"@) && sum_can_be_written(
            JsonView::Object(m),
            other,
            "totalMessages"@,
        ),
        !can_merge(JsonView::Bool(true), other),
        !can_merge(JsonView::List(Seq::empty()), other),
{
    lemma_person_keys();
}

/// Whether two users' numbers under a key add up to one that can be written down; where the
/// first has none there is nothing to add to.
pub open spec fn sum_can_be_written(own: JsonView, other: JsonView, key: Seq<char>) -> bool {
    let n = counted(own, key, 0) + counted(other, key, 0);
    (counted(own, key, 0) == 0 && counted(own, key, 1) == 1) || i64::MIN <= n <= i64::MAX
}

} // verus!
