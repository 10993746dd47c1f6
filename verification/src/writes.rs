//! How the pipeline's writes reach the timeline: the statement for each of them.
use crate::database::{
    stage_column, with_audio_type, DatabaseManager, SqlValueView, Statement, StatementView,
    SCHEMA_VERSION,
};
use crate::orchestrator::{
    message_ops, run, stepped, timeout_ops, ActionView, DbOp, DbOpView, OpView, PipelineView,
    Surroundings,
};
use crate::pipeline::{PendingAckView, PipelineConfigView};
use crate::proto::PayloadView;
use crate::text::text_bytes;
use vstd::prelude::*;
use vstd::utf8::encode_utf8;

verus! {

/// The statement that sets one column of a message to a text.
pub open spec fn column_statement(sql: Seq<char>, value: Seq<char>, uuid7: Seq<char>) -> StatementView {
    StatementView {
        sql,
        params: seq![SqlValueView::Text(value), SqlValueView::Blob(encode_utf8(uuid7))],
    }
}

/// The statement for a write at a point in time. A message is kept under the bytes of its id's
/// text. `flags` are the flags that the message has so far. A write of an unknown stage has no
/// statement.
pub open spec fn statement_for(op: DbOpView, flags: Seq<char>, now_ms: i64) -> Option<StatementView> {
    match op {
        DbOpView::InsertEvent { uuid7, event_type, platform, raw_message, command, flags } => Some(
            StatementView {
                sql: "INSERT INTO timeline_events (uuid7, schema_version, event_type, platform, raw_data, raw_message, command, flags, pipeline_status) VALUES (?1, ?2, ?3, ?4, ?5, ?6, ?7, ?8, 'queued')"@,
                params: seq![
                    SqlValueView::Blob(encode_utf8(uuid7)),
                    SqlValueView::Integer(SCHEMA_VERSION as i64),
                    SqlValueView::Integer(event_type as i64),
                    SqlValueView::Text(platform),
                    SqlValueView::Blob(Seq::empty()),
                    SqlValueView::Text(raw_message),
                    SqlValueView::Text(command),
                    SqlValueView::Text(flags),
                ],
            },
        ),
        DbOpView::SetCommand { uuid7, command } => Some(
            column_statement(
                "UPDATE timeline_events SET command = ?1 WHERE uuid7 = ?2"@,
                command,
                uuid7,
            ),
        ),
        DbOpView::SetUserUuid { uuid7, user_uuid7 } => Some(
            column_statement(
                "UPDATE timeline_events SET user_uuid7 = ?1 WHERE uuid7 = ?2 AND user_uuid7 IS NULL"@,
                user_uuid7,
                uuid7,
            ),
        ),
        DbOpView::SetStatus { uuid7, status } => Some(
            column_statement(
                "UPDATE timeline_events SET pipeline_status = ?1 WHERE uuid7 = ?2"@,
                status,
                uuid7,
            ),
        ),
        DbOpView::StageCompleted { uuid7, stage } => match stage_column(stage) {
            Some(column) => Some(
                StatementView {
                    sql: "UPDATE timeline_events SET "@ + column + " = ?1 WHERE uuid7 = ?2"@,
                    params: seq![
                        SqlValueView::Integer(now_ms),
                        SqlValueView::Blob(encode_utf8(uuid7)),
                    ],
                },
            ),
            None => None,
        },
        DbOpView::SetProcessed { uuid7, processed } => Some(
            column_statement(
                "UPDATE timeline_events SET processed_message = ?1 WHERE uuid7 = ?2"@,
                processed,
                uuid7,
            ),
        ),
        DbOpView::SetError { uuid7, error } => Some(
            column_statement(
                "UPDATE timeline_events SET error_message = ?1, pipeline_status = 'failed' WHERE uuid7 = ?2"@,
                error,
                uuid7,
            ),
        ),
        DbOpView::SetAudio { uuid7, audio_type, audio } => Some(
            StatementView {
                sql: "UPDATE timeline_events SET data_blob = ?1, flags = ?2 WHERE uuid7 = ?3"@,
                params: seq![
                    SqlValueView::Blob(audio),
                    SqlValueView::Text(with_audio_type(flags, audio_type)),
                    SqlValueView::Blob(encode_utf8(uuid7)),
                ],
            },
        ),
    }
}

/// The message whose flags a write has to know first.
pub fn flags_needed(op: &DbOp) -> (r: Option<String>)
    ensures
        (match op@ {
            DbOpView::SetAudio { uuid7, .. } => r matches Some(u) && u@ == uuid7,
            _ => r is None,
        }),
{
    match op {
        DbOp::SetAudio { uuid7, .. } => Some(uuid7.clone()),
        _ => None,
    }
}

/// The statement for a write, or why there is none.
pub fn write_statement(db: &DatabaseManager, op: &DbOp, flags: &str, now_ms: i64) -> (r: Result<
    Statement,
    String,
>)
    ensures
        (match statement_for(op@, flags@, now_ms) {
            Some(s) => r matches Ok(t) && t@ == s,
            None => r matches Err(e) && op@ is StageCompleted && e@ == "Unknown stage: "@
                + op@->StageCompleted_stage,
        }),
{
    match op {
        DbOp::InsertEvent { uuid7, event_type, platform, raw_message, command, flags } => {
            let none: Vec<u8> = Vec::new();
            Ok(
                db.insert_event(
                    &text_bytes(uuid7.as_str()),
                    *event_type,
                    platform.as_str(),
                    &none,
                    raw_message.as_str(),
                    command.as_str(),
                    flags.as_str(),
                ),
            )
        },
        DbOp::SetCommand { uuid7, command } => Ok(
            db.set_command(&text_bytes(uuid7.as_str()), command.as_str()),
        ),
        DbOp::SetUserUuid { uuid7, user_uuid7 } => Ok(
            db.set_user_uuid(&text_bytes(uuid7.as_str()), user_uuid7.as_str()),
        ),
        DbOp::SetStatus { uuid7, status } => Ok(
            db.set_pipeline_status(&text_bytes(uuid7.as_str()), status.as_str()),
        ),
        DbOp::StageCompleted { uuid7, stage } => db.update_stage_completed(
            &text_bytes(uuid7.as_str()),
            stage.as_str(),
            now_ms,
        ),
        DbOp::SetProcessed { uuid7, processed } => Ok(
            db.set_processed_message(&text_bytes(uuid7.as_str()), processed.as_str()),
        ),
        DbOp::SetError { uuid7, error } => Ok(
            db.set_error(&text_bytes(uuid7.as_str()), error.as_str()),
        ),
        DbOp::SetAudio { uuid7, audio_type, audio } => Ok(
            db.set_audio(&text_bytes(uuid7.as_str()), audio_type.as_str(), audio, flags),
        ),
    }
}

/// A write that has a statement, whatever the flags and the time.
pub open spec fn can_be_written(op: DbOpView) -> bool {
    op matches DbOpView::StageCompleted { stage, .. } ==> stage_column(stage) is Some
}

/// The writes among some work can be written.
pub open spec fn writes_known(ops: Seq<OpView>) -> bool {
    forall|i: int|
        0 <= i < ops.len() ==> ((#[trigger] ops[i]) matches OpView::Write(w) ==> can_be_written(w))
}

proof fn lemma_run_writes(p: PipelineView, op: OpView, s: Surroundings)
    requires
        op matches OpView::Write(w) ==> can_be_written(w),
    ensures
        writes_known(run(p, op, s).todo),
        run(p, op, s).action matches ActionView::Write(w) ==> can_be_written(w),
{
}

/// The pipeline asks for no write that the timeline does not know: the work that an event
/// causes holds none, and no step brings one.
pub proof fn law_pipeline_writes_have_statements(
    p: PipelineView,
    task: Seq<OpView>,
    s: Surroundings,
    payload: Option<PayloadView>,
    fresh: Seq<char>,
    late: Seq<PendingAckView>,
    config: PipelineConfigView,
)
    ensures
        message_ops(payload, fresh) matches Some(ops) ==> writes_known(ops),
        writes_known(timeout_ops(late, config)),
        writes_known(task) ==> writes_known(stepped(p, task, s).todo) && (stepped(
            p,
            task,
            s,
        ).action matches ActionView::Write(w) ==> forall|flags: Seq<char>, now_ms: i64|
            #[trigger] statement_for(w, flags, now_ms) is Some),
{
    if writes_known(task) && task.len() > 0 {
        lemma_run_writes(p, task[0], s);
        let brought = run(p, task[0], s).todo;
        let all = brought + task.drop_first();
        assert forall|i: int| 0 <= i < all.len() implies ((#[trigger] all[i]) matches OpView::Write(
            w,
        ) ==> can_be_written(w)) by {
            if i < brought.len() {
                assert(all[i] == brought[i]);
            } else {
                assert(all[i] == task[i - brought.len() + 1]);
            }
        }
    }
}

} // verus!
