//! The way of a message: what modules see of it, whom it goes to and what becomes of it.
use crate::orchestrator::{
    asked_all, entry_ops, message_ops, only_connected, pipeline_ok, run, run_all, stepped,
    timeout_ops, ActionView, DbOpView, Gate, OpView, PipelineView, Surroundings,
};
use crate::pipeline::{
    all_overdue, lemma_asked, not_overdue, overdue, overdue_of, owed, stage_status, PendingAckView,
    PendingAcks, PipelineMessageView, PipelineStage,
};
use crate::proto::{
    MessageInProcessView, MessagePostProcessView, MessagePreProcessView, PayloadView,
};
use vstd::prelude::*;

verus! {

proof fn lemma_connected_are_filtered(names: Seq<Seq<char>>, connected: Seq<Seq<char>>)
    ensures
        only_connected(names, connected) == names.filter(|m: Seq<char>| connected.contains(m)),
    decreases names.len(),
{
    reveal(Seq::filter);
    if names.len() > 0 {
        lemma_connected_are_filtered(names.drop_last(), connected);
    }
}

proof fn lemma_filter_one(name: Seq<char>, connected: Seq<Seq<char>>)
    ensures
        only_connected(seq![name], connected) == (if connected.contains(name) {
            seq![name]
        } else {
            Seq::<Seq<char>>::empty()
        }),
{
    let names = seq![name];
    assert(names.drop_last() =~= Seq::<Seq<char>>::empty());
    assert(only_connected(names.drop_last(), connected) =~= Seq::<Seq<char>>::empty());
    assert(only_connected(names, connected) =~= (if connected.contains(name) {
        seq![name]
    } else {
        Seq::<Seq<char>>::empty()
    }));
}

/// A message that comes in is in the pipeline as it came: its id, text, platform, channel,
/// author and command are the message's own, its text so far is its own text, it has no
/// audio, and the first of the in-process modules is its next.
pub proof fn law_message_enters_as_it_came(p: PipelineView, msg: PipelineMessageView, s: Surroundings)
    ensures
        ({
            let q = run_all(p, entry_ops(msg), s);
            let state = q.states[msg.uuid7];
            &&& q.states.dom().contains(msg.uuid7)
            &&& state.uuid7 == msg.uuid7
            &&& state.raw_message == msg.raw_message
            &&& state.processed_message == msg.raw_message
            &&& state.platform == msg.platform
            &&& state.event_type == msg.event_type
            &&& state.command == msg.command
            &&& state.flags == msg.flags
            &&& state.parsed_command == msg.parsed_command
            &&& state.channel_id == msg.channel_id
            &&& state.user_uuid7 == msg.user_uuid7
            &&& state.user_data == msg.user_data
            &&& state.stage == PipelineStage::PreProcessing
            &&& state.current_in_process_index == 0
            &&& state.audio.len() == 0
        }),
{
    let ops = entry_ops(msg);
    let n = ops.len();
    assert(ops[n - 3] matches OpView::Admit(st) && st.uuid7 == msg.uuid7);
    assert(ops[n - 2] is Write && ops[n - 1] == OpView::Broadcast { uuid7: msg.uuid7 });
    assert forall|i: int| 0 <= i < n - 3 implies (#[trigger] ops[i]) is Write by {}
    lemma_writes_change_nothing(p, ops, n - 3, s);
    let t0 = ops.skip(n - 3);
    let t1 = t0.drop_first();
    let t2 = t1.drop_first();
    assert(t0[0] == ops[n - 3] && t1[0] == ops[n - 2] && t2[0] == ops[n - 1]);
    assert(t2.drop_first().len() == 0);
    reveal_with_fuel(run_all, 5);
}

/// Writes leave the pipeline as it is.
proof fn lemma_writes_change_nothing(p: PipelineView, ops: Seq<OpView>, n: int, s: Surroundings)
    requires
        0 <= n <= ops.len(),
        forall|i: int| 0 <= i < n ==> (#[trigger] ops[i]) is Write,
    ensures
        run_all(p, ops, s) == run_all(p, ops.skip(n), s),
    decreases n,
{
    if n == 0 {
        assert(ops.skip(0) =~= ops);
    } else {
        assert(ops[0] is Write);
        assert forall|i: int| 0 <= i < n - 1 implies (#[trigger] ops.drop_first()[i]) is Write by {
            assert(ops.drop_first()[i] == ops[i + 1]);
        }
        lemma_writes_change_nothing(p, ops.drop_first(), n - 1, s);
        assert(ops.drop_first().skip(n - 1) =~= ops.skip(n));
    }
}

/// The first record of a message holds its id, kind, platform and text, and empty words in
/// place of a command and flags that it does not have; its author is recorded where one is
/// known, and it is marked as being processed before any module sees it.
pub proof fn law_new_message_is_recorded(msg: PipelineMessageView)
    ensures
        ({
            let ops = entry_ops(msg);
            let n = ops.len();
            &&& ops[0] matches OpView::Write(w)
            &&& w matches DbOpView::InsertEvent {
                uuid7,
                event_type,
                platform,
                raw_message,
                command,
                flags,
            }
            &&& uuid7 == msg.uuid7
            &&& event_type == msg.event_type
            &&& platform == msg.platform
            &&& raw_message == msg.raw_message
            &&& msg.command is Some ==> command == msg.command.unwrap()
            &&& msg.command is None ==> command == ""@
            &&& msg.flags is Some ==> flags == msg.flags.unwrap()
            &&& msg.flags is None ==> flags == "{}"@
        }),
        ({
            let ops = entry_ops(msg);
            let n = ops.len();
            &&& forall|c: Seq<char>|
                #![trigger ops.contains(OpView::Write(DbOpView::SetCommand { uuid7: msg.uuid7, command: c }))]
                ops.contains(OpView::Write(DbOpView::SetCommand { uuid7: msg.uuid7, command: c }))
                    <==> msg.command == Some(c)
            &&& ops.contains(
                OpView::Write(
                    DbOpView::SetUserUuid { uuid7: msg.uuid7, user_uuid7: msg.user_uuid7 },
                ),
            ) <==> msg.user_uuid7.len() > 0
            &&& n >= 4
            &&& ops[n - 3] is Admit
            &&& ops[n - 2] == OpView::Write(
                DbOpView::SetStatus { uuid7: msg.uuid7, status: "processing"@ },
            )
            &&& ops[n - 1] == OpView::Broadcast { uuid7: msg.uuid7 }
        }),
{
    let ops = entry_ops(msg);
    let user = OpView::Write(
        DbOpView::SetUserUuid { uuid7: msg.uuid7, user_uuid7: msg.user_uuid7 },
    );
    let n = ops.len();
    if let Some(c) = msg.command {
        assert(ops[1] == OpView::Write(DbOpView::SetCommand { uuid7: msg.uuid7, command: c }));
        if msg.user_uuid7.len() > 0 {
            assert(ops[2] == user);
        }
    } else if msg.user_uuid7.len() > 0 {
        assert(ops[1] == user);
    }
}

/// No piece of work changes what came in of a message: only a module's reply changes its
/// text so far, only rendered audio its audio, and only an answered in-process module its
/// place, by one.
pub proof fn law_message_stays_itself(p: PipelineView, op: OpView, s: Surroundings, k: Seq<char>)
    requires
        p.states.dom().contains(k),
        run(p, op, s).pipeline.states.dom().contains(k),
        !(op matches OpView::Admit(state) && state.uuid7 == k),
    ensures
        ({
            let a = p.states[k];
            let b = run(p, op, s).pipeline.states[k];
            &&& b.uuid7 == a.uuid7
            &&& b.raw_message == a.raw_message
            &&& b.platform == a.platform
            &&& b.event_type == a.event_type
            &&& b.command == a.command
            &&& b.flags == a.flags
            &&& b.parsed_command == a.parsed_command
            &&& b.channel_id == a.channel_id
            &&& b.user_uuid7 == a.user_uuid7
            &&& b.user_data == a.user_data
        }),
        ({
            let a = p.states[k];
            let b = run(p, op, s).pipeline.states[k];
            match op {
                OpView::Note { uuid7, processed } => if uuid7 == k {
                    b.processed_message == processed
                } else {
                    b.processed_message == a.processed_message
                },
                _ => b.processed_message == a.processed_message,
            }
        }),
        ({
            let a = p.states[k];
            let b = run(p, op, s).pipeline.states[k];
            match op {
                OpView::Advance { uuid7, .. } => if uuid7 == k && a.current_in_process_index
                    < usize::MAX {
                    b.current_in_process_index == a.current_in_process_index + 1
                } else {
                    b.current_in_process_index == a.current_in_process_index
                },
                _ => b.current_in_process_index == a.current_in_process_index,
            }
        }),
        ({
            let a = p.states[k];
            let b = run(p, op, s).pipeline.states[k];
            match op {
                OpView::StoreAudio { uuid7, stage, audio_type, audio } => if uuid7 == k
                    && audio.len() > 0 {
                    &&& b.audio == audio
                    &&& b.audio_stage == stage
                    &&& audio_type.len() > 0 ==> b.audio_type == audio_type
                    &&& audio_type.len() == 0 ==> b.audio_type == "audio/mpeg"@
                } else {
                    b.audio == a.audio && b.audio_type == a.audio_type && b.audio_stage
                        == a.audio_stage
                },
                _ => b.audio == a.audio && b.audio_type == a.audio_type && b.audio_stage
                    == a.audio_stage,
            }
        }),
{
}

/// A message leaves the pipeline only by being completed or given up.
pub proof fn law_messages_are_not_lost(p: PipelineView, op: OpView, s: Surroundings, k: Seq<char>)
    requires
        p.states.dom().contains(k),
    ensures
        run(p, op, s).pipeline.states.dom().contains(k) || (op matches OpView::Forget { uuid7 }
            && uuid7 == k) || (op matches OpView::Fail { uuid7, .. } && uuid7 == k),
{
}

/// Work that neither takes a message in anew nor notes a reply for it.
pub open spec fn leaves_text(op: OpView, k: Seq<char>) -> bool {
    match op {
        OpView::Admit(state) => state.uuid7 != k,
        OpView::Note { uuid7, .. } => uuid7 != k,
        _ => true,
    }
}

proof fn lemma_text_is_kept(p: PipelineView, ops: Seq<OpView>, s: Surroundings, k: Seq<char>)
    requires
        forall|i: int| 0 <= i < ops.len() ==> leaves_text(#[trigger] ops[i], k),
        run_all(p, ops, s).states.dom().contains(k),
    ensures
        p.states.dom().contains(k),
        run_all(p, ops, s).states[k].processed_message == p.states[k].processed_message,
    decreases ops.len(),
{
    if ops.len() > 0 {
        assert(leaves_text(ops[0], k));
        let q = run(p, ops[0], s).pipeline;
        assert forall|i: int| 0 <= i < ops.drop_first().len() implies leaves_text(
            #[trigger] ops.drop_first()[i],
            k,
        ) by {
            assert(ops.drop_first()[i] == ops[i + 1]);
        }
        lemma_text_is_kept(q, ops.drop_first(), s, k);
        assert(p.states.dom().contains(k));
        law_message_stays_itself(p, ops[0], s, k);
    }
}

/// Once a module's reply with a text was noted for a message, that text is what the next
/// in-process module is sent and what the displays are sent, and what is recorded when the
/// message completes, whatever else happens, until another reply is noted.
pub proof fn law_reply_is_handed_on(
    p: PipelineView,
    k: Seq<char>,
    t: Seq<char>,
    ops: Seq<OpView>,
    s: Surroundings,
    then: Surroundings,
)
    requires
        p.states.dom().contains(k),
        forall|i: int| 0 <= i < ops.len() ==> leaves_text(#[trigger] ops[i], k),
        run_all(run(p, OpView::Note { uuid7: k, processed: t }, s).pipeline, ops, s).states.dom(
        ).contains(k),
        !then.audited,
    ensures
        ({
            let q = run_all(run(p, OpView::Note { uuid7: k, processed: t }, s).pipeline, ops, s);
            let inner = run(q, OpView::Pass { gate: Gate::InProcess, uuid7: k }, then);
            let outer = run(q, OpView::Pass { gate: Gate::PostProcess, uuid7: k }, then);
            let end = run(q, OpView::Pass { gate: Gate::Complete, uuid7: k }, then);
            &&& q.states[k].current_in_process_index < q.config.in_process_modules.len() ==> (
            inner.action matches ActionView::Send { payload, .. } && payload
                matches PayloadView::MessageInProcess(m) && m.processed_message == t)
            &&& (outer.action matches ActionView::Send { payload, .. } && payload
                matches PayloadView::MessagePostProcess(m) && m.processed_message == t)
            &&& end.todo.contains(
                OpView::Write(DbOpView::SetProcessed { uuid7: k, processed: t }),
            )
        }),
{
    let noted = run(p, OpView::Note { uuid7: k, processed: t }, s).pipeline;
    let q = run_all(noted, ops, s);
    lemma_text_is_kept(noted, ops, s, k);
    law_message_stays_itself(p, OpView::Note { uuid7: k, processed: t }, s, k);
    let end = run(q, OpView::Pass { gate: Gate::Complete, uuid7: k }, then);
    assert(end.todo[0] == OpView::Write(DbOpView::SetProcessed { uuid7: k, processed: t }));
}

/// What pre-process modules are sent of a message is what came in of it, the command it
/// was read as included, under its own id and with no audio.
pub proof fn law_pre_process_sees_the_message(p: PipelineView, k: Seq<char>, s: Surroundings)
    requires
        p.states.dom().contains(k),
    ensures
        ({
            let o = run(p, OpView::Broadcast { uuid7: k }, s);
            let state = p.states[k];
            &&& o.action matches ActionView::Send { payload, .. }
            &&& payload matches PayloadView::MessagePreProcess(m)
            &&& m.message_uuid7 == k
            &&& m.audio.len() == 0
            &&& m.audio_type.len() == 0
            &&& m.raw_message matches Some(chat)
            &&& chat.platform == state.platform
            &&& chat.channel_id == state.channel_id
            &&& chat.user_uuid7 == state.user_uuid7
            &&& chat.user_data == state.user_data
            &&& chat.raw_message == state.raw_message
            &&& chat.command == state.parsed_command
            &&& o.pipeline.states == p.states
        }),
{
}

/// What an in-process module is sent of a message is what came in of it under its own id,
/// and the text so far. It goes to the module whose turn it is and to no other, where that
/// one is connected.
pub proof fn law_in_process_sees_the_message(p: PipelineView, k: Seq<char>, s: Surroundings)
    requires
        p.states.dom().contains(k),
        p.states[k].current_in_process_index < p.config.in_process_modules.len(),
        !s.audited,
    ensures
        ({
            let o = run(p, OpView::Pass { gate: Gate::InProcess, uuid7: k }, s);
            let state = p.states[k];
            let module = p.config.in_process_modules[state.current_in_process_index as int];
            &&& o.action matches ActionView::Send { payload, to }
            &&& payload matches PayloadView::MessageInProcess(m)
            &&& m.message_uuid7 == k
            &&& m.processed_message == state.processed_message
            &&& !m.abandon_message
            &&& m.audio.len() == 0
            &&& m.audio_type.len() == 0
            &&& m.raw_message matches Some(chat)
            &&& chat.platform == state.platform
            &&& chat.channel_id == state.channel_id
            &&& chat.user_uuid7 == state.user_uuid7
            &&& chat.user_data == state.user_data
            &&& chat.raw_message == state.raw_message
            &&& chat.command is None
            &&& s.connected.contains(module) ==> to == seq![module]
            &&& !s.connected.contains(module) ==> to.len() == 0
            &&& o.todo.len() == 0
            &&& o.pipeline.states[k].stage == PipelineStage::InProcessing
        }),
{
    let state = p.states[k];
    lemma_filter_one(
        p.config.in_process_modules[state.current_in_process_index as int],
        s.connected,
    );
}

/// A message for which every in-process module was done goes on to the displays.
pub proof fn law_in_process_ends(p: PipelineView, k: Seq<char>, s: Surroundings)
    requires
        p.states.dom().contains(k),
        p.states[k].current_in_process_index >= p.config.in_process_modules.len(),
        !s.audited,
    ensures
        ({
            let o = run(p, OpView::Pass { gate: Gate::InProcess, uuid7: k }, s);
            &&& o.action is Next
            &&& o.todo == seq![OpView::Check { gate: Gate::PostProcess, uuid7: k }]
        }),
{
}

/// What post-process modules are sent of a message is what came in of it under its own id,
/// the text so far, and the audio that an earlier stage made. It goes to those of them that
/// are connected, in their order.
pub proof fn law_post_process_sees_the_message(p: PipelineView, k: Seq<char>, s: Surroundings)
    requires
        p.states.dom().contains(k),
        !s.audited,
    ensures
        ({
            let o = run(p, OpView::Pass { gate: Gate::PostProcess, uuid7: k }, s);
            let state = p.states[k];
            &&& o.action matches ActionView::Send { payload, to }
            &&& payload matches PayloadView::MessagePostProcess(m)
            &&& m.message_uuid7 == k
            &&& m.processed_message == state.processed_message
            &&& state.audio_stage != "post"@ ==> m.audio == state.audio
            &&& state.audio_stage != "post"@ && state.audio.len() > 0 ==> m.audio_type
                == state.audio_type
            &&& state.audio_stage == "post"@ ==> m.audio.len() == 0
            &&& m.audio.len() == 0 ==> m.audio_type.len() == 0
            &&& m.raw_message matches Some(chat)
            &&& chat.platform == state.platform
            &&& chat.channel_id == state.channel_id
            &&& chat.user_uuid7 == state.user_uuid7
            &&& chat.user_data == state.user_data
            &&& chat.raw_message == state.raw_message
            &&& chat.command is None
            &&& to == p.config.post_process_modules.filter(
                |module: Seq<char>| s.connected.contains(module),
            )
            &&& o.pipeline.states[k].stage == PipelineStage::PostProcessing
        }),
{
    lemma_connected_are_filtered(p.config.post_process_modules, s.connected);
    let state = p.states[k];
    if state.audio.len() == 0 {
        assert(state.audio =~= Seq::<u8>::empty());
    }
}

/// Work that does not take a message in anew.
pub open spec fn leaves_message(op: OpView, k: Seq<char>) -> bool {
    match op {
        OpView::Admit(state) => state.uuid7 != k,
        _ => true,
    }
}

proof fn lemma_message_is_kept(p: PipelineView, ops: Seq<OpView>, s: Surroundings, k: Seq<char>)
    requires
        forall|i: int| 0 <= i < ops.len() ==> leaves_message(#[trigger] ops[i], k),
        run_all(p, ops, s).states.dom().contains(k),
    ensures
        ({
            let a = p.states[k];
            let b = run_all(p, ops, s).states[k];
            &&& p.states.dom().contains(k)
            &&& b.uuid7 == a.uuid7
            &&& b.raw_message == a.raw_message
            &&& b.platform == a.platform
            &&& b.channel_id == a.channel_id
            &&& b.user_uuid7 == a.user_uuid7
            &&& b.user_data == a.user_data
        }),
    decreases ops.len(),
{
    if ops.len() > 0 {
        assert(leaves_message(ops[0], k));
        assert forall|i: int| 0 <= i < ops.drop_first().len() implies leaves_message(
            #[trigger] ops.drop_first()[i],
            k,
        ) by {
            assert(ops.drop_first()[i] == ops[i + 1]);
        }
        lemma_message_is_kept(run(p, ops[0], s).pipeline, ops.drop_first(), s, k);
        law_message_stays_itself(p, ops[0], s, k);
    }
}

/// Every module that is sent a message after it came in, whatever was done with it since,
/// sees the id, platform, channel, author and text that it came with.
pub proof fn law_modules_see_the_message_that_came(
    p: PipelineView,
    msg: PipelineMessageView,
    ops: Seq<OpView>,
    s: Surroundings,
    gate: Gate,
)
    requires
        forall|i: int| 0 <= i < ops.len() ==> leaves_message(#[trigger] ops[i], msg.uuid7),
        run_all(run_all(p, entry_ops(msg), s), ops, s).states.dom().contains(msg.uuid7),
    ensures
        ({
            let q = run_all(run_all(p, entry_ops(msg), s), ops, s);
            run(q, OpView::Pass { gate, uuid7: msg.uuid7 }, s).action
                matches ActionView::Send { payload, .. } ==> match payload {
                PayloadView::MessageInProcess(m) => {
                    &&& gate == Gate::InProcess
                    &&& m.message_uuid7 == msg.uuid7
                    &&& m.raw_message matches Some(chat)
                    &&& chat.platform == msg.platform
                    &&& chat.channel_id == msg.channel_id
                    &&& chat.user_uuid7 == msg.user_uuid7
                    &&& chat.user_data == msg.user_data
                    &&& chat.raw_message == msg.raw_message
                },
                PayloadView::MessagePostProcess(m) => {
                    &&& gate == Gate::PostProcess
                    &&& m.message_uuid7 == msg.uuid7
                    &&& m.raw_message matches Some(chat)
                    &&& chat.platform == msg.platform
                    &&& chat.channel_id == msg.channel_id
                    &&& chat.user_uuid7 == msg.user_uuid7
                    &&& chat.user_data == msg.user_data
                    &&& chat.raw_message == msg.raw_message
                },
                _ => false,
            }
        }),
{
    law_message_enters_as_it_came(p, msg, s);
    let first = run_all(p, entry_ops(msg), s);
    lemma_message_is_kept(first, ops, s, msg.uuid7);
}

/// What an adapter brings in without an id is a new chat message under a fresh id: it
/// enters with the adapter's platform, channel, author, text and command. Where it holds no
/// message nothing is done.
pub proof fn law_adapter_message_enters(
    m: MessagePreProcessView,
    fresh: Seq<char>,
    p: PipelineView,
    s: Surroundings,
)
    requires
        m.message_uuid7.len() == 0,
    ensures
        message_ops(Some(PayloadView::MessagePreProcess(m)), fresh) matches Some(ops) && match m.raw_message {
            Some(chat) => {
                let q = run_all(p, ops, s);
                let state = q.states[fresh];
                &&& q.states.dom().contains(fresh)
                &&& state.raw_message == chat.raw_message
                &&& state.platform == chat.platform
                &&& state.channel_id == chat.channel_id
                &&& state.user_uuid7 == chat.user_uuid7
                &&& state.user_data == chat.user_data
                &&& state.parsed_command == chat.command
                &&& state.event_type == 1
                &&& state.command is None
                &&& state.flags is None
            },
            None => ops.len() == 0,
        },
{
    if let Some(chat) = m.raw_message {
        law_message_enters_as_it_came(
            p,
            PipelineMessageView {
                uuid7: fresh,
                raw_message: chat.raw_message,
                platform: chat.platform,
                event_type: 1,
                command: None,
                flags: None,
                parsed_command: chat.command,
                channel_id: chat.channel_id,
                user_uuid7: chat.user_uuid7,
                user_data: chat.user_data,
            },
            s,
        );
    }
}

/// A module's reply for a message is dealt with in one order: its text is noted first, then
/// recorded, then its audio is kept under the stage that the reply is of, and only then the
/// answer is taken.
pub proof fn law_reply_is_noted_before_it_counts(
    pre: MessagePreProcessView,
    inner: MessageInProcessView,
    post: MessagePostProcessView,
    fresh: Seq<char>,
)
    ensures
        pre.message_uuid7.len() > 0 ==> {
            &&& message_ops(Some(PayloadView::MessagePreProcess(pre)), fresh) matches Some(ops)
            &&& ops.len() == 4
            &&& ops[0] matches OpView::Note { uuid7, processed }
            &&& uuid7 == pre.message_uuid7
            &&& pre.raw_message matches Some(chat) ==> processed == chat.raw_message
            &&& pre.raw_message is None ==> processed.len() == 0
            &&& ops[1] == OpView::Write(
                DbOpView::SetProcessed { uuid7: pre.message_uuid7, processed },
            )
            &&& ops[2] == (OpView::StoreAudio {
                uuid7: pre.message_uuid7,
                stage: "pre"@,
                audio_type: pre.audio_type,
                audio: pre.audio,
            })
            &&& ops[3] == (OpView::Ack { uuid7: pre.message_uuid7 })
        },
        inner.message_uuid7.len() > 0 ==> {
            &&& message_ops(Some(PayloadView::MessageInProcess(inner)), fresh) matches Some(ops)
            &&& ops.len() == 4
            &&& ops[0] == (OpView::Note {
                uuid7: inner.message_uuid7,
                processed: inner.processed_message,
            })
            &&& ops[1] == OpView::Write(
                DbOpView::SetProcessed {
                    uuid7: inner.message_uuid7,
                    processed: inner.processed_message,
                },
            )
            &&& ops[2] == (OpView::StoreAudio {
                uuid7: inner.message_uuid7,
                stage: "in"@,
                audio_type: inner.audio_type,
                audio: inner.audio,
            })
            &&& ops[3] == (OpView::Ack { uuid7: inner.message_uuid7 })
        },
        post.message_uuid7.len() > 0 ==> {
            &&& message_ops(Some(PayloadView::MessagePostProcess(post)), fresh) matches Some(ops)
            &&& ops.len() == 4
            &&& ops[0] == (OpView::Note {
                uuid7: post.message_uuid7,
                processed: post.processed_message,
            })
            &&& ops[1] == OpView::Write(
                DbOpView::SetProcessed {
                    uuid7: post.message_uuid7,
                    processed: post.processed_message,
                },
            )
            &&& ops[2] == (OpView::StoreAudio {
                uuid7: post.message_uuid7,
                stage: "post"@,
                audio_type: post.audio_type,
                audio: post.audio,
            })
            &&& ops[3] == (OpView::Ack { uuid7: post.message_uuid7 })
        },
{
}

/// Of what modules send only messages in progress and answers are for the pipeline; an
/// answer for no message, and a reply of a later stage for none, does nothing.
pub proof fn law_only_messages_are_for_the_pipeline(payload: Option<PayloadView>, fresh: Seq<char>)
    ensures
        message_ops(payload, fresh) is Some <==> (payload matches Some(x) && (x
            is MessagePreProcess || x is MessageInProcess || x is MessagePostProcess || x
            is MessageAck)),
        payload matches Some(PayloadView::MessageAck(m)) ==> {
            &&& message_ops(payload, fresh) matches Some(ops)
            &&& m.message_uuid7.len() == 0 ==> ops.len() == 0
            &&& m.message_uuid7.len() > 0 ==> ops == seq![OpView::Ack { uuid7: m.message_uuid7 }]
        },
        payload matches Some(PayloadView::MessageInProcess(m)) ==> (m.message_uuid7.len() == 0 ==> {
            &&& message_ops(payload, fresh) matches Some(ops)
            &&& ops.len() == 0
        }),
        payload matches Some(PayloadView::MessagePostProcess(m)) ==> (m.message_uuid7.len() == 0 ==> {
            &&& message_ops(payload, fresh) matches Some(ops)
            &&& ops.len() == 0
        }),
{
}

/// The stages follow each other: an answered pre-process stage leads to the in-process
/// modules, an answered in-process module to the next one, or to the displays after the
/// last, and an answered post-process stage to the end.
pub proof fn law_stages_follow_each_other(p: PipelineView, k: Seq<char>, s: Surroundings)
    requires
        owed(p.pending, k).len() > 0,
        p.config.in_process_modules.len() <= usize::MAX,
    ensures
        ({
            let o = run(p, OpView::Ack { uuid7: k }, s);
            let stage = owed(p.pending, k)[0].stage;
            &&& stage == "pre_process"@ ==> o.todo == seq![
                OpView::Write(DbOpView::StageCompleted { uuid7: k, stage: "pre_process"@ }),
                OpView::Check { gate: Gate::InProcess, uuid7: k },
            ]
            &&& stage == "in_process"@ ==> {
                &&& o.todo.len() == 2
                &&& o.todo[0] == OpView::Write(
                    DbOpView::StageCompleted { uuid7: k, stage: "in_process"@ },
                )
                &&& o.todo[1] matches OpView::Advance { uuid7, in_count }
                &&& uuid7 == k
                &&& in_count == p.config.in_process_modules.len()
            }
            &&& stage == "post_process"@ ==> o.todo == seq![
                OpView::Check { gate: Gate::Complete, uuid7: k },
            ]
            &&& o.pipeline.states == p.states
        }),
{
    reveal_strlit("pre_process");
    reveal_strlit("in_process");
    reveal_strlit("post_process");
    assert("pre_process"@.len() == 11 && "in_process"@.len() == 10 && "post_process"@.len() == 12);
}

/// The turn passes to the next in-process module while there is one, and to the displays
/// after the last.
pub proof fn law_next_module_takes_its_turn(
    p: PipelineView,
    k: Seq<char>,
    in_count: usize,
    s: Surroundings,
)
    requires
        p.states.dom().contains(k),
        p.states[k].current_in_process_index < usize::MAX,
    ensures
        ({
            let o = run(p, OpView::Advance { uuid7: k, in_count }, s);
            let i = p.states[k].current_in_process_index;
            &&& o.pipeline.states[k].current_in_process_index == i + 1
            &&& i + 1 < in_count ==> o.todo == seq![
                OpView::Check { gate: Gate::InProcess, uuid7: k },
            ]
            &&& i + 1 >= in_count ==> o.todo == seq![
                OpView::Check { gate: Gate::PostProcess, uuid7: k },
            ]
        }),
{
}

/// Before a message moves on it is asked whether it is held, and it then moves to where it
/// was about to go.
pub proof fn law_held_messages_are_asked_about_first(
    p: PipelineView,
    gate: Gate,
    k: Seq<char>,
    s: Surroundings,
)
    ensures
        ({
            let o = run(p, OpView::Check { gate, uuid7: k }, s);
            &&& o.action == (ActionView::AskAudited { uuid7: k })
            &&& o.todo == seq![OpView::Pass { gate, uuid7: k }]
            &&& o.pipeline == p
        }),
{
}

/// A message that completes is recorded with its last text, as past its last stages and
/// as complete, and is then neither in the pipeline nor owed an answer.
pub proof fn law_completion_is_recorded(p: PipelineView, k: Seq<char>, s: Surroundings)
    requires
        p.states.dom().contains(k),
        !s.audited,
    ensures
        ({
            let todo = run(p, OpView::Pass { gate: Gate::Complete, uuid7: k }, s).todo;
            &&& todo.len() == 6
            &&& todo[0] == OpView::Write(
                DbOpView::SetProcessed { uuid7: k, processed: p.states[k].processed_message },
            )
            &&& todo[1] == (OpView::Forget { uuid7: k })
            &&& todo[2] == OpView::Write(
                DbOpView::StageCompleted { uuid7: k, stage: "post_process"@ },
            )
            &&& todo[3] == OpView::Write(
                DbOpView::StageCompleted { uuid7: k, stage: "persisted"@ },
            )
            &&& todo[4] == OpView::Write(DbOpView::SetStatus { uuid7: k, status: "complete"@ })
            &&& todo[5] == (OpView::DropAcks { uuid7: k })
        }),
{
}

proof fn lemma_owed_after_asking(
    pending: PendingAcks,
    uuid7: Seq<char>,
    stage: Seq<char>,
    to: Seq<Seq<char>>,
    timeout_ms: u64,
    now: u64,
)
    requires
        crate::pipeline::acks_ok(pending),
    ensures
        ({
            let after = asked_all(pending, uuid7, stage, to, timeout_ms, now);
            let before = owed(pending, uuid7);
            let list = owed(after, uuid7);
            &&& crate::pipeline::acks_ok(after)
            &&& list.len() == before.len() + to.len()
            &&& forall|i: int| 0 <= i < before.len() ==> list[i] == before[i]
            &&& forall|i: int|
                0 <= i < to.len() ==> (#[trigger] list[before.len() + i]) == (PendingAckView {
                    uuid7,
                    stage,
                    module_name: to[i],
                    sent_at: now,
                    timeout_ms,
                })
        }),
    decreases to.len(),
{
    if to.len() > 0 {
        let front = asked_all(pending, uuid7, stage, to.drop_last(), timeout_ms, now);
        lemma_owed_after_asking(pending, uuid7, stage, to.drop_last(), timeout_ms, now);
        lemma_asked(
            front,
            PendingAckView { uuid7, stage, module_name: to.last(), sent_at: now, timeout_ms },
        );
        let before = owed(pending, uuid7);
        let list = owed(asked_all(pending, uuid7, stage, to, timeout_ms, now), uuid7);
        assert forall|i: int| 0 <= i < to.len() implies (#[trigger] list[before.len() + i]) == (
        PendingAckView { uuid7, stage, module_name: to[i], sent_at: now, timeout_ms }) by {
            if i < to.len() - 1 {
                assert(list[before.len() + i] == owed(front, uuid7)[before.len() + i]);
            }
        }
    }
}

/// Each module that a message goes to owes an answer for it: for that message, in the stage
/// that the message is sent in, from the time it is sent on, and within the time that the
/// settings give.
pub proof fn law_answers_are_owed_for_the_stage(
    p: PipelineView,
    op: OpView,
    s: Surroundings,
    k: Seq<char>,
)
    requires
        pipeline_ok(p),
        crate::orchestrator::subject(op) == k,
    ensures
        run(p, op, s).action matches ActionView::Send { payload, to } ==> {
            let before = owed(p.pending, k);
            let list = owed(run(p, op, s).pipeline.pending, k);
            &&& list.len() == before.len() + to.len()
            &&& forall|i: int| 0 <= i < before.len() ==> list[i] == before[i]
            &&& forall|i: int|
                0 <= i < to.len() ==> {
                    let ack = #[trigger] list[before.len() + i];
                    &&& ack.uuid7 == k
                    &&& ack.module_name == to[i]
                    &&& ack.sent_at == s.now
                    &&& ack.timeout_ms == p.config.ack_timeout_ms
                    &&& payload is MessagePreProcess ==> ack.stage == "pre_process"@
                    &&& payload is MessageInProcess ==> ack.stage == "in_process"@
                    &&& payload is MessagePostProcess ==> ack.stage == "post_process"@
                }
        },
{
    if let ActionView::Send { payload, to } = run(p, op, s).action {
        let t = p.config.ack_timeout_ms;
        lemma_owed_after_asking(p.pending, k, "pre_process"@, to, t, s.now);
        lemma_owed_after_asking(p.pending, k, "in_process"@, to, t, s.now);
        lemma_owed_after_asking(p.pending, k, "post_process"@, to, t, s.now);
    }
}

/// An answer that does not come in time from a critical module fails the message, with an
/// error that names the module and the stage; from another module it counts as given once
/// nobody else owes one.
pub proof fn law_missing_answers(
    p: PipelineView,
    late: Seq<PendingAckView>,
    i: int,
    s: Surroundings,
)
    requires
        0 <= i < late.len(),
    ensures
        timeout_ops(late, p.config).len() == late.len(),
        ({
            let o = run(p, timeout_ops(late, p.config)[i], s);
            let ack = late[i];
            &&& p.config.critical_modules.contains(ack.module_name) ==> {
                &&& o.todo.len() == 1
                &&& o.todo[0] matches OpView::Fail { uuid7, error }
                &&& uuid7 == ack.uuid7
                &&& error == "Critical module '"@ + (ack.module_name + ("' timed out at stage '"@ + (
                ack.stage + "'"@)))
            }
            &&& !p.config.critical_modules.contains(ack.module_name) ==> {
                &&& o.todo.len() > 0 ==> owed(p.pending, ack.uuid7).len() == 0
                &&& forall|j: int| 0 <= j < o.todo.len() ==> !((#[trigger] o.todo[j]) is Fail)
                &&& owed(p.pending, ack.uuid7).len() == 0 && ack.stage == "pre_process"@
                    ==> o.todo.contains(OpView::Check { gate: Gate::InProcess, uuid7: ack.uuid7 })
                &&& owed(p.pending, ack.uuid7).len() == 0 && ack.stage == "in_process"@
                    ==> o.todo.contains(
                    OpView::Advance {
                        uuid7: ack.uuid7,
                        in_count: p.config.in_process_modules.len() as usize,
                    },
                )
                &&& owed(p.pending, ack.uuid7).len() == 0 && ack.stage == "post_process"@
                    ==> o.todo.contains(OpView::Check { gate: Gate::Complete, uuid7: ack.uuid7 })
            }
            &&& o.pipeline == p
        }),
{
    reveal_strlit("pre_process");
    reveal_strlit("in_process");
    reveal_strlit("post_process");
    assert("pre_process"@.len() == 11 && "in_process"@.len() == 10 && "post_process"@.len() == 12);
    let o = run(p, timeout_ops(late, p.config)[i], s);
    let ack = late[i];
    if p.config.critical_modules.contains(ack.module_name) {
        assert(o.todo[0]->Fail_error =~= "Critical module '"@ + (ack.module_name + (
        "' timed out at stage '"@ + (ack.stage + "'"@))));
    } else if owed(p.pending, ack.uuid7).len() == 0 {
        if ack.stage == "pre_process"@ {
            assert(o.todo[1] is Check);
        } else if ack.stage == "in_process"@ {
            assert(o.todo[1] is Advance);
        } else if ack.stage == "post_process"@ {
            assert(o.todo[0] is Check);
        }
    }
}

/// Rendered audio is recorded for its message with its type, or as `audio/mpeg` where none
/// is given; no audio leaves everything as it is.
pub proof fn law_audio_is_recorded(
    p: PipelineView,
    k: Seq<char>,
    stage: Seq<char>,
    audio_type: Seq<char>,
    audio: Seq<u8>,
    s: Surroundings,
)
    ensures
        ({
            let o = run(p, OpView::StoreAudio { uuid7: k, stage, audio_type, audio }, s);
            &&& audio.len() == 0 ==> o.action is Next && o.pipeline == p
            &&& audio.len() > 0 ==> {
                &&& o.action matches ActionView::Write(w)
                &&& w matches DbOpView::SetAudio { uuid7, audio_type: kept, audio: bytes }
                &&& uuid7 == k
                &&& bytes == audio
                &&& audio_type.len() == 0 ==> kept == "audio/mpeg"@
                &&& audio_type.len() > 0 ==> kept == audio_type
            }
            &&& o.todo.len() == 0
        }),
{
}

/// An answer is overdue once more than its time has passed since the message was sent; the
/// time is given in milliseconds and passes in nanoseconds.
pub proof fn law_when_answers_are_overdue(ack: PendingAckView, now: u64)
    ensures
        overdue(ack, now) <==> now > ack.sent_at + ack.timeout_ms * 1000 * 1000,
{
}

proof fn lemma_overdue_of(acks: Seq<PendingAckView>, now: u64, late: bool, a: PendingAckView)
    ensures
        overdue_of(acks, now, late).contains(a) <==> acks.contains(a) && overdue(a, now) == late,
    decreases acks.len(),
{
    if acks.len() > 0 {
        let front = acks.drop_last();
        lemma_overdue_of(front, now, late, a);
        assert(acks =~= front.push(acks.last()));
        let kept = overdue_of(front, now, late);
        if acks.contains(a) {
            let j = choose|j: int| 0 <= j < acks.len() && acks[j] == a;
            if j < front.len() {
                assert(front[j] == a);
            }
        }
        if front.contains(a) {
            let j = choose|j: int| 0 <= j < front.len() && front[j] == a;
            assert(acks[j] == a);
        }
        if acks.last() == a {
            assert(acks[acks.len() - 1] == a);
        }
        if overdue(acks.last(), now) == late {
            let all = kept.push(acks.last());
            if kept.contains(a) {
                let j = choose|j: int| 0 <= j < kept.len() && kept[j] == a;
                assert(all[j] == a);
            }
            if all.contains(a) {
                let j = choose|j: int| 0 <= j < all.len() && all[j] == a;
                if j < kept.len() {
                    assert(kept[j] == a);
                }
            }
            if acks.last() == a {
                assert(all[kept.len() as int] == a);
            }
        }
    }
}

/// A check for timeouts finds every answer that is overdue, and no other.
pub proof fn law_overdue_answers_are_found(pending: PendingAcks, now: u64, a: PendingAckView)
    ensures
        all_overdue(pending, now).contains(a) <==> overdue(a, now) && exists|i: int|
            0 <= i < pending.len() && (#[trigger] pending[i]).1.contains(a),
    decreases pending.len(),
{
    if pending.len() > 0 {
        let front = pending.drop_last();
        law_overdue_answers_are_found(front, now, a);
        lemma_overdue_of(pending.last().1, now, true, a);
        let x = all_overdue(front, now);
        let y = overdue_of(pending.last().1, now, true);
        let all = all_overdue(pending, now);
        if x.contains(a) {
            let j = choose|j: int| 0 <= j < x.len() && x[j] == a;
            assert(all[j] == a);
            let i = choose|i: int| 0 <= i < front.len() && (#[trigger] front[i]).1.contains(a);
            assert(pending[i].1.contains(a));
        }
        if y.contains(a) {
            let j = choose|j: int| 0 <= j < y.len() && y[j] == a;
            assert(all[x.len() + j] == a);
            assert(pending[pending.len() - 1].1.contains(a));
        }
        if all.contains(a) {
            let j = choose|j: int| 0 <= j < all.len() && all[j] == a;
            if j < x.len() {
                assert(x[j] == a);
            } else {
                assert(y[j - x.len()] == a);
            }
        }
        if overdue(a, now) && exists|i: int|
            0 <= i < pending.len() && (#[trigger] pending[i]).1.contains(a) {
            let i = choose|i: int| 0 <= i < pending.len() && (#[trigger] pending[i]).1.contains(a);
            if i < front.len() {
                assert(front[i].1.contains(a));
            }
        }
    }
}

/// What the timeline shows of a message at each stage.
pub proof fn law_stages_have_their_status()
    ensures
        stage_status(PipelineStage::Inserted) == "queued"@,
        stage_status(PipelineStage::PreProcessing) == "processing"@,
        stage_status(PipelineStage::InProcessing) == "processing"@,
        stage_status(PipelineStage::PostProcessing) == "processing"@,
        stage_status(PipelineStage::Complete) == "complete"@,
        stage_status(PipelineStage::Failed) == "failed"@,
{
}

/// A task is done piece by piece from the front: what a piece of work brings comes before
/// the rest of the task, and nothing of the rest is lost. An empty task is done.
pub proof fn law_tasks_are_done_in_order(
    p: PipelineView,
    op: OpView,
    rest: Seq<OpView>,
    s: Surroundings,
)
    ensures
        ({
            let o = stepped(p, seq![op] + rest, s);
            &&& o.pipeline == run(p, op, s).pipeline
            &&& o.action == run(p, op, s).action
            &&& o.todo == run(p, op, s).todo + rest
        }),
        stepped(p, Seq::empty(), s).action is Done,
        stepped(p, Seq::empty(), s).pipeline == p,
        stepped(p, Seq::empty(), s).todo.len() == 0,
{
    assert((seq![op] + rest).drop_first() =~= rest);
}

/// A check for timeouts leaves every answer that is not overdue, and no other.
pub proof fn law_other_answers_stay_owed(pending: PendingAcks, now: u64, a: PendingAckView)
    ensures
        (exists|i: int|
            0 <= i < not_overdue(pending, now).len() && (#[trigger] not_overdue(
                pending,
                now,
            )[i]).1.contains(a)) <==> !overdue(a, now) && exists|i: int|
            0 <= i < pending.len() && (#[trigger] pending[i]).1.contains(a),
    decreases pending.len(),
{
    if pending.len() > 0 {
        let front = pending.drop_last();
        law_other_answers_stay_owed(front, now, a);
        let left = overdue_of(pending.last().1, now, false);
        lemma_overdue_of(pending.last().1, now, false, a);
        let x = not_overdue(front, now);
        let all = not_overdue(pending, now);
        if exists|i: int| 0 <= i < x.len() && (#[trigger] x[i]).1.contains(a) {
            let i = choose|i: int| 0 <= i < x.len() && (#[trigger] x[i]).1.contains(a);
            assert(all[i].1.contains(a));
        }
        if exists|i: int| 0 <= i < front.len() && (#[trigger] front[i]).1.contains(a) {
            let i = choose|i: int| 0 <= i < front.len() && (#[trigger] front[i]).1.contains(a);
            assert(pending[i].1.contains(a));
        }
        if left.contains(a) {
            assert(all[x.len() as int].1.contains(a));
            assert(pending[pending.len() - 1].1.contains(a));
        }
        if exists|i: int| 0 <= i < all.len() && (#[trigger] all[i]).1.contains(a) {
            let i = choose|i: int| 0 <= i < all.len() && (#[trigger] all[i]).1.contains(a);
            if i < x.len() {
                assert(x[i].1.contains(a));
            }
        }
        if exists|i: int| 0 <= i < pending.len() && (#[trigger] pending[i]).1.contains(a) {
            let i = choose|i: int| 0 <= i < pending.len() && (#[trigger] pending[i]).1.contains(a);
            if i < front.len() {
                assert(front[i].1.contains(a));
            }
        }
    }
}

/// A message that is sent to a display waits for its answer; it completes at once only where
/// it is sent to none.
pub proof fn law_displays_are_waited_for(p: PipelineView, k: Seq<char>, s: Surroundings)
    requires
        p.states.dom().contains(k),
        !s.audited,
    ensures
        ({
            let o = run(p, OpView::Pass { gate: Gate::PostProcess, uuid7: k }, s);
            &&& o.action matches ActionView::Send { payload, to }
            &&& to.len() > 0 ==> o.todo.len() == 0
            &&& to.len() == 0 ==> o.todo == seq![
                OpView::Check { gate: Gate::Complete, uuid7: k },
            ]
        }),
{
}

/// A record is written as it is and changes nothing in the pipeline; work for a message that
/// is not in the pipeline sends nothing.
pub proof fn law_records_are_written_as_they_are(
    p: PipelineView,
    w: DbOpView,
    gate: Gate,
    k: Seq<char>,
    t: Seq<char>,
    n: usize,
    s: Surroundings,
)
    ensures
        run(p, OpView::Write(w), s).action == ActionView::Write(w),
        run(p, OpView::Write(w), s).pipeline == p,
        run(p, OpView::Write(w), s).todo.len() == 0,
        !p.states.dom().contains(k) ==> {
            &&& !(run(p, OpView::Pass { gate, uuid7: k }, s).action is Send)
            &&& run(p, OpView::Broadcast { uuid7: k }, s).action is Next
            &&& run(p, OpView::Note { uuid7: k, processed: t }, s).pipeline == p
            &&& run(p, OpView::Advance { uuid7: k, in_count: n }, s).pipeline == p
            &&& run(p, OpView::Advance { uuid7: k, in_count: n }, s).todo.len() == 0
        },
{
}

/// An answer takes away what is owed for its message, and nothing follows where nothing was
/// owed.
pub proof fn law_answers_count_once(p: PipelineView, k: Seq<char>, s: Surroundings)
    requires
        pipeline_ok(p),
    ensures
        ({
            let o = run(p, OpView::Ack { uuid7: k }, s);
            &&& owed(o.pipeline.pending, k).len() == 0
            &&& owed(p.pending, k).len() == 0 ==> o.todo.len() == 0
            &&& o.action is Next
        }),
        owed(run(p, OpView::DropAcks { uuid7: k }, s).pipeline.pending, k).len() == 0,
        !run(p, OpView::Forget { uuid7: k }, s).pipeline.states.dom().contains(k),
{
    crate::orchestrator::law_second_answer_is_ignored(p, k, s);
}

/// A stage that nobody answered in time, without a critical module, is recorded as done.
pub proof fn law_stages_end_without_answers(
    p: PipelineView,
    ack: PendingAckView,
    n: usize,
    s: Surroundings,
)
    requires
        owed(p.pending, ack.uuid7).len() == 0,
        ack.stage == "pre_process"@ || ack.stage == "in_process"@,
    ensures
        ({
            let o = run(p, OpView::Timeout { ack, critical: false, in_count: n }, s);
            o.todo.len() == 2 && o.todo[0] == OpView::Write(
                DbOpView::StageCompleted { uuid7: ack.uuid7, stage: ack.stage },
            )
        }),
{
    reveal_strlit("pre_process");
    reveal_strlit("in_process");
    assert("pre_process"@.len() == 11 && "in_process"@.len() == 10);
}

} // verus!
