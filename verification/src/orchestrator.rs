//! The pipeline's state machine: the work that each event causes, one piece at a time.
//!
//! The database, the sockets and the clock are outside. A [`Task`] holds what is left to do
//! for one event. [`PipelineOrchestrator::step`] takes its next piece of work and says which
//! [`Action`] the caller has to perform before it asks again. A caller whose database write
//! fails drops the task.
use crate::command_registry::{catch_all_names, CommandKey, CommandRegistry, ModuleCommandRegView};
use crate::pipeline::{
    acks_ok, all_overdue, asked, lemma_asked, lemma_forgotten, not_overdue, owed, AckTracker,
    PendingAck, PendingAckView, PendingAcks, PipelineConfig, PipelineConfigView,
    PipelineMessage, PipelineMessageView, PipelineStage, PipelineState, PipelineStateView,
};
use crate::proto::{
    clone_bytes, clone_opt, views, ChatMessage, ChatMessageView, CommandView, Container,
    MessageInProcess, MessageInProcessView, MessagePostProcess, MessagePostProcessView,
    MessagePreProcess, MessagePreProcessView, Payload, PayloadView,
};
use crate::strmap::{without, StrMap};
use crate::text::{name_listed, same, texts};
use vstd::prelude::*;

verus! {

/// A write to the timeline database.
#[derive(Debug)]
pub enum DbOp {
    /// A new message.
    InsertEvent { uuid7: String, event_type: i32, platform: String, raw_message: String, command: String, flags: String },
    SetCommand { uuid7: String, command: String },
    SetUserUuid { uuid7: String, user_uuid7: String },
    SetStatus { uuid7: String, status: String },
    StageCompleted { uuid7: String, stage: String },
    SetProcessed { uuid7: String, processed: String },
    SetError { uuid7: String, error: String },
    SetAudio { uuid7: String, audio_type: String, audio: Vec<u8> },
}

/// What a [`DbOp`] says.
#[verifier::ext_equal]
pub enum DbOpView {
    InsertEvent { uuid7: Seq<char>, event_type: i32, platform: Seq<char>, raw_message: Seq<char>, command: Seq<char>, flags: Seq<char> },
    SetCommand { uuid7: Seq<char>, command: Seq<char> },
    SetUserUuid { uuid7: Seq<char>, user_uuid7: Seq<char> },
    SetStatus { uuid7: Seq<char>, status: Seq<char> },
    StageCompleted { uuid7: Seq<char>, stage: Seq<char> },
    SetProcessed { uuid7: Seq<char>, processed: Seq<char> },
    SetError { uuid7: Seq<char>, error: Seq<char> },
    SetAudio { uuid7: Seq<char>, audio_type: Seq<char>, audio: Seq<u8> },
}

impl View for DbOp {
    type V = DbOpView;

    open spec fn view(&self) -> DbOpView {
        match *self {
            DbOp::InsertEvent { uuid7, event_type, platform, raw_message, command, flags } => DbOpView::InsertEvent {
                uuid7: uuid7@,
                event_type: event_type,
                platform: platform@,
                raw_message: raw_message@,
                command: command@,
                flags: flags@,
            },
            DbOp::SetCommand { uuid7, command } => DbOpView::SetCommand {
                uuid7: uuid7@,
                command: command@,
            },
            DbOp::SetUserUuid { uuid7, user_uuid7 } => DbOpView::SetUserUuid {
                uuid7: uuid7@,
                user_uuid7: user_uuid7@,
            },
            DbOp::SetStatus { uuid7, status } => DbOpView::SetStatus {
                uuid7: uuid7@,
                status: status@,
            },
            DbOp::StageCompleted { uuid7, stage } => DbOpView::StageCompleted {
                uuid7: uuid7@,
                stage: stage@,
            },
            DbOp::SetProcessed { uuid7, processed } => DbOpView::SetProcessed {
                uuid7: uuid7@,
                processed: processed@,
            },
            DbOp::SetError { uuid7, error } => DbOpView::SetError {
                uuid7: uuid7@,
                error: error@,
            },
            DbOp::SetAudio { uuid7, audio_type, audio } => DbOpView::SetAudio {
                uuid7: uuid7@,
                audio_type: audio_type@,
                audio: audio@,
            },
        }
    }
}

impl Clone for DbOp {
    fn clone(&self) -> (r: Self)
        ensures
            r@ == self@,
    {
        match self {
            DbOp::InsertEvent { uuid7, event_type, platform, raw_message, command, flags } => DbOp::InsertEvent {
                uuid7: uuid7.clone(),
                event_type: *event_type,
                platform: platform.clone(),
                raw_message: raw_message.clone(),
                command: command.clone(),
                flags: flags.clone(),
            },
            DbOp::SetCommand { uuid7, command } => DbOp::SetCommand {
                uuid7: uuid7.clone(),
                command: command.clone(),
            },
            DbOp::SetUserUuid { uuid7, user_uuid7 } => DbOp::SetUserUuid {
                uuid7: uuid7.clone(),
                user_uuid7: user_uuid7.clone(),
            },
            DbOp::SetStatus { uuid7, status } => DbOp::SetStatus {
                uuid7: uuid7.clone(),
                status: status.clone(),
            },
            DbOp::StageCompleted { uuid7, stage } => DbOp::StageCompleted {
                uuid7: uuid7.clone(),
                stage: stage.clone(),
            },
            DbOp::SetProcessed { uuid7, processed } => DbOp::SetProcessed {
                uuid7: uuid7.clone(),
                processed: processed.clone(),
            },
            DbOp::SetError { uuid7, error } => DbOp::SetError {
                uuid7: uuid7.clone(),
                error: error.clone(),
            },
            DbOp::SetAudio { uuid7, audio_type, audio } => DbOp::SetAudio {
                uuid7: uuid7.clone(),
                audio_type: audio_type.clone(),
                audio: clone_bytes(audio),
            },
        }
    }
}

/// What a message that is held for review must not pass.
#[derive(Debug, Clone, Copy, PartialEq, Eq, Structural)]
pub enum Gate {
    /// Into the in-process stage.
    InProcess,
    /// Into the post-process stage.
    PostProcess,
    /// Out of the pipeline.
    Complete,
}

/// A piece of work.
#[derive(Debug)]
pub enum Op {
    /// Write to the database.
    Write(DbOp),
    /// Take a message into the pipeline.
    Admit(PipelineState),
    /// Send a message to the pre-process modules.
    Broadcast { uuid7: String },
    /// Keep the text that a module made of a message.
    Note { uuid7: String, processed: String },
    /// Keep the audio that a module attached to a message.
    StoreAudio { uuid7: String, stage: String, audio_type: String, audio: Vec<u8> },
    /// Take a module's answer for a message.
    Ack { uuid7: String },
    /// Move a message to the next in-process module; there were `in_count`.
    Advance { uuid7: String, in_count: usize },
    /// Ask whether a message is held before it passes a gate.
    Check { gate: Gate, uuid7: String },
    /// Let a message through a gate, or not where it is held.
    Pass { gate: Gate, uuid7: String },
    /// Drop a message from the pipeline.
    Forget { uuid7: String },
    /// Drop the answers owed for a message.
    DropAcks { uuid7: String },
    /// Deal with an answer that did not come.
    Timeout { ack: PendingAck, critical: bool, in_count: usize },
    /// Give a message up.
    Fail { uuid7: String, error: String },
}

/// What a [`Op`] says.
#[verifier::ext_equal]
pub enum OpView {
    Write(DbOpView),
    Admit(PipelineStateView),
    Broadcast { uuid7: Seq<char> },
    Note { uuid7: Seq<char>, processed: Seq<char> },
    StoreAudio { uuid7: Seq<char>, stage: Seq<char>, audio_type: Seq<char>, audio: Seq<u8> },
    Ack { uuid7: Seq<char> },
    Advance { uuid7: Seq<char>, in_count: usize },
    Check { gate: Gate, uuid7: Seq<char> },
    Pass { gate: Gate, uuid7: Seq<char> },
    Forget { uuid7: Seq<char> },
    DropAcks { uuid7: Seq<char> },
    Timeout { ack: PendingAckView, critical: bool, in_count: usize },
    Fail { uuid7: Seq<char>, error: Seq<char> },
}

impl View for Op {
    type V = OpView;

    open spec fn view(&self) -> OpView {
        match *self {
            Op::Write(x) => OpView::Write(x@),
            Op::Admit(x) => OpView::Admit(x@),
            Op::Broadcast { uuid7 } => OpView::Broadcast {
                uuid7: uuid7@,
            },
            Op::Note { uuid7, processed } => OpView::Note {
                uuid7: uuid7@,
                processed: processed@,
            },
            Op::StoreAudio { uuid7, stage, audio_type, audio } => OpView::StoreAudio {
                uuid7: uuid7@,
                stage: stage@,
                audio_type: audio_type@,
                audio: audio@,
            },
            Op::Ack { uuid7 } => OpView::Ack {
                uuid7: uuid7@,
            },
            Op::Advance { uuid7, in_count } => OpView::Advance {
                uuid7: uuid7@,
                in_count: in_count,
            },
            Op::Check { gate, uuid7 } => OpView::Check {
                gate: gate,
                uuid7: uuid7@,
            },
            Op::Pass { gate, uuid7 } => OpView::Pass {
                gate: gate,
                uuid7: uuid7@,
            },
            Op::Forget { uuid7 } => OpView::Forget {
                uuid7: uuid7@,
            },
            Op::DropAcks { uuid7 } => OpView::DropAcks {
                uuid7: uuid7@,
            },
            Op::Timeout { ack, critical, in_count } => OpView::Timeout {
                ack: ack@,
                critical: critical,
                in_count: in_count,
            },
            Op::Fail { uuid7, error } => OpView::Fail {
                uuid7: uuid7@,
                error: error@,
            },
        }
    }
}

impl Clone for Op {
    fn clone(&self) -> (r: Self)
        ensures
            r@ == self@,
    {
        match self {
            Op::Write(x) => Op::Write(x.clone()),
            Op::Admit(x) => Op::Admit(x.clone()),
            Op::Broadcast { uuid7 } => Op::Broadcast {
                uuid7: uuid7.clone(),
            },
            Op::Note { uuid7, processed } => Op::Note {
                uuid7: uuid7.clone(),
                processed: processed.clone(),
            },
            Op::StoreAudio { uuid7, stage, audio_type, audio } => Op::StoreAudio {
                uuid7: uuid7.clone(),
                stage: stage.clone(),
                audio_type: audio_type.clone(),
                audio: clone_bytes(audio),
            },
            Op::Ack { uuid7 } => Op::Ack {
                uuid7: uuid7.clone(),
            },
            Op::Advance { uuid7, in_count } => Op::Advance {
                uuid7: uuid7.clone(),
                in_count: *in_count,
            },
            Op::Check { gate, uuid7 } => Op::Check {
                gate: *gate,
                uuid7: uuid7.clone(),
            },
            Op::Pass { gate, uuid7 } => Op::Pass {
                gate: *gate,
                uuid7: uuid7.clone(),
            },
            Op::Forget { uuid7 } => Op::Forget {
                uuid7: uuid7.clone(),
            },
            Op::DropAcks { uuid7 } => Op::DropAcks {
                uuid7: uuid7.clone(),
            },
            Op::Timeout { ack, critical, in_count } => Op::Timeout {
                ack: ack.clone(),
                critical: *critical,
                in_count: *in_count,
            },
            Op::Fail { uuid7, error } => Op::Fail {
                uuid7: uuid7.clone(),
                error: error.clone(),
            },
        }
    }
}

/// What the caller has to do before the next step.
#[derive(Debug)]
pub enum Action {
    /// Nothing.
    Next,
    /// Write to the database.
    Write(DbOp),
    /// Find out whether a message is held for review.
    AskAudited { uuid7: String },
    /// Send a message to modules.
    Send { payload: Payload, to: Vec<String> },
    /// Nothing: the task is finished.
    Done,
}

/// What a [`Action`] says.
#[verifier::ext_equal]
pub enum ActionView {
    Next,
    Write(DbOpView),
    AskAudited { uuid7: Seq<char> },
    Send { payload: PayloadView, to: Seq<Seq<char>> },
    Done,
}

impl View for Action {
    type V = ActionView;

    open spec fn view(&self) -> ActionView {
        match *self {
            Action::Next => ActionView::Next,
            Action::Write(x) => ActionView::Write(x@),
            Action::AskAudited { uuid7 } => ActionView::AskAudited {
                uuid7: uuid7@,
            },
            Action::Send { payload, to } => ActionView::Send {
                payload: payload@,
                to: texts(to@),
            },
            Action::Done => ActionView::Done,
        }
    }
}

/// What is left to do for one event.
#[derive(Debug)]
pub struct Task {
    ops: Vec<Op>,
}

impl View for Task {
    type V = Seq<OpView>;

    closed spec fn view(&self) -> Seq<OpView> {
        views(self.ops@)
    }
}

/// The pipeline's state.
#[verifier::ext_equal]
pub struct PipelineView {
    pub pending: PendingAcks,
    pub states: Map<Seq<char>, PipelineStateView>,
    pub config: PipelineConfigView,
}

/// What a step sees besides the pipeline's state.
#[verifier::ext_equal]
pub struct Surroundings {
    /// The last answer to [`Action::AskAudited`].
    pub audited: bool,
    /// The modules that are connected.
    pub connected: Seq<Seq<char>>,
    pub index: Map<CommandKey, Seq<char>>,
    pub registrations: Seq<(Seq<char>, ModuleCommandRegView)>,
    pub now: u64,
}

/// What a piece of work comes to.
#[verifier::ext_equal]
pub struct Outcome {
    pub pipeline: PipelineView,
    /// Work to be done before the rest of the task.
    pub todo: Seq<OpView>,
    pub action: ActionView,
}

/// The names that are connected, in order.
pub open spec fn only_connected(names: Seq<Seq<char>>, connected: Seq<Seq<char>>) -> Seq<Seq<char>>
    decreases names.len(),
{
    if names.len() == 0 {
        Seq::empty()
    } else {
        let front = only_connected(names.drop_last(), connected);
        if connected.contains(names.last()) {
            front.push(names.last())
        } else {
            front
        }
    }
}

/// The names that are not among others, in order.
pub open spec fn beside(names: Seq<Seq<char>>, others: Seq<Seq<char>>) -> Seq<Seq<char>>
    decreases names.len(),
{
    if names.len() == 0 {
        Seq::empty()
    } else {
        let front = beside(names.drop_last(), others);
        if others.contains(names.last()) {
            front
        } else {
            front.push(names.last())
        }
    }
}

/// The pending answers after a message went to some modules.
pub open spec fn asked_all(
    pending: PendingAcks,
    uuid7: Seq<char>,
    stage: Seq<char>,
    to: Seq<Seq<char>>,
    timeout_ms: u64,
    now: u64,
) -> PendingAcks
    decreases to.len(),
{
    if to.len() == 0 {
        pending
    } else {
        asked(
            asked_all(pending, uuid7, stage, to.drop_last(), timeout_ms, now),
            PendingAckView { uuid7, stage, module_name: to.last(), sent_at: now, timeout_ms },
        )
    }
}

/// The modules that a message is first sent to: the owner of its command, or all pre-process
/// modules as they are listed where it is no command, and besides them the catch-alls.
pub open spec fn recipients(
    state: PipelineStateView,
    config: PipelineConfigView,
    s: Surroundings,
) -> Seq<Seq<char>> {
    let own = addressed(state, config, s);
    own + beside(catch_all_names(s.registrations), own)
}

/// The modules that a message is first sent to because of what it is.
pub open spec fn addressed(
    state: PipelineStateView,
    config: PipelineConfigView,
    s: Surroundings,
) -> Seq<Seq<char>> {
    match state.parsed_command {
        Some(c) => {
            let key = (c.command_flag, c.command_name);
            if s.index.dom().contains(key) {
                seq![s.index[key]]
            } else {
                Seq::empty()
            }
        },
        None => config.pre_process_modules,
    }
}

/// A message as modules see it.
pub open spec fn chat_of(state: PipelineStateView, command: Option<CommandView>) -> ChatMessageView {
    ChatMessageView {
        platform: state.platform,
        raw_data: Seq::empty(),
        raw_message: state.raw_message,
        user_uuid7: state.user_uuid7,
        command,
        channel_id: state.channel_id,
        user_data: state.user_data,
    }
}

/// What pre-process modules are sent.
pub open spec fn pre_payload(uuid7: Seq<char>, state: PipelineStateView) -> PayloadView {
    PayloadView::MessagePreProcess(
        MessagePreProcessView {
            message_uuid7: uuid7,
            raw_message: Some(chat_of(state, state.parsed_command)),
            audio: Seq::empty(),
            audio_type: Seq::empty(),
        },
    )
}

/// What an in-process module is sent.
pub open spec fn in_payload(uuid7: Seq<char>, state: PipelineStateView) -> PayloadView {
    PayloadView::MessageInProcess(
        MessageInProcessView {
            message_uuid7: uuid7,
            raw_message: Some(chat_of(state, None)),
            processed_message: state.processed_message,
            abandon_message: false,
            audio: Seq::empty(),
            audio_type: Seq::empty(),
        },
    )
}

/// Whether a message's audio goes on to the post-process modules: audio that one of them
/// made is only kept.
pub open spec fn audio_goes_on(state: PipelineStateView) -> bool {
    state.audio_stage != "post"@ && state.audio.len() > 0
}

/// What post-process modules are sent.
pub open spec fn post_payload(uuid7: Seq<char>, state: PipelineStateView) -> PayloadView {
    PayloadView::MessagePostProcess(
        MessagePostProcessView {
            message_uuid7: uuid7,
            raw_message: Some(chat_of(state, None)),
            processed_message: state.processed_message,
            audio: if audio_goes_on(state) {
                state.audio
            } else {
                Seq::empty()
            },
            audio_type: if audio_goes_on(state) {
                state.audio_type
            } else {
                Seq::empty()
            },
        },
    )
}

/// The content type of audio, where none is given.
pub open spec fn audio_mime(audio_type: Seq<char>) -> Seq<char> {
    if audio_type.len() == 0 {
        "audio/mpeg"@
    } else {
        audio_type
    }
}

/// The error of a message that a critical module did not answer for.
pub open spec fn critical_error(ack: PendingAckView) -> Seq<char> {
    "Critical module '"@ + ack.module_name + "' timed out at stage '"@ + ack.stage + "'"@
}

/// What an answered stage leads to. An answer speaks for every module of its stage.
pub open spec fn after_stage(uuid7: Seq<char>, stage: Seq<char>, in_count: usize) -> Seq<OpView> {
    if stage == "pre_process"@ {
        seq![
            OpView::Write(DbOpView::StageCompleted { uuid7, stage: "pre_process"@ }),
            OpView::Check { gate: Gate::InProcess, uuid7 },
        ]
    } else if stage == "in_process"@ {
        seq![
            OpView::Write(DbOpView::StageCompleted { uuid7, stage: "in_process"@ }),
            OpView::Advance { uuid7, in_count },
        ]
    } else if stage == "post_process"@ {
        seq![OpView::Check { gate: Gate::Complete, uuid7 }]
    } else {
        Seq::empty()
    }
}

/// The work left when a message may complete.
pub open spec fn completion(p: PipelineView, uuid7: Seq<char>) -> Seq<OpView> {
    (if p.states.dom().contains(uuid7) {
        seq![
            OpView::Write(
                DbOpView::SetProcessed { uuid7, processed: p.states[uuid7].processed_message },
            ),
        ]
    } else {
        Seq::empty()
    }) + seq![
        OpView::Forget { uuid7 },
        OpView::Write(DbOpView::StageCompleted { uuid7, stage: "post_process"@ }),
        OpView::Write(DbOpView::StageCompleted { uuid7, stage: "persisted"@ }),
        OpView::Write(DbOpView::SetStatus { uuid7, status: "complete"@ }),
        OpView::DropAcks { uuid7 },
    ]
}

/// An outcome that only changes the pipeline.
pub open spec fn quiet(pipeline: PipelineView) -> Outcome {
    Outcome { pipeline, todo: Seq::empty(), action: ActionView::Next }
}

/// An outcome that only brings more work.
pub open spec fn more(pipeline: PipelineView, todo: Seq<OpView>) -> Outcome {
    Outcome { pipeline, todo, action: ActionView::Next }
}

/// The pipeline with one message changed.
pub open spec fn with_state(
    p: PipelineView,
    uuid7: Seq<char>,
    state: PipelineStateView,
) -> PipelineView {
    PipelineView { states: p.states.insert(uuid7, state), ..p }
}

/// A message went to some modules; each owes an answer.
pub open spec fn sent(
    p: PipelineView,
    uuid7: Seq<char>,
    stage: Seq<char>,
    payload: PayloadView,
    to: Seq<Seq<char>>,
    todo: Seq<OpView>,
    now: u64,
) -> Outcome {
    Outcome {
        pipeline: PipelineView {
            pending: asked_all(p.pending, uuid7, stage, to, p.config.ack_timeout_ms, now),
            ..p
        },
        todo,
        action: ActionView::Send { payload, to },
    }
}

/// A message enters the in-process stage.
pub open spec fn enter_in(p: PipelineView, uuid7: Seq<char>, s: Surroundings) -> Outcome {
    if !p.states.dom().contains(uuid7) {
        quiet(p)
    } else {
        let state = PipelineStateView { stage: PipelineStage::InProcessing, ..p.states[uuid7] };
        let q = with_state(p, uuid7, state);
        let i = state.current_in_process_index;
        let modules = p.config.in_process_modules;
        if i >= modules.len() {
            more(q, seq![OpView::Check { gate: Gate::PostProcess, uuid7 }])
        } else {
            let to = only_connected(seq![modules[i as int]], s.connected);
            sent(q, uuid7, "in_process"@, in_payload(uuid7, state), to, Seq::empty(), s.now)
        }
    }
}

/// A message enters the post-process stage. Where no post-process module is connected
/// there is nobody to answer, and it completes.
pub open spec fn enter_post(p: PipelineView, uuid7: Seq<char>, s: Surroundings) -> Outcome {
    if !p.states.dom().contains(uuid7) {
        quiet(p)
    } else {
        let state = PipelineStateView { stage: PipelineStage::PostProcessing, ..p.states[uuid7] };
        let q = with_state(p, uuid7, state);
        let to = only_connected(p.config.post_process_modules, s.connected);
        sent(
            q,
            uuid7,
            "post_process"@,
            post_payload(uuid7, state),
            to,
            if to.len() == 0 {
                seq![OpView::Check { gate: Gate::Complete, uuid7 }]
            } else {
                Seq::empty()
            },
            s.now,
        )
    }
}

/// What a piece of work comes to.
pub open spec fn run(p: PipelineView, op: OpView, s: Surroundings) -> Outcome {
    match op {
        OpView::Write(w) => Outcome {
            pipeline: p,
            todo: Seq::empty(),
            action: ActionView::Write(w),
        },
        OpView::Admit(state) => quiet(with_state(p, state.uuid7, state)),
        OpView::Broadcast { uuid7 } => if p.states.dom().contains(uuid7) {
            let state = p.states[uuid7];
            let to = only_connected(recipients(state, p.config, s), s.connected);
            sent(p, uuid7, "pre_process"@, pre_payload(uuid7, state), to, Seq::empty(), s.now)
        } else {
            quiet(p)
        },
        OpView::Note { uuid7, processed } => if p.states.dom().contains(uuid7) {
            quiet(
                with_state(
                    p,
                    uuid7,
                    PipelineStateView { processed_message: processed, ..p.states[uuid7] },
                ),
            )
        } else {
            quiet(p)
        },
        OpView::StoreAudio { uuid7, stage, audio_type, audio } => if audio.len() == 0 {
            quiet(p)
        } else {
            Outcome {
                pipeline: if p.states.dom().contains(uuid7) {
                    with_state(
                        p,
                        uuid7,
                        PipelineStateView {
                            audio,
                            audio_type: audio_mime(audio_type),
                            audio_stage: stage,
                            ..p.states[uuid7]
                        },
                    )
                } else {
                    p
                },
                todo: Seq::empty(),
                action: ActionView::Write(
                    DbOpView::SetAudio { uuid7, audio_type: audio_mime(audio_type), audio },
                ),
            }
        },
        OpView::Ack { uuid7 } => {
            let acks = owed(p.pending, uuid7);
            more(
                PipelineView { pending: without(p.pending, uuid7), ..p },
                if acks.len() == 0 {
                    Seq::empty()
                } else {
                    after_stage(
                        uuid7,
                        acks[0].stage,
                        p.config.in_process_modules.len() as usize,
                    )
                },
            )
        },
        OpView::Advance { uuid7, in_count } => if p.states.dom().contains(uuid7) {
            let i = p.states[uuid7].current_in_process_index;
            let next = if i < usize::MAX {
                (i + 1) as usize
            } else {
                i
            };
            more(
                with_state(
                    p,
                    uuid7,
                    PipelineStateView { current_in_process_index: next, ..p.states[uuid7] },
                ),
                seq![
                    OpView::Check {
                        gate: if next >= in_count {
                            Gate::PostProcess
                        } else {
                            Gate::InProcess
                        },
                        uuid7,
                    },
                ],
            )
        } else {
            quiet(p)
        },
        OpView::Check { gate, uuid7 } => Outcome {
            pipeline: p,
            todo: seq![OpView::Pass { gate, uuid7 }],
            action: ActionView::AskAudited { uuid7 },
        },
        OpView::Pass { gate, uuid7 } => if s.audited {
            quiet(p)
        } else {
            match gate {
                Gate::InProcess => enter_in(p, uuid7, s),
                Gate::PostProcess => enter_post(p, uuid7, s),
                Gate::Complete => more(p, completion(p, uuid7)),
            }
        },
        OpView::Forget { uuid7 } => quiet(PipelineView { states: p.states.remove(uuid7), ..p }),
        OpView::DropAcks { uuid7 } => quiet(
            PipelineView { pending: without(p.pending, uuid7), ..p },
        ),
        OpView::Timeout { ack, critical, in_count } => if critical {
            more(p, seq![OpView::Fail { uuid7: ack.uuid7, error: critical_error(ack) }])
        } else if owed(p.pending, ack.uuid7).len() > 0 {
            quiet(p)
        } else {
            more(p, after_stage(ack.uuid7, ack.stage, in_count))
        },
        OpView::Fail { uuid7, error } => more(
            PipelineView { states: p.states.remove(uuid7), ..p },
            seq![OpView::Write(DbOpView::SetError { uuid7, error }), OpView::DropAcks { uuid7 }],
        ),
    }
}

/// A step of a task: its first piece of work is done, and what that brings comes before
/// the rest.
pub open spec fn stepped(p: PipelineView, task: Seq<OpView>, s: Surroundings) -> Outcome {
    if task.len() == 0 {
        Outcome { pipeline: p, todo: task, action: ActionView::Done }
    } else {
        let o = run(p, task[0], s);
        Outcome { todo: o.todo + task.drop_first(), ..o }
    }
}

/// The messages in the pipeline, as they are seen.
spec fn state_views(states: Map<Seq<char>, PipelineState>) -> Map<Seq<char>, PipelineStateView> {
    states.map_values(|s: PipelineState| s@)
}

proof fn lemma_state_views(
    states: Map<Seq<char>, PipelineState>,
    uuid7: Seq<char>,
    state: PipelineState,
)
    ensures
        state_views(states.insert(uuid7, state)) == state_views(states).insert(uuid7, state@),
        state_views(states.remove(uuid7)) == state_views(states).remove(uuid7),
{
    assert(state_views(states.insert(uuid7, state)) =~= state_views(states).insert(
        uuid7,
        state@,
    ));
    assert(state_views(states.remove(uuid7)) =~= state_views(states).remove(uuid7));
}

/// Each message stands under its own id, and the pending answers are in order.
pub open spec fn pipeline_ok(p: PipelineView) -> bool {
    &&& acks_ok(p.pending)
    &&& forall|k: Seq<char>| #[trigger] p.states.dom().contains(k) ==> p.states[k].uuid7 == k
}

proof fn lemma_asked_all(
    pending: PendingAcks,
    uuid7: Seq<char>,
    stage: Seq<char>,
    to: Seq<Seq<char>>,
    timeout_ms: u64,
    now: u64,
)
    requires
        acks_ok(pending),
    ensures
        acks_ok(asked_all(pending, uuid7, stage, to, timeout_ms, now)),
        owed(asked_all(pending, uuid7, stage, to, timeout_ms, now), uuid7).len() == owed(
            pending,
            uuid7,
        ).len() + to.len(),
        forall|u: Seq<char>|
            u != uuid7 ==> #[trigger] owed(
                asked_all(pending, uuid7, stage, to, timeout_ms, now),
                u,
            ) == owed(pending, u),
    decreases to.len(),
{
    if to.len() > 0 {
        let front = asked_all(pending, uuid7, stage, to.drop_last(), timeout_ms, now);
        lemma_asked_all(pending, uuid7, stage, to.drop_last(), timeout_ms, now);
        lemma_asked(
            front,
            PendingAckView { uuid7, stage, module_name: to.last(), sent_at: now, timeout_ms },
        );
    }
}

/// Every piece of work keeps the pipeline in order.
pub proof fn law_pipeline_stays_ok(p: PipelineView, op: OpView, s: Surroundings)
    requires
        pipeline_ok(p),
    ensures
        pipeline_ok(run(p, op, s).pipeline),
{
    match op {
        OpView::Broadcast { uuid7 } => {
            if p.states.dom().contains(uuid7) {
                let to = only_connected(recipients(p.states[uuid7], p.config, s), s.connected);
                lemma_asked_all(
                    p.pending,
                    uuid7,
                    "pre_process"@,
                    to,
                    p.config.ack_timeout_ms,
                    s.now,
                );
            }
        },
        OpView::Pass { gate, uuid7 } => {
            if p.states.dom().contains(uuid7) {
                let i = p.states[uuid7].current_in_process_index;
                let modules = p.config.in_process_modules;
                lemma_asked_all(
                    p.pending,
                    uuid7,
                    "in_process"@,
                    only_connected(seq![modules[i as int]], s.connected),
                    p.config.ack_timeout_ms,
                    s.now,
                );
                lemma_asked_all(
                    p.pending,
                    uuid7,
                    "post_process"@,
                    only_connected(p.config.post_process_modules, s.connected),
                    p.config.ack_timeout_ms,
                    s.now,
                );
            }
        },
        OpView::Ack { uuid7 } => {
            lemma_forgotten(p.pending, uuid7);
        },
        OpView::DropAcks { uuid7 } => {
            lemma_forgotten(p.pending, uuid7);
        },
        _ => {},
    }
}

/// The names that are connected, in order.
pub fn keep_connected(names: &Vec<String>, connected: &Vec<String>) -> (r: Vec<String>)
    ensures
        texts(r@) == only_connected(texts(names@), texts(connected@)),
{
    let ghost all = texts(names@);
    let ghost there = texts(connected@);
    let mut out: Vec<String> = Vec::new();
    let mut i: usize = 0;
    assert(texts(out@) =~= only_connected(all.take(0), there));
    while i < names.len()
        invariant
            i <= names@.len(),
            all == texts(names@),
            there == texts(connected@),
            texts(out@) == only_connected(all.take(i as int), there),
        decreases names@.len() - i,
    {
        let ghost before = out@;
        assert(all.take(i + 1).drop_last() =~= all.take(i as int));
        if name_listed(connected, names[i].as_str()) {
            out.push(names[i].clone());
            assert(texts(out@) =~= texts(before).push(all[i as int]));
        }
        i = i + 1;
    }
    assert(all.take(i as int) =~= all);
    out
}

/// The names that are not among others, in order.
fn keep_beside(names: &Vec<String>, others: &Vec<String>) -> (r: Vec<String>)
    ensures
        texts(r@) == beside(texts(names@), texts(others@)),
{
    let ghost all = texts(names@);
    let ghost known = texts(others@);
    let mut out: Vec<String> = Vec::new();
    let mut i: usize = 0;
    assert(texts(out@) =~= beside(all.take(0), known));
    while i < names.len()
        invariant
            i <= names@.len(),
            all == texts(names@),
            known == texts(others@),
            texts(out@) == beside(all.take(i as int), known),
        decreases names@.len() - i,
    {
        let ghost before = out@;
        assert(all.take(i + 1).drop_last() =~= all.take(i as int));
        if !name_listed(others, names[i].as_str()) {
            out.push(names[i].clone());
            assert(texts(out@) =~= texts(before).push(all[i as int]));
        }
        i = i + 1;
    }
    assert(all.take(i as int) =~= all);
    out
}

fn chat_from(state: &PipelineState, with_command: bool) -> (r: ChatMessage)
    ensures
        r@ == chat_of(
            state@,
            if with_command {
                state@.parsed_command
            } else {
                None
            },
        ),
{
    let r = ChatMessage {
        platform: state.platform.clone(),
        raw_data: Vec::new(),
        raw_message: state.raw_message.clone(),
        user_uuid7: state.user_uuid7.clone(),
        command: if with_command {
            clone_opt(&state.parsed_command)
        } else {
            None
        },
        channel_id: state.channel_id.clone(),
        user_data: clone_opt(&state.user_data),
    };
    assert(r.raw_data@ =~= Seq::empty());
    r
}

fn no_ops() -> (r: Vec<Op>)
    ensures
        r@.len() == 0,
        views(r@) == Seq::<OpView>::empty(),
{
    let r: Vec<Op> = Vec::new();
    assert(views(r@) =~= Seq::<OpView>::empty());
    r
}

fn one_op(op: Op) -> (r: Vec<Op>)
    ensures
        views(r@) == seq![op@],
{
    let mut r: Vec<Op> = Vec::new();
    r.push(op);
    assert(views(r@) =~= seq![op@]);
    r
}

fn two_ops(a: Op, b: Op) -> (r: Vec<Op>)
    ensures
        views(r@) == seq![a@, b@],
{
    let mut r: Vec<Op> = Vec::new();
    r.push(a);
    r.push(b);
    assert(views(r@) =~= seq![a@, b@]);
    r
}

/// What an answered stage leads to.
fn stage_ops(uuid7: &str, stage: &str, in_count: usize) -> (r: Vec<Op>)
    ensures
        views(r@) == after_stage(uuid7@, stage@, in_count),
{
    if same(stage, "pre_process") {
        two_ops(
            Op::Write(
                DbOp::StageCompleted { uuid7: uuid7.to_owned(), stage: "pre_process".to_owned() },
            ),
            Op::Check { gate: Gate::InProcess, uuid7: uuid7.to_owned() },
        )
    } else if same(stage, "in_process") {
        two_ops(
            Op::Write(
                DbOp::StageCompleted { uuid7: uuid7.to_owned(), stage: "in_process".to_owned() },
            ),
            Op::Advance { uuid7: uuid7.to_owned(), in_count },
        )
    } else if same(stage, "post_process") {
        one_op(Op::Check { gate: Gate::Complete, uuid7: uuid7.to_owned() })
    } else {
        no_ops()
    }
}

/// The pipeline: the messages in it, and the answers that modules owe.
pub struct PipelineOrchestrator {
    ack_tracker: AckTracker,
    pipeline_states: StrMap<PipelineState>,
    config: PipelineConfig,
}

impl View for PipelineOrchestrator {
    type V = PipelineView;

    closed spec fn view(&self) -> PipelineView {
        PipelineView {
            pending: self.ack_tracker.pending(),
            states: state_views(self.pipeline_states@),
            config: self.config@,
        }
    }
}

/// What a step sees, of the values that it is given.
pub open spec fn surroundings(
    audited: bool,
    connected: &Vec<String>,
    registry: &CommandRegistry,
    now: u64,
) -> Surroundings {
    Surroundings {
        audited,
        connected: texts(connected@),
        index: registry.index(),
        registrations: registry.registrations(),
        now,
    }
}

impl PipelineOrchestrator {
    /// Each message stands under its own id, and the pending answers are in order.
    pub closed spec fn wf(&self) -> bool {
        &&& self.ack_tracker.wf()
        &&& self.pipeline_states.wf()
        &&& pipeline_ok(self@)
    }

    /// What well-formedness means for the pipeline's state.
    pub proof fn lemma_wf(&self)
        requires
            self.wf(),
        ensures
            pipeline_ok(self@),
    {
    }

    /// An empty pipeline.
    pub fn new(config: PipelineConfig) -> (r: Self)
        ensures
            r.wf(),
            r@ == (PipelineView {
                pending: Seq::empty(),
                states: Map::empty(),
                config: config@,
            }),
    {
        let r = PipelineOrchestrator {
            ack_tracker: AckTracker::new(),
            pipeline_states: StrMap::new(),
            config,
        };
        assert(r@.states =~= Map::<Seq<char>, PipelineStateView>::empty());
        r
    }

    /// The configuration.
    pub fn config_snapshot(&self) -> (r: PipelineConfig)
        ensures
            r@ == self@.config,
    {
        self.config.clone()
    }

    /// Changes the configuration.
    pub fn set_config(&mut self, config: PipelineConfig)
        requires
            old(self).wf(),
        ensures
            final(self).wf(),
            final(self)@ == (PipelineView { config: config@, ..old(self)@ }),
    {
        self.config = config;
    }

    /// Records that a message went to some modules.
    fn ask_all(&mut self, uuid7: &str, stage: &str, to: &Vec<String>, now: u64)
        requires
            old(self).wf(),
        ensures
            final(self).wf(),
            final(self)@ == (PipelineView {
                pending: asked_all(
                    old(self)@.pending,
                    uuid7@,
                    stage@,
                    texts(to@),
                    old(self)@.config.ack_timeout_ms,
                    now,
                ),
                ..old(self)@
            }),
    {
        let ghost all = texts(to@);
        let ghost before = self@;
        let timeout_ms = self.config.ack_timeout_ms;
        let mut i: usize = 0;
        while i < to.len()
            invariant
                self.wf(),
                i <= to@.len(),
                all == texts(to@),
                timeout_ms == before.config.ack_timeout_ms,
                pipeline_ok(before),
                self@ == (PipelineView {
                    pending: asked_all(
                        before.pending,
                        uuid7@,
                        stage@,
                        all.take(i as int),
                        timeout_ms,
                        now,
                    ),
                    ..before
                }),
            decreases to@.len() - i,
        {
            assert(all.take(i + 1).drop_last() =~= all.take(i as int));
            self.ack_tracker.track(
                uuid7.to_owned(),
                stage.to_owned(),
                to[i].clone(),
                timeout_ms,
                now,
            );
            proof {
                lemma_asked_all(before.pending, uuid7@, stage@, all.take(i + 1), timeout_ms, now);
            }
            i = i + 1;
        }
        assert(all.take(i as int) =~= all);
    }

    fn broadcast_pre_process(
        &mut self,
        uuid7: &str,
        connected: &Vec<String>,
        registry: &CommandRegistry,
        now: u64,
        Ghost(audited): Ghost<bool>,
    ) -> (r: (Vec<Op>, Action))
        requires
            old(self).wf(),
            registry.wf(),
        ensures
            final(self).wf(),
            (Outcome { pipeline: final(self)@, todo: views(r.0@), action: r.1@ }) == run(
                old(self)@,
                OpView::Broadcast { uuid7: uuid7@ },
                surroundings(audited, connected, registry, now),
            ),
    {
        let ghost before = self@;
        let ghost s = surroundings(audited, connected, registry, now);
        let (payload, names) = match self.pipeline_states.get(uuid7) {
            Some(state) => {
                let message = MessagePreProcess {
                    message_uuid7: uuid7.to_owned(),
                    raw_message: Some(chat_from(state, true)),
                    audio: Vec::new(),
                    audio_type: String::new(),
                };
                assert(message.audio@ =~= Seq::empty());
                let mut names: Vec<String> = match &state.parsed_command {
                    Some(c) => {
                        let mut t: Vec<String> = Vec::new();
                        if let Some(owner) = registry.owner(
                            c.command_flag.as_str(),
                            c.command_name.as_str(),
                        ) {
                            t.push(owner);
                        }
                        assert(texts(t@) =~= addressed(state@, before.config, s));
                        t
                    },
                    None => crate::proto::clone_texts(&self.config.pre_process_modules),
                };
                let mut rest = keep_beside(&registry.catch_alls(), &names);
                let ghost own = texts(names@);
                let ghost others = texts(rest@);
                names.append(&mut rest);
                assert(texts(names@) =~= own + others);
                assert(texts(names@) == recipients(state@, before.config, s));
                (Payload::MessagePreProcess(message), names)
            },
            None => {
                return (no_ops(), Action::Next);
            },
        };
        let to = keep_connected(&names, connected);
        self.ask_all(uuid7, "pre_process", &to, now);
        (no_ops(), Action::Send { payload, to })
    }

    /// Moves a message to a stage, and gives a copy of it.
    fn set_stage(&mut self, uuid7: &str, stage: PipelineStage) -> (r: Option<PipelineState>)
        requires
            old(self).wf(),
        ensures
            final(self).wf(),
            (match r {
                Some(state) => {
                    &&& old(self)@.states.dom().contains(uuid7@)
                    &&& state@ == (PipelineStateView { stage, ..old(self)@.states[uuid7@] })
                    &&& final(self)@ == with_state(old(self)@, uuid7@, state@)
                },
                None => !old(self)@.states.dom().contains(uuid7@) && final(self)@ == old(self)@,
            }),
    {
        let ghost before = self.pipeline_states@;
        let ghost start = self@;
        let copy: PipelineState;
        match self.pipeline_states.get_mut(uuid7) {
            Some(state) => {
                state.stage = stage;
                copy = state.clone();
                proof {
                    lemma_state_views(before, uuid7@, *state);
                }
            },
            None => {
                return None;
            },
        }
        assert forall|k: Seq<char>| #[trigger] self@.states.dom().contains(k) implies self@.states[k].uuid7
            == k by {
            assert(start.states.dom().contains(k));
        }
        Some(copy)
    }

    fn start_in_process(
        &mut self,
        uuid7: &str,
        connected: &Vec<String>,
        now: u64,
        Ghost(s): Ghost<Surroundings>,
    ) -> (r: (Vec<Op>, Action))
        requires
            old(self).wf(),
            s.connected == texts(connected@),
            s.now == now,
        ensures
            final(self).wf(),
            (Outcome { pipeline: final(self)@, todo: views(r.0@), action: r.1@ }) == enter_in(
                old(self)@,
                uuid7@,
                s,
            ),
    {
        let state = match self.set_stage(uuid7, PipelineStage::InProcessing) {
            Some(state) => state,
            None => {
                return (no_ops(), Action::Next);
            },
        };
        let index = state.current_in_process_index;
        if index >= self.config.in_process_modules.len() {
            return (
                one_op(Op::Check { gate: Gate::PostProcess, uuid7: uuid7.to_owned() }),
                Action::Next,
            );
        }
        let mut names: Vec<String> = Vec::new();
        names.push(self.config.in_process_modules[index].clone());
        assert(texts(names@) =~= seq![self@.config.in_process_modules[index as int]]);
        let message = MessageInProcess {
            message_uuid7: uuid7.to_owned(),
            raw_message: Some(chat_from(&state, false)),
            processed_message: state.processed_message.clone(),
            abandon_message: false,
            audio: Vec::new(),
            audio_type: String::new(),
        };
        assert(message.audio@ =~= Seq::empty());
        let to = keep_connected(&names, connected);
        self.ask_all(uuid7, "in_process", &to, now);
        (no_ops(), Action::Send { payload: Payload::MessageInProcess(message), to })
    }

    fn start_post_process(
        &mut self,
        uuid7: &str,
        connected: &Vec<String>,
        now: u64,
        Ghost(s): Ghost<Surroundings>,
    ) -> (r: (Vec<Op>, Action))
        requires
            old(self).wf(),
            s.connected == texts(connected@),
            s.now == now,
        ensures
            final(self).wf(),
            (Outcome { pipeline: final(self)@, todo: views(r.0@), action: r.1@ }) == enter_post(
                old(self)@,
                uuid7@,
                s,
            ),
    {
        let state = match self.set_stage(uuid7, PipelineStage::PostProcessing) {
            Some(state) => state,
            None => {
                return (no_ops(), Action::Next);
            },
        };
        let silent = same(state.audio_stage.as_str(), "post") || state.audio.len() == 0;
        let message = MessagePostProcess {
            message_uuid7: uuid7.to_owned(),
            raw_message: Some(chat_from(&state, false)),
            processed_message: state.processed_message.clone(),
            audio: if silent {
                Vec::new()
            } else {
                clone_bytes(&state.audio)
            },
            audio_type: if silent {
                String::new()
            } else {
                state.audio_type.clone()
            },
        };
        assert(silent ==> message.audio@ =~= Seq::empty());
        let to = keep_connected(&self.config.post_process_modules, connected);
        self.ask_all(uuid7, "post_process", &to, now);
        let todo = if to.len() == 0 {
            one_op(Op::Check { gate: Gate::Complete, uuid7: uuid7.to_owned() })
        } else {
            no_ops()
        };
        (todo, Action::Send { payload: Payload::MessagePostProcess(message), to })
    }

    fn mark_complete(&self, uuid7: &str) -> (r: Vec<Op>)
        ensures
            views(r@) == completion(self@, uuid7@),
    {
        let mut ops = no_ops();
        if let Some(state) = self.pipeline_states.get(uuid7) {
            ops = one_op(
                Op::Write(
                    DbOp::SetProcessed {
                        uuid7: uuid7.to_owned(),
                        processed: state.processed_message.clone(),
                    },
                ),
            );
        }
        let ghost first = views(ops@);
        ops.push(Op::Forget { uuid7: uuid7.to_owned() });
        ops.push(
            Op::Write(
                DbOp::StageCompleted { uuid7: uuid7.to_owned(), stage: "post_process".to_owned() },
            ),
        );
        ops.push(
            Op::Write(
                DbOp::StageCompleted { uuid7: uuid7.to_owned(), stage: "persisted".to_owned() },
            ),
        );
        ops.push(
            Op::Write(
                DbOp::SetStatus { uuid7: uuid7.to_owned(), status: "complete".to_owned() },
            ),
        );
        ops.push(Op::DropAcks { uuid7: uuid7.to_owned() });
        assert(views(ops@) =~= completion(self@, uuid7@));
        ops
    }

    /// Takes a module's answer.
    fn take_ack(&mut self, uuid7: &str, Ghost(s): Ghost<Surroundings>) -> (r: (Vec<Op>, Action))
        requires
            old(self).wf(),
        ensures
            final(self).wf(),
            (Outcome { pipeline: final(self)@, todo: views(r.0@), action: r.1@ }) == run(
                old(self)@,
                OpView::Ack { uuid7: uuid7@ },
                s,
            ),
    {
        proof {
            law_pipeline_stays_ok(self@, OpView::Ack { uuid7: uuid7@ }, s);
        }
        let acks = self.ack_tracker.ack(uuid7);
        if acks.len() == 0 {
            return (no_ops(), Action::Next);
        }
        let count = self.config.in_process_modules.len();
        assert(views(acks@)[0] == acks@[0]@);
        (stage_ops(uuid7, acks[0].stage.as_str(), count), Action::Next)
    }

    /// Moves a message to the next in-process module.
    fn advance(
        &mut self,
        uuid7: &str,
        in_count: usize,
        Ghost(s): Ghost<Surroundings>,
    ) -> (r: (Vec<Op>, Action))
        requires
            old(self).wf(),
        ensures
            final(self).wf(),
            (Outcome { pipeline: final(self)@, todo: views(r.0@), action: r.1@ }) == run(
                old(self)@,
                OpView::Advance { uuid7: uuid7@, in_count },
                s,
            ),
    {
        let ghost before = self.pipeline_states@;
        let next: usize;
        match self.pipeline_states.get_mut(uuid7) {
            Some(state) => {
                next = if state.current_in_process_index < usize::MAX {
                    state.current_in_process_index + 1
                } else {
                    state.current_in_process_index
                };
                state.current_in_process_index = next;
                proof {
                    lemma_state_views(before, uuid7@, *state);
                }
            },
            None => {
                return (no_ops(), Action::Next);
            },
        }
        let gate = if next >= in_count {
            Gate::PostProcess
        } else {
            Gate::InProcess
        };
        (one_op(Op::Check { gate, uuid7: uuid7.to_owned() }), Action::Next)
    }

    /// Keeps the text that a module made of a message.
    fn note(&mut self, uuid7: &str, processed: String)
        requires
            old(self).wf(),
        ensures
            final(self).wf(),
            forall|s: Surroundings|
                quiet(final(self)@) == #[trigger] run(
                    old(self)@,
                    OpView::Note { uuid7: uuid7@, processed: processed@ },
                    s,
                ),
    {
        let ghost before = self.pipeline_states@;
        if let Some(state) = self.pipeline_states.get_mut(uuid7) {
            state.processed_message = processed;
            proof {
                lemma_state_views(before, uuid7@, *state);
            }
        }
    }

    /// Keeps the audio that a module attached to a message.
    fn store_audio(
        &mut self,
        uuid7: String,
        stage: String,
        audio_type: String,
        audio: Vec<u8>,
        Ghost(s): Ghost<Surroundings>,
    ) -> (r: (Vec<Op>, Action))
        requires
            old(self).wf(),
        ensures
            final(self).wf(),
            (Outcome { pipeline: final(self)@, todo: views(r.0@), action: r.1@ }) == run(
                old(self)@,
                OpView::StoreAudio {
                    uuid7: uuid7@,
                    stage: stage@,
                    audio_type: audio_type@,
                    audio: audio@,
                },
                s,
            ),
    {
        if audio.len() == 0 {
            return (no_ops(), Action::Next);
        }
        let mime = if audio_type.as_str().unicode_len() == 0 {
            "audio/mpeg".to_owned()
        } else {
            audio_type
        };
        let ghost before = self.pipeline_states@;
        if let Some(state) = self.pipeline_states.get_mut(uuid7.as_str()) {
            state.audio = clone_bytes(&audio);
            state.audio_type = mime.clone();
            state.audio_stage = stage;
            proof {
                lemma_state_views(before, uuid7@, *state);
            }
        }
        (no_ops(), Action::Write(DbOp::SetAudio { uuid7, audio_type: mime, audio }))
    }

    /// Drops a message from the pipeline.
    fn forget(&mut self, uuid7: &str)
        requires
            old(self).wf(),
        ensures
            final(self).wf(),
            final(self)@ == (PipelineView {
                states: old(self)@.states.remove(uuid7@),
                ..old(self)@
            }),
    {
        let ghost before = self.pipeline_states@;
        self.pipeline_states.remove(uuid7);
        proof {
            assert(state_views(before.remove(uuid7@)) =~= state_views(before).remove(uuid7@));
        }
    }

    /// Does one piece of work.
    fn work(
        &mut self,
        op: Op,
        audited: bool,
        connected: &Vec<String>,
        registry: &CommandRegistry,
        now: u64,
    ) -> (r: (Vec<Op>, Action))
        requires
            old(self).wf(),
            registry.wf(),
        ensures
            final(self).wf(),
            (Outcome { pipeline: final(self)@, todo: views(r.0@), action: r.1@ }) == run(
                old(self)@,
                op@,
                surroundings(audited, connected, registry, now),
            ),
    {
        let ghost s = surroundings(audited, connected, registry, now);
        proof {
            law_pipeline_stays_ok(self@, op@, s);
        }
        match op {
            Op::Write(w) => (no_ops(), Action::Write(w)),
            Op::Admit(state) => {
                let ghost before = self.pipeline_states@;
                let key = state.uuid7.clone();
                proof {
                    lemma_state_views(before, state.uuid7@, state);
                }
                self.pipeline_states.insert(key, state);
                (no_ops(), Action::Next)
            },
            Op::Broadcast { uuid7 } => self.broadcast_pre_process(
                uuid7.as_str(),
                connected,
                registry,
                now,
                Ghost(audited),
            ),
            Op::Note { uuid7, processed } => {
                let ghost before = self@;
                self.note(uuid7.as_str(), processed);
                assert(quiet(self@) == run(before, op@, s));
                (no_ops(), Action::Next)
            },
            Op::StoreAudio { uuid7, stage, audio_type, audio } => self.store_audio(
                uuid7,
                stage,
                audio_type,
                audio,
                Ghost(s),
            ),
            Op::Ack { uuid7 } => self.take_ack(uuid7.as_str(), Ghost(s)),
            Op::Advance { uuid7, in_count } => self.advance(uuid7.as_str(), in_count, Ghost(s)),
            Op::Check { gate, uuid7 } => {
                let asked_for = uuid7.clone();
                (one_op(Op::Pass { gate, uuid7 }), Action::AskAudited { uuid7: asked_for })
            },
            Op::Pass { gate, uuid7 } => {
                if audited {
                    (no_ops(), Action::Next)
                } else {
                    match gate {
                        Gate::InProcess => self.start_in_process(
                            uuid7.as_str(),
                            connected,
                            now,
                            Ghost(s),
                        ),
                        Gate::PostProcess => self.start_post_process(
                            uuid7.as_str(),
                            connected,
                            now,
                            Ghost(s),
                        ),
                        Gate::Complete => (self.mark_complete(uuid7.as_str()), Action::Next),
                    }
                }
            },
            Op::Forget { uuid7 } => {
                self.forget(uuid7.as_str());
                (no_ops(), Action::Next)
            },
            Op::DropAcks { uuid7 } => {
                let dropped = self.ack_tracker.ack(uuid7.as_str());
                (no_ops(), Action::Next)
            },
            Op::Timeout { ack, critical, in_count } => {
                if critical {
                    let mut error = "Critical module '".to_owned();
                    error.append(ack.module_name.as_str());
                    error.append("' timed out at stage '");
                    error.append(ack.stage.as_str());
                    error.append("'");
                    assert(error@ =~= critical_error(ack@));
                    (one_op(Op::Fail { uuid7: ack.uuid7, error }), Action::Next)
                } else if self.ack_tracker.has_pending(ack.uuid7.as_str()) {
                    (no_ops(), Action::Next)
                } else {
                    (stage_ops(ack.uuid7.as_str(), ack.stage.as_str(), in_count), Action::Next)
                }
            },
            Op::Fail { uuid7, error } => {
                self.forget(uuid7.as_str());
                let again = uuid7.clone();
                (
                    two_ops(
                        Op::Write(DbOp::SetError { uuid7, error }),
                        Op::DropAcks { uuid7: again },
                    ),
                    Action::Next,
                )
            },
        }
    }

    /// Does the first piece of work of a task. `now` is in nanoseconds of a clock that never
    /// goes back.
    pub fn step(
        &mut self,
        task: &mut Task,
        audited: bool,
        connected: &Vec<String>,
        registry: &CommandRegistry,
        now: u64,
    ) -> (action: Action)
        requires
            old(self).wf(),
            registry.wf(),
        ensures
            final(self).wf(),
            (Outcome { pipeline: final(self)@, todo: final(task)@, action: action@ }) == stepped(
                old(self)@,
                old(task)@,
                surroundings(audited, connected, registry, now),
            ),
    {
        if task.ops.len() == 0 {
            return Action::Done;
        }
        let ghost before = task.ops@;
        let op = task.ops.remove(0);
        assert(task@ =~= views(before).drop_first());
        let (mut todo, action) = self.work(op, audited, connected, registry, now);
        let ghost first = views(todo@);
        let ghost rest = task@;
        todo.append(&mut task.ops);
        assert(views(todo@) =~= first + rest);
        task.ops = todo;
        action
    }
}

/// The state of a message that just entered.
pub open spec fn first_state(msg: PipelineMessageView) -> PipelineStateView {
    PipelineStateView {
        uuid7: msg.uuid7,
        stage: PipelineStage::PreProcessing,
        current_in_process_index: 0,
        raw_message: msg.raw_message,
        processed_message: msg.raw_message,
        platform: msg.platform,
        event_type: msg.event_type,
        command: msg.command,
        flags: msg.flags,
        parsed_command: msg.parsed_command,
        channel_id: msg.channel_id,
        user_uuid7: msg.user_uuid7,
        user_data: msg.user_data,
        audio: Seq::empty(),
        audio_type: Seq::empty(),
        audio_stage: Seq::empty(),
    }
}

/// A text, or another where there is none.
pub open spec fn text_or(t: Option<Seq<char>>, otherwise: Seq<char>) -> Seq<char> {
    match t {
        Some(x) => x,
        None => otherwise,
    }
}

/// The work that a new message causes.
pub open spec fn entry_ops(msg: PipelineMessageView) -> Seq<OpView> {
    seq![
        OpView::Write(
            DbOpView::InsertEvent {
                uuid7: msg.uuid7,
                event_type: msg.event_type,
                platform: msg.platform,
                raw_message: msg.raw_message,
                command: text_or(msg.command, ""@),
                flags: text_or(msg.flags, "{}"@),
            },
        ),
    ] + (match msg.command {
        Some(command) => seq![OpView::Write(DbOpView::SetCommand { uuid7: msg.uuid7, command })],
        None => Seq::empty(),
    }) + (if msg.user_uuid7.len() > 0 {
        seq![
            OpView::Write(
                DbOpView::SetUserUuid { uuid7: msg.uuid7, user_uuid7: msg.user_uuid7 },
            ),
        ]
    } else {
        Seq::empty()
    }) + seq![
        OpView::Admit(first_state(msg)),
        OpView::Write(DbOpView::SetStatus { uuid7: msg.uuid7, status: "processing"@ }),
        OpView::Broadcast { uuid7: msg.uuid7 },
    ]
}

/// The message that a chat message becomes.
pub open spec fn ingested(chat: ChatMessageView, uuid7: Seq<char>) -> PipelineMessageView {
    PipelineMessageView {
        uuid7,
        raw_message: chat.raw_message,
        platform: chat.platform,
        event_type: 1,
        command: None,
        flags: None,
        parsed_command: chat.command,
        channel_id: chat.channel_id,
        user_uuid7: chat.user_uuid7,
        user_data: chat.user_data,
    }
}

/// The work that a module's reply causes: its text and its audio are kept, then it counts
/// as an answer.
pub open spec fn reply_ops(
    uuid7: Seq<char>,
    stage: Seq<char>,
    processed: Seq<char>,
    audio_type: Seq<char>,
    audio: Seq<u8>,
) -> Seq<OpView> {
    seq![
        OpView::Note { uuid7, processed },
        OpView::Write(DbOpView::SetProcessed { uuid7, processed }),
        OpView::StoreAudio { uuid7, stage, audio_type, audio },
        OpView::Ack { uuid7 },
    ]
}

/// The work that a module's message causes, or `None` where it is not for the pipeline. A
/// new message gets the id `fresh`.
pub open spec fn message_ops(payload: Option<PayloadView>, fresh: Seq<char>) -> Option<
    Seq<OpView>,
> {
    match payload {
        Some(PayloadView::MessagePreProcess(m)) => Some(
            if m.message_uuid7.len() == 0 {
                match m.raw_message {
                    Some(chat) => entry_ops(ingested(chat, fresh)),
                    None => Seq::empty(),
                }
            } else {
                reply_ops(
                    m.message_uuid7,
                    "pre"@,
                    match m.raw_message {
                        Some(chat) => chat.raw_message,
                        None => Seq::empty(),
                    },
                    m.audio_type,
                    m.audio,
                )
            },
        ),
        Some(PayloadView::MessageInProcess(m)) => Some(
            if m.message_uuid7.len() == 0 {
                Seq::empty()
            } else {
                reply_ops(m.message_uuid7, "in"@, m.processed_message, m.audio_type, m.audio)
            },
        ),
        Some(PayloadView::MessagePostProcess(m)) => Some(
            if m.message_uuid7.len() == 0 {
                Seq::empty()
            } else {
                reply_ops(m.message_uuid7, "post"@, m.processed_message, m.audio_type, m.audio)
            },
        ),
        Some(PayloadView::MessageAck(m)) => Some(
            if m.message_uuid7.len() == 0 {
                Seq::empty()
            } else {
                seq![OpView::Ack { uuid7: m.message_uuid7 }]
            },
        ),
        _ => None,
    }
}

/// The work that answers that did not come cause.
pub open spec fn timeout_ops(late: Seq<PendingAckView>, config: PipelineConfigView) -> Seq<OpView> {
    late.map_values(
        |ack: PendingAckView|
            OpView::Timeout {
                ack,
                critical: config.critical_modules.contains(ack.module_name),
                in_count: config.in_process_modules.len() as usize,
            },
    )
}

fn task_of(ops: Vec<Op>) -> (r: Task)
    ensures
        r@ == views(ops@),
{
    Task { ops }
}

/// The work that a module's reply causes.
fn reply_task(
    uuid7: &String,
    stage: &str,
    processed: String,
    audio_type: &String,
    audio: &Vec<u8>,
) -> (r: Task)
    ensures
        r@ == reply_ops(uuid7@, stage@, processed@, audio_type@, audio@),
{
    let mut ops = no_ops();
    ops.push(Op::Note { uuid7: uuid7.clone(), processed: processed.clone() });
    ops.push(Op::Write(DbOp::SetProcessed { uuid7: uuid7.clone(), processed }));
    ops.push(
        Op::StoreAudio {
            uuid7: uuid7.clone(),
            stage: stage.to_owned(),
            audio_type: audio_type.clone(),
            audio: clone_bytes(audio),
        },
    );
    ops.push(Op::Ack { uuid7: uuid7.clone() });
    assert(views(ops@) =~= reply_ops(uuid7@, stage@, processed@, audio_type@, audio@));
    task_of(ops)
}

impl PipelineOrchestrator {
    /// Begins the way of a new message.
    pub fn insert_and_start(&self, msg: PipelineMessage) -> (r: Task)
        ensures
            r@ == entry_ops(msg@),
    {
        let mut ops = no_ops();
        ops.push(
            Op::Write(
                DbOp::InsertEvent {
                    uuid7: msg.uuid7.clone(),
                    event_type: msg.event_type,
                    platform: msg.platform.clone(),
                    raw_message: msg.raw_message.clone(),
                    command: match &msg.command {
                        Some(c) => c.clone(),
                        None => "".to_owned(),
                    },
                    flags: match &msg.flags {
                        Some(f) => f.clone(),
                        None => "{}".to_owned(),
                    },
                },
            ),
        );
        if let Some(command) = &msg.command {
            ops.push(
                Op::Write(
                    DbOp::SetCommand { uuid7: msg.uuid7.clone(), command: command.clone() },
                ),
            );
        }
        if msg.user_uuid7.as_str().unicode_len() > 0 {
            ops.push(
                Op::Write(
                    DbOp::SetUserUuid {
                        uuid7: msg.uuid7.clone(),
                        user_uuid7: msg.user_uuid7.clone(),
                    },
                ),
            );
        }
        let state = PipelineState {
            uuid7: msg.uuid7.clone(),
            stage: PipelineStage::PreProcessing,
            current_in_process_index: 0,
            raw_message: msg.raw_message.clone(),
            processed_message: msg.raw_message.clone(),
            platform: msg.platform.clone(),
            event_type: msg.event_type,
            command: clone_opt(&msg.command),
            flags: clone_opt(&msg.flags),
            parsed_command: clone_opt(&msg.parsed_command),
            channel_id: msg.channel_id.clone(),
            user_uuid7: msg.user_uuid7.clone(),
            user_data: clone_opt(&msg.user_data),
            audio: Vec::new(),
            audio_type: String::new(),
            audio_stage: String::new(),
        };
        assert(state.audio@ =~= Seq::empty());
        ops.push(Op::Admit(state));
        ops.push(
            Op::Write(
                DbOp::SetStatus { uuid7: msg.uuid7.clone(), status: "processing".to_owned() },
            ),
        );
        ops.push(Op::Broadcast { uuid7: msg.uuid7.clone() });
        assert(views(ops@) =~= entry_ops(msg@));
        task_of(ops)
    }

    /// Takes a module's answer for a message.
    pub fn handle_ack(&self, uuid7: &str) -> (r: Task)
        ensures
            r@ == seq![OpView::Ack { uuid7: uuid7@ }],
    {
        task_of(one_op(Op::Ack { uuid7: uuid7.to_owned() }))
    }

    /// Deals with the answers that are overdue at `now`, in nanoseconds of the clock that
    /// [`PipelineOrchestrator::step`] is given.
    pub fn handle_timeout(&mut self, now: u64) -> (r: Task)
        requires
            old(self).wf(),
        ensures
            final(self).wf(),
            final(self)@ == (PipelineView {
                pending: not_overdue(old(self)@.pending, now),
                ..old(self)@
            }),
            r@ == timeout_ops(all_overdue(old(self)@.pending, now), old(self)@.config),
    {
        proof {
            crate::pipeline::law_timeouts_are_cleared(self@.pending, now, Seq::empty());
        }
        let ghost before = self@;
        let late = self.ack_tracker.check_timeouts(now);
        let in_count = self.config.in_process_modules.len();
        let ghost all = timeout_ops(views(late@), before.config);
        let mut ops = no_ops();
        let mut i: usize = 0;
        assert(all.take(0) =~= Seq::<OpView>::empty());
        while i < late.len()
            invariant
                i <= late@.len(),
                self@.config == before.config,
                in_count == before.config.in_process_modules.len(),
                all == timeout_ops(views(late@), before.config),
                views(ops@) == all.take(i as int),
            decreases late@.len() - i,
        {
            let ack = late[i].clone();
            let critical = name_listed(&self.config.critical_modules, ack.module_name.as_str());
            let ghost done = ops@;
            ops.push(Op::Timeout { ack, critical, in_count });
            assert(views(ops@) =~= views(done).push(all[i as int]));
            assert(all.take(i + 1) =~= all.take(i as int).push(all[i as int]));
            i = i + 1;
        }
        assert(all.take(i as int) =~= all);
        task_of(ops)
    }

    /// Takes a module's message; a new message gets the id `fresh`. Says whether the
    /// message was for the pipeline.
    pub fn handle_message_as(&self, container: &Container, fresh: String) -> (r: (bool, Task))
        ensures
            r.0 == message_ops(container@.payload, fresh@) is Some,
            r.1@ == (match message_ops(container@.payload, fresh@) {
                Some(ops) => ops,
                None => Seq::empty(),
            }),
    {
        match &container.payload {
            Some(Payload::MessagePreProcess(m)) => {
                if m.message_uuid7.as_str().unicode_len() == 0 {
                    match &m.raw_message {
                        Some(chat) => {
                            let msg = PipelineMessage {
                                uuid7: fresh,
                                raw_message: chat.raw_message.clone(),
                                platform: chat.platform.clone(),
                                event_type: 1,
                                command: None,
                                flags: None,
                                parsed_command: clone_opt(&chat.command),
                                channel_id: chat.channel_id.clone(),
                                user_uuid7: chat.user_uuid7.clone(),
                                user_data: clone_opt(&chat.user_data),
                            };
                            assert(msg@ =~= ingested(chat@, fresh@));
                            (true, self.insert_and_start(msg))
                        },
                        None => (true, task_of(no_ops())),
                    }
                } else {
                    let processed = match &m.raw_message {
                        Some(chat) => chat.raw_message.clone(),
                        None => String::new(),
                    };
                    (true, reply_task(&m.message_uuid7, "pre", processed, &m.audio_type, &m.audio))
                }
            },
            Some(Payload::MessageInProcess(m)) => {
                if m.message_uuid7.as_str().unicode_len() == 0 {
                    (true, task_of(no_ops()))
                } else {
                    (
                        true,
                        reply_task(
                            &m.message_uuid7,
                            "in",
                            m.processed_message.clone(),
                            &m.audio_type,
                            &m.audio,
                        ),
                    )
                }
            },
            Some(Payload::MessagePostProcess(m)) => {
                if m.message_uuid7.as_str().unicode_len() == 0 {
                    (true, task_of(no_ops()))
                } else {
                    (
                        true,
                        reply_task(
                            &m.message_uuid7,
                            "post",
                            m.processed_message.clone(),
                            &m.audio_type,
                            &m.audio,
                        ),
                    )
                }
            },
            Some(Payload::MessageAck(m)) => {
                if m.message_uuid7.as_str().unicode_len() == 0 {
                    (true, task_of(no_ops()))
                } else {
                    (true, self.handle_ack(m.message_uuid7.as_str()))
                }
            },
            _ => (false, task_of(no_ops())),
        }
    }

    /// Takes a module's message; a new message gets a fresh id. Says whether the message
    /// was for the pipeline.
    pub fn handle_message_from_module(&self, container: &Container) -> (r: (bool, Task))
        ensures
            exists|fresh: Seq<char>|
                #![trigger message_ops(container@.payload, fresh)]
                {
                    &&& crate::random::is_uuid_text(fresh, 7)
                    &&& r.0 == message_ops(container@.payload, fresh) is Some
                    &&& r.1@ == (match message_ops(container@.payload, fresh) {
                        Some(ops) => ops,
                        None => Seq::empty(),
                    })
                },
    {
        let fresh = crate::random::fresh_uuid7();
        self.handle_message_as(container, fresh)
    }
}

/// A message that is held for review passes no gate: nothing is sent, nothing changes and
/// nothing is left to do.
pub proof fn law_held_message_passes_no_gate(
    p: PipelineView,
    gate: Gate,
    uuid7: Seq<char>,
    s: Surroundings,
)
    requires
        s.audited,
    ensures
        run(p, OpView::Pass { gate, uuid7 }, s) == quiet(p),
{
}

/// Nothing passes a gate unasked: in-process and post-process modules are sent a message,
/// and it is completed, only where it was asked about and is not held.
pub proof fn law_only_gates_move_messages(p: PipelineView, op: OpView, s: Surroundings)
    ensures
        ({
            let o = run(p, op, s);
            &&& (o.action matches ActionView::Send { payload, .. } && !(payload is
                MessagePreProcess)) ==> op is Pass && !s.audited
            &&& (exists|uuid7: Seq<char>|
                o.todo.contains(
                    OpView::Write(DbOpView::SetStatus { uuid7, status: "complete"@ }),
                )) ==> op is Pass && !s.audited
        }),
{
    let o = run(p, op, s);
    if !(op is Pass) && exists|uuid7: Seq<char>|
        o.todo.contains(OpView::Write(DbOpView::SetStatus { uuid7, status: "complete"@ })) {
        let uuid7 = choose|uuid7: Seq<char>|
            o.todo.contains(OpView::Write(DbOpView::SetStatus { uuid7, status: "complete"@ }));
        let i = choose|i: int|
            0 <= i < o.todo.len() && o.todo[i] == OpView::Write(
                DbOpView::SetStatus { uuid7, status: "complete"@ },
            );
        assert(o.todo[i] is Write);
    }
}

proof fn lemma_only_connected(names: Seq<Seq<char>>, connected: Seq<Seq<char>>)
    ensures
        forall|i: int|
            0 <= i < only_connected(names, connected).len() ==> connected.contains(
                #[trigger] only_connected(names, connected)[i],
            ) && names.contains(only_connected(names, connected)[i]),
    decreases names.len(),
{
    if names.len() > 0 {
        let front = names.drop_last();
        lemma_only_connected(front, connected);
        let f = only_connected(front, connected);
        let all = only_connected(names, connected);
        assert forall|i: int| 0 <= i < all.len() implies connected.contains(#[trigger] all[i])
            && names.contains(all[i]) by {
            if i < f.len() {
                assert(all[i] == f[i]);
                let j = choose|j: int| 0 <= j < front.len() && front[j] == f[i];
                assert(names[j] == all[i]);
            } else {
                assert(names[names.len() - 1] == all[i]);
            }
        }
    }
}

/// The message that a piece of work is about.
pub open spec fn subject(op: OpView) -> Seq<char> {
    match op {
        OpView::Write(w) => Seq::empty(),
        OpView::Admit(state) => state.uuid7,
        OpView::Broadcast { uuid7 } => uuid7,
        OpView::Note { uuid7, .. } => uuid7,
        OpView::StoreAudio { uuid7, .. } => uuid7,
        OpView::Ack { uuid7 } => uuid7,
        OpView::Advance { uuid7, .. } => uuid7,
        OpView::Check { uuid7, .. } => uuid7,
        OpView::Pass { uuid7, .. } => uuid7,
        OpView::Forget { uuid7 } => uuid7,
        OpView::DropAcks { uuid7 } => uuid7,
        OpView::Timeout { ack, .. } => ack.uuid7,
        OpView::Fail { uuid7, .. } => uuid7,
    }
}

/// Messages go to connected modules only, and every module that is sent one owes an
/// answer for it.
pub proof fn law_every_delivery_is_owed(p: PipelineView, op: OpView, s: Surroundings)
    requires
        pipeline_ok(p),
    ensures
        (run(p, op, s).action matches ActionView::Send { payload, to } ==> {
            &&& owed(run(p, op, s).pipeline.pending, subject(op)).len() == owed(
                p.pending,
                subject(op),
            ).len() + to.len()
            &&& forall|i: int| 0 <= i < to.len() ==> s.connected.contains(#[trigger] to[i])
        }),
{
    let uuid7 = subject(op);
    let o = run(p, op, s);
    if let ActionView::Send { payload, to } = o.action {
        match op {
            OpView::Broadcast { .. } => {
                lemma_only_connected(recipients(p.states[uuid7], p.config, s), s.connected);
                lemma_asked_all(
                    p.pending,
                    uuid7,
                    "pre_process"@,
                    to,
                    p.config.ack_timeout_ms,
                    s.now,
                );
            },
            OpView::Pass { gate, .. } => {
                let i = p.states[uuid7].current_in_process_index;
                lemma_only_connected(seq![p.config.in_process_modules[i as int]], s.connected);
                lemma_only_connected(p.config.post_process_modules, s.connected);
                lemma_asked_all(
                    p.pending,
                    uuid7,
                    "in_process"@,
                    to,
                    p.config.ack_timeout_ms,
                    s.now,
                );
                lemma_asked_all(
                    p.pending,
                    uuid7,
                    "post_process"@,
                    to,
                    p.config.ack_timeout_ms,
                    s.now,
                );
            },
            _ => {},
        }
    }
}

/// Work for one message leaves the others as they are.
pub proof fn law_messages_do_not_interfere(
    p: PipelineView,
    op: OpView,
    s: Surroundings,
    other: Seq<char>,
)
    requires
        pipeline_ok(p),
        other != subject(op),
    ensures
        ({
            let q = run(p, op, s).pipeline;
            &&& q.states.dom().contains(other) == p.states.dom().contains(other)
            &&& p.states.dom().contains(other) ==> q.states[other] == p.states[other]
            &&& owed(q.pending, other) == owed(p.pending, other)
            &&& q.config == p.config
        }),
{
    let uuid7 = subject(op);
    match op {
        OpView::Broadcast { .. } => {
            if p.states.dom().contains(uuid7) {
                lemma_asked_all(
                    p.pending,
                    uuid7,
                    "pre_process"@,
                    only_connected(recipients(p.states[uuid7], p.config, s), s.connected),
                    p.config.ack_timeout_ms,
                    s.now,
                );
            }
        },
        OpView::Pass { .. } => {
            if p.states.dom().contains(uuid7) {
                let i = p.states[uuid7].current_in_process_index;
                lemma_asked_all(
                    p.pending,
                    uuid7,
                    "in_process"@,
                    only_connected(seq![p.config.in_process_modules[i as int]], s.connected),
                    p.config.ack_timeout_ms,
                    s.now,
                );
                lemma_asked_all(
                    p.pending,
                    uuid7,
                    "post_process"@,
                    only_connected(p.config.post_process_modules, s.connected),
                    p.config.ack_timeout_ms,
                    s.now,
                );
            }
        },
        OpView::Ack { .. } => {
            lemma_forgotten(p.pending, uuid7);
        },
        OpView::DropAcks { .. } => {
            lemma_forgotten(p.pending, uuid7);
        },
        _ => {},
    }
}

proof fn lemma_beside(names: Seq<Seq<char>>, others: Seq<Seq<char>>)
    ensures
        names.no_duplicates() ==> beside(names, others).no_duplicates(),
        forall|m: Seq<char>| #[trigger]
            beside(names, others).contains(m) == (names.contains(m) && !others.contains(m)),
    decreases names.len(),
{
    if names.len() > 0 {
        let front = names.drop_last();
        let last = names.last();
        let (f, all) = (beside(front, others), beside(names, others));
        lemma_beside(front, others);
        assert(names[names.len() - 1] == last);
        assert forall|m: Seq<char>| #[trigger]
            all.contains(m) == (names.contains(m) && !others.contains(m)) by {
            assert(f.contains(m) == (front.contains(m) && !others.contains(m)));
            if names.contains(m) && !others.contains(m) {
                let j = choose|j: int| 0 <= j < names.len() && names[j] == m;
                if j < front.len() {
                    assert(front[j] == m);
                    let i = choose|i: int| 0 <= i < f.len() && f[i] == m;
                    assert(all[i] == m);
                } else {
                    assert(all[f.len() as int] == m);
                }
            }
            if all.contains(m) {
                let i = choose|i: int| 0 <= i < all.len() && all[i] == m;
                if i < f.len() {
                    assert(f[i] == m);
                    let j = choose|j: int| 0 <= j < front.len() && front[j] == m;
                    assert(names[j] == m);
                }
            }
        }
        if names.no_duplicates() {
            assert(front.no_duplicates());
            assert forall|i: int, j: int|
                0 <= i < all.len() && 0 <= j < all.len() && i != j implies all[i] != all[j] by {
                if i < f.len() && j < f.len() {
                    assert(f[i] != f[j]);
                } else if i < f.len() {
                    assert(f.contains(f[i]));
                    let k = choose|k: int| 0 <= k < front.len() && front[k] == f[i];
                    assert(names[k] != last);
                } else {
                    assert(f.contains(f[j]));
                    let k = choose|k: int| 0 <= k < front.len() && front[k] == f[j];
                    assert(names[k] != last);
                }
            }
        }
    }
}

proof fn lemma_all_connected(names: Seq<Seq<char>>, connected: Seq<Seq<char>>)
    ensures
        forall|m: Seq<char>|
            names.contains(m) && connected.contains(m) ==> #[trigger] only_connected(
                names,
                connected,
            ).contains(m),
        names.no_duplicates() ==> only_connected(names, connected).no_duplicates(),
    decreases names.len(),
{
    if names.len() > 0 {
        let front = names.drop_last();
        let (f, all) = (only_connected(front, connected), only_connected(names, connected));
        lemma_all_connected(front, connected);
        lemma_only_connected(front, connected);
        assert forall|m: Seq<char>|
            names.contains(m) && connected.contains(m) implies #[trigger] all.contains(m) by {
            let j = choose|j: int| 0 <= j < names.len() && names[j] == m;
            if j < front.len() {
                assert(front[j] == m);
                assert(f.contains(m));
                let i = choose|i: int| 0 <= i < f.len() && f[i] == m;
                assert(all[i] == m);
            } else {
                assert(all[f.len() as int] == m);
            }
        }
        if names.no_duplicates() {
            assert(front.no_duplicates());
            assert forall|i: int, j: int|
                0 <= i < all.len() && 0 <= j < all.len() && i != j implies all[i] != all[j] by {
                let last = names[names.len() - 1];
                if i < f.len() && j < f.len() {
                    assert(f[i] != f[j]);
                } else if i < f.len() {
                    let k = choose|k: int| 0 <= k < front.len() && front[k] == f[i];
                    assert(names[k] != last);
                } else {
                    let k = choose|k: int| 0 <= k < front.len() && front[k] == f[j];
                    assert(names[k] != last);
                }
            }
        }
    }
}

/// A new message goes to the connected modules that it is for, and to no other: the
/// catch-alls, and beside them the owner of its command, or the pre-process modules where it
/// is no command. It goes to each of them once, unless a pre-process module is listed more
/// than once. Each time it goes out, an answer is owed.
pub proof fn law_message_goes_to_its_modules_and_catch_alls(
    p: PipelineView,
    uuid7: Seq<char>,
    s: Surroundings,
    module: Seq<char>,
)
    requires
        p.states.dom().contains(uuid7),
    ensures
        ({
            let state = p.states[uuid7];
            let o = run(p, OpView::Broadcast { uuid7 }, s);
            &&& o.action matches ActionView::Send { payload, to }
            &&& payload == pre_payload(uuid7, state)
            &&& to.contains(module) == (s.connected.contains(module) && (catch_all_names(
                s.registrations,
            ).contains(module) || (match state.parsed_command {
                Some(c) => s.index.dom().contains((c.command_flag, c.command_name))
                    && s.index[(c.command_flag, c.command_name)] == module,
                None => p.config.pre_process_modules.contains(module),
            })))
            &&& (state.parsed_command is Some || p.config.pre_process_modules.no_duplicates())
                && catch_all_names(s.registrations).no_duplicates() ==> to.no_duplicates()
            &&& o.pipeline.pending == asked_all(
                p.pending,
                uuid7,
                "pre_process"@,
                to,
                p.config.ack_timeout_ms,
                s.now,
            )
        }),
{
    let own = addressed(p.states[uuid7], p.config, s);
    let others = catch_all_names(s.registrations);
    let rest = beside(others, own);
    let names = recipients(p.states[uuid7], p.config, s);
    let to = only_connected(names, s.connected);
    lemma_beside(others, own);
    lemma_only_connected(names, s.connected);
    lemma_all_connected(names, s.connected);
    assert(names == own + rest);
    assert(rest.contains(module) == (others.contains(module) && !own.contains(module)));
    assert(names.contains(module) == (own.contains(module) || rest.contains(module))) by {
        if own.contains(module) {
            let i = choose|i: int| 0 <= i < own.len() && own[i] == module;
            assert(names[i] == module);
        }
        if rest.contains(module) {
            let i = choose|i: int| 0 <= i < rest.len() && rest[i] == module;
            assert(names[own.len() + i] == module);
        }
        if names.contains(module) {
            let i = choose|i: int| 0 <= i < names.len() && names[i] == module;
            if i >= own.len() {
                assert(rest[i - own.len()] == module);
            }
        }
    }
    if own.no_duplicates() && others.no_duplicates() {
        assert forall|i: int, j: int|
            0 <= i < names.len() && 0 <= j < names.len() && i != j implies names[i]
            != names[j] by {
            if i < own.len() && j >= own.len() {
                assert(rest.contains(rest[j - own.len()]));
                assert(own.contains(own[i]));
            } else if j < own.len() && i >= own.len() {
                assert(rest.contains(rest[i - own.len()]));
                assert(own.contains(own[j]));
            } else if i >= own.len() {
                assert(rest[i - own.len()] != rest[j - own.len()]);
            }
        }
    }
    if to.contains(module) {
        let i = choose|i: int| 0 <= i < to.len() && to[i] == module;
        assert(names.contains(to[i]));
    }
    if let Some(c) = p.states[uuid7].parsed_command {
        let key = (c.command_flag, c.command_name);
        if s.index.dom().contains(key) && s.index[key] == module {
            assert(own[0] == module);
        }
    }
}

/// Audio that a post-process module made is kept, and sent to no module.
pub proof fn law_post_audio_is_not_sent(p: PipelineView, uuid7: Seq<char>, s: Surroundings)
    requires
        p.states.dom().contains(uuid7),
        p.states[uuid7].audio_stage == "post"@,
    ensures
        (run(p, OpView::Pass { gate: Gate::PostProcess, uuid7 }, s).action
            matches ActionView::Send { payload, .. } ==> payload
            matches PayloadView::MessagePostProcess(m) && m.audio.len() == 0),
{
}

/// A message that no connected module takes at the end completes at once.
pub proof fn law_completes_without_displays(p: PipelineView, uuid7: Seq<char>, s: Surroundings)
    requires
        !s.audited,
        p.states.dom().contains(uuid7),
        forall|i: int|
            0 <= i < p.config.post_process_modules.len() ==> !s.connected.contains(
                #[trigger] p.config.post_process_modules[i],
            ),
    ensures
        run(p, OpView::Pass { gate: Gate::PostProcess, uuid7 }, s).todo == seq![
            OpView::Check { gate: Gate::Complete, uuid7 },
        ],
{
    lemma_only_connected(p.config.post_process_modules, s.connected);
    let to = only_connected(p.config.post_process_modules, s.connected);
    if to.len() > 0 {
        assert(s.connected.contains(to[0]));
        let j = choose|j: int|
            0 <= j < p.config.post_process_modules.len() && p.config.post_process_modules[j]
                == to[0];
        assert(!s.connected.contains(p.config.post_process_modules[j]));
    }
}

/// The pipeline after some pieces of work, one after the other.
pub open spec fn run_all(p: PipelineView, ops: Seq<OpView>, s: Surroundings) -> PipelineView
    decreases ops.len(),
{
    if ops.len() == 0 {
        p
    } else {
        run_all(run(p, ops[0], s).pipeline, ops.drop_first(), s)
    }
}

/// Completing a message leaves no trace of it: it is out of the pipeline and no answer is
/// owed for it.
pub proof fn law_completion_clears_message(p: PipelineView, uuid7: Seq<char>, s: Surroundings)
    requires
        pipeline_ok(p),
    ensures
        ({
            let q = run_all(p, completion(p, uuid7), s);
            &&& !q.states.dom().contains(uuid7)
            &&& owed(q.pending, uuid7).len() == 0
        }),
{
    reveal_with_fuel(run_all, 7);
    let tail = seq![
        OpView::Forget { uuid7 },
        OpView::Write(DbOpView::StageCompleted { uuid7, stage: "post_process"@ }),
        OpView::Write(DbOpView::StageCompleted { uuid7, stage: "persisted"@ }),
        OpView::Write(DbOpView::SetStatus { uuid7, status: "complete"@ }),
        OpView::DropAcks { uuid7 },
    ];
    let all = completion(p, uuid7);
    if p.states.dom().contains(uuid7) {
        assert(all.drop_first() =~= tail);
        assert(all[0] is Write);
        assert(run_all(p, all, s) == run_all(p, tail, s));
    } else {
        assert(all =~= tail);
    }
    let q = PipelineView { states: p.states.remove(uuid7), ..p };
    assert(tail[0] == OpView::Forget { uuid7 });
    let t1 = tail.drop_first();
    let t2 = t1.drop_first();
    let t3 = t2.drop_first();
    let t4 = t3.drop_first();
    let t5 = t4.drop_first();
    assert(t1[0] is Write && t2[0] is Write && t3[0] is Write);
    assert(t4[0] == OpView::DropAcks { uuid7 });
    assert(t5.len() == 0);
    assert(run_all(p, tail, s) == PipelineView { pending: without(q.pending, uuid7), ..q });
    lemma_forgotten(p.pending, uuid7);
}

/// Giving a message up leaves no trace of it either, and records why.
pub proof fn law_failure_clears_message(
    p: PipelineView,
    uuid7: Seq<char>,
    error: Seq<char>,
    s: Surroundings,
)
    requires
        pipeline_ok(p),
    ensures
        ({
            let o = run(p, OpView::Fail { uuid7, error }, s);
            let q = run_all(o.pipeline, o.todo, s);
            &&& o.todo[0] == OpView::Write(DbOpView::SetError { uuid7, error })
            &&& !q.states.dom().contains(uuid7)
            &&& owed(q.pending, uuid7).len() == 0
        }),
{
    reveal_with_fuel(run_all, 4);
    let o = run(p, OpView::Fail { uuid7, error }, s);
    let t1 = o.todo.drop_first();
    assert(t1[0] == OpView::DropAcks { uuid7 });
    assert(t1.drop_first().len() == 0);
    lemma_forgotten(p.pending, uuid7);
}

/// A critical module that does not answer fails the message.
pub proof fn law_critical_timeout_fails_message(
    p: PipelineView,
    late: Seq<PendingAckView>,
    i: int,
    s: Surroundings,
)
    requires
        0 <= i < late.len(),
        p.config.critical_modules.contains(late[i].module_name),
    ensures
        run(p, timeout_ops(late, p.config)[i], s).todo == seq![
            OpView::Fail { uuid7: late[i].uuid7, error: critical_error(late[i]) },
        ],
{
}

/// The first answer for a message closes its stage; a second one changes nothing.
pub proof fn law_second_answer_is_ignored(p: PipelineView, uuid7: Seq<char>, s: Surroundings)
    requires
        pipeline_ok(p),
    ensures
        ({
            let q = run(p, OpView::Ack { uuid7 }, s).pipeline;
            &&& owed(q.pending, uuid7).len() == 0
            &&& run(q, OpView::Ack { uuid7 }, s) == quiet(q)
        }),
{
    lemma_forgotten(p.pending, uuid7);
    let q = run(p, OpView::Ack { uuid7 }, s).pipeline;
    lemma_forgotten(q.pending, uuid7);
    crate::strmap::lemma_position(p.pending, uuid7);
    assert(!crate::strmap::has_key(q.pending, uuid7)) by {
        crate::strmap::lemma_without(p.pending, uuid7);
        assert(!crate::strmap::as_map(q.pending).dom().contains(uuid7));
    }
}

/// How much work a piece of work can still bring, itself included.
pub open spec fn weight(op: OpView) -> nat {
    match op {
        OpView::StoreAudio { .. } => 1,
        OpView::Pass { gate: Gate::Complete, .. } => 7,
        OpView::Check { gate: Gate::Complete, .. } => 8,
        OpView::Pass { gate: Gate::PostProcess, .. } => 9,
        OpView::Check { gate: Gate::PostProcess, .. } => 10,
        OpView::Pass { gate: Gate::InProcess, .. } => 11,
        OpView::Check { gate: Gate::InProcess, .. } => 12,
        OpView::Advance { .. } => 13,
        OpView::Ack { .. } => 15,
        OpView::Fail { .. } => 3,
        OpView::Timeout { .. } => 15,
        _ => 1,
    }
}

/// The weight of a task.
pub open spec fn total_weight(ops: Seq<OpView>) -> nat
    decreases ops.len(),
{
    if ops.len() == 0 {
        0
    } else {
        weight(ops[0]) + total_weight(ops.drop_first())
    }
}

proof fn lemma_total_weight(a: Seq<OpView>, b: Seq<OpView>)
    ensures
        total_weight(a + b) == total_weight(a) + total_weight(b),
    decreases a.len(),
{
    if a.len() == 0 {
        assert(a + b =~= b);
    } else {
        assert((a + b).drop_first() =~= a.drop_first() + b);
        lemma_total_weight(a.drop_first(), b);
    }
}

proof fn lemma_weight_one(a: OpView)
    ensures
        total_weight(seq![a]) == weight(a),
{
    assert(seq![a].drop_first() =~= Seq::<OpView>::empty());
    assert(total_weight(seq![a].drop_first()) == 0);
}

proof fn lemma_weight_two(a: OpView, b: OpView)
    ensures
        total_weight(seq![a, b]) == weight(a) + weight(b),
{
    assert(seq![a, b] =~= seq![a] + seq![b]);
    lemma_weight_one(a);
    lemma_weight_one(b);
    lemma_total_weight(seq![a], seq![b]);
}

proof fn lemma_weight_light(ops: Seq<OpView>)
    requires
        forall|i: int| 0 <= i < ops.len() ==> weight(#[trigger] ops[i]) == 1,
    ensures
        total_weight(ops) == ops.len(),
    decreases ops.len(),
{
    if ops.len() > 0 {
        assert(weight(ops[0]) == 1);
        assert forall|i: int| 0 <= i < ops.drop_first().len() implies weight(
            #[trigger] ops.drop_first()[i],
        ) == 1 by {
            assert(ops.drop_first()[i] == ops[i + 1]);
        }
        lemma_weight_light(ops.drop_first());
    }
}

proof fn lemma_after_stage_weight(uuid7: Seq<char>, stage: Seq<char>, in_count: usize)
    ensures
        total_weight(after_stage(uuid7, stage, in_count)) <= 14,
{
    let done_pre = OpView::Write(DbOpView::StageCompleted { uuid7, stage: "pre_process"@ });
    let done_in = OpView::Write(DbOpView::StageCompleted { uuid7, stage: "in_process"@ });
    lemma_weight_two(done_pre, OpView::Check { gate: Gate::InProcess, uuid7 });
    lemma_weight_two(done_in, OpView::Advance { uuid7, in_count });
    lemma_weight_one(OpView::Check { gate: Gate::Complete, uuid7 });
}

/// Every step makes a task lighter, so every event is dealt with in finitely many steps.
pub proof fn law_tasks_end(p: PipelineView, task: Seq<OpView>, s: Surroundings)
    requires
        task.len() > 0,
    ensures
        total_weight(stepped(p, task, s).todo) < total_weight(task),
{
    let o = run(p, task[0], s);
    lemma_total_weight(o.todo, task.drop_first());
    assert(total_weight(o.todo) < weight(task[0])) by {
        match task[0] {
            OpView::Ack { uuid7 } => {
                let acks = owed(p.pending, uuid7);
                lemma_after_stage_weight(
                    uuid7,
                    acks[0].stage,
                    p.config.in_process_modules.len() as usize,
                );
            },
            OpView::Timeout { ack, critical, in_count } => {
                lemma_after_stage_weight(ack.uuid7, ack.stage, in_count);
                lemma_weight_one(OpView::Fail { uuid7: ack.uuid7, error: critical_error(ack) });
            },
            OpView::Advance { uuid7, .. } => {
                lemma_weight_one(OpView::Check { gate: Gate::PostProcess, uuid7 });
                lemma_weight_one(OpView::Check { gate: Gate::InProcess, uuid7 });
            },
            OpView::Check { gate, uuid7 } => {
                lemma_weight_one(OpView::Pass { gate, uuid7 });
            },
            OpView::Pass { gate, uuid7 } => {
                lemma_weight_one(OpView::Check { gate: Gate::PostProcess, uuid7 });
                lemma_weight_one(OpView::Check { gate: Gate::Complete, uuid7 });
                lemma_weight_light(completion(p, uuid7));
            },
            OpView::Fail { uuid7, error } => {
                lemma_weight_two(
                    OpView::Write(DbOpView::SetError { uuid7, error }),
                    OpView::DropAcks { uuid7 },
                );
            },
            _ => {},
        }
    }
}

} // verus!
