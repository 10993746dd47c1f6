//! What operations change and what they leave: sessions, questions, logs and the pipeline.
use crate::auth::{AuthSession, AuthStore};
use crate::chat_commands::handle_command_on_ingest;
use crate::command_registry::CommandRegistry;
use crate::connection::{authorize_at, disconnect, receive_at, reconnect, Peer, Route};
use crate::engine_state::{EngineState, TimelineDisplayEvent};
use crate::liveness::{probe_step, ProbeAction, ProbeActionView};
use crate::module_registry::{named, ModuleRegistryPersistence, RegisteredModule};
use crate::orchestrator::{Action, ActionView, Gate, OpView, PipelineOrchestrator, Task};
use crate::pipeline::{owed, AckTracker, PipelineConfig};
use crate::prompts::{others, PromptOutcome, PromptRoutes, PromptSink};
use crate::proto::{
    views, ChatMessage, Commands, ConnectionRequest, Container, PayloadView, Prompt,
};
use crate::text::texts;
use vstd::prelude::*;

verus! {

/// Activity is noted with its time and answers an open probe; nothing else about the session
/// changes, and no other session does.
pub proof fn law_activity_is_noted(
    store: &mut AuthStore,
    id: &str,
    now_ms: i64,
    other: Seq<char>,
)
    requires
        call_ensures(AuthStore::update_activity, (store, id, now_ms), ()),
    ensures
        final(store).sessions().dom() == old(store).sessions().dom(),
        old(store).sessions().dom().contains(id@) ==> final(store).sessions()[id@] == (AuthSession {
            last_activity_ms: now_ms,
            probe_deadline_ms: 0,
            ..old(store).sessions()[id@]
        }),
        other != id@ && old(store).sessions().dom().contains(other) ==> final(store).sessions()[other]
            == old(store).sessions()[other],
        final(store).secret() == old(store).secret(),
{
    assert(final(store).sessions().dom() =~= old(store).sessions().dom());
}

/// Whether a module is on this machine is noted as it is, and nothing else about the session
/// changes.
pub proof fn law_local_modules_are_noted(store: &mut AuthStore, id: &str, here: bool)
    requires
        old(store).sessions().dom().contains(id@),
        call_ensures(AuthStore::set_peer_loopback, (store, id, here), ()),
    ensures
        final(store).sessions()[id@] == (AuthSession {
            peer_loopback: here,
            ..old(store).sessions()[id@]
        }),
{
}

/// A module that did not answer counts as unresponsive and is owed no answer any more;
/// nothing else about the session changes.
pub proof fn law_silent_modules_are_noted(store: &mut AuthStore, id: &str)
    requires
        old(store).sessions().dom().contains(id@),
        call_ensures(AuthStore::mark_unresponsive, (store, id), ()),
    ensures
        final(store).sessions()[id@] == (AuthSession {
            unresponsive: true,
            probe_deadline_ms: 0,
            ..old(store).sessions()[id@]
        }),
{
}

/// A session that a new socket claims is bound to it, connected from then on and alive
/// again.
pub proof fn law_claimed_sessions_live_again(
    store: &mut AuthStore,
    id: &str,
    socket: u64,
    now_ms: i64,
)
    requires
        old(store).sessions().dom().contains(id@),
        call_ensures(AuthStore::claim_socket, (store, id, socket, now_ms), ()),
    ensures
        ({
            let s = final(store).sessions()[id@];
            &&& s.socket_token == socket
            &&& s.connected_at == Some(now_ms)
            &&& s.shutdown_at is None
            &&& s.last_activity_ms == now_ms
            &&& s.probe_deadline_ms == 0
            &&& !s.unresponsive
            &&& s.module_name == old(store).sessions()[id@].module_name
            &&& s.authenticated == old(store).sessions()[id@].authenticated
            &&& s.position == old(store).sessions()[id@].position
            &&& s.priority == old(store).sessions()[id@].priority
        }),
{
}

/// A socket takes down the session that is its own, and no other.
pub proof fn law_sockets_take_down_their_own(
    store: &mut AuthStore,
    id: &str,
    socket: u64,
    r: bool,
)
    requires
        call_ensures(AuthStore::remove_if_socket, (store, id, socket), r),
    ensures
        r <==> old(store).sessions().dom().contains(id@) && old(store).sessions()[id@].socket_token
            == socket,
        r ==> final(store).sessions() == old(store).sessions().remove(id@),
        !r ==> final(store).sessions() == old(store).sessions(),
{
}

/// A socket marks the session that is its own as shut down, and no other.
pub proof fn law_sockets_shut_down_their_own(
    store: &mut AuthStore,
    id: &str,
    at: i64,
    socket: u64,
)
    requires
        old(store).sessions().dom().contains(id@),
        call_ensures(AuthStore::set_shutdown_if_socket, (store, id, at, socket), ()),
    ensures
        old(store).sessions()[id@].socket_token == socket ==> final(store).sessions()[id@] == (
        AuthSession { shutdown_at: Some(at), ..old(store).sessions()[id@] }),
        old(store).sessions()[id@].socket_token != socket ==> final(store).sessions()
            == old(store).sessions(),
{
}

/// What a module sends counts as activity exactly where it is taken; what is not taken
/// changes nothing.
pub proof fn law_only_what_is_taken_counts(
    store: &mut AuthStore,
    c: &Container,
    now_secs: i64,
    now_ms: i64,
    r: bool,
)
    requires
        call_ensures(authorize_at, (store, c, now_secs, now_ms), r),
    ensures
        r ==> {
            &&& old(store).sessions().dom().contains(c@.module_instance_uuid7)
            &&& old(store).sessions()[c@.module_instance_uuid7].authenticated
            &&& final(store).sessions()[c@.module_instance_uuid7].last_activity_ms == now_ms
        },
        !r ==> final(store).sessions() == old(store).sessions(),
{
}

/// A container is routed only where it is taken.
pub proof fn law_only_what_is_taken_is_routed(
    store: &mut AuthStore,
    c: &Container,
    now_secs: i64,
    now_ms: i64,
    r: Option<Route>,
)
    requires
        call_ensures(receive_at, (store, c, now_secs, now_ms), r),
    ensures
        r is Some ==> {
            &&& old(store).sessions().dom().contains(c@.module_instance_uuid7)
            &&& old(store).sessions()[c@.module_instance_uuid7].authenticated
            &&& final(store).sessions()[c@.module_instance_uuid7].last_activity_ms == now_ms
        },
        r is None ==> final(store).sessions() == old(store).sessions(),
{
}

/// A connection that ends takes its own session with it, and nothing else.
pub proof fn law_connections_end(
    store: &mut AuthStore,
    id: &str,
    socket: u64,
    now_ms: i64,
    r: bool,
)
    requires
        call_ensures(disconnect, (store, id, socket, now_ms), r),
    ensures
        r <==> old(store).sessions().dom().contains(id@) && old(store).sessions()[id@].socket_token
            == socket,
        r ==> final(store).sessions() =~= old(store).sessions().remove(id@),
        !r ==> final(store).sessions() == old(store).sessions(),
{
}

/// A module that comes back has a session that is bound to its new socket and alive: its own
/// where it is still there, and otherwise a new one under the name, id and token it came
/// with.
pub proof fn law_returning_modules_have_a_session(
    store: &mut AuthStore,
    c: &Container,
    q: &ConnectionRequest,
    peer: Peer,
    now_ms: i64,
)
    requires
        call_ensures(reconnect, (store, c, q, peer, now_ms), ()),
    ensures
        ({
            let key = c@.module_instance_uuid7;
            let s = final(store).sessions()[key];
            &&& final(store).sessions().dom().contains(key)
            &&& s.socket_token == peer.socket_token
            &&& s.peer_loopback == peer.loopback
            &&& s.connected_at == Some(now_ms)
            &&& s.last_activity_ms == now_ms
            &&& s.shutdown_at is None
            &&& !s.unresponsive
            &&& old(store).sessions().dom().contains(key) ==> s.module_name
                == old(store).sessions()[key].module_name && s.authenticated
                == old(store).sessions()[key].authenticated
            &&& !old(store).sessions().dom().contains(key) ==> s.module_name@ == c@.module_name
                && s.instance_uuid7@ == key && s.auth_token@ == c@.auth_token && s.priority
                == q@.priority && s.authenticated
        }),
{
}

/// What a check on a module decides is noted in its session: that it is late, or when its
/// answer to the new probe is due.
pub proof fn law_checks_are_noted(
    store: &mut AuthStore,
    s: &AuthSession,
    interval: u64,
    response: u64,
    now_ms: i64,
    r: ProbeAction,
)
    requires
        old(store).sessions().dom().contains(s.instance_uuid7@),
        call_ensures(probe_step, (store, s, interval, response, now_ms), r),
    ensures
        ({
            let after = final(store).sessions()[s.instance_uuid7@];
            &&& r@ is Late ==> after.unresponsive && after.probe_deadline_ms == 0
            &&& r@ matches ProbeActionView::Probe { deadline_ms } ==> after.probe_deadline_ms
                == deadline_ms && after.last_probe_at_ms == now_ms
            &&& r@ is Quiet || r@ is OutOfRange ==> final(store).sessions()
                == old(store).sessions()
        }),
{
}

/// A question of the engine goes out, and its answer will be the engine's, where anybody is
/// connected; where nobody is, nothing is asked.
pub proof fn law_questions_go_out(
    routes: &mut PromptRoutes,
    prompt: &Prompt,
    connected: usize,
    r: Option<(Container, u64)>,
)
    requires
        call_ensures(PromptRoutes::ask, (routes, prompt, connected), r),
    ensures
        r is Some <==> connected > 0,
        r matches Some(p) ==> {
            &&& p.0@.payload == Some(PayloadView::Prompt(prompt@))
            &&& p.0@.module_name == "engine"@
            &&& final(routes)@ == old(routes)@.insert(
                prompt@.prompt_id_uuid7,
                PromptSink::Engine,
            )
        },
        r is None ==> final(routes)@ == old(routes)@,
{
}

/// A question that is closed is answered as the user answered, and timed out where nobody
/// did; its answer is waited for no longer, and any other still is.
pub proof fn law_questions_are_closed(
    routes: &mut PromptRoutes,
    id: &str,
    answer: Option<bool>,
    r: PromptOutcome,
    other: Seq<char>,
)
    requires
        call_ensures(PromptRoutes::close, (routes, id, answer), r),
    ensures
        answer matches Some(a) ==> r == PromptOutcome::Decided(a),
        answer is None ==> r == PromptOutcome::TimedOut,
        !final(routes)@.dom().contains(id@),
        other != id@ ==> final(routes)@.dom().contains(other) == old(routes)@.dom().contains(other),
        other != id@ && old(routes)@.dom().contains(other) ==> final(routes)@[other]
            == old(routes)@[other],
{
}

/// A module's question goes to the others, and its answer back to the module that asked.
pub proof fn law_questions_of_modules_go_to_the_others(
    routes: &mut PromptRoutes,
    c: &Container,
    prompt: &Prompt,
    from: &str,
    socket: u64,
    connected: &Vec<String>,
    r: (Container, Vec<String>),
)
    requires
        call_ensures(PromptRoutes::forward, (routes, c, prompt, from, socket, connected), r),
    ensures
        final(routes)@ == old(routes)@.insert(prompt@.prompt_id_uuid7, PromptSink::Module(socket)),
        r.0@.payload == c@.payload,
        forall|name: Seq<char>| #[trigger]
            texts(r.1@).contains(name) <==> name != from@ && texts(connected@).contains(name),
{
    assert forall|name: Seq<char>| #[trigger] texts(r.1@).contains(name) <==> (name != from@
        && texts(connected@).contains(name)) by {
        law_everybody_else_is_told(texts(connected@), from@, name);
    }
}

/// The others are everybody that is connected but the one that asks.
pub proof fn law_everybody_else_is_told(names: Seq<Seq<char>>, name: Seq<char>, x: Seq<char>)
    ensures
        others(names, name).contains(x) <==> x != name && names.contains(x),
    decreases names.len(),
{
    if names.len() > 0 {
        let rest = names.drop_last();
        law_everybody_else_is_told(rest, name, x);
        let front = others(rest, name);
        let all = others(names, name);
        if rest.contains(x) {
            let i = choose|i: int| 0 <= i < rest.len() && rest[i] == x;
            assert(names[i] == x);
        }
        if names.contains(x) {
            let i = choose|i: int| 0 <= i < names.len() && names[i] == x;
            if i < rest.len() {
                assert(rest[i] == x);
            }
        }
        if front.contains(x) {
            let i = choose|i: int| 0 <= i < front.len() && front[i] == x;
            assert(all[i] == x);
        }
        if names.last() == x {
            assert(names[names.len() - 1] == x);
            if x != name {
                assert(all[front.len() as int] == x);
            }
        }
        if all.contains(x) {
            let i = choose|i: int| 0 <= i < all.len() && all[i] == x;
            if i < front.len() {
                assert(front[i] == x);
            }
        }
    }
}

/// The newest event stands last in the log, and the log keeps all events but the oldest once
/// it is full.
pub proof fn law_events_are_logged(state: &mut EngineState, event: TimelineDisplayEvent)
    requires
        call_ensures(EngineState::push_event, (state, event), ()),
    ensures
        ({
            let before = views(old(state).timeline@);
            let after = views(final(state).timeline@);
            &&& after.last() == event@
            &&& before.len() < 100 ==> after == before.push(event@)
            &&& before.len() == 100 ==> after.len() == 100 && after == before.drop_first().push(
                event@,
            )
        }),
        final(state).modules == old(state).modules,
{
    let before = views(old(state).timeline@);
    if before.len() > 0 {
        assert(before.push(event@).drop_first() =~= before.drop_first().push(event@));
    }
}

/// New settings of the pipeline take the place of the old ones and change nothing else in
/// it.
pub proof fn law_settings_are_taken_over(o: &mut PipelineOrchestrator, config: PipelineConfig)
    requires
        call_ensures(PipelineOrchestrator::set_config, (o, config), ()),
    ensures
        final(o)@.config == config@,
        final(o)@.states == old(o)@.states,
        final(o)@.pending == old(o)@.pending,
{
}

/// An answer that is waited for is owed from then on, by the module, for the message and the
/// stage that are named.
pub proof fn law_answers_are_waited_for(
    t: &mut AckTracker,
    id: String,
    stage: String,
    module: String,
    timeout_ms: u64,
    now: u64,
)
    requires
        crate::pipeline::acks_ok(old(t).pending()),
        call_ensures(AckTracker::track, (t, id, stage, module, timeout_ms, now), ()),
    ensures
        ({
            let list = owed(final(t).pending(), id@);
            &&& list.len() == owed(old(t).pending(), id@).len() + 1
            &&& list.last().uuid7 == id@
            &&& list.last().stage == stage@
            &&& list.last().module_name == module@
            &&& list.last().sent_at == now
            &&& list.last().timeout_ms == timeout_ms
        }),
{
    crate::pipeline::lemma_asked(
        old(t).pending(),
        (crate::pipeline::PendingAckView {
            uuid7: id@,
            stage: stage@,
            module_name: module@,
            sent_at: now,
            timeout_ms,
        }),
    );
}

/// A module that is kept is found again by its name, as it was kept.
pub proof fn law_kept_modules_are_found(
    registry: &mut ModuleRegistryPersistence,
    module: RegisteredModule,
)
    requires
        call_ensures(ModuleRegistryPersistence::register, (registry, module), ()),
    ensures
        named(final(registry)@, module@.name) == Some(module@),
        final(registry).file() == old(registry).file(),
{
    crate::module_registry::law_registered_module_is_found(old(registry)@, module@);
}

/// What the engine is told of a module's commands is kept under the module's name.
pub proof fn law_commands_are_kept_by_module(
    registry: &mut CommandRegistry,
    module: &str,
    commands: Commands,
)
    requires
        call_ensures(CommandRegistry::register, (registry, module, commands), ()),
    ensures
        final(registry).modules().dom().contains(module@),
        final(registry).modules()[module@].commands == commands@.commands,
        final(registry).modules()[module@].alert_on_unknown == commands@.alert_on_unknown_command,
        forall|other: Seq<char>|
            other != module@ && #[trigger] old(registry).modules().dom().contains(other)
                ==> final(registry).modules()[other] == old(registry).modules()[other],
{
}

/// Reading a message's command changes nothing about the message but its command.
pub proof fn law_reading_a_command_keeps_the_message(
    registry: &CommandRegistry,
    chat: &mut ChatMessage,
    r: Option<crate::chat_commands::PlatformReply>,
)
    requires
        call_ensures(handle_command_on_ingest, (chat, registry), r),
    ensures
        final(chat)@.raw_message == old(chat)@.raw_message,
        final(chat)@.platform == old(chat)@.platform,
        final(chat)@.channel_id == old(chat)@.channel_id,
        final(chat)@.user_uuid7 == old(chat)@.user_uuid7,
        final(chat)@.user_data == old(chat)@.user_data,
{
}

/// The in-process module whose turn it is is sent the text as the modules before it left it,
/// beside the message as it came.
pub proof fn law_modules_build_on_each_other(
    o: &mut PipelineOrchestrator,
    task: &mut Task,
    connected: &Vec<String>,
    registry: &CommandRegistry,
    now: u64,
    k: Seq<char>,
    action: Action,
)
    requires
        old(task)@ == seq![OpView::Pass { gate: Gate::InProcess, uuid7: k }],
        old(o)@.states.dom().contains(k),
        old(o)@.states[k].current_in_process_index < old(o)@.config.in_process_modules.len(),
        call_ensures(PipelineOrchestrator::step, (o, task, false, connected, registry, now), action),
    ensures
        ({
            &&& action@ matches ActionView::Send { payload, to }
            &&& payload matches PayloadView::MessageInProcess(m)
            &&& m.message_uuid7 == k
            &&& m.processed_message == old(o)@.states[k].processed_message
            &&& m.raw_message matches Some(chat)
            &&& chat.raw_message == old(o)@.states[k].raw_message
            &&& forall|i: int|
                0 <= i < to.len() ==> (#[trigger] to[i])
                    == old(o)@.config.in_process_modules[old(
                    o,
                )@.states[k].current_in_process_index as int]
        }),
{
    let s = crate::orchestrator::surroundings(false, connected, registry, now);
    crate::laws::pipeline::law_in_process_sees_the_message(old(o)@, k, s);
}

} // verus!
