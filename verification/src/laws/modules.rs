//! Modules: who is let in and under which name, what becomes of what they send, what the
//! user is asked about them, and how silent ones are noticed.
use crate::auth::{active, claimed, pin_matches, token_expiry, AuthSession};
use crate::connection::{
    admitted, approval_reply, invoke_command, kept_module, let_in, lifecycle_label, refusal_of,
    rejection_reply, relayed, routed, taken_over, AdmissionView, Approved, Invocation,
    InvocationView, Peer, RouteView, Standing,
};
use crate::command_registry::CommandRegistry;
use crate::json::{member, JsonView};
use crate::laws::chat::holds_text;
use crate::laws::moderation::said;
use crate::liveness::{
    probe_decision, probe_times, probed, size_note, ProbeActionView, SizeNoteView,
};
use crate::module_client::request_of;
use crate::module_registry::{named, registered, removed, with_uuid, RegisteredModuleView};
use crate::prompts::{
    answered_prompt, approval_question, audit_question, prompt_seconds, review_end, says_yes,
    settled, terminal_question, AuditEndView, ModuleAuthInfoView, PromptAnswerView, PromptOutcome,
    PromptSink,
};
use crate::proto::{
    AuditFlagView, Command, ConnectionRequestView, ContainerView, PayloadView, ProcessPosition,
    PromptResponseView, PromptType,
};
use crate::text::{decimal, texts, trim};
use crate::trust::{
    actor_perm, always_trusted, control_surface, link_for, position_name, reads_credentials,
    test_runner,
};
use vstd::prelude::*;

verus! {

/// Only the engine's own modules are trusted without being asked about: the terminal
/// interface, its children, the test runner and the audit viewer. Other modules' credentials
/// are shown to the terminal interface and the terminal chat alone.
pub proof fn law_whom_the_engine_trusts(name: Seq<char>)
    ensures
        control_surface(name) <==> name == "cockatiel-tui"@ || name == "cockatiel-tui-child"@,
        test_runner(name) <==> name == "cockatiel-test-runner"@,
        always_trusted(name) <==> name == "cockatiel-tui"@ || name == "cockatiel-tui-child"@ || name
            == "cockatiel-test-runner"@ || name == "cockatiel-audit-viewer"@,
        reads_credentials(name) <==> name == "cockatiel-tui"@ || name == "cockatiel-tui-child"@
            || name == "term-chat"@,
{
}

/// On the engine's own machine an actor is its owner; from elsewhere they are what they say.
pub proof fn law_local_actors_are_owners(role: Seq<char>)
    ensures
        actor_perm(true, role) == "owner"@,
        actor_perm(false, role) == role,
{
}

/// A connection request comes in: with a granted token the module is back under its own
/// name and id; with a token that is not granted it is turned away, whatever its PIN. Without a
/// token the PIN and a name make it a newcomer, with the position and priority that it
/// asks for; a wrong PIN or no name turn it away. Anything but a request does too.
pub proof fn law_who_is_admitted(
    c: ContainerView,
    q: ConnectionRequestView,
    granted: bool,
    pin: u32,
    known: Seq<RegisteredModuleView>,
)
    ensures
        !(c.payload matches Some(PayloadView::ConnectionRequest(_))) ==> admitted(
            c,
            granted,
            pin,
            known,
        ) is NotARequest,
        c.payload == Some(PayloadView::ConnectionRequest(q)) && c.auth_token.len() > 0 && granted
            ==> {
            &&& admitted(c, granted, pin, known) matches AdmissionView::Back {
                module_name,
                instance_uuid7,
            }
            &&& module_name == c.module_name
            &&& instance_uuid7 == c.module_instance_uuid7
        },
        c.payload == Some(PayloadView::ConnectionRequest(q)) && c.auth_token.len() > 0 && !granted
            ==> admitted(c, granted, pin, known) is BadToken,
        c.payload == Some(PayloadView::ConnectionRequest(q)) && c.auth_token.len() == 0 && q.pin
            >= 0 && q.pin != pin ==> admitted(c, granted, pin, known) is BadPin,
        c.payload == Some(PayloadView::ConnectionRequest(q)) && c.auth_token.len() == 0 && q.pin
            == pin && (trim(c.module_name).len() == 0 || trim(c.module_name) == "unnamed_module"@)
            ==> admitted(c, granted, pin, known) is Unnamed,
        c.payload == Some(PayloadView::ConnectionRequest(q)) && c.auth_token.len() == 0 && q.pin
            == pin && trim(c.module_name).len() > 0 && trim(c.module_name) != "unnamed_module"@
            ==> {
            &&& admitted(c, granted, pin, known) matches AdmissionView::Newcomer {
                module_name,
                requested_uuid,
                position,
                priority,
                standing,
            }
            &&& module_name == c.module_name
            &&& requested_uuid == q.module_instance_uuid7
            &&& priority == q.priority
            &&& q.process_position == ProcessPosition::Preprocess ==> position == "preprocess"@
            &&& q.process_position == ProcessPosition::Inprocess ==> position == "inprocess"@
            &&& q.process_position == ProcessPosition::Postprocess ==> position == "postprocess"@
            &&& q.process_position == ProcessPosition::Connection || q.process_position
                == ProcessPosition::Unspecified ==> position == "input"@
            &&& always_trusted(c.module_name) ==> standing == Standing::Trusted
            &&& !always_trusted(c.module_name) && (named(known, c.module_name) matches Some(m)
                && m.auto_auth) ==> standing == Standing::Known
            &&& !always_trusted(c.module_name) && !(named(known, c.module_name) matches Some(m)
                && m.auto_auth) ==> standing == Standing::Unknown
        },
{
}

/// A PIN is the right one only where it is the configured number.
pub proof fn law_the_pin_is_the_configured_one(pin: i32, config_pin: u32)
    ensures
        pin >= 0 ==> (pin_matches(pin, config_pin) <==> pin == config_pin),
        pin_matches(pin, config_pin) && config_pin <= i32::MAX ==> pin == config_pin,
{
}

/// A token is good for thirty days.
pub proof fn law_tokens_last_thirty_days(now: i64)
    ensures
        now + 30 * 24 * 60 * 60 <= i64::MAX ==> token_expiry(now) == now + 30 * 24 * 60 * 60,
        token_expiry(now) > now || now == i64::MAX,
{
}

/// Whoever is turned away is noted with the reason, and whoever is not is not.
pub proof fn law_refusals_are_noted(c: ContainerView, a: AdmissionView)
    ensures
        refusal_of(c, a) is None <==> a is Back || a is Newcomer,
        a is NotARequest ==> refusal_of(c, a) == Some(
            (c.module_name, "first message was not a ConnectionRequest"@),
        ),
        a is BadToken ==> refusal_of(c, a) == Some((c.module_name, "invalid auth token"@)),
        a is BadPin ==> refusal_of(c, a) == Some((c.module_name, "invalid PIN"@)),
        a is Unnamed ==> refusal_of(c, a) == Some(
            (trim(c.module_name), "blank/unnamed module identity"@),
        ),
{
}

/// Who is let in is answered with their id and their token; who is not is answered with
/// neither.
pub proof fn law_only_the_admitted_get_a_token(id: Seq<char>, token: Seq<char>)
    ensures
        ({
            let r = approval_reply(id, token);
            &&& r.auth_token == token
            &&& r.module_instance_uuid7 == id
            &&& r.module_name == "cockatiel"@
            &&& r.version == 1
            &&& r.payload matches Some(PayloadView::ConnectionRequestReturn(x))
            &&& x.module_instance_uuid7 == id
            &&& x.new_port == 0
        }),
        ({
            let r = rejection_reply();
            &&& r.auth_token.len() == 0
            &&& r.payload matches Some(PayloadView::ConnectionRequestReturn(x))
            &&& x.module_instance_uuid7.len() == 0
        }),
{
}

/// A module that is let in has a session of its own name, id, position and priority, with
/// the token that it is answered with, from now on and over its own socket; it is kept as
/// approved under that name; and no other session changes.
pub proof fn law_letting_in(
    m: Approved,
    token: Seq<char>,
    peer: Peer,
    now_ms: i64,
    before: (
        crate::auth::AuthStore,
        crate::module_registry::ModuleRegistryPersistence,
        crate::config::Config,
    ),
    after: (
        crate::auth::AuthStore,
        crate::module_registry::ModuleRegistryPersistence,
        crate::config::Config,
    ),
    reply: ContainerView,
    other: Seq<char>,
)
    requires
        let_in(m, token, peer, now_ms, before, after, reply),
    ensures
        ({
            let s = after.0.sessions()[m.instance_uuid7@];
            &&& after.0.sessions().dom().contains(m.instance_uuid7@)
            &&& s.module_name@ == m.module_name@
            &&& s.instance_uuid7@ == m.instance_uuid7@
            &&& s.auth_token@ == token
            &&& s.position@ == m.position@
            &&& s.priority == m.priority
            &&& s.authenticated
            &&& !s.unresponsive
            &&& s.connected_at == Some(now_ms)
            &&& s.shutdown_at is None
            &&& s.last_activity_ms == now_ms
            &&& s.probe_deadline_ms == 0
            &&& s.last_probe_at_ms == 0
            &&& s.socket_token == peer.socket_token
            &&& s.peer_loopback == peer.loopback
        }),
        other != m.instance_uuid7@ ==> {
            &&& after.0.sessions().dom().contains(other) == before.0.sessions().dom().contains(other)
            &&& before.0.sessions().dom().contains(other) ==> after.0.sessions()[other]
                == before.0.sessions()[other]
        },
        ({
            &&& named(after.1@, m.module_name@) matches Some(k)
            &&& k.name == m.module_name@
            &&& k.instance_uuid7 == m.instance_uuid7@
            &&& k.auth_token == token
            &&& k.position == m.position@
            &&& k.priority == m.priority
            &&& k.auto_auth
        }),
        reply.auth_token == token,
        reply.module_instance_uuid7 == m.instance_uuid7@,
{
    crate::module_registry::law_registered_module_is_found(before.1@, kept_module(m, token));
    let a = after.0.sessions();
    let b = before.0.sessions();
    let key = m.instance_uuid7@;
    if other != key {
        assert(a.remove(key).dom().contains(other) == a.dom().contains(other));
        assert(b.remove(key).dom().contains(other) == b.dom().contains(other));
        if b.dom().contains(other) {
            assert(a.remove(key)[other] == a[other]);
            assert(b.remove(key)[other] == b[other]);
        }
    }
}

/// A module that comes back keeps its session: its name, id, token, position, priority and
/// approval. It is alive again, connected since now, and reached over the new socket.
pub proof fn law_coming_back(s: AuthSession, peer: Peer, now_ms: i64)
    ensures
        ({
            let r = taken_over(s, peer, now_ms);
            &&& r.module_name == s.module_name
            &&& r.instance_uuid7 == s.instance_uuid7
            &&& r.auth_token == s.auth_token
            &&& r.position == s.position
            &&& r.priority == s.priority
            &&& r.authenticated == s.authenticated
            &&& r.socket_token == peer.socket_token
            &&& r.peer_loopback == peer.loopback
            &&& r.connected_at == Some(now_ms)
            &&& r.shutdown_at is None
            &&& r.last_activity_ms == now_ms
            &&& r.probe_deadline_ms == 0
            &&& !r.unresponsive
        }),
{
}

/// Activity changes only when a module was last heard of, and takes back a pending probe.
pub proof fn law_activity_is_only_noted(s: AuthSession, now_ms: i64, socket_token: u64)
    ensures
        ({
            let r = active(s, now_ms);
            &&& r.last_activity_ms == now_ms
            &&& r.probe_deadline_ms == 0
            &&& r.module_name == s.module_name
            &&& r.instance_uuid7 == s.instance_uuid7
            &&& r.auth_token == s.auth_token
            &&& r.position == s.position
            &&& r.priority == s.priority
            &&& r.authenticated == s.authenticated
            &&& r.socket_token == s.socket_token
            &&& r.connected_at == s.connected_at
            &&& r.shutdown_at == s.shutdown_at
            &&& r.unresponsive == s.unresponsive
        }),
        ({
            let r = claimed(s, socket_token, now_ms);
            &&& r.socket_token == socket_token
            &&& r.auth_token == s.auth_token
            &&& r.module_name == s.module_name
            &&& r.authenticated == s.authenticated
            &&& r.last_activity_ms == now_ms
            &&& !r.unresponsive
        }),
{
}

/// What a module asks for with its request is what the engine reads of it: with the PIN it
/// is a newcomer under its name, at its position.
pub proof fn law_request_is_read_as_meant(
    name: Seq<char>,
    position: ProcessPosition,
    id: Seq<char>,
    pin: i32,
    config_pin: u32,
    known: Seq<RegisteredModuleView>,
)
    requires
        trim(name).len() > 0,
        trim(name) != "unnamed_module"@,
        pin >= 0,
    ensures
        pin == config_pin ==> {
            &&& admitted(request_of(name, position, id, pin), false, config_pin, known)
                matches AdmissionView::Newcomer {
                module_name,
                requested_uuid,
                position: place,
                priority,
                standing,
            }
            &&& module_name == name
            &&& requested_uuid == id
            &&& priority == 1
            &&& place == position_name(position)
        },
        pin != config_pin ==> admitted(request_of(name, position, id, pin), false, config_pin, known)
            is BadPin,
{
}

/// What a connected module sends goes where its kind says: messages into the pipeline, log
/// and error lines into the timeline under their own kinds, queries to be answered, posts to
/// platforms, commands to be registered or run, questions and answers between modules and the
/// user, and flags to review. Whatever else it sends only shows that it is alive.
pub proof fn law_everything_goes_where_it_belongs(payload: PayloadView)
    ensures
        match payload {
            PayloadView::MessagePreProcess(m) => routed(Some(payload)) == RouteView::Ingest(m),
            PayloadView::MessageInProcess(m) => routed(Some(payload)) is Pipeline,
            PayloadView::MessagePostProcess(m) => routed(Some(payload)) is Pipeline,
            PayloadView::MessageAck(m) => routed(Some(payload)) is Pipeline,
            PayloadView::LogLine(l) => {
                &&& routed(Some(payload)) matches RouteView::Record { kind, message }
                &&& kind == "module_log"@
                &&& message == l.log
            },
            PayloadView::ErrorLine(l) => {
                &&& routed(Some(payload)) matches RouteView::Record { kind, message }
                &&& kind == "module_error"@
                &&& message == l.log
            },
            PayloadView::DatabaseQuery(q) => routed(Some(payload)) == RouteView::Query(q),
            PayloadView::SendToPlatforms(s) => routed(Some(payload)) == RouteView::Send(s),
            PayloadView::CommandsPayload(c) => routed(Some(payload)) == RouteView::Register(c),
            PayloadView::CommandPayload(c) => routed(Some(payload)) == RouteView::Invoke(c),
            PayloadView::Prompt(p) => routed(Some(payload)) == RouteView::Ask(p),
            PayloadView::PromptResponse(p) => routed(Some(payload)) == RouteView::Answer(p),
            PayloadView::AuditFlag(f) => routed(Some(payload)) == RouteView::Review(f),
            _ => routed(Some(payload)) is Nothing,
        },
        routed(None) is Nothing,
{
}

/// What is passed on is what came: its sender's name, id and token and what it carries.
pub proof fn law_passing_on_changes_nothing(c: ContainerView)
    ensures
        relayed(c).payload == c.payload,
        relayed(c).module_name == c.module_name,
        relayed(c).module_instance_uuid7 == c.module_instance_uuid7,
        relayed(c).auth_token == c.auth_token,
        relayed(c).version == 1,
{
}

/// A command that a module runs goes to the one module that owns it, with the command whole
/// and the name of who ran it; without an owner, or with one that is not connected, it goes
/// to nobody.
pub proof fn law_commands_go_to_their_owner(
    registry: &CommandRegistry,
    from: &str,
    command: &Command,
    connected: &Vec<String>,
    r: Invocation,
)
    requires
        call_ensures(invoke_command, (registry, from, command, connected), r),
    ensures
        ({
            let key = (command@.command_flag, command@.command_name);
            let owned = registry.index().dom().contains(key);
            let there = texts(connected@).contains(registry.index()[key]);
            &&& !owned ==> r@ is Unregistered
            &&& owned && !there ==> r@ == (InvocationView::NotConnected {
                owner: registry.index()[key],
            })
            &&& owned && there ==> {
                &&& r@ matches InvocationView::Deliver { owner, container }
                &&& owner == registry.index()[key]
                &&& container.payload matches Some(PayloadView::MessagePreProcess(m))
                &&& m.message_uuid7.len() == 0
                &&& m.raw_message matches Some(chat)
                &&& chat.command == Some(command@)
                &&& chat.platform == "command:"@ + from@
                &&& chat.raw_message.len() == 0
            }
        }),
{
}

/// A line of a module's life is labelled with its kind and where it comes from.
pub proof fn law_lifecycle_labels(kind: Seq<char>, source: Seq<char>)
    ensures
        member(lifecycle_label(kind, source), "kind"@) == Some(JsonView::Text(kind)),
        member(lifecycle_label(kind, source), "source"@) == Some(JsonView::Text(source)),
{
    reveal_strlit("kind");
    reveal_strlit("source");
    assert("kind"@.len() == 4 && "source"@.len() == 6);
}

/// The user's answer goes to whoever asked, and to nobody else: to the engine as a yes or a
/// no, to a module over the socket that it asked on and as it was given.
pub proof fn law_answers_go_to_who_asked(
    routes: Map<Seq<char>, PromptSink>,
    container: ContainerView,
    response: PromptResponseView,
)
    ensures
        ({
            let r = answered_prompt(routes, container, response);
            let id = response.prompt_id_uuid7;
            &&& r is Nobody <==> !routes.dom().contains(id)
            &&& routes.dom().contains(id) && routes[id] is Engine ==> r == (
            PromptAnswerView::Engine { accepted: response.accepted })
            &&& routes.dom().contains(id) ==> (routes[id] matches PromptSink::Module(t) ==> {
                &&& r matches PromptAnswerView::Module { socket_token, container: c }
                &&& socket_token == t
                &&& c.payload == container.payload
                &&& c.module_name == container.module_name
            })
        }),
{
}

/// A question stays open as long as it says, and for half a minute where it says nothing.
pub proof fn law_questions_stay_open(timeout: i32)
    ensures
        timeout > 0 ==> prompt_seconds(timeout) == timeout,
        timeout <= 0 ==> prompt_seconds(timeout) == 30,
{
}

/// What the user decides is what happens: a module is let in where they allow it and not
/// where they deny it, a held message goes on where they approve it and not where they
/// reject it. A question that times out lets nobody in and leaves a message held; one that
/// nobody could be asked settles nothing.
pub proof fn law_the_user_decides(decision: bool)
    ensures
        settled(PromptOutcome::Decided(decision)) == Some(decision),
        settled(PromptOutcome::TimedOut) == Some(false),
        settled(PromptOutcome::NoUi) is None,
        review_end(PromptOutcome::Decided(decision)) == (AuditEndView::Released {
            approve: decision,
        }),
        review_end(PromptOutcome::TimedOut) is Held,
        review_end(PromptOutcome::NoUi) is Held,
{
}

/// On the terminal only `y` and `yes` let a module in.
pub proof fn law_yes_is_yes(lower: Seq<char>)
    ensures
        says_yes(lower) <==> lower == seq!['y'] || lower == seq!['y', 'e', 's'],
{
    reveal_strlit("y");
    reveal_strlit("yes");
    assert("y"@ =~= seq!['y']);
    assert("yes"@ =~= seq!['y', 'e', 's']);
}

proof fn lemma_holds(whole: Seq<char>, a: Seq<char>, part: Seq<char>, b: Seq<char>)
    requires
        whole == a + part + b,
    ensures
        holds_text(whole, part),
{
}

/// The question about a new module names the module, its id, the place and priority that it
/// wants and, where it has one, its description. Yes means to allow it and no to deny it.
pub proof fn law_the_question_about_a_module(
    id: Seq<char>,
    module_name: Seq<char>,
    uuid7: Seq<char>,
    position: Seq<char>,
    priority: u32,
    description: Option<Seq<char>>,
)
    ensures
        ({
            let q = approval_question(id, module_name, uuid7, position, priority, description);
            &&& q.prompt_id_uuid7 == id
            &&& q.yes_dialog == "Allow"@
            &&& q.no_dialog == "Deny"@
            &&& q.prompt == "Allow this module to connect?"@
            &&& q.origin == module_name
            &&& q.origin_uuid7 == uuid7
            &&& q.timeout == 30
            &&& q.prompt_type == PromptType::Boolean
            &&& holds_text(q.details, module_name)
            &&& holds_text(q.details, uuid7)
            &&& holds_text(q.details, position)
            &&& holds_text(q.details, decimal(priority as nat))
            &&& description matches Some(d) ==> holds_text(q.details, d)
            &&& holds_text(q.instructions, module_name)
        }),
{
    let q = approval_question(id, module_name, uuid7, position, priority, description);
    let tail = match description {
        Some(d) if d.len() > 0 => "\n\nWhat it is: "@ + d,
        _ => ""@,
    };
    let p = decimal(priority as nat);
    let a1 = "Module '"@;
    let a2 = a1 + module_name + "' ["@;
    let a3 = a2 + uuid7 + "] wants to connect on position '"@;
    let a4 = a3 + position + "' (priority "@;
    let b4 = ")."@ + tail;
    let b3 = "' (priority "@ + p + b4;
    let b2 = "] wants to connect on position '"@ + position + b3;
    let b1 = "' ["@ + uuid7 + b2;
    assert(q.details =~= a1 + module_name + b1);
    assert(q.details =~= a2 + uuid7 + b2);
    assert(q.details =~= a3 + position + b3);
    assert(q.details =~= a4 + p + b4);
    lemma_holds(q.details, a1, module_name, b1);
    lemma_holds(q.details, a2, uuid7, b2);
    lemma_holds(q.details, a3, position, b3);
    lemma_holds(q.details, a4, p, b4);
    if let Some(d) = description {
        if d.len() > 0 {
            let a5 = a4 + p + ")."@ + "\n\nWhat it is: "@;
            assert(q.details =~= a5 + d + Seq::<char>::empty());
            lemma_holds(q.details, a5, d, Seq::empty());
        } else {
            assert(q.details =~= q.details + d + Seq::<char>::empty());
            lemma_holds(q.details, q.details, d, Seq::empty());
        }
    }
    lemma_holds(
        q.instructions,
        "This is the first time '"@,
        module_name,
        "' has connected, or its access was reset.\nAllow it only if you recognize it and want it talking to the engine.\nOnce approved it will reconnect automatically in the future."@,
    );
}

/// The same question on the terminal names the module, its id, place and priority too.
pub proof fn law_the_question_on_the_terminal(info: ModuleAuthInfoView)
    ensures
        holds_text(terminal_question(info), info.name),
        holds_text(terminal_question(info), info.instance_uuid7),
        holds_text(terminal_question(info), info.position),
        holds_text(terminal_question(info), decimal(info.priority as nat)),
{
    let t = terminal_question(info);
    let p = decimal(info.priority as nat);
    let a1 = "\n[Cockatiel Auth] New module requesting connection:\n  Name:     "@;
    let a2 = a1 + info.name + "\n  UUID:     "@;
    let a3 = a2 + info.instance_uuid7 + "\n  Position: "@;
    let a4 = a3 + info.position + "\n  Priority: "@;
    let b4 = "\n\n  Add module? (y/n): "@;
    let b3 = "\n  Priority: "@ + p + b4;
    let b2 = "\n  Position: "@ + info.position + b3;
    let b1 = "\n  UUID:     "@ + info.instance_uuid7 + b2;
    assert(t =~= a1 + info.name + b1);
    assert(t =~= a2 + info.instance_uuid7 + b2);
    assert(t =~= a3 + info.position + b3);
    assert(t =~= a4 + p + b4);
    lemma_holds(t, a1, info.name, b1);
    lemma_holds(t, a2, info.instance_uuid7, b2);
    lemma_holds(t, a3, info.position, b3);
    lemma_holds(t, a4, p, b4);
}

/// The question about a held message shows the message, where it is known, with its
/// platform, its author and why it is held. Yes means to approve it and no to reject it.
pub proof fn law_the_question_about_a_message(
    id: Seq<char>,
    flag: AuditFlagView,
    entry: JsonView,
)
    ensures
        ({
            let q = audit_question(id, flag, Some(entry));
            &&& q.prompt_id_uuid7 == id
            &&& q.prompt == "Audit message"@
            &&& q.yes_dialog == "Approve"@
            &&& q.no_dialog == "Reject"@
            &&& q.timeout == 120
            &&& q.prompt_type == PromptType::Boolean
            &&& q.link == "http://localhost:3000/message/"@ + flag.message_uuid7
            &&& flag.origin.len() > 0 ==> q.origin == flag.origin
            &&& flag.origin.len() == 0 ==> q.origin == "engine"@
            &&& holds_text(q.details, said(entry, "platform"@, "?"@))
            &&& holds_text(q.details, said(entry, "user_uuid7"@, "?"@))
            &&& holds_text(q.details, said(entry, "raw_message"@, ""@))
            &&& holds_text(q.details, said(entry, "reason"@, "flagged"@))
        }),
        ({
            let q = audit_question(id, flag, None);
            &&& q.prompt_id_uuid7 == id
            &&& q.yes_dialog == "Approve"@
            &&& q.no_dialog == "Reject"@
            &&& holds_text(q.details, flag.message_uuid7)
            &&& holds_text(q.details, flag.reason)
        }),
{
    let d = audit_question(id, flag, Some(entry)).details;
    let platform = said(entry, "platform"@, "?"@);
    let user = said(entry, "user_uuid7"@, "?"@);
    let raw = said(entry, "raw_message"@, ""@);
    let reason = said(entry, "reason"@, "flagged"@);
    let a1 = "["@;
    let a2 = a1 + platform + "] "@;
    let a3 = a2 + user + ": \""@;
    let a4 = a3 + raw + "\"\n\nReason: "@;
    let b3 = "\"\n\nReason: "@ + reason;
    let b2 = ": \""@ + raw + b3;
    let b1 = "] "@ + user + b2;
    assert(d =~= a1 + platform + b1);
    assert(d =~= a2 + user + b2);
    assert(d =~= a3 + raw + b3);
    assert(d =~= a4 + reason + Seq::<char>::empty());
    lemma_holds(d, a1, platform, b1);
    lemma_holds(d, a2, user, b2);
    lemma_holds(d, a3, raw, b3);
    lemma_holds(d, a4, reason, Seq::empty());
    let e = audit_question(id, flag, None).details;
    let c1 = "Message ["@;
    let c2 = c1 + flag.message_uuid7 + "] held for audit (reason: "@;
    let f1 = "] held for audit (reason: "@ + flag.reason + ")"@;
    assert(e =~= c1 + flag.message_uuid7 + f1);
    assert(e =~= c2 + flag.reason + ")"@);
    lemma_holds(e, c1, flag.message_uuid7, f1);
    lemma_holds(e, c2, flag.reason, ")"@);
}

/// Where the user finds the credentials that an adapter needs.
pub proof fn law_links_lead_to_the_platform(module_name: Seq<char>)
    ensures
        link_for("twitch-adapter"@) == "https://dev.twitch.tv/console/apps"@,
        link_for("kick-adapter"@) == "https://kick.com/settings/developer"@,
        link_for("youtube-adapter"@) == "https://console.cloud.google.com/apis/credentials"@,
        module_name != "twitch-adapter"@ && module_name != "kick-adapter"@ && module_name
            != "youtube-adapter"@ ==> link_for(module_name)
            == "https://github.com/vulbyte/cockatiel"@,
{
    reveal_strlit("twitch-adapter");
    reveal_strlit("kick-adapter");
    reveal_strlit("youtube-adapter");
    assert("twitch-adapter"@.len() == 14 && "kick-adapter"@.len() == 12 && "youtube-adapter"@.len()
        == 15);
}

/// How often a module is probed and how long it may take to answer: as its manifest says,
/// and as the settings say where it says nothing.
pub proof fn law_probe_times(a: u64, b: u64, interval: u64, response: u64)
    ensures
        probe_times(None, interval, response) == (interval, response),
        a > 0 ==> probe_times(Some((a, b)), interval, response).0 == a,
        a == 0 ==> probe_times(Some((a, b)), interval, response).0 == interval,
        b > 0 ==> probe_times(Some((a, b)), interval, response).1 == b,
        b == 0 ==> probe_times(Some((a, b)), interval, response).1 == response,
{
}

/// A module is probed exactly where it is responsive, was silent for the whole interval, was
/// not probed within it and no probe of it is overdue; it then has the response time to
/// answer. It is late exactly where a probe was not answered by its deadline, and a module
/// that is known to be unresponsive is left alone.
pub proof fn law_when_modules_are_probed(
    s: AuthSession,
    interval: u64,
    response: u64,
    now_ms: i64,
)
    requires
        0 <= s.last_activity_ms <= now_ms,
        0 <= s.last_probe_at_ms <= now_ms,
        interval * 1000 <= i64::MAX,
        now_ms + response * 1000 <= i64::MAX,
    ensures
        ({
            let late = !s.unresponsive && s.probe_deadline_ms > 0 && now_ms >= s.probe_deadline_ms;
            let due = now_ms - s.last_activity_ms >= interval * 1000 && now_ms - s.last_probe_at_ms
                >= interval * 1000;
            let r = probe_decision(s, interval, response, now_ms);
            &&& late <==> r is Late
            &&& !s.unresponsive && !late && due ==> {
                &&& r matches ProbeActionView::Probe { deadline_ms }
                &&& deadline_ms == now_ms + response * 1000
            }
            &&& s.unresponsive || (!late && !due) ==> r is Quiet
        }),
        ({
            let r = probed(s, now_ms, s.last_activity_ms);
            &&& r.last_probe_at_ms == now_ms
            &&& r.probe_deadline_ms == s.last_activity_ms
            &&& r.last_activity_ms == s.last_activity_ms
            &&& r.socket_token == s.socket_token
            &&& r.auth_token == s.auth_token
            &&& r.unresponsive == s.unresponsive
        }),
{
}

/// The size of the timeline is warned of once when it comes within a twentieth of its
/// target and is above five mebibytes, with how much of the target it fills; the warning is
/// taken back once it no longer does.
pub proof fn law_size_warnings(size: u64, target_mb: u32, warned: bool)
    ensures
        ({
            let over = size > 5 * 1024 * 1024 && size >= target_mb * 1024 * 1024 * 95 / 100;
            let r = size_note(size, target_mb, warned);
            &&& r is Warn <==> over && !warned
            &&& r is Clear <==> !over && warned
            &&& r is Same <==> over == warned
            &&& over && !warned && target_mb > 0 ==> {
                &&& r matches SizeNoteView::Warn { percent }
                &&& percent == (size * 100) / (target_mb * 1024 * 1024)
            }
        }),
{
    assert(target_mb * 1048576 == target_mb * 1024 * 1024);
    if target_mb > 0 {
        assert(0 <= (size * 100) / (target_mb * 1048576) <= size * 100) by (nonlinear_arith)
            requires
                target_mb > 0,
                size >= 0,
        ;
    }
}

/// Registering a module leaves what is kept of every other module as it was, and removing
/// one does too.
pub proof fn law_other_modules_stay_registered(
    modules: Seq<RegisteredModuleView>,
    m: RegisteredModuleView,
    other: Seq<char>,
)
    ensures
        other != m.name ==> named(registered(modules, m), other) == named(modules, other),
        named(registered(modules, m), m.name) == Some(m),
        other != m.name ==> named(removed(modules, m.name), other) == named(modules, other),
        named(removed(modules, m.name), m.name) is None,
    decreases modules.len(),
{
    lemma_registered(modules, m, other);
    lemma_removed(modules, m.name, other);
    lemma_removed_gone(modules, m.name);
}

proof fn lemma_registered(
    modules: Seq<RegisteredModuleView>,
    m: RegisteredModuleView,
    other: Seq<char>,
)
    ensures
        other != m.name ==> named(registered(modules, m), other) == named(modules, other),
        named(registered(modules, m), m.name) == Some(m),
    decreases modules.len(),
{
    let r = registered(modules, m);
    if modules.len() == 0 {
        assert(r.drop_first() =~= Seq::<RegisteredModuleView>::empty());
        assert(named(r.drop_first(), other) is None);
    } else if modules[0].name == m.name {
        assert(r.drop_first() =~= modules.drop_first());
    } else {
        lemma_registered(modules.drop_first(), m, other);
        assert(r.drop_first() =~= registered(modules.drop_first(), m));
    }
}

proof fn lemma_named_push(
    modules: Seq<RegisteredModuleView>,
    m: RegisteredModuleView,
    name: Seq<char>,
)
    ensures
        named(modules.push(m), name) == (match named(modules, name) {
            Some(x) => Some(x),
            None => if m.name == name {
                Some(m)
            } else {
                None
            },
        }),
    decreases modules.len(),
{
    let all = modules.push(m);
    if modules.len() == 0 {
        assert(all.drop_first() =~= Seq::<RegisteredModuleView>::empty());
        assert(named(all.drop_first(), name) is None);
    } else if modules[0].name != name {
        lemma_named_push(modules.drop_first(), m, name);
        assert(all.drop_first() =~= modules.drop_first().push(m));
    }
}

proof fn lemma_removed(modules: Seq<RegisteredModuleView>, name: Seq<char>, other: Seq<char>)
    ensures
        other != name ==> named(removed(modules, name), other) == named(modules, other),
    decreases modules.len(),
{
    if modules.len() > 0 {
        lemma_removed(modules.drop_last(), name, other);
        assert(modules =~= modules.drop_last().push(modules.last()));
        lemma_named_push(modules.drop_last(), modules.last(), other);
        lemma_named_push(removed(modules.drop_last(), name), modules.last(), other);
    }
}

proof fn lemma_removed_gone(modules: Seq<RegisteredModuleView>, name: Seq<char>)
    ensures
        named(removed(modules, name), name) is None,
    decreases modules.len(),
{
    if modules.len() > 0 {
        lemma_removed_gone(modules.drop_last(), name);
        lemma_named_push(removed(modules.drop_last(), name), modules.last(), name);
    }
}

/// Who is found by name has that name, and who is found by id has that id; each is one of
/// those kept, and nobody is found only where nobody is kept under it.
pub proof fn law_found_modules_are_the_ones_sought(
    modules: Seq<RegisteredModuleView>,
    sought: Seq<char>,
    i: int,
)
    ensures
        named(modules, sought) matches Some(m) ==> m.name == sought && modules.contains(m),
        with_uuid(modules, sought) matches Some(m) ==> m.instance_uuid7 == sought
            && modules.contains(m),
        0 <= i < modules.len() && modules[i].name == sought ==> named(modules, sought) is Some,
        0 <= i < modules.len() && modules[i].instance_uuid7 == sought ==> with_uuid(modules, sought)
            is Some,
    decreases modules.len(),
{
    if modules.len() > 0 {
        let rest = modules.drop_first();
        law_found_modules_are_the_ones_sought(rest, sought, i - 1);
        assert(modules.contains(modules[0]));
        if let Some(m) = named(rest, sought) {
            let j = choose|j: int| 0 <= j < rest.len() && rest[j] == m;
            assert(modules[j + 1] == m);
        }
        if let Some(m) = with_uuid(rest, sought) {
            let j = choose|j: int| 0 <= j < rest.len() && rest[j] == m;
            assert(modules[j + 1] == m);
        }
        if 0 < i < modules.len() {
            assert(rest[i - 1] == modules[i]);
        }
    }
}

} // verus!
