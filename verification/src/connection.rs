//! A module's connection: how it is let in, and what is done with what it sends.
//!
//! The socket is outside: what arrives is handed in, and what is to be sent comes back.
use crate::auth::{
    active, authenticated, bound_to, changed, claimed, claims_grant, pin_matches, released,
    shut_down, signed_claims, token_issued, verify_pin, AuthSession, AuthStore,
};
use crate::chat_commands::{
    answers, handle_command_on_ingest, ingested_chat, platform_adapters, platform_targets,
    PlatformReply,
};
use crate::clock::{now_ms, now_seconds};
use crate::command_registry::CommandRegistry;
use crate::config::{add_module_to_config, module_added, Config};
use crate::database::{archival_statement, DatabaseManager, Statement};
use crate::json::{json_str, json_text, no_members, object, put, write_json, JsonView};
use crate::module_registry::{
    named, registered, ModuleRegistryPersistence, RegisteredModule, RegisteredModuleView,
};
use crate::orchestrator::{keep_connected, only_connected};
use crate::proto::{
    engine_container, from_engine, AuditFlag, AuditFlagView, ChatMessage, ChatMessageView,
    Command, CommandView, Commands, CommandsView, ConnectionRequest, ConnectionRequestReturn,
    ConnectionRequestReturnView, Container, ContainerView, DatabaseQuery, DatabaseQueryView,
    MessagePreProcess, MessagePreProcessView, Payload, PayloadView, Prompt, PromptResponse,
    PromptResponseView, PromptView, SendToPlatforms, SendToPlatformsView,
};
use crate::random::{id_bytes, version_of};
use crate::text::{name_listed, same, texts, trim, trimmed};
use crate::trust::{always_trusted, is_always_trusted, position_name, process_position_to_string};
use crate::user_queries::{sender_note, sent_note};
use vstd::prelude::*;

verus! {

/// Whether a module has to be asked about.
#[derive(Debug, Clone, Copy, PartialEq, Eq, Structural)]
pub enum Standing {
    /// It is always let in.
    Trusted,
    /// It was approved before.
    Known,
    /// The user decides.
    Unknown,
}

/// What becomes of a module's first message.
#[derive(Debug)]
pub enum Admission {
    /// It is no request to connect.
    NotARequest,
    /// Its token does not let it act under its name.
    BadToken,
    /// A module that was let in before is back.
    Back { module_name: String, instance_uuid7: String },
    /// It has neither a token nor the PIN.
    BadPin,
    /// It gives no name of its own.
    Unnamed,
    /// It has the PIN and a name.
    Newcomer { module_name: String, requested_uuid: String, position: String, priority: i32, standing: Standing },
}

/// What a [`Admission`] says.
#[verifier::ext_equal]
pub enum AdmissionView {
    NotARequest,
    BadToken,
    Back { module_name: Seq<char>, instance_uuid7: Seq<char> },
    BadPin,
    Unnamed,
    Newcomer { module_name: Seq<char>, requested_uuid: Seq<char>, position: Seq<char>, priority: i32, standing: Standing },
}

impl View for Admission {
    type V = AdmissionView;

    open spec fn view(&self) -> AdmissionView {
        match *self {
            Admission::NotARequest => AdmissionView::NotARequest,
            Admission::BadToken => AdmissionView::BadToken,
            Admission::Back { module_name, instance_uuid7 } => AdmissionView::Back {
                module_name: module_name@,
                instance_uuid7: instance_uuid7@,
            },
            Admission::BadPin => AdmissionView::BadPin,
            Admission::Unnamed => AdmissionView::Unnamed,
            Admission::Newcomer { module_name, requested_uuid, position, priority, standing } => AdmissionView::Newcomer {
                module_name: module_name@,
                requested_uuid: requested_uuid@,
                position: position@,
                priority: priority,
                standing: standing,
            },
        }
    }
}

/// What is done with what a connected module sends.
#[derive(Debug)]
pub enum Route {
    /// Nothing: it proves that the module is alive, and that is all.
    Nothing,
    /// A new message: its author is looked up, its command is read, then it enters the pipeline.
    Ingest(MessagePreProcess),
    /// An answer for the pipeline.
    Pipeline,
    /// A line for the timeline, with its kind.
    Record { kind: String, message: String },
    /// A query to answer.
    Query(DatabaseQuery),
    /// A message for platforms.
    Send(SendToPlatforms),
    /// Commands to register.
    Register(Commands),
    /// A command to run.
    Invoke(Command),
    /// A question for the user.
    Ask(Prompt),
    /// The user's answer to a question.
    Answer(PromptResponse),
    /// A message to hold for review.
    Review(AuditFlag),
}

/// What a [`Route`] says.
#[verifier::ext_equal]
pub enum RouteView {
    Nothing,
    Ingest(MessagePreProcessView),
    Pipeline,
    Record { kind: Seq<char>, message: Seq<char> },
    Query(DatabaseQueryView),
    Send(SendToPlatformsView),
    Register(CommandsView),
    Invoke(CommandView),
    Ask(PromptView),
    Answer(PromptResponseView),
    Review(AuditFlagView),
}

impl View for Route {
    type V = RouteView;

    open spec fn view(&self) -> RouteView {
        match *self {
            Route::Nothing => RouteView::Nothing,
            Route::Ingest(x) => RouteView::Ingest(x@),
            Route::Pipeline => RouteView::Pipeline,
            Route::Record { kind, message } => RouteView::Record {
                kind: kind@,
                message: message@,
            },
            Route::Query(x) => RouteView::Query(x@),
            Route::Send(x) => RouteView::Send(x@),
            Route::Register(x) => RouteView::Register(x@),
            Route::Invoke(x) => RouteView::Invoke(x@),
            Route::Ask(x) => RouteView::Ask(x@),
            Route::Answer(x) => RouteView::Answer(x@),
            Route::Review(x) => RouteView::Review(x@),
        }
    }
}

/// What becomes of a command that a module runs.
#[derive(Debug)]
pub enum Invocation {
    /// It goes to the module that owns it.
    Deliver { owner: String, container: Container },
    /// The module that owns it is not connected.
    NotConnected { owner: String },
    /// No module owns it.
    Unregistered,
}

/// What a [`Invocation`] says.
#[verifier::ext_equal]
pub enum InvocationView {
    Deliver { owner: Seq<char>, container: ContainerView },
    NotConnected { owner: Seq<char> },
    Unregistered,
}

impl View for Invocation {
    type V = InvocationView;

    open spec fn view(&self) -> InvocationView {
        match *self {
            Invocation::Deliver { owner, container } => InvocationView::Deliver {
                owner: owner@,
                container: container@,
            },
            Invocation::NotConnected { owner } => InvocationView::NotConnected {
                owner: owner@,
            },
            Invocation::Unregistered => InvocationView::Unregistered,
        }
    }
}

/// Whether a module has to be asked about.
pub open spec fn standing_of(name: Seq<char>, known: Seq<RegisteredModuleView>) -> Standing {
    if always_trusted(name) {
        Standing::Trusted
    } else if named(known, name) matches Some(m) && m.auto_auth {
        Standing::Known
    } else {
        Standing::Unknown
    }
}

/// Whether a name is none: blank, or the one that a module has before it is given one.
pub open spec fn is_unnamed(name: Seq<char>) -> bool {
    trim(name).len() == 0 || trim(name) == "unnamed_module"@
}

/// What becomes of a module's first message, given whether its token was granted. A token
/// decides alone; without one, the PIN and then the name are looked at.
pub open spec fn admitted(
    c: ContainerView,
    granted: bool,
    pin: u32,
    known: Seq<RegisteredModuleView>,
) -> AdmissionView {
    match c.payload {
        Some(PayloadView::ConnectionRequest(q)) => if c.auth_token.len() > 0 {
            if granted {
                AdmissionView::Back {
                    module_name: c.module_name,
                    instance_uuid7: c.module_instance_uuid7,
                }
            } else {
                AdmissionView::BadToken
            }
        } else if !pin_matches(q.pin, pin) {
            AdmissionView::BadPin
        } else if is_unnamed(c.module_name) {
            AdmissionView::Unnamed
        } else {
            AdmissionView::Newcomer {
                module_name: c.module_name,
                requested_uuid: q.module_instance_uuid7,
                position: position_name(q.process_position),
                priority: q.priority,
                standing: standing_of(c.module_name, known),
            }
        },
        _ => AdmissionView::NotARequest,
    }
}

/// Whether a container's token lets its sender act under its name at a time.
pub open spec fn token_granted(secret: Seq<char>, c: ContainerView, now_secs: i64) -> bool {
    claims_grant(
        signed_claims(secret, c.auth_token),
        c.module_instance_uuid7,
        c.module_name,
        now_secs as int,
    )
}

/// Decides on a module's first message at a given time.
pub fn judge_at(
    container: &Container,
    store: &AuthStore,
    registry: &ModuleRegistryPersistence,
    pin: u32,
    now_secs: i64,
) -> (r: Admission)
    ensures
        r@ == admitted(
            container@,
            token_granted(store.secret(), container@, now_secs),
            pin,
            registry@,
        ),
{
    let request: &ConnectionRequest = match &container.payload {
        Some(Payload::ConnectionRequest(q)) => q,
        _ => {
            return Admission::NotARequest;
        },
    };
    if container.auth_token.as_str().unicode_len() > 0 {
        let granted = store.verify_token_at(
            container.module_instance_uuid7.as_str(),
            container.auth_token.as_str(),
            container.module_name.as_str(),
            now_secs,
        );
        if !granted {
            return Admission::BadToken;
        }
        return Admission::Back {
            module_name: container.module_name.clone(),
            instance_uuid7: container.module_instance_uuid7.clone(),
        };
    }
    if !verify_pin(request.pin, pin) {
        return Admission::BadPin;
    }
    let claimed_name = trimmed(container.module_name.as_str());
    if claimed_name.as_str().unicode_len() == 0 || same(claimed_name.as_str(), "unnamed_module") {
        return Admission::Unnamed;
    }
    let standing = if is_always_trusted(container.module_name.as_str()) {
        Standing::Trusted
    } else if registry.is_known_and_auto_auth(container.module_name.as_str()) {
        Standing::Known
    } else {
        Standing::Unknown
    };
    Admission::Newcomer {
        module_name: container.module_name.clone(),
        requested_uuid: request.module_instance_uuid7.clone(),
        position: process_position_to_string(request.process_position),
        priority: request.priority,
        standing,
    }
}

/// Decides on a module's first message.
pub fn judge(
    container: &Container,
    store: &AuthStore,
    registry: &ModuleRegistryPersistence,
    pin: u32,
) -> (r: Admission)
    ensures
        exists|now_secs: i64|
            now_secs >= 0 && r@ == admitted(
                container@,
                #[trigger] token_granted(store.secret(), container@, now_secs),
                pin,
                registry@,
            ),
{
    let now_secs = now_seconds();
    judge_at(container, store, registry, pin, now_secs)
}

/// Whose name a refusal is noted under in the timeline, and what is noted of it; nothing of
/// a module that is not refused.
pub open spec fn refusal_of(c: ContainerView, a: AdmissionView) -> Option<(Seq<char>, Seq<char>)> {
    match a {
        AdmissionView::NotARequest => Some(
            (c.module_name, "first message was not a ConnectionRequest"@),
        ),
        AdmissionView::BadToken => Some((c.module_name, "invalid auth token"@)),
        AdmissionView::BadPin => Some((c.module_name, "invalid PIN"@)),
        AdmissionView::Unnamed => Some((trim(c.module_name), "blank/unnamed module identity"@)),
        _ => None,
    }
}

/// Whose name a refusal is noted under, and what is noted of it.
pub fn refusal_note(container: &Container, admission: &Admission) -> (r: Option<(String, String)>)
    ensures
        (match refusal_of(container@, admission@) {
            Some(n) => r matches Some(p) && p.0@ == n.0 && p.1@ == n.1,
            None => r is None,
        }),
{
    match admission {
        Admission::NotARequest => Some(
            (
                container.module_name.clone(),
                "first message was not a ConnectionRequest".to_owned(),
            ),
        ),
        Admission::BadToken => Some(
            (container.module_name.clone(), "invalid auth token".to_owned()),
        ),
        Admission::BadPin => Some((container.module_name.clone(), "invalid PIN".to_owned())),
        Admission::Unnamed => Some(
            (
                trimmed(container.module_name.as_str()),
                "blank/unnamed module identity".to_owned(),
            ),
        ),
        _ => None,
    }
}

/// What a refused module is answered.
pub open spec fn rejection_reply() -> ContainerView {
    engine_container(
        PayloadView::ConnectionRequestReturn(
            ConnectionRequestReturnView { new_port: 0, module_instance_uuid7: Seq::empty() },
        ),
    )
}

/// What a refused module is answered.
pub fn rejection() -> (r: Container)
    ensures
        r@ == rejection_reply(),
{
    from_engine(
        Payload::ConnectionRequestReturn(
            ConnectionRequestReturn { new_port: 0, module_instance_uuid7: String::new() },
        ),
    )
}

/// The id that a new module gets: the one it asks for, unless it asks for none or that one
/// is taken; then the candidate. `None` where the candidate is taken too, and another has to
/// be tried.
pub fn assign_uuid(requested: &str, taken: &Vec<String>, candidate: String) -> (r: Option<String>)
    ensures
        (if requested@.len() > 0 && !texts(taken@).contains(requested@) {
            r matches Some(u) && u@ == requested@
        } else if !texts(taken@).contains(candidate@) {
            r matches Some(u) && u@ == candidate@
        } else {
            r is None
        }),
{
    if requested.unicode_len() > 0 && !name_listed(taken, requested) {
        return Some(requested.to_owned());
    }
    if name_listed(taken, candidate.as_str()) {
        None
    } else {
        Some(candidate)
    }
}

/// What is known of a connection when its session is made.
#[derive(Debug, Clone, Copy)]
pub struct Peer {
    /// The socket that the session is bound to.
    pub socket_token: u64,
    /// Whether the peer connected from the loopback interface.
    pub loopback: bool,
}

/// Whether a session is that of a module that was just let in.
pub open spec fn fresh_session(
    s: AuthSession,
    module_name: Seq<char>,
    instance_uuid7: Seq<char>,
    auth_token: Seq<char>,
    position: Seq<char>,
    priority: i32,
    peer: Peer,
    now_ms: i64,
) -> bool {
    &&& s.module_name@ == module_name
    &&& s.instance_uuid7@ == instance_uuid7
    &&& s.auth_token@ == auth_token
    &&& s.position@ == position
    &&& s.priority == priority
    &&& s.authenticated
    &&& s.connected_at == Some(now_ms)
    &&& s.shutdown_at is None
    &&& s.last_activity_ms == now_ms
    &&& s.last_probe_at_ms == 0
    &&& s.probe_deadline_ms == 0
    &&& !s.unresponsive
    &&& s.peer_loopback == peer.loopback
    &&& s.socket_token == peer.socket_token
}

/// A session that a returning module took over.
pub open spec fn taken_over(s: AuthSession, peer: Peer, now_ms: i64) -> AuthSession {
    claimed(
        AuthSession { peer_loopback: peer.loopback, ..active(s, now_ms) },
        peer.socket_token,
        now_ms,
    )
}

/// Binds the session of a returning module to its new socket; a session that is gone is
/// made anew, since the token was granted.
pub fn reconnect(
    store: &mut AuthStore,
    container: &Container,
    request: &ConnectionRequest,
    peer: Peer,
    now_ms: i64,
)
    requires
        old(store).wf(),
    ensures
        final(store).wf(),
        final(store).secret() == old(store).secret(),
        ({
            let key = container@.module_instance_uuid7;
            let before = old(store).sessions();
            let after = final(store).sessions();
            if before.dom().contains(key) {
                after == before.insert(key, taken_over(before[key], peer, now_ms))
            } else {
                &&& after.dom().contains(key)
                &&& after.remove(key) == before
                &&& fresh_session(
                    after[key],
                    container@.module_name,
                    key,
                    container@.auth_token,
                    position_name(request@.process_position),
                    request@.priority,
                    peer,
                    now_ms,
                )
            }
        }),
{
    let uuid = container.module_instance_uuid7.as_str();
    store.update_activity(uuid, now_ms);
    store.set_peer_loopback(uuid, peer.loopback);
    store.claim_socket(uuid, peer.socket_token, now_ms);
    if store.get(uuid).is_none() {
        store.insert(
            AuthSession {
                module_name: container.module_name.clone(),
                instance_uuid7: container.module_instance_uuid7.clone(),
                auth_token: container.auth_token.clone(),
                position: process_position_to_string(request.process_position),
                priority: request.priority,
                authenticated: true,
                connected_at: Some(now_ms),
                shutdown_at: None,
                last_activity_ms: now_ms,
                last_probe_at_ms: 0,
                probe_deadline_ms: 0,
                unresponsive: false,
                peer_loopback: peer.loopback,
                socket_token: peer.socket_token,
            },
        );
        assert(store.sessions().remove(uuid@) =~= old(store).sessions());
    } else {
        assert(store.sessions() =~= old(store).sessions().insert(
            uuid@,
            taken_over(old(store).sessions()[uuid@], peer, now_ms),
        ));
    }
}

/// What an approved module is answered: its token and its id.
pub open spec fn approval_reply(instance_uuid7: Seq<char>, auth_token: Seq<char>) -> ContainerView {
    ContainerView {
        version: 1,
        auth_token,
        module_name: "cockatiel"@,
        module_instance_uuid7: instance_uuid7,
        payload: Some(
            PayloadView::ConnectionRequestReturn(
                ConnectionRequestReturnView {
                    new_port: 0,
                    module_instance_uuid7: instance_uuid7,
                },
            ),
        ),
    }
}

/// A module that was approved.
#[derive(Debug)]
pub struct Approved {
    pub module_name: String,
    pub instance_uuid7: String,
    pub position: String,
    pub priority: i32,
}

/// What is kept of an approved module, so that it is not asked about again.
pub open spec fn kept_module(m: Approved, auth_token: Seq<char>) -> RegisteredModuleView {
    RegisteredModuleView {
        name: m.module_name@,
        instance_uuid7: m.instance_uuid7@,
        position: m.position@,
        priority: m.priority,
        auto_auth: true,
        auth_token,
    }
}

/// Whether a module was let in with a token: it has a session, it is kept as approved, it
/// stands in the settings, and the reply hands it its token.
pub open spec fn let_in(
    m: Approved,
    token: Seq<char>,
    peer: Peer,
    now_ms: i64,
    before: (AuthStore, ModuleRegistryPersistence, Config),
    after: (AuthStore, ModuleRegistryPersistence, Config),
    reply: ContainerView,
) -> bool {
    let key = m.instance_uuid7@;
    let sessions = after.0.sessions();
    &&& after.0.secret() == before.0.secret()
    &&& sessions.dom().contains(key)
    &&& sessions.remove(key) == before.0.sessions().remove(key)
    &&& fresh_session(
        sessions[key],
        m.module_name@,
        key,
        token,
        m.position@,
        m.priority,
        peer,
        now_ms,
    )
    &&& after.1@ == registered(before.1@, kept_module(m, token))
    &&& after.1.file() == before.1.file()
    &&& after.2@ == module_added(before.2@, m.module_name@, m.position@, m.priority)
    &&& reply == approval_reply(key, token)
}

/// Lets an approved module in with a token.
pub fn accept_with(
    module: &Approved,
    token: String,
    peer: Peer,
    now_ms: i64,
    store: &mut AuthStore,
    registry: &mut ModuleRegistryPersistence,
    config: &mut Config,
) -> (r: Container)
    requires
        old(store).wf(),
    ensures
        final(store).wf(),
        let_in(
            *module,
            token@,
            peer,
            now_ms,
            (*old(store), *old(registry), *old(config)),
            (*final(store), *final(registry), *final(config)),
            r@,
        ),
{
    store.insert(
        AuthSession {
            module_name: module.module_name.clone(),
            instance_uuid7: module.instance_uuid7.clone(),
            auth_token: token.clone(),
            position: module.position.clone(),
            priority: module.priority,
            authenticated: true,
            connected_at: Some(now_ms),
            shutdown_at: None,
            last_activity_ms: now_ms,
            last_probe_at_ms: 0,
            probe_deadline_ms: 0,
            unresponsive: false,
            peer_loopback: peer.loopback,
            socket_token: peer.socket_token,
        },
    );
    assert(store.sessions().remove(module.instance_uuid7@) =~= old(store).sessions().remove(
        module.instance_uuid7@,
    ));
    registry.register(
        RegisteredModule {
            name: module.module_name.clone(),
            instance_uuid7: module.instance_uuid7.clone(),
            position: module.position.clone(),
            priority: module.priority,
            auto_auth: true,
            auth_token: token.clone(),
        },
    );
    add_module_to_config(
        config,
        module.module_name.as_str(),
        module.position.as_str(),
        module.priority,
    );
    Container {
        version: 1,
        auth_token: token,
        module_name: "cockatiel".to_owned(),
        module_instance_uuid7: module.instance_uuid7.clone(),
        payload: Some(
            Payload::ConnectionRequestReturn(
                ConnectionRequestReturn {
                    new_port: 0,
                    module_instance_uuid7: module.instance_uuid7.clone(),
                },
            ),
        ),
    }
}

/// Lets an approved module in: it is issued a token under its name.
pub fn accept(
    module: &Approved,
    peer: Peer,
    now_ms: i64,
    store: &mut AuthStore,
    registry: &mut ModuleRegistryPersistence,
    config: &mut Config,
) -> (r: Container)
    requires
        old(store).wf(),
    ensures
        final(store).wf(),
        exists|now_secs: i64|
            now_secs >= 0 && #[trigger] token_issued(
                old(store).secret(),
                r@.auth_token,
                module.instance_uuid7@,
                module.module_name@,
                now_secs,
            ),
        let_in(
            *module,
            r@.auth_token,
            peer,
            now_ms,
            (*old(store), *old(registry), *old(config)),
            (*final(store), *final(registry), *final(config)),
            r@,
        ),
{
    let token = store.generate_token(module.instance_uuid7.as_str(), module.module_name.as_str());
    let ghost issued = choose|now_secs: i64|
        now_secs >= 0 && #[trigger] token_issued(
            store.secret(),
            token@,
            module.instance_uuid7@,
            module.module_name@,
            now_secs,
        );
    let r = accept_with(module, token, peer, now_ms, store, registry, config);
    assert(token_issued(
        old(store).secret(),
        r@.auth_token,
        module.instance_uuid7@,
        module.module_name@,
        issued,
    ));
    r
}

/// Whether a payload is taken: its token lets the sender act under its name, and the
/// session is approved.
pub open spec fn payload_taken(
    secret: Seq<char>,
    sessions: Map<Seq<char>, AuthSession>,
    c: ContainerView,
    now_secs: i64,
) -> bool {
    token_granted(secret, c, now_secs) && authenticated(sessions, c.module_instance_uuid7)
}

/// The sessions after activity of one of them.
pub open spec fn touched(
    sessions: Map<Seq<char>, AuthSession>,
    key: Seq<char>,
    now_ms: i64,
) -> Map<Seq<char>, AuthSession> {
    changed(sessions, key, |s: AuthSession| active(s, now_ms))
}

/// Whether what a module sends is taken at a given time; what is taken counts as activity,
/// what is not changes nothing, and the connection is to be closed.
pub fn authorize_at(store: &mut AuthStore, container: &Container, now_secs: i64, now_ms: i64) -> (r:
    bool)
    requires
        old(store).wf(),
    ensures
        final(store).wf(),
        final(store).secret() == old(store).secret(),
        r == payload_taken(old(store).secret(), old(store).sessions(), container@, now_secs),
        final(store).sessions() == (if r {
            touched(old(store).sessions(), container@.module_instance_uuid7, now_ms)
        } else {
            old(store).sessions()
        }),
{
    let uuid = container.module_instance_uuid7.as_str();
    if !store.verify_token_at(
        uuid,
        container.auth_token.as_str(),
        container.module_name.as_str(),
        now_secs,
    ) || !store.is_authenticated(uuid) {
        return false;
    }
    store.update_activity(uuid, now_ms);
    true
}

/// Whether what a module sends is taken.
pub fn authorize(store: &mut AuthStore, container: &Container) -> (r: bool)
    requires
        old(store).wf(),
    ensures
        final(store).wf(),
        final(store).secret() == old(store).secret(),
        exists|now_secs: i64|
            now_secs >= 0 && r == #[trigger] payload_taken(
                old(store).secret(),
                old(store).sessions(),
                container@,
                now_secs,
            ),
        !r ==> final(store).sessions() == old(store).sessions(),
        r ==> exists|now_ms: i64|
            final(store).sessions() == #[trigger] touched(
                old(store).sessions(),
                container@.module_instance_uuid7,
                now_ms,
            ),
{
    let secs = now_seconds();
    let ms = now_ms();
    let ghost before = store.sessions();
    let r = authorize_at(store, container, secs, ms);
    assert(r ==> store.sessions() == touched(before, container@.module_instance_uuid7, ms));
    r
}

/// Takes a session down when its connection is gone, unless a newer connection took it
/// over. Says whether it did.
pub fn disconnect(store: &mut AuthStore, instance_uuid7: &str, socket_token: u64, now_ms: i64) -> (r:
    bool)
    requires
        old(store).wf(),
    ensures
        final(store).wf(),
        final(store).secret() == old(store).secret(),
        r == bound_to(old(store).sessions(), instance_uuid7@, socket_token),
        final(store).sessions() == released(
            shut_down(old(store).sessions(), instance_uuid7@, now_ms, socket_token),
            instance_uuid7@,
            socket_token,
        ),
{
    store.set_shutdown_if_socket(instance_uuid7, now_ms, socket_token);
    store.remove_if_socket(instance_uuid7, socket_token)
}

/// What is done with what a connected module sends.
pub open spec fn routed(payload: Option<PayloadView>) -> RouteView {
    match payload {
        Some(PayloadView::MessagePreProcess(m)) => RouteView::Ingest(m),
        Some(PayloadView::MessageInProcess(_)) => RouteView::Pipeline,
        Some(PayloadView::MessagePostProcess(_)) => RouteView::Pipeline,
        Some(PayloadView::MessageAck(_)) => RouteView::Pipeline,
        Some(PayloadView::LogLine(l)) => RouteView::Record { kind: "module_log"@, message: l.log },
        Some(PayloadView::ErrorLine(l)) => RouteView::Record {
            kind: "module_error"@,
            message: l.log,
        },
        Some(PayloadView::DatabaseQuery(q)) => RouteView::Query(q),
        Some(PayloadView::SendToPlatforms(s)) => RouteView::Send(s),
        Some(PayloadView::CommandsPayload(c)) => RouteView::Register(c),
        Some(PayloadView::CommandPayload(c)) => RouteView::Invoke(c),
        Some(PayloadView::Prompt(p)) => RouteView::Ask(p),
        Some(PayloadView::PromptResponse(p)) => RouteView::Answer(p),
        Some(PayloadView::AuditFlag(f)) => RouteView::Review(f),
        _ => RouteView::Nothing,
    }
}

/// Decides what is done with what a connected module sends.
pub fn route(payload: &Option<Payload>) -> (r: Route)
    ensures
        r@ == routed(crate::proto::opt_view(*payload)),
{
    match payload {
        Some(Payload::MessagePreProcess(m)) => Route::Ingest(m.clone()),
        Some(Payload::MessageInProcess(_)) => Route::Pipeline,
        Some(Payload::MessagePostProcess(_)) => Route::Pipeline,
        Some(Payload::MessageAck(_)) => Route::Pipeline,
        Some(Payload::LogLine(l)) => Route::Record {
            kind: "module_log".to_owned(),
            message: l.log.clone(),
        },
        Some(Payload::ErrorLine(l)) => Route::Record {
            kind: "module_error".to_owned(),
            message: l.log.clone(),
        },
        Some(Payload::DatabaseQuery(q)) => Route::Query(q.clone()),
        Some(Payload::SendToPlatforms(s)) => Route::Send(s.clone()),
        Some(Payload::CommandsPayload(c)) => Route::Register(c.clone()),
        Some(Payload::CommandPayload(c)) => Route::Invoke(c.clone()),
        Some(Payload::Prompt(p)) => Route::Ask(p.clone()),
        Some(Payload::PromptResponse(p)) => Route::Answer(p.clone()),
        Some(Payload::AuditFlag(f)) => Route::Review(f.clone()),
        _ => Route::Nothing,
    }
}

/// Takes what a module sends at a given time. What is not let through is not looked at:
/// `None`, and the connection is to be closed.
pub fn receive_at(store: &mut AuthStore, container: &Container, now_secs: i64, now_ms: i64) -> (r:
    Option<Route>)
    requires
        old(store).wf(),
    ensures
        final(store).wf(),
        final(store).secret() == old(store).secret(),
        (if payload_taken(old(store).secret(), old(store).sessions(), container@, now_secs) {
            &&& r matches Some(x)
            &&& x@ == routed(container@.payload)
            &&& final(store).sessions() == touched(
                old(store).sessions(),
                container@.module_instance_uuid7,
                now_ms,
            )
        } else {
            r is None && final(store).sessions() == old(store).sessions()
        }),
{
    if authorize_at(store, container, now_secs, now_ms) {
        Some(route(&container.payload))
    } else {
        None
    }
}

/// Takes what a module sends, now.
pub fn receive(store: &mut AuthStore, container: &Container) -> (r: Option<Route>)
    requires
        old(store).wf(),
    ensures
        final(store).wf(),
        final(store).secret() == old(store).secret(),
        exists|now_secs: i64|
            now_secs >= 0 && r is Some == #[trigger] payload_taken(
                old(store).secret(),
                old(store).sessions(),
                container@,
                now_secs,
            ),
        r matches Some(x) ==> x@ == routed(container@.payload),
        r is None ==> final(store).sessions() == old(store).sessions(),
        r is Some ==> exists|now_ms: i64|
            final(store).sessions() == #[trigger] touched(
                old(store).sessions(),
                container@.module_instance_uuid7,
                now_ms,
            ),
{
    if authorize(store, container) {
        Some(route(&container.payload))
    } else {
        None
    }
}

/// What enters the pipeline of a new message whose author was looked up: the message with
/// its command, under the sender's header; and what is answered on its channel.
pub fn ingest(container: &Container, message: MessagePreProcess, registry: &CommandRegistry) -> (r:
    (Container, Option<PlatformReply>))
    requires
        registry.wf(),
    ensures
        r.0@ == (ContainerView {
            payload: Some(
                PayloadView::MessagePreProcess(
                    MessagePreProcessView {
                        raw_message: match message@.raw_message {
                            Some(c) => Some(ingested_chat(registry, c)),
                            None => None,
                        },
                        ..message@
                    },
                ),
            ),
            ..container@
        }),
        (match message@.raw_message {
            Some(c) => answers(r.1, registry, c),
            None => r.1 is None,
        }),
{
    let mut message = message;
    let reply: Option<PlatformReply>;
    match message.raw_message {
        Some(chat) => {
            let mut chat = chat;
            reply = handle_command_on_ingest(&mut chat, registry);
            message.raw_message = Some(chat);
        },
        None => {
            reply = None;
            message.raw_message = None;
        },
    }
    let out = Container {
        version: container.version,
        auth_token: container.auth_token.clone(),
        module_name: container.module_name.clone(),
        module_instance_uuid7: container.module_instance_uuid7.clone(),
        payload: Some(Payload::MessagePreProcess(message)),
    };
    (out, reply)
}

/// What is passed on of what a module sent: the same, under the sender's header.
pub open spec fn relayed(c: ContainerView) -> ContainerView {
    ContainerView { version: 1, ..c }
}

/// What is passed on of what a module sent.
pub fn relay(container: &Container) -> (r: Container)
    ensures
        r@ == relayed(container@),
{
    let mut r = container.clone();
    r.version = 1;
    r
}

/// The connected adapters that a message for platforms goes to.
pub fn send_targets(send: &SendToPlatforms, connected: &Vec<String>) -> (r: Vec<String>)
    ensures
        texts(r@) == only_connected(platform_adapters(send@.platform), texts(connected@)),
{
    keep_connected(&platform_targets(send.platform.as_str()), connected)
}

/// What a module is delivered of a command that another one runs.
pub open spec fn command_delivery(from: Seq<char>, command: CommandView) -> ContainerView {
    engine_container(
        PayloadView::MessagePreProcess(
            MessagePreProcessView {
                message_uuid7: Seq::empty(),
                raw_message: Some(
                    ChatMessageView {
                        platform: "command:"@ + from,
                        raw_data: Seq::empty(),
                        raw_message: Seq::empty(),
                        user_uuid7: Seq::empty(),
                        command: Some(command),
                        channel_id: Seq::empty(),
                        user_data: None,
                    },
                ),
                audio: Seq::empty(),
                audio_type: Seq::empty(),
            },
        ),
    )
}

/// What becomes of a command that a module runs outside of any chat message: it goes to
/// its owner, if that is connected.
pub fn invoke_command(
    registry: &CommandRegistry,
    from: &str,
    command: &Command,
    connected: &Vec<String>,
) -> (r: Invocation)
    requires
        registry.wf(),
    ensures
        r@ == ({
            let key = (command@.command_flag, command@.command_name);
            if !registry.index().dom().contains(key) {
                InvocationView::Unregistered
            } else if texts(connected@).contains(registry.index()[key]) {
                InvocationView::Deliver {
                    owner: registry.index()[key],
                    container: command_delivery(from@, command@),
                }
            } else {
                InvocationView::NotConnected { owner: registry.index()[key] }
            }
        }),
{
    match registry.owner(command.command_flag.as_str(), command.command_name.as_str()) {
        None => Invocation::Unregistered,
        Some(owner) => if name_listed(connected, owner.as_str()) {
            let mut platform = "command:".to_owned();
            platform.append(from);
            let container = from_engine(
                Payload::MessagePreProcess(
                    MessagePreProcess {
                        message_uuid7: String::new(),
                        raw_message: Some(
                            ChatMessage {
                                platform,
                                raw_data: Vec::new(),
                                raw_message: String::new(),
                                user_uuid7: String::new(),
                                command: Some(command.clone()),
                                channel_id: String::new(),
                                user_data: None,
                            },
                        ),
                        audio: Vec::new(),
                        audio_type: String::new(),
                    },
                ),
            );
            Invocation::Deliver { owner, container }
        } else {
            Invocation::NotConnected { owner }
        },
    }
}

/// How a line of a module's life is labelled in the timeline.
pub open spec fn lifecycle_label(kind: Seq<char>, source: Seq<char>) -> JsonView {
    JsonView::Object(
        Map::<Seq<char>, JsonView>::empty().insert("source"@, JsonView::Text(source)).insert(
            "kind"@,
            JsonView::Text(kind),
        ),
    )
}

/// Keeps a line of a module's life in the timeline, for the record only.
pub fn log_to_timeline(db: &DatabaseManager, kind: &str, source: &str, message: &str) -> (r:
    Statement)
    ensures
        exists|id: u128, t: i64|
            version_of(id) == 7 && r@ == #[trigger] archival_statement(
                id_bytes(id),
                "engine"@,
                "module_lifecycle"@,
                message@,
                json_text(lifecycle_label(kind@, source@)),
                t,
            ),
{
    let mut m = no_members();
    put(&mut m, "source", json_str(source));
    put(&mut m, "kind", json_str(kind));
    let flags = write_json(&object(m));
    db.insert_archival_event("engine", "module_lifecycle", message, flags.as_str())
}

/// Keeps a message for platforms in the timeline, with who sent it.
pub fn log_send(db: &DatabaseManager, send: &SendToPlatforms) -> (r: Statement)
    ensures
        exists|id: u128, t: i64|
            version_of(id) == 7 && r@ == #[trigger] archival_statement(
                id_bytes(id),
                "engine"@,
                "send_to_platforms"@,
                send@.msg,
                json_text(sent_note(send@)),
                t,
            ),
{
    let flags = sender_note(send);
    let r = db.insert_archival_event(
        "engine",
        "send_to_platforms",
        send.msg.as_str(),
        flags.as_str(),
    );
    assert(send.msg@ == send@.msg);
    r
}

/// Without a granted token and without the PIN nothing is let in, whatever name is claimed;
/// and a module without a name of its own is no newcomer.
pub proof fn law_nobody_enters_without_token_or_pin(
    c: ContainerView,
    granted: bool,
    pin: u32,
    known: Seq<RegisteredModuleView>,
)
    ensures
        admitted(c, granted, pin, known) is Back ==> granted && c.auth_token.len() > 0,
        admitted(c, granted, pin, known) is Newcomer ==> {
            &&& c.payload matches Some(PayloadView::ConnectionRequest(q))
            &&& pin_matches(q.pin, pin)
            &&& !is_unnamed(c.module_name)
        },
{
}

/// A module that was let in once is not asked about again: with the PIN and its name it is
/// a known newcomer.
pub proof fn law_approved_module_is_known(
    m: Approved,
    token: Seq<char>,
    known: Seq<RegisteredModuleView>,
)
    ensures
        standing_of(m.module_name@, registered(known, kept_module(m, token))) != Standing::Unknown,
{
    crate::module_registry::law_registered_module_is_found(known, kept_module(m, token));
}

/// A module that was let in is taken at its word until its token runs out: what it sends
/// with the token under its name is taken at any time before, and nothing is under another
/// name.
pub proof fn law_approved_module_is_taken(
    m: Approved,
    peer: Peer,
    now_ms: i64,
    issued: i64,
    before: (AuthStore, ModuleRegistryPersistence, Config),
    after: (AuthStore, ModuleRegistryPersistence, Config),
    reply: ContainerView,
    c: ContainerView,
    now_secs: i64,
)
    requires
        let_in(m, reply.auth_token, peer, now_ms, before, after, reply),
        token_issued(
            before.0.secret(),
            reply.auth_token,
            m.instance_uuid7@,
            m.module_name@,
            issued,
        ),
        crate::auth::token_expiry(issued) >= 0,
        c.auth_token == reply.auth_token,
        c.module_instance_uuid7 == m.instance_uuid7@,
    ensures
        payload_taken(after.0.secret(), after.0.sessions(), c, now_secs) == (c.module_name
            == m.module_name@ && now_secs < crate::auth::token_expiry(issued)),
{
}

/// A session that was taken down is not spoken for: nothing its module sends is taken until
/// it connects again.
pub proof fn law_nothing_is_taken_after_disconnect(
    secret: Seq<char>,
    sessions: Map<Seq<char>, AuthSession>,
    c: ContainerView,
    socket_token: u64,
    timestamp: i64,
    now_secs: i64,
)
    requires
        bound_to(sessions, c.module_instance_uuid7, socket_token),
    ensures
        !payload_taken(
            secret,
            released(
                shut_down(sessions, c.module_instance_uuid7, timestamp, socket_token),
                c.module_instance_uuid7,
                socket_token,
            ),
            c,
            now_secs,
        ),
{
}

/// A returning module owns its session: the old socket's cleanup leaves it, and what the
/// module sends counts as from an approved session if it was one.
pub proof fn law_takeover_survives_old_socket(
    sessions: Map<Seq<char>, AuthSession>,
    key: Seq<char>,
    peer: Peer,
    old_socket: u64,
    now_ms: i64,
    timestamp: i64,
)
    requires
        sessions.dom().contains(key),
        old_socket != peer.socket_token,
    ensures
        ({
            let after = sessions.insert(key, taken_over(sessions[key], peer, now_ms));
            &&& released(shut_down(after, key, timestamp, old_socket), key, old_socket) == after
            &&& authenticated(after, key) == authenticated(sessions, key)
        }),
{
}

} // verus!
