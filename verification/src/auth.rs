//! Module sessions and the signed tokens that bind a module to its name.
use crate::clock::now_seconds;
use crate::strmap::{lemma_position_at, StrMap};
use crate::text::same;
use vstd::prelude::*;

verus! {

/// A connected module's session.
#[derive(Debug)]
pub struct AuthSession {
    pub module_name: String,
    pub instance_uuid7: String,
    pub auth_token: String,
    pub position: String,
    pub priority: i32,
    pub authenticated: bool,
    pub connected_at: Option<i64>,
    pub shutdown_at: Option<i64>,
    /// When any valid container last arrived from this session (ms epoch).
    pub last_activity_ms: i64,
    /// When a liveness probe was last sent (ms epoch).
    pub last_probe_at_ms: i64,
    /// When the answer to the probe is due (ms epoch); 0 where none is outstanding.
    pub probe_deadline_ms: i64,
    /// Set when a probe went unanswered.
    pub unresponsive: bool,
    /// Whether the peer connected from the loopback interface.
    pub peer_loopback: bool,
    /// The socket the session is bound to. A reconnect claims the session under
    /// a new one.
    pub socket_token: u64,
}

impl Clone for AuthSession {
    fn clone(&self) -> (r: Self)
        ensures
            r == *self,
    {
        AuthSession {
            module_name: self.module_name.clone(),
            instance_uuid7: self.instance_uuid7.clone(),
            auth_token: self.auth_token.clone(),
            position: self.position.clone(),
            priority: self.priority,
            authenticated: self.authenticated,
            connected_at: self.connected_at,
            shutdown_at: self.shutdown_at,
            last_activity_ms: self.last_activity_ms,
            last_probe_at_ms: self.last_probe_at_ms,
            probe_deadline_ms: self.probe_deadline_ms,
            unresponsive: self.unresponsive,
            peer_loopback: self.peer_loopback,
            socket_token: self.socket_token,
        }
    }
}

/// What a token says.
#[derive(Debug)]
pub struct TokenClaims {
    pub sub: String,
    pub name: String,
    pub iat: i64,
    pub exp: i64,
}

/// How long a token is good for: thirty days.
pub const TOKEN_TTL_SECS: i64 = 2592000;

/// The claims of a token as they were read: a field is `None` where the token
/// does not hold it in its type.
pub type RawClaims = (Option<Seq<char>>, Option<Seq<char>>, Option<i64>, Option<i64>);

/// What `jsonwebtoken::decode` reads from a token under a secret, expiry left aside:
/// `None` where it refuses the token, else its `sub`, `name`, `iat` and `exp` claims.
pub uninterp spec fn signed_claims(secret: Seq<char>, token: Seq<char>) -> Option<RawClaims>;

/// Calls `jsonwebtoken::decode` with an HMAC-SHA256 key made of the secret and the
/// default validation, except that the expiry is not held against the clock: what it
/// gives back depends on the secret and the token alone. The claims are read as a general
/// value: of one that a token holds twice the last counts, and a token is refused where a
/// further claim cannot be held, being nested too deep or a number out of range.
#[verifier::external_body]
fn decode_claims(secret: &str, token: &str) -> (r: Option<
    (Option<String>, Option<String>, Option<i64>, Option<i64>),
>)
    ensures
        (match r {
            None => signed_claims(secret@, token@) is None,
            Some(c) => signed_claims(secret@, token@) == Some(
                (text_of(c.0), text_of(c.1), c.2, c.3),
            ),
        }),
{
    let key = jsonwebtoken::DecodingKey::from_secret(secret.as_bytes());
    let mut rules = jsonwebtoken::Validation::default();
    rules.validate_exp = false;
    let data = jsonwebtoken::decode::<serde_json::Value>(token, &key, &rules).ok()?;
    let claims = data.claims;
    Some(
        (
            claims["sub"].as_str().map(String::from),
            claims["name"].as_str().map(String::from),
            claims["iat"].as_i64(),
            claims["exp"].as_i64(),
        ),
    )
}

/// Calls `jsonwebtoken::encode` with the default header (HMAC-SHA256) and a key made of
/// the secret. With such a key nothing in it can fail. A token whose expiry is not
/// negative reads back as the claims it was made of.
#[verifier::external_body]
fn encode_claims(secret: &str, claims: &TokenClaims) -> (r: Option<String>)
    ensures
        r is Some,
        claims.exp >= 0 ==> signed_claims(secret@, r.unwrap()@) == Some(
            (Some(claims.sub@), Some(claims.name@), Some(claims.iat), Some(claims.exp)),
        ),
{
    let mut body: std::collections::BTreeMap<&str, serde_json::Value> =
        std::collections::BTreeMap::new();
    body.insert("sub", serde_json::Value::from(claims.sub.as_str()));
    body.insert("name", serde_json::Value::from(claims.name.as_str()));
    body.insert("iat", serde_json::Value::from(claims.iat));
    body.insert("exp", serde_json::Value::from(claims.exp));
    let key = jsonwebtoken::EncodingKey::from_secret(secret.as_bytes());
    jsonwebtoken::encode(&jsonwebtoken::Header::default(), &body, &key).ok()
}

/// The text of an optional string.
pub open spec fn text_of(s: Option<String>) -> Option<Seq<char>> {
    match s {
        Some(t) => Some(t@),
        None => None,
    }
}

/// Whether claims let a module act under a name at a time: all four are there, the
/// token was issued to this instance and this name, and it has not run out.
pub open spec fn claims_grant(
    claims: Option<RawClaims>,
    instance_uuid7: Seq<char>,
    name: Seq<char>,
    now: int,
) -> bool {
    match claims {
        Some((Some(sub), Some(bound), Some(iat), Some(exp))) => {
            sub == instance_uuid7 && exp > now && bound == name
        },
        _ => false,
    }
}

/// When a token issued at a time runs out.
pub open spec fn token_expiry(now: i64) -> i64 {
    if now <= i64::MAX - TOKEN_TTL_SECS {
        (now + TOKEN_TTL_SECS) as i64
    } else {
        i64::MAX
    }
}

/// A token that was issued to an instance under a name at a time.
pub open spec fn token_issued(
    secret: Seq<char>,
    token: Seq<char>,
    instance_uuid7: Seq<char>,
    name: Seq<char>,
    now: i64,
) -> bool {
    token_expiry(now) >= 0 ==> signed_claims(secret, token) == Some(
        (Some(instance_uuid7), Some(name), Some(now), Some(token_expiry(now))),
    )
}

/// A token grants exactly the instance and the name it was issued to, until it runs out.
pub proof fn law_token_bound_to_name(
    secret: Seq<char>,
    token: Seq<char>,
    instance_uuid7: Seq<char>,
    name: Seq<char>,
    issued_at: i64,
    claimed_uuid7: Seq<char>,
    claimed_name: Seq<char>,
    now: i64,
)
    requires
        token_issued(secret, token, instance_uuid7, name, issued_at),
        token_expiry(issued_at) >= 0,
    ensures
        claims_grant(signed_claims(secret, token), claimed_uuid7, claimed_name, now as int) == (
        claimed_uuid7 == instance_uuid7 && claimed_name == name && now < token_expiry(issued_at)),
{
}

/// Whether the claims read from a token let a module act under a name at a time.
pub fn claims_allow(
    claims: &Option<(Option<String>, Option<String>, Option<i64>, Option<i64>)>,
    instance_uuid7: &str,
    expected_name: &str,
    now: i64,
) -> (r: bool)
    ensures
        r == claims_grant(
            (match *claims {
                Some(c) => Some((text_of(c.0), text_of(c.1), c.2, c.3)),
                None => None,
            }),
            instance_uuid7@,
            expected_name@,
            now as int,
        ),
{
    match claims {
        Some((Some(sub), Some(name), Some(_), Some(exp))) => {
            same(sub.as_str(), instance_uuid7) && *exp > now && same(name.as_str(), expected_name)
        },
        _ => false,
    }
}

/// Issues a token at a given time.
pub fn generate_auth_token_at(
    secret: &str,
    instance_uuid7: &str,
    module_name: &str,
    now: i64,
) -> (r: String)
    ensures
        token_issued(secret@, r@, instance_uuid7@, module_name@, now),
{
    let exp: i64 = if now <= i64::MAX - TOKEN_TTL_SECS {
        now + TOKEN_TTL_SECS
    } else {
        i64::MAX
    };
    let claims = TokenClaims {
        sub: instance_uuid7.to_owned(),
        name: module_name.to_owned(),
        iat: now,
        exp,
    };
    match encode_claims(secret, &claims) {
        Some(token) => token,
        None => String::new(),
    }
}

/// Issues a token now.
pub fn generate_auth_token(secret: &str, instance_uuid7: &str, module_name: &str) -> (r: String)
    ensures
        exists|now: i64|
            now >= 0 && #[trigger] token_issued(
                secret@,
                r@,
                instance_uuid7@,
                module_name@,
                now,
            ),
{
    let now = now_seconds();
    generate_auth_token_at(secret, instance_uuid7, module_name, now)
}

/// Whether a PIN that came over the wire is the configured one. The wire's type is
/// signed, so a PIN is compared modulo 2^32.
pub open spec fn pin_matches(pin: i32, config_pin: u32) -> bool {
    (if pin >= 0 {
        pin as int
    } else {
        pin + 0x1_0000_0000
    }) == config_pin
}

/// Whether a PIN that came over the wire is the configured one.
pub fn verify_pin(pin: i32, config_pin: u32) -> (r: bool)
    ensures
        r == pin_matches(pin, config_pin),
{
    assert(pin >= 0 ==> pin as u32 == pin) by (bit_vector);
    assert(pin < 0 ==> pin as u32 == pin + 0x1_0000_0000) by (bit_vector);
    (pin as u32) == config_pin
}

/// The sessions by instance, and the secret that tokens are signed with.
pub struct AuthStore {
    sessions: StrMap<AuthSession>,
    secret: String,
}

/// The sessions after one of them was changed; none where there is no such session.
pub open spec fn changed(
    sessions: Map<Seq<char>, AuthSession>,
    key: Seq<char>,
    change: spec_fn(AuthSession) -> AuthSession,
) -> Map<Seq<char>, AuthSession> {
    if sessions.dom().contains(key) {
        sessions.insert(key, change(sessions[key]))
    } else {
        sessions
    }
}

/// A session that activity was seen on.
pub open spec fn active(s: AuthSession, now_ms: i64) -> AuthSession {
    AuthSession { last_activity_ms: now_ms, probe_deadline_ms: 0, ..s }
}

/// A session that a new socket took over.
pub open spec fn claimed(s: AuthSession, socket_token: u64, now_ms: i64) -> AuthSession {
    AuthSession {
        socket_token,
        connected_at: Some(now_ms),
        shutdown_at: None,
        last_activity_ms: now_ms,
        probe_deadline_ms: 0,
        unresponsive: false,
        ..s
    }
}

/// Whether a session is there and bound to a socket.
pub open spec fn bound_to(
    sessions: Map<Seq<char>, AuthSession>,
    key: Seq<char>,
    socket_token: u64,
) -> bool {
    sessions.dom().contains(key) && sessions[key].socket_token == socket_token
}

/// The sessions after a socket gave one up.
pub open spec fn released(
    sessions: Map<Seq<char>, AuthSession>,
    key: Seq<char>,
    socket_token: u64,
) -> Map<Seq<char>, AuthSession> {
    if bound_to(sessions, key, socket_token) {
        sessions.remove(key)
    } else {
        sessions
    }
}

/// The sessions after a socket marked one as shut down.
pub open spec fn shut_down(
    sessions: Map<Seq<char>, AuthSession>,
    key: Seq<char>,
    timestamp: i64,
    socket_token: u64,
) -> Map<Seq<char>, AuthSession> {
    if bound_to(sessions, key, socket_token) {
        sessions.insert(key, AuthSession { shutdown_at: Some(timestamp), ..sessions[key] })
    } else {
        sessions
    }
}

/// Whether payloads of an instance are accepted: the session is there and approved.
pub open spec fn authenticated(sessions: Map<Seq<char>, AuthSession>, key: Seq<char>) -> bool {
    sessions.dom().contains(key) && sessions[key].authenticated
}

/// A socket that lost its session to a reconnect cannot take it down: its cleanup
/// leaves the sessions as the reconnect left them.
pub proof fn law_reconnect_survives_stale_cleanup(
    sessions: Map<Seq<char>, AuthSession>,
    key: Seq<char>,
    old_socket: u64,
    new_socket: u64,
    now_ms: i64,
    timestamp: i64,
)
    requires
        old_socket != new_socket,
        sessions.dom().contains(key),
    ensures
        ({
            let after = changed(sessions, key, |s: AuthSession| claimed(s, new_socket, now_ms));
            &&& shut_down(after, key, timestamp, old_socket) == after
            &&& released(after, key, old_socket) == after
            &&& bound_to(after, key, new_socket)
        }),
{
}

/// The socket that owns a session takes it down, and only that session.
pub proof fn law_owner_cleanup_removes_session(
    sessions: Map<Seq<char>, AuthSession>,
    key: Seq<char>,
    socket: u64,
    timestamp: i64,
)
    requires
        bound_to(sessions, key, socket),
    ensures
        released(shut_down(sessions, key, timestamp, socket), key, socket) == sessions.remove(key),
        !authenticated(
            released(shut_down(sessions, key, timestamp, socket), key, socket),
            key,
        ),
{
    assert(released(shut_down(sessions, key, timestamp, socket), key, socket)
        =~= sessions.remove(key));
}

impl AuthStore {
    /// The sessions by instance.
    pub closed spec fn sessions(&self) -> Map<Seq<char>, AuthSession> {
        self.sessions@
    }

    /// The sessions in the order in which they were added.
    pub closed spec fn listed(&self) -> Seq<(Seq<char>, AuthSession)> {
        self.sessions.pairs()
    }

    /// The signing secret.
    pub closed spec fn secret(&self) -> Seq<char> {
        self.secret@
    }

    /// Each session stands under its own instance id.
    pub closed spec fn wf(&self) -> bool {
        &&& self.sessions.wf()
        &&& forall|k: Seq<char>| #[trigger]
            self.sessions@.dom().contains(k) ==> self.sessions@[k].instance_uuid7@ == k
    }

    /// What well-formedness means for the sessions.
    pub proof fn lemma_wf(&self)
        requires
            self.wf(),
        ensures
            forall|k: Seq<char>| #[trigger]
                self.sessions().dom().contains(k) ==> self.sessions()[k].instance_uuid7@ == k,
            self.sessions() == crate::strmap::as_map(self.listed()),
            crate::strmap::keys_distinct(self.listed()),
            self.sessions().dom().len() == self.listed().len(),
    {
        crate::strmap::lemma_size(self.listed());
    }

    /// A store without sessions.
    pub fn new(secret: String) -> (r: Self)
        ensures
            r.wf(),
            r.secret() == secret@,
            r.sessions() == Map::<Seq<char>, AuthSession>::empty(),
            r.listed() == Seq::<(Seq<char>, AuthSession)>::empty(),
    {
        AuthStore { sessions: StrMap::new(), secret }
    }

    /// Adds a session, in place of one of the same instance.
    pub fn insert(&mut self, session: AuthSession)
        requires
            old(self).wf(),
        ensures
            final(self).wf(),
            final(self).secret() == old(self).secret(),
            final(self).sessions() == old(self).sessions().insert(session.instance_uuid7@, session),
            final(self).listed() == crate::strmap::put(
                old(self).listed(),
                session.instance_uuid7@,
                session,
            ),
            final(self).listed().len() == old(self).listed().len() + (if old(
                self,
            ).sessions().dom().contains(session.instance_uuid7@) {
                0int
            } else {
                1
            }),
    {
        let key = session.instance_uuid7.clone();
        self.sessions.insert(key, session);
    }

    /// The session of an instance.
    pub fn get(&self, instance_uuid7: &str) -> (r: Option<AuthSession>)
        ensures
            r == (if self.sessions().dom().contains(instance_uuid7@) {
                Some(self.sessions()[instance_uuid7@])
            } else {
                None
            }),
    {
        match self.sessions.get(instance_uuid7) {
            Some(s) => Some(s.clone()),
            None => None,
        }
    }

    /// Whether payloads of an instance are accepted.
    pub fn is_authenticated(&self, instance_uuid7: &str) -> (r: bool)
        ensures
            r == authenticated(self.sessions(), instance_uuid7@),
    {
        match self.sessions.get(instance_uuid7) {
            Some(s) => s.authenticated,
            None => false,
        }
    }

    /// Whether a token lets an instance act under a name at a given time.
    pub fn verify_token_at(
        &self,
        instance_uuid7: &str,
        token: &str,
        expected_name: &str,
        now: i64,
    ) -> (r: bool)
        ensures
            r == claims_grant(
                signed_claims(self.secret(), token@),
                instance_uuid7@,
                expected_name@,
                now as int,
            ),
    {
        let claims = decode_claims(self.secret.as_str(), token);
        claims_allow(&claims, instance_uuid7, expected_name, now)
    }

    /// Whether a token lets an instance act under a name now.
    pub fn verify_token(&self, instance_uuid7: &str, token: &str, expected_name: &str) -> (r: bool)
        ensures
            exists|now: i64|
                now >= 0 && r == #[trigger] claims_grant(
                    signed_claims(self.secret(), token@),
                    instance_uuid7@,
                    expected_name@,
                    now as int,
                ),
    {
        let now = now_seconds();
        self.verify_token_at(instance_uuid7, token, expected_name, now)
    }

    /// Records activity; any valid container answers an outstanding probe.
    pub fn update_activity(&mut self, instance_uuid7: &str, now_ms: i64)
        requires
            old(self).wf(),
        ensures
            final(self).wf(),
            final(self).secret() == old(self).secret(),
            final(self).sessions() == changed(
                old(self).sessions(),
                instance_uuid7@,
                |s: AuthSession| active(s, now_ms),
            ),
    {
        if let Some(session) = self.sessions.get_mut(instance_uuid7) {
            session.last_activity_ms = now_ms;
            session.probe_deadline_ms = 0;
        }
    }

    /// Records whether the peer is on the loopback interface.
    pub fn set_peer_loopback(&mut self, instance_uuid7: &str, peer_loopback: bool)
        requires
            old(self).wf(),
        ensures
            final(self).wf(),
            final(self).secret() == old(self).secret(),
            final(self).sessions() == changed(
                old(self).sessions(),
                instance_uuid7@,
                |s: AuthSession| AuthSession { peer_loopback, ..s },
            ),
    {
        if let Some(session) = self.sessions.get_mut(instance_uuid7) {
            session.peer_loopback = peer_loopback;
        }
    }

    /// Binds a session to a new socket and marks it live again.
    pub fn claim_socket(&mut self, instance_uuid7: &str, socket_token: u64, now_ms: i64)
        requires
            old(self).wf(),
        ensures
            final(self).wf(),
            final(self).secret() == old(self).secret(),
            final(self).sessions() == changed(
                old(self).sessions(),
                instance_uuid7@,
                |s: AuthSession| claimed(s, socket_token, now_ms),
            ),
    {
        if let Some(session) = self.sessions.get_mut(instance_uuid7) {
            session.socket_token = socket_token;
            session.connected_at = Some(now_ms);
            session.shutdown_at = None;
            session.last_activity_ms = now_ms;
            session.probe_deadline_ms = 0;
            session.unresponsive = false;
        }
    }

    /// Removes a session if it is still bound to the socket; says whether it was.
    pub fn remove_if_socket(&mut self, instance_uuid7: &str, socket_token: u64) -> (r: bool)
        requires
            old(self).wf(),
        ensures
            final(self).wf(),
            final(self).secret() == old(self).secret(),
            final(self).sessions() == released(
                old(self).sessions(),
                instance_uuid7@,
                socket_token,
            ),
            r == bound_to(old(self).sessions(), instance_uuid7@, socket_token),
    {
        let owned = match self.sessions.get(instance_uuid7) {
            Some(s) => s.socket_token == socket_token,
            None => false,
        };
        if owned {
            self.sessions.remove(instance_uuid7);
        }
        owned
    }

    /// Marks a session as shut down if it is still bound to the socket.
    pub fn set_shutdown_if_socket(
        &mut self,
        instance_uuid7: &str,
        timestamp: i64,
        socket_token: u64,
    )
        requires
            old(self).wf(),
        ensures
            final(self).wf(),
            final(self).secret() == old(self).secret(),
            final(self).sessions() == shut_down(
                old(self).sessions(),
                instance_uuid7@,
                timestamp,
                socket_token,
            ),
    {
        if let Some(session) = self.sessions.get_mut(instance_uuid7) {
            if session.socket_token == socket_token {
                session.shutdown_at = Some(timestamp);
            }
        }
        assert(final(self).sessions@ =~= shut_down(
            old(self).sessions@,
            instance_uuid7@,
            timestamp,
            socket_token,
        ));
    }

    /// Records that a probe was sent and when its answer is due.
    pub fn mark_probed(&mut self, instance_uuid7: &str, now_ms: i64, deadline_ms: i64)
        requires
            old(self).wf(),
        ensures
            final(self).wf(),
            final(self).secret() == old(self).secret(),
            final(self).sessions() == changed(
                old(self).sessions(),
                instance_uuid7@,
                |s: AuthSession|
                    AuthSession { last_probe_at_ms: now_ms, probe_deadline_ms: deadline_ms, ..s },
            ),
    {
        if let Some(session) = self.sessions.get_mut(instance_uuid7) {
            session.last_probe_at_ms = now_ms;
            session.probe_deadline_ms = deadline_ms;
        }
    }

    /// Marks a session whose probe went unanswered.
    pub fn mark_unresponsive(&mut self, instance_uuid7: &str)
        requires
            old(self).wf(),
        ensures
            final(self).wf(),
            final(self).secret() == old(self).secret(),
            final(self).sessions() == changed(
                old(self).sessions(),
                instance_uuid7@,
                |s: AuthSession| AuthSession { unresponsive: true, probe_deadline_ms: 0, ..s },
            ),
    {
        if let Some(session) = self.sessions.get_mut(instance_uuid7) {
            session.unresponsive = true;
            session.probe_deadline_ms = 0;
        }
    }

    /// All sessions.
    pub fn values(&self) -> (r: Vec<AuthSession>)
        ensures
            r@ == Seq::new(self.listed().len(), |i: int| self.listed()[i].1),
    {
        let mut out: Vec<AuthSession> = Vec::new();
        let mut i: usize = 0;
        while i < self.sessions.len()
            invariant
                i <= self.sessions.pairs().len(),
                out@ == Seq::new(i as nat, |j: int| self.sessions.pairs()[j].1),
            decreases self.sessions.pairs().len() - i,
        {
            out.push(self.sessions.value_at(i).clone());
            i = i + 1;
        }
        out
    }

    /// A session of a module: its instance and when activity was last seen on it.
    pub fn find_by_module(&self, module_name: &str) -> (r: Option<(String, i64)>)
        requires
            self.wf(),
        ensures
            r is Some == exists|k: Seq<char>| #[trigger]
                self.sessions().dom().contains(k) && self.sessions()[k].module_name@
                    == module_name@,
            r matches Some(found) ==> {
                &&& self.sessions().dom().contains(found.0@)
                &&& self.sessions()[found.0@].module_name@ == module_name@
                &&& self.sessions()[found.0@].last_activity_ms == found.1
            },
    {
        let mut i: usize = 0;
        while i < self.sessions.len()
            invariant
                self.wf(),
                i <= self.sessions.pairs().len(),
                forall|j: int|
                    0 <= j < i ==> (#[trigger] self.sessions.pairs()[j]).1.module_name@
                        != module_name@,
            decreases self.sessions.pairs().len() - i,
        {
            let s = self.sessions.value_at(i);
            if same(s.module_name.as_str(), module_name) {
                proof {
                    lemma_position_at(self.sessions.pairs(), i as int);
                    let k = self.sessions.pairs()[i as int].0;
                    assert(self.sessions@.dom().contains(k));
                    assert(self.sessions@[k] == *s);
                }
                return Some((s.instance_uuid7.clone(), s.last_activity_ms));
            }
            i = i + 1;
        }
        proof {
            assert forall|k: Seq<char>| #[trigger]
                self.sessions().dom().contains(k) implies self.sessions()[k].module_name@
                != module_name@ by {
                crate::strmap::lemma_position(self.sessions.pairs(), k);
                let p = crate::strmap::position(self.sessions.pairs(), k) as int;
                assert(self.sessions()[k] == self.sessions.pairs()[p].1);
            }
        }
        None
    }

    /// Issues a token signed with the store's secret.
    pub fn generate_token(&self, instance_uuid7: &str, module_name: &str) -> (r: String)
        ensures
            exists|now: i64|
                now >= 0 && #[trigger] token_issued(
                    self.secret(),
                    r@,
                    instance_uuid7@,
                    module_name@,
                    now,
                ),
    {
        let token = generate_auth_token(self.secret.as_str(), instance_uuid7, module_name);
        proof {
            let now = choose|now: i64|
                now >= 0 && #[trigger] token_issued(
                    self.secret@,
                    token@,
                    instance_uuid7@,
                    module_name@,
                    now,
                );
            assert(token_issued(self.secret(), token@, instance_uuid7@, module_name@, now));
        }
        token
    }
}

} // verus!
