//! Questions to the user: they are shown by the connected modules, and the first answer
//! counts.
//!
//! The connections and the clock are outside: a question is opened, its answer or the end
//! of its time is handed in, and it is closed.
use crate::connection::{relay, relayed};
use crate::json::{member_text, Json, JsonView};
use crate::proto::{
    from_system, opt_view, system_container, AuditFlag, AuditFlagView, Container, ContainerView,
    Payload, PayloadView, Prompt, PromptResponse, PromptResponseView, PromptType, PromptView,
};
use crate::random::{fresh_uuid7, is_uuid_text};
use crate::strmap::StrMap;
use crate::text::{decimal, lowercase, lowered, same, texts, trim, trimmed, u64_text};
use crate::trust::{link_for, prompt_link_for};
use vstd::prelude::*;

verus! {

/// Who waits for the answer to a question.
#[derive(Debug, Clone, Copy, PartialEq, Eq, Structural)]
pub enum PromptSink {
    /// The engine itself.
    Engine,
    /// The module on a connection.
    Module(u64),
}

/// How asking the user ended.
#[derive(Debug, Clone, Copy, PartialEq, Eq, Structural)]
pub enum PromptOutcome {
    /// The user answered.
    Decided(bool),
    /// Nobody was connected who could have asked.
    NoUi,
    /// Nobody answered in time.
    TimedOut,
}

/// Where the user's answer goes.
#[derive(Debug)]
pub enum PromptAnswer {
    /// Nobody waits for it.
    Nobody,
    /// The engine asked.
    Engine { accepted: bool },
    /// A module asked: what it is sent, on its connection.
    Module { socket_token: u64, container: Container },
}

/// What a [`PromptAnswer`] says.
#[verifier::ext_equal]
pub enum PromptAnswerView {
    Nobody,
    Engine { accepted: bool },
    Module { socket_token: u64, container: ContainerView },
}

impl View for PromptAnswer {
    type V = PromptAnswerView;

    open spec fn view(&self) -> PromptAnswerView {
        match *self {
            PromptAnswer::Nobody => PromptAnswerView::Nobody,
            PromptAnswer::Engine { accepted } => PromptAnswerView::Engine {
                accepted: accepted,
            },
            PromptAnswer::Module { socket_token, container } => PromptAnswerView::Module {
                socket_token: socket_token,
                container: container@,
            },
        }
    }
}

/// A module that wants to connect.
#[derive(Debug)]
pub struct ModuleAuthInfo {
    pub name: String,
    pub instance_uuid7: String,
    pub position: String,
    pub priority: u32,
}

/// What a [`ModuleAuthInfo`] says.
#[verifier::ext_equal]
pub struct ModuleAuthInfoView {
    pub name: Seq<char>,
    pub instance_uuid7: Seq<char>,
    pub position: Seq<char>,
    pub priority: u32,
}

impl View for ModuleAuthInfo {
    type V = ModuleAuthInfoView;

    open spec fn view(&self) -> ModuleAuthInfoView {
        ModuleAuthInfoView {
            name: self.name@,
            instance_uuid7: self.instance_uuid7@,
            position: self.position@,
            priority: self.priority,
        }
    }
}

impl Clone for ModuleAuthInfo {
    fn clone(&self) -> (r: Self)
        ensures
            r@ == self@,
    {
        ModuleAuthInfo {
            name: self.name.clone(),
            instance_uuid7: self.instance_uuid7.clone(),
            position: self.position.clone(),
            priority: self.priority,
        }
    }
}

/// How a review ended.
#[derive(Debug)]
pub enum AuditEnd {
    /// The message goes on or is dropped, as the user decided.
    Released { approve: bool },
    /// Nobody decided: it stays held.
    Held,
}

/// What a [`AuditEnd`] says.
#[verifier::ext_equal]
pub enum AuditEndView {
    Released { approve: bool },
    Held,
}

impl View for AuditEnd {
    type V = AuditEndView;

    open spec fn view(&self) -> AuditEndView {
        match *self {
            AuditEnd::Released { approve } => AuditEndView::Released {
                approve: approve,
            },
            AuditEnd::Held => AuditEndView::Held,
        }
    }
}

/// The open questions, by their ids.
#[derive(Debug)]
pub struct PromptRoutes {
    routes: StrMap<PromptSink>,
}

impl View for PromptRoutes {
    type V = Map<Seq<char>, PromptSink>;

    closed spec fn view(&self) -> Map<Seq<char>, PromptSink> {
        self.routes@
    }
}

/// The seconds that a question stays open: as many as it says, else 30.
pub open spec fn prompt_seconds(timeout: i32) -> u64 {
    if timeout > 0 {
        timeout as u64
    } else {
        30
    }
}

impl PromptRoutes {
    /// No question is there twice.
    pub closed spec fn wf(&self) -> bool {
        self.routes.wf()
    }

    /// No open question.
    pub fn new() -> (r: Self)
        ensures
            r.wf(),
            r@ == Map::<Seq<char>, PromptSink>::empty(),
    {
        PromptRoutes { routes: StrMap::new() }
    }

    /// Opens a question of the engine: what the connected modules are sent, and the seconds
    /// it stays open; `None` where none is connected.
    pub fn ask(&mut self, prompt: &Prompt, connected: usize) -> (r: Option<(Container, u64)>)
        requires
            old(self).wf(),
        ensures
            final(self).wf(),
            (if connected == 0 {
                r is None && final(self)@ == old(self)@
            } else {
                &&& r matches Some(p)
                &&& p.0@ == system_container(PayloadView::Prompt(prompt@))
                &&& p.1 == prompt_seconds(prompt@.timeout)
                &&& final(self)@ == old(self)@.insert(prompt@.prompt_id_uuid7, PromptSink::Engine)
            }),
    {
        if connected == 0 {
            return None;
        }
        self.routes.insert(prompt.prompt_id_uuid7.clone(), PromptSink::Engine);
        let seconds = if prompt.timeout > 0 {
            prompt.timeout as u64
        } else {
            30
        };
        Some((from_system(Payload::Prompt(prompt.clone())), seconds))
    }

    /// Closes a question of the engine, with the answer if one came in time.
    pub fn close(&mut self, prompt_id: &str, answer: Option<bool>) -> (r: PromptOutcome)
        requires
            old(self).wf(),
        ensures
            final(self).wf(),
            final(self)@ == old(self)@.remove(prompt_id@),
            r == (match answer {
                Some(a) => PromptOutcome::Decided(a),
                None => PromptOutcome::TimedOut,
            }),
    {
        let _ = self.routes.remove(prompt_id);
        match answer {
            Some(a) => PromptOutcome::Decided(a),
            None => PromptOutcome::TimedOut,
        }
    }

    /// Opens a question of a module: what is passed on, and to whom of those connected,
    /// which is everyone but the module itself.
    pub fn forward(
        &mut self,
        container: &Container,
        prompt: &Prompt,
        from: &str,
        socket_token: u64,
        connected: &Vec<String>,
    ) -> (r: (Container, Vec<String>))
        requires
            old(self).wf(),
        ensures
            final(self).wf(),
            final(self)@ == old(self)@.insert(
                prompt@.prompt_id_uuid7,
                PromptSink::Module(socket_token),
            ),
            r.0@ == relayed(container@),
            texts(r.1@) == others(texts(connected@), from@),
    {
        self.routes.insert(prompt.prompt_id_uuid7.clone(), PromptSink::Module(socket_token));
        (relay(container), keep_others(connected, from))
    }

    /// Takes the user's answer: it closes the question, and goes to whoever asked.
    pub fn answer(&mut self, container: &Container, response: &PromptResponse) -> (r: PromptAnswer)
        requires
            old(self).wf(),
        ensures
            final(self).wf(),
            final(self)@ == old(self)@.remove(response@.prompt_id_uuid7),
            r@ == answered_prompt(old(self)@, container@, response@),
    {
        match self.routes.remove(response.prompt_id_uuid7.as_str()) {
            None => PromptAnswer::Nobody,
            Some(PromptSink::Engine) => PromptAnswer::Engine { accepted: response.accepted },
            Some(PromptSink::Module(socket_token)) => PromptAnswer::Module {
                socket_token,
                container: relay(container),
            },
        }
    }
}

/// The names but one.
pub open spec fn others(names: Seq<Seq<char>>, name: Seq<char>) -> Seq<Seq<char>>
    decreases names.len(),
{
    if names.len() == 0 {
        Seq::empty()
    } else {
        let front = others(names.drop_last(), name);
        if names.last() == name {
            front
        } else {
            front.push(names.last())
        }
    }
}

fn keep_others(names: &Vec<String>, name: &str) -> (r: Vec<String>)
    ensures
        texts(r@) == others(texts(names@), name@),
{
    let ghost all = texts(names@);
    let mut out: Vec<String> = Vec::new();
    let mut i: usize = 0;
    assert(texts(out@) =~= others(all.take(0), name@));
    while i < names.len()
        invariant
            i <= names@.len(),
            all == texts(names@),
            texts(out@) == others(all.take(i as int), name@),
        decreases names@.len() - i,
    {
        let ghost before = out@;
        assert(all.take(i + 1).drop_last() =~= all.take(i as int));
        if !same(names[i].as_str(), name) {
            out.push(names[i].clone());
            assert(texts(out@) =~= texts(before).push(all[i as int]));
        }
        i = i + 1;
    }
    assert(all.take(i as int) =~= all);
    out
}

/// Where the user's answer goes.
pub open spec fn answered_prompt(
    routes: Map<Seq<char>, PromptSink>,
    container: ContainerView,
    response: PromptResponseView,
) -> PromptAnswerView {
    if !routes.dom().contains(response.prompt_id_uuid7) {
        PromptAnswerView::Nobody
    } else {
        match routes[response.prompt_id_uuid7] {
            PromptSink::Engine => PromptAnswerView::Engine { accepted: response.accepted },
            PromptSink::Module(socket_token) => PromptAnswerView::Module {
                socket_token,
                container: relayed(container),
            },
        }
    }
}

/// The question whether a module may connect.
pub open spec fn approval_question(
    id: Seq<char>,
    module_name: Seq<char>,
    uuid7: Seq<char>,
    position: Seq<char>,
    priority: u32,
    description: Option<Seq<char>>,
) -> PromptView {
    PromptView {
        prompt_id_uuid7: id,
        prompt: "Allow this module to connect?"@,
        details: "Module '"@ + module_name + "' ["@ + uuid7 + "] wants to connect on position '"@
            + position + "' (priority "@ + decimal(priority as nat) + ")."@ + (match description {
            Some(d) if d.len() > 0 => "\n\nWhat it is: "@ + d,
            _ => ""@,
        }),
        yes_dialog: "Allow"@,
        no_dialog: "Deny"@,
        timeout: 30,
        origin: module_name,
        origin_uuid7: uuid7,
        instructions: "This is the first time '"@ + module_name
            + "' has connected, or its access was reset.\nAllow it only if you recognize it and want it talking to the engine.\nOnce approved it will reconnect automatically in the future."@,
        link: link_for(module_name),
        input_label: Seq::empty(),
        prompt_type: PromptType::Boolean,
    }
}

/// The question whether a module may connect, under a given id.
pub fn approval_prompt(
    id: String,
    module_name: &str,
    uuid7: &str,
    position: &str,
    priority: u32,
    description: Option<&str>,
) -> (r: Prompt)
    ensures
        r@ == approval_question(
            id@,
            module_name@,
            uuid7@,
            position@,
            priority,
            opt_view(description),
        ),
{
    let mut details = "Module '".to_owned();
    details.append(module_name);
    details.append("' [");
    details.append(uuid7);
    details.append("] wants to connect on position '");
    details.append(position);
    details.append("' (priority ");
    details.append(u64_text(priority as u64).as_str());
    details.append(").");
    match description {
        Some(d) if d.unicode_len() > 0 => {
            let mut more = "\n\nWhat it is: ".to_owned();
            more.append(d);
            details.append(more.as_str());
        },
        _ => {
            details.append("");
        },
    }
    let mut instructions = "This is the first time '".to_owned();
    instructions.append(module_name);
    instructions.append(
        "' has connected, or its access was reset.\nAllow it only if you recognize it and want it talking to the engine.\nOnce approved it will reconnect automatically in the future.",
    );
    Prompt {
        prompt_id_uuid7: id,
        prompt: "Allow this module to connect?".to_owned(),
        details,
        yes_dialog: "Allow".to_owned(),
        no_dialog: "Deny".to_owned(),
        timeout: 30,
        origin: module_name.to_owned(),
        origin_uuid7: uuid7.to_owned(),
        instructions,
        link: prompt_link_for(module_name),
        input_label: String::new(),
        prompt_type: PromptType::Boolean,
    }
}

/// The question whether a module may connect, under a fresh id.
pub fn prompt_user_to_allow(
    module_name: &str,
    uuid7: &str,
    position: &str,
    priority: u32,
    description: Option<&str>,
) -> (r: Prompt)
    ensures
        is_uuid_text(r@.prompt_id_uuid7, 7),
        r@ == approval_question(
            r@.prompt_id_uuid7,
            module_name@,
            uuid7@,
            position@,
            priority,
            opt_view(description),
        ),
{
    let id = fresh_uuid7();
    approval_prompt(id, module_name, uuid7, position, priority, description)
}

/// Whether a module may connect, as far as the question settled it: a question that nobody
/// answered settles it too, and one that nobody could be asked does not.
pub open spec fn settled(outcome: PromptOutcome) -> Option<bool> {
    match outcome {
        PromptOutcome::Decided(d) => Some(d),
        PromptOutcome::TimedOut => Some(false),
        PromptOutcome::NoUi => None,
    }
}

/// Whether a module may connect, as far as the question settled it.
pub fn approval(outcome: PromptOutcome) -> (r: Option<bool>)
    ensures
        r == settled(outcome),
{
    match outcome {
        PromptOutcome::Decided(d) => Some(d),
        PromptOutcome::TimedOut => Some(false),
        PromptOutcome::NoUi => None,
    }
}

/// The same question as it is put on the terminal.
pub open spec fn terminal_question(info: ModuleAuthInfoView) -> Seq<char> {
    "\n[Cockatiel Auth] New module requesting connection:\n  Name:     "@ + info.name
        + "\n  UUID:     "@ + info.instance_uuid7 + "\n  Position: "@ + info.position
        + "\n  Priority: "@ + decimal(info.priority as nat) + "\n\n  Add module? (y/n): "@
}

/// The question whether a module may connect, as it is put on the terminal.
pub fn auth_question(info: &ModuleAuthInfo) -> (r: String)
    ensures
        r@ == terminal_question(info@),
{
    let mut t = "\n[Cockatiel Auth] New module requesting connection:\n  Name:     ".to_owned();
    t.append(info.name.as_str());
    t.append("\n  UUID:     ");
    t.append(info.instance_uuid7.as_str());
    t.append("\n  Position: ");
    t.append(info.position.as_str());
    t.append("\n  Priority: ");
    t.append(u64_text(info.priority as u64).as_str());
    t.append("\n\n  Add module? (y/n): ");
    t
}

/// Whether an answer that was made lower case says yes.
pub open spec fn says_yes(lower: Seq<char>) -> bool {
    lower == "y"@ || lower == "yes"@
}

/// Whether an answer that was made lower case says yes.
pub fn is_yes(lower: &str) -> (r: bool)
    ensures
        r == says_yes(lower@),
{
    same(lower, "y") || same(lower, "yes")
}

/// Whether the answer on the terminal lets a module connect; no answer does not.
pub fn prompt_user_to_auth_module(input: Option<&str>) -> (r: bool)
    ensures
        r == (match input {
            Some(t) => says_yes(lowercase(trim(t@))),
            None => false,
        }),
{
    match input {
        Some(t) => is_yes(lowered(trimmed(t).as_str()).as_str()),
        None => false,
    }
}

/// What the question about a held message shows.
pub open spec fn audit_details(flag: AuditFlagView, entry: Option<JsonView>) -> Seq<char> {
    match entry {
        Some(e) => "["@ + member_text(e, "platform"@, "?"@) + "] "@ + member_text(
            e,
            "user_uuid7"@,
            "?"@,
        ) + ": \""@ + member_text(e, "raw_message"@, ""@) + "\"\n\nReason: "@ + member_text(
            e,
            "reason"@,
            "flagged"@,
        ),
        None => "Message ["@ + flag.message_uuid7 + "] held for audit (reason: "@ + flag.reason
            + ")"@,
    }
}

fn describe_held(flag: &AuditFlag, entry: &Option<Json>) -> (r: String)
    ensures
        r@ == audit_details(flag@, opt_view(*entry)),
{
    match entry {
        Some(e) => {
            let mut t = "[".to_owned();
            t.append(e.text_at("platform", "?").as_str());
            t.append("] ");
            t.append(e.text_at("user_uuid7", "?").as_str());
            t.append(": \"");
            t.append(e.text_at("raw_message", "").as_str());
            t.append("\"\n\nReason: ");
            t.append(e.text_at("reason", "flagged").as_str());
            t
        },
        None => {
            let mut t = "Message [".to_owned();
            t.append(flag.message_uuid7.as_str());
            t.append("] held for audit (reason: ");
            t.append(flag.reason.as_str());
            t.append(")");
            t
        },
    }
}

/// The question about a held message.
pub open spec fn audit_question(
    id: Seq<char>,
    flag: AuditFlagView,
    entry: Option<JsonView>,
) -> PromptView {
    PromptView {
        prompt_id_uuid7: id,
        prompt: "Audit message"@,
        details: audit_details(flag, entry),
        yes_dialog: "Approve"@,
        no_dialog: "Reject"@,
        timeout: 120,
        origin: if flag.origin.len() == 0 {
            "engine"@
        } else {
            flag.origin
        },
        origin_uuid7: Seq::empty(),
        instructions: Seq::empty(),
        link: "http://localhost:3000/message/"@ + flag.message_uuid7,
        input_label: Seq::empty(),
        prompt_type: PromptType::Boolean,
    }
}

/// The question about a held message, under a given id.
pub fn audit_prompt(id: String, flag: &AuditFlag, entry: &Option<Json>) -> (r: Prompt)
    ensures
        r@ == audit_question(id@, flag@, opt_view(*entry)),
{
    let mut link = "http://localhost:3000/message/".to_owned();
    link.append(flag.message_uuid7.as_str());
    Prompt {
        prompt_id_uuid7: id,
        prompt: "Audit message".to_owned(),
        details: describe_held(flag, entry),
        yes_dialog: "Approve".to_owned(),
        no_dialog: "Reject".to_owned(),
        timeout: 120,
        origin: if flag.origin.as_str().unicode_len() == 0 {
            "engine".to_owned()
        } else {
            flag.origin.clone()
        },
        origin_uuid7: String::new(),
        instructions: String::new(),
        link,
        input_label: String::new(),
        prompt_type: PromptType::Boolean,
    }
}

/// The question about a message that a module flagged, under a fresh id. A message that is
/// held already is not asked about again, nor is one that could not be held.
pub fn handle_audit_flag(
    flag: &AuditFlag,
    already_held: bool,
    held: bool,
    entry: &Option<Json>,
) -> (r: Option<Prompt>)
    ensures
        r is Some == (!already_held && held),
        r matches Some(p) ==> is_uuid_text(p@.prompt_id_uuid7, 7) && p@ == audit_question(
            p@.prompt_id_uuid7,
            flag@,
            opt_view(*entry),
        ),
{
    if already_held || !held {
        return None;
    }
    let id = fresh_uuid7();
    Some(audit_prompt(id, flag, entry))
}

/// How a review ends: only the user's own decision releases a message.
pub open spec fn review_end(outcome: PromptOutcome) -> AuditEndView {
    match outcome {
        PromptOutcome::Decided(approve) => AuditEndView::Released { approve },
        _ => AuditEndView::Held,
    }
}

/// How a review ends.
pub fn end_review(outcome: PromptOutcome) -> (r: AuditEnd)
    ensures
        r@ == review_end(outcome),
{
    match outcome {
        PromptOutcome::Decided(approve) => AuditEnd::Released { approve },
        _ => AuditEnd::Held,
    }
}

/// The first answer counts: once a question was answered, another answer to it goes to
/// nobody.
pub proof fn law_first_answer_counts(
    routes: Map<Seq<char>, PromptSink>,
    c1: ContainerView,
    c2: ContainerView,
    first: PromptResponseView,
    second: PromptResponseView,
)
    requires
        routes.dom().contains(first.prompt_id_uuid7),
        second.prompt_id_uuid7 == first.prompt_id_uuid7,
    ensures
        !(answered_prompt(routes, c1, first) is Nobody),
        answered_prompt(routes.remove(first.prompt_id_uuid7), c2, second) is Nobody,
{
}

/// An answer concerns no other question.
pub proof fn law_answers_do_not_mix(
    routes: Map<Seq<char>, PromptSink>,
    container: ContainerView,
    other: Seq<char>,
    response: PromptResponseView,
)
    requires
        response.prompt_id_uuid7 != other,
    ensures
        answered_prompt(routes.remove(other), container, response) == answered_prompt(
            routes,
            container,
            response,
        ),
{
}

/// Nobody is let in and nothing is released by silence.
pub proof fn law_silence_decides_nothing_in_favour(outcome: PromptOutcome)
    requires
        !(outcome is Decided),
    ensures
        settled(outcome) != Some(true),
        review_end(outcome) is Held,
{
}

/// Who asks is not asked: a module's question goes to everyone else who is connected.
pub proof fn law_asker_is_not_asked(names: Seq<Seq<char>>, name: Seq<char>, other: Seq<char>)
    ensures
        !others(names, name).contains(name),
        other != name ==> others(names, name).contains(other) == names.contains(other),
    decreases names.len(),
{
    if names.len() > 0 {
        let t = names.drop_last();
        let front = others(t, name);
        law_asker_is_not_asked(t, name, other);
        assert(names =~= t.push(names.last()));
        assert(names.contains(other) == (t.contains(other) || names.last() == other)) by {
            if t.contains(other) {
                let i = choose|i: int| 0 <= i < t.len() && t[i] == other;
                assert(names[i] == other);
            }
            if names.last() == other {
                assert(names[names.len() - 1] == other);
            }
        }
        if names.last() != name {
            let all = front.push(names.last());
            assert(all.contains(other) == (front.contains(other) || names.last() == other)) by {
                if front.contains(other) {
                    let i = choose|i: int| 0 <= i < front.len() && front[i] == other;
                    assert(all[i] == other);
                }
                if names.last() == other {
                    assert(all[all.len() - 1] == other);
                }
            }
            assert(!all.contains(name)) by {
                if all.contains(name) {
                    let i = choose|i: int| 0 <= i < all.len() && all[i] == name;
                    assert(front[i] == name);
                }
            }
        }
    } else {
        assert(!names.contains(other));
    }
}

} // verus!
