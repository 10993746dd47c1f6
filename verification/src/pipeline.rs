//! The message pipeline: what happens to a chat message between the module that brings
//! it in and the displays it ends at.
//!
//! A message is written to the timeline, sent to the pre-process modules, to each
//! in-process module in turn, and to the post-process modules; then it is complete. Here is
//! what is kept of it on its way; [`crate::orchestrator`] moves it on.
use crate::proto::{
    clone_bytes, clone_opt, clone_texts, opt_view, views, Command, CommandView, UserData,
    UserDataView,
};
use crate::strmap::{put, without, StrMap};
use crate::text::texts;
use vstd::prelude::*;

verus! {

/// How long a module has to answer, in milliseconds.
pub const DEFAULT_ACK_TIMEOUT_MS: u64 = 3000;

/// A message that enters the pipeline.
#[derive(Debug)]
pub struct PipelineMessage {
    pub uuid7: String,
    pub raw_message: String,
    pub platform: String,
    pub event_type: i32,
    pub command: Option<String>,
    pub flags: Option<String>,
    pub parsed_command: Option<Command>,
    pub channel_id: String,
    pub user_uuid7: String,
    pub user_data: Option<UserData>,
}

/// What a [`PipelineMessage`] says.
#[verifier::ext_equal]
pub struct PipelineMessageView {
    pub uuid7: Seq<char>,
    pub raw_message: Seq<char>,
    pub platform: Seq<char>,
    pub event_type: i32,
    pub command: Option<Seq<char>>,
    pub flags: Option<Seq<char>>,
    pub parsed_command: Option<CommandView>,
    pub channel_id: Seq<char>,
    pub user_uuid7: Seq<char>,
    pub user_data: Option<UserDataView>,
}

impl View for PipelineMessage {
    type V = PipelineMessageView;

    open spec fn view(&self) -> PipelineMessageView {
        PipelineMessageView {
            uuid7: self.uuid7@,
            raw_message: self.raw_message@,
            platform: self.platform@,
            event_type: self.event_type,
            command: opt_view(self.command),
            flags: opt_view(self.flags),
            parsed_command: opt_view(self.parsed_command),
            channel_id: self.channel_id@,
            user_uuid7: self.user_uuid7@,
            user_data: opt_view(self.user_data),
        }
    }
}

impl Clone for PipelineMessage {
    fn clone(&self) -> (r: Self)
        ensures
            r@ == self@,
    {
        PipelineMessage {
            uuid7: self.uuid7.clone(),
            raw_message: self.raw_message.clone(),
            platform: self.platform.clone(),
            event_type: self.event_type,
            command: clone_opt(&self.command),
            flags: clone_opt(&self.flags),
            parsed_command: clone_opt(&self.parsed_command),
            channel_id: self.channel_id.clone(),
            user_uuid7: self.user_uuid7.clone(),
            user_data: clone_opt(&self.user_data),
        }
    }
}

/// An answer that a module owes.
#[derive(Debug)]
pub struct PendingAck {
    pub uuid7: String,
    pub stage: String,
    pub module_name: String,
    /// When the message was sent, in nanoseconds of a clock that never goes back.
    pub sent_at: u64,
    pub timeout_ms: u64,
}

/// What a [`PendingAck`] says.
#[verifier::ext_equal]
pub struct PendingAckView {
    pub uuid7: Seq<char>,
    pub stage: Seq<char>,
    pub module_name: Seq<char>,
    pub sent_at: u64,
    pub timeout_ms: u64,
}

impl View for PendingAck {
    type V = PendingAckView;

    open spec fn view(&self) -> PendingAckView {
        PendingAckView {
            uuid7: self.uuid7@,
            stage: self.stage@,
            module_name: self.module_name@,
            sent_at: self.sent_at,
            timeout_ms: self.timeout_ms,
        }
    }
}

impl Clone for PendingAck {
    fn clone(&self) -> (r: Self)
        ensures
            r@ == self@,
    {
        PendingAck {
            uuid7: self.uuid7.clone(),
            stage: self.stage.clone(),
            module_name: self.module_name.clone(),
            sent_at: self.sent_at,
            timeout_ms: self.timeout_ms,
        }
    }
}

/// The modules of each stage, in order, and how long they have to answer.
#[derive(Debug)]
pub struct PipelineConfig {
    pub pre_process_modules: Vec<String>,
    pub in_process_modules: Vec<String>,
    pub post_process_modules: Vec<String>,
    pub ack_timeout_ms: u64,
    /// Modules whose silence fails a message.
    pub critical_modules: Vec<String>,
}

/// What a [`PipelineConfig`] says.
#[verifier::ext_equal]
pub struct PipelineConfigView {
    pub pre_process_modules: Seq<Seq<char>>,
    pub in_process_modules: Seq<Seq<char>>,
    pub post_process_modules: Seq<Seq<char>>,
    pub ack_timeout_ms: u64,
    pub critical_modules: Seq<Seq<char>>,
}

impl View for PipelineConfig {
    type V = PipelineConfigView;

    open spec fn view(&self) -> PipelineConfigView {
        PipelineConfigView {
            pre_process_modules: texts(self.pre_process_modules@),
            in_process_modules: texts(self.in_process_modules@),
            post_process_modules: texts(self.post_process_modules@),
            ack_timeout_ms: self.ack_timeout_ms,
            critical_modules: texts(self.critical_modules@),
        }
    }
}

impl Clone for PipelineConfig {
    fn clone(&self) -> (r: Self)
        ensures
            r@ == self@,
    {
        PipelineConfig {
            pre_process_modules: clone_texts(&self.pre_process_modules),
            in_process_modules: clone_texts(&self.in_process_modules),
            post_process_modules: clone_texts(&self.post_process_modules),
            ack_timeout_ms: self.ack_timeout_ms,
            critical_modules: clone_texts(&self.critical_modules),
        }
    }
}

impl Default for PipelineConfig {
    fn default() -> (r: Self)
        ensures
            r@ == (PipelineConfigView {
                pre_process_modules: Seq::empty(),
                in_process_modules: Seq::empty(),
                post_process_modules: Seq::empty(),
                ack_timeout_ms: DEFAULT_ACK_TIMEOUT_MS,
                critical_modules: Seq::empty(),
            }),
    {
        let r = PipelineConfig {
            pre_process_modules: Vec::new(),
            in_process_modules: Vec::new(),
            post_process_modules: Vec::new(),
            ack_timeout_ms: DEFAULT_ACK_TIMEOUT_MS,
            critical_modules: Vec::new(),
        };
        assert(texts(r.pre_process_modules@) =~= Seq::empty());
        assert(texts(r.in_process_modules@) =~= Seq::empty());
        assert(texts(r.post_process_modules@) =~= Seq::empty());
        assert(texts(r.critical_modules@) =~= Seq::empty());
        r
    }
}

/// Where a message stands.
#[derive(Debug, Clone, Copy, PartialEq, Eq, Structural)]
pub enum PipelineStage {
    Inserted,
    PreProcessing,
    InProcessing,
    PostProcessing,
    Complete,
    Failed,
}

/// The status that the timeline shows for a stage.
pub open spec fn stage_status(stage: PipelineStage) -> Seq<char> {
    match stage {
        PipelineStage::Inserted => "queued"@,
        PipelineStage::Complete => "complete"@,
        PipelineStage::Failed => "failed"@,
        _ => "processing"@,
    }
}

impl PipelineStage {
    /// The status that the timeline shows for this stage.
    pub fn as_str(&self) -> (r: &'static str)
        ensures
            r@ == stage_status(*self),
    {
        match self {
            PipelineStage::Inserted => "queued",
            PipelineStage::PreProcessing => "processing",
            PipelineStage::InProcessing => "processing",
            PipelineStage::PostProcessing => "processing",
            PipelineStage::Complete => "complete",
            PipelineStage::Failed => "failed",
        }
    }
}

/// A message in the pipeline.
#[derive(Debug)]
pub struct PipelineState {
    pub uuid7: String,
    pub stage: PipelineStage,
    pub current_in_process_index: usize,
    pub raw_message: String,
    pub processed_message: String,
    pub platform: String,
    pub event_type: i32,
    pub command: Option<String>,
    pub flags: Option<String>,
    /// The parsed command where the message is one; it decides which modules are asked.
    pub parsed_command: Option<Command>,
    pub channel_id: String,
    pub user_uuid7: String,
    pub user_data: Option<UserData>,
    /// Rendered audio that a module attached.
    pub audio: Vec<u8>,
    /// The content type of the audio.
    pub audio_type: String,
    /// The stage that made the audio: `pre`, `in` or `post`.
    pub audio_stage: String,
}

/// What a [`PipelineState`] says.
#[verifier::ext_equal]
pub struct PipelineStateView {
    pub uuid7: Seq<char>,
    pub stage: PipelineStage,
    pub current_in_process_index: usize,
    pub raw_message: Seq<char>,
    pub processed_message: Seq<char>,
    pub platform: Seq<char>,
    pub event_type: i32,
    pub command: Option<Seq<char>>,
    pub flags: Option<Seq<char>>,
    pub parsed_command: Option<CommandView>,
    pub channel_id: Seq<char>,
    pub user_uuid7: Seq<char>,
    pub user_data: Option<UserDataView>,
    pub audio: Seq<u8>,
    pub audio_type: Seq<char>,
    pub audio_stage: Seq<char>,
}

impl View for PipelineState {
    type V = PipelineStateView;

    open spec fn view(&self) -> PipelineStateView {
        PipelineStateView {
            uuid7: self.uuid7@,
            stage: self.stage,
            current_in_process_index: self.current_in_process_index,
            raw_message: self.raw_message@,
            processed_message: self.processed_message@,
            platform: self.platform@,
            event_type: self.event_type,
            command: opt_view(self.command),
            flags: opt_view(self.flags),
            parsed_command: opt_view(self.parsed_command),
            channel_id: self.channel_id@,
            user_uuid7: self.user_uuid7@,
            user_data: opt_view(self.user_data),
            audio: self.audio@,
            audio_type: self.audio_type@,
            audio_stage: self.audio_stage@,
        }
    }
}

impl Clone for PipelineState {
    fn clone(&self) -> (r: Self)
        ensures
            r@ == self@,
    {
        PipelineState {
            uuid7: self.uuid7.clone(),
            stage: self.stage,
            current_in_process_index: self.current_in_process_index,
            raw_message: self.raw_message.clone(),
            processed_message: self.processed_message.clone(),
            platform: self.platform.clone(),
            event_type: self.event_type,
            command: clone_opt(&self.command),
            flags: clone_opt(&self.flags),
            parsed_command: clone_opt(&self.parsed_command),
            channel_id: self.channel_id.clone(),
            user_uuid7: self.user_uuid7.clone(),
            user_data: clone_opt(&self.user_data),
            audio: clone_bytes(&self.audio),
            audio_type: self.audio_type.clone(),
            audio_stage: self.audio_stage.clone(),
        }
    }
}

/// The answers that are owed, by message, in the order in which they were first asked for.
pub type PendingAcks = Seq<(Seq<char>, Seq<PendingAckView>)>;

/// A module had longer than its time.
pub open spec fn overdue(ack: PendingAckView, now: u64) -> bool {
    now - ack.sent_at > ack.timeout_ms * 1_000_000
}

/// The answers of a list that are overdue, or those that are not.
pub open spec fn overdue_of(acks: Seq<PendingAckView>, now: u64, late: bool) -> Seq<PendingAckView>
    decreases acks.len(),
{
    if acks.len() == 0 {
        Seq::empty()
    } else {
        let front = overdue_of(acks.drop_last(), now, late);
        if overdue(acks.last(), now) == late {
            front.push(acks.last())
        } else {
            front
        }
    }
}

/// All overdue answers.
pub open spec fn all_overdue(pending: PendingAcks, now: u64) -> Seq<PendingAckView>
    decreases pending.len(),
{
    if pending.len() == 0 {
        Seq::empty()
    } else {
        all_overdue(pending.drop_last(), now) + overdue_of(pending.last().1, now, true)
    }
}

/// What is left without the overdue answers; a message for which none is left is dropped.
pub open spec fn not_overdue(pending: PendingAcks, now: u64) -> PendingAcks
    decreases pending.len(),
{
    if pending.len() == 0 {
        Seq::empty()
    } else {
        let front = not_overdue(pending.drop_last(), now);
        let left = overdue_of(pending.last().1, now, false);
        if left.len() == 0 {
            front
        } else {
            front.push((pending.last().0, left))
        }
    }
}

/// The answers owed for a message.
pub open spec fn owed(pending: PendingAcks, uuid7: Seq<char>) -> Seq<PendingAckView> {
    if crate::strmap::has_key(pending, uuid7) {
        crate::strmap::value_at(pending, uuid7)
    } else {
        Seq::empty()
    }
}

/// The pending answers after one more is owed.
pub open spec fn asked(pending: PendingAcks, ack: PendingAckView) -> PendingAcks {
    put(pending, ack.uuid7, owed(pending, ack.uuid7).push(ack))
}

/// Each message stands once, with the answers owed for it and at least one of them.
pub open spec fn acks_ok(pending: PendingAcks) -> bool {
    &&& crate::strmap::keys_distinct(pending)
    &&& forall|i: int|
        0 <= i < pending.len() ==> (#[trigger] pending[i]).1.len() > 0 && acks_for(
            pending[i].1,
            pending[i].0,
        )
}

/// All answers of a list are owed for one message.
pub open spec fn acks_for(acks: Seq<PendingAckView>, uuid7: Seq<char>) -> bool {
    forall|j: int| 0 <= j < acks.len() ==> (#[trigger] acks[j]).uuid7 == uuid7
}

/// The answers that modules owe.
#[derive(Debug)]
pub struct AckTracker {
    pending: StrMap<Vec<PendingAck>>,
}

proof fn lemma_overdue_of(acks: Seq<PendingAckView>, now: u64, late: bool, uuid7: Seq<char>)
    requires
        acks_for(acks, uuid7),
    ensures
        acks_for(overdue_of(acks, now, late), uuid7),
        forall|j: int|
            0 <= j < overdue_of(acks, now, late).len() ==> overdue(
                #[trigger] overdue_of(acks, now, late)[j],
                now,
            ) == late,
    decreases acks.len(),
{
    if acks.len() > 0 {
        let front = acks.drop_last();
        assert(acks_for(front, uuid7)) by {
            assert forall|j: int| 0 <= j < front.len() implies (#[trigger] front[j]).uuid7
                == uuid7 by {
                assert(front[j] == acks[j]);
            }
        }
        lemma_overdue_of(front, now, late, uuid7);
        assert(acks[acks.len() - 1].uuid7 == uuid7);
    }
}

proof fn lemma_not_overdue(pending: PendingAcks, now: u64)
    requires
        acks_ok(pending),
    ensures
        acks_ok(not_overdue(pending, now)),
        forall|i: int|
            0 <= i < not_overdue(pending, now).len() ==> exists|j: int|
                0 <= j < pending.len() && (#[trigger] not_overdue(pending, now)[i]).0
                    == #[trigger] pending[j].0,
    decreases pending.len(),
{
    if pending.len() > 0 {
        let front = pending.drop_last();
        assert forall|i: int| 0 <= i < front.len() implies (#[trigger] front[i]).1.len() > 0
            && acks_for(front[i].1, front[i].0) by {
            assert(front[i] == pending[i]);
        }
        assert forall|i: int, j: int| #![trigger front[i], front[j]]
            0 <= i < j < front.len() implies front[i].0 != front[j].0 by {
            assert(front[i] == pending[i] && front[j] == pending[j]);
        }
        lemma_not_overdue(front, now);
        let n = not_overdue(front, now);
        let after = not_overdue(pending, now);
        let last = pending.last();
        assert(pending[pending.len() - 1] == last);
        lemma_overdue_of(last.1, now, false, last.0);
        assert forall|i: int| 0 <= i < after.len() implies exists|j: int|
            0 <= j < pending.len() && (#[trigger] after[i]).0 == #[trigger] pending[j].0 by {
            if i < n.len() {
                assert(after[i] == n[i]);
                let j = choose|j: int| 0 <= j < front.len() && n[i].0 == #[trigger] front[j].0;
                assert(pending[j].0 == after[i].0);
            } else {
                assert(pending[pending.len() - 1].0 == after[i].0);
            }
        }
        assert forall|i: int, j: int| #![trigger after[i], after[j]]
            0 <= i < j < after.len() implies after[i].0 != after[j].0 by {
            assert(after[i] == n[i]);
            if j < n.len() {
                assert(after[j] == n[j]);
            } else {
                let k = choose|k: int| 0 <= k < front.len() && n[i].0 == #[trigger] front[k].0;
                assert(pending[k].0 == n[i].0);
                assert(pending[k].0 != pending[pending.len() - 1].0);
            }
        }
    }
}

/// A check for timeouts leaves no overdue answer behind, and keeps the pending answers in
/// order.
pub proof fn law_timeouts_are_cleared(pending: PendingAcks, now: u64, uuid7: Seq<char>)
    requires
        acks_ok(pending),
    ensures
        acks_ok(not_overdue(pending, now)),
        forall|j: int|
            0 <= j < owed(not_overdue(pending, now), uuid7).len() ==> !overdue(
                #[trigger] owed(not_overdue(pending, now), uuid7)[j],
                now,
            ),
{
    lemma_not_overdue(pending, now);
    let after = not_overdue(pending, now);
    crate::strmap::lemma_position(after, uuid7);
    if crate::strmap::has_key(after, uuid7) {
        lemma_kept_in_time(pending, now, crate::strmap::position(after, uuid7) as int);
    }
}

proof fn lemma_kept_in_time(pending: PendingAcks, now: u64, i: int)
    requires
        acks_ok(pending),
        0 <= i < not_overdue(pending, now).len(),
    ensures
        forall|j: int|
            0 <= j < not_overdue(pending, now)[i].1.len() ==> !overdue(
                #[trigger] not_overdue(pending, now)[i].1[j],
                now,
            ),
    decreases pending.len(),
{
    if pending.len() > 0 {
        let front = pending.drop_last();
        assert forall|k: int| 0 <= k < front.len() implies (#[trigger] front[k]).1.len() > 0
            && acks_for(front[k].1, front[k].0) by {
            assert(front[k] == pending[k]);
        }
        assert forall|k: int, j: int| #![trigger front[k], front[j]]
            0 <= k < j < front.len() implies front[k].0 != front[j].0 by {
            assert(front[k] == pending[k] && front[j] == pending[j]);
        }
        let n = not_overdue(front, now);
        if i < n.len() {
            lemma_kept_in_time(front, now, i);
            assert(not_overdue(pending, now)[i] == n[i]);
        } else {
            assert(pending[pending.len() - 1] == pending.last());
            lemma_overdue_of(pending.last().1, now, false, pending.last().0);
        }
    }
}

/// The answers of a list that are overdue, or those that are not.
fn split_overdue(acks: &Vec<PendingAck>, now: u64, late: bool) -> (r: Vec<PendingAck>)
    ensures
        views(r@) == overdue_of(views(acks@), now, late),
{
    let mut out: Vec<PendingAck> = Vec::new();
    let ghost all = views(acks@);
    let mut i: usize = 0;
    assert(views(out@) =~= overdue_of(all.take(0), now, late));
    while i < acks.len()
        invariant
            i <= acks@.len(),
            all == views(acks@),
            views(out@) == overdue_of(all.take(i as int), now, late),
        decreases acks@.len() - i,
    {
        let a = &acks[i];
        let is_late = now > a.sent_at && (now - a.sent_at) as u128 > a.timeout_ms as u128
            * 1_000_000u128;
        let ghost before = out@;
        assert(all.take(i + 1).drop_last() =~= all.take(i as int));
        if is_late == late {
            out.push(a.clone());
            assert(views(out@) =~= views(before).push(all[i as int]));
        }
        i = i + 1;
    }
    assert(all.take(i as int) =~= all);
    out
}

impl AckTracker {
    /// The answers that are owed.
    pub closed spec fn pending(&self) -> PendingAcks {
        self.pending.pairs().map_values(|p: (Seq<char>, Vec<PendingAck>)| (p.0, views(p.1@)))
    }

    /// Each message stands once, with at least one answer owed for it.
    pub closed spec fn wf(&self) -> bool {
        &&& self.pending.wf()
        &&& acks_ok(self.pending())
    }

    /// What well-formedness means for the pending answers.
    pub proof fn lemma_wf(&self)
        requires
            self.wf(),
        ensures
            acks_ok(self.pending()),
    {
    }

    /// A tracker to which nothing is owed.
    pub fn new() -> (r: Self)
        ensures
            r.wf(),
            r.pending() == Seq::<(Seq<char>, Seq<PendingAckView>)>::empty(),
    {
        let r = AckTracker { pending: StrMap::new() };
        assert(r.pending() =~= Seq::<(Seq<char>, Seq<PendingAckView>)>::empty());
        r
    }

    proof fn lemma_position(&self, uuid7: Seq<char>)
        ensures
            crate::strmap::position(self.pending.pairs(), uuid7) == crate::strmap::position(
                self.pending(),
                uuid7,
            ),
            self.pending@.dom().contains(uuid7) == crate::strmap::has_key(self.pending(), uuid7),
            self.pending@.dom().contains(uuid7) ==> owed(self.pending(), uuid7) == views(
                self.pending@[uuid7]@,
            ),
    {
        crate::strmap::lemma_position_keys(self.pending.pairs(), self.pending(), uuid7);
        crate::strmap::lemma_position(self.pending(), uuid7);
    }

    /// Records that a module owes an answer for a message that was sent at `now`, in
    /// nanoseconds of a clock that never goes back.
    pub fn track(
        &mut self,
        uuid7: String,
        stage: String,
        module_name: String,
        timeout_ms: u64,
        now: u64,
    )
        requires
            old(self).wf(),
        ensures
            final(self).wf(),
            final(self).pending() == asked(
                old(self).pending(),
                (PendingAckView {
                    uuid7: uuid7@,
                    stage: stage@,
                    module_name: module_name@,
                    sent_at: now,
                    timeout_ms,
                }),
            ),
    {
        let key = uuid7.clone();
        let entry = PendingAck { uuid7, stage, module_name, sent_at: now, timeout_ms };
        let ghost before = self.pending();
        proof {
            self.lemma_position(key@);
            crate::strmap::lemma_position(before, key@);
        }
        let ghost after = asked(before, entry@);
        if self.pending.contains_key(key.as_str()) {
            let ghost held = self.pending@[key@]@;
            if let Some(list) = self.pending.get_mut(key.as_str()) {
                list.push(entry);
                assert(views(list@) =~= views(held).push(entry@));
            }
        } else {
            let mut list: Vec<PendingAck> = Vec::new();
            list.push(entry);
            assert(views(list@) =~= Seq::<PendingAckView>::empty().push(entry@));
            self.pending.insert(key, list);
        }
        proof {
            assert(self.pending() =~= after);
            lemma_asked(before, entry@);
        }
    }

    /// Takes out the answers owed for a message.
    pub fn ack(&mut self, uuid7: &str) -> (r: Vec<PendingAck>)
        requires
            old(self).wf(),
        ensures
            final(self).wf(),
            views(r@) == owed(old(self).pending(), uuid7@),
            final(self).pending() == without(old(self).pending(), uuid7@),
    {
        let ghost before = self.pending();
        proof {
            self.lemma_position(uuid7@);
            lemma_forgotten(before, uuid7@);
        }
        let r: Vec<PendingAck> = match self.pending.remove(uuid7) {
            Some(l) => l,
            None => {
                let none: Vec<PendingAck> = Vec::new();
                assert(views(none@) =~= Seq::empty());
                none
            },
        };
        assert(self.pending() =~= without(before, uuid7@));
        r
    }

    /// Takes out the answers that are overdue at `now`, in nanoseconds of the clock that
    /// [`AckTracker::track`] was given.
    pub fn check_timeouts(&mut self, now: u64) -> (r: Vec<PendingAck>)
        requires
            old(self).wf(),
        ensures
            final(self).wf(),
            views(r@) == all_overdue(old(self).pending(), now),
            final(self).pending() == not_overdue(old(self).pending(), now),
    {
        let ghost all = self.pending();
        let mut late: Vec<PendingAck> = Vec::new();
        let mut left = AckTracker::new();
        let mut i: usize = 0;
        assert(views(late@) =~= all_overdue(all.take(0), now));
        assert(left.pending() =~= not_overdue(all.take(0), now));
        while i < self.pending.len()
            invariant
                self.wf(),
                left.wf(),
                all == self.pending(),
                i <= all.len(),
                views(late@) == all_overdue(all.take(i as int), now),
                left.pending() == not_overdue(all.take(i as int), now),
            decreases all.len() - i,
        {
            let ghost front = all.take(i as int);
            let acks = self.pending.value_at(i);
            assert(all[i as int] == (self.pending.pairs()[i as int].0, views(acks@)));
            assert(all.take(i + 1).drop_last() =~= front);
            let mut gone = split_overdue(acks, now, true);
            let kept = split_overdue(acks, now, false);
            let ghost late_before = late@;
            let ghost gone_before = gone@;
            late.append(&mut gone);
            assert(views(late@) =~= views(late_before) + views(gone_before));
            if kept.len() > 0 {
                let key = self.pending.key_at(i).clone();
                proof {
                    lemma_take_ok(all, i as int);
                    lemma_not_overdue(front, now);
                    left.lemma_position(key@);
                    crate::strmap::lemma_position(left.pending(), key@);
                    if crate::strmap::has_key(left.pending(), key@) {
                        let p = crate::strmap::position(left.pending(), key@) as int;
                        let j = choose|j: int|
                            0 <= j < front.len() && left.pending()[p].0 == #[trigger] front[j].0;
                        assert(front[j] == all[j]);
                        assert(all[j].0 == all[i as int].0);
                    }
                }
                let ghost before = left.pending();
                left.pending.insert(key, kept);
                proof {
                    lemma_take_ok(all, i + 1);
                    lemma_not_overdue(all.take(i + 1), now);
                    assert(left.pending() =~= before.push((key@, views(kept@))));
                }
            } else {
                assert(overdue_of(all[i as int].1, now, false).len() == 0);
            }
            i = i + 1;
        }
        assert(all.take(i as int) =~= all);
        self.pending = left.pending;
        late
    }

    /// Whether an answer is owed for a message.
    pub fn has_pending(&self, uuid7: &str) -> (r: bool)
        requires
            self.wf(),
        ensures
            r == (owed(self.pending(), uuid7@).len() > 0),
    {
        proof {
            self.lemma_position(uuid7@);
            crate::strmap::lemma_position(self.pending(), uuid7@);
        }
        match self.pending.get(uuid7) {
            Some(list) => list.len() > 0,
            None => false,
        }
    }
}

proof fn lemma_take_ok(pending: PendingAcks, n: int)
    requires
        acks_ok(pending),
        0 <= n <= pending.len(),
    ensures
        acks_ok(pending.take(n)),
{
    let front = pending.take(n);
    assert forall|i: int| 0 <= i < front.len() implies (#[trigger] front[i]).1.len() > 0
        && acks_for(front[i].1, front[i].0) by {
        assert(front[i] == pending[i]);
    }
    assert forall|i: int, j: int| #![trigger front[i], front[j]]
        0 <= i < j < front.len() implies front[i].0 != front[j].0 by {
        assert(front[i] == pending[i] && front[j] == pending[j]);
    }
}

/// One more owed answer keeps the pending answers in order.
pub proof fn lemma_asked(pending: PendingAcks, ack: PendingAckView)
    requires
        acks_ok(pending),
    ensures
        acks_ok(asked(pending, ack)),
        owed(asked(pending, ack), ack.uuid7) == owed(pending, ack.uuid7).push(ack),
        forall|u: Seq<char>|
            u != ack.uuid7 ==> #[trigger] owed(asked(pending, ack), u) == owed(pending, u),
{
    let key = ack.uuid7;
    let list = owed(pending, key).push(ack);
    let after = asked(pending, ack);
    crate::strmap::lemma_position(pending, key);
    crate::strmap::lemma_put(pending, key, list);
    assert(acks_for(list, key)) by {
        assert forall|j: int| 0 <= j < list.len() implies (#[trigger] list[j]).uuid7 == key by {
            if j < list.len() - 1 {
                let p = crate::strmap::position(pending, key) as int;
                assert(crate::strmap::has_key(pending, key));
                assert(acks_for(pending[p].1, pending[p].0));
                assert(list[j] == pending[p].1[j]);
            }
        }
    }
    assert forall|i: int| 0 <= i < after.len() implies (#[trigger] after[i]).1.len() > 0
        && acks_for(after[i].1, after[i].0) by {
        if after[i].0 != key {
            assert(after[i] == pending[i]);
        } else {
            crate::strmap::lemma_position_at(after, i);
            assert(crate::strmap::as_map(after)[key] == list);
        }
    }
    assert(crate::strmap::as_map(after) == crate::strmap::as_map(pending).insert(key, list));
    assert(crate::strmap::as_map(after).dom().contains(key));
    assert forall|u: Seq<char>| u != key implies #[trigger] owed(after, u) == owed(pending, u) by {
        assert(crate::strmap::as_map(after).dom().contains(u) == crate::strmap::as_map(
            pending,
        ).dom().contains(u));
        if crate::strmap::has_key(after, u) {
            assert(crate::strmap::as_map(after)[u] == crate::strmap::as_map(pending)[u]);
        }
    }
}

/// With the answers for a message taken out, none is owed for it.
pub proof fn lemma_forgotten(pending: PendingAcks, uuid7: Seq<char>)
    requires
        acks_ok(pending),
    ensures
        acks_ok(without(pending, uuid7)),
        owed(without(pending, uuid7), uuid7).len() == 0,
        forall|u: Seq<char>|
            u != uuid7 ==> #[trigger] owed(without(pending, uuid7), u) == owed(pending, u),
{
    let after = without(pending, uuid7);
    crate::strmap::lemma_position(pending, uuid7);
    crate::strmap::lemma_without(pending, uuid7);
    let p = crate::strmap::position(pending, uuid7) as int;
    assert forall|i: int| 0 <= i < after.len() implies (#[trigger] after[i]).1.len() > 0
        && acks_for(after[i].1, after[i].0) by {
        if crate::strmap::has_key(pending, uuid7) && i >= p {
            assert(after[i] == pending[i + 1]);
        } else {
            assert(after[i] == pending[i]);
        }
    }
    assert(!crate::strmap::as_map(after).dom().contains(uuid7));
    assert forall|u: Seq<char>| u != uuid7 implies #[trigger] owed(after, u) == owed(
        pending,
        u,
    ) by {
        assert(crate::strmap::as_map(after).dom().contains(u) == crate::strmap::as_map(
            pending,
        ).dom().contains(u));
        if crate::strmap::has_key(after, u) {
            assert(crate::strmap::as_map(after)[u] == crate::strmap::as_map(pending)[u]);
        }
    }
}

} // verus!
