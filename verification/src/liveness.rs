//! Upkeep: which modules still live, and how large the timeline database is.
use crate::auth::{active, changed, AuthSession, AuthStore};
use crate::proto::{
    from_system, system_container, AuthVerify, AuthVerifyView, Container, Payload, PayloadView,
};
use vstd::prelude::*;

verus! {

/// What is done about a session's liveness.
#[derive(Debug)]
pub enum ProbeAction {
    /// Nothing.
    Quiet,
    /// A probe went unanswered: the session counts as unresponsive and is to be closed.
    Late,
    /// A probe is sent.
    Probe { deadline_ms: i64 },
    /// The times cannot be written down.
    OutOfRange,
}

/// What a [`ProbeAction`] says.
#[verifier::ext_equal]
pub enum ProbeActionView {
    Quiet,
    Late,
    Probe { deadline_ms: i64 },
    OutOfRange,
}

impl View for ProbeAction {
    type V = ProbeActionView;

    open spec fn view(&self) -> ProbeActionView {
        match *self {
            ProbeAction::Quiet => ProbeActionView::Quiet,
            ProbeAction::Late => ProbeActionView::Late,
            ProbeAction::Probe { deadline_ms } => ProbeActionView::Probe {
                deadline_ms: deadline_ms,
            },
            ProbeAction::OutOfRange => ProbeActionView::OutOfRange,
        }
    }
}

/// What is said of the size of the timeline database.
#[derive(Debug)]
pub enum SizeNote {
    /// Nothing new.
    Same,
    /// It comes close to its target; how close, in percent.
    Warn { percent: u128 },
    /// It is small enough again.
    Clear,
}

/// What a [`SizeNote`] says.
#[verifier::ext_equal]
pub enum SizeNoteView {
    Same,
    Warn { percent: u128 },
    Clear,
}

impl View for SizeNote {
    type V = SizeNoteView;

    open spec fn view(&self) -> SizeNoteView {
        match *self {
            SizeNote::Same => SizeNoteView::Same,
            SizeNote::Warn { percent } => SizeNoteView::Warn {
                percent: percent,
            },
            SizeNote::Clear => SizeNoteView::Clear,
        }
    }
}

/// The seconds of silence before a module is probed and the seconds it has to answer: what
/// its manifest says, else the engine's own.
pub open spec fn probe_times(manifest: Option<(u64, u64)>, interval: u64, response: u64) -> (
    u64,
    u64,
) {
    match manifest {
        Some(m) => (
            if m.0 > 0 {
                m.0
            } else {
                interval
            },
            if m.1 > 0 {
                m.1
            } else {
                response
            },
        ),
        None => (interval, response),
    }
}

/// The seconds of silence before a module is probed and the seconds it has to answer.
pub fn resolve_probe_times(manifest: Option<(u64, u64)>, interval: u64, response: u64) -> (r: (
    u64,
    u64,
))
    ensures
        r == probe_times(manifest, interval, response),
{
    match manifest {
        Some(m) => (
            if m.0 > 0 {
                m.0
            } else {
                interval
            },
            if m.1 > 0 {
                m.1
            } else {
                response
            },
        ),
        None => (interval, response),
    }
}

/// Whether a number fits an `i64`.
pub open spec fn fits(n: int) -> bool {
    i64::MIN <= n <= i64::MAX
}

/// What is done about a session's liveness at a time: a probe whose answer is overdue makes
/// it unresponsive; silence since its last activity and since the last probe makes for a
/// probe.
pub open spec fn probe_decision(
    s: AuthSession,
    interval: u64,
    response: u64,
    now_ms: i64,
) -> ProbeActionView {
    if s.unresponsive {
        ProbeActionView::Quiet
    } else if s.probe_deadline_ms > 0 && now_ms >= s.probe_deadline_ms {
        ProbeActionView::Late
    } else if interval * 1000 > u64::MAX || !fits(now_ms - s.last_activity_ms) {
        ProbeActionView::OutOfRange
    } else {
        let interval_ms = (interval * 1000) as i64;
        if now_ms - s.last_activity_ms < interval_ms {
            ProbeActionView::Quiet
        } else if !fits(now_ms - s.last_probe_at_ms) {
            ProbeActionView::OutOfRange
        } else if now_ms - s.last_probe_at_ms < interval_ms {
            ProbeActionView::Quiet
        } else if response * 1000 > u64::MAX || !fits(now_ms + (response * 1000) as i64) {
            ProbeActionView::OutOfRange
        } else {
            ProbeActionView::Probe { deadline_ms: (now_ms + (response * 1000) as i64) as i64 }
        }
    }
}

/// Decides what is done about a session's liveness.
pub fn decide_probe(s: &AuthSession, interval: u64, response: u64, now_ms: i64) -> (r: ProbeAction)
    ensures
        r@ == probe_decision(*s, interval, response, now_ms),
{
    if s.unresponsive {
        return ProbeAction::Quiet;
    }
    if s.probe_deadline_ms > 0 && now_ms >= s.probe_deadline_ms {
        return ProbeAction::Late;
    }
    if interval > 18446744073709551 {
        return ProbeAction::OutOfRange;
    }
    let silence = now_ms as i128 - s.last_activity_ms as i128;
    if silence < i64::MIN as i128 || silence > i64::MAX as i128 {
        return ProbeAction::OutOfRange;
    }
    let interval_ms = (interval * 1000) as i64;
    if silence < interval_ms as i128 {
        return ProbeAction::Quiet;
    }
    let unprobed = now_ms as i128 - s.last_probe_at_ms as i128;
    if unprobed < i64::MIN as i128 || unprobed > i64::MAX as i128 {
        return ProbeAction::OutOfRange;
    }
    if unprobed < interval_ms as i128 {
        return ProbeAction::Quiet;
    }
    if response > 18446744073709551 {
        return ProbeAction::OutOfRange;
    }
    let due = now_ms as i128 + ((response * 1000) as i64) as i128;
    if due < i64::MIN as i128 || due > i64::MAX as i128 {
        return ProbeAction::OutOfRange;
    }
    ProbeAction::Probe { deadline_ms: due as i64 }
}

/// A session that a probe was sent to.
pub open spec fn probed(s: AuthSession, now_ms: i64, deadline_ms: i64) -> AuthSession {
    AuthSession { last_probe_at_ms: now_ms, probe_deadline_ms: deadline_ms, ..s }
}

/// Decides what is done about a session's liveness, and keeps it.
pub fn probe_step(
    store: &mut AuthStore,
    s: &AuthSession,
    interval: u64,
    response: u64,
    now_ms: i64,
) -> (r: ProbeAction)
    requires
        old(store).wf(),
    ensures
        final(store).wf(),
        final(store).secret() == old(store).secret(),
        r@ == probe_decision(*s, interval, response, now_ms),
        final(store).sessions() == (match r@ {
            ProbeActionView::Late => changed(
                old(store).sessions(),
                s.instance_uuid7@,
                |x: AuthSession| AuthSession { unresponsive: true, probe_deadline_ms: 0, ..x },
            ),
            ProbeActionView::Probe { deadline_ms } => changed(
                old(store).sessions(),
                s.instance_uuid7@,
                |x: AuthSession| probed(x, now_ms, deadline_ms),
            ),
            _ => old(store).sessions(),
        }),
{
    let r = decide_probe(s, interval, response, now_ms);
    match &r {
        ProbeAction::Late => {
            store.mark_unresponsive(s.instance_uuid7.as_str());
            assert(store.sessions() == changed(
                old(store).sessions(),
                s.instance_uuid7@,
                |x: AuthSession| AuthSession { unresponsive: true, probe_deadline_ms: 0, ..x },
            ));
        },
        ProbeAction::Probe { deadline_ms } => {
            store.mark_probed(s.instance_uuid7.as_str(), now_ms, *deadline_ms);
            assert(store.sessions() == changed(
                old(store).sessions(),
                s.instance_uuid7@,
                |x: AuthSession| probed(x, now_ms, *deadline_ms),
            ));
        },
        _ => {},
    }
    r
}

/// What a module is sent to prove that it is alive.
pub fn probe_container() -> (r: Container)
    ensures
        r@ == system_container(PayloadView::AuthVerify(AuthVerifyView { cur_auth: Seq::empty() })),
{
    from_system(Payload::AuthVerify(AuthVerify { cur_auth: String::new() }))
}

/// Whether the write-ahead log is to be merged at a tick, and the ticks since it last was:
/// it is when the log exceeds 5 MiB, and at every fourth tick.
pub fn checkpoint_due(wal_size: u64, ticks: u32) -> (r: (bool, u32))
    ensures
        r.0 == (wal_size > 5242880 || ticks + 1 >= 4),
        r.1 == (if r.0 {
            0
        } else {
            ticks + 1
        }),
{
    if wal_size > 5242880 || ticks >= 3 {
        (true, 0)
    } else {
        (false, ticks + 1)
    }
}

/// Whether the timeline database comes close to its target: it is above 5 MiB, and at 95
/// percent of the target.
pub open spec fn near_target(size: u64, target_mb: u32) -> bool {
    size > 5242880 && size >= (target_mb * 1048576 * 95) / 100
}

/// What is said of the size of the timeline database: a warning once, until it is small
/// enough again.
pub open spec fn size_note(size: u64, target_mb: u32, warned: bool) -> SizeNoteView {
    if near_target(size, target_mb) && !warned {
        SizeNoteView::Warn {
            percent: if target_mb > 0 {
                ((size * 100) / (target_mb * 1048576)) as u128
            } else {
                0
            },
        }
    } else if !near_target(size, target_mb) && warned {
        SizeNoteView::Clear
    } else {
        SizeNoteView::Same
    }
}

/// Decides what is said of the size of the timeline database.
pub fn decide_size_note(size: u64, target_mb: u32, warned: bool) -> (r: SizeNote)
    ensures
        r@ == size_note(size, target_mb, warned),
{
    let target: u64 = (target_mb as u64) * 1048576;
    let over = size > 5242880 && size >= (target * 95) / 100;
    if over && !warned {
        let percent: u128 = if target_mb > 0 {
            ((size as u128) * 100) / (target as u128)
        } else {
            0
        };
        SizeNote::Warn { percent }
    } else if !over && warned {
        SizeNote::Clear
    } else {
        SizeNote::Same
    }
}

/// Whatever a module sends answers a probe: a session with activity is not overdue.
pub proof fn law_activity_answers_probe(
    s: AuthSession,
    seen_ms: i64,
    interval: u64,
    response: u64,
    now_ms: i64,
)
    ensures
        !(probe_decision(active(s, seen_ms), interval, response, now_ms) is Late),
{
}

/// A probe that is not answered is noticed at any time from its deadline on, and not
/// before.
pub proof fn law_unanswered_probe_is_noticed(
    s: AuthSession,
    sent_ms: i64,
    deadline_ms: i64,
    interval: u64,
    response: u64,
    now_ms: i64,
)
    requires
        !s.unresponsive,
        deadline_ms > 0,
    ensures
        probe_decision(probed(s, sent_ms, deadline_ms), interval, response, now_ms) is Late == (
        now_ms >= deadline_ms),
{
}

/// A module is probed only after it was silent for the interval, and no more often than
/// once an interval.
pub proof fn law_probes_are_spaced(s: AuthSession, interval: u64, response: u64, now_ms: i64)
    requires
        interval * 1000 <= i64::MAX,
    ensures
        probe_decision(s, interval, response, now_ms) is Probe ==> {
            &&& now_ms - s.last_activity_ms >= interval * 1000
            &&& now_ms - s.last_probe_at_ms >= interval * 1000
        },
{
}

/// The warning is given once: with the warning noted, the same size says nothing more, and
/// a warning is cleared only where none would be given.
pub proof fn law_size_warning_is_given_once(size: u64, target_mb: u32)
    ensures
        size_note(size, target_mb, false) is Warn ==> size_note(size, target_mb, true) is Same,
        size_note(size, target_mb, true) is Clear ==> size_note(size, target_mb, false) is Same,
{
}

} // verus!
