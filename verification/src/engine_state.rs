//! What the engine shows of itself: its modules and its log.
use crate::clock::{now_seconds, seconds_in};
use crate::proto::{
    from_system, system_container, views, Container, LogLine, LogLineView, Payload, PayloadView,
};
use crate::random::{fresh_uuid7, is_uuid_text};
use crate::text::{decimal_int, i64_text};
use vstd::prelude::*;

verus! {

/// The log keeps this many lines.
pub const LOG_LINES: usize = 100;

/// A module that the engine knows of.
#[derive(Debug)]
pub struct ModuleInfo {
    pub name: String,
    pub instance_uuid7: String,
    pub priority: i32,
    pub process_position: String,
    pub connected_at: Option<i64>,
    pub shutdown_at: Option<i64>,
}

/// What a [`ModuleInfo`] says.
#[verifier::ext_equal]
pub struct ModuleInfoView {
    pub name: Seq<char>,
    pub instance_uuid7: Seq<char>,
    pub priority: i32,
    pub process_position: Seq<char>,
    pub connected_at: Option<i64>,
    pub shutdown_at: Option<i64>,
}

impl View for ModuleInfo {
    type V = ModuleInfoView;

    open spec fn view(&self) -> ModuleInfoView {
        ModuleInfoView {
            name: self.name@,
            instance_uuid7: self.instance_uuid7@,
            priority: self.priority,
            process_position: self.process_position@,
            connected_at: self.connected_at,
            shutdown_at: self.shutdown_at,
        }
    }
}

impl Clone for ModuleInfo {
    fn clone(&self) -> (r: Self)
        ensures
            r@ == self@,
    {
        ModuleInfo {
            name: self.name.clone(),
            instance_uuid7: self.instance_uuid7.clone(),
            priority: self.priority,
            process_position: self.process_position.clone(),
            connected_at: self.connected_at,
            shutdown_at: self.shutdown_at,
        }
    }
}

/// A line of the engine's log.
#[derive(Debug)]
pub struct TimelineDisplayEvent {
    pub id: String,
    /// Seconds since the epoch.
    pub timestamp: String,
    pub text: String,
}

/// What a [`TimelineDisplayEvent`] says.
#[verifier::ext_equal]
pub struct TimelineDisplayEventView {
    pub id: Seq<char>,
    pub timestamp: Seq<char>,
    pub text: Seq<char>,
}

impl View for TimelineDisplayEvent {
    type V = TimelineDisplayEventView;

    open spec fn view(&self) -> TimelineDisplayEventView {
        TimelineDisplayEventView {
            id: self.id@,
            timestamp: self.timestamp@,
            text: self.text@,
        }
    }
}

impl Clone for TimelineDisplayEvent {
    fn clone(&self) -> (r: Self)
        ensures
            r@ == self@,
    {
        TimelineDisplayEvent {
            id: self.id.clone(),
            timestamp: self.timestamp.clone(),
            text: self.text.clone(),
        }
    }
}

/// What the engine shows of itself.
#[derive(Debug)]
pub struct EngineState {
    pub modules: Vec<ModuleInfo>,
    pub timeline: Vec<TimelineDisplayEvent>,
}

/// The log with one more line: where it grows too long, the oldest line goes.
pub open spec fn logged(
    timeline: Seq<TimelineDisplayEventView>,
    event: TimelineDisplayEventView,
) -> Seq<TimelineDisplayEventView> {
    if timeline.len() + 1 > LOG_LINES {
        timeline.push(event).drop_first()
    } else {
        timeline.push(event)
    }
}

impl EngineState {
    /// No module and an empty log.
    pub fn new() -> (r: Self)
        ensures
            r.modules@.len() == 0,
            r.timeline@.len() == 0,
    {
        EngineState { modules: Vec::new(), timeline: Vec::new() }
    }

    /// Adds a line to the log.
    pub fn push_event(&mut self, event: TimelineDisplayEvent)
        ensures
            views(final(self).timeline@) == logged(views(old(self).timeline@), event@),
            final(self).modules == old(self).modules,
    {
        let ghost before = self.timeline@;
        let full = self.timeline.len() >= LOG_LINES;
        self.timeline.push(event);
        assert(views(self.timeline@) =~= views(before).push(event@));
        if full {
            self.timeline.remove(0);
            assert(views(self.timeline@) =~= views(before).push(event@).drop_first());
        }
    }
}

/// Adds a line to the log, under a fresh id and with the time of day.
pub fn log_event(state: &mut EngineState, text: &str)
    ensures
        final(state).modules == old(state).modules,
        exists|id: Seq<char>, reading: Option<u128>|
            #![trigger is_uuid_text(id, 7), seconds_in(reading)]
            {
                &&& is_uuid_text(id, 7)
                &&& views(final(state).timeline@) == logged(
                    views(old(state).timeline@),
                    TimelineDisplayEventView {
                        id,
                        timestamp: decimal_int(seconds_in(reading) as int),
                        text: text@,
                    },
                )
            },
{
    let now = now_seconds();
    let ghost reading = choose|reading: Option<u128>| now == #[trigger] seconds_in(reading);
    let event = TimelineDisplayEvent {
        id: fresh_uuid7(),
        timestamp: i64_text(now),
        text: text.to_owned(),
    };
    assert(is_uuid_text(event.id@, 7));
    assert(event@.timestamp == decimal_int(seconds_in(reading) as int));
    state.push_event(event);
}

/// A line of the log as the connected modules are sent it.
pub fn log_event_broadcast(line: &str) -> (r: Container)
    ensures
        r@ == system_container(
            PayloadView::LogLine(LogLineView { log: line@, blob: Seq::empty() }),
        ),
{
    from_system(Payload::LogLine(LogLine { log: line.to_owned(), blob: Vec::new() }))
}

/// The log never grows beyond its limit, and its last line is the newest.
pub proof fn law_log_keeps_the_newest(
    timeline: Seq<TimelineDisplayEventView>,
    event: TimelineDisplayEventView,
)
    requires
        timeline.len() <= LOG_LINES,
    ensures
        0 < logged(timeline, event).len() <= LOG_LINES,
        logged(timeline, event).last() == event,
{
}

} // verus!
