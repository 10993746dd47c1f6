//! The operator's terminal: its panes, its log and what it shows of what modules send.
use crate::keymap::{KeyCode, KeyEvent};
use crate::panes::{
    can_grow, clamp_split, clamped, following_pane, grow, grown, pane_after, shrink, shrunk, ActivePane,
    MouseKind, ResizeDirection,
};
use crate::proto::{opt_view, Payload, PayloadView};
use crate::text::{decimal_int, i64_text, join, joined, texts};
use crate::trust::{position_name, process_position_to_string};
use vstd::prelude::*;

verus! {

/// What the mouse drags.
#[derive(Debug, Clone, Copy, PartialEq, Eq, Structural)]
pub enum DragTarget {
    /// Nothing.
    Nothing,
    HorizontalSplit,
    TopVerticalSplit,
    BottomVerticalSplit,
}

/// The title pane.
#[derive(Debug)]
pub struct Title;

impl Title {
    /// The title pane.
    pub fn new() -> (r: Self)
        ensures
            r == Title,
    {
        Title
    }

    /// What the pane shows.
    pub fn content(&self) -> (r: &'static str)
        ensures
            r@ == "\n        XXXXXXXXX      XX   | Cockatiel\n      XXXXXXXXXXXXXXXXXXX   | by: @vulbyte\n     XX    XXXXXXXXXXXXX    | \n  XXXX      XXXXXXXXXXXXXX  | Version:\n XXXXXX    XXXXXXXXX XX     | 0.0.1\n   XXXXXXXXXXXXXXXXX        |\n     XXXXXXXXXXXXXXX        |\n     XXX XXXXXXX XXX        |\n     XX   XXXX    XX        |\n        "@,
    {
        "\n        XXXXXXXXX      XX   | Cockatiel\n      XXXXXXXXXXXXXXXXXXX   | by: @vulbyte\n     XX    XXXXXXXXXXXXX    | \n  XXXX      XXXXXXXXXXXXXX  | Version:\n XXXXXX    XXXXXXXXX XX     | 0.0.1\n   XXXXXXXXXXXXXXXXX        |\n     XXXXXXXXXXXXXXX        |\n     XXX XXXXXXX XXX        |\n     XX   XXXX    XX        |\n        "
    }
}

/// The log pane.
#[derive(Debug)]
pub struct Logger {
    logs: Vec<String>,
}

/// The log with one more line: where it grows beyond a hundred lines, the oldest goes.
pub open spec fn shown(logs: Seq<Seq<char>>, message: Seq<char>) -> Seq<Seq<char>> {
    if logs.len() + 1 > 100 {
        logs.push(message).drop_first()
    } else {
        logs.push(message)
    }
}

impl Logger {
    /// The lines.
    pub closed spec fn lines(&self) -> Seq<Seq<char>> {
        texts(self.logs@)
    }

    /// The log at the start.
    pub fn new() -> (r: Self)
        ensures
            r.lines() == seq![
                "[INFO] System booting up..."@,
                "[READY] Connected to Cockatiel Client lib stream..."@,
            ],
    {
        let mut logs: Vec<String> = Vec::new();
        logs.push("[INFO] System booting up...".to_owned());
        logs.push("[READY] Connected to Cockatiel Client lib stream...".to_owned());
        let r = Logger { logs };
        assert(r.lines() =~= seq![
            "[INFO] System booting up..."@,
            "[READY] Connected to Cockatiel Client lib stream..."@,
        ]);
        r
    }

    /// Adds a line.
    pub fn display(&mut self, message: String)
        ensures
            final(self).lines() == shown(old(self).lines(), message@),
    {
        let ghost before = self.logs@;
        let full = self.logs.len() >= 100;
        self.logs.push(message);
        assert(texts(self.logs@) =~= texts(before).push(message@));
        if full {
            self.logs.remove(0);
            assert(texts(self.logs@) =~= texts(before).push(message@).drop_first());
        }
    }

    /// The number of lines.
    pub fn len(&self) -> (r: usize)
        ensures
            r == self.lines().len(),
    {
        self.logs.len()
    }

    /// What the pane shows.
    pub fn content(&self) -> (r: String)
        ensures
            r@ == join(self.lines(), "\n"@),
    {
        joined(&self.logs, "\n")
    }
}

/// The terminal.
#[derive(Debug)]
pub struct App {
    pub title: Title,
    pub logger: Logger,
    /// How much of the height the upper panes have, in percent.
    pub split_y: u16,
    /// How much of the width the upper left pane has, in percent.
    pub top_split_x: u16,
    /// How much of the width the lower left pane has, in percent.
    pub bottom_split_x: u16,
    pub active_pane: ActivePane,
    pub drag_target: DragTarget,
    pub should_quit: bool,
}

/// What the terminal looks like, but for its log.
#[verifier::ext_equal]
pub struct AppView {
    pub split_y: u16,
    pub top_split_x: u16,
    pub bottom_split_x: u16,
    pub active_pane: ActivePane,
    pub drag_target: DragTarget,
    pub should_quit: bool,
}

impl View for App {
    type V = AppView;

    open spec fn view(&self) -> AppView {
        AppView {
            split_y: self.split_y,
            top_split_x: self.top_split_x,
            bottom_split_x: self.bottom_split_x,
            active_pane: self.active_pane,
            drag_target: self.drag_target,
            should_quit: self.should_quit,
        }
    }
}

/// No pane is squeezed out: every edge is between 10 and 90 percent.
pub open spec fn fits_screen(a: AppView) -> bool {
    &&& 10 <= a.split_y <= 90
    &&& 10 <= a.top_split_x <= 90
    &&& 10 <= a.bottom_split_x <= 90
}

/// The terminal after the edges of the focused pane were moved; only the upper left pane
/// can be.
pub open spec fn resized(a: AppView, direction: ResizeDirection) -> AppView {
    match (a.active_pane, direction) {
        (ActivePane::TopLeft, ResizeDirection::Right) => AppView {
            top_split_x: grown(a.top_split_x),
            ..a
        },
        (ActivePane::TopLeft, ResizeDirection::Left) => AppView {
            top_split_x: shrunk(a.top_split_x),
            ..a
        },
        (ActivePane::TopLeft, ResizeDirection::Down) => AppView { split_y: grown(a.split_y), ..a },
        (ActivePane::TopLeft, ResizeDirection::Up) => AppView { split_y: shrunk(a.split_y), ..a },
        _ => a,
    }
}

/// How far a place is below the middle edge. Both are taken as signed numbers of 16 bits.
pub open spec fn offset(y_pct: u16, split_y: u16) -> int {
    (y_pct as i16) - (split_y as i16)
}

/// How far a place is from the middle edge.
pub open spec fn distance(y_pct: u16, split_y: u16) -> int {
    let d = offset(y_pct, split_y);
    if d < 0 {
        -d
    } else {
        d
    }
}

/// The terminal after the mouse did something at a place in percent of the screen: a press
/// near the middle edge grips it, a press elsewhere moves the focus, and a gripped edge
/// follows the mouse until it is let go.
pub open spec fn moused(a: AppView, kind: MouseKind, x_pct: u16, y_pct: u16) -> AppView {
    match kind {
        MouseKind::LeftDown => if distance(y_pct, a.split_y) <= 3 {
            AppView { drag_target: DragTarget::HorizontalSplit, ..a }
        } else {
            AppView {
                drag_target: DragTarget::Nothing,
                active_pane: if y_pct < a.split_y {
                    if x_pct < a.top_split_x {
                        ActivePane::TopLeft
                    } else {
                        ActivePane::TopRight
                    }
                } else {
                    if x_pct < a.bottom_split_x {
                        ActivePane::BottomLeft
                    } else {
                        ActivePane::BottomRight
                    }
                },
                ..a
            }
        },
        MouseKind::LeftDrag => if a.drag_target == DragTarget::HorizontalSplit {
            AppView { split_y: clamped(y_pct), ..a }
        } else {
            a
        },
        MouseKind::LeftUp => AppView { drag_target: DragTarget::Nothing, ..a },
        MouseKind::Other => a,
    }
}

/// The terminal after a key: escape quits, tab moves the focus, other keys do nothing here.
pub open spec fn keyed(a: AppView, key: KeyEvent) -> AppView {
    if key.code == KeyCode::Esc {
        AppView { should_quit: true, ..a }
    } else if key.code == KeyCode::Tab {
        AppView { active_pane: pane_after(a.active_pane), ..a }
    } else {
        a
    }
}

impl App {
    /// The terminal at the start.
    pub fn new() -> (r: Self)
        ensures
            r@ == (AppView {
                split_y: 50,
                top_split_x: 60,
                bottom_split_x: 30,
                active_pane: ActivePane::TopLeft,
                drag_target: DragTarget::Nothing,
                should_quit: false,
            }),
            fits_screen(r@),
            r.logger.lines() == seq![
                "[INFO] System booting up..."@,
                "[READY] Connected to Cockatiel Client lib stream..."@,
            ],
    {
        App {
            title: Title::new(),
            logger: Logger::new(),
            split_y: 50,
            top_split_x: 60,
            bottom_split_x: 30,
            active_pane: ActivePane::TopLeft,
            drag_target: DragTarget::Nothing,
            should_quit: false,
        }
    }

    /// Moves the edges of the focused pane.
    pub fn resize_active(&mut self, direction: ResizeDirection)
        requires
            old(self)@.active_pane == ActivePane::TopLeft && direction == ResizeDirection::Right
                ==> can_grow(old(self)@.top_split_x),
            old(self)@.active_pane == ActivePane::TopLeft && direction == ResizeDirection::Down
                ==> can_grow(old(self)@.split_y),
        ensures
            final(self)@ == resized(old(self)@, direction),
            fits_screen(old(self)@) ==> fits_screen(final(self)@),
            final(self).logger == old(self).logger,
    {
        match (self.active_pane, direction) {
            (ActivePane::TopLeft, ResizeDirection::Right) => {
                self.top_split_x = grow(self.top_split_x);
            },
            (ActivePane::TopLeft, ResizeDirection::Left) => {
                self.top_split_x = shrink(self.top_split_x);
            },
            (ActivePane::TopLeft, ResizeDirection::Down) => {
                self.split_y = grow(self.split_y);
            },
            (ActivePane::TopLeft, ResizeDirection::Up) => {
                self.split_y = shrink(self.split_y);
            },
            _ => {},
        }
    }

    /// Takes what the mouse did, at a place in percent of the screen.
    pub fn handle_mouse(&mut self, kind: MouseKind, x_pct: u16, y_pct: u16)
        requires
            kind == MouseKind::LeftDown ==> i16::MIN < offset(y_pct, old(self)@.split_y)
                <= i16::MAX,
        ensures
            final(self)@ == moused(old(self)@, kind, x_pct, y_pct),
            fits_screen(old(self)@) ==> fits_screen(final(self)@),
            final(self).logger == old(self).logger,
    {
        match kind {
            MouseKind::LeftDown => {
                let d: i16 = y_pct as i16 - self.split_y as i16;
                let dy = if d < 0 {
                    -d
                } else {
                    d
                };
                if dy <= 3 {
                    self.drag_target = DragTarget::HorizontalSplit;
                } else {
                    self.drag_target = DragTarget::Nothing;
                    if y_pct < self.split_y {
                        self.active_pane = if x_pct < self.top_split_x {
                            ActivePane::TopLeft
                        } else {
                            ActivePane::TopRight
                        };
                    } else {
                        self.active_pane = if x_pct < self.bottom_split_x {
                            ActivePane::BottomLeft
                        } else {
                            ActivePane::BottomRight
                        };
                    }
                }
            },
            MouseKind::LeftDrag => {
                if self.drag_target == DragTarget::HorizontalSplit {
                    self.split_y = clamp_split(y_pct);
                }
            },
            MouseKind::LeftUp => {
                self.drag_target = DragTarget::Nothing;
            },
            MouseKind::Other => {},
        }
    }

    /// Moves the focus on.
    pub fn next_pane(&mut self)
        ensures
            final(self)@ == (AppView { active_pane: pane_after(old(self)@.active_pane), ..old(
                self,
            )@ }),
            final(self).logger == old(self).logger,
    {
        self.active_pane = following_pane(self.active_pane);
    }

    /// Takes a key.
    pub fn route_key(&mut self, key: KeyEvent)
        ensures
            final(self)@ == keyed(old(self)@, key),
            final(self).logger == old(self).logger,
    {
        match key.code {
            KeyCode::Esc => {
                self.should_quit = true;
            },
            KeyCode::Tab => {
                self.next_pane();
            },
            _ => {},
        }
    }

    /// How much of the screen the panes have, in percent: the upper and the lower ones of
    /// the height, then the upper left and right and the lower left and right ones of the
    /// width.
    pub fn shares(&self) -> (r: [u16; 6])
        requires
            self@.split_y <= 100,
            self@.top_split_x <= 100,
            self@.bottom_split_x <= 100,
        ensures
            r@ == seq![
                self@.split_y,
                (100 - self@.split_y) as u16,
                self@.top_split_x,
                (100 - self@.top_split_x) as u16,
                self@.bottom_split_x,
                (100 - self@.bottom_split_x) as u16,
            ],
    {
        [
            self.split_y,
            100 - self.split_y,
            self.top_split_x,
            100 - self.top_split_x,
            self.bottom_split_x,
            100 - self.bottom_split_x,
        ]
    }
}

/// What the log shows of a payload.
pub open spec fn payload_details(msg_type: Seq<char>, payload: Option<PayloadView>) -> Seq<char> {
    match payload {
        Some(PayloadView::ConnectionRequest(q)) => "Pin: "@ + decimal_int(q.pin as int) + ", Pos: "@
            + position_name(q.process_position),
        Some(PayloadView::LogLine(l)) => l.log,
        Some(PayloadView::ErrorLine(e)) => "Error: "@ + e.log + " | Trace: "@ + e.trace,
        Some(PayloadView::TimelineEvent(t)) => "Timeline ID: "@ + t.i + " | Cmd: "@ + t.c,
        Some(PayloadView::MessagePreProcess(m)) => "Platform: "@ + (match m.raw_message {
            Some(c) => c.platform,
            None => Seq::empty(),
        }) + " | User: "@ + (match m.raw_message {
            Some(c) => c.user_uuid7,
            None => Seq::empty(),
        }),
        Some(PayloadView::MessageInProcess(m)) => "Platform: "@ + (match m.raw_message {
            Some(c) => c.platform,
            None => Seq::empty(),
        }) + " | Processed: "@ + m.processed_message,
        Some(PayloadView::MessagePostProcess(m)) => "Platform: "@ + (match m.raw_message {
            Some(c) => c.platform,
            None => Seq::empty(),
        }) + " | Final: "@ + m.processed_message,
        Some(PayloadView::CommandPayload(c)) => "Command: "@ + c.command_name,
        Some(PayloadView::Shutdown(s)) => "Reason: "@ + s.reason,
        _ => "Type: "@ + msg_type,
    }
}

fn pair_text(a: &str, b: &str, c: &str, d: &str) -> (r: String)
    ensures
        r@ == a@ + b@ + c@ + d@,
{
    let mut t = a.to_owned();
    t.append(b);
    t.append(c);
    t.append(d);
    t
}

fn two_texts(a: &str, b: &str) -> (r: String)
    ensures
        r@ == a@ + b@,
{
    let mut t = a.to_owned();
    t.append(b);
    t
}

fn details_text(msg_type: &str, payload: &Option<Payload>) -> (r: String)
    ensures
        r@ == payload_details(msg_type@, opt_view(*payload)),
{
    match payload {
        Some(Payload::ConnectionRequest(q)) => pair_text(
            "Pin: ",
            i64_text(q.pin as i64).as_str(),
            ", Pos: ",
            process_position_to_string(q.process_position).as_str(),
        ),
        Some(Payload::LogLine(l)) => l.log.clone(),
        Some(Payload::ErrorLine(e)) => pair_text(
            "Error: ",
            e.log.as_str(),
            " | Trace: ",
            e.trace.as_str(),
        ),
        Some(Payload::TimelineEvent(t)) => pair_text(
            "Timeline ID: ",
            t.i.as_str(),
            " | Cmd: ",
            t.c.as_str(),
        ),
        Some(Payload::MessagePreProcess(m)) => match &m.raw_message {
            Some(c) => pair_text(
                "Platform: ",
                c.platform.as_str(),
                " | User: ",
                c.user_uuid7.as_str(),
            ),
            None => {
                let t = pair_text("Platform: ", String::new().as_str(), " | User: ", String::new().as_str());
                assert(t@ =~= "Platform: "@ + Seq::<char>::empty() + " | User: "@
                    + Seq::<char>::empty());
                t
            },
        },
        Some(Payload::MessageInProcess(m)) => match &m.raw_message {
            Some(c) => pair_text(
                "Platform: ",
                c.platform.as_str(),
                " | Processed: ",
                m.processed_message.as_str(),
            ),
            None => pair_text(
                "Platform: ",
                String::new().as_str(),
                " | Processed: ",
                m.processed_message.as_str(),
            ),
        },
        Some(Payload::MessagePostProcess(m)) => match &m.raw_message {
            Some(c) => pair_text(
                "Platform: ",
                c.platform.as_str(),
                " | Final: ",
                m.processed_message.as_str(),
            ),
            None => pair_text(
                "Platform: ",
                String::new().as_str(),
                " | Final: ",
                m.processed_message.as_str(),
            ),
        },
        Some(Payload::CommandPayload(c)) => two_texts("Command: ", c.command_name.as_str()),
        Some(Payload::Shutdown(s)) => two_texts("Reason: ", s.reason.as_str()),
        _ => two_texts("Type: ", msg_type),
    }
}

/// What the log shows of what a module sent.
pub fn format_container(module: &str, msg_type: &str, payload: &Option<Payload>) -> (r: String)
    ensures
        r@ == "["@ + module@ + "] ["@ + msg_type@ + "] "@ + payload_details(
            msg_type@,
            opt_view(*payload),
        ),
{
    let mut t = "[".to_owned();
    t.append(module);
    t.append("] [");
    t.append(msg_type);
    t.append("] ");
    t.append(details_text(msg_type, payload).as_str());
    t
}

/// The log never grows beyond a hundred lines, and its last line is the newest.
pub proof fn law_log_is_bounded(logs: Seq<Seq<char>>, message: Seq<char>)
    requires
        logs.len() <= 100,
    ensures
        0 < shown(logs, message).len() <= 100,
        shown(logs, message).last() == message,
{
}

/// Letting go ends a drag: until the next press, the mouse moves no edge.
pub proof fn law_released_edge_stays(a: AppView, x1: u16, y1: u16, x2: u16, y2: u16)
    ensures
        ({
            let b = moused(a, MouseKind::LeftUp, x1, y1);
            moused(b, MouseKind::LeftDrag, x2, y2) == b
        }),
{
}

} // verus!
