//! The user's terminal: four panes with one cross of edges.
use crate::keymap::{KeyCode, KeyEvent};
use crate::panes::{
    can_grow, clamp_split, clamped, following_pane, grow, grown, pane_after, shrink, shrunk, ActivePane,
    MouseKind, ResizeDirection,
};
use vstd::prelude::*;

verus! {

/// The log pane.
#[derive(Debug)]
pub struct LoggerQuadrant;

impl LoggerQuadrant {
    /// The log pane.
    pub fn new() -> (r: Self)
        ensures
            r == LoggerQuadrant,
    {
        LoggerQuadrant
    }

    /// What stands above the pane.
    pub fn title(&self) -> (r: &'static str)
        ensures
            r@ == " Logger Window "@,
    {
        " Logger Window "
    }

    /// What the pane shows.
    pub fn content(&self) -> (r: &'static str)
        ensures
            r@ == "[INFO] System booting up...\n[DEBUG] Establishing module sockets...\n[READY] Listening for input..."@,
    {
        "[INFO] System booting up...\n[DEBUG] Establishing module sockets...\n[READY] Listening for input..."
    }
}

/// The pane of the modules.
#[derive(Debug)]
pub struct ModuleManagerQuadrant;

impl ModuleManagerQuadrant {
    /// The pane of the modules.
    pub fn new() -> (r: Self)
        ensures
            r == ModuleManagerQuadrant,
    {
        ModuleManagerQuadrant
    }

    /// What stands above the pane.
    pub fn title(&self) -> (r: &'static str)
        ensures
            r@ == " Module Manager [3/12] "@,
    {
        " Module Manager [3/12] "
    }

    /// What the pane shows.
    pub fn content(&self) -> (r: &'static str)
        ensures
            r@ == "mod_4 - RUNNING\nmod_5 - OFFLINE\nmod_6 - CRASHED\nmod_7 - PAUSED\nmod_8 - ...\n...          9/12"@,
    {
        "mod_4 - RUNNING\nmod_5 - OFFLINE\nmod_6 - CRASHED\nmod_7 - PAUSED\nmod_8 - ...\n...          9/12"
    }
}

/// The pane of the controls.
#[derive(Debug)]
pub struct QuadrantContextQuadrant;

impl QuadrantContextQuadrant {
    /// The pane of the controls.
    pub fn new() -> (r: Self)
        ensures
            r == QuadrantContextQuadrant,
    {
        QuadrantContextQuadrant
    }

    /// What stands above the pane.
    pub fn title(&self) -> (r: &'static str)
        ensures
            r@ == " Quadrant Context "@,
    {
        " Quadrant Context "
    }

    /// What the pane shows.
    pub fn content(&self) -> (r: &'static str)
        ensures
            r@ == "Controls & Navigation:\n- Tab: Change Focus\n- Shift + HJKL: Resize Pane\n- Click & Drag: Resize Split\n- q / Esc: Quit"@,
    {
        "Controls & Navigation:\n- Tab: Change Focus\n- Shift + HJKL: Resize Pane\n- Click & Drag: Resize Split\n- q / Esc: Quit"
    }
}

/// The terminal.
#[derive(Debug)]
pub struct App {
    pub module_manager: ModuleManagerQuadrant,
    pub logger: LoggerQuadrant,
    pub quadrant_context: QuadrantContextQuadrant,
    /// How much of the width the left panes have, in percent.
    pub split_x: u16,
    /// How much of the height the upper panes have, in percent.
    pub split_y: u16,
    pub active_pane: ActivePane,
    pub is_dragging: bool,
    pub should_quit: bool,
}

/// What the terminal looks like.
#[verifier::ext_equal]
pub struct AppView {
    pub split_x: u16,
    pub split_y: u16,
    pub active_pane: ActivePane,
    pub is_dragging: bool,
    pub should_quit: bool,
}

impl View for App {
    type V = AppView;

    open spec fn view(&self) -> AppView {
        AppView {
            split_x: self.split_x,
            split_y: self.split_y,
            active_pane: self.active_pane,
            is_dragging: self.is_dragging,
            should_quit: self.should_quit,
        }
    }
}

/// No pane is squeezed out: both edges are between 10 and 90 percent.
pub open spec fn fits_screen(a: AppView) -> bool {
    10 <= a.split_x <= 90 && 10 <= a.split_y <= 90
}

/// Whether the edges can be moved a step at all.
pub open spec fn can_resize(a: AppView, direction: ResizeDirection) -> bool {
    match direction {
        ResizeDirection::Right => can_grow(a.split_x),
        ResizeDirection::Down => can_grow(a.split_y),
        _ => true,
    }
}

/// The terminal after the edges were moved; whichever pane has the focus, all share them.
pub open spec fn resized(a: AppView, direction: ResizeDirection) -> AppView {
    match direction {
        ResizeDirection::Right => AppView { split_x: grown(a.split_x), ..a },
        ResizeDirection::Left => AppView { split_x: shrunk(a.split_x), ..a },
        ResizeDirection::Down => AppView { split_y: grown(a.split_y), ..a },
        ResizeDirection::Up => AppView { split_y: shrunk(a.split_y), ..a },
    }
}

/// The pane at a place in percent of the screen.
pub open spec fn pane_at(a: AppView, x_pct: u16, y_pct: u16) -> ActivePane {
    if y_pct < a.split_y {
        if x_pct < a.split_x {
            ActivePane::TopLeft
        } else {
            ActivePane::TopRight
        }
    } else {
        if x_pct < a.split_x {
            ActivePane::BottomLeft
        } else {
            ActivePane::BottomRight
        }
    }
}

/// The terminal after the mouse did something at a place in percent of the screen: a press
/// moves the focus, and the edges follow the mouse until it is let go.
pub open spec fn moused(a: AppView, kind: MouseKind, x_pct: u16, y_pct: u16) -> AppView {
    match kind {
        MouseKind::LeftDown => AppView {
            is_dragging: true,
            active_pane: pane_at(a, x_pct, y_pct),
            ..a
        },
        MouseKind::LeftDrag => if a.is_dragging {
            AppView { split_x: clamped(x_pct), split_y: clamped(y_pct), ..a }
        } else {
            a
        },
        MouseKind::LeftUp => AppView { is_dragging: false, ..a },
        MouseKind::Other => a,
    }
}

/// What a key asks for.
pub enum KeyMeaning {
    Quit,
    NextPane,
    Resize(ResizeDirection),
    Nothing,
}

/// What a key asks for: `q` without shift, escape and shift with `c` quit, tab moves the
/// focus, arrows with shift and `h`, `j`, `k`, `l` with shift or in upper case move edges.
pub open spec fn meaning(key: KeyEvent) -> KeyMeaning {
    let shift = key.modifiers.shift;
    match key.code {
        KeyCode::Esc => KeyMeaning::Quit,
        KeyCode::Tab => KeyMeaning::NextPane,
        KeyCode::Left => if shift {
            KeyMeaning::Resize(ResizeDirection::Left)
        } else {
            KeyMeaning::Nothing
        },
        KeyCode::Right => if shift {
            KeyMeaning::Resize(ResizeDirection::Right)
        } else {
            KeyMeaning::Nothing
        },
        KeyCode::Up => if shift {
            KeyMeaning::Resize(ResizeDirection::Up)
        } else {
            KeyMeaning::Nothing
        },
        KeyCode::Down => if shift {
            KeyMeaning::Resize(ResizeDirection::Down)
        } else {
            KeyMeaning::Nothing
        },
        KeyCode::Char(c) => if c == 'q' && !shift || c == 'c' && shift {
            KeyMeaning::Quit
        } else if c == 'H' || c == 'h' && shift {
            KeyMeaning::Resize(ResizeDirection::Left)
        } else if c == 'L' || c == 'l' && shift {
            KeyMeaning::Resize(ResizeDirection::Right)
        } else if c == 'K' || c == 'k' && shift {
            KeyMeaning::Resize(ResizeDirection::Up)
        } else if c == 'J' || c == 'j' && shift {
            KeyMeaning::Resize(ResizeDirection::Down)
        } else {
            KeyMeaning::Nothing
        },
        _ => KeyMeaning::Nothing,
    }
}

/// The terminal after a key.
pub open spec fn keyed(a: AppView, key: KeyEvent) -> AppView {
    match meaning(key) {
        KeyMeaning::Quit => AppView { should_quit: true, ..a },
        KeyMeaning::NextPane => AppView { active_pane: pane_after(a.active_pane), ..a },
        KeyMeaning::Resize(d) => resized(a, d),
        KeyMeaning::Nothing => a,
    }
}

fn read_key(key: KeyEvent) -> (r: KeyMeaning)
    ensures
        r == meaning(key),
{
    let shift = key.modifiers.shift;
    match key.code {
        KeyCode::Esc => KeyMeaning::Quit,
        KeyCode::Tab => KeyMeaning::NextPane,
        KeyCode::Left if shift => KeyMeaning::Resize(ResizeDirection::Left),
        KeyCode::Right if shift => KeyMeaning::Resize(ResizeDirection::Right),
        KeyCode::Up if shift => KeyMeaning::Resize(ResizeDirection::Up),
        KeyCode::Down if shift => KeyMeaning::Resize(ResizeDirection::Down),
        KeyCode::Char(c) => if c == 'q' && !shift || c == 'c' && shift {
            KeyMeaning::Quit
        } else if c == 'H' || c == 'h' && shift {
            KeyMeaning::Resize(ResizeDirection::Left)
        } else if c == 'L' || c == 'l' && shift {
            KeyMeaning::Resize(ResizeDirection::Right)
        } else if c == 'K' || c == 'k' && shift {
            KeyMeaning::Resize(ResizeDirection::Up)
        } else if c == 'J' || c == 'j' && shift {
            KeyMeaning::Resize(ResizeDirection::Down)
        } else {
            KeyMeaning::Nothing
        },
        _ => KeyMeaning::Nothing,
    }
}

impl App {
    /// The terminal at the start.
    pub fn new() -> (r: Self)
        ensures
            r@ == (AppView {
                split_x: 60,
                split_y: 50,
                active_pane: ActivePane::TopLeft,
                is_dragging: false,
                should_quit: false,
            }),
            fits_screen(r@),
    {
        App {
            module_manager: ModuleManagerQuadrant::new(),
            logger: LoggerQuadrant::new(),
            quadrant_context: QuadrantContextQuadrant::new(),
            split_x: 60,
            split_y: 50,
            active_pane: ActivePane::TopLeft,
            is_dragging: false,
            should_quit: false,
        }
    }

    /// Moves the edges of the focused pane.
    pub fn resize_active(&mut self, direction: ResizeDirection)
        requires
            can_resize(old(self)@, direction),
        ensures
            final(self)@ == resized(old(self)@, direction),
            fits_screen(old(self)@) ==> fits_screen(final(self)@),
    {
        match direction {
            ResizeDirection::Right => {
                self.split_x = grow(self.split_x);
            },
            ResizeDirection::Left => {
                self.split_x = shrink(self.split_x);
            },
            ResizeDirection::Down => {
                self.split_y = grow(self.split_y);
            },
            ResizeDirection::Up => {
                self.split_y = shrink(self.split_y);
            },
        }
    }

    /// Takes what the mouse did, at a place in percent of the screen.
    pub fn handle_mouse(&mut self, kind: MouseKind, x_pct: u16, y_pct: u16)
        ensures
            final(self)@ == moused(old(self)@, kind, x_pct, y_pct),
            fits_screen(old(self)@) ==> fits_screen(final(self)@),
    {
        match kind {
            MouseKind::LeftDown => {
                self.is_dragging = true;
                self.active_pane = if x_pct < self.split_x && y_pct < self.split_y {
                    ActivePane::TopLeft
                } else if y_pct < self.split_y {
                    ActivePane::TopRight
                } else if x_pct < self.split_x {
                    ActivePane::BottomLeft
                } else {
                    ActivePane::BottomRight
                };
            },
            MouseKind::LeftDrag => {
                if self.is_dragging {
                    self.split_x = clamp_split(x_pct);
                    self.split_y = clamp_split(y_pct);
                }
            },
            MouseKind::LeftUp => {
                self.is_dragging = false;
            },
            MouseKind::Other => {},
        }
    }

    /// Moves the focus on.
    pub fn next_pane(&mut self)
        ensures
            final(self)@ == (AppView { active_pane: pane_after(old(self)@.active_pane), ..old(
                self,
            )@ }),
    {
        self.active_pane = following_pane(self.active_pane);
    }
}

/// Takes a key.
pub fn handle_key_events(key: KeyEvent, app: &mut App)
    requires
        meaning(key) matches KeyMeaning::Resize(d) ==> can_resize(old(app)@, d),
    ensures
        final(app)@ == keyed(old(app)@, key),
        fits_screen(old(app)@) ==> fits_screen(final(app)@),
{
    match read_key(key) {
        KeyMeaning::Quit => {
            app.should_quit = true;
        },
        KeyMeaning::NextPane => {
            app.next_pane();
        },
        KeyMeaning::Resize(d) => {
            app.resize_active(d);
        },
        KeyMeaning::Nothing => {},
    }
}

/// A press focuses the pane that is pressed: dragging the edges afterwards does not move
/// the focus.
pub proof fn law_drag_keeps_focus(a: AppView, x1: u16, y1: u16, x2: u16, y2: u16)
    ensures
        ({
            let pressed = moused(a, MouseKind::LeftDown, x1, y1);
            let dragged = moused(pressed, MouseKind::LeftDrag, x2, y2);
            &&& dragged.active_pane == pane_at(a, x1, y1)
            &&& dragged.split_x == clamped(x2)
            &&& dragged.split_y == clamped(y2)
        }),
{
}

/// Without a press the mouse moves no edge.
pub proof fn law_no_drag_without_press(a: AppView, x: u16, y: u16)
    requires
        !a.is_dragging,
    ensures
        moused(a, MouseKind::LeftDrag, x, y) == a,
{
}

} // verus!
