//! Four panes on a screen: where their edges are and which of them has the focus.
use vstd::prelude::*;

verus! {

/// The pane that has the focus.
#[derive(Debug, Clone, Copy, PartialEq, Eq, Structural)]
pub enum ActivePane {
    TopLeft,
    TopRight,
    BottomLeft,
    BottomRight,
}

/// Where the edge of a pane is moved.
#[derive(Debug, Clone, Copy, PartialEq, Eq, Structural)]
pub enum ResizeDirection {
    Up,
    Down,
    Left,
    Right,
}

/// What the mouse did.
#[derive(Debug, Clone, Copy, PartialEq, Eq, Structural)]
pub enum MouseKind {
    LeftDown,
    LeftDrag,
    LeftUp,
    /// Anything else.
    Other,
}

/// A split moved on by a step, at most to 90 percent.
pub open spec fn grown(split: u16) -> u16 {
    if split + 2 > 90 {
        90
    } else {
        (split + 2) as u16
    }
}

/// Whether a split can be moved on by a step at all.
pub open spec fn can_grow(split: u16) -> bool {
    split + 2 <= u16::MAX
}

/// A split moved back by a step, at least to 10 percent.
pub open spec fn shrunk(split: u16) -> u16 {
    if split - 2 < 10 {
        10
    } else {
        (split - 2) as u16
    }
}

/// A split at a place, between 10 and 90 percent.
pub open spec fn clamped(percent: u16) -> u16 {
    if percent < 10 {
        10
    } else if percent > 90 {
        90
    } else {
        percent
    }
}

/// The pane after another, clockwise.
pub open spec fn pane_after(pane: ActivePane) -> ActivePane {
    match pane {
        ActivePane::TopLeft => ActivePane::TopRight,
        ActivePane::TopRight => ActivePane::BottomRight,
        ActivePane::BottomRight => ActivePane::BottomLeft,
        ActivePane::BottomLeft => ActivePane::TopLeft,
    }
}

/// A split moved on by a step.
pub fn grow(split: u16) -> (r: u16)
    requires
        can_grow(split),
    ensures
        r == grown(split),
{
    if split + 2 > 90 {
        90
    } else {
        split + 2
    }
}

/// A split moved back by a step.
pub fn shrink(split: u16) -> (r: u16)
    ensures
        r == shrunk(split),
{
    if split < 12 {
        10
    } else {
        split - 2
    }
}

/// A split at a place.
pub fn clamp_split(percent: u16) -> (r: u16)
    ensures
        r == clamped(percent),
{
    if percent < 10 {
        10
    } else if percent > 90 {
        90
    } else {
        percent
    }
}

/// The pane after another.
pub fn following_pane(pane: ActivePane) -> (r: ActivePane)
    ensures
        r == pane_after(pane),
{
    match pane {
        ActivePane::TopLeft => ActivePane::TopRight,
        ActivePane::TopRight => ActivePane::BottomRight,
        ActivePane::BottomRight => ActivePane::BottomLeft,
        ActivePane::BottomLeft => ActivePane::TopLeft,
    }
}

/// Moving the focus four times brings it back, and not before.
pub proof fn law_focus_goes_round(pane: ActivePane)
    ensures
        pane_after(pane_after(pane_after(pane_after(pane)))) == pane,
        pane_after(pane) != pane,
        pane_after(pane_after(pane)) != pane,
        pane_after(pane_after(pane_after(pane))) != pane,
{
}

/// Moving an edge on and back again leaves it where it was, unless it met its limit.
pub proof fn law_resize_is_undone(split: u16)
    requires
        10 <= split <= 88,
    ensures
        shrunk(grown(split)) == split,
        10 <= grown(split) <= 90,
        12 <= split ==> grown(shrunk(split)) == split,
{
}

} // verus!
