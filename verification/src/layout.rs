//! Layout policies that carry no geometry.
use vstd::prelude::*;

verus! {

/// Overflow policy for content/children that exceed the node's bounds.
#[derive(Clone, Copy, Debug, PartialEq, Eq, Structural)]
pub enum Overflow {
    /// Content can render outside the node's bounds.
    Visible,
    /// Content is clipped to the node's bounds.
    Hidden,
    /// Content is clipped but can be scrolled.
    Scroll,
}

impl Default for Overflow {
    fn default() -> (r: Self)
        ensures
            r == Overflow::Visible,
    {
        Overflow::Visible
    }
}

/// Scroll direction behavior
#[derive(Clone, Copy, Debug, PartialEq, Eq, Structural)]
pub enum ScrollDirection {
    /// Normal scrolling: wheel up scrolls content down
    Normal,
    /// Inverted/natural scrolling: wheel up scrolls content up (like touchpad)
    Inverted,
}

impl Default for ScrollDirection {
    fn default() -> (r: Self)
        ensures
            r == ScrollDirection::Inverted,
    {
        ScrollDirection::Inverted
    }
}

/// Whether a wheel gesture over a scroll container scrolls it horizontally:
/// when its content overflows horizontally and either Shift is held or the
/// content does not overflow vertically. Otherwise the gesture scrolls
/// vertically.
pub open spec fn wheel_goes_horizontal(shift_held: bool, overflows_x: bool, overflows_y: bool) -> bool {
    overflows_x && (shift_held || !overflows_y)
}

/// Which axis a wheel gesture over a scroll container scrolls: `true` for
/// the horizontal axis, `false` for the vertical one.
pub fn wheel_scrolls_horizontally(shift_held: bool, overflows_x: bool, overflows_y: bool) -> (r:
    bool)
    ensures
        r == wheel_goes_horizontal(shift_held, overflows_x, overflows_y),
{
    overflows_x && (shift_held || !overflows_y)
}

/// Layout mode for arranging children
#[derive(Clone, Copy, Debug, PartialEq, Eq, Structural)]
pub enum Layout {
    /// Children are arranged horizontally (left to right)
    Horizontal,
    /// Children are arranged vertically (top to bottom)
    Vertical,
    /// Children are stacked in the Z direction (overlapping)
    Stack,
}

impl Default for Layout {
    fn default() -> (r: Self)
        ensures
            r == Layout::Vertical,
    {
        Layout::Vertical
    }
}

} // verus!
