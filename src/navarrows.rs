//! The directional pad: a drag vector from the control's center decodes into
//! one of four directions, the center, or nothing.
//!
//! Coordinates are integers in any fixed unit (for instance 1/256 pixel); `y`
//! grows downwards, so a negative `y` points up.
use vstd::prelude::*;

verus! {

/// What a press on the pad means.
#[derive(Debug, Clone, Copy, PartialEq, Eq, Structural)]
pub enum NavAction {
    /// No drag in progress.
    Idle,
    Up,
    Down,
    Left,
    Right,
    Center,
}

/// The integer absolute value.
pub open spec fn abs(x: int) -> int {
    if x < 0 {
        -x
    } else {
        x
    }
}

/// The decoded action for a drag vector `drag` (none when no drag is in
/// progress) and a center dead-zone radius `dead_zone`.
pub open spec fn nav_decode(drag: Option<(i32, i32)>, dead_zone: i32) -> NavAction {
    match drag {
        None => NavAction::Idle,
        Some((x, y)) => if dead_zone > 0 && x * x + y * y < dead_zone * dead_zone {
            NavAction::Center
        } else if abs(x as int) > abs(y as int) {
            if x > 0 {
                NavAction::Right
            } else {
                NavAction::Left
            }
        } else if y < 0 {
            NavAction::Up
        } else {
            NavAction::Down
        },
    }
}

/// Decode a drag: inside the dead zone it is `Center`; otherwise the dominant
/// axis gives the direction (a tie goes to the vertical axis). No drag is `None`.
pub fn decode_drag(drag: Option<(i32, i32)>, dead_zone: i32) -> (r: NavAction)
    ensures
        r == nav_decode(drag, dead_zone),
{
    match drag {
        None => NavAction::Idle,
        Some((x, y)) => {
            let xx = x as i128;
            let yy = y as i128;
            let d = dead_zone as i128;
            assert(xx * xx <= 0x4000_0000_0000_0000) by (nonlinear_arith)
                requires -0x8000_0000 <= xx <= 0x7fff_ffff;
            assert(yy * yy <= 0x4000_0000_0000_0000) by (nonlinear_arith)
                requires -0x8000_0000 <= yy <= 0x7fff_ffff;
            assert(d * d <= 0x4000_0000_0000_0000) by (nonlinear_arith)
                requires -0x8000_0000 <= d <= 0x7fff_ffff;
            assert(xx * xx >= 0 && yy * yy >= 0) by (nonlinear_arith);
            let ax = if xx < 0 { -xx } else { xx };
            let ay = if yy < 0 { -yy } else { yy };
            if d > 0 && xx * xx + yy * yy < d * d {
                NavAction::Center
            } else if ax > ay {
                if x > 0 {
                    NavAction::Right
                } else {
                    NavAction::Left
                }
            } else if y < 0 {
                NavAction::Up
            } else {
                NavAction::Down
            }
        },
    }
}

/// What to draw over the pad for an action.
#[derive(Debug, Clone, Copy, PartialEq, Eq, Structural)]
pub enum PadOverlay {
    /// Nothing pressed: no overlay.
    Nothing,
    /// The center button image.
    CenterButton,
    /// The arrow image (which points right) turned clockwise by this many quarter turns.
    Arrow(u8),
}

/// The overlay for an action: the arrow turned to point the pressed way.
pub fn pressed_overlay(a: NavAction) -> (r: PadOverlay)
    ensures
        r == match a {
            NavAction::Idle => PadOverlay::Nothing,
            NavAction::Center => PadOverlay::CenterButton,
            NavAction::Right => PadOverlay::Arrow(0),
            NavAction::Down => PadOverlay::Arrow(1),
            NavAction::Left => PadOverlay::Arrow(2),
            NavAction::Up => PadOverlay::Arrow(3),
        },
{
    match a {
        NavAction::Idle => PadOverlay::Nothing,
        NavAction::Center => PadOverlay::CenterButton,
        NavAction::Right => PadOverlay::Arrow(0),
        NavAction::Down => PadOverlay::Arrow(1),
        NavAction::Left => PadOverlay::Arrow(2),
        NavAction::Up => PadOverlay::Arrow(3),
    }
}

} // verus!
