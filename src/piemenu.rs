//! The radial wedge menu: N equal sectors around a center dead zone.
//!
//! A pointer angle is given as a fraction of a full turn in units of 2^-32
//! turn, measured from the first cut; sector `i` covers
//! `[i/N, (i+1)/N)` of the turn. Distances are integers in any fixed unit.
use vstd::prelude::*;

verus! {

/// One full turn, in the units of a pointer angle.
pub const FULL_TURN: u64 = 0x1_0000_0000;

/// The sector that a pointer at angle `turn` (in 2^-32 turns) falls in, of `n`.
pub open spec fn wedge_of(turn: u32, n: usize) -> int {
    (turn as int * n as int) / (FULL_TURN as int)
}

/// The sector index for a pointer angle: `floor(turn / (FULL_TURN / n))`,
/// computed exactly.
pub fn wedge_of_turn(turn: u32, n: usize) -> (r: usize)
    requires
        n >= 2,
    ensures
        r as int == wedge_of(turn, n),
        r < n,
{
    let t = turn as u128;
    let m = n as u128;
    assert(t * m <= 0xffff_ffff * 0xffff_ffff_ffff_ffff) by (nonlinear_arith)
        requires t <= 0xffff_ffff, m <= 0xffff_ffff_ffff_ffff;
    let p: u128 = t * m;
    assert(p / 0x1_0000_0000 < n) by (nonlinear_arith)
        requires p == turn as int * n as int, turn < 0x1_0000_0000, n >= 2;
    (p / (FULL_TURN as u128)) as usize
}

/// True when a pointer at offset `(dx, dy)` from the center lies on the ring:
/// farther out than the dead zone and not beyond the outer radius.
pub open spec fn on_ring(dx: i32, dy: i32, center_radius: u32, radius: u32) -> bool {
    let d2 = dx * dx + dy * dy;
    d2 > center_radius * center_radius && d2 <= radius * radius
}

/// Whether a pointer offset lies on the ring between the two radii.
pub fn in_ring(dx: i32, dy: i32, center_radius: u32, radius: u32) -> (r: bool)
    ensures
        r == on_ring(dx, dy, center_radius, radius),
{
    let x = dx as i128;
    let y = dy as i128;
    let c = center_radius as i128;
    let o = radius as i128;
    assert(x * x <= 0x4000_0000_0000_0000) by (nonlinear_arith)
        requires -0x8000_0000 <= x <= 0x7fff_ffff;
    assert(y * y <= 0x4000_0000_0000_0000) by (nonlinear_arith)
        requires -0x8000_0000 <= y <= 0x7fff_ffff;
    assert(c * c <= 0x1_0000_0000_0000_0000) by (nonlinear_arith)
        requires 0 <= c <= 0xffff_ffff;
    assert(o * o <= 0x1_0000_0000_0000_0000) by (nonlinear_arith)
        requires 0 <= o <= 0xffff_ffff;
    assert(x * x >= 0 && y * y >= 0) by (nonlinear_arith);
    let d2 = x * x + y * y;
    d2 > c * c && d2 <= o * o
}

/// What the pointer did on the menu this frame.
#[derive(Debug, Clone, Copy, PartialEq, Eq, Structural)]
pub enum ClickAction {
    /// Over this sector, not clicking (or clicking an empty one).
    Hover(usize),
    /// Clicked this sector.
    Click(usize),
    /// Not over any sector.
    Idle,
}

/// The selection state of a radial menu of labelled sectors.
pub struct PieMenuState {
    /// For each sector, whether its label is empty (then it cannot be chosen).
    label_empty: Vec<bool>,
    /// The sector hovered in the previous frame.
    hovered_wedge: Option<usize>,
    /// The sector clicked, latched until taken.
    click_result: Option<usize>,
}

impl PieMenuState {
    pub closed spec fn empty_labels(&self) -> Seq<bool> {
        self.label_empty@
    }

    pub closed spec fn hovered(&self) -> Option<usize> {
        self.hovered_wedge
    }

    pub closed spec fn clicked(&self) -> Option<usize> {
        self.click_result
    }

    /// At least two sectors.
    pub open spec fn wf(&self) -> bool {
        self.empty_labels().len() >= 2
    }

    /// A menu whose sector `i` has an empty label when `label_empty[i]`.
    pub fn new(label_empty: Vec<bool>) -> (r: Self)
        requires
            label_empty@.len() >= 2,
        ensures
            r.wf(),
            r.empty_labels() == label_empty@,
            r.hovered() is None,
            r.clicked() is None,
    {
        PieMenuState { label_empty, hovered_wedge: None, click_result: None }
    }

    /// The number of sectors.
    pub fn sector_count(&self) -> (r: usize)
        ensures
            r == self.empty_labels().len(),
    {
        self.label_empty.len()
    }

    /// The latched click result, if any.
    pub fn get_click_result(&self) -> (r: Option<usize>)
        ensures
            r == self.clicked(),
    {
        self.click_result
    }

    /// Read and clear the latched click result.
    pub fn take_click_result(&mut self) -> (r: Option<usize>)
        ensures
            r == old(self).clicked(),
            final(self).clicked() is None,
            final(self).hovered() == old(self).hovered(),
            final(self).empty_labels() == old(self).empty_labels(),
    {
        let r = self.click_result;
        self.click_result = None;
        r
    }

    /// Apply this frame's pointer: `hit` is the sector under the pointer (none
    /// when it is off the ring), `clicked` whether it was clicked. A click on a
    /// sector with a label latches it as the result.
    pub fn decode(&mut self, hit: Option<usize>, clicked: bool) -> (r: ClickAction)
        requires
            old(self).wf(),
            hit matches Some(w) ==> w < old(self).empty_labels().len(),
        ensures
            final(self).wf(),
            final(self).empty_labels() == old(self).empty_labels(),
            final(self).hovered() == old(self).hovered(),
            match hit {
                None => r == ClickAction::Idle && final(self).clicked() == old(self).clicked(),
                Some(w) => if clicked && !old(self).empty_labels()[w as int] {
                    r == ClickAction::Click(w) && final(self).clicked() == Some(w)
                } else {
                    r == ClickAction::Hover(w) && final(self).clicked() == old(self).clicked()
                },
            },
    {
        match hit {
            None => ClickAction::Idle,
            Some(w) => {
                if clicked && !self.label_empty[w] {
                    self.click_result = Some(w);
                    ClickAction::Click(w)
                } else {
                    ClickAction::Hover(w)
                }
            },
        }
    }

    /// Record the sector highlighted this frame; true when it differs from the
    /// previous frame's (time for an audible cue).
    pub fn set_hovered(&mut self, a: ClickAction) -> (changed: bool)
        ensures
            final(self).hovered() == match a {
                ClickAction::Hover(n) => Some(n),
                ClickAction::Click(n) => Some(n),
                ClickAction::Idle => None,
            },
            changed == (final(self).hovered() != old(self).hovered()),
            final(self).clicked() == old(self).clicked(),
            final(self).empty_labels() == old(self).empty_labels(),
    {
        let h = match a {
            ClickAction::Hover(n) => Some(n),
            ClickAction::Click(n) => Some(n),
            ClickAction::Idle => None,
        };
        let changed = h != self.hovered_wedge;
        self.hovered_wedge = h;
        changed
    }

    /// Whether sector `n` is drawn with emphasis: it is the hovered one.
    pub fn is_emphasized(&self, n: usize) -> (r: bool)
        ensures
            r == (self.hovered() == Some(n)),
    {
        match self.hovered_wedge {
            Some(h) => h == n,
            None => false,
        }
    }
}

} // verus!
