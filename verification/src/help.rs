//! Keybindings (help) overlay state: a scroll cursor and the bounds the
//! renderer republishes each frame.

use vstd::prelude::*;

verus! {

/// Owned state for the help overlay: where the reader is, and how far the
/// renderer says they may go.
#[derive(Debug, Default)]
pub struct HelpOverlay {
    /// Vertical scroll offset, in rows.
    pub scroll: u16,
    /// Horizontal scroll offset, in columns.
    pub x_scroll: u16,
    /// Maximum vertical offset, republished by the renderer.
    pub max_scroll: u16,
    /// Maximum horizontal offset, republished by the renderer.
    pub max_x_scroll: u16,
}

/// One step forward, clamped to `bound` (`(v + 1).min(bound)`).
pub open spec fn step_up_to(v: u16, bound: u16) -> u16 {
    if v + 1 <= bound { (v + 1) as u16 } else { bound }
}

/// One step back, saturating at zero.
pub open spec fn step_down(v: u16) -> u16 {
    if v == 0 { 0 } else { (v - 1) as u16 }
}

/// `(v + 1).min(bound)` in executable form.
pub fn clamp_inc(v: u16, bound: u16) -> (r: u16)
    requires
        v < u16::MAX,
    ensures
        r == step_up_to(v, bound),
{
    let n = v + 1;
    if n <= bound { n } else { bound }
}

impl HelpOverlay {
    pub fn new() -> (r: Self)
        ensures
            r.scroll == 0 && r.x_scroll == 0 && r.max_scroll == 0 && r.max_x_scroll == 0,
    {
        HelpOverlay { scroll: 0, x_scroll: 0, max_scroll: 0, max_x_scroll: 0 }
    }

    /// Rewind to the top-left; the renderer-owned bounds are left alone.
    pub fn rewind(&mut self)
        ensures
            final(self).scroll == 0,
            final(self).x_scroll == 0,
            final(self).max_scroll == old(self).max_scroll,
            final(self).max_x_scroll == old(self).max_x_scroll,
    {
        self.scroll = 0;
        self.x_scroll = 0;
    }

    /// Scroll down one row, clamped to the published bound.
    pub fn scroll_down(&mut self)
        requires
            old(self).scroll < u16::MAX,
        ensures
            final(self).scroll == step_up_to(old(self).scroll, old(self).max_scroll),
            final(self).x_scroll == old(self).x_scroll,
            final(self).max_scroll == old(self).max_scroll,
            final(self).max_x_scroll == old(self).max_x_scroll,
    {
        self.scroll = clamp_inc(self.scroll, self.max_scroll);
    }

    /// Scroll up one row, clamped at the top.
    pub fn scroll_up(&mut self)
        ensures
            final(self).scroll == step_down(old(self).scroll),
            final(self).x_scroll == old(self).x_scroll,
            final(self).max_scroll == old(self).max_scroll,
            final(self).max_x_scroll == old(self).max_x_scroll,
    {
        self.scroll = self.scroll.saturating_sub(1);
    }

    /// Pan right one column, clamped to the published bound.
    pub fn scroll_right(&mut self)
        requires
            old(self).x_scroll < u16::MAX,
        ensures
            final(self).x_scroll == step_up_to(old(self).x_scroll, old(self).max_x_scroll),
            final(self).scroll == old(self).scroll,
            final(self).max_scroll == old(self).max_scroll,
            final(self).max_x_scroll == old(self).max_x_scroll,
    {
        self.x_scroll = clamp_inc(self.x_scroll, self.max_x_scroll);
    }

    /// Pan left one column, clamped at the left edge.
    pub fn scroll_left(&mut self)
        ensures
            final(self).x_scroll == step_down(old(self).x_scroll),
            final(self).scroll == old(self).scroll,
            final(self).max_scroll == old(self).max_scroll,
            final(self).max_x_scroll == old(self).max_x_scroll,
    {
        self.x_scroll = self.x_scroll.saturating_sub(1);
    }
}

} // verus!
