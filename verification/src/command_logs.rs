//! The command-log overlay: a snapshot of the logged commands and a
//! two-axis scroll clamped to what the renderer reported fits.

use vstd::prelude::*;

verus! {

#[derive(Debug, Default)]
pub struct CommandLogs<E> {
    /// The log as of the last [`CommandLogs::sync`].
    pub entries: Vec<E>,
    pub scroll: u16,
    pub max_scroll: u16,
    pub x_scroll: u16,
    pub max_x_scroll: u16,
}

impl<E> CommandLogs<E> {
    /// Empty, scrolled to the top-left.
    pub fn new() -> (r: CommandLogs<E>)
        ensures
            r.entries@.len() == 0,
            r.scroll == 0 && r.max_scroll == 0 && r.x_scroll == 0 && r.max_x_scroll == 0,
    {
        CommandLogs { entries: Vec::new(), scroll: 0, max_scroll: 0, x_scroll: 0, max_x_scroll: 0 }
    }

    /// Replace the entries with a fresh snapshot of the log.
    pub fn sync(&mut self, snapshot: Vec<E>)
        ensures
            final(self).entries@ == snapshot@,
            final(self).scroll == old(self).scroll,
            final(self).max_scroll == old(self).max_scroll,
            final(self).x_scroll == old(self).x_scroll,
            final(self).max_x_scroll == old(self).max_x_scroll,
    {
        self.entries = snapshot;
    }

    /// One line down, no further than the last page.
    pub fn scroll_down(&mut self)
        requires
            old(self).scroll < u16::MAX,
        ensures
            final(self).scroll == if old(self).scroll + 1 < old(self).max_scroll {
                old(self).scroll + 1
            } else {
                old(self).max_scroll as int
            },
            final(self).max_scroll == old(self).max_scroll,
            final(self).x_scroll == old(self).x_scroll,
            final(self).max_x_scroll == old(self).max_x_scroll,
            final(self).entries@ == old(self).entries@,
    {
        let next = self.scroll + 1;
        self.scroll = if next < self.max_scroll { next } else { self.max_scroll };
    }

    /// One line up, stopping at the top.
    pub fn scroll_up(&mut self)
        ensures
            final(self).scroll == if old(self).scroll > 0 { old(self).scroll - 1 } else { 0 },
            final(self).max_scroll == old(self).max_scroll,
            final(self).x_scroll == old(self).x_scroll,
            final(self).max_x_scroll == old(self).max_x_scroll,
            final(self).entries@ == old(self).entries@,
    {
        self.scroll = self.scroll.saturating_sub(1);
    }

    /// One column right, no further than the widest line allows.
    pub fn scroll_right(&mut self)
        requires
            old(self).x_scroll < u16::MAX,
        ensures
            final(self).x_scroll == if old(self).x_scroll + 1 < old(self).max_x_scroll {
                old(self).x_scroll + 1
            } else {
                old(self).max_x_scroll as int
            },
            final(self).scroll == old(self).scroll,
            final(self).max_scroll == old(self).max_scroll,
            final(self).max_x_scroll == old(self).max_x_scroll,
            final(self).entries@ == old(self).entries@,
    {
        let next = self.x_scroll + 1;
        self.x_scroll = if next < self.max_x_scroll { next } else { self.max_x_scroll };
    }

    /// One column left, stopping at the margin.
    pub fn scroll_left(&mut self)
        ensures
            final(self).x_scroll == if old(self).x_scroll > 0 { old(self).x_scroll - 1 } else { 0 },
            final(self).scroll == old(self).scroll,
            final(self).max_scroll == old(self).max_scroll,
            final(self).max_x_scroll == old(self).max_x_scroll,
            final(self).entries@ == old(self).entries@,
    {
        self.x_scroll = self.x_scroll.saturating_sub(1);
    }

    pub fn scroll_to_top(&mut self)
        ensures
            final(self).scroll == 0,
            final(self).max_scroll == old(self).max_scroll,
            final(self).x_scroll == old(self).x_scroll,
            final(self).max_x_scroll == old(self).max_x_scroll,
            final(self).entries@ == old(self).entries@,
    {
        self.scroll = 0;
    }

    pub fn scroll_to_bottom(&mut self)
        ensures
            final(self).scroll == old(self).max_scroll,
            final(self).max_scroll == old(self).max_scroll,
            final(self).x_scroll == old(self).x_scroll,
            final(self).max_x_scroll == old(self).max_x_scroll,
            final(self).entries@ == old(self).entries@,
    {
        self.scroll = self.max_scroll;
    }

    /// Back to the top-left, keeping the entries and the limits.
    pub fn reset(&mut self)
        ensures
            final(self).scroll == 0,
            final(self).x_scroll == 0,
            final(self).entries@ == old(self).entries@,
            final(self).max_scroll == old(self).max_scroll,
            final(self).max_x_scroll == old(self).max_x_scroll,
    {
        self.scroll = 0;
        self.x_scroll = 0;
    }
}

} // verus!
