//! The full-size commit listing overlay: a snapshot of graph rows read at a
//! limit, paging to a deeper limit on request, and a scroll cursor whose
//! bound the renderer republishes each frame.
//!
//! The rows are whatever the renderer paints (`L`); the overlay only counts
//! them. Paging re-reads at a larger limit rather than appending: the graph
//! needs the whole list, since a connector on one row depends on the
//! parents of the rows below it.

use vstd::prelude::*;
use std::path::PathBuf;

verus! {

/// Pages the paged limit may reach: each page is a whole graph walk.
pub const COMMITS_MAX_PAGES: usize = 5;

/// Owned state for the commit listing.
pub struct CommitsModal<L> {
    /// The rows, as the sidebar pane paints them.
    pub lines: Vec<L>,
    /// The limit `lines` was read at.
    pub limit: usize,
    /// Rows actually returned: one per commit.
    pub loaded: usize,
    /// Vertical scroll offset, in rows.
    pub scroll: u16,
    /// Maximum scroll offset, republished by the renderer.
    pub max_scroll: u16,
    /// A read is in flight.
    pub loading: bool,
    /// The worktree the rows describe.
    pub path: Option<PathBuf>,
    /// One page of history: the sidebar's own commit limit.
    pub page: usize,
}

impl<L> CommitsModal<L> {
    /// The ceiling on the paged limit.
    pub open spec fn max_limit(&self) -> nat {
        (self.page * COMMITS_MAX_PAGES) as nat
    }

    /// A deeper page exists and is allowed.
    pub open spec fn may_load_more(&self) -> bool {
        !self.loading && self.loaded >= self.limit && self.limit < self.max_limit()
    }

    /// The limit the next page reads at.
    pub open spec fn next_limit_spec(&self) -> int {
        if self.limit + self.page < self.max_limit() {
            self.limit + self.page
        } else {
            self.max_limit() as int
        }
    }

    /// An empty overlay at the origin, paging by `page` commits.
    pub fn new(page: usize) -> (r: Self)
        requires
            page * COMMITS_MAX_PAGES <= usize::MAX,
        ensures
            r.lines@.len() == 0,
            r.limit == 0,
            r.loaded == 0,
            r.scroll == 0,
            r.max_scroll == 0,
            !r.loading,
            r.path is None,
            r.page == page,
    {
        CommitsModal {
            lines: Vec::new(),
            limit: 0,
            loaded: 0,
            scroll: 0,
            max_scroll: 0,
            loading: false,
            path: None,
            page,
        }
    }

    /// Arm the overlay for `path` at `limit`: drop the previous listing,
    /// rewind the scroll, and show the loader until [`Self::load`] lands
    /// (with nothing selected there is nothing to wait for).
    pub fn begin(&mut self, path: Option<&PathBuf>, limit: usize)
        ensures
            final(self).lines@.len() == 0,
            final(self).loaded == 0,
            final(self).limit == limit,
            final(self).scroll == 0,
            final(self).max_scroll == 0,
            final(self).path == (match path {
                Some(p) => Some(*p),
                None => None,
            }),
            final(self).loading == path.is_some(),
            final(self).page == old(self).page,
    {
        self.lines.clear();
        self.loaded = 0;
        self.limit = limit;
        self.scroll = 0;
        self.max_scroll = 0;
        self.path = match path {
            Some(p) => Some(p.clone()),
            None => None,
        };
        self.loading = path.is_some();
    }

    /// Arm a deeper page, keeping the rows and the scroll cursor on screen
    /// while the read runs.
    pub fn begin_more(&mut self, limit: usize)
        ensures
            *final(self) == (CommitsModal { limit, loading: true, ..*old(self) }),
    {
        self.limit = limit;
        self.loading = true;
    }

    /// Install the read's rows and clear the loader.
    pub fn load(&mut self, lines: Vec<L>)
        ensures
            final(self).lines@ == lines@,
            final(self).loaded == lines@.len(),
            !final(self).loading,
            final(self).limit == old(self).limit,
            final(self).scroll == old(self).scroll,
            final(self).max_scroll == old(self).max_scroll,
            final(self).path == old(self).path,
            final(self).page == old(self).page,
    {
        self.loaded = lines.len();
        self.lines = lines;
        self.loading = false;
    }

    /// Whether a deeper page exists and is allowed: nothing in flight, the
    /// last read filled its limit, and the ceiling is not reached.
    pub fn can_load_more(&self) -> (r: bool)
        requires
            self.page * COMMITS_MAX_PAGES <= usize::MAX,
        ensures
            r == self.may_load_more(),
    {
        !self.loading && self.loaded >= self.limit && self.limit < self.page * COMMITS_MAX_PAGES
    }

    /// The limit the next page reads at, clamped to the ceiling.
    pub fn next_limit(&self) -> (r: usize)
        requires
            self.page * COMMITS_MAX_PAGES <= usize::MAX,
            self.limit + self.page <= usize::MAX,
        ensures
            r == self.next_limit_spec(),
    {
        let next = self.limit + self.page;
        let max = self.page * COMMITS_MAX_PAGES;
        if next < max {
            next
        } else {
            max
        }
    }

    /// Scroll down one row, never past the last.
    pub fn scroll_down(&mut self)
        ensures
            final(self).scroll == (if old(self).scroll < old(self).max_scroll {
                old(self).scroll + 1
            } else {
                old(self).max_scroll as int
            }),
            final(self).max_scroll == old(self).max_scroll,
    {
        self.scroll = if self.scroll < self.max_scroll {
            self.scroll + 1
        } else {
            self.max_scroll
        };
    }

    /// Scroll up one row, never above the top.
    pub fn scroll_up(&mut self)
        ensures
            final(self).scroll == (if old(self).scroll > 0 {
                old(self).scroll - 1
            } else {
                0
            }),
            final(self).max_scroll == old(self).max_scroll,
    {
        self.scroll = if self.scroll > 0 {
            self.scroll - 1
        } else {
            0
        };
    }

    /// Jump to the first row.
    pub fn scroll_to_top(&mut self)
        ensures
            final(self).scroll == 0,
            final(self).max_scroll == old(self).max_scroll,
    {
        self.scroll = 0;
    }

    /// Jump to the last row.
    pub fn scroll_to_bottom(&mut self)
        ensures
            final(self).scroll == old(self).max_scroll,
            final(self).max_scroll == old(self).max_scroll,
    {
        self.scroll = self.max_scroll;
    }
}

/// Paging only ever moves forward and never past the ceiling: whenever a
/// deeper page is allowed, its limit is above the current one and at most
/// the ceiling.
pub proof fn law_paging_moves_forward<L>(m: CommitsModal<L>)
    requires
        m.may_load_more(),
    ensures
        m.limit < m.next_limit_spec() <= m.max_limit(),
{
    assert(m.page > 0) by (nonlinear_arith)
        requires
            m.limit < m.page * COMMITS_MAX_PAGES,
    ;
}

} // verus!
