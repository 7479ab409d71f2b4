//! The command palette: a one-line input whose fuzzy-ranked menu offers
//! every list-view verb by name, and the registry it draws from (shared
//! with the help overlay, so neither can drift from the other).

use vstd::prelude::*;
use crate::keymap::Action;
use crate::fuzzy::{all_indices, identity, is_ranking, law_ranking_unique, lemma_ranking_len, query_cap, rank_matches, texts};
use crate::text::{chars_of, string_of};

verus! {

/// One row of the palette's registry: what is typed after `:`, and its
/// one-line gloss.
#[derive(Debug, Clone, Copy, PartialEq, Eq)]
pub struct PaletteEntry {
    pub action: Action,
    pub name: &'static str,
    pub description: &'static str,
}

/// The registry's actions, in suggestion order (most frequent first).
pub open spec fn registry_actions() -> Seq<Action> {
    seq![
        Action::Create,
        Action::DeleteConfirm,
        Action::Bootstrap,
        Action::Refresh,
        Action::Open,
        Action::OpenMenu,
        Action::LinkPrompt,
        Action::FetchGithub,
        Action::GitTui,
        Action::Review,
        Action::Yank,
        Action::Filter,
        Action::ToggleSidebar,
        Action::ToggleSidebarMode,
        Action::ToggleDeleteBranch,
        Action::FocusSwap,
        Action::Top,
        Action::Bottom,
        Action::Down,
        Action::Up,
        Action::Help,
        Action::Quit,
        Action::CommandPalette,
    ]
}

/// The registry's names, in the same order.
pub open spec fn registry_names() -> Seq<Seq<char>> {
    seq![
        "create"@,
        "delete"@,
        "bootstrap"@,
        "refresh"@,
        "open"@,
        "open-menu"@,
        "link"@,
        "fetch-github"@,
        "git-tui"@,
        "review"@,
        "yank"@,
        "filter"@,
        "toggle-sidebar"@,
        "toggle-sidebar-mode"@,
        "toggle-delete-branch"@,
        "focus-swap"@,
        "top"@,
        "bottom"@,
        "down"@,
        "up"@,
        "help"@,
        "quit"@,
        "command-palette"@,
    ]
}

/// The registry's descriptions, in the same order.
pub open spec fn registry_descriptions() -> Seq<Seq<char>> {
    seq![
        "new worktree (form opens)"@,
        "delete the selected worktree (with confirm)"@,
        "re-run bootstrap on the selected worktree"@,
        "refresh the worktree list"@,
        "open the selected worktree (shell / editor / finder)"@,
        "open issue or PR URL in the browser"@,
        "link the selected worktree to an issue or PR"@,
        "refresh GitHub issue/PR status via `gh`"@,
        "launch the [git_tui] launcher (default lazygit)"@,
        "run the [review] launcher against the resolved base"@,
        "yank the selected worktree path to the clipboard"@,
        "open the fuzzy filter bar"@,
        "toggle the git preview sidebar"@,
        "cycle the sidebar between commits and stashes"@,
        "toggle whether `delete` also drops the branch"@,
        "swap focus between worktree list and sidebar"@,
        "jump to the first worktree"@,
        "jump to the last worktree"@,
        "select the next worktree"@,
        "select the previous worktree"@,
        "show the help overlay"@,
        "quit the TUI"@,
        "this command palette"@,
    ]
}

/// Entry `i` of `r` is row `i` of the registry.
pub open spec fn is_registry(r: Seq<PaletteEntry>) -> bool {
    &&& r.len() == registry_actions().len()
    &&& forall|i: int|
        0 <= i < r.len() ==> (#[trigger] r[i]).action == registry_actions()[i] && r[i].name@
            == registry_names()[i] && r[i].description@ == registry_descriptions()[i]
}

/// The full palette registry, in suggestion order.
pub fn palette_entries() -> (r: Vec<PaletteEntry>)
    ensures
        is_registry(r@),
{
    let r = vec![
        PaletteEntry { action: Action::Create, name: "create", description: "new worktree (form opens)" },
        PaletteEntry { action: Action::DeleteConfirm, name: "delete", description: "delete the selected worktree (with confirm)" },
        PaletteEntry { action: Action::Bootstrap, name: "bootstrap", description: "re-run bootstrap on the selected worktree" },
        PaletteEntry { action: Action::Refresh, name: "refresh", description: "refresh the worktree list" },
        PaletteEntry { action: Action::Open, name: "open", description: "open the selected worktree (shell / editor / finder)" },
        PaletteEntry { action: Action::OpenMenu, name: "open-menu", description: "open issue or PR URL in the browser" },
        PaletteEntry { action: Action::LinkPrompt, name: "link", description: "link the selected worktree to an issue or PR" },
        PaletteEntry { action: Action::FetchGithub, name: "fetch-github", description: "refresh GitHub issue/PR status via `gh`" },
        PaletteEntry { action: Action::GitTui, name: "git-tui", description: "launch the [git_tui] launcher (default lazygit)" },
        PaletteEntry { action: Action::Review, name: "review", description: "run the [review] launcher against the resolved base" },
        PaletteEntry { action: Action::Yank, name: "yank", description: "yank the selected worktree path to the clipboard" },
        PaletteEntry { action: Action::Filter, name: "filter", description: "open the fuzzy filter bar" },
        PaletteEntry { action: Action::ToggleSidebar, name: "toggle-sidebar", description: "toggle the git preview sidebar" },
        PaletteEntry { action: Action::ToggleSidebarMode, name: "toggle-sidebar-mode", description: "cycle the sidebar between commits and stashes" },
        PaletteEntry { action: Action::ToggleDeleteBranch, name: "toggle-delete-branch", description: "toggle whether `delete` also drops the branch" },
        PaletteEntry { action: Action::FocusSwap, name: "focus-swap", description: "swap focus between worktree list and sidebar" },
        PaletteEntry { action: Action::Top, name: "top", description: "jump to the first worktree" },
        PaletteEntry { action: Action::Bottom, name: "bottom", description: "jump to the last worktree" },
        PaletteEntry { action: Action::Down, name: "down", description: "select the next worktree" },
        PaletteEntry { action: Action::Up, name: "up", description: "select the previous worktree" },
        PaletteEntry { action: Action::Help, name: "help", description: "show the help overlay" },
        PaletteEntry { action: Action::Quit, name: "quit", description: "quit the TUI" },
        PaletteEntry { action: Action::CommandPalette, name: "command-palette", description: "this command palette" },
    ];
    proof {
        assert(r@.len() == registry_actions().len());
    }
    r
}


/// What the menu shows for `buffer`: the whole registry in order while
/// nothing is typed, otherwise the entries whose names match, best first.
pub open spec fn palette_matches(buffer: Seq<char>, m: Seq<usize>) -> bool {
    if buffer.len() == 0 {
        m == identity(registry_names().len())
    } else {
        is_ranking(buffer, registry_names(), m)
    }
}

/// The overlay's state: input buffer, ranked matches, highlighted row.
#[derive(Debug)]
pub struct PaletteState {
    pub open: bool,
    buffer: String,
    /// Indices into the registry matching `buffer`, in rank order.
    matches: Vec<usize>,
    highlight: usize,
}

impl PaletteState {
    pub closed spec fn open_view(&self) -> bool {
        self.open
    }

    pub closed spec fn buffer_view(&self) -> Seq<char> {
        self.buffer@
    }

    pub closed spec fn matches_view(&self) -> Seq<usize> {
        self.matches@
    }

    pub closed spec fn highlight_view(&self) -> usize {
        self.highlight
    }

    /// The match list is the one the buffer calls for, and the buffer is
    /// short enough to score.
    pub open spec fn wf(&self) -> bool {
        &&& palette_matches(self.buffer_view(), self.matches_view())
        &&& self.buffer_view().len() < query_cap()
    }

    fn registry_texts() -> (r: Vec<String>)
        ensures
            texts(r@) == registry_names(),
            forall|i: int| 0 <= i < r@.len() ==> (#[trigger] r@[i])@.len() <= u32::MAX,
    {
        let reg = palette_entries();
        let mut out: Vec<String> = Vec::new();
        let mut i: usize = 0;
        while i < reg.len()
            invariant
                is_registry(reg@),
                i <= reg@.len(),
                texts(out@) == registry_names().take(i as int),
                forall|k: int| 0 <= k < out@.len() ==> (#[trigger] out@[k])@.len() <= u32::MAX,
            decreases reg.len() - i,
        {
            let name = string_of(chars_of(reg[i].name).as_slice());
            proof {
                reveal_strlit("create");
                reveal_strlit("delete");
                reveal_strlit("bootstrap");
                reveal_strlit("refresh");
                reveal_strlit("open");
                reveal_strlit("open-menu");
                reveal_strlit("link");
                reveal_strlit("fetch-github");
                reveal_strlit("git-tui");
                reveal_strlit("review");
                reveal_strlit("yank");
                reveal_strlit("filter");
                reveal_strlit("toggle-sidebar");
                reveal_strlit("toggle-sidebar-mode");
                reveal_strlit("toggle-delete-branch");
                reveal_strlit("focus-swap");
                reveal_strlit("top");
                reveal_strlit("bottom");
                reveal_strlit("down");
                reveal_strlit("up");
                reveal_strlit("help");
                reveal_strlit("quit");
                reveal_strlit("command-palette");
                assert(registry_names()[i as int].len() <= 20);
            }
            let ghost before = out@;
            out.push(name);
            proof {
                assert(texts(out@) =~= texts(before).push(name@));
                assert(registry_names().take(i + 1) =~= registry_names().take(i as int).push(registry_names()[i as int]));
            }
            i += 1;
        }
        proof {
            assert(registry_names().take(reg@.len() as int) =~= registry_names());
        }
        out
    }

    fn recompute_matches(&mut self)
        requires
            old(self).buffer_view().len() < query_cap(),
        ensures
            final(self).wf(),
            final(self).open_view() == old(self).open_view(),
            final(self).buffer_view() == old(self).buffer_view(),
            final(self).highlight_view() == old(self).highlight_view(),
    {
        if chars_of(self.buffer.as_str()).len() == 0 {
            self.matches = all_indices(23);
        } else {
            let hays = Self::registry_texts();
            self.matches = rank_matches(self.buffer.as_str(), hays.as_slice());
        }
    }

    /// Closed, empty, the whole registry listed.
    pub fn new() -> (r: PaletteState)
        ensures
            r.wf(),
            !r.open_view(),
            r.buffer_view().len() == 0,
            r.matches_view() == identity(registry_names().len()),
            r.highlight_view() == 0,
    {
        let mut s = PaletteState { open: false, buffer: String::new(), matches: Vec::new(), highlight: 0 };
        s.recompute_matches();
        s
    }

    pub fn buffer(&self) -> (r: &str)
        ensures
            r@ == self.buffer_view(),
    {
        self.buffer.as_str()
    }

    pub fn highlight(&self) -> (r: usize)
        ensures
            r == self.highlight_view(),
    {
        self.highlight
    }

    /// The visible entries, in rank order.
    pub fn matches(&self) -> (r: Vec<PaletteEntry>)
        requires
            self.wf(),
        ensures
            r@.len() == self.matches_view().len(),
            r@.len() <= registry_names().len(),
            self.matches_view().no_duplicates(),
            forall|k: int|
                0 <= k < r@.len() ==> (#[trigger] r@[k]).action == registry_actions()[self.matches_view()[k] as int]
                    && r@[k].name@ == registry_names()[self.matches_view()[k] as int],
    {
        proof {
            if self.buffer@.len() == 0 {
                assert(self.matches@ == identity(registry_names().len()));
            } else {
                lemma_ranking_len(self.buffer@, registry_names(), self.matches@);
            }
        }
        let reg = palette_entries();
        let mut out: Vec<PaletteEntry> = Vec::new();
        let mut k: usize = 0;
        while k < self.matches.len()
            invariant
                self.wf(),
                is_registry(reg@),
                k <= self.matches@.len(),
                out@.len() == k,
                forall|j: int|
                    0 <= j < k ==> (#[trigger] out@[j]).action == registry_actions()[self.matches@[j] as int]
                        && out@[j].name@ == registry_names()[self.matches@[j] as int],
            decreases self.matches.len() - k,
        {
            let i = self.matches[k];
            proof {
                if self.buffer@.len() == 0 {
                    assert(self.matches@[k as int] == k);
                } else {
                    assert(self.matches@[k as int] < registry_names().len());
                }
            }
            out.push(reg[i]);
            k += 1;
        }
        out
    }

    /// Open with an empty buffer and the whole registry listed.
    pub fn open(&mut self)
        ensures
            final(self).wf(),
            final(self).open_view(),
            final(self).buffer_view().len() == 0,
            final(self).highlight_view() == 0,
    {
        self.open = true;
        self.buffer = String::new();
        self.highlight = 0;
        self.recompute_matches();
    }

    /// Close without firing anything.
    pub fn close(&mut self)
        ensures
            final(self).wf(),
            !final(self).open_view(),
            final(self).buffer_view().len() == 0,
            final(self).highlight_view() == 0,
    {
        self.open = false;
        self.buffer = String::new();
        self.highlight = 0;
        self.recompute_matches();
    }

    pub fn push_char(&mut self, c: char)
        requires
            old(self).buffer_view().len() + 1 < query_cap(),
        ensures
            final(self).wf(),
            final(self).open_view() == old(self).open_view(),
            final(self).buffer_view() == old(self).buffer_view().push(c),
            final(self).highlight_view() == 0,
    {
        let mut v = chars_of(self.buffer.as_str());
        v.push(c);
        self.buffer = string_of(v.as_slice());
        self.recompute_matches();
        self.highlight = 0;
    }

    pub fn pop_char(&mut self)
        requires
            old(self).buffer_view().len() < query_cap(),
        ensures
            final(self).wf(),
            final(self).open_view() == old(self).open_view(),
            final(self).buffer_view() == if old(self).buffer_view().len() > 0 {
                old(self).buffer_view().drop_last()
            } else {
                old(self).buffer_view()
            },
            final(self).highlight_view() == 0,
    {
        let mut v = chars_of(self.buffer.as_str());
        if v.len() > 0 {
            v.pop();
        }
        self.buffer = string_of(v.as_slice());
        self.recompute_matches();
        self.highlight = 0;
    }

    /// One row down, wrapping to the top; nothing when no entry matches.
    pub fn cycle_highlight_down(&mut self)
        ensures
            final(self).open_view() == old(self).open_view(),
            final(self).buffer_view() == old(self).buffer_view(),
            final(self).matches_view() == old(self).matches_view(),
            final(self).highlight_view() == if old(self).matches_view().len() == 0 {
                old(self).highlight_view() as int
            } else {
                ((old(self).highlight_view() as int) % (old(self).matches_view().len() as int) + 1) % (old(
                    self,
                ).matches_view().len() as int)
            },
    {
        if self.matches.len() == 0 {
            return;
        }
        let n = self.matches.len();
        self.highlight = (self.highlight % n + 1) % n;
    }

    /// One row up, wrapping to the bottom; nothing when no entry matches.
    pub fn cycle_highlight_up(&mut self)
        ensures
            final(self).open_view() == old(self).open_view(),
            final(self).buffer_view() == old(self).buffer_view(),
            final(self).matches_view() == old(self).matches_view(),
            final(self).highlight_view() == if old(self).matches_view().len() == 0 {
                old(self).highlight_view()
            } else if old(self).highlight_view() == 0 {
                (old(self).matches_view().len() - 1) as usize
            } else {
                (old(self).highlight_view() - 1) as usize
            },
    {
        if self.matches.len() == 0 {
            return;
        }
        self.highlight = if self.highlight == 0 { self.matches.len() - 1 } else { self.highlight - 1 };
    }

    /// Fire the highlighted entry: its action, with the palette closed.
    /// `None`, with the palette left open, when nothing matches or the
    /// highlight points past the list.
    pub fn accept(&mut self) -> (r: Option<Action>)
        requires
            old(self).wf(),
        ensures
            final(self).wf(),
            old(self).highlight_view() < old(self).matches_view().len() ==> r == Some(
                registry_actions()[old(self).matches_view()[old(self).highlight_view() as int] as int],
            ) && !final(self).open_view() && final(self).buffer_view().len() == 0 && final(self).highlight_view() == 0,
            old(self).highlight_view() >= old(self).matches_view().len() ==> r is None && *final(self) == *old(self),
    {
        if self.matches.len() == 0 || self.highlight >= self.matches.len() {
            return None;
        }
        let idx = self.matches[self.highlight];
        let reg = palette_entries();
        proof {
            if self.buffer@.len() == 0 {
                assert(self.matches@[self.highlight as int] == self.highlight);
            }
        }
        let action = reg[idx].action;
        self.close();
        Some(action)
    }
}

/// Every list-view verb can be reached from the palette: the registry
/// holds an entry for each `Action`.
pub proof fn law_registry_covers_every_action(a: Action)
    ensures
        exists|i: int| 0 <= i < registry_actions().len() && #[trigger] registry_actions()[i] == a,
{
    let r = registry_actions();
    match a {
        Action::Create => assert(r[0] == a),
        Action::DeleteConfirm => assert(r[1] == a),
        Action::Bootstrap => assert(r[2] == a),
        Action::Refresh => assert(r[3] == a),
        Action::Open => assert(r[4] == a),
        Action::OpenMenu => assert(r[5] == a),
        Action::LinkPrompt => assert(r[6] == a),
        Action::FetchGithub => assert(r[7] == a),
        Action::GitTui => assert(r[8] == a),
        Action::Review => assert(r[9] == a),
        Action::Yank => assert(r[10] == a),
        Action::Filter => assert(r[11] == a),
        Action::ToggleSidebar => assert(r[12] == a),
        Action::ToggleSidebarMode => assert(r[13] == a),
        Action::ToggleDeleteBranch => assert(r[14] == a),
        Action::FocusSwap => assert(r[15] == a),
        Action::Top => assert(r[16] == a),
        Action::Bottom => assert(r[17] == a),
        Action::Down => assert(r[18] == a),
        Action::Up => assert(r[19] == a),
        Action::Help => assert(r[20] == a),
        Action::Quit => assert(r[21] == a),
        Action::CommandPalette => assert(r[22] == a),
    }
}

/// Cycling the highlight down and then up comes back to the same row.
pub proof fn law_cycle_down_up(len: int, h: int)
    requires
        0 <= h < len,
    ensures
        ({
            let d = (h % len + 1) % len;
            let u = if d == 0 { len - 1 } else { d - 1 };
            u == h
        }),
{
    if h + 1 < len {
        assert((h % len + 1) % len == h + 1) by (nonlinear_arith)
            requires
                0 <= h,
                h + 1 < len,
        ;
    } else {
        assert((h % len + 1) % len == 0) by (nonlinear_arith)
            requires
                0 <= h,
                h + 1 == len,
        ;
    }
}

impl Default for PaletteState {
    fn default() -> (r: PaletteState)
        ensures
            r.wf(),
            !r.open_view(),
            r.buffer_view().len() == 0,
            r.highlight_view() == 0,
    {
        PaletteState::new()
    }
}

/// The palette is a function of its buffer: two palettes holding the same
/// buffer list the same entries in the same order.
pub proof fn law_palette_deterministic(a: PaletteState, b: PaletteState)
    requires
        a.wf(),
        b.wf(),
        a.buffer_view() == b.buffer_view(),
    ensures
        a.matches_view() == b.matches_view(),
{
    if a.buffer_view().len() > 0 {
        law_ranking_unique(a.buffer_view(), registry_names(), a.matches_view(), b.matches_view());
    }
}

/// Typing a character and taking it back leaves the palette listing what
/// it listed before: the buffer is what it was, so the matches are too.
pub proof fn law_push_pop_restores(before: PaletteState, after: PaletteState, c: char)
    requires
        before.wf(),
        after.wf(),
        after.buffer_view() == before.buffer_view().push(c).drop_last(),
    ensures
        after.buffer_view() == before.buffer_view(),
        after.matches_view() == before.matches_view(),
{
    assert(before.buffer_view().push(c).drop_last() =~= before.buffer_view());
    law_palette_deterministic(before, after);
}

/// An empty buffer lists every entry, in registry order.
pub proof fn law_empty_buffer_lists_registry(s: PaletteState)
    requires
        s.wf(),
        s.buffer_view().len() == 0,
    ensures
        s.matches_view() == identity(registry_names().len()),
{
}

} // verus!
