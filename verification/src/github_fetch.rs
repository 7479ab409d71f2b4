//! Per-worktree forge status: the branch's issue / PR link, and one fetch
//! state per issue and per PR number (idle, loading, loaded, failed). A
//! fetch finishing for a number that is no longer linked still lands in
//! its own slot, so it can never overwrite another number's status.

use vstd::prelude::*;
use std::collections::HashMap;

verus! {

broadcast use vstd::std_specs::hash::group_hash_axioms;

/// Where a fetch for one number stands.
#[derive(Debug, Clone, PartialEq, Eq)]
pub enum GitHubFetchState<T> {
    Idle,
    Loading,
    Loaded(T),
    Error(String),
}

/// Which slot a fetch belongs to.
#[derive(Debug, Clone, Copy, PartialEq, Eq, Hash, Structural)]
pub enum FetchKey {
    Issue(u64),
    Pr(u64),
}

/// How the branch's PR number became known.
#[derive(Debug, Clone, Copy, PartialEq, Eq, Structural)]
pub enum LinkSource {
    /// No PR linked.
    Unset,
    /// Set by the user.
    Explicit,
    /// Found by asking the forge for a PR on the branch.
    Detected,
}

/// The issue and PR a branch is linked to.
#[derive(Debug, Clone, Copy, PartialEq, Eq, Structural)]
pub struct BranchLink {
    pub issue: Option<u64>,
    pub pr: Option<u64>,
    pub pr_source: LinkSource,
}

impl BranchLink {
    pub fn empty() -> (r: BranchLink)
        ensures
            r.issue is None && r.pr is None && r.pr_source == LinkSource::Unset,
    {
        BranchLink { issue: None, pr: None, pr_source: LinkSource::Unset }
    }
}

/// Whether a fetch state is final (loaded or failed).
pub open spec fn is_terminal<T>(s: GitHubFetchState<T>) -> bool {
    s is Loaded || s is Error
}

pub struct GitHubFetch<I, P> {
    pub link: BranchLink,
    /// The forge's `owner/repo` slug, when one was resolved.
    pub link_slug: Option<String>,
    issue_cache: HashMap<u64, GitHubFetchState<I>>,
    pr_cache: HashMap<u64, GitHubFetchState<P>>,
    idle_issue: GitHubFetchState<I>,
    idle_pr: GitHubFetchState<P>,
}

impl<I, P> GitHubFetch<I, P> {
    pub closed spec fn issues(&self) -> Map<u64, GitHubFetchState<I>> {
        self.issue_cache@
    }

    pub closed spec fn prs(&self) -> Map<u64, GitHubFetchState<P>> {
        self.pr_cache@
    }

    pub closed spec fn link_view(&self) -> BranchLink {
        self.link
    }

    /// The resolved `owner/repo` slug.
    pub closed spec fn slug_view(&self) -> Option<Seq<char>> {
        match self.link_slug {
            Some(s) => Some(s@),
            None => None,
        }
    }

    /// The stand-in idle states are idle.
    pub closed spec fn wf(&self) -> bool {
        self.idle_issue is Idle && self.idle_pr is Idle
    }

    /// Nothing linked, nothing fetched.
    pub fn new() -> (r: GitHubFetch<I, P>)
        ensures
            r.wf(),
            r.link_view() == BranchLink::empty_spec(),
            r.slug_view() is None,
            r.issues() == Map::<u64, GitHubFetchState<I>>::empty(),
            r.prs() == Map::<u64, GitHubFetchState<P>>::empty(),
    {
        GitHubFetch {
            link: BranchLink::empty(),
            link_slug: None,
            issue_cache: HashMap::new(),
            pr_cache: HashMap::new(),
            idle_issue: GitHubFetchState::Idle,
            idle_pr: GitHubFetchState::Idle,
        }
    }

    /// Forget every fetched status (the link was re-read).
    pub fn invalidate(&mut self)
        requires
            old(self).wf(),
        ensures
            final(self).wf(),
            final(self).link_view() == old(self).link_view(),
            final(self).slug_view() == old(self).slug_view(),
            final(self).issues() == Map::<u64, GitHubFetchState<I>>::empty(),
            final(self).prs() == Map::<u64, GitHubFetchState<P>>::empty(),
    {
        self.issue_cache.clear();
        self.pr_cache.clear();
    }

    /// Drop a PR number that was only detected, never set by the user.
    pub fn clear_detected_pr(&mut self)
        requires
            old(self).wf(),
        ensures
            final(self).wf(),
            final(self).issues() == old(self).issues(),
            final(self).prs() == old(self).prs(),
            final(self).slug_view() == old(self).slug_view(),
            final(self).link_view() == if old(self).link_view().pr_source == LinkSource::Detected {
                BranchLink { pr: None, pr_source: LinkSource::Unset, ..old(self).link_view() }
            } else {
                old(self).link_view()
            },
    {
        if self.link.pr_source == LinkSource::Detected {
            self.link.pr = None;
            self.link.pr_source = LinkSource::Unset;
        }
    }

    /// Record that a fetch for `key` is under way.
    pub fn mark_loading(&mut self, key: FetchKey)
        requires
            old(self).wf(),
        ensures
            final(self).wf(),
            final(self).link_view() == old(self).link_view(),
            final(self).slug_view() == old(self).slug_view(),
            match key {
                FetchKey::Issue(n) => final(self).issues() == old(self).issues().insert(n, GitHubFetchState::Loading)
                    && final(self).prs() == old(self).prs(),
                FetchKey::Pr(n) => final(self).prs() == old(self).prs().insert(n, GitHubFetchState::Loading)
                    && final(self).issues() == old(self).issues(),
            },
    {
        match key {
            FetchKey::Issue(n) => {
                self.issue_cache.insert(n, GitHubFetchState::Loading);
            },
            FetchKey::Pr(n) => {
                self.pr_cache.insert(n, GitHubFetchState::Loading);
            },
        }
    }

    /// Whether `key` already has a final status (loaded or failed).
    pub fn is_cached(&self, key: FetchKey) -> (r: bool)
        ensures
            r == match key {
                FetchKey::Issue(n) => self.issues().contains_key(n) && is_terminal(self.issues()[n]),
                FetchKey::Pr(n) => self.prs().contains_key(n) && is_terminal(self.prs()[n]),
            },
    {
        match key {
            FetchKey::Issue(n) => match self.issue_cache.get(&n) {
                Some(GitHubFetchState::Loaded(_)) | Some(GitHubFetchState::Error(_)) => true,
                _ => false,
            },
            FetchKey::Pr(n) => match self.pr_cache.get(&n) {
                Some(GitHubFetchState::Loaded(_)) | Some(GitHubFetchState::Error(_)) => true,
                _ => false,
            },
        }
    }

    /// Land a finished issue fetch for `number`.
    pub fn complete_issue(&mut self, number: u64, result: Result<I, String>)
        requires
            old(self).wf(),
        ensures
            final(self).wf(),
            final(self).link_view() == old(self).link_view(),
            final(self).slug_view() == old(self).slug_view(),
            final(self).prs() == old(self).prs(),
            final(self).issues() == old(self).issues().insert(number, into_state_spec(result)),
    {
        self.issue_cache.insert(number, into_state(result));
    }

    /// Land a finished PR fetch for `number`.
    pub fn complete_pr(&mut self, number: u64, result: Result<P, String>)
        requires
            old(self).wf(),
        ensures
            final(self).wf(),
            final(self).link_view() == old(self).link_view(),
            final(self).slug_view() == old(self).slug_view(),
            final(self).issues() == old(self).issues(),
            final(self).prs() == old(self).prs().insert(number, into_state_spec(result)),
    {
        self.pr_cache.insert(number, into_state(result));
    }

    /// Land an issue fetch: a status under the number it carries, an
    /// error under the linked issue (dropped when none is linked).
    pub fn apply_issue_result(&mut self, r: Result<(u64, I), String>)
        requires
            old(self).wf(),
        ensures
            final(self).wf(),
            final(self).link_view() == old(self).link_view(),
            final(self).slug_view() == old(self).slug_view(),
            final(self).prs() == old(self).prs(),
            final(self).issues() == match r {
                Ok((n, s)) => old(self).issues().insert(n, GitHubFetchState::Loaded(s)),
                Err(e) => match old(self).link_view().issue {
                    Some(n) => old(self).issues().insert(n, GitHubFetchState::Error(e)),
                    None => old(self).issues(),
                },
            },
    {
        match r {
            Ok((n, s)) => {
                self.issue_cache.insert(n, GitHubFetchState::Loaded(s));
            },
            Err(e) => {
                if let Some(n) = self.link.issue {
                    self.issue_cache.insert(n, GitHubFetchState::Error(e));
                }
            },
        }
    }

    /// Land a PR fetch: a status under the number it carries, an error
    /// under the linked PR (dropped when none is linked).
    pub fn apply_pr_result(&mut self, r: Result<(u64, P), String>)
        requires
            old(self).wf(),
        ensures
            final(self).wf(),
            final(self).link_view() == old(self).link_view(),
            final(self).slug_view() == old(self).slug_view(),
            final(self).issues() == old(self).issues(),
            final(self).prs() == match r {
                Ok((n, s)) => old(self).prs().insert(n, GitHubFetchState::Loaded(s)),
                Err(e) => match old(self).link_view().pr {
                    Some(n) => old(self).prs().insert(n, GitHubFetchState::Error(e)),
                    None => old(self).prs(),
                },
            },
    {
        match r {
            Ok((n, s)) => {
                self.pr_cache.insert(n, GitHubFetchState::Loaded(s));
            },
            Err(e) => {
                if let Some(n) = self.link.pr {
                    self.pr_cache.insert(n, GitHubFetchState::Error(e));
                }
            },
        }
    }

    /// The fetch state of issue `number`; idle when never asked for.
    pub fn issue_fetch_state(&self, number: u64) -> (r: &GitHubFetchState<I>)
        requires
            self.wf(),
        ensures
            if self.issues().contains_key(number) {
                *r == self.issues()[number]
            } else {
                *r is Idle
            },
    {
        match self.issue_cache.get(&number) {
            Some(s) => s,
            None => &self.idle_issue,
        }
    }

    /// The fetch state of PR `number`; idle when never asked for.
    pub fn pr_fetch_state(&self, number: u64) -> (r: &GitHubFetchState<P>)
        requires
            self.wf(),
        ensures
            if self.prs().contains_key(number) {
                *r == self.prs()[number]
            } else {
                *r is Idle
            },
    {
        match self.pr_cache.get(&number) {
            Some(s) => s,
            None => &self.idle_pr,
        }
    }
}

impl BranchLink {
    pub open spec fn empty_spec() -> BranchLink {
        BranchLink { issue: None, pr: None, pr_source: LinkSource::Unset }
    }
}

pub open spec fn into_state_spec<T>(r: Result<T, String>) -> GitHubFetchState<T> {
    match r {
        Ok(s) => GitHubFetchState::Loaded(s),
        Err(e) => GitHubFetchState::Error(e),
    }
}

fn into_state<T>(r: Result<T, String>) -> (s: GitHubFetchState<T>)
    ensures
        s == into_state_spec(r),
{
    match r {
        Ok(s) => GitHubFetchState::Loaded(s),
        Err(e) => GitHubFetchState::Error(e),
    }
}

/// A finished fetch is what a later read gives back for that number, and
/// it leaves every other number's status as it was.
pub proof fn law_complete_then_read<T>(cache: Map<u64, GitHubFetchState<T>>, n: u64, m: u64, r: Result<T, String>)
    ensures
        cache.insert(n, into_state_spec(r))[n] == into_state_spec(r),
        is_terminal(cache.insert(n, into_state_spec(r))[n]),
        m != n ==> cache.insert(n, into_state_spec(r)).contains_key(m) == cache.contains_key(m),
        m != n && cache.contains_key(m) ==> cache.insert(n, into_state_spec(r))[m] == cache[m],
{
}

} // verus!
