//! The `/` filter over the worktree list: the live query, whether the bar
//! is open, and a memo of the matched indices that is dropped whenever the
//! query or the list it was computed against changes.

use vstd::prelude::*;
use crate::fuzzy::{all_indices, identity, is_ranking, query_cap, rank_matches, texts};
use crate::text::{chars_of, string_of};

verus! {

/// What the filter shows for `query` over `names`: everything, in order,
/// for the empty query; otherwise the names the query matches, best
/// first, ties in list order.
pub open spec fn filter_result(query: Seq<char>, names: Seq<Seq<char>>, r: Seq<usize>) -> bool {
    if query.len() == 0 {
        r == identity(names.len())
    } else {
        is_ranking(query, names, r)
    }
}

/// Indices of the worktree `names` that `query` matches, ranked.
pub fn fuzzy_match_indices(query: &str, names: &[String]) -> (r: Vec<usize>)
    requires
        query@.len() < query_cap(),
        forall|i: int| 0 <= i < names@.len() ==> (#[trigger] names@[i])@.len() <= u32::MAX,
    ensures
        filter_result(query@, texts(names@), r@),
{
    if chars_of(query).len() == 0 {
        return all_indices(names.len());
    }
    rank_matches(query, names)
}

/// The filter bar and its memo.
#[derive(Debug, Default)]
pub struct FilterState {
    /// Whether keys go to the query.
    pub active: bool,
    /// The live query; empty means no filter.
    pub query: String,
    /// Matched indices from the last computation; `None` when cold.
    cached_indices: Option<Vec<usize>>,
    /// Length of the list the memo was computed against.
    cache_worktrees_len: usize,
}

impl FilterState {
    pub closed spec fn active_view(&self) -> bool {
        self.active
    }

    pub closed spec fn query_view(&self) -> Seq<char> {
        self.query@
    }

    pub closed spec fn cache(&self) -> Option<Seq<usize>> {
        match self.cached_indices {
            Some(v) => Some(v@),
            None => None,
        }
    }

    pub closed spec fn cache_len(&self) -> usize {
        self.cache_worktrees_len
    }

    /// Closed, empty, cold.
    pub fn new() -> (r: FilterState)
        ensures
            !r.active_view(),
            r.query_view().len() == 0,
            r.cache() is None,
    {
        FilterState { active: false, query: String::new(), cached_indices: None, cache_worktrees_len: 0 }
    }

    /// Type a character into the query; the memo goes cold.
    pub fn push_char(&mut self, c: char)
        ensures
            final(self).active_view() == old(self).active_view(),
            final(self).query_view() == old(self).query_view().push(c),
            final(self).cache() is None,
    {
        let mut v = chars_of(self.query.as_str());
        v.push(c);
        self.query = string_of(v.as_slice());
        self.cached_indices = None;
    }

    /// Backspace: drop the last character. An empty query stays empty,
    /// the bar stays open, and the memo survives.
    pub fn pop_char(&mut self)
        ensures
            final(self).active_view() == old(self).active_view(),
            old(self).query_view().len() > 0 ==> final(self).query_view() == old(self).query_view().drop_last()
                && final(self).cache() is None,
            old(self).query_view().len() == 0 ==> *final(self) == *old(self),
    {
        let mut v = chars_of(self.query.as_str());
        if v.len() > 0 {
            v.pop();
            self.query = string_of(v.as_slice());
            self.cached_indices = None;
        }
    }

    /// Replace the query; the memo goes cold.
    pub fn set_query(&mut self, q: String)
        ensures
            final(self).active_view() == old(self).active_view(),
            final(self).query_view() == q@,
            final(self).cache() is None,
    {
        self.query = q;
        self.cached_indices = None;
    }

    /// Empty the query and close the bar; the memo goes cold.
    pub fn clear(&mut self)
        ensures
            !final(self).active_view(),
            final(self).query_view().len() == 0,
            final(self).cache() is None,
    {
        self.query = String::new();
        self.active = false;
        self.cached_indices = None;
    }

    /// Open the bar, keeping the query and the memo.
    pub fn open(&mut self)
        ensures
            final(self).active_view(),
            final(self).query_view() == old(self).query_view(),
            final(self).cache() == old(self).cache(),
            final(self).cache_len() == old(self).cache_len(),
    {
        self.active = true;
    }

    /// Close the bar and keep the query (the sticky filter).
    pub fn close_keep(&mut self)
        ensures
            !final(self).active_view(),
            final(self).query_view() == old(self).query_view(),
            final(self).cache() == old(self).cache(),
            final(self).cache_len() == old(self).cache_len(),
    {
        self.active = false;
    }

    /// Close the bar and drop the query.
    pub fn close_cancel(&mut self)
        ensures
            !final(self).active_view(),
            final(self).query_view().len() == 0,
            final(self).cache() is None,
    {
        self.clear();
    }

    /// Drop the memo.
    pub fn invalidate(&mut self)
        ensures
            final(self).active_view() == old(self).active_view(),
            final(self).query_view() == old(self).query_view(),
            final(self).cache() is None,
    {
        self.cached_indices = None;
    }

    /// The matched indices for `names`: the memo when it is warm and was
    /// computed against a list of the same length, otherwise a fresh
    /// ranking, which becomes the memo.
    pub fn filtered_indices(&mut self, names: &[String]) -> (r: Vec<usize>)
        requires
            old(self).query_view().len() < query_cap(),
            forall|i: int| 0 <= i < names@.len() ==> (#[trigger] names@[i])@.len() <= u32::MAX,
        ensures
            final(self).active_view() == old(self).active_view(),
            final(self).query_view() == old(self).query_view(),
            final(self).cache() == Some(r@),
            final(self).cache_len() == names@.len(),
            (old(self).cache() is Some && old(self).cache_len() == names@.len()) ==> Some(r@) == old(self).cache(),
            !(old(self).cache() is Some && old(self).cache_len() == names@.len()) ==> filter_result(
                old(self).query_view(),
                texts(names@),
                r@,
            ),
    {
        let len_changed = self.cache_worktrees_len != names.len();
        match &self.cached_indices {
            Some(v) => {
                if !len_changed {
                    let out = copy_indices(v);
                    return out;
                }
            },
            None => {},
        }
        let fresh = fuzzy_match_indices(self.query.as_str(), names);
        let out = copy_indices(&fresh);
        self.cached_indices = Some(fresh);
        self.cache_worktrees_len = names.len();
        out
    }

    /// The matched indices for `names` without touching the memo: the
    /// memo when it is warm for a list of this length, else computed.
    pub fn snapshot_indices(&self, names: &[String]) -> (r: Vec<usize>)
        requires
            self.query_view().len() < query_cap(),
            forall|i: int| 0 <= i < names@.len() ==> (#[trigger] names@[i])@.len() <= u32::MAX,
        ensures
            (self.cache() is Some && self.cache_len() == names@.len()) ==> Some(r@) == self.cache(),
            !(self.cache() is Some && self.cache_len() == names@.len()) ==> filter_result(
                self.query_view(),
                texts(names@),
                r@,
            ),
    {
        let len_changed = self.cache_worktrees_len != names.len();
        match &self.cached_indices {
            Some(v) => {
                if !len_changed {
                    return copy_indices(v);
                }
            },
            None => {},
        }
        fuzzy_match_indices(self.query.as_str(), names)
    }
}

fn copy_indices(v: &Vec<usize>) -> (r: Vec<usize>)
    ensures
        r@ == v@,
{
    let mut out: Vec<usize> = Vec::new();
    let mut i: usize = 0;
    while i < v.len()
        invariant
            i <= v@.len(),
            out@ == v@.take(i as int),
        decreases v.len() - i,
    {
        out.push(v[i]);
        proof {
            assert(v@.take(i + 1) =~= v@.take(i as int).push(v@[i as int]));
        }
        i += 1;
    }
    proof {
        assert(v@.take(v@.len() as int) =~= v@);
    }
    out
}

} // verus!
