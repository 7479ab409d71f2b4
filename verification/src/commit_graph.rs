//! Per-row commit graph for the Recent Commits listing.
//!
//! The commit list is walked once, keeping the set of active *pipes*
//! (vertical line segments) between consecutive rows; each row then renders
//! as a fixed run of two-character cells (`<glyph><filler>`). The width of a
//! row depends only on the commit list, never on the terminal.

use vstd::prelude::*;
use vstd::string::*;

verus! {

/// The part of a commit the graph needs: its hash and its parents' hashes.
pub struct CommitRow {
    pub hash: String,
    pub author: String,
    pub parents: Vec<String>,
    pub subject: String,
}

/// Lifecycle of a pipe across the row it sits in. The declaration order is
/// the tie-break order of a row's pipes at equal column.
#[derive(Debug, Clone, Copy, PartialEq, Eq, Structural, PartialOrd, Ord)]
pub enum PipeKind {
    /// Arrives from above and ends on the row's commit.
    Terminates,
    /// Starts at the row's commit, heading down to one of its parents.
    Starts,
    /// Arrives from above and continues below, possibly shifting columns.
    Continues,
}

/// Rank of a kind in the declaration order.
pub open spec fn kind_rank(k: PipeKind) -> int {
    match k {
        PipeKind::Terminates => 0,
        PipeKind::Starts => 1,
        PipeKind::Continues => 2,
    }
}

fn kind_rank_exec(k: PipeKind) -> (r: u8)
    ensures
        r as int == kind_rank(k),
{
    match k {
        PipeKind::Terminates => 0,
        PipeKind::Starts => 1,
        PipeKind::Continues => 2,
    }
}

#[derive(Debug, Clone)]
pub struct Pipe {
    pub from_pos: i16,
    pub to_pos: i16,
    pub from_hash: String,
    pub to_hash: String,
    pub kind: PipeKind,
}

/// A pipe with its hashes taken as character sequences.
pub struct PipeView {
    pub from_pos: int,
    pub to_pos: int,
    pub from_hash: Seq<char>,
    pub to_hash: Seq<char>,
    pub kind: PipeKind,
}

impl View for Pipe {
    type V = PipeView;

    open spec fn view(&self) -> PipeView {
        PipeView {
            from_pos: self.from_pos as int,
            to_pos: self.to_pos as int,
            from_hash: self.from_hash@,
            to_hash: self.to_hash@,
            kind: self.kind,
        }
    }
}

impl PipeView {
    pub open spec fn left(self) -> int {
        if self.from_pos <= self.to_pos { self.from_pos } else { self.to_pos }
    }

    pub open spec fn right(self) -> int {
        if self.from_pos <= self.to_pos { self.to_pos } else { self.from_pos }
    }
}

/// The views of a row of pipes.
pub open spec fn pipes_view(s: Seq<Pipe>) -> Seq<PipeView> {
    s.map_values(|p: Pipe| p@)
}

impl Pipe {
    fn left(&self) -> (r: i16)
        ensures
            r as int == self@.left(),
    {
        if self.from_pos <= self.to_pos { self.from_pos } else { self.to_pos }
    }

    fn right(&self) -> (r: i16)
        ensures
            r as int == self@.right(),
    {
        if self.from_pos <= self.to_pos { self.to_pos } else { self.from_pos }
    }

    fn duplicate(&self) -> (r: Pipe)
        ensures
            r@ == self@,
    {
        Pipe {
            from_pos: self.from_pos,
            to_pos: self.to_pos,
            from_hash: self.from_hash.clone(),
            to_hash: self.to_hash.clone(),
            kind: self.kind,
        }
    }
}

/// The 16-case box-drawing table: `(glyph, right_filler)` for a cell with
/// strokes up / down / left / right.
pub open spec fn box_chars(up: bool, down: bool, left: bool, right: bool) -> (char, char) {
    let glyph = if up && down {
        '│'
    } else if up {
        if left && right { '┴' } else if left { '╯' } else if right { '╰' } else { '╵' }
    } else if down {
        if left && right { '┬' } else if left { '╮' } else if right { '╭' } else { '╷' }
    } else {
        if left { '─' } else if right { '╶' } else { ' ' }
    };
    (glyph, if right { '─' } else { ' ' })
}

/// Box-drawing glyph and right filler for a cell. The filler is a
/// horizontal stroke exactly when the cell connects to the right, so
/// consecutive cells chain into one continuous line.
pub fn box_drawing_chars(up: bool, down: bool, left: bool, right: bool) -> (r: (char, char))
    ensures
        r == box_chars(up, down, left, right),
        r.1 == (if right { '─' } else { ' ' }),
{
    match (up, down, left, right) {
        (true, true, true, true) => ('│', '─'),
        (true, true, true, false) => ('│', ' '),
        (true, true, false, true) => ('│', '─'),
        (true, true, false, false) => ('│', ' '),
        (true, false, true, true) => ('┴', '─'),
        (true, false, true, false) => ('╯', ' '),
        (true, false, false, true) => ('╰', '─'),
        (true, false, false, false) => ('╵', ' '),
        (false, true, true, true) => ('┬', '─'),
        (false, true, true, false) => ('╮', ' '),
        (false, true, false, true) => ('╭', '─'),
        (false, true, false, false) => ('╷', ' '),
        (false, false, true, true) => ('─', '─'),
        (false, false, true, false) => ('─', ' '),
        (false, false, false, true) => ('╶', '─'),
        (false, false, false, false) => (' ', ' '),
    }
}

// ---------------------------------------------------------------------------
// Pipe-set transition
// ---------------------------------------------------------------------------

/// Largest `to_pos` of a row (0 for an empty row).
pub open spec fn max_to_pos(s: Seq<PipeView>) -> int
    decreases s.len(),
{
    if s.len() == 0 {
        0
    } else {
        let rest = max_to_pos(s.drop_last());
        if s.last().to_pos > rest { s.last().to_pos } else { rest }
    }
}

/// A pipe of the previous row that is still live on this one.
pub open spec fn live(p: PipeView) -> bool {
    p.kind != PipeKind::Terminates
}

/// Column of the commit `hash` given the previous row: the column of the
/// first live pipe heading to it, else one past the rightmost column.
pub open spec fn commit_column(prev: Seq<PipeView>, hash: Seq<char>) -> int {
    commit_column_from(prev, hash, 0)
}

pub open spec fn commit_column_from(prev: Seq<PipeView>, hash: Seq<char>, i: int) -> int
    decreases prev.len() - i,
{
    if i >= prev.len() || i < 0 {
        max_to_pos(prev) + 1
    } else if live(prev[i]) && prev[i].to_hash == hash {
        prev[i].to_pos
    } else {
        commit_column_from(prev, hash, i + 1)
    }
}

/// Number of pipes of `s` satisfying `f`.
pub open spec fn count_where(s: Seq<PipeView>, f: spec_fn(PipeView) -> bool) -> nat
    decreases s.len(),
{
    if s.len() == 0 {
        0
    } else {
        count_where(s.drop_last(), f) + if f(s.last()) { 1nat } else { 0nat }
    }
}

/// A live pipe of the previous row survives onto the next one when it
/// heads to the commit (it terminates there) or sits in another column
/// than the commit's (it continues).
pub open spec fn carried(p: PipeView, hash: Seq<char>, pos: int) -> bool {
    live(p) && (p.to_hash == hash || p.to_pos != pos)
}

/// `a` comes no later than `b` in a row: by column, then by kind.
pub open spec fn pipe_le(a: PipeView, b: PipeView) -> bool {
    a.to_pos < b.to_pos || (a.to_pos == b.to_pos && kind_rank(a.kind) <= kind_rank(b.kind))
}

pub open spec fn row_sorted(s: Seq<PipeView>) -> bool {
    forall|i: int, j: int| 0 <= i < j < s.len() ==> pipe_le(#[trigger] s[i], #[trigger] s[j])
}

/// The hash the first parent pipe of a commit heads to (empty for a root).
pub open spec fn first_parent(parents: Seq<String>) -> Seq<char> {
    if parents.len() == 0 { Seq::empty() } else { parents[0]@ }
}

pub open spec fn merge_extra(parents_len: int) -> int {
    if parents_len >= 2 { parents_len - 1 } else { 0 }
}

pub open spec fn terminate_view(p: PipeView, pos: int) -> PipeView {
    PipeView { from_pos: p.to_pos, to_pos: pos, from_hash: p.from_hash, to_hash: p.to_hash, kind: PipeKind::Terminates }
}

pub open spec fn continue_view(p: PipeView, to: int) -> PipeView {
    PipeView { from_pos: p.to_pos, to_pos: to, from_hash: p.from_hash, to_hash: p.to_hash, kind: PipeKind::Continues }
}

pub open spec fn start_view(pos: int, to: int, hash: Seq<char>, parent: Seq<char>) -> PipeView {
    PipeView { from_pos: pos, to_pos: to, from_hash: hash, to_hash: parent, kind: PipeKind::Starts }
}

/// The row holds the continuation of `p`, which does not move right when
/// `p` sat right of the commit column `pos`.
pub open spec fn has_continue(next: Seq<PipeView>, p: PipeView, pos: int) -> bool {
    exists|t: int| (p.to_pos > pos ==> t <= p.to_pos) && next.contains(#[trigger] continue_view(p, t))
}

/// The row holds a pipe starting at `pos` from `hash` towards `parent`.
pub open spec fn has_start(next: Seq<PipeView>, pos: int, hash: Seq<char>, parent: Seq<char>) -> bool {
    exists|t: int| next.contains(#[trigger] start_view(pos, t, hash, parent))
}

/// What the row after `prev` holds once the commit `hash` with `parents`
/// is placed on it:
/// - its pipes are ordered by column, then kind;
/// - the commit's first-parent pipe starts at the commit's column;
/// - every live pipe heading to the commit terminates there;
/// - every other live pipe in another column continues from its column,
///   never moving right when it sat right of the commit;
/// - every further parent of a merge opens a pipe from the commit's column;
/// - the row holds exactly that many pipes;
/// - and exactly the pipes [`next_row`] lays out, columns included, in
///   that order once sorted, pipes that sort equal keeping the order they
///   were laid out in.
pub open spec fn next_pipes_ok(
    prev: Seq<PipeView>,
    hash: Seq<char>,
    parents: Seq<String>,
    next: Seq<PipeView>,
) -> bool {
    let pos = commit_column(prev, hash);
    &&& row_sorted(next)
    &&& next.len() == 1 + count_where(prev, |p: PipeView| carried(p, hash, pos)) + merge_extra(parents.len() as int)
    &&& next.contains(start_view(pos, pos, hash, first_parent(parents)))
    &&& forall|i: int|
        0 <= i < prev.len() && live(#[trigger] prev[i]) && prev[i].to_hash == hash ==> next.contains(
            terminate_view(prev[i], pos),
        )
    &&& forall|i: int|
        0 <= i < prev.len() && live(#[trigger] prev[i]) && prev[i].to_hash != hash && prev[i].to_pos != pos
            ==> has_continue(next, prev[i], pos)
    &&& forall|k: int| 1 <= k < parents.len() ==> has_start(next, pos, hash, (#[trigger] parents[k])@)
    &&& next.to_multiset() == next_row(prev, hash, parents).to_multiset()
    &&& next == stable_sort(next_row(prev, hash, parents))
}

/// All columns of a row lie in `0..=bound`.
pub open spec fn cols_within(s: Seq<PipeView>, bound: int) -> bool {
    forall|i: int|
        0 <= i < s.len() ==> 0 <= (#[trigger] s[i]).to_pos <= bound && 0 <= s[i].from_pos <= bound
}

/// Every `to_pos` of the row is at least 0, and the worst-case growth of
/// one transition stays inside `i16`.
pub open spec fn transition_fits(prev: Seq<PipeView>, parents_len: int) -> bool {
    &&& forall|i: int| 0 <= i < prev.len() ==> 0 <= (#[trigger] prev[i]).to_pos
    &&& max_to_pos(prev) + 1 + 2 * prev.len() + parents_len < 32767
}

/// The columns a spot vector holds.
pub open spec fn spots_set(v: Seq<i16>) -> Set<int> {
    Set::new(|y: int| exists|k: int| 0 <= k < v.len() && v[k] as int == y)
}

/// The columns from `a` to `b`, either way round.
pub open spec fn span(a: int, b: int) -> Set<int> {
    Set::new(|i: int| (a <= i <= b) || (b <= i <= a))
}

/// The smallest column (from 0) not in `s`.
pub open spec fn least_free(s: Set<int>) -> int {
    choose|i: int| 0 <= i && !s.contains(i) && forall|j: int| 0 <= j < i ==> s.contains(j)
}

proof fn lemma_least_free(s: Set<int>, i: int)
    requires
        0 <= i,
        !s.contains(i),
        forall|j: int| 0 <= j < i ==> s.contains(j),
    ensures
        least_free(s) == i,
{
    let c = least_free(s);
    assert(0 <= c && !s.contains(c) && forall|j: int| 0 <= j < c ==> s.contains(j));
    if c < i {
        assert(s.contains(c));
    }
    if c > i {
        assert(s.contains(i));
    }
}

/// A transition being built: the pipes so far, the columns taken (a pipe
/// ends there) and the columns traversed (a pipe crosses them).
#[verifier::ext_equal]
pub struct Lanes {
    pub out: Seq<PipeView>,
    pub taken: Set<int>,
    pub trav: Set<int>,
}

/// Place `x`, which runs from column `from` to column `to`.
pub open spec fn place(st: Lanes, from: int, to: int, x: PipeView) -> Lanes {
    Lanes { out: st.out.push(x), taken: st.taken.insert(to), trav: st.trav.union(span(from, to)) }
}

/// First pass over the previous row: a pipe heading to the commit ends at
/// its column; a live pipe left of the commit continues in the first
/// column no pipe crosses yet.
pub open spec fn left_step(st: Lanes, p: PipeView, hash: Seq<char>, pos: int) -> Lanes {
    if live(p) && p.to_hash == hash {
        place(st, p.to_pos, pos, terminate_view(p, pos))
    } else if live(p) && p.to_pos < pos {
        let a = least_free(st.trav);
        place(st, p.to_pos, a, continue_view(p, a))
    } else {
        st
    }
}

pub open spec fn left_fold(ps: Seq<PipeView>, hash: Seq<char>, pos: int, st: Lanes) -> Lanes
    decreases ps.len(),
{
    if ps.len() == 0 {
        st
    } else {
        left_step(left_fold(ps.drop_last(), hash, pos, st), ps.last(), hash, pos)
    }
}

/// The columns the previous row's live pipes not heading to the commit
/// occupy: a merge lane never opens on one of them.
pub open spec fn continuing_cols(prev: Seq<PipeView>, hash: Seq<char>) -> Set<int> {
    Set::new(|c: int| exists|i: int| 0 <= i < prev.len() && live(prev[i]) && prev[i].to_hash != hash && prev[i].to_pos == c)
}

/// Second pass: each further parent of a merge opens a lane in the first
/// column that is neither taken nor held by a continuing pipe.
pub open spec fn merge_fold(parents: Seq<String>, hash: Seq<char>, pos: int, blocked: Set<int>, st: Lanes) -> Lanes
    decreases parents.len(),
{
    if parents.len() == 0 {
        st
    } else {
        let s1 = merge_fold(parents.drop_last(), hash, pos, blocked, st);
        let a = least_free(s1.taken.union(blocked));
        Lanes { out: s1.out.push(start_view(pos, a, hash, parents.last()@)), taken: s1.taken.insert(a), trav: s1.trav }
    }
}

/// How far left a pipe at column `c`, right of the commit, slides: down to
/// the commit's column, stopping before the first taken or crossed column.
pub open spec fn slide_left(taken: Set<int>, trav: Set<int>, pos: int, c: int) -> int
    decreases c - pos,
{
    if c > pos && !taken.contains(c - 1) && !trav.contains(c - 1) {
        slide_left(taken, trav, pos, c - 1)
    } else {
        c
    }
}

/// Third pass: a live pipe right of the commit, not heading to it, slides
/// left into the free columns next to it.
pub open spec fn right_step(st: Lanes, p: PipeView, hash: Seq<char>, pos: int) -> Lanes {
    if live(p) && p.to_hash != hash && p.to_pos > pos {
        let l = slide_left(st.taken, st.trav, pos, p.to_pos);
        place(st, p.to_pos, l, continue_view(p, l))
    } else {
        st
    }
}

pub open spec fn right_fold(ps: Seq<PipeView>, hash: Seq<char>, pos: int, st: Lanes) -> Lanes
    decreases ps.len(),
{
    if ps.len() == 0 {
        st
    } else {
        right_step(right_fold(ps.drop_last(), hash, pos, st), ps.last(), hash, pos)
    }
}

/// The pipes of the row after `prev` once the commit `hash` with `parents`
/// is placed, in the order they are laid out (before sorting): the first
/// parent's pipe, then the three passes.
pub open spec fn next_row(prev: Seq<PipeView>, hash: Seq<char>, parents: Seq<String>) -> Seq<PipeView> {
    let pos = commit_column(prev, hash);
    let s0 = Lanes {
        out: seq![start_view(pos, pos, hash, first_parent(parents))],
        taken: Set::empty(),
        trav: Set::empty(),
    };
    let s1 = left_fold(prev, hash, pos, s0);
    let s2 = if parents.len() >= 2 {
        merge_fold(parents.subrange(1, parents.len() as int), hash, pos, continuing_cols(prev, hash), s1)
    } else {
        s1
    };
    right_fold(prev, hash, pos, s2).out
}

/// The working state of a transition, as the spec sees it.
pub open spec fn lanes_of(np: Seq<Pipe>, t: Seq<i16>, r: Seq<i16>) -> Lanes {
    Lanes { out: pipes_view(np), taken: spots_set(t), trav: spots_set(r) }
}

proof fn lemma_spots_set_contains(v: Seq<i16>, x: i16)
    ensures
        v.contains(x) <==> spots_set(v).contains(x as int),
{
    if spots_set(v).contains(x as int) {
        let k = choose|k: int| 0 <= k < v.len() && v[k] as int == x as int;
        assert(v[k] == x);
    }
    if v.contains(x) {
        let k = choose|k: int| 0 <= k < v.len() && v[k] == x;
        assert(v[k] as int == x as int);
    }
}

proof fn lemma_least_free_exists(s: Set<int>, n: int)
    requires
        0 <= n,
        !s.contains(n),
    ensures
        0 <= least_free(s) <= n,
        !s.contains(least_free(s)),
        forall|j: int| 0 <= j < least_free(s) ==> s.contains(j),
    decreases n,
{
    if exists|j: int| 0 <= j < n && !s.contains(j) {
        let j = choose|j: int| 0 <= j < n && !s.contains(j);
        lemma_least_free_exists(s, j);
    } else {
        lemma_least_free(s, n);
    }
}

/// Merge lanes open in pairwise distinct columns, none of them taken
/// before the pass (by a terminating or left-continuing pipe) and none held
/// by a pipe that continues past the commit.
pub proof fn law_merge_lanes_fresh(parents: Seq<String>, hash: Seq<char>, pos: int, blocked: Set<int>, st: Lanes, b: int)
    requires
        0 <= b,
        forall|x: int| st.taken.contains(x) ==> x <= b,
        forall|x: int| blocked.contains(x) ==> x <= b,
    ensures
        ({
            let r = merge_fold(parents, hash, pos, blocked, st);
            &&& r.out.len() == st.out.len() + parents.len()
            &&& forall|i: int| 0 <= i < st.out.len() ==> r.out[i] == st.out[i]
            &&& forall|i: int|
                st.out.len() <= i < r.out.len() ==> !st.taken.contains(#[trigger] r.out[i].to_pos) && !blocked.contains(
                    r.out[i].to_pos,
                ) && r.taken.contains(r.out[i].to_pos)
            &&& forall|i: int, j: int|
                st.out.len() <= i < j < r.out.len() ==> #[trigger] r.out[i].to_pos != #[trigger] r.out[j].to_pos
            &&& forall|x: int| r.taken.contains(x) ==> st.taken.contains(x) || x <= b + parents.len()
            &&& forall|x: int| st.taken.contains(x) ==> r.taken.contains(x)
        }),
    decreases parents.len(),
{
    if parents.len() > 0 {
        law_merge_lanes_fresh(parents.drop_last(), hash, pos, blocked, st, b);
        let s1 = merge_fold(parents.drop_last(), hash, pos, blocked, st);
        let u = s1.taken.union(blocked);
        let n = b + parents.len();
        assert(!u.contains(n));
        lemma_least_free_exists(u, n);
        let a = least_free(u);
        let r = merge_fold(parents, hash, pos, blocked, st);
        assert(r.out == s1.out.push(start_view(pos, a, hash, parents.last()@)));
        assert forall|i: int| st.out.len() <= i < r.out.len() implies !st.taken.contains(#[trigger] r.out[i].to_pos)
            && !blocked.contains(r.out[i].to_pos) && r.taken.contains(r.out[i].to_pos) by {
            if i < s1.out.len() {
                assert(r.out[i] == s1.out[i]);
            }
        }
        assert forall|i: int, j: int| st.out.len() <= i < j < r.out.len() implies #[trigger] r.out[i].to_pos
            != #[trigger] r.out[j].to_pos by {
            assert(r.out[i] == s1.out[i]);
            if j < s1.out.len() {
                assert(r.out[j] == s1.out[j]);
            } else {
                assert(s1.taken.contains(s1.out[i].to_pos));
            }
        }
        assert forall|i: int| 0 <= i < st.out.len() implies r.out[i] == st.out[i] by {
            assert(r.out[i] == s1.out[i]);
        }
    }
}

// --- integer spot sets (columns), kept as plain vectors ---

fn spots_contain(v: &Vec<i16>, x: i16) -> (b: bool)
    ensures
        b == v@.contains(x),
{
    let mut i: usize = 0;
    while i < v.len()
        invariant
            i <= v.len(),
            forall|k: int| 0 <= k < i ==> v@[k] != x,
        decreases v.len() - i,
    {
        if v[i] == x {
            return true;
        }
        i += 1;
    }
    false
}

fn spots_insert(v: &mut Vec<i16>, x: i16)
    ensures
        forall|y: i16| final(v)@.contains(y) <==> (old(v)@.contains(y) || y == x),
        spots_set(final(v)@) == spots_set(old(v)@).insert(x as int),
{
    if spots_contain(v, x) {
        proof {
            let k = choose|k: int| 0 <= k < v@.len() && v@[k] == x;
            assert(spots_set(v@).contains(x as int));
            assert(spots_set(v@) =~= spots_set(v@).insert(x as int));
        }
    } else {
        let ghost v0 = v@;
        v.push(x);
        proof {
            assert forall|y: int| spots_set(v@).contains(y) <==> spots_set(v0).insert(x as int).contains(y) by {
                if spots_set(v@).contains(y) {
                    let k = choose|k: int| 0 <= k < v@.len() && v@[k] as int == y;
                    if k < v0.len() {
                        assert(v0[k] as int == y);
                    }
                }
                if spots_set(v0).contains(y) {
                    let k = choose|k: int| 0 <= k < v0.len() && v0[k] as int == y;
                    assert(v@[k] as int == y);
                }
                if y == x as int {
                    assert(v@[v0.len() as int] as int == y);
                }
            }
            assert(spots_set(v@) =~= spots_set(v0).insert(x as int));
        }
        assert forall|y: i16| v@.contains(y) <==> (old(v)@.contains(y) || y == x) by {
            if old(v)@.contains(y) {
                let k = choose|k: int| 0 <= k < old(v)@.len() && old(v)@[k] == y;
                assert(v@[k] == y);
            }
            if y == x {
                assert(v@[v@.len() - 1] == x);
            }
        }
    }
}

pub open spec fn spots_below(s: Seq<i16>, bound: int) -> bool {
    forall|k: int| 0 <= k < s.len() ==> 0 <= #[trigger] s[k] <= bound
}

/// Smallest column not in `spots`.
fn next_free(spots: &Vec<i16>, Ghost(bound): Ghost<int>) -> (r: i16)
    requires
        spots_below(spots@, bound),
        0 <= bound < 32767,
    ensures
        0 <= r <= bound + 1,
        !spots@.contains(r),
        r as int == least_free(spots_set(spots@)),
{
    let mut i: i16 = 0;
    while spots_contain(spots, i)
        invariant
            0 <= i <= bound + 1,
            spots_below(spots@, bound),
            bound < 32767,
            forall|j: int| 0 <= j < i ==> spots_set(spots@).contains(j),
        decreases bound + 1 - i,
    {
        assert(i <= bound) by {
            let k = choose|k: int| 0 <= k < spots@.len() && spots@[k] == i;
        }
        proof {
            let k = choose|k: int| 0 <= k < spots@.len() && spots@[k] == i;
            assert(spots@[k] as int == i as int);
            assert(spots_set(spots@).contains(i as int));
        }
        i += 1;
    }
    proof {
        if spots_set(spots@).contains(i as int) {
            let k = choose|k: int| 0 <= k < spots@.len() && spots@[k] as int == i as int;
            assert(spots@[k] == i);
        }
        lemma_least_free(spots_set(spots@), i as int);
    }
    i
}

/// Smallest column in neither `taken` nor `blocked`.
fn next_free_for_new(taken: &Vec<i16>, blocked: &Vec<i16>, Ghost(bound): Ghost<int>) -> (r: i16)
    requires
        spots_below(taken@, bound),
        spots_below(blocked@, bound),
        0 <= bound < 32767,
    ensures
        0 <= r <= bound + 1,
        !taken@.contains(r),
        !blocked@.contains(r),
        r as int == least_free(spots_set(taken@).union(spots_set(blocked@))),
{
    let ghost u = spots_set(taken@).union(spots_set(blocked@));
    let mut i: i16 = 0;
    while spots_contain(taken, i) || spots_contain(blocked, i)
        invariant
            0 <= i <= bound + 1,
            spots_below(taken@, bound),
            spots_below(blocked@, bound),
            bound < 32767,
            u == spots_set(taken@).union(spots_set(blocked@)),
            forall|j: int| 0 <= j < i ==> u.contains(j),
        decreases bound + 1 - i,
    {
        assert(i <= bound) by {
            if taken@.contains(i) {
                let k = choose|k: int| 0 <= k < taken@.len() && taken@[k] == i;
            } else {
                let k = choose|k: int| 0 <= k < blocked@.len() && blocked@[k] == i;
            }
        }
        proof {
            if taken@.contains(i) {
                let k = choose|k: int| 0 <= k < taken@.len() && taken@[k] == i;
                assert(taken@[k] as int == i as int);
                assert(spots_set(taken@).contains(i as int));
            } else {
                let k = choose|k: int| 0 <= k < blocked@.len() && blocked@[k] == i;
                assert(blocked@[k] as int == i as int);
                assert(spots_set(blocked@).contains(i as int));
            }
        }
        i += 1;
    }
    proof {
        if spots_set(taken@).contains(i as int) {
            let k = choose|k: int| 0 <= k < taken@.len() && taken@[k] as int == i as int;
            assert(taken@[k] == i);
        }
        if spots_set(blocked@).contains(i as int) {
            let k = choose|k: int| 0 <= k < blocked@.len() && blocked@[k] as int == i as int;
            assert(blocked@[k] == i);
        }
        lemma_least_free(u, i as int);
    }
    i
}

/// Mark every column between `from` and `to` traversed, and `to` taken.
fn traverse(taken: &mut Vec<i16>, traversed: &mut Vec<i16>, from: i16, to: i16, Ghost(bound): Ghost<int>)
    requires
        spots_below(old(taken)@, bound),
        spots_below(old(traversed)@, bound),
        0 <= from <= bound,
        0 <= to <= bound,
        bound < 32767,
    ensures
        spots_below(final(taken)@, bound),
        spots_below(final(traversed)@, bound),
        final(taken)@.contains(to),
        forall|y: i16| old(taken)@.contains(y) ==> final(taken)@.contains(y),
        spots_set(final(taken)@) == spots_set(old(taken)@).insert(to as int),
        spots_set(final(traversed)@) == spots_set(old(traversed)@).union(span(from as int, to as int)),
{
    let (l, r) = if from <= to { (from, to) } else { (to, from) };
    let mut i = l;
    let ghost t0 = spots_set(traversed@);
    proof {
        assert(t0.union(Set::new(|j: int| l <= j < l)) =~= spots_set(traversed@));
    }
    while i <= r
        invariant
            l <= i <= r + 1,
            0 <= l,
            r <= bound,
            bound < 32767,
            spots_below(traversed@, bound),
            spots_set(traversed@) == t0.union(Set::new(|j: int| l <= j < i)),
        decreases r + 1 - i,
    {
        let ghost before = traversed@;
        spots_insert(traversed, i);
        proof {
            assert(spots_set(traversed@) =~= t0.union(Set::new(|j: int| l <= j < i + 1)));
        }
        assert forall|k: int| 0 <= k < traversed@.len() implies 0 <= #[trigger] traversed@[k] <= bound by {
            assert(traversed@.contains(traversed@[k]));
            if before.contains(traversed@[k]) {
                let m = choose|m: int| 0 <= m < before.len() && before[m] == traversed@[k];
            }
        }
        i += 1;
    }
    proof {
        assert(Set::new(|j: int| l <= j < i) =~= span(from as int, to as int));
    }
    let ghost before = taken@;
    spots_insert(taken, to);
    assert forall|k: int| 0 <= k < taken@.len() implies 0 <= #[trigger] taken@[k] <= bound by {
        assert(taken@.contains(taken@[k]));
        if before.contains(taken@[k]) {
            let m = choose|m: int| 0 <= m < before.len() && before[m] == taken@[k];
        }
    }
}

// --- stable sort of a row by (to_pos, kind) ---

fn pipe_le_exec(a: &Pipe, b: &Pipe) -> (r: bool)
    ensures
        r == pipe_le(a@, b@),
{
    a.to_pos < b.to_pos || (a.to_pos == b.to_pos && kind_rank_exec(a.kind) <= kind_rank_exec(b.kind))
}

pub open spec fn sorted_pipes(s: Seq<Pipe>) -> bool {
    forall|a: int, b: int| 0 <= a < b < s.len() ==> pipe_le(#[trigger] s[a]@, #[trigger] s[b]@)
}

proof fn lemma_pipe_le_total(a: PipeView, b: PipeView)
    ensures
        pipe_le(a, b) || pipe_le(b, a),
{
}

proof fn lemma_pipe_le_trans(a: PipeView, b: PipeView, c: PipeView)
    requires
        pipe_le(a, b),
        pipe_le(b, c),
    ensures
        pipe_le(a, c),
{
}

/// The first index from `i` on whose pipe sorts after `p` (the length
/// when there is none).
pub open spec fn first_after(t: Seq<PipeView>, p: PipeView, i: int) -> int
    decreases t.len() - i,
{
    if i >= t.len() {
        t.len() as int
    } else if !pipe_le(t[i], p) {
        i
    } else {
        first_after(t, p, i + 1)
    }
}

/// A row sorted by column, then kind, pipes that sort equal keeping the
/// order they were laid out in: each pipe is placed after every pipe
/// before it that sorts no later.
pub open spec fn stable_sort(s: Seq<PipeView>) -> Seq<PipeView>
    decreases s.len(),
{
    if s.len() == 0 {
        s
    } else {
        let t = stable_sort(s.drop_last());
        t.insert(first_after(t, s.last(), 0), s.last())
    }
}

proof fn lemma_first_after(t: Seq<PipeView>, p: PipeView, i: int, j: int)
    requires
        0 <= i <= j <= t.len(),
        forall|k: int| i <= k < j ==> pipe_le(#[trigger] t[k], p),
        j == t.len() || !pipe_le(t[j], p),
    ensures
        first_after(t, p, i) == j,
    decreases j - i,
{
    if i < j {
        lemma_first_after(t, p, i + 1, j);
    }
}

/// Insert `p` after every pipe that sorts no later than it.
fn insert_sorted(out: &mut Vec<Pipe>, p: Pipe) -> (j: usize)
    requires
        sorted_pipes(old(out)@),
    ensures
        j <= old(out)@.len(),
        final(out)@ == old(out)@.insert(j as int, p),
        sorted_pipes(final(out)@),
        j == first_after(pipes_view(old(out)@), p@, 0),
{
    let mut j: usize = 0;
    while j < out.len() && pipe_le_exec(&out[j], &p)
        invariant
            j <= out.len(),
            forall|k: int| 0 <= k < j ==> pipe_le(#[trigger] out@[k]@, p@),
        decreases out.len() - j,
    {
        j += 1;
    }
    let ghost old_out = out@;
    let ghost pv = p@;
    proof {
        let w = pipes_view(old_out);
        assert forall|k: int| 0 <= k < j implies pipe_le(#[trigger] w[k], pv) by {
            assert(w[k] == old_out[k]@);
        }
        if j < old_out.len() {
            assert(w[j as int] == old_out[j as int]@);
        }
        lemma_first_after(w, pv, 0, j as int);
    }
    out.insert(j, p);
    proof {
        assert forall|a: int, b: int| 0 <= a < b < out@.len() implies pipe_le(
            #[trigger] out@[a]@,
            #[trigger] out@[b]@,
        ) by {
            if b < j {
                assert(out@[a] == old_out[a] && out@[b] == old_out[b]);
            } else if b == j {
                assert(out@[a] == old_out[a]);
            } else if a < j {
                assert(out@[a] == old_out[a] && out@[b] == old_out[b - 1]);
            } else if a == j {
                assert(out@[b] == old_out[b - 1]);
                assert(!pipe_le(old_out[j as int]@, pv));
                lemma_pipe_le_total(old_out[j as int]@, pv);
                if b - 1 > j {
                    assert(pipe_le(old_out[j as int]@, old_out[b - 1]@));
                    lemma_pipe_le_trans(pv, old_out[j as int]@, old_out[b - 1]@);
                }
            } else {
                assert(out@[a] == old_out[a - 1] && out@[b] == old_out[b - 1]);
            }
        }
    }
    j
}

/// The set of pipe views a row holds.
pub open spec fn row_set(s: Seq<Pipe>) -> Set<PipeView> {
    pipes_view(s).to_set()
}

proof fn lemma_row_set_insert(s: Seq<Pipe>, j: int, p: Pipe)
    requires
        0 <= j <= s.len(),
    ensures
        row_set(s.insert(j, p)) == row_set(s).insert(p@),
{
    let t = s.insert(j, p);
    assert forall|x: PipeView| row_set(t).contains(x) implies row_set(s).insert(p@).contains(x) by {
        let k = choose|k: int| 0 <= k < pipes_view(t).len() && pipes_view(t)[k] == x;
        if k < j {
            assert(pipes_view(s)[k] == x);
        } else if k > j {
            assert(pipes_view(s)[k - 1] == x);
        }
    }
    assert forall|x: PipeView| row_set(s).insert(p@).contains(x) implies row_set(t).contains(x) by {
        if x == p@ {
            assert(pipes_view(t)[j] == x);
        } else {
            let k = choose|k: int| 0 <= k < pipes_view(s).len() && pipes_view(s)[k] == x;
            if k < j {
                assert(pipes_view(t)[k] == x);
            } else {
                assert(pipes_view(t)[k + 1] == x);
            }
        }
    }
    assert(row_set(t) =~= row_set(s).insert(p@));
}

proof fn lemma_row_set_prefix(v: Seq<Pipe>, i: int)
    requires
        0 <= i < v.len(),
    ensures
        row_set(v.subrange(0, i + 1)) == row_set(v.subrange(0, i)).insert(v[i]@),
{
    let a = v.subrange(0, i);
    let b = v.subrange(0, i + 1);
    assert(b == a.insert(i, v[i]));
    lemma_row_set_insert(a, i, v[i]);
}

/// Stable insertion sort of a row by column, then kind.
fn sort_row(v: Vec<Pipe>) -> (r: Vec<Pipe>)
    ensures
        r@.len() == v@.len(),
        row_sorted(pipes_view(r@)),
        row_set(r@) == row_set(v@),
        pipes_view(r@).to_multiset() == pipes_view(v@).to_multiset(),
        pipes_view(r@) == stable_sort(pipes_view(v@)),
{
    let mut out: Vec<Pipe> = Vec::new();
    let mut i: usize = 0;
    proof {
        assert(row_set(out@) =~= row_set(v@.subrange(0, 0)));
        assert(pipes_view(out@) =~= pipes_view(v@.subrange(0, 0)));
    }
    while i < v.len()
        invariant
            i <= v.len(),
            out@.len() == i,
            sorted_pipes(out@),
            row_set(out@) == row_set(v@.subrange(0, i as int)),
            pipes_view(out@).to_multiset() == pipes_view(v@.subrange(0, i as int)).to_multiset(),
            pipes_view(out@) == stable_sort(pipes_view(v@.subrange(0, i as int))),
        decreases v.len() - i,
    {
        let p = v[i].duplicate();
        let ghost old_out = out@;
        let ghost pv = p;
        let j = insert_sorted(&mut out, p);
        proof {
            lemma_row_set_insert(old_out, j as int, pv);
            lemma_row_set_prefix(v@, i as int);
            assert(pipes_view(out@) =~= pipes_view(old_out).insert(j as int, pv@));
            vstd::seq_lib::to_multiset_insert(pipes_view(old_out), j as int, pv@);
            assert(pipes_view(v@.subrange(0, i + 1)) =~= pipes_view(v@.subrange(0, i as int)).push(v@[i as int]@));
            vstd::seq_lib::to_multiset_build(pipes_view(v@.subrange(0, i as int)), v@[i as int]@);
            let sv = pipes_view(v@.subrange(0, i + 1));
            assert(sv.drop_last() =~= pipes_view(v@.subrange(0, i as int)));
            assert(sv.last() == pv@);
            assert(pv@ == v@[i as int]@);
        }
        i += 1;
    }
    proof {
        assert(v@.subrange(0, v@.len() as int) == v@);
        assert(v@.subrange(0, v@.len() as int) =~= v@);
        assert forall|a: int, b: int| 0 <= a < b < pipes_view(out@).len() implies pipe_le(
            #[trigger] pipes_view(out@)[a],
            #[trigger] pipes_view(out@)[b],
        ) by {
            assert(pipe_le(out@[a]@, out@[b]@));
        }
    }
    out
}

// --- the transition itself ---

proof fn lemma_pipes_view_push(s: Seq<Pipe>, x: Pipe)
    ensures
        pipes_view(s.push(x)) == pipes_view(s).push(x@),
{
    assert(pipes_view(s.push(x)) =~= pipes_view(s).push(x@));
}

/// `b` only appended to `a`.
pub open spec fn extends(a: Seq<Pipe>, b: Seq<Pipe>) -> bool {
    a.len() <= b.len() && forall|k: int| 0 <= k < a.len() ==> #[trigger] b[k] == a[k]
}

proof fn lemma_extends_contains(a: Seq<Pipe>, b: Seq<Pipe>, x: PipeView)
    requires
        extends(a, b),
        pipes_view(a).contains(x),
    ensures
        pipes_view(b).contains(x),
{
    let k = choose|k: int| 0 <= k < pipes_view(a).len() && pipes_view(a)[k] == x;
    assert(b[k] == a[k]);
    assert(pipes_view(b)[k] == x);
}

proof fn lemma_count_le(s: Seq<PipeView>, f: spec_fn(PipeView) -> bool)
    ensures
        count_where(s, f) <= s.len(),
    decreases s.len(),
{
    if s.len() > 0 {
        lemma_count_le(s.drop_last(), f);
    }
}

proof fn lemma_count_prefix(s: Seq<PipeView>, f: spec_fn(PipeView) -> bool, i: int)
    requires
        0 <= i < s.len(),
    ensures
        count_where(s.subrange(0, i + 1), f) == count_where(s.subrange(0, i), f) + if f(s[i]) {
            1nat
        } else {
            0nat
        },
{
    assert(s.subrange(0, i + 1).drop_last() =~= s.subrange(0, i));
}

proof fn lemma_count_split(
    s: Seq<PipeView>,
    f: spec_fn(PipeView) -> bool,
    g: spec_fn(PipeView) -> bool,
    h: spec_fn(PipeView) -> bool,
)
    requires
        forall|p: PipeView| #[trigger] f(p) == (g(p) || h(p)),
        forall|p: PipeView| !(#[trigger] g(p) && h(p)),
    ensures
        count_where(s, f) == count_where(s, g) + count_where(s, h),
    decreases s.len(),
{
    if s.len() > 0 {
        lemma_count_split(s.drop_last(), f, g, h);
        assert(f(s.last()) == (g(s.last()) || h(s.last())));
    }
}

proof fn lemma_max_to_pos_bounds(s: Seq<PipeView>, i: int)
    requires
        0 <= i < s.len(),
    ensures
        s[i].to_pos <= max_to_pos(s),
    decreases s.len(),
{
    if i < s.len() - 1 {
        lemma_max_to_pos_bounds(s.drop_last(), i);
    }
}

proof fn lemma_max_to_pos_within(s: Seq<PipeView>, b: int)
    requires
        0 <= b,
        forall|i: int| 0 <= i < s.len() ==> (#[trigger] s[i]).to_pos <= b,
    ensures
        max_to_pos(s) <= b,
    decreases s.len(),
{
    if s.len() > 0 {
        lemma_max_to_pos_within(s.drop_last(), b);
    }
}

proof fn lemma_max_to_pos_nonneg(s: Seq<PipeView>)
    ensures
        0 <= max_to_pos(s),
    decreases s.len(),
{
    if s.len() > 0 {
        lemma_max_to_pos_nonneg(s.drop_last());
    }
}

/// The working state of a transition stays inside the column budget.
pub open spec fn builder_ok(new: Seq<Pipe>, taken: Seq<i16>, traversed: Seq<i16>, m: int) -> bool {
    &&& cols_within(pipes_view(new), m + new.len())
    &&& spots_below(taken, m + new.len())
    &&& spots_below(traversed, m + new.len())
}

pub open spec fn left_phase(p: PipeView, hash: Seq<char>, pos: int) -> bool {
    live(p) && (p.to_hash == hash || p.to_pos < pos)
}

pub open spec fn right_phase(p: PipeView, hash: Seq<char>, pos: int) -> bool {
    live(p) && p.to_hash != hash && p.to_pos > pos
}

proof fn lemma_push_builder(new: Seq<Pipe>, x: Pipe, taken: Seq<i16>, traversed: Seq<i16>, m: int)
    requires
        builder_ok(new, taken, traversed, m),
        0 <= x@.from_pos <= m + new.len() + 1,
        0 <= x@.to_pos <= m + new.len() + 1,
    ensures
        cols_within(pipes_view(new.push(x)), m + new.len() + 1),
        spots_below(taken, m + new.len() + 1),
        spots_below(traversed, m + new.len() + 1),
{
    lemma_pipes_view_push(new, x);
    assert forall|i: int| 0 <= i < pipes_view(new.push(x)).len() implies 0 <= (#[trigger] pipes_view(
        new.push(x),
    )[i]).to_pos <= m + new.len() + 1 && 0 <= pipes_view(new.push(x))[i].from_pos <= m + new.len() + 1 by {
        if i < new.len() {
            assert(pipes_view(new.push(x))[i] == pipes_view(new)[i]);
        }
    }
}

/// Terminating pipes, and live pipes left of the commit, in row order.
fn phase_left(
    prev: &Vec<Pipe>,
    hash: &String,
    pos: i16,
    new_pipes: &mut Vec<Pipe>,
    taken: &mut Vec<i16>,
    traversed: &mut Vec<i16>,
    Ghost(m): Ghost<int>,
    Ghost(room): Ghost<int>,
)
    requires
        m == max_to_pos(pipes_view(prev@)),
        forall|i: int| 0 <= i < prev@.len() ==> 0 <= (#[trigger] prev@[i]).to_pos,
        0 <= room,
        m + 1 + prev@.len() + room < 32767,
        0 <= pos <= m + 1,
        old(new_pipes)@.len() == 1,
        builder_ok(old(new_pipes)@, old(taken)@, old(traversed)@, m),
    ensures
        extends(old(new_pipes)@, final(new_pipes)@),
        builder_ok(final(new_pipes)@, final(taken)@, final(traversed)@, m),
        final(new_pipes)@.len() == 1 + count_where(
            pipes_view(prev@),
            |p: PipeView| left_phase(p, hash@, pos as int),
        ),
        forall|i: int|
            0 <= i < prev@.len() && live(#[trigger] prev@[i]@) && prev@[i]@.to_hash == hash@
                ==> pipes_view(final(new_pipes)@).contains(terminate_view(prev@[i]@, pos as int)),
        forall|i: int|
            0 <= i < prev@.len() && live(#[trigger] prev@[i]@) && prev@[i]@.to_hash != hash@
                && prev@[i]@.to_pos < pos ==> exists|t: int|
                pipes_view(final(new_pipes)@).contains(#[trigger] continue_view(prev@[i]@, t)),
        lanes_of(final(new_pipes)@, final(taken)@, final(traversed)@) == left_fold(
            pipes_view(prev@),
            hash@,
            pos as int,
            lanes_of(old(new_pipes)@, old(taken)@, old(traversed)@),
        ),
{
    let ghost pv = pipes_view(prev@);
    let ghost f = |p: PipeView| left_phase(p, hash@, pos as int);
    let ghost start = new_pipes@;
    let ghost st0 = lanes_of(new_pipes@, taken@, traversed@);
    proof {
        assert(pv.subrange(0, 0) =~= Seq::<PipeView>::empty());
    }
    let mut i: usize = 0;
    while i < prev.len()
        invariant
            pv == pipes_view(prev@),
            f == (|p: PipeView| left_phase(p, hash@, pos as int)),
            i <= prev@.len(),
            m == max_to_pos(pv),
            forall|k: int| 0 <= k < prev@.len() ==> 0 <= (#[trigger] prev@[k]).to_pos,
            0 <= room,
            m + 1 + prev@.len() + room < 32767,
            0 <= pos <= m + 1,
            start.len() == 1,
            extends(start, new_pipes@),
            builder_ok(new_pipes@, taken@, traversed@, m),
            new_pipes@.len() == 1 + count_where(pv.subrange(0, i as int), f),
            forall|k: int|
                0 <= k < i && live(#[trigger] prev@[k]@) && prev@[k]@.to_hash == hash@
                    ==> pipes_view(new_pipes@).contains(terminate_view(prev@[k]@, pos as int)),
            forall|k: int|
                0 <= k < i && live(#[trigger] prev@[k]@) && prev@[k]@.to_hash != hash@ && prev@[k]@.to_pos
                    < pos ==> exists|t: int| pipes_view(new_pipes@).contains(#[trigger] continue_view(prev@[k]@, t)),
            lanes_of(new_pipes@, taken@, traversed@) == left_fold(pv.subrange(0, i as int), hash@, pos as int, st0),
        decreases prev.len() - i,
    {
        let ghost lane_before = lanes_of(new_pipes@, taken@, traversed@);
        proof {
            assert(pv.subrange(0, i + 1).drop_last() =~= pv.subrange(0, i as int));
            assert(pv.subrange(0, i + 1).last() == prev@[i as int]@);
            lemma_count_prefix(pv, f, i as int);
            lemma_count_le(pv.subrange(0, i as int), f);
            lemma_max_to_pos_bounds(pv, i as int);
            assert(pv[i as int] == prev@[i as int]@);
        }
        let ghost before = new_pipes@;
        let p = &prev[i];
        if p.kind != PipeKind::Terminates {
            if p.to_hash == *hash {
                let np = Pipe {
                    from_pos: p.to_pos,
                    to_pos: pos,
                    from_hash: p.from_hash.clone(),
                    to_hash: p.to_hash.clone(),
                    kind: PipeKind::Terminates,
                };
                proof {
                    lemma_push_builder(new_pipes@, np, taken@, traversed@, m);
                }
                new_pipes.push(np);
                traverse(taken, traversed, p.to_pos, pos, Ghost(m + new_pipes@.len()));
                proof {
                    lemma_pipes_view_push(before, np);
                    assert(pipes_view(new_pipes@)[before.len() as int] == terminate_view(prev@[i as int]@, pos as int));
                    assert(lanes_of(new_pipes@, taken@, traversed@) =~= place(
                        lane_before,
                        prev@[i as int]@.to_pos,
                        pos as int,
                        terminate_view(prev@[i as int]@, pos as int),
                    ));
                }
            } else if p.to_pos < pos {
                let avail = next_free(traversed, Ghost(m + new_pipes@.len()));
                let np = Pipe {
                    from_pos: p.to_pos,
                    to_pos: avail,
                    from_hash: p.from_hash.clone(),
                    to_hash: p.to_hash.clone(),
                    kind: PipeKind::Continues,
                };
                proof {
                    lemma_push_builder(new_pipes@, np, taken@, traversed@, m);
                }
                new_pipes.push(np);
                traverse(taken, traversed, p.to_pos, avail, Ghost(m + new_pipes@.len()));
                proof {
                    lemma_pipes_view_push(before, np);
                    assert(pipes_view(new_pipes@)[before.len() as int] == continue_view(prev@[i as int]@, avail as int));
                    assert(lanes_of(new_pipes@, taken@, traversed@) =~= place(
                        lane_before,
                        prev@[i as int]@.to_pos,
                        avail as int,
                        continue_view(prev@[i as int]@, avail as int),
                    ));
                }
            }
        }
        proof {
            assert forall|k: int|
                0 <= k < i + 1 && live(#[trigger] prev@[k]@) && prev@[k]@.to_hash == hash@
                    implies pipes_view(new_pipes@).contains(terminate_view(prev@[k]@, pos as int)) by {
                if k < i {
                    lemma_extends_contains(before, new_pipes@, terminate_view(prev@[k]@, pos as int));
                }
            }
            assert forall|k: int|
                0 <= k < i + 1 && live(#[trigger] prev@[k]@) && prev@[k]@.to_hash != hash@ && prev@[k]@.to_pos
                    < pos implies exists|t: int| pipes_view(new_pipes@).contains(#[trigger] continue_view(prev@[k]@, t)) by {
                if k < i {
                    let t = choose|t: int| pipes_view(before).contains(#[trigger] continue_view(prev@[k]@, t));
                    lemma_extends_contains(before, new_pipes@, continue_view(prev@[k]@, t));
                }
            }
        }
        i += 1;
    }
    proof {
        assert(pv.subrange(0, prev@.len() as int) =~= pv);
    }
}

/// One pipe per further parent of a merge, each in a fresh column.
fn phase_merge(
    parents: &Vec<String>,
    hash: &String,
    pos: i16,
    new_pipes: &mut Vec<Pipe>,
    taken: &mut Vec<i16>,
    traversed: &Vec<i16>,
    blocked: &Vec<i16>,
    Ghost(m): Ghost<int>,
)
    requires
        0 <= m,
        0 <= pos <= m + 1,
        1 <= old(new_pipes)@.len(),
        m + old(new_pipes)@.len() + parents@.len() < 32767,
        builder_ok(old(new_pipes)@, old(taken)@, traversed@, m),
        spots_below(blocked@, m),
    ensures
        extends(old(new_pipes)@, final(new_pipes)@),
        builder_ok(final(new_pipes)@, final(taken)@, traversed@, m),
        final(new_pipes)@.len() == old(new_pipes)@.len() + merge_extra(parents@.len() as int),
        forall|k: int|
            1 <= k < parents@.len() ==> has_start(pipes_view(final(new_pipes)@), pos as int, hash@, (#[trigger] parents@[k])@),
        lanes_of(final(new_pipes)@, final(taken)@, traversed@) == (if parents@.len() >= 2 {
            merge_fold(
                parents@.subrange(1, parents@.len() as int),
                hash@,
                pos as int,
                spots_set(blocked@),
                lanes_of(old(new_pipes)@, old(taken)@, traversed@),
            )
        } else {
            lanes_of(old(new_pipes)@, old(taken)@, traversed@)
        }),
{
    let ghost start = new_pipes@;
    let ghost st0 = lanes_of(new_pipes@, taken@, traversed@);
    if parents.len() < 2 {
        return;
    }
    proof {
        assert(parents@.subrange(1, 1) =~= Seq::<String>::empty());
    }
    let mut k: usize = 1;
    while k < parents.len()
        invariant
            1 <= k <= parents@.len(),
            2 <= parents@.len(),
            0 <= m,
            0 <= pos <= m + 1,
            1 <= start.len(),
            m + start.len() + parents@.len() < 32767,
            extends(start, new_pipes@),
            new_pipes@.len() == start.len() + k - 1,
            builder_ok(new_pipes@, taken@, traversed@, m),
            spots_below(blocked@, m),
            forall|q: int|
                1 <= q < k ==> has_start(pipes_view(new_pipes@), pos as int, hash@, (#[trigger] parents@[q])@),
            lanes_of(new_pipes@, taken@, traversed@) == merge_fold(
                parents@.subrange(1, k as int),
                hash@,
                pos as int,
                spots_set(blocked@),
                st0,
            ),
        decreases parents.len() - k,
    {
        let ghost before = new_pipes@;
        let ghost lane_before = lanes_of(new_pipes@, taken@, traversed@);
        proof {
            assert(parents@.subrange(1, k + 1).drop_last() =~= parents@.subrange(1, k as int));
            assert(parents@.subrange(1, k + 1).last() == parents@[k as int]);
        }
        let ghost b = m + new_pipes@.len();
        proof {
            assert forall|q: int| 0 <= q < blocked@.len() implies 0 <= #[trigger] blocked@[q] <= b by {}
        }
        let avail = next_free_for_new(taken, blocked, Ghost(b));
        let np = Pipe {
            from_pos: pos,
            to_pos: avail,
            from_hash: hash.clone(),
            to_hash: parents[k].clone(),
            kind: PipeKind::Starts,
        };
        proof {
            lemma_push_builder(new_pipes@, np, taken@, traversed@, m);
        }
        new_pipes.push(np);
        let ghost tk = taken@;
        spots_insert(taken, avail);
        proof {
            lemma_pipes_view_push(before, np);
            assert(pipes_view(new_pipes@)[before.len() as int] == start_view(
                pos as int,
                avail as int,
                hash@,
                parents@[k as int]@,
            ));
            assert forall|q: int| 0 <= q < taken@.len() implies 0 <= #[trigger] taken@[q] <= m
                + new_pipes@.len() by {
                assert(taken@.contains(taken@[q]));
                if tk.contains(taken@[q]) {
                    let w = choose|w: int| 0 <= w < tk.len() && tk[w] == taken@[q];
                }
            }
            assert forall|q: int|
                1 <= q < k + 1 implies has_start(pipes_view(new_pipes@), pos as int, hash@, (#[trigger] parents@[q])@) by {
                if q < k {
                    let t = choose|t: int|
                        pipes_view(before).contains(
                            #[trigger] start_view(pos as int, t, hash@, parents@[q]@),
                        );
                    lemma_extends_contains(before, new_pipes@, start_view(pos as int, t, hash@, parents@[q]@));
                } else {
                    assert(q == k);
                    let w = before.len() as int;
                    assert(0 <= w < pipes_view(new_pipes@).len());
                    assert(pipes_view(new_pipes@)[w] == start_view(pos as int, avail as int, hash@, parents@[q]@));
                    assert(pipes_view(new_pipes@).contains(
                        start_view(pos as int, avail as int, hash@, parents@[q]@),
                    ));
                }
            }
            assert(extends(start, new_pipes@));
            assert(lanes_of(new_pipes@, taken@, traversed@) =~= Lanes {
                out: lane_before.out.push(start_view(pos as int, avail as int, hash@, parents@[k as int]@)),
                taken: lane_before.taken.insert(avail as int),
                trav: lane_before.trav,
            });
        }
        k += 1;
    }
}

/// Live pipes right of the commit, each shifted left into the nearest
/// run of free columns.
fn phase_right(
    prev: &Vec<Pipe>,
    hash: &String,
    pos: i16,
    new_pipes: &mut Vec<Pipe>,
    taken: &mut Vec<i16>,
    traversed: &mut Vec<i16>,
    Ghost(m): Ghost<int>,
)
    requires
        m == max_to_pos(pipes_view(prev@)),
        forall|i: int| 0 <= i < prev@.len() ==> 0 <= (#[trigger] prev@[i]).to_pos,
        0 <= pos <= m + 1,
        1 <= old(new_pipes)@.len(),
        m + old(new_pipes)@.len() + prev@.len() < 32767,
        builder_ok(old(new_pipes)@, old(taken)@, old(traversed)@, m),
    ensures
        extends(old(new_pipes)@, final(new_pipes)@),
        builder_ok(final(new_pipes)@, final(taken)@, final(traversed)@, m),
        final(new_pipes)@.len() == old(new_pipes)@.len() + count_where(
            pipes_view(prev@),
            |p: PipeView| right_phase(p, hash@, pos as int),
        ),
        forall|i: int|
            0 <= i < prev@.len() && live(#[trigger] prev@[i]@) && prev@[i]@.to_hash != hash@
                && prev@[i]@.to_pos > pos ==> exists|t: int|
                t <= prev@[i]@.to_pos && pipes_view(final(new_pipes)@).contains(
                    #[trigger] continue_view(prev@[i]@, t),
                ),
        lanes_of(final(new_pipes)@, final(taken)@, final(traversed)@) == right_fold(
            pipes_view(prev@),
            hash@,
            pos as int,
            lanes_of(old(new_pipes)@, old(taken)@, old(traversed)@),
        ),
{
    let ghost pv = pipes_view(prev@);
    let ghost f = |p: PipeView| right_phase(p, hash@, pos as int);
    let ghost start = new_pipes@;
    let ghost st0 = lanes_of(new_pipes@, taken@, traversed@);
    proof {
        assert(pv.subrange(0, 0) =~= Seq::<PipeView>::empty());
    }
    let mut i: usize = 0;
    while i < prev.len()
        invariant
            pv == pipes_view(prev@),
            f == (|p: PipeView| right_phase(p, hash@, pos as int)),
            i <= prev@.len(),
            m == max_to_pos(pv),
            forall|k: int| 0 <= k < prev@.len() ==> 0 <= (#[trigger] prev@[k]).to_pos,
            0 <= pos <= m + 1,
            1 <= start.len(),
            m + start.len() + prev@.len() < 32767,
            extends(start, new_pipes@),
            builder_ok(new_pipes@, taken@, traversed@, m),
            new_pipes@.len() == start.len() + count_where(pv.subrange(0, i as int), f),
            forall|k: int|
                0 <= k < i && live(#[trigger] prev@[k]@) && prev@[k]@.to_hash != hash@ && prev@[k]@.to_pos
                    > pos ==> exists|t: int|
                    t <= prev@[k]@.to_pos && pipes_view(new_pipes@).contains(
                        #[trigger] continue_view(prev@[k]@, t),
                    ),
            lanes_of(new_pipes@, taken@, traversed@) == right_fold(pv.subrange(0, i as int), hash@, pos as int, st0),
        decreases prev.len() - i,
    {
        let ghost lane_before = lanes_of(new_pipes@, taken@, traversed@);
        proof {
            assert(pv.subrange(0, i + 1).drop_last() =~= pv.subrange(0, i as int));
            assert(pv.subrange(0, i + 1).last() == prev@[i as int]@);
            lemma_count_prefix(pv, f, i as int);
            lemma_count_le(pv.subrange(0, i as int), f);
            lemma_max_to_pos_bounds(pv, i as int);
            assert(pv[i as int] == prev@[i as int]@);
        }
        let ghost before = new_pipes@;
        let p = &prev[i];
        if p.kind != PipeKind::Terminates && !(p.to_hash == *hash) && p.to_pos > pos {
            let mut last = p.to_pos;
            while last > pos && !spots_contain(taken, last - 1) && !spots_contain(traversed, last - 1)
                invariant
                    pos <= last <= p.to_pos,
                    0 <= pos,
                    slide_left(spots_set(taken@), spots_set(traversed@), pos as int, last as int) == slide_left(
                        spots_set(taken@),
                        spots_set(traversed@),
                        pos as int,
                        p.to_pos as int,
                    ),
                decreases last,
            {
                proof {
                    lemma_spots_set_contains(taken@, (last - 1) as i16);
                    lemma_spots_set_contains(traversed@, (last - 1) as i16);
                }
                last -= 1;
            }
            proof {
                if last > pos {
                    lemma_spots_set_contains(taken@, (last - 1) as i16);
                    lemma_spots_set_contains(traversed@, (last - 1) as i16);
                }
                assert(slide_left(spots_set(taken@), spots_set(traversed@), pos as int, last as int) == last);
            }
            let np = Pipe {
                from_pos: p.to_pos,
                to_pos: last,
                from_hash: p.from_hash.clone(),
                to_hash: p.to_hash.clone(),
                kind: PipeKind::Continues,
            };
            proof {
                lemma_push_builder(new_pipes@, np, taken@, traversed@, m);
            }
            new_pipes.push(np);
            traverse(taken, traversed, p.to_pos, last, Ghost(m + new_pipes@.len()));
            proof {
                lemma_pipes_view_push(before, np);
                assert(pipes_view(new_pipes@)[before.len() as int] == continue_view(prev@[i as int]@, last as int));
                assert(lanes_of(new_pipes@, taken@, traversed@) =~= place(
                    lane_before,
                    prev@[i as int]@.to_pos,
                    last as int,
                    continue_view(prev@[i as int]@, last as int),
                ));
            }
        }
        proof {
            assert forall|k: int|
                0 <= k < i + 1 && live(#[trigger] prev@[k]@) && prev@[k]@.to_hash != hash@ && prev@[k]@.to_pos
                    > pos implies exists|t: int|
                    t <= prev@[k]@.to_pos && pipes_view(new_pipes@).contains(
                        #[trigger] continue_view(prev@[k]@, t),
                    ) by {
                if k < i {
                    let t = choose|t: int|
                        t <= prev@[k]@.to_pos && pipes_view(before).contains(
                            #[trigger] continue_view(prev@[k]@, t),
                        );
                    lemma_extends_contains(before, new_pipes@, continue_view(prev@[k]@, t));
                }
            }
        }
        i += 1;
    }
    proof {
        assert(pv.subrange(0, prev@.len() as int) =~= pv);
    }
}

fn row_max_to_pos(prev: &Vec<Pipe>) -> (r: i16)
    requires
        forall|i: int| 0 <= i < prev@.len() ==> 0 <= (#[trigger] prev@[i]).to_pos,
    ensures
        r as int == max_to_pos(pipes_view(prev@)),
{
    let ghost pv = pipes_view(prev@);
    let mut m: i16 = 0;
    let mut i: usize = 0;
    proof {
        assert(pv.subrange(0, 0) =~= Seq::<PipeView>::empty());
    }
    while i < prev.len()
        invariant
            pv == pipes_view(prev@),
            i <= prev@.len(),
            m as int == max_to_pos(pv.subrange(0, i as int)),
        decreases prev.len() - i,
    {
        proof {
            assert(pv.subrange(0, i + 1).drop_last() =~= pv.subrange(0, i as int));
            assert(pv.subrange(0, i + 1).last() == prev@[i as int]@);
        }
        if prev[i].to_pos > m {
            m = prev[i].to_pos;
        }
        i += 1;
    }
    proof {
        assert(pv.subrange(0, prev@.len() as int) =~= pv);
    }
    m
}

fn find_commit_column(prev: &Vec<Pipe>, hash: &String, max_pos: i16) -> (r: i16)
    requires
        max_pos as int == max_to_pos(pipes_view(prev@)),
        max_pos < i16::MAX,
    ensures
        r as int == commit_column(pipes_view(prev@), hash@),
{
    let ghost pv = pipes_view(prev@);
    let mut i: usize = 0;
    while i < prev.len()
        invariant
            pv == pipes_view(prev@),
            i <= prev@.len(),
            commit_column(pv, hash@) == commit_column_from(pv, hash@, i as int),
            max_pos as int == max_to_pos(pv),
            max_pos < i16::MAX,
        decreases prev.len() - i,
    {
        assert(pv[i as int] == prev@[i as int]@);
        if prev[i].kind != PipeKind::Terminates && prev[i].to_hash == *hash {
            return prev[i].to_pos;
        }
        i += 1;
    }
    max_pos + 1
}

/// The row after `prev` once `commit` is placed on it. See
/// [`next_pipes_ok`] for what the row holds.
fn get_next_pipes(prev: &Vec<Pipe>, commit: &CommitRow) -> (r: Vec<Pipe>)
    requires
        transition_fits(pipes_view(prev@), commit.parents@.len() as int),
    ensures
        next_pipes_ok(pipes_view(prev@), commit.hash@, commit.parents@, pipes_view(r@)),
        cols_within(pipes_view(r@), max_to_pos(pipes_view(prev@)) + r@.len()),
        r@.len() <= 1 + prev@.len() + commit.parents@.len(),
{
    let ghost pv = pipes_view(prev@);
    proof {
        assert forall|i: int| 0 <= i < prev@.len() implies 0 <= (#[trigger] prev@[i]).to_pos by {
            assert(pv[i] == prev@[i]@);
        }
        lemma_max_to_pos_nonneg(pv);
    }
    let max_pos = row_max_to_pos(prev);
    let ghost m = max_pos as int;
    let pos = find_commit_column(prev, &commit.hash, max_pos);
    proof {
        // the commit column is an existing column or one past the last
        if exists|i: int| 0 <= i < pv.len() && live(pv[i]) && pv[i].to_hash == commit.hash@ {
            lemma_commit_column_found(pv, commit.hash@, 0);
            let k = choose|k: int|
                0 <= k < pv.len() && live(pv[k]) && pv[k].to_hash == commit.hash@ && commit_column_from(pv, commit.hash@, 0)
                    == pv[k].to_pos;
            lemma_max_to_pos_bounds(pv, k);
            assert(pv[k] == prev@[k]@);
        } else {
            lemma_commit_column_fresh(pv, commit.hash@, 0);
        }
    }
    let first_parent_hash = if commit.parents.len() > 0 {
        commit.parents[0].clone()
    } else {
        String::new()
    };
    let mut new_pipes: Vec<Pipe> = Vec::new();
    let starts = Pipe {
        from_pos: pos,
        to_pos: pos,
        from_hash: commit.hash.clone(),
        to_hash: first_parent_hash,
        kind: PipeKind::Starts,
    };
    new_pipes.push(starts);
    let ghost start_pipes = new_pipes@;
    proof {
        assert(pipes_view(new_pipes@)[0] == start_view(
            pos as int,
            pos as int,
            commit.hash@,
            first_parent(commit.parents@),
        ));
    }
    let mut taken: Vec<i16> = Vec::new();
    let mut traversed: Vec<i16> = Vec::new();
    let mut blocked: Vec<i16> = Vec::new();
    let mut i: usize = 0;
    proof {
        assert(spots_set(blocked@) =~= Set::new(
            |c: int| exists|j: int| 0 <= j < 0 && live(pv[j]) && pv[j].to_hash != commit.hash@ && pv[j].to_pos == c,
        ));
    }
    while i < prev.len()
        invariant
            pv == pipes_view(prev@),
            m == max_to_pos(pv),
            i <= prev@.len(),
            spots_below(blocked@, m),
            forall|k: int| 0 <= k < prev@.len() ==> 0 <= (#[trigger] prev@[k]).to_pos,
            spots_set(blocked@) == Set::new(
                |c: int|
                    exists|j: int| 0 <= j < i && live(pv[j]) && pv[j].to_hash != commit.hash@ && pv[j].to_pos == c,
            ),
        decreases prev.len() - i,
    {
        proof {
            lemma_max_to_pos_bounds(pv, i as int);
            assert(pv[i as int] == prev@[i as int]@);
        }
        let ghost bset = spots_set(blocked@);
        proof {
            assert(Set::new(
                |c: int|
                    exists|j: int| 0 <= j < i + 1 && live(pv[j]) && pv[j].to_hash != commit.hash@ && pv[j].to_pos == c,
            ) =~= if live(pv[i as int]) && pv[i as int].to_hash != commit.hash@ {
                bset.insert(pv[i as int].to_pos)
            } else {
                bset
            });
        }
        if prev[i].kind != PipeKind::Terminates && !(prev[i].to_hash == commit.hash) {
            let ghost bk = blocked@;
            spots_insert(&mut blocked, prev[i].to_pos);
            proof {
                assert forall|q: int| 0 <= q < blocked@.len() implies 0 <= #[trigger] blocked@[q] <= m by {
                    assert(blocked@.contains(blocked@[q]));
                    if bk.contains(blocked@[q]) {
                        let w = choose|w: int| 0 <= w < bk.len() && bk[w] == blocked@[q];
                    }
                }
            }
        }
        i += 1;
    }
    let ghost st0 = lanes_of(new_pipes@, taken@, traversed@);
    proof {
        assert(spots_set(blocked@) =~= continuing_cols(pv, commit.hash@));
        assert(spots_set(taken@) =~= Set::<int>::empty());
        assert(spots_set(traversed@) =~= Set::<int>::empty());
        assert(pipes_view(new_pipes@) =~= seq![start_view(pos as int, pos as int, commit.hash@, first_parent(commit.parents@))]);
    }
    let ghost room = commit.parents@.len() as int;
    phase_left(prev, &commit.hash, pos, &mut new_pipes, &mut taken, &mut traversed, Ghost(m), Ghost(room));
    let ghost after_left = new_pipes@;
    proof {
        lemma_count_le(pv, |p: PipeView| left_phase(p, commit.hash@, pos as int));
    }
    phase_merge(&commit.parents, &commit.hash, pos, &mut new_pipes, &mut taken, &traversed, &blocked, Ghost(m));
    let ghost after_merge = new_pipes@;
    phase_right(prev, &commit.hash, pos, &mut new_pipes, &mut taken, &mut traversed, Ghost(m));
    let ghost unsorted = new_pipes@;
    proof {
        assert(pipes_view(unsorted) == next_row(pv, commit.hash@, commit.parents@));
    }
    let r = sort_row(new_pipes);
    proof {
        let fl = |p: PipeView| left_phase(p, commit.hash@, pos as int);
        let fr = |p: PipeView| right_phase(p, commit.hash@, pos as int);
        let fc = |p: PipeView| carried(p, commit.hash@, pos as int);
        lemma_count_split(pv, fc, fl, fr);
        lemma_count_le(pv, fc);
        let rv = pipes_view(r@);
        let uv = pipes_view(unsorted);
        // contents carry over through the sort
        assert forall|x: PipeView| uv.contains(x) implies rv.contains(x) by {
            assert(row_set(unsorted).contains(x));
            assert(row_set(r@).contains(x));
        }
        assert(extends(start_pipes, unsorted));
        lemma_extends_contains(start_pipes, unsorted, start_view(
            pos as int,
            pos as int,
            commit.hash@,
            first_parent(commit.parents@),
        ));
        assert forall|i: int|
            0 <= i < pv.len() && live(#[trigger] pv[i]) && pv[i].to_hash == commit.hash@ implies rv.contains(
            terminate_view(pv[i], pos as int),
        ) by {
            assert(pv[i] == prev@[i]@);
            lemma_extends_contains(after_left, unsorted, terminate_view(pv[i], pos as int));
        }
        assert forall|i: int|
            0 <= i < pv.len() && live(#[trigger] pv[i]) && pv[i].to_hash != commit.hash@ && pv[i].to_pos
                != pos implies has_continue(rv, pv[i], pos as int) by {
            assert(pv[i] == prev@[i]@);
            if pv[i].to_pos < pos {
                let t = choose|t: int| pipes_view(after_left).contains(#[trigger] continue_view(prev@[i]@, t));
                lemma_extends_contains(after_left, unsorted, continue_view(pv[i], t));
                assert(rv.contains(continue_view(pv[i], t)));
            } else {
                let t = choose|t: int|
                    t <= prev@[i]@.to_pos && pipes_view(unsorted).contains(#[trigger] continue_view(prev@[i]@, t));
                assert(rv.contains(continue_view(pv[i], t)));
            }
        }
        assert forall|k: int| 1 <= k < commit.parents@.len() implies has_start(
            rv,
            pos as int,
            commit.hash@,
            (#[trigger] commit.parents@[k])@,
        ) by {
            assert(has_start(pipes_view(after_merge), pos as int, commit.hash@, commit.parents@[k]@));
            let t = choose|t: int|
                pipes_view(after_merge).contains(#[trigger] start_view(pos as int, t, commit.hash@, commit.parents@[k]@));
            lemma_extends_contains(after_merge, unsorted, start_view(pos as int, t, commit.hash@, commit.parents@[k]@));
            assert(rv.contains(start_view(pos as int, t, commit.hash@, commit.parents@[k]@)));
        }
        assert forall|i: int| 0 <= i < rv.len() implies 0 <= (#[trigger] rv[i]).to_pos <= m + r@.len()
            && 0 <= rv[i].from_pos <= m + r@.len() by {
            assert(row_set(r@).contains(rv[i]));
            assert(row_set(unsorted).contains(rv[i]));
            let w = choose|w: int| 0 <= w < uv.len() && uv[w] == rv[i];
        }
    }
    r
}

proof fn lemma_commit_column_found(pv: Seq<PipeView>, hash: Seq<char>, i: int)
    requires
        0 <= i <= pv.len(),
        exists|k: int| i <= k < pv.len() && live(pv[k]) && pv[k].to_hash == hash,
    ensures
        exists|k: int|
            i <= k < pv.len() && live(pv[k]) && pv[k].to_hash == hash && commit_column_from(pv, hash, i)
                == pv[k].to_pos,
    decreases pv.len() - i,
{
    if live(pv[i]) && pv[i].to_hash == hash {
    } else {
        lemma_commit_column_found(pv, hash, i + 1);
    }
}

proof fn lemma_commit_column_fresh(pv: Seq<PipeView>, hash: Seq<char>, i: int)
    requires
        0 <= i <= pv.len(),
        !exists|k: int| i <= k < pv.len() && live(pv[k]) && pv[k].to_hash == hash,
    ensures
        commit_column_from(pv, hash, i) == max_to_pos(pv) + 1,
    decreases pv.len() - i,
{
    if i < pv.len() {
        lemma_commit_column_fresh(pv, hash, i + 1);
    }
}

// ---------------------------------------------------------------------------
// Whole commit list
// ---------------------------------------------------------------------------

/// Seed hash of the pipe that ends on the very first commit; never equal to
/// a real commit hash.
pub const START_HASH: &'static str = "__GWM_GRAPH_START__";

/// Total number of parent links over a commit list.
pub open spec fn parent_total(c: Seq<CommitRow>) -> nat
    decreases c.len(),
{
    if c.len() == 0 {
        0
    } else {
        parent_total(c.drop_last()) + c.last().parents@.len()
    }
}

/// The commit list is small enough that no column of its graph can leave
/// the `i16` range the pipes are stored in.
pub open spec fn graph_fits(c: Seq<CommitRow>) -> bool {
    (c.len() + 2) * (c.len() + parent_total(c) + 1) < 32767
}

/// The seed row: one pipe heading to the first commit.
pub open spec fn seed_row(first: Seq<char>) -> Seq<PipeView> {
    seq![PipeView { from_pos: 0, to_pos: 0, from_hash: START_HASH@, to_hash: first, kind: PipeKind::Starts }]
}

fn clone_row(v: &Vec<Pipe>) -> (r: Vec<Pipe>)
    ensures
        pipes_view(r@) == pipes_view(v@),
{
    let mut out: Vec<Pipe> = Vec::new();
    let mut i: usize = 0;
    while i < v.len()
        invariant
            i <= v@.len(),
            pipes_view(out@) == pipes_view(v@.subrange(0, i as int)),
        decreases v.len() - i,
    {
        let ghost before = out@;
        out.push(v[i].duplicate());
        proof {
            lemma_pipes_view_push(before, out@.last());
            assert(out@ == before.push(out@.last()));
            assert(pipes_view(v@.subrange(0, i + 1)) =~= pipes_view(v@.subrange(0, i as int)).push(v@[i as int]@));
        }
        i += 1;
    }
    proof {
        assert(v@.subrange(0, v@.len() as int) =~= v@);
    }
    out
}

proof fn lemma_parent_total_prefix(c: Seq<CommitRow>, k: int)
    requires
        0 <= k < c.len(),
    ensures
        parent_total(c.subrange(0, k + 1)) == parent_total(c.subrange(0, k)) + c[k].parents@.len(),
{
    assert(c.subrange(0, k + 1).drop_last() =~= c.subrange(0, k));
}

proof fn lemma_parent_total_mono(c: Seq<CommitRow>, k: int)
    requires
        0 <= k <= c.len(),
    ensures
        parent_total(c.subrange(0, k)) <= parent_total(c),
    decreases c.len() - k,
{
    if k < c.len() {
        lemma_parent_total_prefix(c, k);
        lemma_parent_total_mono(c, k + 1);
    } else {
        assert(c.subrange(0, k) =~= c);
    }
}

/// Walk `commits` once, producing the pipe set of every row: row `k` is
/// the transition ([`next_pipes_ok`]) of row `k - 1` (of the seed row for
/// the first commit) by `commits[k]`.
pub fn build_pipe_sets(commits: &Vec<CommitRow>) -> (out: Vec<Vec<Pipe>>)
    requires
        graph_fits(commits@),
    ensures
        out@.len() == commits@.len(),
        commits@.len() > 0 ==> next_pipes_ok(
            seed_row(commits@[0].hash@),
            commits@[0].hash@,
            commits@[0].parents@,
            pipes_view(out@[0]@),
        ),
        forall|k: int|
            1 <= k < commits@.len() ==> next_pipes_ok(
                pipes_view(out@[k - 1]@),
                (#[trigger] commits@[k]).hash@,
                commits@[k].parents@,
                pipes_view(out@[k]@),
            ),
{
    let mut out: Vec<Vec<Pipe>> = Vec::new();
    if commits.len() == 0 {
        return out;
    }
    let ghost n = commits@.len() as int;
    let ghost t = n + parent_total(commits@);
    let mut pipes: Vec<Pipe> = Vec::new();
    pipes.push(
        Pipe {
            from_pos: 0,
            to_pos: 0,
            from_hash: String::from_str(START_HASH),
            to_hash: commits[0].hash.clone(),
            kind: PipeKind::Starts,
        },
    );
    proof {
        assert(pipes_view(pipes@) =~= seed_row(commits@[0].hash@));
        assert(commits@.subrange(0, 0) =~= Seq::<CommitRow>::empty());
    }
    let mut k: usize = 0;
    while k < commits.len()
        invariant
            n == commits@.len(),
            t == n + parent_total(commits@),
            graph_fits(commits@),
            k <= n,
            n > 0,
            out@.len() == k,
            pipes@.len() <= 1 + k + parent_total(commits@.subrange(0, k as int)),
            cols_within(pipes_view(pipes@), k * (1 + t)),
            k == 0 ==> pipes_view(pipes@) == seed_row(commits@[0].hash@),
            k > 0 ==> pipes_view(pipes@) == pipes_view(out@[k - 1]@),
            k > 0 ==> next_pipes_ok(
                seed_row(commits@[0].hash@),
                commits@[0].hash@,
                commits@[0].parents@,
                pipes_view(out@[0]@),
            ),
            forall|q: int|
                1 <= q < k ==> next_pipes_ok(
                    pipes_view(out@[q - 1]@),
                    (#[trigger] commits@[q]).hash@,
                    commits@[q].parents@,
                    pipes_view(out@[q]@),
                ),
        decreases n - k,
    {
        let ghost pv = pipes_view(pipes@);
        proof {
            lemma_parent_total_mono(commits@, k as int);
            lemma_parent_total_mono(commits@, k + 1);
            lemma_parent_total_prefix(commits@, k as int);
            assert forall|i: int| 0 <= i < pv.len() implies (#[trigger] pv[i]).to_pos <= k * (1 + t) by {}
            assert(0 <= k * (1 + t)) by (nonlinear_arith)
                requires
                    0 <= k,
                    0 <= t,
            ;
            lemma_max_to_pos_within(pv, k * (1 + t));
            assert(k * (1 + t) + 1 + 2 * (1 + t) + t < 32767) by (nonlinear_arith)
                requires
                    k < n,
                    0 <= t,
                    (n + 2) * (t + 1) < 32767,
            ;
        }
        let next = get_next_pipes(&pipes, &commits[k]);
        proof {
            assert((k + 1) * (1 + t) == k * (1 + t) + (1 + t)) by (nonlinear_arith);
            assert forall|i: int| 0 <= i < pipes_view(next@).len() implies 0 <= (#[trigger] pipes_view(next@)[i]).to_pos
                <= (k + 1) * (1 + t) && 0 <= pipes_view(next@)[i].from_pos <= (k + 1) * (1 + t) by {}
        }
        let snapshot = clone_row(&next);
        let ghost before = out@;
        out.push(snapshot);
        proof {
            assert(out@[k as int] == snapshot);
            assert forall|q: int|
                1 <= q < k + 1 implies next_pipes_ok(
                    pipes_view(out@[q - 1]@),
                    (#[trigger] commits@[q]).hash@,
                    commits@[q].parents@,
                    pipes_view(out@[q]@),
                ) by {
                if q < k {
                    assert(out@[q] == before[q] && out@[q - 1] == before[q - 1]);
                } else {
                    assert(out@[q - 1] == before[q - 1]);
                }
            }
            if k > 0 {
                assert(out@[0] == before[0]);
            }
        }
        pipes = next;
        k += 1;
    }
    out
}

// ---------------------------------------------------------------------------
// Rendering one row
// ---------------------------------------------------------------------------

/// What a cell stands for at render time.
#[derive(Debug, Clone, Copy, PartialEq, Eq, Structural)]
enum CellType {
    Connection,
    Commit,
    Merge,
}

#[derive(Debug, Clone, Copy)]
struct Cell {
    up: bool,
    down: bool,
    left: bool,
    right: bool,
    cell_type: CellType,
}

impl Cell {
    fn new_connection() -> (c: Self)
        ensures
            !c.up && !c.down && !c.left && !c.right,
            c.cell_type == CellType::Connection,
    {
        Cell { up: false, down: false, left: false, right: false, cell_type: CellType::Connection }
    }

    fn set_up(&mut self)
        ensures
            *final(self) == (Cell { up: true, ..*old(self) }),
    {
        self.up = true;
    }

    fn set_down(&mut self)
        ensures
            *final(self) == (Cell { down: true, ..*old(self) }),
    {
        self.down = true;
    }

    fn set_left(&mut self)
        ensures
            *final(self) == (Cell { left: true, ..*old(self) }),
    {
        self.left = true;
    }

    fn set_right(&mut self)
        ensures
            *final(self) == (Cell { right: true, ..*old(self) }),
    {
        self.right = true;
    }

    fn set_type(&mut self, t: CellType)
        ensures
            *final(self) == (Cell { cell_type: t, ..*old(self) }),
    {
        self.cell_type = t;
    }
}

/// Stroke directions of a cell.
pub open spec fn stroke(p: PipeView, i: int, dir: int) -> bool {
    if dir == 0 {
        // up: the pipe arrives from above in column i
        (p.kind == PipeKind::Terminates || p.kind == PipeKind::Continues) && p.from_pos == i
    } else if dir == 1 {
        // down: the pipe leaves downward from column i
        (p.kind == PipeKind::Starts || p.kind == PipeKind::Continues) && p.to_pos == i
    } else if dir == 2 {
        // left: the pipe crosses into column i from its left
        p.left() != p.right() && p.left() < i <= p.right()
    } else {
        // right: the pipe leaves column i to its right
        p.left() != p.right() && p.left() <= i < p.right()
    }
}

spec fn cell_flag_spec(c: Cell, dir: int) -> bool {
    if dir == 0 { c.up } else if dir == 1 { c.down } else if dir == 2 { c.left } else { c.right }
}

/// Set the `dir` stroke of cell `idx`, when that cell exists.
fn mark(cells: &mut Vec<Cell>, idx: i16, dir: u8)
    requires
        dir < 4,
    ensures
        final(cells)@.len() == old(cells)@.len(),
        forall|c: int|
            0 <= c < old(cells)@.len() ==> (#[trigger] final(cells)@[c]).cell_type == old(cells)@[c].cell_type
                && forall|d: int|
                0 <= d < 4 ==> cell_flag_spec(final(cells)@[c], d) == (cell_flag_spec(old(cells)@[c], d) || (c
                    == idx && d == dir)),
{
    if idx >= 0 && (idx as usize) < cells.len() {
        let mut c = cells[idx as usize];
        if dir == 0 {
            c.set_up();
        } else if dir == 1 {
            c.set_down();
        } else if dir == 2 {
            c.set_left();
        } else {
            c.set_right();
        }
        cells.set(idx as usize, c);
    }
}

/// Paint one pipe's strokes onto the cells.
#[verifier::spinoff_prover]
#[verifier::rlimit(40)]
fn apply_pipe(cells: &mut Vec<Cell>, pipe: &Pipe)
    ensures
        final(cells)@.len() == old(cells)@.len(),
        forall|i: int|
            0 <= i < old(cells)@.len() ==> (#[trigger] final(cells)@[i]).cell_type == old(cells)@[i].cell_type,
        forall|i: int, d: int|
            0 <= i < old(cells)@.len() && 0 <= d < 4 ==> #[trigger] cell_flag_spec(final(cells)@[i], d) == (
            cell_flag_spec(old(cells)@[i], d) || stroke(pipe@, i, d)),
{
    let left = pipe.left();
    let right = pipe.right();
    let ghost pv = pipe@;
    let ghost orig = cells@;
    if left != right {
        let mut i = left + 1;
        while i < right
            invariant
                left < i <= right,
                cells@.len() == orig.len(),
                forall|c: int|
                    0 <= c < orig.len() ==> (#[trigger] cells@[c]).cell_type == orig[c].cell_type && forall|d: int|
                        0 <= d < 4 ==> cell_flag_spec(cells@[c], d) == (cell_flag_spec(orig[c], d) || ((d == 2 || d
                            == 3) && left < c < i)),
            decreases right - i,
        {
            let ghost c0 = cells@;
            mark(cells, i, 2);
            let ghost c1 = cells@;
            mark(cells, i, 3);
            proof {
                assert forall|c: int| 0 <= c < orig.len() implies (#[trigger] cells@[c]).cell_type == orig[c].cell_type
                    && forall|d: int|
                    0 <= d < 4 ==> cell_flag_spec(cells@[c], d) == (cell_flag_spec(orig[c], d) || ((d == 2 || d
                        == 3) && left < c < i + 1)) by {
                    assert(c0[c].cell_type == orig[c].cell_type);
                    assert(c1[c].cell_type == c0[c].cell_type);
                    assert forall|d: int| 0 <= d < 4 implies cell_flag_spec(cells@[c], d) == (cell_flag_spec(
                        orig[c],
                        d,
                    ) || ((d == 2 || d == 3) && left < c < i + 1)) by {
                        assert(cell_flag_spec(c0[c], d) == (cell_flag_spec(orig[c], d) || ((d == 2 || d == 3) && left
                            < c < i)));
                        assert(cell_flag_spec(c1[c], d) == (cell_flag_spec(c0[c], d) || (c == i && d == 2)));
                    }
                }
            }
            i += 1;
        }
        mark(cells, left, 3);
        mark(cells, right, 2);
    }
    let ghost mid = cells@;
    if pipe.kind == PipeKind::Starts || pipe.kind == PipeKind::Continues {
        mark(cells, pipe.to_pos, 1);
    }
    if pipe.kind == PipeKind::Terminates || pipe.kind == PipeKind::Continues {
        mark(cells, pipe.from_pos, 0);
    }
    proof {
        assert forall|c: int, d: int| 0 <= c < orig.len() && 0 <= d < 4 implies #[trigger] cell_flag_spec(
            cells@[c],
            d,
        ) == (cell_flag_spec(orig[c], d) || stroke(pv, c, d)) by {
            assert(pv.left() == left as int && pv.right() == right as int);
        }
    }
}

/// Column of the row's commit: the last start pipe's origin or terminating
/// pipe's end, in row order (0 when the row has neither).
pub open spec fn commit_pos_of(s: Seq<PipeView>) -> int
    decreases s.len(),
{
    if s.len() == 0 {
        0
    } else if s.last().kind == PipeKind::Starts {
        s.last().from_pos
    } else if s.last().kind == PipeKind::Terminates {
        s.last().to_pos
    } else {
        commit_pos_of(s.drop_last())
    }
}

/// Rightmost column any pipe of the row touches (at least 0).
pub open spec fn max_right(s: Seq<PipeView>) -> int
    decreases s.len(),
{
    if s.len() == 0 {
        0
    } else {
        let rest = max_right(s.drop_last());
        if s.last().right() > rest { s.last().right() } else { rest }
    }
}

pub open spec fn is_start(p: PipeView) -> bool {
    p.kind == PipeKind::Starts
}

/// A non-start pipe is painted unless it is the commit's own
/// terminate-on-itself, which would erase the commit glyph.
pub open spec fn painted_late(p: PipeView, cp: int) -> bool {
    p.kind != PipeKind::Starts && !(p.kind == PipeKind::Terminates && p.from_pos == cp && p.to_pos == cp)
}

/// Some pipe among the first `k` selected by `sel` strokes cell `i` in
/// direction `dir`.
pub open spec fn stroked_by(s: Seq<PipeView>, k: int, sel: spec_fn(PipeView) -> bool, i: int, dir: int) -> bool {
    exists|j: int| 0 <= j < k && sel(s[j]) && #[trigger] stroke(s[j], i, dir)
}

/// The strokes of cell `i` of the row: those of its start pipes and of its
/// painted non-start pipes.
pub open spec fn cell_stroke(s: Seq<PipeView>, i: int, dir: int) -> bool {
    stroked_by(s, s.len() as int, |p: PipeView| is_start(p), i, dir)
        || stroked_by(s, s.len() as int, |p: PipeView| painted_late(p, commit_pos_of(s)), i, dir)
}

/// Glyph of cell `c`: the commit node (a merge when more than one pipe
/// starts on the row), else the box-drawing glyph of its strokes.
pub open spec fn glyph_at(s: Seq<PipeView>, c: int) -> char {
    if c == commit_pos_of(s) {
        if count_where(s, |p: PipeView| is_start(p)) > 1 { '◎' } else { '○' }
    } else {
        box_chars(cell_stroke(s, c, 0), cell_stroke(s, c, 1), cell_stroke(s, c, 2), cell_stroke(s, c, 3)).0
    }
}

pub open spec fn filler_at(s: Seq<PipeView>, c: int) -> char {
    box_chars(cell_stroke(s, c, 0), cell_stroke(s, c, 1), cell_stroke(s, c, 2), cell_stroke(s, c, 3)).1
}

/// How a rendered character is painted: a muted connector or a commit node.
#[derive(Debug, Clone, Copy, PartialEq, Eq, Structural)]
pub enum SpanStyle {
    Connector,
    Node,
}

/// `out` is the rendering of the row `s`: two characters per column up to
/// the rightmost one, the glyph (the commit node in the commit's column)
/// and the right filler.
pub open spec fn rendered_row(s: Seq<PipeView>, out: Seq<GraphSpan>) -> bool {
    &&& out.len() == 2 * (max_right(s) + 1)
    &&& forall|c: int|
        0 <= c <= max_right(s) ==> (#[trigger] out[2 * c]) == (GraphSpan {
            text: glyph_at(s, c),
            style: if c == commit_pos_of(s) { SpanStyle::Node } else { SpanStyle::Connector },
        }) && out[2 * c + 1] == (GraphSpan { text: filler_at(s, c), style: SpanStyle::Connector })
}

/// One rendered character of a graph row.
#[derive(Debug, Clone, Copy, PartialEq, Eq, Structural)]
pub struct GraphSpan {
    pub text: char,
    pub style: SpanStyle,
}

proof fn lemma_stroked_by_step(s: Seq<PipeView>, k: int, sel: spec_fn(PipeView) -> bool, i: int, dir: int)
    requires
        0 <= k < s.len(),
    ensures
        stroked_by(s, k + 1, sel, i, dir) == (stroked_by(s, k, sel, i, dir) || (sel(s[k]) && stroke(s[k], i, dir))),
{
    if stroked_by(s, k + 1, sel, i, dir) && !(sel(s[k]) && stroke(s[k], i, dir)) {
        let j = choose|j: int| 0 <= j < k + 1 && sel(s[j]) && #[trigger] stroke(s[j], i, dir);
        assert(j < k);
    }
}

fn commit_pos_exec(pipes: &Vec<Pipe>) -> (r: (i16, i16, usize))
    ensures
        r.0 as int == commit_pos_of(pipes_view(pipes@)),
        r.1 as int == max_right(pipes_view(pipes@)),
        r.2 as int == count_where(pipes_view(pipes@), |p: PipeView| is_start(p)),
{
    let ghost pv = pipes_view(pipes@);
    let mut max_pos: i16 = 0;
    let mut commit_pos: i16 = 0;
    let mut start_count: usize = 0;
    let mut i: usize = 0;
    proof {
        assert(pv.subrange(0, 0) =~= Seq::<PipeView>::empty());
    }
    while i < pipes.len()
        invariant
            pv == pipes_view(pipes@),
            i <= pipes@.len(),
            commit_pos as int == commit_pos_of(pv.subrange(0, i as int)),
            max_pos as int == max_right(pv.subrange(0, i as int)),
            start_count as int == count_where(pv.subrange(0, i as int), |p: PipeView| is_start(p)),
            start_count <= i,
        decreases pipes.len() - i,
    {
        proof {
            assert(pv.subrange(0, i + 1).drop_last() =~= pv.subrange(0, i as int));
            assert(pv.subrange(0, i + 1).last() == pipes@[i as int]@);
        }
        let pipe = &pipes[i];
        if pipe.kind == PipeKind::Starts {
            start_count += 1;
            commit_pos = pipe.from_pos;
        } else if pipe.kind == PipeKind::Terminates {
            commit_pos = pipe.to_pos;
        }
        let r = pipe.right();
        if r > max_pos {
            max_pos = r;
        }
        i += 1;
    }
    proof {
        assert(pv.subrange(0, pipes@.len() as int) =~= pv);
    }
    (commit_pos, max_pos, start_count)
}

/// Render one row's pipe set as characters, two per cell: the cell's glyph
/// (the commit node in the commit's column) and its right filler.
pub fn render_pipe_set(pipes: &Vec<Pipe>) -> (out: Vec<GraphSpan>)
    ensures
        rendered_row(pipes_view(pipes@), out@),
{
    let ghost pv = pipes_view(pipes@);
    let (commit_pos, max_pos, start_count) = commit_pos_exec(pipes);
    let ghost cp = commit_pos as int;
    let ghost first = |p: PipeView| is_start(p);
    let ghost late = |p: PipeView| painted_late(p, cp);
    let is_merge = start_count > 1;
    proof {
        lemma_max_right_nonneg(pv);
    }
    let mut cells: Vec<Cell> = Vec::new();
    let ncols: usize = max_pos as usize + 1;
    while cells.len() < ncols
        invariant
            cells@.len() <= ncols,
            forall|k: int|
                0 <= k < cells@.len() ==> !(#[trigger] cells@[k]).up && !cells@[k].down && !cells@[k].left
                    && !cells@[k].right && cells@[k].cell_type == CellType::Connection,
        decreases ncols - cells@.len(),
    {
        cells.push(Cell::new_connection());
    }
    let ghost ncells = cells@.len();
    // First pass: start pipes.
    let mut i: usize = 0;
    while i < pipes.len()
        invariant
            pv == pipes_view(pipes@),
            first == (|p: PipeView| is_start(p)),
            i <= pipes@.len(),
            cells@.len() == ncells,
            forall|k: int|
                0 <= k < ncells ==> (#[trigger] cells@[k]).cell_type == CellType::Connection && forall|d: int|
                    0 <= d < 4 ==> cell_flag_spec(cells@[k], d) == stroked_by(pv, i as int, first, k, d),
        decreases pipes.len() - i,
    {
        let ghost before = cells@;
        let p = &pipes[i];
        if p.kind == PipeKind::Starts {
            apply_pipe(&mut cells, p);
        }
        proof {
            assert(pv[i as int] == pipes@[i as int]@);
            assert(first(pv[i as int]) == (pipes@[i as int].kind == PipeKind::Starts));
            assert forall|k: int| 0 <= k < ncells implies (#[trigger] cells@[k]).cell_type == CellType::Connection
                && forall|d: int|
                0 <= d < 4 ==> cell_flag_spec(cells@[k], d) == stroked_by(pv, i + 1, first, k, d) by {
                assert forall|d: int| 0 <= d < 4 implies cell_flag_spec(cells@[k], d) == stroked_by(
                    pv,
                    i + 1,
                    first,
                    k,
                    d,
                ) by {
                    lemma_stroked_by_step(pv, i as int, first, k, d);
                    assert(cell_flag_spec(before[k], d) == stroked_by(pv, i as int, first, k, d));
                    if pipes@[i as int].kind == PipeKind::Starts {
                        assert(cell_flag_spec(cells@[k], d) == (cell_flag_spec(before[k], d) || stroke(
                            pipes@[i as int]@,
                            k,
                            d,
                        )));
                    } else {
                        assert(cells@ == before);
                    }
                }
            }
        }
        i += 1;
    }
    // Second pass: the remaining pipes, except the commit's own
    // terminate-on-itself.
    let mut i: usize = 0;
    while i < pipes.len()
        invariant
            pv == pipes_view(pipes@),
            first == (|p: PipeView| is_start(p)),
            late == (|p: PipeView| painted_late(p, cp)),
            cp == commit_pos as int,
            i <= pipes@.len(),
            cells@.len() == ncells,
            forall|k: int|
                0 <= k < ncells ==> (#[trigger] cells@[k]).cell_type == CellType::Connection && forall|d: int|
                    0 <= d < 4 ==> cell_flag_spec(cells@[k], d) == (stroked_by(pv, pv.len() as int, first, k, d)
                        || stroked_by(pv, i as int, late, k, d)),
        decreases pipes.len() - i,
    {
        let ghost before = cells@;
        let p = &pipes[i];
        if p.kind != PipeKind::Starts && !(p.kind == PipeKind::Terminates && p.from_pos == commit_pos
            && p.to_pos == commit_pos) {
            apply_pipe(&mut cells, p);
        }
        proof {
            assert(pv[i as int] == pipes@[i as int]@);
            assert(late(pv[i as int]) == painted_late(pv[i as int], cp));
            assert forall|k: int| 0 <= k < ncells implies (#[trigger] cells@[k]).cell_type == CellType::Connection
                && forall|d: int|
                0 <= d < 4 ==> cell_flag_spec(cells@[k], d) == (stroked_by(pv, pv.len() as int, first, k, d)
                    || stroked_by(pv, i + 1, late, k, d)) by {
                assert forall|d: int| 0 <= d < 4 implies cell_flag_spec(cells@[k], d) == (stroked_by(
                    pv,
                    pv.len() as int,
                    first,
                    k,
                    d,
                ) || stroked_by(pv, i + 1, late, k, d)) by {
                    lemma_stroked_by_step(pv, i as int, late, k, d);
                    assert(cell_flag_spec(before[k], d) == (stroked_by(pv, pv.len() as int, first, k, d)
                        || stroked_by(pv, i as int, late, k, d)));
                }
            }
        }
        i += 1;
    }
    // Mark the commit cell.
    let ghost painted = cells@;
    if commit_pos >= 0 && (commit_pos as usize) < cells.len() {
        let mut cell = cells[commit_pos as usize];
        cell.set_type(if is_merge { CellType::Merge } else { CellType::Commit });
        cells.set(commit_pos as usize, cell);
    }
    proof {
        assert forall|q: int| 0 <= q < ncells implies (#[trigger] cells@[q]).cell_type == (if q == cp {
            if is_merge { CellType::Merge } else { CellType::Commit }
        } else {
            CellType::Connection
        }) && forall|d: int| 0 <= d < 4 ==> cell_flag_spec(cells@[q], d) == cell_stroke(pv, q, d) by {
            assert(painted[q].cell_type == CellType::Connection);
            assert forall|d: int| 0 <= d < 4 implies cell_flag_spec(cells@[q], d) == cell_stroke(pv, q, d) by {
                assert(cell_flag_spec(painted[q], d) == (stroked_by(pv, pv.len() as int, first, q, d)
                    || stroked_by(pv, pv.len() as int, late, q, d)));
                assert(cell_flag_spec(cells@[q], d) == cell_flag_spec(painted[q], d));
            }
        }
    }
    let mut out: Vec<GraphSpan> = Vec::new();
    let mut k: usize = 0;
    while k < cells.len()
        invariant
            pv == pipes_view(pipes@),
            first == (|p: PipeView| is_start(p)),
            late == (|p: PipeView| painted_late(p, cp)),
            cp == commit_pos as int,
            cp == commit_pos_of(pv),
            is_merge == (count_where(pv, first) > 1),
            ncells == max_pos + 1,
            max_pos as int == max_right(pv),
            k <= ncells,
            cells@.len() == ncells,
            out@.len() == 2 * k,
            forall|q: int|
                0 <= q < ncells ==> (#[trigger] cells@[q]).cell_type == (if q == cp {
                    if is_merge { CellType::Merge } else { CellType::Commit }
                } else {
                    CellType::Connection
                }) && forall|d: int| 0 <= d < 4 ==> cell_flag_spec(cells@[q], d) == cell_stroke(pv, q, d),
            forall|c: int|
                0 <= c < k ==> (#[trigger] out@[2 * c]) == (GraphSpan {
                    text: glyph_at(pv, c),
                    style: if c == cp { SpanStyle::Node } else { SpanStyle::Connector },
                }) && out@[2 * c + 1] == (GraphSpan { text: filler_at(pv, c), style: SpanStyle::Connector }),
        decreases cells.len() - k,
    {
        let cell = cells[k];
        proof {
            assert(cell_flag_spec(cell, 0) == cell_stroke(pv, k as int, 0));
            assert(cell_flag_spec(cell, 1) == cell_stroke(pv, k as int, 1));
            assert(cell_flag_spec(cell, 2) == cell_stroke(pv, k as int, 2));
            assert(cell_flag_spec(cell, 3) == cell_stroke(pv, k as int, 3));
        }
        let (glyph, filler) = box_drawing_chars(cell.up, cell.down, cell.left, cell.right);
        let (text, style) = match cell.cell_type {
            CellType::Connection => (glyph, SpanStyle::Connector),
            CellType::Commit => ('○', SpanStyle::Node),
            CellType::Merge => ('◎', SpanStyle::Node),
        };
        let ghost before = out@;
        out.push(GraphSpan { text, style });
        out.push(GraphSpan { text: filler, style: SpanStyle::Connector });
        proof {
            assert forall|c: int| 0 <= c < k + 1 implies (#[trigger] out@[2 * c]) == (GraphSpan {
                text: glyph_at(pv, c),
                style: if c == cp { SpanStyle::Node } else { SpanStyle::Connector },
            }) && out@[2 * c + 1] == (GraphSpan { text: filler_at(pv, c), style: SpanStyle::Connector }) by {
                if c < k {
                    assert(out@[2 * c] == before[2 * c]);
                    assert(out@[2 * c + 1] == before[2 * c + 1]);
                }
            }
        }
        k += 1;
    }
    out
}

proof fn lemma_max_right_nonneg(s: Seq<PipeView>)
    ensures
        0 <= max_right(s),
    decreases s.len(),
{
    if s.len() > 0 {
        lemma_max_right_nonneg(s.drop_last());
    }
}

/// `rows` are the pipe sets of `commits`, one per commit, each the
/// transition of the one before it (of the seed row for the first).
pub open spec fn pipe_rows_ok(commits: Seq<CommitRow>, rows: Seq<Seq<PipeView>>) -> bool {
    &&& rows.len() == commits.len()
    &&& commits.len() > 0 ==> next_pipes_ok(seed_row(commits[0].hash@), commits[0].hash@, commits[0].parents@, rows[0])
    &&& forall|k: int|
        1 <= k < commits.len() ==> next_pipes_ok(rows[k - 1], (#[trigger] commits[k]).hash@, commits[k].parents@, rows[k])
}

/// Pipe sets of every commit, each rendered: one line of graph characters
/// per commit.
pub fn render_commits(commits: &Vec<CommitRow>) -> (out: Vec<Vec<GraphSpan>>)
    requires
        graph_fits(commits@),
    ensures
        out@.len() == commits@.len(),
        exists|rows: Seq<Seq<PipeView>>|
            pipe_rows_ok(commits@, rows) && forall|k: int| 0 <= k < rows.len() ==> rendered_row(#[trigger] rows[k], out@[k]@),
{
    let sets = build_pipe_sets(commits);
    let ghost rows = sets@.map_values(|r: Vec<Pipe>| pipes_view(r@));
    let mut out: Vec<Vec<GraphSpan>> = Vec::new();
    let mut k: usize = 0;
    while k < sets.len()
        invariant
            k <= sets@.len(),
            rows == sets@.map_values(|r: Vec<Pipe>| pipes_view(r@)),
            out@.len() == k,
            forall|q: int| 0 <= q < k ==> rendered_row(#[trigger] rows[q], out@[q]@),
        decreases sets.len() - k,
    {
        let line = render_pipe_set(&sets[k]);
        let ghost before = out@;
        out.push(line);
        proof {
            assert forall|q: int| 0 <= q < k + 1 implies rendered_row(#[trigger] rows[q], out@[q]@) by {
                if q < k {
                    assert(out@[q] == before[q]);
                }
            }
        }
        k += 1;
    }
    proof {
        assert(pipe_rows_ok(commits@, rows)) by {
            assert forall|k: int| 1 <= k < commits@.len() implies next_pipes_ok(
                rows[k - 1],
                (#[trigger] commits@[k]).hash@,
                commits@[k].parents@,
                rows[k],
            ) by {
                assert(rows[k - 1] == pipes_view(sets@[k - 1]@));
                assert(rows[k] == pipes_view(sets@[k]@));
            }
            if commits@.len() > 0 {
                assert(rows[0] == pipes_view(sets@[0]@));
            }
        }
    }
    out
}

/// A commit row carrying only what the graph needs.
pub fn test_row(hash: &str, parents: &[&str]) -> (r: CommitRow)
    ensures
        r.hash@ == hash@,
        r.parents@.len() == parents@.len(),
        forall|i: int| 0 <= i < parents@.len() ==> (#[trigger] r.parents@[i])@ == parents@[i]@,
        r.author@ == Seq::<char>::empty(),
        r.subject@ == Seq::<char>::empty(),
{
    let mut ps: Vec<String> = Vec::new();
    let mut i: usize = 0;
    while i < parents.len()
        invariant
            i <= parents@.len(),
            ps@.len() == i,
            forall|k: int| 0 <= k < i ==> (#[trigger] ps@[k])@ == parents@[k]@,
        decreases parents.len() - i,
    {
        ps.push(String::from_str(parents[i]));
        i += 1;
    }
    CommitRow { hash: String::from_str(hash), author: String::new(), parents: ps, subject: String::new() }
}


// ---------------------------------------------------------------------------
// The commit node sits at the commit's column
// ---------------------------------------------------------------------------

/// Every start pipe of the row leaves column `pos`, and every terminating
/// pipe ends there.
pub open spec fn row_marks(s: Seq<PipeView>, pos: int) -> bool {
    forall|i: int|
        0 <= i < s.len() ==> ((#[trigger] s[i]).kind == PipeKind::Starts ==> s[i].from_pos == pos) && (s[i].kind
            == PipeKind::Terminates ==> s[i].to_pos == pos)
}

proof fn lemma_marks_push(s: Seq<PipeView>, x: PipeView, pos: int, f: spec_fn(PipeView) -> bool)
    requires
        row_marks(s, pos),
        x.kind == PipeKind::Starts ==> x.from_pos == pos,
        x.kind == PipeKind::Terminates ==> x.to_pos == pos,
    ensures
        row_marks(s.push(x), pos),
        count_where(s.push(x), f) == count_where(s, f) + if f(x) { 1nat } else { 0nat },
{
    assert(s.push(x).drop_last() =~= s);
    assert forall|i: int| 0 <= i < s.push(x).len() implies ((#[trigger] s.push(x)[i]).kind == PipeKind::Starts
        ==> s.push(x)[i].from_pos == pos) && (s.push(x)[i].kind == PipeKind::Terminates ==> s.push(x)[i].to_pos
        == pos) by {
        if i < s.len() {
            assert(s.push(x)[i] == s[i]);
        }
    }
}

proof fn lemma_left_fold_marks(ps: Seq<PipeView>, hash: Seq<char>, pos: int, st: Lanes, f: spec_fn(PipeView) -> bool)
    requires
        row_marks(st.out, pos),
        forall|p: PipeView| #[trigger] f(p) == is_start(p),
    ensures
        row_marks(left_fold(ps, hash, pos, st).out, pos),
        count_where(left_fold(ps, hash, pos, st).out, f) == count_where(st.out, f),
    decreases ps.len(),
{
    if ps.len() > 0 {
        lemma_left_fold_marks(ps.drop_last(), hash, pos, st, f);
        let s1 = left_fold(ps.drop_last(), hash, pos, st);
        let p = ps.last();
        if live(p) && p.to_hash == hash {
            lemma_marks_push(s1.out, terminate_view(p, pos), pos, f);
        } else if live(p) && p.to_pos < pos {
            lemma_marks_push(s1.out, continue_view(p, least_free(s1.trav)), pos, f);
        }
    }
}

proof fn lemma_right_fold_marks(ps: Seq<PipeView>, hash: Seq<char>, pos: int, st: Lanes, f: spec_fn(PipeView) -> bool)
    requires
        row_marks(st.out, pos),
        forall|p: PipeView| #[trigger] f(p) == is_start(p),
    ensures
        row_marks(right_fold(ps, hash, pos, st).out, pos),
        count_where(right_fold(ps, hash, pos, st).out, f) == count_where(st.out, f),
    decreases ps.len(),
{
    if ps.len() > 0 {
        lemma_right_fold_marks(ps.drop_last(), hash, pos, st, f);
        let s1 = right_fold(ps.drop_last(), hash, pos, st);
        let p = ps.last();
        if live(p) && p.to_hash != hash && p.to_pos > pos {
            lemma_marks_push(s1.out, continue_view(p, slide_left(s1.taken, s1.trav, pos, p.to_pos)), pos, f);
        }
    }
}

proof fn lemma_merge_fold_marks(
    parents: Seq<String>,
    hash: Seq<char>,
    pos: int,
    blocked: Set<int>,
    st: Lanes,
    f: spec_fn(PipeView) -> bool,
)
    requires
        row_marks(st.out, pos),
        forall|p: PipeView| #[trigger] f(p) == is_start(p),
    ensures
        row_marks(merge_fold(parents, hash, pos, blocked, st).out, pos),
        count_where(merge_fold(parents, hash, pos, blocked, st).out, f) == count_where(st.out, f) + parents.len(),
    decreases parents.len(),
{
    if parents.len() > 0 {
        lemma_merge_fold_marks(parents.drop_last(), hash, pos, blocked, st, f);
        let s1 = merge_fold(parents.drop_last(), hash, pos, blocked, st);
        let a = least_free(s1.taken.union(blocked));
        lemma_marks_push(s1.out, start_view(pos, a, hash, parents.last()@), pos, f);
    }
}

/// The row as laid out carries the marks, and one start pipe per parent
/// (one for a root commit).
proof fn lemma_next_row_marks(prev: Seq<PipeView>, hash: Seq<char>, parents: Seq<String>, f: spec_fn(PipeView) -> bool)
    requires
        forall|p: PipeView| #[trigger] f(p) == is_start(p),
    ensures
        row_marks(next_row(prev, hash, parents), commit_column(prev, hash)),
        count_where(next_row(prev, hash, parents), f) == if parents.len() >= 2 { parents.len() } else { 1 },
        next_row(prev, hash, parents)[0] == start_view(
            commit_column(prev, hash),
            commit_column(prev, hash),
            hash,
            first_parent(parents),
        ),
        next_row(prev, hash, parents).len() >= 1,
{
    let pos = commit_column(prev, hash);
    let s0 = Lanes { out: seq![start_view(pos, pos, hash, first_parent(parents))], taken: Set::empty(), trav: Set::empty() };
    assert(s0.out.drop_last() =~= Seq::<PipeView>::empty());
    assert(count_where(s0.out.drop_last(), f) == 0);
    assert(f(s0.out.last()));
    assert(count_where(s0.out, f) == 1);
    assert(row_marks(s0.out, pos));
    lemma_left_fold_marks(prev, hash, pos, s0, f);
    lemma_left_fold_keeps_prefix(prev, hash, pos, s0);
    let s1 = left_fold(prev, hash, pos, s0);
    let s2 = if parents.len() >= 2 {
        merge_fold(parents.subrange(1, parents.len() as int), hash, pos, continuing_cols(prev, hash), s1)
    } else {
        s1
    };
    if parents.len() >= 2 {
        lemma_merge_fold_marks(parents.subrange(1, parents.len() as int), hash, pos, continuing_cols(prev, hash), s1, f);
        lemma_merge_fold_keeps_prefix(parents.subrange(1, parents.len() as int), hash, pos, continuing_cols(prev, hash), s1);
    }
    lemma_right_fold_marks(prev, hash, pos, s2, f);
    lemma_right_fold_keeps_prefix(prev, hash, pos, s2);
}

proof fn lemma_left_fold_keeps_prefix(ps: Seq<PipeView>, hash: Seq<char>, pos: int, st: Lanes)
    ensures
        left_fold(ps, hash, pos, st).out.len() >= st.out.len(),
        forall|i: int| 0 <= i < st.out.len() ==> left_fold(ps, hash, pos, st).out[i] == st.out[i],
    decreases ps.len(),
{
    if ps.len() > 0 {
        lemma_left_fold_keeps_prefix(ps.drop_last(), hash, pos, st);
    }
}

proof fn lemma_right_fold_keeps_prefix(ps: Seq<PipeView>, hash: Seq<char>, pos: int, st: Lanes)
    ensures
        right_fold(ps, hash, pos, st).out.len() >= st.out.len(),
        forall|i: int| 0 <= i < st.out.len() ==> right_fold(ps, hash, pos, st).out[i] == st.out[i],
    decreases ps.len(),
{
    if ps.len() > 0 {
        lemma_right_fold_keeps_prefix(ps.drop_last(), hash, pos, st);
    }
}

proof fn lemma_merge_fold_keeps_prefix(parents: Seq<String>, hash: Seq<char>, pos: int, blocked: Set<int>, st: Lanes)
    ensures
        merge_fold(parents, hash, pos, blocked, st).out.len() >= st.out.len(),
        forall|i: int| 0 <= i < st.out.len() ==> merge_fold(parents, hash, pos, blocked, st).out[i] == st.out[i],
    decreases parents.len(),
{
    if parents.len() > 0 {
        lemma_merge_fold_keeps_prefix(parents.drop_last(), hash, pos, blocked, st);
    }
}

proof fn lemma_count_remove(t: Seq<PipeView>, j: int, f: spec_fn(PipeView) -> bool)
    requires
        0 <= j < t.len(),
    ensures
        count_where(t, f) == count_where(t.remove(j), f) + if f(t[j]) { 1nat } else { 0nat },
    decreases t.len(),
{
    if j == t.len() - 1 {
        assert(t.remove(j) =~= t.drop_last());
    } else {
        lemma_count_remove(t.drop_last(), j, f);
        assert(t.remove(j).drop_last() =~= t.drop_last().remove(j));
        assert(t.remove(j).last() == t.last());
    }
}

/// Counting is blind to order.
proof fn lemma_count_multiset(s: Seq<PipeView>, t: Seq<PipeView>, f: spec_fn(PipeView) -> bool)
    requires
        s.to_multiset() == t.to_multiset(),
    ensures
        count_where(s, f) == count_where(t, f),
    decreases s.len(),
{
    broadcast use vstd::seq_lib::group_to_multiset_ensures;

    if s.len() == 0 {
        vstd::seq_lib::to_multiset_len(s);
        vstd::seq_lib::to_multiset_len(t);
        assert(t.len() == 0);
    } else {
        let x = s.last();
        assert(s =~= s.drop_last().push(x));
        assert(s.to_multiset().count(x) > 0);
        assert(t.to_multiset().count(x) > 0);
        assert(t.contains(x));
        let j = choose|j: int| 0 <= j < t.len() && t[j] == x;
        assert(t.remove(j).to_multiset() =~= t.to_multiset().remove(x));
        assert(s.drop_last().to_multiset() =~= s.to_multiset().remove(x));
        lemma_count_multiset(s.drop_last(), t.remove(j), f);
        lemma_count_remove(t, j, f);
    }
}

/// With the marks, the commit column is read back from any start or
/// terminating pipe.
proof fn lemma_commit_pos_of_marks(s: Seq<PipeView>, pos: int, k: int)
    requires
        row_marks(s, pos),
        0 <= k < s.len(),
        s[k].kind == PipeKind::Starts,
    ensures
        commit_pos_of(s) == pos,
    decreases s.len(),
{
    let l = s.last();
    if l.kind != PipeKind::Starts && l.kind != PipeKind::Terminates {
        assert(k < s.len() - 1);
        assert(row_marks(s.drop_last(), pos)) by {
            assert forall|i: int| 0 <= i < s.drop_last().len() implies ((#[trigger] s.drop_last()[i]).kind
                == PipeKind::Starts ==> s.drop_last()[i].from_pos == pos) && (s.drop_last()[i].kind
                == PipeKind::Terminates ==> s.drop_last()[i].to_pos == pos) by {
                assert(s.drop_last()[i] == s[i]);
            }
        }
        assert(s.drop_last()[k] == s[k]);
        lemma_commit_pos_of_marks(s.drop_last(), pos, k);
    } else {
        assert(s[s.len() - 1] == l);
    }
}

proof fn lemma_max_right_covers(s: Seq<PipeView>, k: int)
    requires
        0 <= k < s.len(),
    ensures
        s[k].right() <= max_right(s),
    decreases s.len(),
{
    if k < s.len() - 1 {
        assert(s.drop_last()[k] == s[k]);
        lemma_max_right_covers(s.drop_last(), k);
    }
}

/// The commit is drawn at its own column: on every row that a transition
/// produces, the node glyph sits in the commit's column, painted as a
/// node, and it is the merge glyph exactly when the commit has more than
/// one parent.
pub proof fn law_commit_node_at_commit_column(
    prev: Seq<PipeView>,
    hash: Seq<char>,
    parents: Seq<String>,
    next: Seq<PipeView>,
    out: Seq<GraphSpan>,
)
    requires
        next_pipes_ok(prev, hash, parents, next),
        rendered_row(next, out),
        0 <= commit_column(prev, hash),
    ensures
        commit_pos_of(next) == commit_column(prev, hash),
        0 <= 2 * commit_column(prev, hash) < out.len(),
        out[2 * commit_column(prev, hash)] == (GraphSpan {
            text: if parents.len() >= 2 { '◎' } else { '○' },
            style: SpanStyle::Node,
        }),
{
    broadcast use vstd::seq_lib::group_to_multiset_ensures;

    let pos = commit_column(prev, hash);
    let laid = next_row(prev, hash, parents);
    let f = |p: PipeView| is_start(p);
    lemma_next_row_marks(prev, hash, parents, f);
    assert(row_marks(next, pos)) by {
        assert forall|i: int| 0 <= i < next.len() implies ((#[trigger] next[i]).kind == PipeKind::Starts
            ==> next[i].from_pos == pos) && (next[i].kind == PipeKind::Terminates ==> next[i].to_pos == pos) by {
            assert(next.to_multiset().count(next[i]) > 0);
            assert(laid.to_multiset().count(next[i]) > 0);
            assert(laid.contains(next[i]));
            let k = choose|k: int| 0 <= k < laid.len() && laid[k] == next[i];
            assert(laid[k] == next[i]);
        }
    }
    let st = start_view(pos, pos, hash, first_parent(parents));
    assert(next.contains(st));
    let k = choose|k: int| 0 <= k < next.len() && next[k] == st;
    lemma_commit_pos_of_marks(next, pos, k);
    lemma_max_right_covers(next, k);
    lemma_count_multiset(next, laid, f);
    assert(count_where(next, |p: PipeView| is_start(p)) == count_where(next, f));
}

/// The pipes a commit starts and ends on its row: one start per parent
/// (one for a root commit), every one leaving the commit's column, and
/// every terminating pipe ending there.
pub proof fn law_row_starts_and_ends(prev: Seq<PipeView>, hash: Seq<char>, parents: Seq<String>, next: Seq<PipeView>)
    requires
        next_pipes_ok(prev, hash, parents, next),
    ensures
        count_where(next, |p: PipeView| is_start(p)) == if parents.len() >= 2 { parents.len() } else { 1 },
        row_marks(next, commit_column(prev, hash)),
{
    broadcast use vstd::seq_lib::group_to_multiset_ensures;

    let pos = commit_column(prev, hash);
    let laid = next_row(prev, hash, parents);
    let f = |p: PipeView| is_start(p);
    lemma_next_row_marks(prev, hash, parents, f);
    assert forall|i: int| 0 <= i < next.len() implies ((#[trigger] next[i]).kind == PipeKind::Starts
        ==> next[i].from_pos == pos) && (next[i].kind == PipeKind::Terminates ==> next[i].to_pos == pos) by {
        assert(next.to_multiset().count(next[i]) > 0);
        assert(laid.to_multiset().count(next[i]) > 0);
        assert(laid.contains(next[i]));
    }
    lemma_count_multiset(next, laid, f);
    assert(count_where(next, |p: PipeView| is_start(p)) == count_where(next, f));
}

/// A rendered row has two spans per column up to the rightmost one any
/// pipe touches; every gap span between two columns is a horizontal
/// stroke or a blank, and every connector span in a column is a
/// box-drawing glyph or a blank.
pub proof fn law_rendered_row_shape(s: Seq<PipeView>, out: Seq<GraphSpan>, k: int)
    requires
        rendered_row(s, out),
        0 <= k < out.len(),
    ensures
        out.len() == 2 * (max_right(s) + 1),
        k % 2 == 1 ==> out[k].text == '─' || out[k].text == ' ',
        k % 2 == 1 ==> out[k].style == SpanStyle::Connector,
        k % 2 == 0 && k / 2 != commit_pos_of(s) ==> out[k].style == SpanStyle::Connector,
        k % 2 == 0 && k / 2 == commit_pos_of(s) ==> out[k].style == SpanStyle::Node && (out[k].text == '◎'
            || out[k].text == '○'),
{
    let c = k / 2;
    lemma_max_right_nonneg(s);
    assert(0 <= c <= max_right(s));
    if k % 2 == 0 {
        assert(k == 2 * c);
        assert(out[2 * c] == (GraphSpan {
            text: glyph_at(s, c),
            style: if c == commit_pos_of(s) { SpanStyle::Node } else { SpanStyle::Connector },
        }));
    } else {
        assert(k == 2 * c + 1);
        assert(out[2 * c] == out[2 * c]);
        assert(out[2 * c + 1] == (GraphSpan { text: filler_at(s, c), style: SpanStyle::Connector }));
    }
}

/// The arms of a box-drawing glyph, as drawn: `(up, down, left, right)`.
pub open spec fn glyph_arms(g: char) -> Option<(bool, bool, bool, bool)> {
    if g == '│' {
        Some((true, true, false, false))
    } else if g == '┴' {
        Some((true, false, true, true))
    } else if g == '╯' {
        Some((true, false, true, false))
    } else if g == '╰' {
        Some((true, false, false, true))
    } else if g == '╵' {
        Some((true, false, false, false))
    } else if g == '┬' {
        Some((false, true, true, true))
    } else if g == '╮' {
        Some((false, true, true, false))
    } else if g == '╭' {
        Some((false, true, false, true))
    } else if g == '╷' {
        Some((false, true, false, false))
    } else if g == '─' {
        Some((false, false, true, true))
    } else if g == '╶' {
        Some((false, false, false, true))
    } else if g == ' ' {
        Some((false, false, false, false))
    } else {
        None
    }
}

/// A cell's glyph shows its strokes: a lane through the cell (up and
/// down) is a vertical bar; otherwise the glyph has an arm up exactly when
/// the cell is stroked up, down exactly when stroked down, left exactly
/// when stroked left, and, when it has an arm up or down, right exactly
/// when stroked right (a lone horizontal stroke is drawn across the whole
/// cell, a lone right stroke as a half stroke). The gap after the cell is
/// a horizontal stroke exactly when the cell connects right.
pub proof fn law_glyph_shows_strokes(up: bool, down: bool, left: bool, right: bool)
    ensures
        up && down ==> box_chars(up, down, left, right).0 == '│',
        !(up && down) ==> (glyph_arms(box_chars(up, down, left, right).0) matches Some((u, d, l, r)) && u == up && d
            == down && l == left && ((up || down || !left) ==> r == right)),
        box_chars(up, down, left, right).1 == (if right { '─' } else { ' ' }),
{
}

} // verus!
