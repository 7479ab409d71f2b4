//! Wrapping styled runs to a column budget. The wrap works on rendered
//! widths, after the inline parse, and carries each run's role across a
//! break. A row that already fits is emitted untouched, a word wider than a
//! row is hard split, and the prefixes (`first` on row zero, `hang` after
//! it) are structure this module inserts, never the author's text.

use vstd::prelude::*;
use crate::markdown::Emphasis;
use crate::text::{is_whitespace, sub_chars, unicode_whitespace};

verus! {

/// A run of characters sharing one role, as the contracts see it.
pub struct Styled {
    pub text: Seq<char>,
    pub emphasis: Emphasis,
}

/// A run of characters sharing one role, as the renderer builds it.
pub struct Piece {
    pub text: Vec<char>,
    pub emphasis: Emphasis,
}

impl View for Piece {
    type V = Styled;

    open spec fn view(&self) -> Styled {
        Styled { text: self.text@, emphasis: self.emphasis }
    }
}

pub open spec fn runs_of(v: Seq<Piece>) -> Seq<Styled> {
    v.map_values(|p: Piece| p@)
}

pub open spec fn rows_of(v: Seq<Vec<Piece>>) -> Seq<Seq<Styled>> {
    v.map_values(|r: Vec<Piece>| runs_of(r@))
}

/// Columns a row of runs occupies.
pub open spec fn width(runs: Seq<Styled>) -> nat
    decreases runs.len(),
{
    if runs.len() == 0 {
        0
    } else {
        width(runs.drop_last()) + runs.last().text.len()
    }
}

pub proof fn lemma_width_concat(a: Seq<Styled>, b: Seq<Styled>)
    ensures
        width(a + b) == width(a) + width(b),
    decreases b.len(),
{
    if b.len() == 0 {
        assert(a + b =~= a);
    } else {
        assert((a + b).drop_last() =~= a + b.drop_last());
        lemma_width_concat(a, b.drop_last());
    }
}

/// Whether every character of `s` is whitespace (`str::trim` leaves nothing).
pub open spec fn all_ws(s: Seq<char>) -> bool {
    forall|i: int| 0 <= i < s.len() ==> unicode_whitespace(#[trigger] s[i])
}

/// Length of the run from `i` on whose characters are whitespace exactly
/// when `w` is.
pub open spec fn class_run(s: Seq<char>, i: int, w: bool) -> nat
    decreases s.len() - i,
{
    if 0 <= i < s.len() && unicode_whitespace(s[i]) == w {
        1 + class_run(s, i + 1, w)
    } else {
        0
    }
}

/// `s` cut into words and the whitespace runs between them, in order: a
/// break can drop the space it broke on, an unbroken row keeps it exactly.
pub open spec fn words_of(s: Seq<char>) -> Seq<Seq<char>>
    decreases s.len(),
{
    if s.len() == 0 {
        Seq::empty()
    } else {
        let k = class_run(s, 0, unicode_whitespace(s[0]));
        if 0 < k <= s.len() {
            seq![s.take(k as int)] + words_of(s.skip(k as int))
        } else {
            Seq::empty()
        }
    }
}

proof fn lemma_class_run(s: Seq<char>, i: int, w: bool, j: int)
    requires
        0 <= i <= j <= s.len(),
        forall|q: int| i <= q < j ==> unicode_whitespace(#[trigger] s[q]) == w,
        j == s.len() || unicode_whitespace(s[j]) != w,
    ensures
        class_run(s, i, w) == j - i,
    decreases j - i,
{
    if i < j {
        lemma_class_run(s, i + 1, w, j);
    }
}

proof fn lemma_class_run_shift(s: Seq<char>, i: int, w: bool)
    requires
        0 <= i <= s.len(),
    ensures
        class_run(s.skip(i), 0, w) == class_run(s, i, w),
    decreases s.len() - i,
{
    if i < s.len() && unicode_whitespace(s[i]) == w {
        lemma_class_run_shift(s, i + 1, w);
        assert(class_run(s.skip(i), 1, w) == class_run(s.skip(i + 1), 0, w)) by {
            lemma_class_run_tail(s.skip(i), w);
            assert(s.skip(i).skip(1) =~= s.skip(i + 1));
        }
    }
}

proof fn lemma_class_run_tail(s: Seq<char>, w: bool)
    requires
        s.len() > 0,
    ensures
        class_run(s, 1, w) == class_run(s.skip(1), 0, w),
{
    lemma_class_run_offset(s, 1, w);
}

proof fn lemma_class_run_offset(s: Seq<char>, i: int, w: bool)
    requires
        1 <= i <= s.len(),
    ensures
        class_run(s, i, w) == class_run(s.skip(1), i - 1, w),
    decreases s.len() - i,
{
    if i < s.len() && unicode_whitespace(s[i]) == w {
        lemma_class_run_offset(s, i + 1, w);
    }
}

/// The words and whitespace runs of `text`.
pub fn words(text: &[char]) -> (r: Vec<Vec<char>>)
    ensures
        r@.map_values(|p: Vec<char>| p@) == words_of(text@),
{
    let mut out: Vec<Vec<char>> = Vec::new();
    let mut i: usize = 0;
    proof {
        assert(text@.skip(0) =~= text@);
        assert(out@.map_values(|p: Vec<char>| p@) =~= Seq::<Seq<char>>::empty());
    }
    while i < text.len()
        invariant
            i <= text@.len(),
            out@.map_values(|p: Vec<char>| p@) + words_of(text@.skip(i as int)) == words_of(text@),
        decreases text.len() - i,
    {
        let ghost rest = text@.skip(i as int);
        let w = is_whitespace(text[i]);
        let mut j = i + 1;
        while j < text.len() && is_whitespace(text[j]) == w
            invariant
                i < j <= text@.len(),
                w == unicode_whitespace(text@[i as int]),
                forall|q: int| i <= q < j ==> unicode_whitespace(#[trigger] text@[q]) == w,
            decreases text.len() - j,
        {
            j += 1;
        }
        let mut piece: Vec<char> = Vec::new();
        let mut k = i;
        while k < j
            invariant
                i <= k <= j <= text@.len(),
                piece@ == text@.subrange(i as int, k as int),
            decreases j - k,
        {
            piece.push(text[k]);
            proof {
                assert(text@.subrange(i as int, k + 1) =~= text@.subrange(i as int, k as int).push(text@[k as int]));
            }
            k += 1;
        }
        proof {
            lemma_class_run(text@, i as int, w, j as int);
            lemma_class_run_shift(text@, i as int, w);
            assert(rest[0] == text@[i as int]);
            assert(rest.take(j - i) =~= piece@);
            assert(rest.skip(j - i) =~= text@.skip(j as int));
            assert(words_of(rest) == seq![piece@] + words_of(text@.skip(j as int)));
        }
        let ghost before = out@;
        out.push(piece);
        proof {
            assert(out@.map_values(|p: Vec<char>| p@) =~= before.map_values(|p: Vec<char>| p@).push(piece@));
            assert(out@.map_values(|p: Vec<char>| p@) + words_of(text@.skip(j as int))
                =~= before.map_values(|p: Vec<char>| p@) + (seq![piece@] + words_of(text@.skip(j as int))));
        }
        i = j;
    }
    proof {
        assert(text@.skip(text@.len() as int) =~= Seq::<char>::empty());
        assert(out@.map_values(|p: Vec<char>| p@) + Seq::<Seq<char>>::empty() =~= out@.map_values(|p: Vec<char>| p@));
    }
    out
}

/// `row` with `text` appended: merged into the last run when the role
/// matches, so a wrapped line does not become one run per word.
pub open spec fn push_run(row: Seq<Styled>, text: Seq<char>, e: Emphasis) -> Seq<Styled> {
    if row.len() > 0 && row.last().emphasis == e {
        row.update(row.len() - 1, Styled { text: row.last().text + text, emphasis: e })
    } else {
        row.push(Styled { text, emphasis: e })
    }
}

pub proof fn lemma_push_run_width(row: Seq<Styled>, text: Seq<char>, e: Emphasis)
    ensures
        width(push_run(row, text, e)) == width(row) + text.len(),
{
    if row.len() > 0 && row.last().emphasis == e {
        let r = push_run(row, text, e);
        assert(r.drop_last() =~= row.drop_last());
    } else {
        assert(push_run(row, text, e).drop_last() =~= row);
    }
}

fn push_text(row: &mut Vec<Piece>, text: Vec<char>, e: Emphasis)
    ensures
        runs_of(final(row)@) == push_run(runs_of(old(row)@), text@, e),
{
    let n = row.len();
    if n > 0 && row[n - 1].emphasis == e {
        let mut last = row.pop().unwrap();
        let ghost t0 = last.text@;
        let mut k: usize = 0;
        while k < text.len()
            invariant
                k <= text@.len(),
                last.text@ == t0 + text@.take(k as int),
                last.emphasis == e,
            decreases text.len() - k,
        {
            last.text.push(text[k]);
            proof {
                assert(text@.take(k + 1) =~= text@.take(k as int).push(text@[k as int]));
            }
            k += 1;
        }
        proof {
            assert(text@.take(text@.len() as int) =~= text@);
        }
        row.push(last);
        proof {
            assert(runs_of(row@) =~= push_run(runs_of(old(row)@), text@, e));
        }
    } else {
        row.push(Piece { text, emphasis: e });
        proof {
            assert(runs_of(row@) =~= push_run(runs_of(old(row)@), text@, e));
        }
    }
}

/// The budget and the two prefixes a wrap works with.
pub struct WrapParams {
    pub budget: nat,
    pub first: Seq<char>,
    pub hang: Seq<char>,
}

impl WrapParams {
    /// The prefix of row `k`: `first` on row zero, `hang` after it.
    pub open spec fn prefix(self, k: nat) -> Seq<char> {
        if k == 0 {
            self.first
        } else {
            self.hang
        }
    }

    /// Columns left for text on row `k`, never less than one.
    pub open spec fn room(self, k: nat) -> nat {
        if self.budget > self.prefix(k).len() {
            (self.budget - self.prefix(k).len()) as nat
        } else {
            1
        }
    }

    /// The prefix of row `k` as a run, or nothing when it is empty.
    pub open spec fn lead(self, k: nat) -> Seq<Styled> {
        if self.prefix(k).len() == 0 {
            Seq::empty()
        } else {
            seq![Styled { text: self.prefix(k), emphasis: Emphasis::Marker }]
        }
    }
}

/// Rows already closed, the row being filled, and its width.
pub struct WrapState {
    pub rows: Seq<Seq<Styled>>,
    pub row: Seq<Styled>,
    pub cols: nat,
}

/// Place a word too wide for the row it would go on: cut it into rows of
/// exactly the room each has, and leave the tail on the open row.
pub open spec fn hard_split(p: WrapParams, st: WrapState, rest: Seq<char>, e: Emphasis) -> WrapState
    decreases rest.len(),
{
    let room = p.room(st.rows.len());
    if rest.len() <= room {
        if rest.len() > 0 {
            WrapState { rows: st.rows, row: push_run(st.row, rest, e), cols: rest.len() }
        } else {
            st
        }
    } else if room > 0 {
        hard_split(
            p,
            WrapState { rows: st.rows.push(push_run(st.row, rest.take(room as int), e)), row: Seq::empty(), cols: st.cols },
            rest.skip(room as int),
            e,
        )
    } else {
        st
    }
}

/// One word (or whitespace run) placed. Whitespace never opens a row: a
/// break eats the space it broke on.
pub open spec fn step_word(p: WrapParams, st: WrapState, w: Seq<char>, e: Emphasis) -> WrapState {
    let room = p.room(st.rows.len());
    if all_ws(w) {
        if st.cols > 0 && st.cols + w.len() <= room {
            WrapState { rows: st.rows, row: push_run(st.row, w, e), cols: st.cols + w.len() }
        } else {
            st
        }
    } else if st.cols + w.len() > room {
        let st1 = if st.cols > 0 {
            WrapState { rows: st.rows.push(st.row), row: Seq::empty(), cols: 0 }
        } else {
            st
        };
        hard_split(p, st1, w, e)
    } else {
        WrapState { rows: st.rows, row: push_run(st.row, w, e), cols: st.cols + w.len() }
    }
}

pub open spec fn fold_words(p: WrapParams, st: WrapState, ws: Seq<Seq<char>>, e: Emphasis) -> WrapState
    decreases ws.len(),
{
    if ws.len() == 0 {
        st
    } else {
        step_word(p, fold_words(p, st, ws.drop_last(), e), ws.last(), e)
    }
}

pub open spec fn fold_runs(p: WrapParams, runs: Seq<Styled>) -> WrapState
    decreases runs.len(),
{
    if runs.len() == 0 {
        WrapState { rows: Seq::empty(), row: Seq::empty(), cols: 0 }
    } else {
        fold_words(p, fold_runs(p, runs.drop_last()), words_of(runs.last().text), runs.last().emphasis)
    }
}

/// The rows once the open one is closed; never none at all.
pub open spec fn finish(st: WrapState) -> Seq<Seq<Styled>> {
    let rows = if st.row.len() > 0 {
        st.rows.push(st.row)
    } else {
        st.rows
    };
    if rows.len() == 0 {
        seq![Seq::empty()]
    } else {
        rows
    }
}

/// The parameters a wrap runs with: the budget at least one, and both
/// prefixes dropped when either would leave fewer than eight columns.
pub open spec fn params(budget: nat, first: Seq<char>, hang: Seq<char>) -> WrapParams {
    let b: nat = if budget == 0 { 1 } else { budget };
    if first.len() + 8 > b || hang.len() + 8 > b {
        WrapParams { budget: b, first: Seq::empty(), hang: Seq::empty() }
    } else {
        WrapParams { budget: b, first, hang }
    }
}

/// `runs` wrapped to `budget`, `first` before row zero and `hang` before
/// every row after it.
pub open spec fn wrap_spec(runs: Seq<Styled>, budget: nat, first: Seq<char>, hang: Seq<char>) -> Seq<Seq<Styled>> {
    let p = params(budget, first, hang);
    if p.first.len() + width(runs) <= p.budget {
        seq![p.lead(0) + runs]
    } else {
        let rows = finish(fold_runs(p, runs));
        Seq::new(rows.len(), |i: int| p.lead(i as nat) + rows[i])
    }
}

/// The wrap's invariant: every closed row fits the room of its index, and
/// the open row fits the room of the next.
pub open spec fn fits(p: WrapParams, st: WrapState) -> bool {
    &&& forall|k: int| 0 <= k < st.rows.len() ==> width(#[trigger] st.rows[k]) <= p.room(k as nat)
    &&& st.cols == width(st.row)
    &&& st.cols <= p.room(st.rows.len())
}

proof fn lemma_hard_split_fits(p: WrapParams, st: WrapState, rest: Seq<char>, e: Emphasis)
    requires
        fits(p, st),
        st.cols == 0,
    ensures
        fits(p, hard_split(p, st, rest, e)),
    decreases rest.len(),
{
    let room = p.room(st.rows.len());
    assert(width(st.row) == 0);
    if rest.len() <= room {
        lemma_push_run_width(st.row, rest, e);
    } else if room > 0 {
        let cut = push_run(st.row, rest.take(room as int), e);
        lemma_push_run_width(st.row, rest.take(room as int), e);
        let st2 = WrapState { rows: st.rows.push(cut), row: Seq::empty(), cols: st.cols };
        assert forall|k: int| 0 <= k < st2.rows.len() implies width(#[trigger] st2.rows[k]) <= p.room(k as nat) by {
            if k < st.rows.len() {
                assert(st2.rows[k] == st.rows[k]);
            }
        }
        lemma_hard_split_fits(p, st2, rest.skip(room as int), e);
    }
}

proof fn lemma_step_fits(p: WrapParams, st: WrapState, w: Seq<char>, e: Emphasis)
    requires
        fits(p, st),
    ensures
        fits(p, step_word(p, st, w, e)),
{
    let room = p.room(st.rows.len());
    lemma_push_run_width(st.row, w, e);
    if all_ws(w) {
    } else if st.cols + w.len() > room {
        if st.cols > 0 {
            let st1 = WrapState { rows: st.rows.push(st.row), row: Seq::empty(), cols: 0 };
            assert forall|k: int| 0 <= k < st1.rows.len() implies width(#[trigger] st1.rows[k]) <= p.room(k as nat) by {
                if k < st.rows.len() {
                    assert(st1.rows[k] == st.rows[k]);
                }
            }
            lemma_hard_split_fits(p, st1, w, e);
        } else {
            lemma_hard_split_fits(p, st, w, e);
        }
    }
}

proof fn lemma_fold_words_fits(p: WrapParams, st: WrapState, ws: Seq<Seq<char>>, e: Emphasis)
    requires
        fits(p, st),
    ensures
        fits(p, fold_words(p, st, ws, e)),
    decreases ws.len(),
{
    if ws.len() > 0 {
        lemma_fold_words_fits(p, st, ws.drop_last(), e);
        lemma_step_fits(p, fold_words(p, st, ws.drop_last(), e), ws.last(), e);
    }
}

proof fn lemma_fold_runs_fits(p: WrapParams, runs: Seq<Styled>)
    ensures
        fits(p, fold_runs(p, runs)),
    decreases runs.len(),
{
    if runs.len() > 0 {
        lemma_fold_runs_fits(p, runs.drop_last());
        lemma_fold_words_fits(p, fold_runs(p, runs.drop_last()), words_of(runs.last().text), runs.last().emphasis);
    }
}

/// Every row a wrap produces fits the budget, prefix included.
pub proof fn lemma_wrap_fits(runs: Seq<Styled>, budget: nat, first: Seq<char>, hang: Seq<char>)
    ensures
        forall|i: int| 0 <= i < wrap_spec(runs, budget, first, hang).len()
            ==> width(#[trigger] wrap_spec(runs, budget, first, hang)[i]) <= (if budget == 0 { 1 } else { budget }),
        wrap_spec(runs, budget, first, hang).len() >= 1,
{
    let p = params(budget, first, hang);
    assert(p.budget >= 1);
    assert(p.first.len() == 0 || p.first.len() + 8 <= p.budget);
    assert(p.hang.len() == 0 || p.hang.len() + 8 <= p.budget);
    assert forall|k: nat| p.prefix(k).len() + p.room(k) <= p.budget && width(#[trigger] p.lead(k)) == p.prefix(k).len() by {
        assert(width(Seq::<Styled>::empty()) == 0);
        if p.prefix(k).len() > 0 {
            assert(p.lead(k).drop_last() =~= Seq::<Styled>::empty());
        }
        if k == 0 {
            assert(p.prefix(k) == p.first);
        } else {
            assert(p.prefix(k) == p.hang);
        }
    }
    if p.first.len() + width(runs) <= p.budget {
        lemma_width_concat(p.lead(0), runs);
    } else {
        let st = fold_runs(p, runs);
        lemma_fold_runs_fits(p, runs);
        let rows = finish(st);
        assert forall|k: int| 0 <= k < rows.len() implies width(#[trigger] rows[k]) <= p.room(k as nat) by {
            if k < st.rows.len() {
            }
        }
        let out = Seq::new(rows.len(), |i: int| p.lead(i as nat) + rows[i]);
        assert forall|i: int| 0 <= i < out.len() implies width(#[trigger] out[i]) <= p.budget by {
            lemma_width_concat(p.lead(i as nat), rows[i]);
        }
    }
}

/// A row that already fits is emitted untouched: one row, the prefix and
/// then the runs exactly as they came, runs of spaces and hand-made
/// alignment included.
pub proof fn law_fitting_row_untouched(runs: Seq<Styled>, budget: nat, first: Seq<char>, hang: Seq<char>)
    requires
        first.len() + 8 <= budget,
        hang.len() + 8 <= budget,
        first.len() + width(runs) <= budget,
    ensures
        wrap_spec(runs, budget, first, hang) == seq![(if first.len() == 0 {
            Seq::<Styled>::empty()
        } else {
            seq![Styled { text: first, emphasis: Emphasis::Marker }]
        }) + runs],
{
}

/// Whether every character of `s` is whitespace.
pub fn all_whitespace(s: &[char]) -> (r: bool)
    ensures
        r == all_ws(s@),
{
    let mut k: usize = 0;
    while k < s.len()
        invariant
            k <= s@.len(),
            forall|q: int| 0 <= q < k ==> unicode_whitespace(#[trigger] s@[q]),
        decreases s.len() - k,
    {
        if !is_whitespace(s[k]) {
            return false;
        }
        k += 1;
    }
    true
}

/// The wrap's working state.
struct Wrapper {
    rows: Vec<Vec<Piece>>,
    row: Vec<Piece>,
    cols: usize,
}

impl Wrapper {
    spec fn state(&self) -> WrapState {
        WrapState { rows: rows_of(self.rows@), row: runs_of(self.row@), cols: self.cols as nat }
    }

    /// Close the open row.
    fn close_row(&mut self)
        ensures
            final(self).state() == (WrapState {
                rows: old(self).state().rows.push(old(self).state().row),
                row: Seq::empty(),
                cols: old(self).cols as nat,
            }),
    {
        let mut r: Vec<Piece> = Vec::new();
        std::mem::swap(&mut r, &mut self.row);
        let ghost before = self.rows@;
        self.rows.push(r);
        proof {
            assert(rows_of(self.rows@) =~= rows_of(before).push(runs_of(r@)));
            assert(runs_of(self.row@) =~= Seq::<Styled>::empty());
        }
    }
}

spec fn exec_params(budget: usize, first: Seq<char>, hang: Seq<char>) -> WrapParams {
    WrapParams { budget: budget as nat, first, hang }
}

fn room_of(budget: usize, first: &[char], hang: &[char], k: usize) -> (r: usize)
    ensures
        r == exec_params(budget, first@, hang@).room(k as nat),
{
    let pl = if k == 0 { first.len() } else { hang.len() };
    if budget > pl {
        budget - pl
    } else {
        1
    }
}

fn hard_split_exec(wr: &mut Wrapper, budget: usize, first: &[char], hang: &[char], w: &[char], e: Emphasis)
    ensures
        final(wr).state() == hard_split(exec_params(budget, first@, hang@), old(wr).state(), w@, e),
{
    let ghost p = exec_params(budget, first@, hang@);
    let ghost goal = hard_split(p, wr.state(), w@, e);
    let mut s: usize = 0;
    proof {
        assert(w@.skip(0) =~= w@);
    }
    loop
        invariant
            s <= w@.len(),
            hard_split(p, wr.state(), w@.skip(s as int), e) == goal,
            goal == hard_split(p, old(wr).state(), w@, e),
            p == exec_params(budget, first@, hang@),
        decreases w.len() - s,
    {
        let room = room_of(budget, first, hang, wr.rows.len());
        let left = w.len() - s;
        let ghost st = wr.state();
        let ghost rest = w@.skip(s as int);
        assert(st.rows.len() == wr.rows@.len());
        assert(rest.len() == left);
        if left <= room {
            if left > 0 {
                let piece = sub_chars(w, s, w.len());
                proof {
                    assert(piece@ =~= w@.skip(s as int));
                }
                push_text(&mut wr.row, piece, e);
                wr.cols = left;
                proof {
                    assert(wr.state().rows == st.rows);
                    assert(wr.state().row == push_run(st.row, rest, e));
                    assert(wr.state() == hard_split(p, st, rest, e));
                }
            } else {
                assert(wr.state() == hard_split(p, st, rest, e));
            }
            return;
        }
        let cut = sub_chars(w, s, s + room);
        proof {
            assert(cut@ =~= w@.skip(s as int).take(room as int));
            assert(w@.skip(s as int).skip(room as int) =~= w@.skip(s + room));
        }
        push_text(&mut wr.row, cut, e);
        wr.close_row();
        s = s + room;
    }
}

fn step_exec(wr: &mut Wrapper, budget: usize, first: &[char], hang: &[char], w: &[char], e: Emphasis)
    requires
        fits(exec_params(budget, first@, hang@), old(wr).state()),
    ensures
        final(wr).state() == step_word(exec_params(budget, first@, hang@), old(wr).state(), w@, e),
        fits(exec_params(budget, first@, hang@), final(wr).state()),
{
    proof {
        lemma_step_fits(exec_params(budget, first@, hang@), wr.state(), w@, e);
    }
    let room = room_of(budget, first, hang, wr.rows.len());
    let wc = w.len();
    if all_whitespace(w) {
        if wr.cols > 0 && wc <= room - wr.cols {
            let t = sub_chars(w, 0, wc);
            proof {
                assert(t@ =~= w@);
            }
            push_text(&mut wr.row, t, e);
            wr.cols = wr.cols + wc;
        }
    } else if wc > room - wr.cols {
        if wr.cols > 0 {
            wr.close_row();
            wr.cols = 0;
        }
        hard_split_exec(wr, budget, first, hang, w, e);
    } else {
        let t = sub_chars(w, 0, wc);
        proof {
            assert(t@ =~= w@);
        }
        push_text(&mut wr.row, t, e);
        wr.cols = wr.cols + wc;
    }
}

/// Whether `lead` columns plus the runs fit in `budget`.
fn fits_in(runs: &Vec<Piece>, lead: usize, budget: usize) -> (r: bool)
    ensures
        r == (lead + width(runs_of(runs@)) <= budget),
{
    if lead > budget {
        proof {
            lemma_width_nonneg(runs_of(runs@));
        }
        return false;
    }
    let mut acc = lead;
    let mut i: usize = 0;
    while i < runs.len()
        invariant
            i <= runs@.len(),
            acc == lead + width(runs_of(runs@).take(i as int)),
            acc <= budget,
        decreases runs.len() - i,
    {
        proof {
            assert(runs_of(runs@).take(i + 1).drop_last() =~= runs_of(runs@).take(i as int));
        }
        let n = runs[i].text.len();
        if n > budget - acc {
            proof {
                lemma_width_prefix(runs_of(runs@), i + 1);
            }
            return false;
        }
        acc = acc + n;
        i += 1;
    }
    proof {
        assert(runs_of(runs@).take(runs@.len() as int) =~= runs_of(runs@));
    }
    true
}

proof fn lemma_width_nonneg(runs: Seq<Styled>)
    ensures
        width(runs) >= 0,
{
}

proof fn lemma_width_prefix(runs: Seq<Styled>, i: int)
    requires
        0 <= i <= runs.len(),
    ensures
        width(runs.take(i)) <= width(runs),
    decreases runs.len() - i,
{
    if i < runs.len() {
        lemma_width_prefix(runs, i + 1);
        assert(runs.take(i + 1).drop_last() =~= runs.take(i));
    } else {
        assert(runs.take(i) =~= runs);
    }
}

fn lead_exec(prefix: &[char]) -> (r: Vec<Piece>)
    ensures
        runs_of(r@) == (if prefix@.len() == 0 {
            Seq::<Styled>::empty()
        } else {
            seq![Styled { text: prefix@, emphasis: Emphasis::Marker }]
        }),
{
    let mut r: Vec<Piece> = Vec::new();
    if prefix.len() > 0 {
        let t = sub_chars(prefix, 0, prefix.len());
        proof {
            assert(t@ =~= prefix@);
        }
        r.push(Piece { text: t, emphasis: Emphasis::Marker });
    }
    proof {
        assert(runs_of(r@) =~= (if prefix@.len() == 0 {
            Seq::<Styled>::empty()
        } else {
            seq![Styled { text: prefix@, emphasis: Emphasis::Marker }]
        }));
    }
    r
}

fn append_pieces(dst: &mut Vec<Piece>, src: Vec<Piece>)
    ensures
        runs_of(final(dst)@) == runs_of(old(dst)@) + runs_of(src@),
{
    let ghost s0 = src@;
    let mut src = src;
    dst.append(&mut src);
    proof {
        assert(runs_of(dst@) =~= runs_of(old(dst)@) + runs_of(s0));
    }
}

/// `runs` wrapped to `budget`, `first` before row zero and `hang` before
/// every row after it.
pub fn wrap_rows(runs: Vec<Piece>, budget: usize, first: &[char], hang: &[char]) -> (r: Vec<Vec<Piece>>)
    ensures
        rows_of(r@) == wrap_spec(runs_of(runs@), budget as nat, first@, hang@),
{
    let b: usize = if budget == 0 { 1 } else { budget };
    let drop = b < 8 || first.len() > b - 8 || hang.len() > b - 8;
    let f: Vec<char> = if drop { Vec::new() } else { sub_chars(first, 0, first.len()) };
    let h: Vec<char> = if drop { Vec::new() } else { sub_chars(hang, 0, hang.len()) };
    let ghost p = params(budget as nat, first@, hang@);
    proof {
        assert(f@ =~= p.first);
        assert(h@ =~= p.hang);
        assert(p == exec_params(b, f@, h@));
    }
    if fits_in(&runs, f.len(), b) {
        let mut row = lead_exec(f.as_slice());
        append_pieces(&mut row, runs);
        let mut out: Vec<Vec<Piece>> = Vec::new();
        out.push(row);
        proof {
            assert(rows_of(out@) =~= seq![p.lead(0) + runs_of(runs@)]);
        }
        return out;
    }
    let mut wr = Wrapper { rows: Vec::new(), row: Vec::new(), cols: 0 };
    proof {
        assert(runs_of(runs@).take(0) =~= Seq::<Styled>::empty());
        assert(wr.state().rows =~= Seq::<Seq<Styled>>::empty());
        assert(wr.state().row =~= Seq::<Styled>::empty());
        assert(wr.state() == fold_runs(p, Seq::<Styled>::empty()));
        assert(width(Seq::<Styled>::empty()) == 0);
    }
    let mut i: usize = 0;
    while i < runs.len()
        invariant
            i <= runs@.len(),
            p == exec_params(b, f@, h@),
            wr.state() == fold_runs(p, runs_of(runs@).take(i as int)),
            fits(p, wr.state()),
        decreases runs.len() - i,
    {
        let ws = words(runs[i].text.as_slice());
        let e = runs[i].emphasis;
        let ghost before = wr.state();
        let ghost wv = ws@.map_values(|q: Vec<char>| q@);
        let mut j: usize = 0;
        proof {
            assert(wv.take(0) =~= Seq::<Seq<char>>::empty());
        }
        while j < ws.len()
            invariant
                j <= ws@.len(),
                wv == ws@.map_values(|q: Vec<char>| q@),
                p == exec_params(b, f@, h@),
                wr.state() == fold_words(p, before, wv.take(j as int), e),
                fits(p, wr.state()),
            decreases ws.len() - j,
        {
            step_exec(&mut wr, b, f.as_slice(), h.as_slice(), ws[j].as_slice(), e);
            proof {
                assert(wv.take(j + 1).drop_last() =~= wv.take(j as int));
            }
            j += 1;
        }
        proof {
            assert(wv.take(wv.len() as int) =~= wv);
            assert(runs_of(runs@).take(i + 1).drop_last() =~= runs_of(runs@).take(i as int));
        }
        i += 1;
    }
    proof {
        assert(runs_of(runs@).take(runs@.len() as int) =~= runs_of(runs@));
    }
    if wr.row.len() > 0 {
        wr.close_row();
    }
    if wr.rows.len() == 0 {
        wr.rows.push(Vec::new());
        proof {
            assert(rows_of(wr.rows@) =~= seq![Seq::<Styled>::empty()]);
        }
    }
    let ghost rows = finish(fold_runs(p, runs_of(runs@)));
    proof {
        assert(rows_of(wr.rows@) =~= rows);
    }
    let mut out: Vec<Vec<Piece>> = Vec::new();
    let mut k: usize = 0;
    while k < wr.rows.len()
        invariant
            k <= wr.rows@.len(),
            rows.len() == wr.rows@.len(),
            forall|q: int| k <= q < wr.rows@.len() ==> runs_of(#[trigger] wr.rows@[q]@) == rows[q],
            rows_of(out@) =~= Seq::new(k as nat, |q: int| p.lead(q as nat) + rows[q]),
            p == exec_params(b, f@, h@),
        decreases wr.rows.len() - k,
    {
        let mut content: Vec<Piece> = Vec::new();
        wr.rows.set_and_swap(k, &mut content);
        let mut row = if k == 0 { lead_exec(f.as_slice()) } else { lead_exec(h.as_slice()) };
        proof {
            assert(runs_of(row@) == p.lead(k as nat));
            assert(runs_of(content@) == rows[k as int]);
        }
        append_pieces(&mut row, content);
        let ghost before = out@;
        out.push(row);
        proof {
            assert(rows_of(out@) =~= rows_of(before).push(p.lead(k as nat) + rows[k as int]));
        }
        k += 1;
    }
    out
}

} // verus!
