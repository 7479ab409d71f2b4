//! The inline markers of one Markdown line: code spans, links, emphasis by
//! delimiter run (`*`, `_`, `~~`), backslash escapes, and emphasis nested
//! inside emphasis. What is not a marker is text in the line's base role.

use vstd::prelude::*;
use crate::markdown::Emphasis;
use crate::md_wrap::{Piece, Styled, runs_of};
use crate::text::{is_alphanumeric, is_whitespace, sub_chars, unicode_alphanumeric, unicode_whitespace};

verus! {

/// The first index at or after `i` holding `c`.
pub open spec fn find_char(s: Seq<char>, c: char, i: int) -> Option<int>
    decreases s.len() - i,
{
    if 0 <= i < s.len() {
        if s[i] == c {
            Some(i)
        } else {
            find_char(s, c, i + 1)
        }
    } else {
        None
    }
}

pub proof fn lemma_find_char(s: Seq<char>, c: char, i: int)
    requires
        0 <= i,
    ensures
        find_char(s, c, i) matches Some(j) ==> (i <= j < s.len() && s[j] == c),
    decreases s.len() - i,
{
    if 0 <= i < s.len() && s[i] != c {
        lemma_find_char(s, c, i + 1);
    }
}

/// How many copies of `c` run from `i` on.
pub open spec fn lead_count(s: Seq<char>, i: int, c: char) -> nat
    decreases s.len() - i,
{
    if 0 <= i < s.len() && s[i] == c {
        1 + lead_count(s, i + 1, c)
    } else {
        0
    }
}

pub proof fn lemma_lead_count(s: Seq<char>, i: int, c: char)
    requires
        0 <= i,
    ensures
        i + lead_count(s, i, c) <= s.len() || lead_count(s, i, c) == 0,
        forall|k: int| i <= k < i + lead_count(s, i, c) ==> s[k] == c,
    decreases s.len() - i,
{
    if 0 <= i < s.len() && s[i] == c {
        lemma_lead_count(s, i + 1, c);
    }
}

/// Whether `run` copies of `c` sit at `i`.
pub open spec fn run_at(s: Seq<char>, i: int, c: char, run: nat) -> bool {
    0 <= i && i + run <= s.len() && forall|k: int| i <= k < i + run ==> #[trigger] s[k] == c
}

/// How many backslashes stand right before `at`.
pub open spec fn backslashes_before(s: Seq<char>, at: int) -> nat
    decreases at,
{
    if 0 < at <= s.len() && s[at - 1] == '\\' {
        1 + backslashes_before(s, at - 1)
    } else {
        0
    }
}

/// A delimiter run at `at` can close: it follows a non-space, `_` does not
/// close inside a word, and it is not backslash-escaped.
pub open spec fn close_ok(s: Seq<char>, at: int, c: char, run: nat) -> bool {
    &&& 0 < at <= s.len()
    &&& !unicode_whitespace(s[at - 1])
    &&& !(c == '_' && at + run < s.len() && unicode_alphanumeric(s[at + run]))
    &&& backslashes_before(s, at) % 2 == 0
}

/// The first closer at or after `i` for a run of `run` copies of `c`.
pub open spec fn closes_from(s: Seq<char>, i: int, c: char, run: nat) -> Option<int>
    decreases s.len() - i,
{
    if 0 <= i < s.len() && i + run <= s.len() {
        if run_at(s, i, c, run) && close_ok(s, i, c, run) {
            Some(i)
        } else {
            closes_from(s, i + 1, c, run)
        }
    } else {
        None
    }
}

pub proof fn lemma_closes_from(s: Seq<char>, i: int, c: char, run: nat)
    requires
        0 <= i,
    ensures
        closes_from(s, i, c, run) matches Some(j) ==> (i <= j && j + run <= s.len()),
    decreases s.len() - i,
{
    if 0 <= i < s.len() && i + run <= s.len() && !(run_at(s, i, c, run) && close_ok(s, i, c, run)) {
        lemma_closes_from(s, i + 1, c, run);
    }
}

/// A delimiter run at `at` can open: something other than whitespace
/// follows it, and `_` does not open inside a word.
pub open spec fn opens(s: Seq<char>, at: int, c: char, run: nat) -> bool {
    &&& at + run < s.len()
    &&& !unicode_whitespace(s[at + run])
    &&& !(c == '_' && at > 0 && unicode_alphanumeric(s[at - 1]))
}

/// The role a delimiter run of `len` copies of `c` carries, if any:
/// `~~` strikes, one to three `*` or `_` are italic, bold, both.
pub open spec fn emphasis_for(c: char, len: nat) -> Option<Emphasis> {
    if c == '~' {
        if len == 2 {
            Some(Emphasis::Strike)
        } else {
            None
        }
    } else if len == 1 {
        Some(Emphasis::Italic)
    } else if len == 2 {
        Some(Emphasis::Bold)
    } else if len == 3 {
        Some(Emphasis::BoldItalic)
    } else {
        None
    }
}

/// What starts at a position: a styled run (its text from `from` to `to`,
/// then going on at `next`), a stretch of literal text, or nothing.
pub enum Hit {
    Styled { from: int, to: int, emphasis: Emphasis, next: int },
    Literal { from: int, to: int },
    Miss,
}

/// What starts at `at`, by the forge's precedence: a code span, then a
/// link, then an emphasis run. A delimiter run that opens nothing is
/// literal text, taken whole.
pub open spec fn marker_hit(s: Seq<char>, at: int) -> Hit {
    let c = s[at];
    let code_end = find_char(s, '`', at + 1);
    let close = find_char(s, ']', at + 1);
    if c == '`' && code_end is Some && code_end->0 > at + 1 {
        Hit::Styled { from: at + 1, to: code_end->0, emphasis: Emphasis::Code, next: code_end->0 + 1 }
    } else if c == '[' && close is Some && close->0 + 1 < s.len() && s[close->0 + 1] == '('
        && find_char(s, ')', close->0 + 2) is Some && close->0 > at + 1 {
        Hit::Styled {
            from: at + 1,
            to: close->0,
            emphasis: Emphasis::Link,
            next: find_char(s, ')', close->0 + 2)->0 + 1,
        }
    } else if c == '*' || c == '_' || c == '~' {
        let run = lead_count(s, at, c);
        match emphasis_for(c, run) {
            None => Hit::Literal { from: at, to: at + run },
            Some(em) => {
                if !opens(s, at, c, run) {
                    Hit::Literal { from: at, to: at + run }
                } else {
                    match closes_from(s, at + run, c, run) {
                        None => Hit::Literal { from: at, to: at + run },
                        Some(end) => {
                            if end == at + run {
                                Hit::Literal { from: at, to: at + run }
                            } else {
                                Hit::Styled { from: at + run, to: end, emphasis: em, next: end + run }
                            }
                        },
                    }
                }
            },
        }
    } else {
        Hit::Miss
    }
}

pub proof fn lemma_marker_hit(s: Seq<char>, at: int)
    requires
        0 <= at < s.len(),
    ensures
        marker_hit(s, at) matches Hit::Styled { from, to, emphasis, next } ==> (at < from <= to < next
            <= s.len()),
        marker_hit(s, at) matches Hit::Literal { from, to } ==> (from == at < to <= s.len()),
{
    lemma_find_char(s, '`', at + 1);
    lemma_find_char(s, ']', at + 1);
    let c = s[at];
    lemma_lead_count(s, at, c);
    lemma_lead_count(s, at + 1, c);
    if let Some(close) = find_char(s, ']', at + 1) {
        lemma_find_char(s, ')', close + 2);
    }
    let run = lead_count(s, at, c);
    if run > 0 {
        lemma_closes_from(s, at + run, c, run);
    }
}

/// Characters a backslash may escape: ASCII punctuation.
pub open spec fn escapable(c: char) -> bool {
    ('!' <= c && c <= '/') || (':' <= c && c <= '@') || ('[' <= c && c <= '`') || ('{' <= c && c <= '~')
}

/// The role a run carries when `inner` sits inside `outer`: bold inside
/// italic (or the reverse) is the pair; code or a link keeps its own role.
pub open spec fn combine(outer: Emphasis, inner: Emphasis) -> Emphasis {
    if outer == inner {
        outer
    } else if (outer == Emphasis::Bold && inner == Emphasis::Italic) || (outer == Emphasis::Italic && inner
        == Emphasis::Bold) || outer == Emphasis::BoldItalic || inner == Emphasis::BoldItalic {
        Emphasis::BoldItalic
    } else {
        inner
    }
}

/// The pending plain text as a run, if there is any.
pub open spec fn flush(plain: Seq<char>, base: Emphasis) -> Seq<Styled> {
    if plain.len() > 0 {
        seq![Styled { text: plain, emphasis: base }]
    } else {
        Seq::empty()
    }
}

/// Whether a run's text is read again for markers of its own: only
/// emphasis nests; a code span is literal and a link's text is a unit.
pub open spec fn nests(e: Emphasis) -> bool {
    e == Emphasis::Bold || e == Emphasis::Italic || e == Emphasis::BoldItalic
}

/// The runs of `s` from `i` on, with `plain` the text gathered so far.
pub open spec fn inline_scan(s: Seq<char>, i: int, base: Emphasis, plain: Seq<char>) -> Seq<Styled>
    decreases s.len(), s.len() - i,
{
    if i < 0 || i >= s.len() {
        flush(plain, base)
    } else if s[i] == '\\' && i + 1 < s.len() && escapable(s[i + 1]) {
        inline_scan(s, i + 2, base, plain.push(s[i + 1]))
    } else {
        proof {
            lemma_marker_hit(s, i);
        }
        match marker_hit(s, i) {
            Hit::Styled { from, to, emphasis, next } => {
                let sub = s.subrange(from, to);
                let styled = if nests(emphasis) {
                    inline_spec(sub, emphasis).map_values(
                        |x: Styled| Styled { text: x.text, emphasis: combine(emphasis, x.emphasis) },
                    )
                } else {
                    seq![Styled { text: sub, emphasis }]
                };
                flush(plain, base) + styled + inline_scan(s, next, base, Seq::empty())
            },
            Hit::Literal { from, to } => inline_scan(s, to, base, plain + s.subrange(from, to)),
            Hit::Miss => inline_scan(s, i + 1, base, plain.push(s[i])),
        }
    }
}

/// The styled runs of one line, `base` the role its plain text takes; never
/// no runs at all.
pub open spec fn inline_spec(s: Seq<char>, base: Emphasis) -> Seq<Styled>
    decreases s.len(), s.len() + 1,
{
    let r = inline_scan(s, 0, base, Seq::empty());
    if r.len() == 0 {
        seq![Styled { text: Seq::empty(), emphasis: base }]
    } else {
        r
    }
}

fn find_char_exec(s: &[char], c: char, from: usize) -> (r: Option<usize>)
    ensures
        match r {
            Some(j) => find_char(s@, c, from as int) == Some(j as int),
            None => find_char(s@, c, from as int) is None,
        },
{
    let mut j = from;
    while j < s.len()
        invariant
            from <= j,
            find_char(s@, c, j as int) == find_char(s@, c, from as int),
        decreases s.len() - j,
    {
        if s[j] == c {
            return Some(j);
        }
        j += 1;
    }
    None
}

fn lead_count_exec(s: &[char], at: usize, c: char) -> (r: usize)
    ensures
        r == lead_count(s@, at as int, c),
{
    let mut k = at;
    while k < s.len() && s[k] == c
        invariant
            at <= k,
            k <= s@.len() || k == at,
            lead_count(s@, at as int, c) == (k - at) + lead_count(s@, k as int, c),
        decreases s.len() - k,
    {
        k += 1;
    }
    k - at
}

fn backslashes_before_exec(s: &[char], at: usize) -> (r: usize)
    requires
        at <= s@.len(),
    ensures
        r == backslashes_before(s@, at as int),
{
    let mut i = at;
    let mut n: usize = 0;
    while i > 0 && s[i - 1] == '\\'
        invariant
            i <= at <= s@.len(),
            n + i == at,
            n + backslashes_before(s@, i as int) == backslashes_before(s@, at as int),
        decreases i,
    {
        n += 1;
        i -= 1;
    }
    n
}

fn run_at_exec(s: &[char], i: usize, c: char, run: usize) -> (r: bool)
    ensures
        r == run_at(s@, i as int, c, run as nat),
{
    if run > s.len() || i > s.len() - run {
        return false;
    }
    let end = i + run;
    let mut k = i;
    while k < end
        invariant
            end == i + run,
            i <= k <= i + run <= s@.len(),
            forall|q: int| i <= q < k ==> #[trigger] s@[q] == c,
        decreases i + run - k,
    {
        if s[k] != c {
            return false;
        }
        k += 1;
    }
    true
}

fn close_ok_exec(s: &[char], at: usize, c: char, run: usize) -> (r: bool)
    requires
        at + run <= s@.len(),
    ensures
        r == close_ok(s@, at as int, c, run as nat),
{
    if at == 0 || is_whitespace(s[at - 1]) {
        return false;
    }
    if c == '_' && at + run < s.len() && is_alphanumeric(s[at + run]) {
        return false;
    }
    backslashes_before_exec(s, at) % 2 == 0
}

fn closes_exec(s: &[char], from: usize, c: char, run: usize) -> (r: Option<usize>)
    ensures
        match r {
            Some(j) => closes_from(s@, from as int, c, run as nat) == Some(j as int),
            None => closes_from(s@, from as int, c, run as nat) is None,
        },
{
    let mut i = from;
    while i < s.len() && run <= s.len() - i
        invariant
            from <= i,
            closes_from(s@, i as int, c, run as nat) == closes_from(s@, from as int, c, run as nat),
        decreases s.len() - i,
    {
        if run_at_exec(s, i, c, run) && close_ok_exec(s, i, c, run) {
            return Some(i);
        }
        i += 1;
    }
    None
}

fn opens_exec(s: &[char], at: usize, c: char, run: usize) -> (r: bool)
    requires
        at + run <= s@.len(),
    ensures
        r == opens(s@, at as int, c, run as nat),
{
    let n = s.len();
    assert(at + run <= n);
    if run >= n - at || is_whitespace(s[at + run]) {
        return false;
    }
    !(c == '_' && at > 0 && is_alphanumeric(s[at - 1]))
}

fn emphasis_for_exec(c: char, len: usize) -> (r: Option<Emphasis>)
    ensures
        r == emphasis_for(c, len as nat),
{
    if c == '~' {
        if len == 2 {
            Some(Emphasis::Strike)
        } else {
            None
        }
    } else if len == 1 {
        Some(Emphasis::Italic)
    } else if len == 2 {
        Some(Emphasis::Bold)
    } else if len == 3 {
        Some(Emphasis::BoldItalic)
    } else {
        None
    }
}

/// What [`marker_at`] found, in positions of the line.
enum Found {
    Styled(usize, usize, Emphasis, usize),
    Literal(usize, usize),
    Miss,
}

spec fn found_view(f: Found) -> Hit {
    match f {
        Found::Styled(from, to, emphasis, next) => Hit::Styled {
            from: from as int,
            to: to as int,
            emphasis,
            next: next as int,
        },
        Found::Literal(from, to) => Hit::Literal { from: from as int, to: to as int },
        Found::Miss => Hit::Miss,
    }
}

fn marker_at(s: &[char], at: usize) -> (r: Found)
    requires
        at < s@.len(),
    ensures
        found_view(r) == marker_hit(s@, at as int),
{
    proof {
        lemma_find_char(s@, '`', at + 1);
        lemma_find_char(s@, ']', at + 1);
        lemma_lead_count(s@, at as int, s@[at as int]);
    }
    let c = s[at];
    if c == '`' {
        if let Some(end) = find_char_exec(s, '`', at + 1) {
            if end > at + 1 {
                return Found::Styled(at + 1, end, Emphasis::Code, end + 1);
            }
        }
    }
    if c == '[' {
        if let Some(close) = find_char_exec(s, ']', at + 1) {
            if close + 1 < s.len() && s[close + 1] == '(' {
                proof {
                    lemma_find_char(s@, ')', close + 2);
                }
                if let Some(end) = find_char_exec(s, ')', close + 2) {
                    if close > at + 1 {
                        return Found::Styled(at + 1, close, Emphasis::Link, end + 1);
                    }
                }
            }
        }
    }
    if c == '*' || c == '_' || c == '~' {
        let run = lead_count_exec(s, at, c);
        match emphasis_for_exec(c, run) {
            None => Found::Literal(at, at + run),
            Some(em) => {
                if !opens_exec(s, at, c, run) {
                    Found::Literal(at, at + run)
                } else {
                    proof {
                        lemma_closes_from(s@, at + run, c, run as nat);
                    }
                    match closes_exec(s, at + run, c, run) {
                        None => Found::Literal(at, at + run),
                        Some(end) => {
                            if end == at + run {
                                Found::Literal(at, at + run)
                            } else {
                                Found::Styled(at + run, end, em, end + run)
                            }
                        },
                    }
                }
            },
        }
    } else {
        Found::Miss
    }
}

fn escapable_exec(c: char) -> (r: bool)
    ensures
        r == escapable(c),
{
    ('!' <= c && c <= '/') || (':' <= c && c <= '@') || ('[' <= c && c <= '`') || ('{' <= c && c <= '~')
}

fn combine_exec(outer: Emphasis, inner: Emphasis) -> (r: Emphasis)
    ensures
        r == combine(outer, inner),
{
    if outer == inner {
        outer
    } else if (outer == Emphasis::Bold && inner == Emphasis::Italic) || (outer == Emphasis::Italic && inner
        == Emphasis::Bold) || outer == Emphasis::BoldItalic || inner == Emphasis::BoldItalic {
        Emphasis::BoldItalic
    } else {
        inner
    }
}

fn flush_exec(out: &mut Vec<Piece>, plain: &mut Vec<char>, base: Emphasis)
    ensures
        runs_of(final(out)@) == runs_of(old(out)@) + flush(old(plain)@, base),
        final(plain)@ == Seq::<char>::empty(),
{
    if plain.len() > 0 {
        let mut t: Vec<char> = Vec::new();
        std::mem::swap(&mut t, plain);
        let ghost before = out@;
        out.push(Piece { text: t, emphasis: base });
        proof {
            assert(runs_of(out@) =~= runs_of(before) + flush(old(plain)@, base));
        }
    } else {
        proof {
            assert(runs_of(out@) =~= runs_of(old(out)@) + flush(old(plain)@, base));
        }
    }
}

/// The styled runs of one line; `base` is the role its plain text takes
/// (plain in prose, quote inside a block quote).
pub fn parse_inline(s: &[char], base: Emphasis) -> (r: Vec<Piece>)
    ensures
        runs_of(r@) == inline_spec(s@, base),
    decreases s@.len(),
{
    let mut out: Vec<Piece> = Vec::new();
    let mut plain: Vec<char> = Vec::new();
    let mut i: usize = 0;
    let ghost goal = inline_scan(s@, 0, base, Seq::empty());
    proof {
        assert(runs_of(out@) =~= Seq::<Styled>::empty());
        assert(runs_of(out@) + goal =~= goal);
    }
    while i < s.len()
        invariant
            i <= s@.len(),
            goal == inline_scan(s@, 0, base, Seq::empty()),
            runs_of(out@) + inline_scan(s@, i as int, base, plain@) == goal,
        decreases s.len() - i,
    {
        if s[i] == '\\' && i + 1 < s.len() && escapable_exec(s[i + 1]) {
            plain.push(s[i + 1]);
            i += 2;
            continue;
        }
        proof {
            lemma_marker_hit(s@, i as int);
        }
        let found = marker_at(s, i);
        match found {
            Found::Styled(from, to, em, next) => {
                let ghost rest = inline_scan(s@, next as int, base, Seq::empty());
                let ghost pl = plain@;
                let ghost before = runs_of(out@);
                flush_exec(&mut out, &mut plain, base);
                let sub = sub_chars(s, from, to);
                if em == Emphasis::Bold || em == Emphasis::Italic || em == Emphasis::BoldItalic {
                    let inner = parse_inline(sub.as_slice(), em);
                    let ghost mid = runs_of(out@);
                    let mut k: usize = 0;
                    while k < inner.len()
                        invariant
                            k <= inner@.len(),
                            runs_of(out@) == mid + runs_of(inner@).take(k as int).map_values(
                                |x: Styled| Styled { text: x.text, emphasis: combine(em, x.emphasis) },
                            ),
                        decreases inner.len() - k,
                    {
                        let t = sub_chars(inner[k].text.as_slice(), 0, inner[k].text.len());
                        let e2 = combine_exec(em, inner[k].emphasis);
                        let ghost o = out@;
                        out.push(Piece { text: t, emphasis: e2 });
                        proof {
                            assert(t@ =~= inner@[k as int].text@);
                            assert(runs_of(inner@).take(k + 1) =~= runs_of(inner@).take(k as int).push(
                                inner@[k as int]@,
                            ));
                            assert(runs_of(out@) =~= runs_of(o).push(Styled { text: t@, emphasis: e2 }));
                            assert(runs_of(out@) =~= mid + runs_of(inner@).take(k + 1).map_values(
                                |x: Styled| Styled { text: x.text, emphasis: combine(em, x.emphasis) },
                            ));
                        }
                        k += 1;
                    }
                    proof {
                        assert(runs_of(inner@).take(inner@.len() as int) =~= runs_of(inner@));
                    }
                } else {
                    let ghost o = out@;
                    out.push(Piece { text: sub, emphasis: em });
                    proof {
                        assert(runs_of(out@) =~= runs_of(o) + seq![Styled { text: sub@, emphasis: em }]);
                    }
                }
                proof {
                    let styled = if nests(em) {
                        inline_spec(s@.subrange(from as int, to as int), em).map_values(
                            |x: Styled| Styled { text: x.text, emphasis: combine(em, x.emphasis) },
                        )
                    } else {
                        seq![Styled { text: s@.subrange(from as int, to as int), emphasis: em }]
                    };
                    assert(inline_scan(s@, i as int, base, pl) == flush(pl, base) + styled + rest);
                    assert(runs_of(out@) == before + flush(pl, base) + styled);
                    assert(runs_of(out@) + rest =~= before + (flush(pl, base) + styled + rest));
                }
                i = next;
            },
            Found::Literal(from, to) => {
                let mut k = from;
                let ghost p0 = plain@;
                while k < to
                    invariant
                        from <= k <= to <= s@.len(),
                        plain@ == p0 + s@.subrange(from as int, k as int),
                    decreases to - k,
                {
                    plain.push(s[k]);
                    proof {
                        assert(s@.subrange(from as int, k + 1) =~= s@.subrange(from as int, k as int).push(
                            s@[k as int],
                        ));
                    }
                    k += 1;
                }
                i = to;
            },
            Found::Miss => {
                plain.push(s[i]);
                i += 1;
            },
        }
    }
    let ghost pl = plain@;
    flush_exec(&mut out, &mut plain, base);
    proof {
        assert(inline_scan(s@, i as int, base, pl) == flush(pl, base));
    }
    if out.len() == 0 {
        out.push(Piece { text: Vec::new(), emphasis: base });
        proof {
            assert(runs_of(out@) =~= seq![Styled { text: Seq::empty(), emphasis: base }]);
        }
    }
    out
}

} // verus!
