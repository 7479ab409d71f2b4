//! Markdown for the rich PR / issue view, turned into styled lines that
//! fit a column budget: headings, emphasis, inline code, fenced blocks,
//! lists, task lists, block quotes, GitHub alerts, links, rules and HTML
//! comments. Not CommonMark: what a forge shows in a PR body, no more.
//!
//! Roles are semantic ([`Emphasis`]), mapped to colours by the renderer;
//! wrapping happens on rendered widths, after the inline parse.

use vstd::prelude::*;
use crate::md_block::{block, block_spec, lead_count_at0, lead_ws, lead_ws_exec, lemma_block_fits, trim_start};
use crate::md_inline::{find_char, lemma_find_char, lead_count};
use crate::md_wrap::{Piece, Styled, all_whitespace, all_ws, rows_of, runs_of, width};
use crate::text::{chars_of, has_infix, matches_at, occurs_at, split_chars, split_on, lemma_split_on_nonempty, string_of, sub_chars};

verus! {

/// The semantic role of a run of text.
#[derive(Debug, Clone, Copy, PartialEq, Eq, Structural)]
pub enum Emphasis {
    Plain,
    Bold,
    Italic,
    /// Bold and italic at once.
    BoldItalic,
    /// Inline code and the body of a fenced block.
    Code,
    Strike,
    /// The text of a link.
    Link,
    /// A heading, whatever its level.
    Heading,
    /// The rule down a block quote, and the quoted text.
    Quote,
    /// Structural glyphs the renderer inserts: bullets, boxes, rules.
    Marker,
    /// A good outcome (an open PR, a passing check).
    Success,
    /// A bad outcome (a closed PR, a failing check).
    Failure,
    /// An in-flight outcome (a running check).
    Running,
    /// A resolved-not-failed outcome (a merged PR, a closed issue).
    Notice,
    /// De-emphasised (a draft PR).
    Muted,
}

/// A run of text sharing one role.
#[derive(Debug, Clone, PartialEq, Eq)]
pub struct Segment {
    pub text: String,
    pub emphasis: Emphasis,
    /// Paint as a badge (reverse video) rather than as coloured text.
    pub chip: bool,
}

impl Segment {
    pub fn new(text: String, emphasis: Emphasis) -> (r: Segment)
        ensures
            r.text@ == text@,
            r.emphasis == emphasis,
            !r.chip,
    {
        Segment { text, emphasis, chip: false }
    }

    /// A segment painted as a badge.
    pub fn chip(text: String, emphasis: Emphasis) -> (r: Segment)
        ensures
            r.text@ == text@,
            r.emphasis == emphasis,
            r.chip,
    {
        Segment { text, emphasis, chip: true }
    }
}

/// One rendered line.
#[derive(Debug, Clone, PartialEq, Eq)]
pub struct MdLine {
    pub segments: Vec<Segment>,
    /// Came out of a fenced block: painted as code, never reflowed.
    pub preformatted: bool,
}

/// The texts of `segs`, concatenated.
pub open spec fn joined(segs: Seq<Segment>) -> Seq<char>
    decreases segs.len(),
{
    if segs.len() == 0 {
        Seq::empty()
    } else {
        joined(segs.drop_last()) + segs.last().text@
    }
}

impl MdLine {
    /// The line as the reader sees it, markers included.
    pub fn plain(&self) -> (r: String)
        ensures
            r@ == joined(self.segments@),
    {
        let mut out: Vec<char> = Vec::new();
        let mut i: usize = 0;
        while i < self.segments.len()
            invariant
                i <= self.segments@.len(),
                out@ == joined(self.segments@.take(i as int)),
            decreases self.segments.len() - i,
        {
            let t = chars_of(self.segments[i].text.as_str());
            let mut k: usize = 0;
            let ghost before = out@;
            while k < t.len()
                invariant
                    k <= t@.len(),
                    out@ == before + t@.take(k as int),
                decreases t.len() - k,
            {
                out.push(t[k]);
                proof {
                    assert(t@.take(k + 1) =~= t@.take(k as int).push(t@[k as int]));
                }
                k += 1;
            }
            proof {
                assert(t@.take(t@.len() as int) =~= t@);
                assert(self.segments@.take(i + 1).drop_last() =~= self.segments@.take(i as int));
            }
            i += 1;
        }
        proof {
            assert(self.segments@.take(self.segments@.len() as int) =~= self.segments@);
        }
        string_of(out.as_slice())
    }
}

/// A rendered line as the contracts see it.
pub struct Row {
    pub runs: Seq<Styled>,
    pub preformatted: bool,
}

/// The view of a rendered line.
pub open spec fn row_of(l: MdLine) -> Row {
    Row {
        runs: l.segments@.map_values(|s: Segment| Styled { text: s.text@, emphasis: s.emphasis }),
        preformatted: l.preformatted,
    }
}

/// `s` with every tab widened to four spaces.
pub open spec fn expand_tabs(s: Seq<char>) -> Seq<char>
    decreases s.len(),
{
    if s.len() == 0 {
        Seq::empty()
    } else if s.last() == '\t' {
        expand_tabs(s.drop_last()) + seq![' ', ' ', ' ', ' ']
    } else {
        expand_tabs(s.drop_last()).push(s.last())
    }
}

/// `p` without one trailing carriage return.
pub open spec fn strip_cr(p: Seq<char>) -> Seq<char> {
    if p.len() > 0 && p.last() == '\r' {
        p.drop_last()
    } else {
        p
    }
}

/// `str::lines`: cut at `\n` (an `\r` before it goes too), and a final
/// line ending opens no extra line.
pub open spec fn lines_of(s: Seq<char>) -> Seq<Seq<char>> {
    let ps = split_on(s, '\n');
    let body = ps.drop_last().map_values(|p: Seq<char>| strip_cr(p));
    if ps.last().len() == 0 {
        body
    } else {
        body.push(ps.last())
    }
}

/// The first position at or after `i` where `needle` occurs in `hay`.
pub open spec fn find_str(hay: Seq<char>, needle: Seq<char>, i: int) -> Option<int>
    decreases hay.len() - i,
{
    if 0 <= i < hay.len() && i + needle.len() <= hay.len() {
        if occurs_at(hay, needle, i) {
            Some(i)
        } else {
            find_str(hay, needle, i + 1)
        }
    } else {
        None
    }
}

pub proof fn lemma_find_str(hay: Seq<char>, needle: Seq<char>, i: int)
    requires
        0 <= i,
    ensures
        find_str(hay, needle, i) matches Some(j) ==> (i <= j && j + needle.len() <= hay.len() && occurs_at(
            hay,
            needle,
            j,
        )),
    decreases hay.len() - i,
{
    if 0 <= i < hay.len() && i + needle.len() <= hay.len() && !occurs_at(hay, needle, i) {
        lemma_find_str(hay, needle, i + 1);
    }
}

pub open spec fn comment_open() -> Seq<char> {
    seq!['<', '!', '-', '-']
}

pub open spec fn comment_close() -> Seq<char> {
    seq!['-', '-', '>']
}

/// The first complete backtick span of `s`, as `(start, end)` with `end`
/// just past the closing backtick.
pub open spec fn code_span(s: Seq<char>) -> Option<(int, int)> {
    match find_char(s, '`', 0) {
        Some(st) => match find_char(s, '`', st + 1) {
            Some(en) => Some((st, en + 1)),
            None => None,
        },
        None => None,
    }
}

/// What is left of `rest` to show once every HTML comment is taken out, and
/// whether a comment is still open at its end; `open` says one was open
/// when it began. A backtick span is literal, delimiters included.
pub open spec fn strip_comments(rest: Seq<char>, open: bool) -> (Seq<char>, bool)
    decreases rest.len(),
{
    proof {
        lemma_find_str(rest, comment_close(), 0);
        lemma_find_str(rest, comment_open(), 0);
        lemma_find_char(rest, '`', 0);
        if let Some(st) = find_char(rest, '`', 0) {
            lemma_find_char(rest, '`', st + 1);
        }
    }
    if open {
        match find_str(rest, comment_close(), 0) {
            Some(at) => strip_comments(rest.skip(at + 3), false),
            None => (Seq::empty(), true),
        }
    } else {
        match find_str(rest, comment_open(), 0) {
            None => (rest, false),
            Some(at) => {
                let span = code_span(rest);
                if span is Some && span.unwrap().0 < at {
                    let e = span.unwrap().1;
                    let r = strip_comments(rest.skip(e), false);
                    (rest.take(e) + r.0, r.1)
                } else {
                    let r = strip_comments(rest.skip(at + 4), true);
                    (rest.take(at) + r.0, r.1)
                }
            },
        }
    }
}

/// The fence a line opens, as its character and its length: three or more
/// backticks, or three or more tildes.
pub open spec fn fence_opens(trimmed: Seq<char>) -> Option<(char, nat)> {
    let a = lead_count(trimmed, 0, '`');
    let b = lead_count(trimmed, 0, '~');
    if a >= 3 {
        Some(('`', a))
    } else if b >= 3 {
        Some(('~', b))
    } else {
        None
    }
}

/// Whether a line closes a fence of `len` copies of `marker`: at least as
/// long, the same character, nothing but whitespace after it.
pub open spec fn fence_closes(trimmed: Seq<char>, marker: char, len: nat) -> bool {
    let run = lead_count(trimmed, 0, marker);
    run >= len && all_ws(trimmed.skip(run as int))
}

/// The block rows of a source line, as rendered lines.
pub open spec fn prose_rows(rows: Seq<Seq<Styled>>) -> Seq<Row> {
    rows.map_values(|r: Seq<Styled>| Row { runs: r, preformatted: false })
}

/// The rows one source line gives, with the fence open before it and
/// whether a comment is open: a line inside a fence is one verbatim code
/// row; a line that held only a comment leaves nothing; a fence line opens
/// or closes a fence and shows nothing; any other line is a block.
pub open spec fn line_rows(raw: Seq<char>, budget: nat, fence: Option<(char, nat)>, in_comment: bool) -> Seq<Row> {
    match fence {
        Some((m, len)) => {
            if fence_closes(trim_start(raw), m, len) {
                Seq::empty()
            } else {
                seq![Row { runs: seq![Styled { text: raw, emphasis: Emphasis::Code }], preformatted: true }]
            }
        },
        None => {
            let vis = strip_comments(raw, in_comment).0;
            if all_ws(vis) && !all_ws(raw) {
                Seq::empty()
            } else if fence_opens(trim_start(vis)) is Some {
                Seq::empty()
            } else {
                prose_rows(block_spec(vis, budget))
            }
        },
    }
}

/// The fence open after `raw`.
pub open spec fn next_fence(raw: Seq<char>, fence: Option<(char, nat)>, in_comment: bool) -> Option<(char, nat)> {
    match fence {
        Some((m, len)) => {
            if fence_closes(trim_start(raw), m, len) {
                None
            } else {
                fence
            }
        },
        None => {
            let vis = strip_comments(raw, in_comment).0;
            if all_ws(vis) && !all_ws(raw) {
                None
            } else {
                fence_opens(trim_start(vis))
            }
        },
    }
}

/// Whether a comment is open after `raw`.
pub open spec fn next_comment(raw: Seq<char>, fence: Option<(char, nat)>, in_comment: bool) -> bool {
    match fence {
        Some(_) => in_comment,
        None => strip_comments(raw, in_comment).1,
    }
}

/// The rows of the source lines `ls`, given the fence open before them and
/// whether a comment is open.
pub open spec fn render_lines(ls: Seq<Seq<char>>, budget: nat, fence: Option<(char, nat)>, in_comment: bool) -> Seq<Row>
    decreases ls.len(),
{
    if ls.len() == 0 {
        Seq::empty()
    } else {
        line_rows(ls[0], budget, fence, in_comment) + render_lines(
            ls.drop_first(),
            budget,
            next_fence(ls[0], fence, in_comment),
            next_comment(ls[0], fence, in_comment),
        )
    }
}

/// `body` rendered into rows for `budget` columns (at least one).
pub open spec fn render_spec(body: Seq<char>, budget: nat) -> Seq<Row> {
    render_lines(lines_of(expand_tabs(body)), if budget == 0 { 1 } else { budget }, None, false)
}

fn expand_tabs_exec(s: &[char]) -> (r: Vec<char>)
    ensures
        r@ == expand_tabs(s@),
{
    let mut out: Vec<char> = Vec::new();
    let mut i: usize = 0;
    while i < s.len()
        invariant
            i <= s@.len(),
            out@ == expand_tabs(s@.take(i as int)),
        decreases s.len() - i,
    {
        proof {
            assert(s@.take(i + 1).drop_last() =~= s@.take(i as int));
        }
        if s[i] == '\t' {
            let ghost before = out@;
            out.push(' ');
            out.push(' ');
            out.push(' ');
            out.push(' ');
            proof {
                assert(out@ =~= before + seq![' ', ' ', ' ', ' ']);
            }
        } else {
            out.push(s[i]);
        }
        i += 1;
    }
    proof {
        assert(s@.take(s@.len() as int) =~= s@);
    }
    out
}

fn strip_cr_exec(p: &[char]) -> (r: Vec<char>)
    ensures
        r@ == strip_cr(p@),
{
    let n = p.len();
    if n > 0 && p[n - 1] == '\r' {
        let r = sub_chars(p, 0, n - 1);
        proof {
            assert(r@ =~= p@.drop_last());
        }
        r
    } else {
        let r = sub_chars(p, 0, n);
        proof {
            assert(r@ =~= p@);
        }
        r
    }
}

fn lines_exec(s: &[char]) -> (r: Vec<Vec<char>>)
    ensures
        r@.map_values(|p: Vec<char>| p@) == lines_of(s@),
{
    let pieces = split_chars(s, '\n');
    let ghost ps = split_on(s@, '\n');
    proof {
        lemma_split_on_nonempty(s@, '\n');
        assert(pieces@.len() == ps.len());
        assert forall|q: int| 0 <= q < ps.len() implies #[trigger] pieces@[q]@ == ps[q] by {
            assert(pieces@.map_values(|p: Vec<char>| p@)[q] == ps[q]);
        }
    }
    let n = pieces.len();
    let mut out: Vec<Vec<char>> = Vec::new();
    let mut k: usize = 0;
    while k + 1 < n
        invariant
            k < n == ps.len(),
            n == pieces@.len(),
            forall|q: int| 0 <= q < ps.len() ==> #[trigger] pieces@[q]@ == ps[q],
            out@.map_values(|p: Vec<char>| p@) == ps.take(k as int).map_values(|p: Seq<char>| strip_cr(p)),
        decreases n - k,
    {
        let line = strip_cr_exec(pieces[k].as_slice());
        let ghost before = out@;
        out.push(line);
        proof {
            assert(ps.take(k + 1) =~= ps.take(k as int).push(ps[k as int]));
            assert(out@.map_values(|p: Vec<char>| p@) =~= before.map_values(|p: Vec<char>| p@).push(line@));
            assert(ps.take(k + 1).map_values(|p: Seq<char>| strip_cr(p)) =~= ps.take(k as int).map_values(
                |p: Seq<char>| strip_cr(p),
            ).push(strip_cr(ps[k as int])));
        }
        k += 1;
    }
    proof {
        assert(ps.take(k as int) =~= ps.drop_last());
    }
    if pieces[n - 1].len() > 0 {
        let last = sub_chars(pieces[n - 1].as_slice(), 0, pieces[n - 1].len());
        let ghost before = out@;
        out.push(last);
        proof {
            assert(last@ =~= ps.last());
            assert(out@.map_values(|p: Vec<char>| p@) =~= before.map_values(|p: Vec<char>| p@).push(last@));
        }
    }
    out
}

fn find_str_exec(hay: &[char], needle: &[char], from: usize) -> (r: Option<usize>)
    requires
        needle@.len() > 0,
    ensures
        match r {
            Some(j) => find_str(hay@, needle@, from as int) == Some(j as int) && j + needle@.len() <= hay@.len(),
            None => find_str(hay@, needle@, from as int) is None,
        },
{
    let mut i = from;
    while i < hay.len() && needle.len() <= hay.len() - i
        invariant
            from <= i,
            find_str(hay@, needle@, i as int) == find_str(hay@, needle@, from as int),
        decreases hay.len() - i,
    {
        if matches_at(hay, needle, i) {
            return Some(i);
        }
        i += 1;
    }
    None
}

fn find_char_at(s: &[char], c: char, from: usize) -> (r: Option<usize>)
    ensures
        match r {
            Some(j) => find_char(s@, c, from as int) == Some(j as int) && j < s@.len(),
            None => find_char(s@, c, from as int) is None,
        },
{
    let mut j = from;
    while j < s.len()
        invariant
            from <= j,
            find_char(s@, c, j as int) == find_char(s@, c, from as int),
        decreases s.len() - j,
    {
        if s[j] == c {
            return Some(j);
        }
        j += 1;
    }
    None
}

fn code_span_exec(s: &[char]) -> (r: Option<(usize, usize)>)
    ensures
        match r {
            Some((a, b)) => code_span(s@) == Some((a as int, b as int)),
            None => code_span(s@) is None,
        },
{
    proof {
        lemma_find_char(s@, '`', 0);
    }
    match find_char_at(s, '`', 0) {
        Some(st) => {
            assert(st < s@.len());
            assert(s@.len() == s.len());
            proof {
                lemma_find_char(s@, '`', st + 1);
            }
            match find_char_at(s, '`', st + 1) {
                Some(en) => Some((st, en + 1)),
                None => None,
            }
        },
        None => None,
    }
}

fn strip_comments_exec(line: &[char], open: bool) -> (r: (Vec<char>, bool))
    ensures
        r.0@ == strip_comments(line@, open).0,
        r.1 == strip_comments(line@, open).1,
{
    let close_pat = vec!['-', '-', '>'];
    let open_pat = vec!['<', '!', '-', '-'];
    proof {
        assert(close_pat@ =~= comment_close());
        assert(open_pat@ =~= comment_open());
    }
    let ghost goal = strip_comments(line@, open);
    let mut out: Vec<char> = Vec::new();
    let mut rest = sub_chars(line, 0, line.len());
    let mut is_open = open;
    proof {
        assert(rest@ =~= line@);
        assert(out@ + strip_comments(rest@, is_open).0 =~= goal.0);
    }
    loop
        invariant
            goal == strip_comments(line@, open),
            close_pat@ == comment_close(),
            open_pat@ == comment_open(),
            out@ + strip_comments(rest@, is_open).0 == goal.0,
            strip_comments(rest@, is_open).1 == goal.1,
        decreases rest@.len(),
    {
        let ghost r0 = rest@;
        proof {
            lemma_find_str(r0, comment_close(), 0);
            lemma_find_str(r0, comment_open(), 0);
            lemma_find_char(r0, '`', 0);
            if let Some(st) = find_char(r0, '`', 0) {
                lemma_find_char(r0, '`', st + 1);
            }
        }
        if is_open {
            match find_str_exec(rest.as_slice(), close_pat.as_slice(), 0) {
                Some(at) => {
                    assert(close_pat@.len() == 3);
                    assert(at + 3 <= rest@.len());
                    assert(rest@.len() == rest.len());
                    rest = sub_chars(rest.as_slice(), at + 3, rest.len());
                    is_open = false;
                    proof {
                        assert(rest@ =~= r0.skip(at + 3));
                    }
                },
                None => {
                    proof {
                        assert(strip_comments(rest@, is_open) == (Seq::<char>::empty(), true));
                        assert(out@ + Seq::<char>::empty() =~= out@);
                    }
                    return (out, true);
                },
            }
        } else {
            match find_str_exec(rest.as_slice(), open_pat.as_slice(), 0) {
                None => {
                    let mut k: usize = 0;
                    let ghost o0 = out@;
                    while k < rest.len()
                        invariant
                            k <= rest@.len(),
                            out@ == o0 + rest@.take(k as int),
                        decreases rest.len() - k,
                    {
                        out.push(rest[k]);
                        proof {
                            assert(rest@.take(k + 1) =~= rest@.take(k as int).push(rest@[k as int]));
                        }
                        k += 1;
                    }
                    proof {
                        assert(rest@.take(rest@.len() as int) =~= rest@);
                        assert(strip_comments(rest@, is_open) == (r0, false));
                    }
                    return (out, false);
                },
                Some(at) => {
                    assert(open_pat@.len() == 4);
                    assert(at + 4 <= rest@.len());
                    assert(rest@.len() == rest.len());
                    let span = code_span_exec(rest.as_slice());
                    let (cut, skip_to, now_open) = match span {
                        Some((st, en)) => {
                            if st < at {
                                (en, en, false)
                            } else {
                                (at, at + 4, true)
                            }
                        },
                        None => (at, at + 4, true),
                    };
                    let ghost o0 = out@;
                    let mut k: usize = 0;
                    while k < cut
                        invariant
                            k <= cut <= rest@.len(),
                            out@ == o0 + rest@.take(k as int),
                        decreases cut - k,
                    {
                        out.push(rest[k]);
                        proof {
                            assert(rest@.take(k + 1) =~= rest@.take(k as int).push(rest@[k as int]));
                        }
                        k += 1;
                    }
                    rest = sub_chars(rest.as_slice(), skip_to, rest.len());
                    is_open = now_open;
                    proof {
                        assert(rest@ =~= r0.skip(skip_to as int));
                        let r = strip_comments(rest@, is_open);
                        assert(strip_comments(r0, false) == (r0.take(cut as int) + r.0, r.1));
                        assert(out@ + r.0 =~= o0 + (r0.take(cut as int) + r.0));
                    }
                },
            }
        }
    }
}

fn fence_opens_exec(trimmed: &[char]) -> (r: Option<(char, usize)>)
    ensures
        match r {
            Some((c, n)) => fence_opens(trimmed@) == Some((c, n as nat)),
            None => fence_opens(trimmed@) is None,
        },
{
    let a = lead_count_at0(trimmed, '`');
    if a >= 3 {
        return Some(('`', a));
    }
    let b = lead_count_at0(trimmed, '~');
    if b >= 3 {
        return Some(('~', b));
    }
    None
}

fn fence_closes_exec(trimmed: &[char], marker: char, len: usize) -> (r: bool)
    ensures
        r == fence_closes(trimmed@, marker, len as nat),
{
    let run = lead_count_at0(trimmed, marker);
    if run < len {
        return false;
    }
    let tail = sub_chars(trimmed, run, trimmed.len());
    proof {
        assert(tail@ =~= trimmed@.skip(run as int));
    }
    all_whitespace(tail.as_slice())
}

fn to_line(row: Vec<Piece>, preformatted: bool) -> (r: MdLine)
    ensures
        row_of(r) == (Row { runs: runs_of(row@), preformatted }),
        forall|j: int| 0 <= j < r.segments@.len() ==> !(#[trigger] r.segments@[j]).chip,
{
    let mut segments: Vec<Segment> = Vec::new();
    let mut k: usize = 0;
    while k < row.len()
        invariant
            k <= row@.len(),
            segments@.map_values(|s: Segment| Styled { text: s.text@, emphasis: s.emphasis }) == runs_of(
                row@,
            ).take(k as int),
            forall|j: int| 0 <= j < segments@.len() ==> !(#[trigger] segments@[j]).chip,
        decreases row.len() - k,
    {
        let text = string_of(row[k].text.as_slice());
        let ghost before = segments@;
        segments.push(Segment::new(text, row[k].emphasis));
        proof {
            assert(runs_of(row@).take(k + 1) =~= runs_of(row@).take(k as int).push(row@[k as int]@));
            assert(segments@.map_values(|s: Segment| Styled { text: s.text@, emphasis: s.emphasis })
                =~= before.map_values(|s: Segment| Styled { text: s.text@, emphasis: s.emphasis }).push(
                row@[k as int]@,
            ));
        }
        k += 1;
    }
    proof {
        assert(runs_of(row@).take(row@.len() as int) =~= runs_of(row@));
    }
    let r = MdLine { segments, preformatted };
    proof {
        assert(row_of(r).runs =~= runs_of(row@));
    }
    r
}

spec fn fence_view(f: Option<(char, usize)>) -> Option<(char, nat)> {
    match f {
        Some((c, n)) => Some((c, n as nat)),
        None => None,
    }
}

/// The rendered lines as the contracts see them.
pub open spec fn lines_view(v: Seq<MdLine>) -> Seq<Row> {
    v.map_values(|l: MdLine| row_of(l))
}

/// No segment of `v` is painted as a badge.
pub open spec fn no_chips(v: Seq<MdLine>) -> bool {
    forall|i: int, j: int| 0 <= i < v.len() && 0 <= j < v[i].segments@.len() ==> !(#[trigger] v[i].segments@[j]).chip
}

fn push_rows(out: &mut Vec<MdLine>, rows: Vec<Vec<Piece>>)
    requires
        no_chips(old(out)@),
    ensures
        lines_view(final(out)@) == lines_view(old(out)@) + prose_rows(rows_of(rows@)),
        no_chips(final(out)@),
{
    let ghost rv = rows_of(rows@);
    let ghost o0 = out@;
    let mut rows = rows;
    let mut q: usize = 0;
    proof {
        assert(lines_view(out@) =~= lines_view(o0) + prose_rows(rv.take(0)));
    }
    while q < rows.len()
        invariant
            q <= rows@.len(),
            rows@.len() == rv.len(),
            forall|z: int| q <= z < rows@.len() ==> runs_of(#[trigger] rows@[z]@) == rv[z],
            lines_view(out@) == lines_view(o0) + prose_rows(rv.take(q as int)),
            no_chips(out@),
        decreases rows.len() - q,
    {
        let mut content: Vec<Piece> = Vec::new();
        rows.set_and_swap(q, &mut content);
        let line = to_line(content, false);
        let ghost o1 = out@;
        out.push(line);
        proof {
            assert(rv.take(q + 1) =~= rv.take(q as int).push(rv[q as int]));
            assert(prose_rows(rv.take(q + 1)) =~= prose_rows(rv.take(q as int)).push(
                Row { runs: rv[q as int], preformatted: false },
            ));
            assert(lines_view(out@) =~= lines_view(o1).push(row_of(line)));
            assert forall|i: int, j: int| 0 <= i < out@.len() && 0 <= j < out@[i].segments@.len() implies !(
            #[trigger] out@[i].segments@[j]).chip by {
                if i < o1.len() {
                    assert(out@[i] == o1[i]);
                }
            }
        }
        q += 1;
    }
    proof {
        assert(rv.take(rv.len() as int) =~= rv);
    }
}

fn render_line(out: &mut Vec<MdLine>, fence: &mut Option<(char, usize)>, in_comment: &mut bool, raw: &[char], b: usize)
    requires
        no_chips(old(out)@),
    ensures
        lines_view(final(out)@) == lines_view(old(out)@) + line_rows(raw@, b as nat, fence_view(*old(fence)), *old(in_comment)),
        fence_view(*final(fence)) == next_fence(raw@, fence_view(*old(fence)), *old(in_comment)),
        *final(in_comment) == next_comment(raw@, fence_view(*old(fence)), *old(in_comment)),
        no_chips(final(out)@),
{
    let k = lead_ws_exec(raw);
    let trimmed = sub_chars(raw, k, raw.len());
    proof {
        assert(trimmed@ =~= trim_start(raw@));
    }
    match *fence {
        Some((m, len)) => {
            if fence_closes_exec(trimmed.as_slice(), m, len) {
                *fence = None;
                proof {
                    assert(lines_view(out@) + Seq::<Row>::empty() =~= lines_view(out@));
                }
            } else {
                let mut row: Vec<Piece> = Vec::new();
                let t = sub_chars(raw, 0, raw.len());
                proof {
                    assert(t@ =~= raw@);
                }
                row.push(Piece { text: t, emphasis: Emphasis::Code });
                let line = to_line(row, true);
                let ghost o1 = out@;
                out.push(line);
                proof {
                    assert(runs_of(row@) =~= seq![Styled { text: raw@, emphasis: Emphasis::Code }]);
                    assert(lines_view(out@) =~= lines_view(o1).push(row_of(line)));
                    assert forall|i: int, j: int| 0 <= i < out@.len() && 0 <= j < out@[i].segments@.len() implies !(
                    #[trigger] out@[i].segments@[j]).chip by {
                        if i < o1.len() {
                            assert(out@[i] == o1[i]);
                        }
                    }
                }
            }
        },
        None => {
            let (vis, open) = strip_comments_exec(raw, *in_comment);
            *in_comment = open;
            let vis_blank = all_whitespace(vis.as_slice());
            let raw_blank = all_whitespace(raw);
            if vis_blank && !raw_blank {
                proof {
                    assert(lines_view(out@) + Seq::<Row>::empty() =~= lines_view(out@));
                }
                return;
            }
            let k2 = lead_ws_exec(vis.as_slice());
            let vt = sub_chars(vis.as_slice(), k2, vis.len());
            proof {
                assert(vt@ =~= trim_start(vis@));
            }
            match fence_opens_exec(vt.as_slice()) {
                Some((c, n)) => {
                    *fence = Some((c, n));
                    proof {
                        assert(lines_view(out@) + Seq::<Row>::empty() =~= lines_view(out@));
                    }
                },
                None => {
                    let rows = block(vis.as_slice(), b);
                    push_rows(out, rows);
                },
            }
        },
    }
}

/// Render `body` into lines that fit `budget` columns: split into lines,
/// fenced blocks kept verbatim, comments dropped, each remaining line read
/// as a block construct, its inline markers parsed, then wrapped. `body`
/// is text already made safe for the terminal; tabs become four spaces.
pub fn render(body: &str, budget: usize) -> (r: Vec<MdLine>)
    ensures
        lines_view(r@) == render_spec(body@, budget as nat),
        no_chips(r@),
{
    let b: usize = if budget == 0 { 1 } else { budget };
    let chars = chars_of(body);
    let clean = expand_tabs_exec(chars.as_slice());
    let lines = lines_exec(clean.as_slice());
    let ghost ls = lines@.map_values(|p: Vec<char>| p@);
    let ghost goal = render_lines(ls, b as nat, None, false);
    let mut out: Vec<MdLine> = Vec::new();
    let mut fence: Option<(char, usize)> = None;
    let mut in_comment = false;
    let mut i: usize = 0;
    proof {
        assert(ls.skip(0) =~= ls);
        assert(lines_view(out@) + goal =~= goal);
    }
    while i < lines.len()
        invariant
            i <= lines@.len(),
            ls == lines@.map_values(|p: Vec<char>| p@),
            lines_view(out@) + render_lines(ls.skip(i as int), b as nat, fence_view(fence), in_comment) == goal,
            no_chips(out@),
        decreases lines.len() - i,
    {
        let ghost st = ls.skip(i as int);
        let ghost o0 = out@;
        let ghost f0 = fence_view(fence);
        let ghost c0 = in_comment;
        proof {
            assert(st.drop_first() =~= ls.skip(i + 1));
            assert(st[0] == lines@[i as int]@);
        }
        render_line(&mut out, &mut fence, &mut in_comment, lines[i].as_slice(), b);
        proof {
            assert(render_lines(st, b as nat, f0, c0) == line_rows(st[0], b as nat, f0, c0) + render_lines(
                ls.skip(i + 1),
                b as nat,
                fence_view(fence),
                in_comment,
            ));
            assert(lines_view(out@) + render_lines(ls.skip(i + 1), b as nat, fence_view(fence), in_comment)
                =~= lines_view(o0) + render_lines(st, b as nat, f0, c0));
        }
        i += 1;
    }
    proof {
        assert(ls.skip(lines@.len() as int) =~= Seq::<Seq<char>>::empty());
        assert(lines_view(out@) + Seq::<Row>::empty() =~= lines_view(out@));
    }
    out
}

proof fn lemma_render_lines_fit(ls: Seq<Seq<char>>, budget: nat, fence: Option<(char, nat)>, in_comment: bool)
    requires
        budget >= 1,
    ensures
        forall|i: int| 0 <= i < render_lines(ls, budget, fence, in_comment).len() && !render_lines(ls, budget, fence, in_comment)[i].preformatted
            ==> width(#[trigger] render_lines(ls, budget, fence, in_comment)[i].runs) <= budget,
    decreases ls.len(),
{
    if ls.len() > 0 {
        let head = line_rows(ls[0], budget, fence, in_comment);
        let nf = next_fence(ls[0], fence, in_comment);
        let nc = next_comment(ls[0], fence, in_comment);
        let tail = render_lines(ls.drop_first(), budget, nf, nc);
        lemma_render_lines_fit(ls.drop_first(), budget, nf, nc);
        if fence is None {
            lemma_block_fits(strip_comments(ls[0], in_comment).0, budget);
        }
        let all = render_lines(ls, budget, fence, in_comment);
        assert(all == head + tail);
        assert forall|i: int| 0 <= i < all.len() && !all[i].preformatted implies width(#[trigger] all[i].runs) <= budget by {
            if i >= head.len() {
                assert(all[i] == tail[i - head.len()]);
            }
        }
    }
}

/// Every row that is not code from a fenced block fits the budget (taken
/// as at least one column): wrapping, rules and heading underlines never
/// run past it.
pub proof fn law_rows_fit_budget(body: Seq<char>, budget: nat)
    ensures
        forall|i: int| 0 <= i < render_spec(body, budget).len() && !render_spec(body, budget)[i].preformatted
            ==> width(#[trigger] render_spec(body, budget)[i].runs) <= (if budget == 0 { 1 } else { budget }),
{
    lemma_render_lines_fit(lines_of(expand_tabs(body)), if budget == 0 { 1 } else { budget }, None, false);
}

proof fn lemma_render_lines_verbatim(ls: Seq<Seq<char>>, budget: nat, fence: Option<(char, nat)>, in_comment: bool)
    ensures
        forall|i: int| 0 <= i < render_lines(ls, budget, fence, in_comment).len() && render_lines(ls, budget, fence, in_comment)[i].preformatted
            ==> verbatim_row(#[trigger] render_lines(ls, budget, fence, in_comment)[i], ls),
    decreases ls.len(),
{
    if ls.len() > 0 {
        let head = line_rows(ls[0], budget, fence, in_comment);
        let nf = next_fence(ls[0], fence, in_comment);
        let nc = next_comment(ls[0], fence, in_comment);
        let tail = render_lines(ls.drop_first(), budget, nf, nc);
        lemma_render_lines_verbatim(ls.drop_first(), budget, nf, nc);
        let all = render_lines(ls, budget, fence, in_comment);
        assert(all == head + tail);
        assert forall|i: int| 0 <= i < all.len() && all[i].preformatted implies verbatim_row(#[trigger] all[i], ls) by {
            if i >= head.len() {
                assert(all[i] == tail[i - head.len()]);
                let t = all[i].runs[0].text;
                let k = choose|k: int| 0 <= k < ls.drop_first().len() && ls.drop_first()[k] == t;
                assert(ls[k + 1] == t);
            } else {
                assert(ls[0] == all[i].runs[0].text);
            }
        }
    }
}

/// A row holding exactly one code run whose text is one of the source lines.
pub open spec fn verbatim_row(row: Row, ls: Seq<Seq<char>>) -> bool {
    &&& row.runs.len() == 1
    &&& row.runs[0].emphasis == Emphasis::Code
    &&& exists|k: int| 0 <= k < ls.len() && ls[k] == row.runs[0].text
}

/// Code in a fenced block is never reflowed or parsed: each code row is a
/// single code run holding one source line exactly as written (tabs
/// widened).
pub proof fn law_fenced_rows_verbatim(body: Seq<char>, budget: nat)
    ensures
        forall|i: int| 0 <= i < render_spec(body, budget).len() && render_spec(body, budget)[i].preformatted
            ==> verbatim_row(#[trigger] render_spec(body, budget)[i], lines_of(expand_tabs(body))),
{
    lemma_render_lines_verbatim(lines_of(expand_tabs(body)), if budget == 0 { 1 } else { budget }, None, false);
}

/// Fence lines and comment-only lines leave no row: the line that closes
/// a fenced block, the line that opens one, and a line whose every
/// character sits inside an HTML comment all vanish, without even a blank
/// row in their place; an opening line starts the block for the lines
/// after it and a closing line ends it.
pub proof fn law_fence_and_comment_lines_vanish(
    raw: Seq<char>,
    budget: nat,
    fence: Option<(char, nat)>,
    in_comment: bool,
    rest: Seq<Seq<char>>,
)
    ensures
        render_lines(seq![raw] + rest, budget, fence, in_comment) == line_rows(raw, budget, fence, in_comment)
            + render_lines(rest, budget, next_fence(raw, fence, in_comment), next_comment(raw, fence, in_comment)),
        match fence {
            Some((m, len)) => fence_closes(trim_start(raw), m, len) ==> line_rows(raw, budget, fence, in_comment).len() == 0
                && next_fence(raw, fence, in_comment) is None,
            None => {
                let vis = strip_comments(raw, in_comment).0;
                &&& all_ws(vis) && !all_ws(raw) ==> line_rows(raw, budget, fence, in_comment).len() == 0
                &&& !(all_ws(vis) && !all_ws(raw)) && fence_opens(trim_start(vis)) is Some ==> line_rows(
                    raw,
                    budget,
                    fence,
                    in_comment,
                ).len() == 0 && next_fence(raw, fence, in_comment) == fence_opens(trim_start(vis))
            },
        },
{
    let ls = seq![raw] + rest;
    assert(ls[0] == raw);
    assert(ls.drop_first() =~= rest);
}

/// The row a line inside a fenced block becomes: one code run holding the
/// line as written.
pub open spec fn code_row(l: Seq<char>) -> Row {
    Row { runs: seq![Styled { text: l, emphasis: Emphasis::Code }], preformatted: true }
}

/// Inside an open fenced block, every line up to the closing fence comes
/// out exactly once, in order, as one code row holding it as written.
pub proof fn law_fence_body_in_order(
    body: Seq<Seq<char>>,
    rest: Seq<Seq<char>>,
    budget: nat,
    marker: char,
    len: nat,
    in_comment: bool,
)
    requires
        forall|i: int| 0 <= i < body.len() ==> !fence_closes(trim_start(#[trigger] body[i]), marker, len),
    ensures
        render_lines(body + rest, budget, Some((marker, len)), in_comment) == body.map_values(|l: Seq<char>| code_row(l))
            + render_lines(rest, budget, Some((marker, len)), in_comment),
    decreases body.len(),
{
    if body.len() == 0 {
        assert(body + rest =~= rest);
        assert(body.map_values(|l: Seq<char>| code_row(l)) =~= Seq::<Row>::empty());
    } else {
        let tail = body.drop_first();
        assert forall|i: int| 0 <= i < tail.len() implies !fence_closes(trim_start(#[trigger] tail[i]), marker, len) by {
            assert(tail[i] == body[i + 1]);
        }
        law_fence_body_in_order(tail, rest, budget, marker, len, in_comment);
        let all = body + rest;
        assert(all[0] == body[0]);
        assert(all.drop_first() =~= tail + rest);
        assert(!fence_closes(trim_start(body[0]), marker, len));
        assert(line_rows(body[0], budget, Some((marker, len)), in_comment) =~= seq![code_row(body[0])]);
        assert(body.map_values(|l: Seq<char>| code_row(l)) =~= seq![code_row(body[0])] + tail.map_values(
            |l: Seq<char>| code_row(l),
        ));
    }
}

proof fn lemma_find_str_first(hay: Seq<char>, needle: Seq<char>, i: int, j: int)
    requires
        0 <= i <= j,
        needle.len() > 0,
        occurs_at(hay, needle, j),
        forall|k: int| i <= k < j ==> !occurs_at(hay, needle, k),
    ensures
        find_str(hay, needle, i) == Some(j),
    decreases j - i,
{
    if i < j {
        lemma_find_str_first(hay, needle, i + 1, j);
    }
}

proof fn lemma_find_char_skip(s: Seq<char>, c: char, i: int, j: int)
    requires
        0 <= i <= j <= s.len(),
        forall|k: int| i <= k < j ==> s[k] != c,
    ensures
        find_char(s, c, i) == find_char(s, c, j),
    decreases j - i,
{
    if i < j {
        lemma_find_char_skip(s, c, i + 1, j);
    }
}

/// In `a + open + ...`, where `a` holds no opener, the first opener is at
/// `a.len()`: an occurrence straddling the end of `a` would need `<`
/// where the opener has `!` or `-`.
proof fn lemma_first_delim(a: Seq<char>, d: Seq<char>, tail: Seq<char>, j: int)
    requires
        d.len() >= 3,
        0 <= j < a.len(),
        !has_infix(a, d),
        d == comment_open() || d == comment_close(),
    ensures
        !occurs_at(a + d + tail, d, j),
{
    let s = a + d + tail;
    if occurs_at(s, d, j) {
        if j + d.len() <= a.len() {
            assert(a.subrange(j, j + d.len()) =~= s.subrange(j, j + d.len()));
            assert(occurs_at(a, d, j));
        } else {
            let k = a.len() - j;
            assert(s.subrange(j, j + d.len())[k] == s[a.len() as int]);
            assert(s[a.len() as int] == d[0]);
            assert(d[k] == d[0]);
            if d == comment_open() {
                assert(d[0] == '<');
            } else {
                assert(d[0] == '-' && d[2] == '>');
                assert(s.subrange(j, j + d.len())[2] == d[2]);
                assert(s[j + 2] == '>');
                if j + 2 >= a.len() {
                    assert(s[j + 2] == d[j + 2 - a.len()]);
                }
            }
        }
    }
}

/// What a comment wraps is never shown: in `a <!-- x --> d`, where `a`
/// opens no comment and holds no backtick span and `x` does not close the
/// comment, what is left to show is `a` followed by what is left of `d`.
pub proof fn law_comment_removed(a: Seq<char>, x: Seq<char>, d: Seq<char>)
    requires
        !has_infix(a, comment_open()),
        forall|k: int| 0 <= k < a.len() ==> a[k] != '`',
        !has_infix(x, comment_close()),
    ensures
        strip_comments(a + comment_open() + x + comment_close() + d, false) == (a + strip_comments(d, false).0,
            strip_comments(d, false).1),
{
    let op = comment_open();
    let cl = comment_close();
    let line = a + op + x + cl + d;
    let t1 = x + cl + d;
    assert(line =~= a + op + t1);
    assert forall|j: int| 0 <= j < a.len() implies !occurs_at(line, op, j) by {
        lemma_first_delim(a, op, t1, j);
    }
    assert(line.subrange(a.len() as int, a.len() + 4int) =~= op);
    lemma_find_str_first(line, op, 0, a.len() as int);
    assert forall|k: int| 0 <= k < a.len() implies line[k] != '`' by {
        assert(line[k] == a[k]);
    }
    lemma_find_char_skip(line, '`', 0, a.len() as int);
    lemma_find_char(line, '`', a.len() as int);
    assert(line.skip(a.len() + 4int) =~= t1);
    assert(line.take(a.len() as int) =~= a);
    assert(t1 =~= x + cl + d);
    assert forall|j: int| 0 <= j < x.len() implies !occurs_at(t1, cl, j) by {
        lemma_first_delim(x, cl, d, j);
    }
    assert(t1.subrange(x.len() as int, x.len() + 3int) =~= cl);
    lemma_find_str_first(t1, cl, 0, x.len() as int);
    assert(t1.skip(x.len() + 3int) =~= d);
    assert(strip_comments(t1, true) == strip_comments(d, false));
    let span = code_span(line);
    assert(span is Some ==> span.unwrap().0 >= a.len());
    assert(find_str(line, op, 0) == Some(a.len() as int));
    assert(strip_comments(line, false) == (line.take(a.len() as int) + strip_comments(line.skip(a.len() + 4int), true).0,
        strip_comments(line.skip(a.len() + 4int), true).1));
}

} // verus!
