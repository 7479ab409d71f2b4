//! One source line of Markdown as a block construct: a blank line, a rule,
//! an ATX heading, a block quote (GitHub alerts included), a list item
//! (task boxes included), or prose. Each comes out as wrapped rows.

use vstd::prelude::*;
use crate::markdown::Emphasis;
use crate::md_inline::{parse_inline, inline_spec, lead_count};
use crate::md_wrap::{Piece, Styled, lemma_wrap_fits, rows_of, runs_of, width, wrap_rows, wrap_spec};
use crate::text::{ascii_digit, ascii_upper, is_ascii_digit, is_whitespace, same_chars, sub_chars, to_ascii_uppercase, unicode_whitespace};

verus! {

/// How many whitespace characters `s` opens with, from `i` on.
pub open spec fn lead_ws(s: Seq<char>, i: int) -> nat
    decreases s.len() - i,
{
    if 0 <= i < s.len() && unicode_whitespace(s[i]) {
        1 + lead_ws(s, i + 1)
    } else {
        0
    }
}

/// How many whitespace characters `s` ends with, among its first `n`.
pub open spec fn trail_ws(s: Seq<char>, n: int) -> nat
    decreases n,
{
    if 0 < n <= s.len() && unicode_whitespace(s[n - 1]) {
        1 + trail_ws(s, n - 1)
    } else {
        0
    }
}

/// `str::trim_start`.
pub open spec fn trim_start(s: Seq<char>) -> Seq<char> {
    s.skip(lead_ws(s, 0) as int)
}

/// `str::trim_end`.
pub open spec fn trim_end(s: Seq<char>) -> Seq<char> {
    s.take(s.len() - trail_ws(s, s.len() as int))
}

/// `str::trim`.
pub open spec fn trim(s: Seq<char>) -> Seq<char> {
    trim_end(trim_start(s))
}

proof fn lemma_lead_ws(s: Seq<char>, i: int)
    requires
        0 <= i <= s.len(),
    ensures
        i + lead_ws(s, i) <= s.len(),
        forall|k: int| i <= k < i + lead_ws(s, i) ==> unicode_whitespace(#[trigger] s[k]),
        i + lead_ws(s, i) < s.len() ==> !unicode_whitespace(s[i + lead_ws(s, i)]),
    decreases s.len() - i,
{
    if i < s.len() && unicode_whitespace(s[i]) {
        lemma_lead_ws(s, i + 1);
    }
}

proof fn lemma_trail_ws(s: Seq<char>, n: int)
    requires
        0 <= n <= s.len(),
    ensures
        trail_ws(s, n) <= n,
    decreases n,
{
    if 0 < n && unicode_whitespace(s[n - 1]) {
        lemma_trail_ws(s, n - 1);
    }
}

pub(crate) fn lead_ws_exec(s: &[char]) -> (r: usize)
    ensures
        r == lead_ws(s@, 0),
        r <= s@.len(),
{
    proof {
        lemma_lead_ws(s@, 0);
    }
    let mut i: usize = 0;
    while i < s.len() && is_whitespace(s[i])
        invariant
            i <= s@.len(),
            lead_ws(s@, 0) == i + lead_ws(s@, i as int),
        decreases s.len() - i,
    {
        i += 1;
    }
    i
}

fn trim_end_exec(s: &[char]) -> (r: Vec<char>)
    ensures
        r@ == trim_end(s@),
{
    proof {
        lemma_trail_ws(s@, s@.len() as int);
    }
    let mut n = s.len();
    while n > 0 && is_whitespace(s[n - 1])
        invariant
            n <= s@.len(),
            trail_ws(s@, s@.len() as int) == (s@.len() - n) + trail_ws(s@, n as int),
        decreases n,
    {
        n -= 1;
    }
    sub_chars(s, 0, n)
}

fn trim_start_exec(s: &[char]) -> (r: Vec<char>)
    ensures
        r@ == trim_start(s@),
{
    let k = lead_ws_exec(s);
    sub_chars(s, k, s.len())
}

fn trim_exec(s: &[char]) -> (r: Vec<char>)
    ensures
        r@ == trim(s@),
{
    let t = trim_start_exec(s);
    trim_end_exec(t.as_slice())
}

/// Every character of `s` is `c`.
pub open spec fn all_are(s: Seq<char>, c: char) -> bool {
    forall|i: int| 0 <= i < s.len() ==> s[i] == c
}

fn all_are_exec(s: &[char], c: char) -> (r: bool)
    ensures
        r == all_are(s@, c),
{
    let mut k: usize = 0;
    while k < s.len()
        invariant
            k <= s@.len(),
            forall|q: int| 0 <= q < k ==> s@[q] == c,
        decreases s.len() - k,
    {
        if s[k] != c {
            return false;
        }
        k += 1;
    }
    true
}

/// A thematic break: three or more of one of `-`, `*`, `_` and nothing else.
pub open spec fn is_rule(trimmed: Seq<char>) -> bool {
    let t = trim_end(trimmed);
    t.len() >= 3 && (all_are(t, '-') || all_are(t, '*') || all_are(t, '_'))
}

fn is_rule_exec(trimmed: &[char]) -> (r: bool)
    ensures
        r == is_rule(trimmed@),
{
    let t = trim_end_exec(trimmed);
    t.len() >= 3 && (all_are_exec(t.as_slice(), '-') || all_are_exec(t.as_slice(), '*') || all_are_exec(
        t.as_slice(),
        '_',
    ))
}

/// `(level, text)` for an ATX heading: one to six `#`, a space, the text.
pub open spec fn heading(trimmed: Seq<char>) -> Option<(nat, Seq<char>)> {
    let hashes = lead_count(trimmed, 0, '#');
    let rest = trimmed.skip(hashes as int);
    if 1 <= hashes <= 6 && rest.len() > 0 && rest[0] == ' ' {
        Some((hashes, trim(rest.skip(1))))
    } else {
        None
    }
}

pub(crate) fn lead_count_at0(s: &[char], c: char) -> (r: usize)
    ensures
        r == lead_count(s@, 0, c),
        r <= s@.len(),
{
    let mut k: usize = 0;
    while k < s.len() && s[k] == c
        invariant
            k <= s@.len(),
            lead_count(s@, 0, c) == k + lead_count(s@, k as int, c),
        decreases s.len() - k,
    {
        k += 1;
    }
    k
}

fn heading_exec(trimmed: &[char]) -> (r: Option<(usize, Vec<char>)>)
    ensures
        match r {
            Some((h, t)) => heading(trimmed@) == Some((h as nat, t@)),
            None => heading(trimmed@) is None,
        },
{
    let hashes = lead_count_at0(trimmed, '#');
    if 1 <= hashes && hashes <= 6 && hashes < trimmed.len() && trimmed[hashes] == ' ' {
        let rest = sub_chars(trimmed, hashes + 1, trimmed.len());
        proof {
            assert(rest@ =~= trimmed@.skip(hashes as int).skip(1));
        }
        let t = trim_exec(rest.as_slice());
        Some((hashes, t))
    } else {
        None
    }
}

/// The quoted text of a block quote line, without its `>` and one space.
pub open spec fn quote(trimmed: Seq<char>) -> Option<Seq<char>> {
    if trimmed.len() > 0 && trimmed[0] == '>' {
        let rest = trimmed.skip(1);
        if rest.len() > 0 && rest[0] == ' ' {
            Some(rest.skip(1))
        } else {
            Some(rest)
        }
    } else {
        None
    }
}

fn quote_exec(trimmed: &[char]) -> (r: Option<Vec<char>>)
    ensures
        match r {
            Some(t) => quote(trimmed@) == Some(t@),
            None => quote(trimmed@) is None,
        },
{
    if trimmed.len() > 0 && trimmed[0] == '>' {
        let from = if trimmed.len() > 1 && trimmed[1] == ' ' { 2 } else { 1 };
        let t = sub_chars(trimmed, from, trimmed.len());
        proof {
            if from == 2 {
                assert(trimmed@.skip(1).skip(1) =~= trimmed@.skip(2));
                assert(t@ =~= trimmed@.skip(1).skip(1));
            } else {
                assert(t@ =~= trimmed@.skip(1));
            }
        }
        Some(t)
    } else {
        None
    }
}

/// The labels the forge renders as callouts.
pub open spec fn known_alert(s: Seq<char>) -> bool {
    ||| s == seq!['N', 'O', 'T', 'E']
    ||| s == seq!['T', 'I', 'P']
    ||| s == seq!['I', 'M', 'P', 'O', 'R', 'T', 'A', 'N', 'T']
    ||| s == seq!['W', 'A', 'R', 'N', 'I', 'N', 'G']
    ||| s == seq!['C', 'A', 'U', 'T', 'I', 'O', 'N']
}

/// The label of a GitHub alert (`> [!IMPORTANT]`), upper-cased.
pub open spec fn github_alert(rest: Seq<char>) -> Option<Seq<char>> {
    let t = trim(rest);
    if t.len() >= 3 && t[0] == '[' && t[1] == '!' && t.last() == ']' {
        let up = t.subrange(2, t.len() - 1).map_values(|c: char| ascii_upper(c));
        if known_alert(up) {
            Some(up)
        } else {
            None
        }
    } else {
        None
    }
}

fn known_alert_exec(s: &[char]) -> (r: bool)
    ensures
        r == known_alert(s@),
{
    let a = vec!['N', 'O', 'T', 'E'];
    let b = vec!['T', 'I', 'P'];
    let c = vec!['I', 'M', 'P', 'O', 'R', 'T', 'A', 'N', 'T'];
    let d = vec!['W', 'A', 'R', 'N', 'I', 'N', 'G'];
    let e = vec!['C', 'A', 'U', 'T', 'I', 'O', 'N'];
    proof {
        assert(a@ =~= seq!['N', 'O', 'T', 'E']);
        assert(b@ =~= seq!['T', 'I', 'P']);
        assert(c@ =~= seq!['I', 'M', 'P', 'O', 'R', 'T', 'A', 'N', 'T']);
        assert(d@ =~= seq!['W', 'A', 'R', 'N', 'I', 'N', 'G']);
        assert(e@ =~= seq!['C', 'A', 'U', 'T', 'I', 'O', 'N']);
    }
    same_chars(s, a.as_slice()) || same_chars(s, b.as_slice()) || same_chars(s, c.as_slice()) || same_chars(
        s,
        d.as_slice(),
    ) || same_chars(s, e.as_slice())
}

fn github_alert_exec(rest: &[char]) -> (r: Option<Vec<char>>)
    ensures
        match r {
            Some(t) => github_alert(rest@) == Some(t@),
            None => github_alert(rest@) is None,
        },
{
    let t = trim_exec(rest);
    let n = t.len();
    if n >= 3 && t[0] == '[' && t[1] == '!' && t[n - 1] == ']' {
        let mut up: Vec<char> = Vec::new();
        let mut k: usize = 2;
        while k < n - 1
            invariant
                2 <= k <= n - 1,
                n == t@.len(),
                up@ == t@.subrange(2, k as int).map_values(|c: char| ascii_upper(c)),
            decreases n - 1 - k,
        {
            up.push(to_ascii_uppercase(t[k]));
            proof {
                assert(t@.subrange(2, k + 1).map_values(|c: char| ascii_upper(c)) =~= t@.subrange(2, k as int).map_values(
                    |c: char| ascii_upper(c),
                ).push(ascii_upper(t@[k as int])));
            }
            k += 1;
        }
        if known_alert_exec(up.as_slice()) {
            Some(up)
        } else {
            None
        }
    } else {
        None
    }
}

/// `(glyph, rest)` for a list item: `•` for a bullet (`-`, `*`, `+`), or
/// the author's own number with its delimiter (`1.`, `2)`) for an ordered
/// item; `rest` is what follows it and one space.
pub open spec fn item_rest(trimmed: Seq<char>) -> Option<(Seq<char>, Seq<char>)> {
    let d = lead_digits(trimmed, 0);
    let r = trimmed.skip(d as int);
    if trimmed.len() >= 2 && (trimmed[0] == '-' || trimmed[0] == '*' || trimmed[0] == '+') && trimmed[1] == ' ' {
        Some((seq!['•'], trimmed.skip(2)))
    } else if d > 0 && r.len() >= 2 && (r[0] == '.' || r[0] == ')') && r[1] == ' ' {
        Some((trimmed.take(d + 1int), r.skip(2)))
    } else {
        None
    }
}

/// How many ASCII digits `s` opens with, from `i` on.
pub open spec fn lead_digits(s: Seq<char>, i: int) -> nat
    decreases s.len() - i,
{
    if 0 <= i < s.len() && ascii_digit(s[i]) {
        1 + lead_digits(s, i + 1)
    } else {
        0
    }
}

/// The glyph a task box shows, if `rest` opens with one: `☑` for `[x] `
/// and `[X] `, `☐` for `[ ] `.
pub open spec fn task_glyph(rest: Seq<char>) -> Option<char> {
    if rest.len() >= 4 && rest[0] == '[' && rest[2] == ']' && rest[3] == ' ' {
        if rest[1] == 'x' || rest[1] == 'X' {
            Some('☑')
        } else if rest[1] == ' ' {
            Some('☐')
        } else {
            None
        }
    } else {
        None
    }
}

/// `(marker, text)` for a list item: the marker is the bullet or the
/// number, then the task box when there is one, each followed by a space.
pub open spec fn list_item(trimmed: Seq<char>) -> Option<(Seq<char>, Seq<char>)> {
    match item_rest(trimmed) {
        None => None,
        Some((glyph, rest)) => match task_glyph(rest) {
            Some(g) => Some((glyph + seq![' ', g, ' '], rest.skip(4))),
            None => Some((glyph + seq![' '], rest)),
        },
    }
}

fn list_item_exec(trimmed: &[char]) -> (r: Option<(Vec<char>, Vec<char>)>)
    ensures
        match r {
            Some((m, t)) => list_item(trimmed@) == Some((m@, t@)),
            None => list_item(trimmed@) is None,
        },
{
    let n = trimmed.len();
    let mut d: usize = 0;
    while d < n && is_ascii_digit(trimmed[d])
        invariant
            d <= n == trimmed@.len(),
            lead_digits(trimmed@, 0) == d + lead_digits(trimmed@, d as int),
        decreases n - d,
    {
        d += 1;
    }
    let rest: Vec<char>;
    let glyph: Vec<char>;
    if n >= 2 && (trimmed[0] == '-' || trimmed[0] == '*' || trimmed[0] == '+') && trimmed[1] == ' ' {
        rest = sub_chars(trimmed, 2, n);
        glyph = vec!['•'];
        proof {
            assert(rest@ =~= trimmed@.skip(2));
            assert(glyph@ =~= seq!['•']);
        }
    } else if d > 0 && n - d >= 2 && (trimmed[d] == '.' || trimmed[d] == ')') && trimmed[d + 1] == ' ' {
        rest = sub_chars(trimmed, d + 2, n);
        glyph = sub_chars(trimmed, 0, d + 1);
        proof {
            assert(rest@ =~= trimmed@.skip(d as int).skip(2));
            assert(glyph@ =~= trimmed@.take(d + 1));
        }
    } else {
        return None;
    }
    proof {
        assert(item_rest(trimmed@) == Some((glyph@, rest@)));
    }
    let m = rest.len();
    if m >= 4 && rest[0] == '[' && rest[2] == ']' && rest[3] == ' ' && (rest[1] == 'x' || rest[1] == 'X'
        || rest[1] == ' ') {
        let g = if rest[1] == ' ' { '☐' } else { '☑' };
        let tail = vec![' ', g, ' '];
        let marker = concat(glyph.as_slice(), tail.as_slice());
        let text = sub_chars(rest.as_slice(), 4, m);
        proof {
            assert(tail@ =~= seq![' ', g, ' ']);
            assert(text@ =~= rest@.skip(4));
        }
        Some((marker, text))
    } else {
        let tail = vec![' '];
        let marker = concat(glyph.as_slice(), tail.as_slice());
        proof {
            assert(tail@ =~= seq![' ']);
        }
        Some((marker, rest))
    }
}

/// `n` copies of `c`.
pub open spec fn repeat(c: char, n: nat) -> Seq<char> {
    Seq::new(n, |_i: int| c)
}

fn repeat_exec(c: char, n: usize) -> (r: Vec<char>)
    ensures
        r@ == repeat(c, n as nat),
{
    let mut v: Vec<char> = Vec::new();
    while v.len() < n
        invariant
            v@.len() <= n,
            forall|q: int| 0 <= q < v@.len() ==> v@[q] == c,
        decreases n - v.len(),
    {
        v.push(c);
    }
    proof {
        assert(v@ =~= repeat(c, n as nat));
    }
    v
}

/// A row holding only the marker run `text`.
pub open spec fn marker_row(text: Seq<char>) -> Seq<Styled> {
    seq![Styled { text, emphasis: Emphasis::Marker }]
}

/// One source line (fences and comments already handled) as rows.
pub open spec fn block_spec(raw: Seq<char>, budget: nat) -> Seq<Seq<Styled>> {
    let trimmed = trim_start(raw);
    let indent = raw.take(lead_ws(raw, 0) as int);
    if trimmed.len() == 0 {
        seq![Seq::empty()]
    } else if is_rule(trimmed) {
        seq![marker_row(repeat('─', if budget < 40 { budget } else { 40 }))]
    } else if heading(trimmed) is Some {
        let (hashes, text) = heading(trimmed)->0;
        let rows = wrap_spec(seq![Styled { text, emphasis: Emphasis::Heading }], budget, Seq::empty(), Seq::empty());
        if hashes <= 2 {
            rows.push(marker_row(repeat('─', if text.len() < budget { text.len() } else { budget })))
        } else {
            rows
        }
    } else if quote(trimmed) is Some {
        let rest = quote(trimmed)->0;
        let runs = match github_alert(rest) {
            Some(alert) => seq![Styled { text: alert, emphasis: Emphasis::Heading }],
            None => inline_spec(rest, Emphasis::Quote),
        };
        let rule = indent + seq!['▎', ' '];
        wrap_spec(runs, budget, rule, rule)
    } else if list_item(trimmed) is Some {
        let (marker, rest) = list_item(trimmed)->0;
        wrap_spec(inline_spec(rest, Emphasis::Plain), budget, indent + marker, indent + repeat(' ', marker.len()))
    } else {
        wrap_spec(inline_spec(trimmed, Emphasis::Plain), budget, indent, indent)
    }
}

fn concat(a: &[char], b: &[char]) -> (r: Vec<char>)
    ensures
        r@ == a@ + b@,
{
    let mut v = sub_chars(a, 0, a.len());
    let mut k: usize = 0;
    let ghost a0 = a@;
    proof {
        assert(v@ =~= a@);
    }
    while k < b.len()
        invariant
            k <= b@.len(),
            v@ == a0 + b@.take(k as int),
        decreases b.len() - k,
    {
        v.push(b[k]);
        proof {
            assert(b@.take(k + 1) =~= b@.take(k as int).push(b@[k as int]));
        }
        k += 1;
    }
    proof {
        assert(b@.take(b@.len() as int) =~= b@);
    }
    v
}

fn marker_row_exec(text: Vec<char>) -> (r: Vec<Piece>)
    ensures
        runs_of(r@) == marker_row(text@),
{
    let mut row: Vec<Piece> = Vec::new();
    row.push(Piece { text, emphasis: Emphasis::Marker });
    proof {
        assert(runs_of(row@) =~= marker_row(text@));
    }
    row
}

/// One source line as rows that fit `budget` columns.
pub fn block(raw: &[char], budget: usize) -> (r: Vec<Vec<Piece>>)
    ensures
        rows_of(r@) == block_spec(raw@, budget as nat),
{
    let k = lead_ws_exec(raw);
    let trimmed = sub_chars(raw, k, raw.len());
    let indent = sub_chars(raw, 0, k);
    proof {
        assert(trimmed@ =~= trim_start(raw@));
    }
    let mut out: Vec<Vec<Piece>> = Vec::new();
    if trimmed.len() == 0 {
        out.push(Vec::new());
        proof {
            assert(runs_of(out@[0]@) =~= Seq::<Styled>::empty());
            assert(rows_of(out@) =~= seq![Seq::<Styled>::empty()]);
        }
        return out;
    }
    if is_rule_exec(trimmed.as_slice()) {
        let n = if budget < 40 { budget } else { 40 };
        out.push(marker_row_exec(repeat_exec('─', n)));
        proof {
            assert(rows_of(out@) =~= block_spec(raw@, budget as nat));
        }
        return out;
    }
    if let Some((hashes, text)) = heading_exec(trimmed.as_slice()) {
        let tl = text.len();
        let mut runs: Vec<Piece> = Vec::new();
        runs.push(Piece { text, emphasis: Emphasis::Heading });
        let ghost tv = heading(trimmed@).unwrap().1;
        proof {
            assert(runs_of(runs@) =~= seq![Styled { text: tv, emphasis: Emphasis::Heading }]);
        }
        let empty: Vec<char> = Vec::new();
        let mut rows = wrap_rows(runs, budget, empty.as_slice(), empty.as_slice());
        proof {
            assert(empty@ =~= Seq::<char>::empty());
        }
        if hashes <= 2 {
            let n = if tl < budget { tl } else { budget };
            let ghost before = rows@;
            rows.push(marker_row_exec(repeat_exec('─', n)));
            proof {
                assert(rows_of(rows@) =~= rows_of(before).push(marker_row(repeat('─', n as nat))));
            }
        }
        return rows;
    }
    if let Some(rest) = quote_exec(trimmed.as_slice()) {
        let runs = match github_alert_exec(rest.as_slice()) {
            Some(alert) => {
                let mut v: Vec<Piece> = Vec::new();
                v.push(Piece { text: alert, emphasis: Emphasis::Heading });
                proof {
                    assert(runs_of(v@) =~= seq![Styled { text: github_alert(rest@)->0, emphasis: Emphasis::Heading }]);
                }
                v
            },
            None => parse_inline(rest.as_slice(), Emphasis::Quote),
        };
        let bar = vec!['▎', ' '];
        let rule = concat(indent.as_slice(), bar.as_slice());
        proof {
            assert(bar@ =~= seq!['▎', ' ']);
        }
        return wrap_rows(runs, budget, rule.as_slice(), rule.as_slice());
    }
    if let Some((marker, rest)) = list_item_exec(trimmed.as_slice()) {
        let runs = parse_inline(rest.as_slice(), Emphasis::Plain);
        let first = concat(indent.as_slice(), marker.as_slice());
        let pad = repeat_exec(' ', marker.len());
        let hang = concat(indent.as_slice(), pad.as_slice());
        return wrap_rows(runs, budget, first.as_slice(), hang.as_slice());
    }
    let runs = parse_inline(trimmed.as_slice(), Emphasis::Plain);
    wrap_rows(runs, budget, indent.as_slice(), indent.as_slice())
}

proof fn lemma_marker_row_width(text: Seq<char>)
    ensures
        width(marker_row(text)) == text.len(),
{
    assert(marker_row(text).drop_last() =~= Seq::<Styled>::empty());
    assert(width(Seq::<Styled>::empty()) == 0);
}

/// Every row a source line gives fits `budget` columns (at least one).
pub proof fn lemma_block_fits(raw: Seq<char>, budget: nat)
    requires
        budget >= 1,
    ensures
        forall|i: int| 0 <= i < block_spec(raw, budget).len() ==> width(#[trigger] block_spec(raw, budget)[i]) <= budget,
{
    let trimmed = trim_start(raw);
    let indent = raw.take(lead_ws(raw, 0) as int);
    let rows = block_spec(raw, budget);
    if trimmed.len() == 0 {
        assert(width(Seq::<Styled>::empty()) == 0);
    } else if is_rule(trimmed) {
        lemma_marker_row_width(repeat('─', if budget < 40 { budget } else { 40 }));
    } else if heading(trimmed) is Some {
        let (hashes, text) = heading(trimmed)->0;
        let runs = seq![Styled { text, emphasis: Emphasis::Heading }];
        lemma_wrap_fits(runs, budget, Seq::empty(), Seq::empty());
        let w = wrap_spec(runs, budget, Seq::empty(), Seq::empty());
        lemma_marker_row_width(repeat('─', if text.len() < budget { text.len() } else { budget }));
        assert forall|i: int| 0 <= i < rows.len() implies width(#[trigger] rows[i]) <= budget by {
            if i < w.len() {
                assert(rows[i] == w[i]);
            }
        }
    } else if quote(trimmed) is Some {
        let rest = quote(trimmed)->0;
        let runs = match github_alert(rest) {
            Some(alert) => seq![Styled { text: alert, emphasis: Emphasis::Heading }],
            None => inline_spec(rest, Emphasis::Quote),
        };
        let rule = indent + seq!['▎', ' '];
        lemma_wrap_fits(runs, budget, rule, rule);
    } else if list_item(trimmed) is Some {
        let (marker, rest) = list_item(trimmed)->0;
        lemma_wrap_fits(inline_spec(rest, Emphasis::Plain), budget, indent + marker, indent + repeat(' ', marker.len()));
    } else {
        lemma_wrap_fits(inline_spec(trimmed, Emphasis::Plain), budget, indent, indent);
    }
}

/// A line whose text opens with `-`, `*` or `+` and a space is a bullet
/// item: its marker is `• `, followed by `☐ ` for an empty task box `[ ] `
/// or `☑ ` for a ticked one (`[x] `, `[X] `); its text is what follows the
/// bullet and the box; and the line is laid out as that text wrapped
/// after the marker, continuation rows indented under it.
pub proof fn law_bullet_lines_are_items(raw: Seq<char>, budget: nat)
    requires
        trim_start(raw).len() >= 2,
        trim_start(raw)[0] == '-' || trim_start(raw)[0] == '*' || trim_start(raw)[0] == '+',
        trim_start(raw)[1] == ' ',
    ensures
        ({
            let t = trim_start(raw);
            let boxed = t.len() >= 6 && t[2] == '[' && t[4] == ']' && t[5] == ' ' && (t[3] == ' ' || t[3] == 'x'
                || t[3] == 'X');
            let indent = raw.take(lead_ws(raw, 0) as int);
            &&& boxed ==> list_item(t) == Some((seq!['•', ' ', if t[3] == ' ' { '☐' } else { '☑' }, ' '], t.skip(6)))
            &&& !boxed ==> list_item(t) == Some((seq!['•', ' '], t.skip(2)))
            &&& block_spec(raw, budget) == wrap_spec(
                inline_spec(list_item(t).unwrap().1, Emphasis::Plain),
                budget,
                indent + list_item(t).unwrap().0,
                indent + repeat(' ', list_item(t).unwrap().0.len()),
            )
        }),
{
    let t = trim_start(raw);
    let e = trim_end(t);
    lemma_lead_ws(raw, 0);
    lemma_trail_ws(t, t.len() as int);
    assert(e.len() >= 3 ==> e[1] == t[1]);
    assert(!is_rule(t));
    assert(lead_count(t, 0, '#') == 0);
    assert(heading(t) is None);
    assert(quote(t) is None);
    let (glyph, rest) = item_rest(t)->0;
    assert(glyph == seq!['•']);
    assert(rest =~= t.skip(2));
    if task_glyph(rest) is Some {
        assert(rest.skip(4) =~= t.skip(6));
        assert(glyph + seq![' ', task_glyph(rest)->0, ' '] =~= seq!['•', ' ', task_glyph(rest)->0, ' ']);
    } else {
        assert(glyph + seq![' '] =~= seq!['•', ' ']);
    }
}

/// A line whose text opens with a number, `.` or `)` and a space is an
/// ordered item that keeps the author's own number: its marker is the
/// number with its delimiter and a space (and the task box, as for a
/// bullet), its text what follows.
pub proof fn law_ordered_lines_keep_their_number(t: Seq<char>, d: int)
    requires
        1 <= d,
        d + 2 <= t.len(),
        forall|i: int| 0 <= i < d ==> ascii_digit(#[trigger] t[i]),
        t[d] == '.' || t[d] == ')',
        t[d + 1] == ' ',
    ensures
        ({
            let rest = t.skip(d + 2);
            let boxed = rest.len() >= 4 && rest[0] == '[' && rest[2] == ']' && rest[3] == ' ' && (rest[1] == ' '
                || rest[1] == 'x' || rest[1] == 'X');
            &&& boxed ==> list_item(t) == Some((t.take(d + 1) + seq![' ', if rest[1] == ' ' { '☐' } else { '☑' }, ' '], rest.skip(4)))
            &&& !boxed ==> list_item(t) == Some((t.take(d + 1) + seq![' '], rest))
        }),
{
    lemma_lead_digits(t, d);
    assert(!ascii_digit(t[d]));
    assert(t.skip(d).skip(2) =~= t.skip(d + 2));
}

proof fn lemma_lead_digits(t: Seq<char>, d: int)
    requires
        0 <= d < t.len(),
        forall|i: int| 0 <= i < d ==> ascii_digit(#[trigger] t[i]),
        !ascii_digit(t[d]),
    ensures
        lead_digits(t, 0) == d,
{
    lemma_lead_digits_from(t, 0, d);
}

proof fn lemma_lead_digits_from(t: Seq<char>, i: int, d: int)
    requires
        0 <= i <= d < t.len(),
        forall|k: int| i <= k < d ==> ascii_digit(#[trigger] t[k]),
        !ascii_digit(t[d]),
    ensures
        lead_digits(t, i) == d - i,
    decreases d - i,
{
    if i < d {
        lemma_lead_digits_from(t, i + 1, d);
    }
}

} // verus!
