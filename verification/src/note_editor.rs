//! The in-TUI note editor: a line buffer, a cursor counted in `char`s, a
//! scroll window, Markdown list continuation, and an optional vim-style
//! normal mode.
//!
//! The buffer is never empty: an empty note is one empty line, so the
//! cursor always has a line to sit on.

use vstd::prelude::*;
use crate::text::{
    chars_of, is_alphanumeric, is_whitespace, string_of, unicode_alphanumeric, unicode_whitespace,
};
use std::path::PathBuf;

verus! {

/// How a line opens, in Markdown list terms.
#[derive(Debug, Clone, Copy, PartialEq, Eq, Structural)]
pub enum ListPrefix {
    /// `- `
    Bullet,
    /// `- [ ] `
    Unchecked,
    /// `- [x] ` (or `- [X] `)
    Checked,
}

/// The marker a continued item is born with: a box is never born ticked.
pub open spec fn continued_marker(k: ListPrefix) -> Seq<char> {
    match k {
        ListPrefix::Bullet => "- "@,
        _ => "- [ ] "@,
    }
}

impl ListPrefix {
    fn continued(self) -> (r: &'static str)
        ensures
            r@ == continued_marker(self),
    {
        match self {
            ListPrefix::Bullet => "- ",
            ListPrefix::Unchecked | ListPrefix::Checked => "- [ ] ",
        }
    }
}

/// The list marker a line carries, measured in `char`s.
#[derive(Debug, Clone, Copy, PartialEq, Eq, Structural)]
pub struct ListLine {
    /// Leading whitespace, in `char`s.
    pub indent: usize,
    pub kind: ListPrefix,
    /// Chars from the start of the line to the item text.
    pub width: usize,
}

/// Number of leading whitespace characters of `s`.
pub open spec fn lead_ws(s: Seq<char>) -> nat
    decreases s.len(),
{
    if s.len() > 0 && unicode_whitespace(s[0]) {
        1 + lead_ws(s.drop_first())
    } else {
        0
    }
}

/// The list marker of `line`, or `None` when the line is prose. A marker
/// needs its space: `-foo` and `--flag` are prose.
pub open spec fn parse_list(line: Seq<char>) -> Option<ListLine> {
    let ind = lead_ws(line);
    let body = line.skip(ind as int);
    if body.len() == 0 || body[0] != '-' {
        None
    } else {
        let rest = body.skip(1);
        if rest.len() >= 2 && rest[0] == ' ' && rest[1] == '[' {
            let after = rest.skip(2);
            if after.len() == 0 {
                None
            } else {
                let kind = if after[0] == ' ' {
                    Some(ListPrefix::Unchecked)
                } else if after[0] == 'x' || after[0] == 'X' {
                    Some(ListPrefix::Checked)
                } else {
                    None
                };
                match kind {
                    None => None,
                    Some(k) => if after.len() < 2 || after[1] != ']' {
                        None
                    } else if after.len() == 2 {
                        Some(ListLine { indent: ind as usize, kind: k, width: (ind + 5) as usize })
                    } else if after[2] == ' ' {
                        Some(ListLine { indent: ind as usize, kind: k, width: (ind + 6) as usize })
                    } else {
                        None
                    },
                }
            }
        } else if rest.len() == 0 {
            Some(ListLine { indent: ind as usize, kind: ListPrefix::Bullet, width: (ind + 1) as usize })
        } else if rest[0] == ' ' {
            Some(ListLine { indent: ind as usize, kind: ListPrefix::Bullet, width: (ind + 2) as usize })
        } else {
            None
        }
    }
}

fn lead_ws_exec(v: &Vec<char>) -> (r: usize)
    ensures
        r == lead_ws(v@),
        r <= v@.len(),
{
    let mut i: usize = 0;
    proof {
        assert(v@.skip(0) =~= v@);
    }
    while i < v.len() && is_whitespace(v[i])
        invariant
            i <= v@.len(),
            lead_ws(v@) == i + lead_ws(v@.skip(i as int)),
        decreases v.len() - i,
    {
        proof {
            assert(v@.skip(i as int).drop_first() =~= v@.skip(i + 1));
        }
        i += 1;
    }
    proof {
        assert(lead_ws(v@.skip(i as int)) == 0) by {
            if i < v@.len() {
                assert(v@.skip(i as int)[0] == v@[i as int]);
            }
        }
    }
    i
}

impl ListLine {
    /// Read the marker off `line` (as characters), or `None` for prose.
    fn parse(line: &Vec<char>) -> (r: Option<ListLine>)
        requires
            line@.len() + 6 < usize::MAX,
        ensures
            r == parse_list(line@),
    {
        let ind = lead_ws_exec(line);
        let n = line.len();
        let ghost body = line@.skip(ind as int);
        if ind >= n || line[ind] != '-' {
            return None;
        }
        let r = ind + 1;
        let ghost rest = body.skip(1);
        proof {
            assert(rest =~= line@.skip(r as int));
        }
        if r + 1 < n && line[r] == ' ' && line[r + 1] == '[' {
            let a = r + 2;
            proof {
                assert(rest.skip(2) =~= line@.skip(a as int));
            }
            if a >= n {
                return None;
            }
            let c0 = line[a];
            let kind = if c0 == ' ' {
                ListPrefix::Unchecked
            } else if c0 == 'x' || c0 == 'X' {
                ListPrefix::Checked
            } else {
                return None;
            };
            if a + 1 >= n || line[a + 1] != ']' {
                return None;
            }
            if a + 2 == n {
                Some(ListLine { indent: ind, kind, width: ind + 5 })
            } else if line[a + 2] == ' ' {
                Some(ListLine { indent: ind, kind, width: ind + 6 })
            } else {
                None
            }
        } else if r == n {
            Some(ListLine { indent: ind, kind: ListPrefix::Bullet, width: ind + 1 })
        } else if line[r] == ' ' {
            Some(ListLine { indent: ind, kind: ListPrefix::Bullet, width: ind + 2 })
        } else {
            None
        }
    }
}

/// Which half of the vim split the buffer is in.
#[derive(Debug, Clone, Copy, PartialEq, Eq, Default, Structural)]
pub enum NoteMode {
    /// Keys are text; the caret may sit one past the last char.
    #[default]
    Insert,
    /// Keys are verbs; the caret sits on a character.
    Normal,
}

/// Character class for the word motions, in vim's terms.
#[derive(Debug, Clone, Copy, PartialEq, Eq, Structural)]
pub enum CharClass {
    Blank,
    /// A keyword char, or any non-blank for the `W` / `B` / `E` motions.
    Word,
    Punct,
}

pub open spec fn class_spec(c: char, big: bool) -> CharClass {
    if unicode_whitespace(c) {
        CharClass::Blank
    } else if big || unicode_alphanumeric(c) || c == '_' {
        CharClass::Word
    } else {
        CharClass::Punct
    }
}

fn class_of(c: char, big: bool) -> (r: CharClass)
    ensures
        r == class_spec(c, big),
{
    if is_whitespace(c) {
        CharClass::Blank
    } else if big || is_alphanumeric(c) || c == '_' {
        CharClass::Word
    } else {
        CharClass::Punct
    }
}

/// The lines of `text`, split on `\n` (a trailing newline leaves a trailing
/// empty line; the empty text is one empty line).
pub open spec fn split_lines(s: Seq<char>) -> Seq<Seq<char>>
    decreases s.len(),
{
    if s.len() == 0 {
        seq![Seq::empty()]
    } else {
        let r = split_lines(s.drop_last());
        if s.last() == '\n' {
            r.push(Seq::empty())
        } else {
            r.update(r.len() - 1, r.last().push(s.last()))
        }
    }
}

/// Lines re-joined with `\n`.
pub open spec fn join_lines(ls: Seq<Seq<char>>) -> Seq<char>
    decreases ls.len(),
{
    if ls.len() == 0 {
        Seq::empty()
    } else if ls.len() == 1 {
        ls[0]
    } else {
        join_lines(ls.drop_last()) + seq!['\n'] + ls.last()
    }
}

pub open spec fn all_ws(s: Seq<char>) -> bool {
    forall|i: int| 0 <= i < s.len() ==> unicode_whitespace(#[trigger] s[i])
}

/// `s` without its trailing newlines.
pub open spec fn strip_trailing_nl(s: Seq<char>) -> Seq<char>
    decreases s.len(),
{
    if s.len() > 0 && s.last() == '\n' {
        strip_trailing_nl(s.drop_last())
    } else {
        s
    }
}

/// The buffer as it goes to disk: blank is no note at all; otherwise the
/// joined lines end in exactly one newline.
pub open spec fn note_text(ls: Seq<Seq<char>>) -> Seq<char> {
    let joined = join_lines(ls);
    if all_ws(joined) {
        Seq::empty()
    } else {
        strip_trailing_nl(joined).push('\n')
    }
}

proof fn lemma_split_nonempty(s: Seq<char>)
    ensures
        split_lines(s).len() >= 1,
    decreases s.len(),
{
    if s.len() > 0 {
        lemma_split_nonempty(s.drop_last());
    }
}

/// Re-joining the lines of a text gives the text back.
pub proof fn law_join_split(s: Seq<char>)
    ensures
        join_lines(split_lines(s)) == s,
    decreases s.len(),
{
    if s.len() > 0 {
        let p = s.drop_last();
        law_join_split(p);
        lemma_split_nonempty(p);
        let r = split_lines(p);
        if s.last() == '\n' {
            assert(r.push(Seq::empty()).drop_last() =~= r);
            assert(join_lines(r.push(Seq::empty())) =~= join_lines(r) + seq!['\n']);
            assert(s =~= p + seq!['\n']);
        } else {
            let u = r.update(r.len() - 1, r.last().push(s.last()));
            if r.len() == 1 {
                assert(u[0] =~= r[0].push(s.last()));
                assert(s =~= p.push(s.last()));
            } else {
                assert(u.drop_last() =~= r.drop_last());
                assert(join_lines(u) =~= join_lines(r.drop_last()) + seq!['\n'] + r.last().push(s.last()));
                assert(join_lines(r) =~= join_lines(r.drop_last()) + seq!['\n'] + r.last());
                assert(s =~= p.push(s.last()));
            }
        }
    }
}

/// Views of a line buffer.
pub open spec fn line_views(ls: Seq<String>) -> Seq<Seq<char>> {
    ls.map_values(|l: String| l@)
}

/// Buffer, cursor and viewport for one note.
#[derive(Debug, Clone)]
pub struct NoteEditor {
    /// Branch the note is keyed on.
    pub branch: String,
    /// Where the text is written on close.
    pub path: PathBuf,
    pub lines: Vec<String>,
    pub cursor_line: usize,
    /// Column in `char`s.
    pub cursor_col: usize,
    /// First visible line.
    pub scroll: usize,
    /// Rows the text area got the last time it was drawn.
    pub viewport: usize,
    /// Whether the buffer differs from what was read off disk.
    pub dirty: bool,
    pub mode: NoteMode,
    /// First half of a two-key normal-mode sequence (`gg`, `dd`).
    pub pending: Option<char>,
}

fn split_text(text: &str) -> (r: Vec<String>)
    ensures
        line_views(r@) == split_lines(text@),
{
    let chars = chars_of(text);
    let mut out: Vec<String> = Vec::new();
    let mut cur: Vec<char> = Vec::new();
    let mut i: usize = 0;
    proof {
        assert(chars@.take(0) =~= Seq::<char>::empty());
    }
    while i < chars.len()
        invariant
            i <= chars@.len(),
            chars@ == text@,
            line_views(out@).push(cur@) == split_lines(chars@.take(i as int)),
        decreases chars.len() - i,
    {
        let c = chars[i];
        let ghost t = chars@.take(i + 1);
        proof {
            assert(t.drop_last() =~= chars@.take(i as int));
            assert(t.last() == c);
        }
        if c == '\n' {
            let s = string_of(&cur);
            let ghost before = out@;
            out.push(s);
            cur = Vec::new();
            proof {
                assert(line_views(out@) =~= line_views(before).push(s@));
                assert(line_views(out@).push(cur@) =~= line_views(before).push(s@).push(Seq::empty()));
            }
        } else {
            let ghost before = cur@;
            cur.push(c);
            proof {
                let lv = line_views(out@);
                assert(lv.push(cur@) =~= lv.push(before).update(lv.len() as int, lv.push(before).last().push(c)));
            }
        }
        i += 1;
    }
    let last = string_of(&cur);
    let ghost before = out@;
    out.push(last);
    proof {
        assert(chars@.take(chars@.len() as int) =~= chars@);
        assert(line_views(out@) =~= line_views(before).push(last@));
    }
    out
}

/// The editor's state, lines taken as character sequences.
pub struct NoteState {
    pub buf: Seq<Seq<char>>,
    pub line: int,
    pub col: int,
    pub scroll: int,
    pub viewport: int,
    pub dirty: bool,
    pub mode: NoteMode,
    pub pending: Option<char>,
}

/// Bound on line counts and line lengths, in `char`s: a string never holds
/// more than `isize::MAX` bytes, so column arithmetic below it never wraps.
pub open spec fn line_cap() -> int {
    isize::MAX as int
}

impl NoteState {
    /// The buffer is never empty and the cursor sits on one of its lines.
    pub open spec fn wf(self) -> bool {
        &&& self.buf.len() >= 1
        &&& 0 <= self.line < self.buf.len()
        &&& 0 <= self.col < line_cap()
        &&& self.buf.len() < line_cap()
        &&& forall|i: int| 0 <= i < self.buf.len() ==> (#[trigger] self.buf[i]).len() < line_cap()
    }

    pub open spec fn cur(self) -> Seq<char> {
        self.buf[self.line]
    }

    pub open spec fn cur_len(self) -> int {
        self.buf[self.line].len() as int
    }

    pub open spec fn with_cursor(self, line: int, col: int) -> NoteState {
        NoteState { line, col, ..self }
    }

    pub open spec fn with_line(self, text: Seq<char>) -> NoteState {
        NoteState { buf: self.buf.update(self.line, text), ..self }
    }
}

pub open spec fn min(a: int, b: int) -> int {
    if a <= b { a } else { b }
}

/// `c` inserted at position `k` of `s`.
pub open spec fn insert_at(s: Seq<char>, k: int, c: char) -> Seq<char> {
    s.take(k).push(c) + s.skip(k)
}

/// `s` without the character at `k`.
pub open spec fn remove_at(s: Seq<char>, k: int) -> Seq<char> {
    s.take(k) + s.skip(k + 1)
}

/// The marker a line opened under `line` is born with.
pub open spec fn continuation_of(line: Seq<char>) -> Seq<char> {
    match parse_list(line) {
        Some(l) => line.take(l.indent as int) + continued_marker(l.kind),
        None => Seq::empty(),
    }
}

/// `line` with the characters `indent..old` replaced by `marker`.
pub open spec fn rewrite_line(line: Seq<char>, indent: int, old: int, marker: Seq<char>) -> Seq<char> {
    line.take(min(indent, line.len() as int)) + marker + line.skip(min(old, line.len() as int))
}

/// Where the caret lands after a marker rewrite: unmoved by a same-width
/// rewrite, carried along past the marker, or onto the item text when the
/// column it pointed at no longer exists.
pub open spec fn rewrite_col(col: int, indent: int, old: int, marker_len: int) -> int {
    let new = indent + marker_len;
    if new == old {
        col
    } else if col >= old {
        col - old + new
    } else {
        new
    }
}

pub open spec fn rewrite_spec(st: NoteState, indent: int, old: int, marker: Seq<char>) -> NoteState {
    NoteState {
        buf: st.buf.update(st.line, rewrite_line(st.cur(), indent, old, marker)),
        col: rewrite_col(st.col, indent, old, marker.len() as int),
        dirty: true,
        ..st
    }
}

/// `Enter`: an empty list item ends the list; otherwise the line splits at
/// the caret and the new line continues the list.
pub open spec fn newline_spec(st: NoteState) -> NoteState {
    let line = st.cur();
    let len = line.len() as int;
    match parse_list(line) {
        Some(l) if all_ws(line.skip(min(l.width as int, len))) => NoteState {
            buf: st.buf.update(st.line, Seq::empty()),
            col: 0,
            dirty: true,
            ..st
        },
        _ => {
            let prefix = continuation_of(line);
            let at = min(st.col, len);
            NoteState {
                buf: st.buf.update(st.line, line.take(at)).insert(st.line + 1, prefix + line.skip(at)),
                line: st.line + 1,
                col: prefix.len() as int,
                dirty: true,
                ..st
            }
        },
    }
}

pub open spec fn toggle_bullet_spec(st: NoteState) -> NoteState {
    match parse_list(st.cur()) {
        Some(l) => rewrite_spec(st, l.indent as int, l.width as int, Seq::empty()),
        None => rewrite_spec(st, lead_ws(st.cur()) as int, lead_ws(st.cur()) as int, "- "@),
    }
}

pub open spec fn toggle_checkbox_spec(st: NoteState) -> NoteState {
    match parse_list(st.cur()) {
        Some(l) => rewrite_spec(
            st,
            l.indent as int,
            l.width as int,
            if l.kind == ListPrefix::Unchecked { "- [x] "@ } else { "- [ ] "@ },
        ),
        None => rewrite_spec(st, lead_ws(st.cur()) as int, lead_ws(st.cur()) as int, "- [ ] "@),
    }
}

/// Typing `c`: it lands at the caret (or at the end of the line when the
/// caret is past it) and the caret moves one on.
pub open spec fn insert_char_spec(st: NoteState, c: char) -> NoteState {
    NoteState {
        buf: st.buf.update(st.line, insert_at(st.cur(), min(st.col, st.cur_len()), c)),
        col: st.col + 1,
        dirty: true,
        ..st
    }
}

pub open spec fn backspace_spec(st: NoteState) -> NoteState {
    if st.col > 0 {
        NoteState { buf: st.buf.update(st.line, remove_at(st.cur(), st.col - 1)), col: st.col - 1, dirty: true, ..st }
    } else if st.line > 0 {
        let prev = st.buf[st.line - 1];
        NoteState {
            buf: st.buf.remove(st.line).update(st.line - 1, prev + st.cur()),
            line: st.line - 1,
            col: prev.len() as int,
            dirty: true,
            ..st
        }
    } else {
        st
    }
}

pub open spec fn delete_spec(st: NoteState) -> NoteState {
    if st.col < st.cur_len() {
        NoteState { buf: st.buf.update(st.line, remove_at(st.cur(), st.col)), dirty: true, ..st }
    } else if st.line + 1 < st.buf.len() {
        NoteState {
            buf: st.buf.remove(st.line + 1).update(st.line, st.cur() + st.buf[st.line + 1]),
            dirty: true,
            ..st
        }
    } else {
        st
    }
}

pub open spec fn left_spec(st: NoteState) -> NoteState {
    if st.col > 0 {
        st.with_cursor(st.line, st.col - 1)
    } else if st.line > 0 {
        st.with_cursor(st.line - 1, st.buf[st.line - 1].len() as int)
    } else {
        st
    }
}

pub open spec fn right_spec(st: NoteState) -> NoteState {
    if st.col < st.cur_len() {
        st.with_cursor(st.line, st.col + 1)
    } else if st.line + 1 < st.buf.len() {
        st.with_cursor(st.line + 1, 0)
    } else {
        st
    }
}

pub open spec fn up_spec(st: NoteState) -> NoteState {
    if st.line > 0 {
        st.with_cursor(st.line - 1, min(st.col, st.buf[st.line - 1].len() as int))
    } else {
        st
    }
}

pub open spec fn down_spec(st: NoteState) -> NoteState {
    if st.line + 1 < st.buf.len() {
        st.with_cursor(st.line + 1, min(st.col, st.buf[st.line + 1].len() as int))
    } else {
        st
    }
}

pub open spec fn page_up_spec(st: NoteState, height: int) -> NoteState {
    let h = if height < 1 { 1 } else { height };
    let l = if st.line >= h { st.line - h } else { 0 };
    st.with_cursor(l, min(st.col, st.buf[l].len() as int))
}

pub open spec fn page_down_spec(st: NoteState, height: int) -> NoteState {
    let h = if height < 1 { 1 } else { height };
    let l = min(st.line + h, st.buf.len() - 1);
    st.with_cursor(l, min(st.col, st.buf[l].len() as int))
}

/// Normal mode keeps the caret on a character.
pub open spec fn clamp_normal_spec(st: NoteState) -> NoteState {
    let last = if st.cur_len() > 0 { st.cur_len() - 1 } else { 0 };
    st.with_cursor(st.line, min(st.col, last))
}

/// `x`: delete the character under the caret, never pulling a line up.
pub open spec fn delete_under_spec(st: NoteState) -> NoteState {
    if st.col < st.cur_len() {
        NoteState { buf: st.buf.update(st.line, remove_at(st.cur(), st.col)), dirty: true, ..st }
    } else {
        st
    }
}

/// `dd`: delete the line; the buffer bottoms out at one empty line.
pub open spec fn delete_line_spec(st: NoteState) -> NoteState {
    if st.buf.len() == 1 {
        if st.buf[0].len() != 0 {
            NoteState { buf: seq![Seq::empty()], col: 0, dirty: true, ..st }
        } else {
            NoteState { col: 0, ..st }
        }
    } else {
        let b = st.buf.remove(st.line);
        NoteState { buf: b, line: min(st.line, b.len() - 1), col: 0, dirty: true, ..st }
    }
}

/// `o` / `O`: open a line at `index`, carrying the list marker.
pub open spec fn open_line_spec(st: NoteState, index: int) -> NoteState {
    let prefix = continuation_of(st.cur());
    NoteState {
        buf: st.buf.insert(index, prefix),
        line: index,
        col: prefix.len() as int,
        mode: NoteMode::Insert,
        dirty: true,
        ..st
    }
}

/// Reading order of caret positions.
pub open spec fn pos_le(l1: int, c1: int, l2: int, c2: int) -> bool {
    l1 < l2 || (l1 == l2 && c1 <= c2)
}

/// Strict reading order of caret positions.
pub open spec fn pos_lt(l1: int, c1: int, l2: int, c2: int) -> bool {
    l1 < l2 || (l1 == l2 && c1 < c2)
}

/// Where `w` and `b` stop: the first character of a run of one class
/// (blanks excluded), or an empty line, which is a word of its own.
pub open spec fn word_start(buf: Seq<Seq<char>>, big: bool, l: int, c: int) -> bool {
    &&& 0 <= l < buf.len()
    &&& if buf[l].len() == 0 {
        c == 0
    } else {
        &&& 0 <= c < buf[l].len()
        &&& class_spec(buf[l][c], big) != CharClass::Blank
        &&& (c == 0 || class_spec(buf[l][c - 1], big) != class_spec(buf[l][c], big))
    }
}

/// Where `e` stops: the last character of a run of one class (blanks
/// excluded).
pub open spec fn word_end(buf: Seq<Seq<char>>, big: bool, l: int, c: int) -> bool {
    &&& 0 <= l < buf.len()
    &&& 0 <= c < buf[l].len()
    &&& class_spec(buf[l][c], big) != CharClass::Blank
    &&& (c + 1 == buf[l].len() || class_spec(buf[l][c + 1], big) != class_spec(buf[l][c], big))
}

/// Column of the buffer's last character (0 on an empty last line): where
/// the forward motions park when no word is left.
pub open spec fn last_spot_col(buf: Seq<Seq<char>>) -> int {
    let n = buf.last().len() as int;
    if n > 0 { n - 1 } else { 0 }
}

/// `w` / `W`: the first word start after the caret, or the buffer's last
/// character when there is none.
pub open spec fn next_word_start(st: NoteState, big: bool, post: NoteState) -> bool {
    &&& post == st.with_cursor(post.line, post.col)
    &&& if exists|l: int, c: int| #[trigger] word_start(st.buf, big, l, c) && pos_lt(st.line, st.col, l, c) {
        &&& word_start(st.buf, big, post.line, post.col)
        &&& pos_lt(st.line, st.col, post.line, post.col)
        &&& forall|l: int, c: int|
            #[trigger] word_start(st.buf, big, l, c) && pos_lt(st.line, st.col, l, c) ==> pos_le(
                post.line,
                post.col,
                l,
                c,
            )
    } else {
        post.line == st.buf.len() - 1 && post.col == last_spot_col(st.buf)
    }
}

/// `b` / `B`: the last word start before the caret, or the top of the
/// buffer when there is none.
pub open spec fn prev_word_start(st: NoteState, big: bool, post: NoteState) -> bool {
    &&& post == st.with_cursor(post.line, post.col)
    &&& if exists|l: int, c: int| #[trigger] word_start(st.buf, big, l, c) && pos_lt(l, c, st.line, st.col) {
        &&& word_start(st.buf, big, post.line, post.col)
        &&& pos_lt(post.line, post.col, st.line, st.col)
        &&& forall|l: int, c: int|
            #[trigger] word_start(st.buf, big, l, c) && pos_lt(l, c, st.line, st.col) ==> pos_le(
                l,
                c,
                post.line,
                post.col,
            )
    } else {
        post.line == 0 && post.col == 0
    }
}

/// `e` / `E`: the first word end after the caret, or the buffer's last
/// character when there is none.
pub open spec fn next_word_end(st: NoteState, big: bool, post: NoteState) -> bool {
    &&& post == st.with_cursor(post.line, post.col)
    &&& if exists|l: int, c: int| #[trigger] word_end(st.buf, big, l, c) && pos_lt(st.line, st.col, l, c) {
        &&& word_end(st.buf, big, post.line, post.col)
        &&& pos_lt(st.line, st.col, post.line, post.col)
        &&& forall|l: int, c: int|
            #[trigger] word_end(st.buf, big, l, c) && pos_lt(st.line, st.col, l, c) ==> pos_le(
                post.line,
                post.col,
                l,
                c,
            )
    } else {
        post.line == st.buf.len() - 1 && post.col == last_spot_col(st.buf)
    }
}

/// One normal-mode key other than a word motion, before the caret is
/// pulled back onto a character.
pub open spec fn normal_plain(st: NoteState, c: char) -> NoteState {
    let len = st.cur_len();
    let last = if len > 0 { len - 1 } else { 0 };
    if c == 'h' {
        st.with_cursor(st.line, if st.col > 0 { st.col - 1 } else { 0 })
    } else if c == 'l' {
        st.with_cursor(st.line, min(st.col + 1, last))
    } else if c == 'j' {
        down_spec(st)
    } else if c == 'k' {
        up_spec(st)
    } else if c == '0' {
        st.with_cursor(st.line, 0)
    } else if c == '^' {
        st.with_cursor(st.line, lead_ws(st.cur()) as int)
    } else if c == '$' {
        st.with_cursor(st.line, len)
    } else if c == 'G' {
        st.with_cursor(st.buf.len() - 1, st.col)
    } else if c == 'g' || c == 'd' {
        NoteState { pending: Some(c), ..st }
    } else if c == 'x' {
        delete_under_spec(st)
    } else if c == 'i' {
        NoteState { mode: NoteMode::Insert, ..st }
    } else if c == 'I' {
        NoteState { col: lead_ws(st.cur()) as int, mode: NoteMode::Insert, ..st }
    } else if c == 'a' {
        NoteState { col: min(st.col + 1, len), mode: NoteMode::Insert, ..st }
    } else if c == 'A' {
        NoteState { col: len, mode: NoteMode::Insert, ..st }
    } else if c == 'o' {
        open_line_spec(st, st.line + 1)
    } else if c == 'O' {
        open_line_spec(st, st.line)
    } else {
        st
    }
}

/// Normal mode pulls the caret back onto a character after every verb;
/// a verb that entered insert mode keeps it where it put it.
pub open spec fn settle(st: NoteState) -> NoteState {
    if st.mode == NoteMode::Normal {
        clamp_normal_spec(st)
    } else {
        st
    }
}

/// One key in normal mode. A pending `g` or `d` consumes the key: `gg`
/// and `dd` run, anything else drops the pair.
pub open spec fn normal_key_ok(st: NoteState, c: char, post: NoteState) -> bool {
    match st.pending {
        Some(first) => {
            let s = NoteState { pending: None, ..st };
            if first == 'g' && c == 'g' {
                post == clamp_normal_spec(s.with_cursor(0, s.col))
            } else if first == 'd' && c == 'd' {
                post == delete_line_spec(s)
            } else {
                post == s
            }
        },
        None => if c == 'w' || c == 'W' {
            next_word_start(st, c == 'W', post)
        } else if c == 'b' || c == 'B' {
            prev_word_start(st, c == 'B', post)
        } else if c == 'e' || c == 'E' {
            next_word_end(st, c == 'E', post)
        } else {
            post == settle(normal_plain(st, c))
        },
    }
}

pub open spec fn clamp_scroll_spec(st: NoteState, height: int) -> NoteState {
    let h = if height < 1 { 1 } else { height };
    let scroll = if st.line < st.scroll {
        st.line
    } else if st.line >= st.scroll + h {
        st.line + 1 - h
    } else {
        st.scroll
    };
    NoteState { viewport: h, scroll, ..st }
}

proof fn lemma_update_views(ls: Seq<String>, i: int, s: String)
    requires
        0 <= i < ls.len(),
    ensures
        line_views(ls.update(i, s)) == line_views(ls).update(i, s@),
{
    assert(line_views(ls.update(i, s)) =~= line_views(ls).update(i, s@));
}

proof fn lemma_insert_views(ls: Seq<String>, i: int, s: String)
    requires
        0 <= i <= ls.len(),
    ensures
        line_views(ls.insert(i, s)) == line_views(ls).insert(i, s@),
{
    assert(line_views(ls.insert(i, s)) =~= line_views(ls).insert(i, s@));
}

proof fn lemma_remove_views(ls: Seq<String>, i: int)
    requires
        0 <= i < ls.len(),
    ensures
        line_views(ls.remove(i)) == line_views(ls).remove(i),
{
    assert(line_views(ls.remove(i)) =~= line_views(ls).remove(i));
}

/// `v[..from] + ins + v[to..]`.
fn splice(v: &Vec<char>, from: usize, to: usize, ins: &[char]) -> (r: Vec<char>)
    requires
        from <= to <= v@.len(),
    ensures
        r@ == v@.take(from as int) + ins@ + v@.skip(to as int),
{
    let mut w: Vec<char> = Vec::new();
    let mut k: usize = 0;
    while k < from
        invariant
            k <= from <= to <= v@.len(),
            w@ == v@.take(k as int),
        decreases from - k,
    {
        w.push(v[k]);
        proof {
            assert(v@.take(k + 1) =~= v@.take(k as int).push(v@[k as int]));
        }
        k += 1;
    }
    let mut j: usize = 0;
    while j < ins.len()
        invariant
            j <= ins@.len(),
            w@ == v@.take(from as int) + ins@.take(j as int),
        decreases ins.len() - j,
    {
        w.push(ins[j]);
        proof {
            assert(ins@.take(j + 1) =~= ins@.take(j as int).push(ins@[j as int]));
        }
        j += 1;
    }
    let ghost mid = w@;
    let mut k = to;
    while k < v.len()
        invariant
            to <= k <= v@.len(),
            w@ == mid + v@.subrange(to as int, k as int),
        decreases v.len() - k,
    {
        w.push(v[k]);
        proof {
            assert(v@.subrange(to as int, k + 1) =~= v@.subrange(to as int, k as int).push(v@[k as int]));
        }
        k += 1;
    }
    proof {
        assert(ins@.take(ins@.len() as int) =~= ins@);
        assert(v@.subrange(to as int, v@.len() as int) =~= v@.skip(to as int));
    }
    w
}

impl NoteEditor {
    pub open spec fn state(&self) -> NoteState {
        NoteState {
            buf: line_views(self.lines@),
            line: self.cursor_line as int,
            col: self.cursor_col as int,
            scroll: self.scroll as int,
            viewport: self.viewport as int,
            dirty: self.dirty,
            mode: self.mode,
            pending: self.pending,
        }
    }

    /// Branch and path are carried unchanged by every edit.
    pub open spec fn same_note(&self, other: &NoteEditor) -> bool {
        self.branch == other.branch && self.path == other.path
    }

    fn cur_chars(&self) -> (r: Vec<char>)
        requires
            self.state().wf(),
        ensures
            r@ == self.state().cur(),
    {
        chars_of(self.lines[self.cursor_line].as_str())
    }

    fn chars_at(&self, index: usize) -> (r: Vec<char>)
        requires
            index < self.lines@.len(),
        ensures
            r@ == self.lines@[index as int]@,
    {
        chars_of(self.lines[index].as_str())
    }

    fn line_len(&self, index: usize) -> (r: usize)
        requires
            self.state().wf(),
        ensures
            r == (if index < self.lines@.len() { self.lines@[index as int]@.len() } else { 0 }),
    {
        if index < self.lines.len() {
            let v = chars_of(self.lines[index].as_str());
            proof {
                assert(self.state().buf[index as int] == self.lines@[index as int]@);
            }
            v.len()
        } else {
            0
        }
    }

    fn set_cur(&mut self, v: &Vec<char>)
        requires
            old(self).state().wf(),
            v@.len() < line_cap(),
        ensures
            final(self).state() == old(self).state().with_line(v@),
            final(self).same_note(old(self)),
            final(self).state().wf(),
    {
        let s = string_of(v.as_slice());
        let ghost ls = self.lines@;
        self.lines.set(self.cursor_line, s);
        proof {
            lemma_update_views(ls, self.cursor_line as int, s);
        }
    }

    /// Open `text` for `branch`, caret at the very end (where an append goes).
    pub fn open(branch: String, path: PathBuf, text: &str) -> (r: NoteEditor)
        requires
            text@.len() + 1 < line_cap(),
        ensures
            r.branch == branch,
            r.path == path,
            r.state() == (NoteState {
                buf: split_lines(text@),
                line: split_lines(text@).len() - 1,
                col: split_lines(text@).last().len() as int,
                scroll: 0,
                viewport: 10,
                dirty: false,
                mode: NoteMode::Insert,
                pending: None,
            }),
            r.state().wf(),
    {
        let lines = split_text(text);
        proof {
            lemma_split_nonempty(text@);
            lemma_split_bounds(text@);
        }
        let cursor_line = lines.len() - 1;
        let cursor_col = chars_of(lines[cursor_line].as_str()).len();
        proof {
            assert(line_views(lines@)[cursor_line as int] == lines@[cursor_line as int]@);
            let b = split_lines(text@);
            assert forall|i: int| 0 <= i < b.len() implies (#[trigger] b[i]).len() < line_cap() by {}
        }
        NoteEditor {
            branch,
            path,
            lines,
            cursor_line,
            cursor_col,
            scroll: 0,
            viewport: 10,
            dirty: false,
            mode: NoteMode::Insert,
            pending: None,
        }
    }

    /// The buffer as it goes to disk: nothing for a blank buffer, otherwise
    /// the lines joined with `\n` and ending in exactly one newline.
    pub fn text(&self) -> (r: String)
        ensures
            r@ == note_text(self.state().buf),
    {
        let ghost buf = self.state().buf;
        let mut joined: Vec<char> = Vec::new();
        let mut i: usize = 0;
        while i < self.lines.len()
            invariant
                buf == line_views(self.lines@),
                i <= self.lines@.len(),
                joined@ == join_lines(buf.take(i as int)),
            decreases self.lines.len() - i,
        {
            let ghost before = joined@;
            if i > 0 {
                joined.push('\n');
            }
            let cs = self.chars_at(i);
            let mut k: usize = 0;
            let ghost mid = joined@;
            while k < cs.len()
                invariant
                    k <= cs@.len(),
                    joined@ == mid + cs@.take(k as int),
                decreases cs.len() - k,
            {
                joined.push(cs[k]);
                proof {
                    assert(cs@.take(k + 1) =~= cs@.take(k as int).push(cs@[k as int]));
                }
                k += 1;
            }
            proof {
                assert(cs@.take(cs@.len() as int) =~= cs@);
                assert(buf.take(i + 1).drop_last() =~= buf.take(i as int));
                assert(buf.take(i + 1).last() == cs@);
                if i == 0 {
                    assert(buf.take(1) =~= seq![cs@]);
                    assert(joined@ =~= cs@);
                } else {
                    assert(joined@ =~= before + seq!['\n'] + cs@);
                }
            }
            i += 1;
        }
        proof {
            assert(buf.take(buf.len() as int) =~= buf);
        }
        // blank (all whitespace) is no note at all
        let mut blank = true;
        let mut j: usize = 0;
        while j < joined.len()
            invariant
                j <= joined@.len(),
                blank == forall|q: int| 0 <= q < j ==> unicode_whitespace(#[trigger] joined@[q]),
            decreases joined.len() - j,
        {
            if !is_whitespace(joined[j]) {
                blank = false;
            }
            j += 1;
        }
        if blank {
            return String::new();
        }
        let mut n = joined.len();
        proof {
            assert(joined@.take(joined@.len() as int) =~= joined@);
        }
        while n > 0 && joined[n - 1] == '\n'
            invariant
                n <= joined@.len(),
                strip_trailing_nl(joined@) == strip_trailing_nl(joined@.take(n as int)),
            decreases n,
        {
            proof {
                assert(joined@.take(n as int).drop_last() =~= joined@.take(n - 1));
            }
            n -= 1;
        }
        proof {
            assert(joined@.take(joined@.len() as int) =~= joined@);
        }
        let mut out: Vec<char> = Vec::new();
        let mut k: usize = 0;
        while k < n
            invariant
                k <= n <= joined@.len(),
                out@ == joined@.take(k as int),
            decreases n - k,
        {
            out.push(joined[k]);
            proof {
                assert(joined@.take(k + 1) =~= joined@.take(k as int).push(joined@[k as int]));
            }
            k += 1;
        }
        out.push('\n');
        string_of(out.as_slice())
    }

    /// Type `c` at the caret.
    pub fn insert_char(&mut self, c: char)
        requires
            old(self).state().wf(),
            old(self).state().cur_len() + 1 < line_cap(),
            old(self).state().col + 1 < line_cap(),
        ensures
            final(self).same_note(old(self)),
            final(self).state() == insert_char_spec(old(self).state(), c),
            final(self).state().wf(),
    {
        let v = self.cur_chars();
        let at = if self.cursor_col < v.len() { self.cursor_col } else { v.len() };
        let mut w: Vec<char> = Vec::new();
        let mut k: usize = 0;
        while k < at
            invariant
                k <= at <= v@.len(),
                w@ == v@.take(k as int),
            decreases at - k,
        {
            w.push(v[k]);
            proof {
                assert(v@.take(k + 1) =~= v@.take(k as int).push(v@[k as int]));
            }
            k += 1;
        }
        w.push(c);
        let mut k = at;
        let ghost mid = w@;
        while k < v.len()
            invariant
                at <= k <= v@.len(),
                w@ == mid + v@.subrange(at as int, k as int),
            decreases v.len() - k,
        {
            w.push(v[k]);
            proof {
                assert(v@.subrange(at as int, k + 1) =~= v@.subrange(at as int, k as int).push(v@[k as int]));
            }
            k += 1;
        }
        proof {
            assert(w@ =~= insert_at(v@, at as int, c));
        }
        self.set_cur(&w);
        self.cursor_col = self.cursor_col + 1;
        self.dirty = true;
    }

    fn put_line_at(&mut self, index: usize, v: &Vec<char>)
        requires
            index < old(self).lines@.len(),
        ensures
            line_views(final(self).lines@) == line_views(old(self).lines@).update(index as int, v@),
            final(self).lines@.len() == old(self).lines@.len(),
            final(self).cursor_line == old(self).cursor_line,
            final(self).cursor_col == old(self).cursor_col,
            final(self).scroll == old(self).scroll,
            final(self).viewport == old(self).viewport,
            final(self).dirty == old(self).dirty,
            final(self).mode == old(self).mode,
            final(self).pending == old(self).pending,
            final(self).same_note(old(self)),
    {
        let s = string_of(v.as_slice());
        let ghost ls = self.lines@;
        self.lines.set(index, s);
        proof {
            lemma_update_views(ls, index as int, s);
        }
    }

    /// Leading whitespace of line `index`, in `char`s.
    fn indent_of(&self, index: usize) -> (r: usize)
        requires
            index < self.lines@.len(),
        ensures
            r == lead_ws(self.lines@[index as int]@),
            r <= self.lines@[index as int]@.len(),
    {
        let v = self.chars_at(index);
        lead_ws_exec(&v)
    }

    /// The marker a line opened under `index` is born with.
    fn continuation_prefix(&self, index: usize) -> (r: Vec<char>)
        requires
            self.state().wf(),
            index < self.lines@.len(),
        ensures
            r@ == continuation_of(self.lines@[index as int]@),
    {
        let v = self.chars_at(index);
        proof {
            assert(self.state().buf[index as int] == self.lines@[index as int]@);
        }
        match ListLine::parse(&v) {
            Some(l) => {
                let m = chars_of(l.kind.continued());
                proof {
                    assert(l.indent <= v@.len()) by {
                        assert(lead_ws(v@) <= v@.len()) by {
                            lemma_lead_ws_le(v@);
                        }
                    }
                }
                splice(&v, l.indent, v.len(), m.as_slice())
            },
            None => Vec::new(),
        }
    }

    /// Replace the chars `indent..old` of the caret's line with `marker`,
    /// carrying the caret along.
    fn rewrite_marker(&mut self, indent: usize, marker_end: usize, marker: &str)
        requires
            old(self).state().wf(),
            indent <= marker_end,
            old(self).state().cur_len() + marker@.len() < line_cap(),
            indent + marker@.len() < line_cap(),
            old(self).state().col + indent + marker@.len() < line_cap(),
        ensures
            final(self).same_note(old(self)),
            final(self).state() == rewrite_spec(old(self).state(), indent as int, marker_end as int, marker@),
            final(self).state().wf(),
    {
        let v = self.cur_chars();
        let m = chars_of(marker);
        let from = if indent < v.len() { indent } else { v.len() };
        let to = if marker_end < v.len() { marker_end } else { v.len() };
        let w = splice(&v, from, to, m.as_slice());
        self.set_cur(&w);
        let new = indent + m.len();
        self.cursor_col = if new == marker_end {
            self.cursor_col
        } else if self.cursor_col >= marker_end {
            self.cursor_col - marker_end + new
        } else {
            new
        };
        self.dirty = true;
    }

    /// `Enter`: split the line at the caret, continuing the list the line
    /// is part of; an item whose text is empty ends the list instead.
    pub fn newline(&mut self)
        requires
            old(self).state().wf(),
            old(self).state().buf.len() + 1 < line_cap(),
            2 * old(self).state().cur_len() + 8 < line_cap(),
        ensures
            final(self).same_note(old(self)),
            final(self).state() == newline_spec(old(self).state()),
            final(self).state().wf(),
    {
        let v = self.cur_chars();
        let ghost st = self.state();
        let list = ListLine::parse(&v);
        if let Some(l) = list {
            let at = if l.width < v.len() { l.width } else { v.len() };
            let mut blank = true;
            let mut k = at;
            while k < v.len()
                invariant
                    at <= k <= v@.len(),
                    blank == forall|q: int| at <= q < k ==> unicode_whitespace(#[trigger] v@[q]),
                decreases v.len() - k,
            {
                if !is_whitespace(v[k]) {
                    blank = false;
                }
                k += 1;
            }
            proof {
                assert(blank == all_ws(v@.skip(at as int))) by {
                    if blank {
                        assert forall|q: int| 0 <= q < v@.skip(at as int).len() implies unicode_whitespace(
                            #[trigger] v@.skip(at as int)[q],
                        ) by {
                            assert(v@.skip(at as int)[q] == v@[at + q]);
                        }
                    } else {
                        let q = choose|q: int| at <= q < v@.len() && !unicode_whitespace(#[trigger] v@[q]);
                        assert(v@.skip(at as int)[q - at] == v@[q]);
                    }
                }
            }
            if blank {
                let empty: Vec<char> = Vec::new();
                self.set_cur(&empty);
                self.cursor_col = 0;
                self.dirty = true;
                return;
            }
        }
        let prefix = self.continuation_prefix(self.cursor_line);
        let at = if self.cursor_col < v.len() { self.cursor_col } else { v.len() };
        let head = splice(&v, at, v.len(), &[]);
        let rest = splice(&v, 0, at, &[]);
        let tail = splice(&prefix, prefix.len(), prefix.len(), rest.as_slice());
        proof {
            assert(rest@ =~= v@.skip(at as int));
            assert(head@ =~= v@.take(at as int));
            assert(tail@ =~= prefix@ + v@.skip(at as int));
            lemma_continuation_len(v@);
        }
        self.set_cur(&head);
        let s = string_of(tail.as_slice());
        let ghost ls = self.lines@;
        self.lines.insert(self.cursor_line + 1, s);
        proof {
            lemma_insert_views(ls, self.cursor_line + 1, s);
        }
        self.cursor_col = prefix.len();
        self.cursor_line = self.cursor_line + 1;
        self.dirty = true;
        proof {
            let b = self.state().buf;
            assert forall|i: int| 0 <= i < b.len() implies (#[trigger] b[i]).len() < line_cap() by {
                if i < st.line {
                    assert(b[i] == st.buf[i]);
                } else if i > st.line + 1 {
                    assert(b[i] == st.buf[i - 1]);
                } else if i == st.line {
                    assert(b[i] == v@.take(at as int));
                } else {
                    assert(b[i] == prefix@ + v@.skip(at as int));
                }
            }
        }
    }

    /// Make the caret's line a list item, or take the marker back off it.
    pub fn toggle_bullet(&mut self)
        requires
            old(self).state().wf(),
            old(self).state().cur_len() + 8 < line_cap(),
            old(self).state().col + old(self).state().cur_len() + 8 < line_cap(),
        ensures
            final(self).same_note(old(self)),
            final(self).state() == toggle_bullet_spec(old(self).state()),
            final(self).state().wf(),
    {
        let v = self.cur_chars();
        proof {
            lemma_lead_ws_le(v@);
        }
        match ListLine::parse(&v) {
            Some(l) => {
                proof {
                    reveal_strlit("");
                }
                self.rewrite_marker(l.indent, l.width, "")
            },
            None => {
                let indent = self.indent_of(self.cursor_line);
                proof {
                    reveal_strlit("- ");
                }
                self.rewrite_marker(indent, indent, "- ");
            },
        }
    }

    /// Tick the box on the caret's line, spawning one first when the line
    /// has none: a bullet gains an empty box, an empty box is ticked, a
    /// ticked box is emptied.
    pub fn toggle_checkbox(&mut self)
        requires
            old(self).state().wf(),
            old(self).state().cur_len() + 8 < line_cap(),
            old(self).state().col + old(self).state().cur_len() + 8 < line_cap(),
        ensures
            final(self).same_note(old(self)),
            final(self).state() == toggle_checkbox_spec(old(self).state()),
            final(self).state().wf(),
    {
        let v = self.cur_chars();
        proof {
            lemma_lead_ws_le(v@);
        }
        match ListLine::parse(&v) {
            Some(l) => {
                proof {
                    reveal_strlit("- [x] ");
                    reveal_strlit("- [ ] ");
                }
                let marker = if l.kind == ListPrefix::Unchecked { "- [x] " } else { "- [ ] " };
                self.rewrite_marker(l.indent, l.width, marker);
            },
            None => {
                let indent = self.indent_of(self.cursor_line);
                proof {
                    reveal_strlit("- [ ] ");
                }
                self.rewrite_marker(indent, indent, "- [ ] ");
            },
        }
    }

    /// Delete backwards; at column 0, join the line onto the previous one.
    pub fn backspace(&mut self)
        requires
            old(self).state().wf(),
            old(self).state().col <= old(self).state().cur_len(),
            old(self).state().line > 0 ==> old(self).state().buf[old(self).state().line - 1].len()
                + old(self).state().cur_len() < line_cap(),
        ensures
            final(self).same_note(old(self)),
            final(self).state() == backspace_spec(old(self).state()),
            final(self).state().wf(),
    {
        let ghost st = self.state();
        if self.cursor_col > 0 {
            let v = self.cur_chars();
            let w = splice(&v, self.cursor_col - 1, self.cursor_col, &[]);
            self.set_cur(&w);
            self.cursor_col = self.cursor_col - 1;
            self.dirty = true;
            proof {
                assert(w@ =~= remove_at(v@, st.col - 1));
            }
        } else if self.cursor_line > 0 {
            let tail = self.cur_chars();
            let ghost ls = self.lines@;
            self.lines.remove(self.cursor_line);
            proof {
                lemma_remove_views(ls, self.cursor_line as int);
            }
            self.cursor_line = self.cursor_line - 1;
            let prev = self.cur_chars();
            let joined = splice(&prev, prev.len(), prev.len(), tail.as_slice());
            self.cursor_col = prev.len();
            self.set_cur(&joined);
            self.dirty = true;
            proof {
                assert(joined@ =~= prev@ + tail@);
                let b = self.state().buf;
                assert forall|i: int| 0 <= i < b.len() implies (#[trigger] b[i]).len() < line_cap() by {
                    if i < st.line - 1 {
                        assert(b[i] == st.buf[i]);
                    } else if i >= st.line {
                        assert(b[i] == st.buf[i + 1]);
                    }
                }
            }
        }
    }

    /// Delete forwards, joining the next line in at the end of a line.
    pub fn delete(&mut self)
        requires
            old(self).state().wf(),
            old(self).state().line + 1 < old(self).state().buf.len() ==> old(self).state().cur_len()
                + old(self).state().buf[old(self).state().line + 1].len() < line_cap(),
        ensures
            final(self).same_note(old(self)),
            final(self).state() == delete_spec(old(self).state()),
            final(self).state().wf(),
    {
        let ghost st = self.state();
        let v = self.cur_chars();
        if self.cursor_col < v.len() {
            let w = splice(&v, self.cursor_col, self.cursor_col + 1, &[]);
            self.set_cur(&w);
            self.dirty = true;
            proof {
                assert(w@ =~= remove_at(v@, st.col));
            }
        } else if self.cursor_line + 1 < self.lines.len() {
            let next = self.chars_at(self.cursor_line + 1);
            let ghost ls = self.lines@;
            self.lines.remove(self.cursor_line + 1);
            proof {
                lemma_remove_views(ls, self.cursor_line + 1);
                assert(next@ == st.buf[st.line + 1]);
            }
            let joined = splice(&v, v.len(), v.len(), next.as_slice());
            self.set_cur(&joined);
            self.dirty = true;
            proof {
                assert(joined@ =~= v@ + next@);
                let b = self.state().buf;
                assert forall|i: int| 0 <= i < b.len() implies (#[trigger] b[i]).len() < line_cap() by {
                    if i < st.line {
                        assert(b[i] == st.buf[i]);
                    } else if i > st.line {
                        assert(b[i] == st.buf[i + 1]);
                    }
                }
            }
        }
    }

    /// Left, wrapping onto the end of the previous line.
    pub fn left(&mut self)
        requires
            old(self).state().wf(),
        ensures
            final(self).same_note(old(self)),
            final(self).state() == left_spec(old(self).state()),
            final(self).state().wf(),
    {
        if self.cursor_col > 0 {
            self.cursor_col -= 1;
        } else if self.cursor_line > 0 {
            self.cursor_line -= 1;
            self.cursor_col = self.line_len(self.cursor_line);
        }
    }

    /// Right, wrapping onto the start of the next line.
    pub fn right(&mut self)
        requires
            old(self).state().wf(),
        ensures
            final(self).same_note(old(self)),
            final(self).state() == right_spec(old(self).state()),
            final(self).state().wf(),
    {
        if self.cursor_col < self.line_len(self.cursor_line) {
            self.cursor_col += 1;
        } else if self.cursor_line + 1 < self.lines.len() {
            self.cursor_line += 1;
            self.cursor_col = 0;
        }
    }

    /// Up, clamping the column onto the shorter line.
    pub fn up(&mut self)
        requires
            old(self).state().wf(),
        ensures
            final(self).same_note(old(self)),
            final(self).state() == up_spec(old(self).state()),
            final(self).state().wf(),
    {
        if self.cursor_line > 0 {
            self.cursor_line -= 1;
            let n = self.line_len(self.cursor_line);
            self.cursor_col = if self.cursor_col < n { self.cursor_col } else { n };
        }
    }

    /// Down, clamping the column onto the shorter line.
    pub fn down(&mut self)
        requires
            old(self).state().wf(),
        ensures
            final(self).same_note(old(self)),
            final(self).state() == down_spec(old(self).state()),
            final(self).state().wf(),
    {
        if self.cursor_line + 1 < self.lines.len() {
            self.cursor_line += 1;
            let n = self.line_len(self.cursor_line);
            self.cursor_col = if self.cursor_col < n { self.cursor_col } else { n };
        }
    }

    pub fn home(&mut self)
        requires
            old(self).state().wf(),
        ensures
            final(self).same_note(old(self)),
            final(self).state() == old(self).state().with_cursor(old(self).state().line, 0),
            final(self).state().wf(),
    {
        self.cursor_col = 0;
    }

    pub fn end(&mut self)
        requires
            old(self).state().wf(),
        ensures
            final(self).same_note(old(self)),
            final(self).state() == old(self).state().with_cursor(old(self).state().line, old(self).state().cur_len()),
            final(self).state().wf(),
    {
        self.cursor_col = self.line_len(self.cursor_line);
    }

    pub fn page_up(&mut self, height: usize)
        requires
            old(self).state().wf(),
        ensures
            final(self).same_note(old(self)),
            final(self).state() == page_up_spec(old(self).state(), height as int),
            final(self).state().wf(),
    {
        let h = if height < 1 { 1 } else { height };
        self.cursor_line = self.cursor_line.saturating_sub(h);
        let n = self.line_len(self.cursor_line);
        self.cursor_col = if self.cursor_col < n { self.cursor_col } else { n };
    }

    pub fn page_down(&mut self, height: usize)
        requires
            old(self).state().wf(),
        ensures
            final(self).same_note(old(self)),
            final(self).state() == page_down_spec(old(self).state(), height as int),
            final(self).state().wf(),
    {
        let last = self.lines.len() - 1;
        let h = if height < 1 { 1 } else { height };
        let target = if self.cursor_line < last && h < last - self.cursor_line { self.cursor_line + h } else { last };
        self.cursor_line = target;
        let n = self.line_len(self.cursor_line);
        self.cursor_col = if self.cursor_col < n { self.cursor_col } else { n };
    }

    /// Keep the caret on a character (normal mode's rule).
    pub fn clamp_normal(&mut self)
        requires
            old(self).state().wf(),
        ensures
            final(self).same_note(old(self)),
            final(self).state() == clamp_normal_spec(old(self).state()),
            final(self).state().wf(),
    {
        let last = self.line_len(self.cursor_line).saturating_sub(1);
        self.cursor_col = if self.cursor_col < last { self.cursor_col } else { last };
    }

    /// Leave insert mode, pulling the caret back onto a character.
    pub fn enter_normal(&mut self)
        requires
            old(self).state().wf(),
        ensures
            final(self).same_note(old(self)),
            final(self).state() == clamp_normal_spec(
                NoteState { mode: NoteMode::Normal, pending: None, ..old(self).state() },
            ),
            final(self).state().wf(),
    {
        self.mode = NoteMode::Normal;
        self.pending = None;
        self.clamp_normal();
    }

    fn delete_under(&mut self)
        requires
            old(self).state().wf(),
        ensures
            final(self).same_note(old(self)),
            final(self).state() == delete_under_spec(old(self).state()),
            final(self).state().wf(),
    {
        let v = self.cur_chars();
        if self.cursor_col < v.len() {
            let w = splice(&v, self.cursor_col, self.cursor_col + 1, &[]);
            self.set_cur(&w);
            self.dirty = true;
            proof {
                assert(w@ =~= remove_at(v@, self.cursor_col as int));
            }
        }
    }

    fn delete_line(&mut self)
        requires
            old(self).state().wf(),
        ensures
            final(self).same_note(old(self)),
            final(self).state() == delete_line_spec(old(self).state()),
            final(self).state().wf(),
    {
        let ghost st = self.state();
        if self.lines.len() == 1 {
            if self.line_len(0) != 0 {
                let empty: Vec<char> = Vec::new();
                self.put_line_at(0, &empty);
                self.dirty = true;
                proof {
                    assert(self.state().buf =~= seq![Seq::<char>::empty()]);
                }
            }
        } else {
            let ghost ls = self.lines@;
            self.lines.remove(self.cursor_line);
            proof {
                lemma_remove_views(ls, self.cursor_line as int);
            }
            let last = self.lines.len() - 1;
            self.cursor_line = if self.cursor_line < last { self.cursor_line } else { last };
            self.dirty = true;
            proof {
                let b = self.state().buf;
                assert forall|i: int| 0 <= i < b.len() implies (#[trigger] b[i]).len() < line_cap() by {
                    if i < st.line {
                        assert(b[i] == st.buf[i]);
                    } else {
                        assert(b[i] == st.buf[i + 1]);
                    }
                }
            }
        }
        self.cursor_col = 0;
    }

    fn open_line(&mut self, index: usize)
        requires
            old(self).state().wf(),
            index <= old(self).lines@.len(),
            old(self).state().buf.len() + 1 < line_cap(),
            old(self).state().cur_len() + 8 < line_cap(),
        ensures
            final(self).same_note(old(self)),
            final(self).state() == open_line_spec(old(self).state(), index as int),
            final(self).state().wf(),
    {
        let ghost st = self.state();
        let prefix = self.continuation_prefix(self.cursor_line);
        proof {
            lemma_continuation_len(st.cur());
        }
        self.cursor_col = prefix.len();
        let s = string_of(prefix.as_slice());
        let ghost ls = self.lines@;
        self.lines.insert(index, s);
        proof {
            lemma_insert_views(ls, index as int, s);
        }
        self.cursor_line = index;
        self.mode = NoteMode::Insert;
        self.dirty = true;
        proof {
            let b = self.state().buf;
            assert forall|i: int| 0 <= i < b.len() implies (#[trigger] b[i]).len() < line_cap() by {
                if i < index {
                    assert(b[i] == st.buf[i]);
                } else if i > index {
                    assert(b[i] == st.buf[i - 1]);
                }
            }
        }
    }

    /// The caret position `w` / `W` moves to.
    fn seek_word_start(&self, big: bool) -> (r: (usize, usize))
        requires
            self.state().wf(),
        ensures
            next_word_start(self.state(), big, self.state().with_cursor(r.0 as int, r.1 as int)),
    {
        let ghost st = self.state();
        let ghost buf = st.buf;
        let sl = self.cursor_line;
        let sc = self.cursor_col;
        let mut line = sl;
        let mut col = sc;
        let mut chars = self.chars_at(line);
        if col < chars.len() {
            let from = class_of(chars[col], big);
            while from != CharClass::Blank && col < chars.len() && class_of(chars[col], big) == from
                invariant
                    line == sl,
                    chars@ == buf[line as int],
                    sc < chars@.len(),
                    sc <= col <= chars@.len(),
                    from == class_spec(chars@[sc as int], big),
                    col > sc ==> class_spec(chars@[col - 1], big) == from,
                    forall|l: int, c: int|
                        #[trigger] word_start(buf, big, l, c) && pos_lt(sl as int, sc as int, l, c) ==> pos_le(
                            line as int,
                            col as int,
                            l,
                            c,
                        ),
                decreases chars.len() - col,
            {
                col += 1;
            }
        }
        loop
            invariant
                st == self.state(),
                buf == st.buf,
                st.wf(),
                sl == st.line,
                sc == st.col,
                line < buf.len(),
                chars@ == buf[line as int],
                pos_le(sl as int, sc as int, line as int, col as int),
                line > sl ==> chars@.len() > 0,
                col < line_cap(),
                forall|l: int, c: int|
                    #[trigger] word_start(buf, big, l, c) && pos_lt(sl as int, sc as int, l, c) ==> pos_le(
                        line as int,
                        col as int,
                        l,
                        c,
                    ),
                col < chars@.len() && class_spec(chars@[col as int], big) != CharClass::Blank ==> word_start(
                    buf,
                    big,
                    line as int,
                    col as int,
                ) && pos_lt(sl as int, sc as int, line as int, col as int),
            decreases buf.len() - line, if col < chars@.len() { chars@.len() - col } else { 0 },
        {
            if col >= chars.len() {
                if line + 1 >= self.lines.len() {
                    let last = if chars.len() > 0 { chars.len() - 1 } else { 0 };
                    proof {
                        assert(!exists|l: int, c: int| #[trigger] word_start(buf, big, l, c) && pos_lt(sl as int, sc as int, l, c)) by {
                            if exists|l: int, c: int| #[trigger] word_start(buf, big, l, c) && pos_lt(sl as int, sc as int, l, c) {
                                let (l, c) = choose|l: int, c: int| #[trigger] word_start(buf, big, l, c) && pos_lt(sl as int, sc as int, l, c);
                                assert(pos_le(line as int, col as int, l, c));
                            }
                        }
                    }
                    return (line, last);
                }
                proof {
                    assert forall|l: int, c: int|
                        #[trigger] word_start(buf, big, l, c) && pos_lt(sl as int, sc as int, l, c) implies pos_le(
                        (line + 1) as int,
                        0,
                        l,
                        c,
                    ) by {
                        assert(pos_le(line as int, col as int, l, c));
                    }
                }
                line += 1;
                chars = self.chars_at(line);
                col = 0;
                if chars.len() == 0 {
                    assert(word_start(buf, big, line as int, 0));
                    return (line, 0);
                }
                continue;
            }
            if class_of(chars[col], big) == CharClass::Blank {
                proof {
                    assert forall|l: int, c: int|
                        #[trigger] word_start(buf, big, l, c) && pos_lt(sl as int, sc as int, l, c) implies pos_le(
                        line as int,
                        (col + 1) as int,
                        l,
                        c,
                    ) by {
                        assert(pos_le(line as int, col as int, l, c));
                    }
                }
                col += 1;
            } else {
                return (line, col);
            }
        }
    }

    /// The caret position `b` / `B` moves to.
    fn seek_prev_word_start(&self, big: bool) -> (r: (usize, usize))
        requires
            self.state().wf(),
            self.state().col <= self.state().cur_len(),
        ensures
            prev_word_start(self.state(), big, self.state().with_cursor(r.0 as int, r.1 as int)),
    {
        let ghost st = self.state();
        let ghost buf = st.buf;
        let sl = self.cursor_line;
        let sc = self.cursor_col;
        let mut line = sl;
        let mut col = sc;
        let mut chars = self.chars_at(line);
        loop
            invariant
                st == self.state(),
                buf == st.buf,
                st.wf(),
                sl == st.line,
                sc == st.col,
                line <= sl,
                chars@ == buf[line as int],
                col <= chars@.len(),
                pos_le(line as int, col as int, sl as int, sc as int),
                forall|l: int, c: int|
                    #[trigger] word_start(buf, big, l, c) && pos_lt(l, c, sl as int, sc as int) ==> pos_lt(
                        l,
                        c,
                        line as int,
                        col as int,
                    ),
            decreases line, col,
        {
            if col == 0 {
                if line == 0 {
                    return (0, 0);
                }
                line -= 1;
                chars = self.chars_at(line);
                col = chars.len();
                if chars.len() == 0 {
                    assert(word_start(buf, big, line as int, 0));
                    return (line, 0);
                }
                continue;
            }
            col -= 1;
            if class_of(chars[col], big) != CharClass::Blank {
                let from = class_of(chars[col], big);
                let ghost top = col;
                while col > 0 && class_of(chars[col - 1], big) == from
                    invariant
                        st == self.state(),
                        buf == st.buf,
                        st.wf(),
                        sl == st.line,
                        sc == st.col,
                        line <= sl,
                        chars@ == buf[line as int],
                        col <= top < chars@.len(),
                        pos_lt(line as int, top as int, sl as int, sc as int),
                        from == class_spec(chars@[col as int], big),
                        from != CharClass::Blank,
                        forall|l: int, c: int|
                            #[trigger] word_start(buf, big, l, c) && pos_lt(l, c, sl as int, sc as int) ==> pos_le(
                                l,
                                c,
                                line as int,
                                col as int,
                            ),
                    decreases col,
                {
                    col -= 1;
                }
                assert(word_start(buf, big, line as int, col as int));
                return (line, col);
            }
        }
    }

    /// The caret position `e` / `E` moves to.
    fn seek_word_end(&self, big: bool) -> (r: (usize, usize))
        requires
            self.state().wf(),
        ensures
            next_word_end(self.state(), big, self.state().with_cursor(r.0 as int, r.1 as int)),
    {
        let ghost st = self.state();
        let ghost buf = st.buf;
        let sl = self.cursor_line;
        let sc = self.cursor_col;
        let mut line = sl;
        let mut col = sc;
        let mut chars = self.chars_at(line);
        loop
            invariant
                st == self.state(),
                buf == st.buf,
                st.wf(),
                sl == st.line,
                sc == st.col,
                line < buf.len(),
                chars@ == buf[line as int],
                col < line_cap(),
                pos_le(sl as int, sc as int, line as int, col as int),
                forall|l: int, c: int|
                    #[trigger] word_end(buf, big, l, c) && pos_lt(sl as int, sc as int, l, c) ==> pos_lt(
                        line as int,
                        col as int,
                        l,
                        c,
                    ),
            decreases buf.len() - line, if col < chars@.len() { chars@.len() - col } else { 0 },
        {
            col += 1;
            if col >= chars.len() {
                if line + 1 >= self.lines.len() {
                    let last = if chars.len() > 0 { chars.len() - 1 } else { 0 };
                    proof {
                        assert(!exists|l: int, c: int| #[trigger] word_end(buf, big, l, c) && pos_lt(sl as int, sc as int, l, c)) by {
                            if exists|l: int, c: int| #[trigger] word_end(buf, big, l, c) && pos_lt(sl as int, sc as int, l, c) {
                                let (l, c) = choose|l: int, c: int| #[trigger] word_end(buf, big, l, c) && pos_lt(sl as int, sc as int, l, c);
                                assert(pos_lt(line as int, (col - 1) as int, l, c));
                            }
                        }
                    }
                    return (line, last);
                }
                proof {
                    assert forall|l: int, c: int|
                        #[trigger] word_end(buf, big, l, c) && pos_lt(sl as int, sc as int, l, c) implies pos_le(
                        (line + 1) as int,
                        0,
                        l,
                        c,
                    ) by {
                        assert(pos_lt(line as int, (col - 1) as int, l, c));
                    }
                }
                line += 1;
                chars = self.chars_at(line);
                col = 0;
            }
            if col < chars.len() && class_of(chars[col], big) != CharClass::Blank {
                let from = class_of(chars[col], big);
                while col + 1 < chars.len() && class_of(chars[col + 1], big) == from
                    invariant
                        st == self.state(),
                        buf == st.buf,
                        st.wf(),
                        sl == st.line,
                        sc == st.col,
                        line < buf.len(),
                        chars@ == buf[line as int],
                        col < chars@.len(),
                        pos_lt(sl as int, sc as int, line as int, col as int),
                        from == class_spec(chars@[col as int], big),
                        from != CharClass::Blank,
                        forall|l: int, c: int|
                            #[trigger] word_end(buf, big, l, c) && pos_lt(sl as int, sc as int, l, c) ==> pos_le(
                                line as int,
                                col as int,
                                l,
                                c,
                            ),
                    decreases chars.len() - col,
                {
                    col += 1;
                }
                assert(word_end(buf, big, line as int, col as int));
                return (line, col);
            }
        }
    }

    fn word_forward(&mut self, big: bool)
        requires
            old(self).state().wf(),
        ensures
            final(self).same_note(old(self)),
            next_word_start(old(self).state(), big, final(self).state()),
            final(self).state().wf(),
    {
        let (l, c) = self.seek_word_start(big);
        self.cursor_line = l;
        self.cursor_col = c;
    }

    fn word_backward(&mut self, big: bool)
        requires
            old(self).state().wf(),
            old(self).state().col <= old(self).state().cur_len(),
        ensures
            final(self).same_note(old(self)),
            prev_word_start(old(self).state(), big, final(self).state()),
            final(self).state().wf(),
    {
        let (l, c) = self.seek_prev_word_start(big);
        self.cursor_line = l;
        self.cursor_col = c;
    }

    fn word_end(&mut self, big: bool)
        requires
            old(self).state().wf(),
        ensures
            final(self).same_note(old(self)),
            next_word_end(old(self).state(), big, final(self).state()),
            final(self).state().wf(),
    {
        let (l, c) = self.seek_word_end(big);
        self.cursor_line = l;
        self.cursor_col = c;
    }

    /// Route one key while the buffer is in normal mode.
    pub fn normal_key(&mut self, c: char)
        requires
            old(self).state().wf(),
            old(self).state().buf.len() + 1 < line_cap(),
            old(self).state().cur_len() + 8 < line_cap(),
            old(self).state().pending is None && (c == 'b' || c == 'B') ==> old(self).state().col
                <= old(self).state().cur_len(),
        ensures
            final(self).same_note(old(self)),
            normal_key_ok(old(self).state(), c, final(self).state()),
            final(self).state().wf(),
    {
        let ghost st = self.state();
        if let Some(first) = self.pending {
            self.pending = None;
            if first == 'g' && c == 'g' {
                self.cursor_line = 0;
                self.clamp_normal();
            } else if first == 'd' && c == 'd' {
                self.delete_line();
            }
            return;
        }
        if c == 'w' || c == 'W' {
            self.word_forward(c == 'W');
            proof {
                lemma_word_start_clamped(st, c == 'W', self.state());
            }
            self.settle();
            return;
        }
        if c == 'b' || c == 'B' {
            self.word_backward(c == 'B');
            proof {
                lemma_prev_word_start_clamped(st, c == 'B', self.state());
            }
            self.settle();
            return;
        }
        if c == 'e' || c == 'E' {
            self.word_end(c == 'E');
            proof {
                lemma_word_end_clamped(st, c == 'E', self.state());
            }
            self.settle();
            return;
        }
        if c == 'h' {
            self.cursor_col = self.cursor_col.saturating_sub(1);
        } else if c == 'l' {
            let last = self.line_len(self.cursor_line).saturating_sub(1);
            self.cursor_col = if self.cursor_col + 1 < last { self.cursor_col + 1 } else { last };
        } else if c == 'j' {
            self.down();
        } else if c == 'k' {
            self.up();
        } else if c == '0' {
            self.cursor_col = 0;
        } else if c == '^' {
            self.cursor_col = self.indent_of(self.cursor_line);
        } else if c == '$' {
            self.end();
        } else if c == 'G' {
            self.cursor_line = self.lines.len() - 1;
        } else if c == 'g' || c == 'd' {
            self.pending = Some(c);
        } else if c == 'x' {
            self.delete_under();
        } else if c == 'i' {
            self.mode = NoteMode::Insert;
        } else if c == 'I' {
            self.cursor_col = self.indent_of(self.cursor_line);
            self.mode = NoteMode::Insert;
        } else if c == 'a' {
            let n = self.line_len(self.cursor_line);
            self.cursor_col = if self.cursor_col + 1 < n { self.cursor_col + 1 } else { n };
            self.mode = NoteMode::Insert;
        } else if c == 'A' {
            self.end();
            self.mode = NoteMode::Insert;
        } else if c == 'o' {
            self.open_line(self.cursor_line + 1);
        } else if c == 'O' {
            self.open_line(self.cursor_line);
        }
        self.settle();
    }

    /// In normal mode, pull the caret back onto a character.
    fn settle(&mut self)
        requires
            old(self).state().wf(),
        ensures
            final(self).same_note(old(self)),
            final(self).state() == settle(old(self).state()),
            final(self).state().wf(),
    {
        if self.mode == NoteMode::Normal {
            self.clamp_normal();
        }
    }

    /// Pull `scroll` just far enough that the caret is inside a
    /// `height`-row viewport.
    pub fn clamp_scroll(&mut self, height: usize)
        requires
            old(self).state().wf(),
        ensures
            final(self).same_note(old(self)),
            final(self).state() == clamp_scroll_spec(old(self).state(), height as int),
            final(self).state().wf(),
    {
        let height = if height < 1 { 1 } else { height };
        self.viewport = height;
        if self.cursor_line < self.scroll {
            self.scroll = self.cursor_line;
        } else if self.cursor_line - self.scroll >= height {
            self.scroll = self.cursor_line + 1 - height;
        }
    }
}

/// A word start, or the forward motions' parking spot, sits on a character
/// (or on column 0 of an empty line), so normal mode's clamp leaves it be.
proof fn lemma_on_char_clamped(st: NoteState)
    requires
        st.wf(),
        st.col < st.cur_len() || st.col == 0,
    ensures
        settle(st) == st,
{
    assert(clamp_normal_spec(st) == st.with_cursor(st.line, st.col));
}

proof fn lemma_word_start_clamped(st: NoteState, big: bool, post: NoteState)
    requires
        st.wf(),
        post.wf(),
        next_word_start(st, big, post),
    ensures
        settle(post) == post,
{
    lemma_on_char_clamped(post);
}

proof fn lemma_prev_word_start_clamped(st: NoteState, big: bool, post: NoteState)
    requires
        st.wf(),
        post.wf(),
        prev_word_start(st, big, post),
    ensures
        settle(post) == post,
{
    lemma_on_char_clamped(post);
}

proof fn lemma_word_end_clamped(st: NoteState, big: bool, post: NoteState)
    requires
        st.wf(),
        post.wf(),
        next_word_end(st, big, post),
    ensures
        settle(post) == post,
{
    lemma_on_char_clamped(post);
}

/// Backspace right after typing a character takes it back out: the buffer
/// and the caret are as they were, and the note stays marked edited.
pub proof fn law_backspace_undoes_insert(st: NoteState, c: char)
    requires
        st.wf(),
        st.col <= st.cur_len(),
    ensures
        backspace_spec(insert_char_spec(st, c)) == (NoteState { dirty: true, ..st }),
{
    let s1 = insert_char_spec(st, c);
    assert(remove_at(insert_at(st.cur(), st.col, c), st.col) =~= st.cur());
    assert(s1.buf.update(st.line, st.cur()) =~= st.buf);
}

/// Moving left then right comes back to the same caret, across a line
/// break too, wherever there is room to move left.
pub proof fn law_left_right(st: NoteState)
    requires
        st.wf(),
        st.col <= st.cur_len(),
        st.col > 0 || st.line > 0,
    ensures
        right_spec(left_spec(st)) == st,
{
}

/// A note that ends in one newline reads back exactly as it was written:
/// opening it and taking its text gives the same characters.
pub proof fn law_note_roundtrip(t: Seq<char>)
    requires
        !all_ws(t),
        t.len() >= 1,
        t.last() == '\n',
        t.len() < 2 || t[t.len() - 2] != '\n',
    ensures
        note_text(split_lines(t)) == t,
{
    law_join_split(t);
    let p = t.drop_last();
    assert(strip_trailing_nl(p) == p);
    assert(strip_trailing_nl(t) == strip_trailing_nl(p));
    assert(p.push('\n') =~= t);
}

proof fn lemma_lead_ws_le(s: Seq<char>)
    ensures
        lead_ws(s) <= s.len(),
    decreases s.len(),
{
    if s.len() > 0 && unicode_whitespace(s[0]) {
        lemma_lead_ws_le(s.drop_first());
    }
}

proof fn lemma_continuation_len(line: Seq<char>)
    ensures
        continuation_of(line).len() <= line.len() + 6,
{
    lemma_lead_ws_le(line);
    match parse_list(line) {
        Some(l) => {
            assert(continued_marker(l.kind).len() <= 6) by {
                reveal_strlit("- ");
                reveal_strlit("- [ ] ");
            }
        },
        None => {},
    }
}

proof fn lemma_split_bounds(s: Seq<char>)
    ensures
        split_lines(s).len() <= s.len() + 1,
        forall|i: int| 0 <= i < split_lines(s).len() ==> (#[trigger] split_lines(s)[i]).len() <= s.len(),
    decreases s.len(),
{
    if s.len() > 0 {
        lemma_split_bounds(s.drop_last());
        lemma_split_nonempty(s.drop_last());
    }
}


proof fn lemma_lead_ws_all_ws(s: Seq<char>, i: int)
    requires
        0 <= i < lead_ws(s),
    ensures
        unicode_whitespace(s[i]),
    decreases s.len(),
{
    lemma_lead_ws_le(s);
    if i > 0 {
        lemma_lead_ws_all_ws(s.drop_first(), i - 1);
        assert(s.drop_first()[i - 1] == s[i]);
    }
}

proof fn lemma_lead_ws_concat(a: Seq<char>, b: Seq<char>)
    requires
        forall|i: int| 0 <= i < a.len() ==> unicode_whitespace(#[trigger] a[i]),
        b.len() > 0,
        !unicode_whitespace(b[0]),
    ensures
        lead_ws(a + b) == a.len(),
    decreases a.len(),
{
    if a.len() == 0 {
        assert(a + b =~= b);
    } else {
        assert((a + b).drop_first() =~= a.drop_first() + b);
        assert(forall|i: int| 0 <= i < a.drop_first().len() ==> a.drop_first()[i] == a[i + 1]);
        lemma_lead_ws_concat(a.drop_first(), b);
        assert((a + b)[0] == a[0]);
    }
}

/// Toggling a bullet twice on a prose line gives the line back: the first
/// toggle puts `- ` after the indentation, the second takes it off, and a
/// caret in the text returns to where it was. (A text that starts with `[`
/// reads as a half-typed checkbox once `- ` is in front of it, so the
/// second toggle would not see a bullet.)
pub proof fn law_toggle_bullet_twice(st: NoteState)
    requires
        st.wf(),
        parse_list(st.cur()) is None,
        ({
            let body = st.cur().skip(lead_ws(st.cur()) as int);
            body.len() == 0 || body[0] != '['
        }),
        lead_ws(st.cur()) <= st.col,
    ensures
        toggle_bullet_spec(toggle_bullet_spec(st)) == (NoteState { dirty: true, ..st }),
{
    let l = st.cur();
    let ind = lead_ws(l) as int;
    lemma_lead_ws_le(l);
    let body = l.skip(ind);
    reveal_strlit("- ");
    let st1 = toggle_bullet_spec(st);
    let l1 = l.take(ind) + "- "@ + l.skip(ind);
    assert(st1.buf == st.buf.update(st.line, l1));
    assert(st1.cur() == l1);
    assert forall|i: int| 0 <= i < l.take(ind).len() implies unicode_whitespace(#[trigger] l.take(ind)[i]) by {
        lemma_lead_ws_all_ws(l, i);
    }
    assert(l.take(ind) + "- "@ + l.skip(ind) =~= l.take(ind) + ("- "@ + body));
    lemma_lead_ws_concat(l.take(ind), "- "@ + body);
    assert(lead_ws(l1) == ind);
    let b1 = l1.skip(ind);
    assert(b1 =~= "- "@ + body);
    assert(b1.skip(1) =~= seq![' '] + body);
    assert(parse_list(l1) == Some(ListLine { indent: ind as usize, kind: ListPrefix::Bullet, width: (ind + 2) as usize }));
    let st2 = toggle_bullet_spec(st1);
    let l2 = l1.take(ind) + Seq::<char>::empty() + l1.skip(ind + 2);
    assert(l1.len() == l.len() + 2);
    assert(rewrite_line(l1, ind, ind + 2, Seq::<char>::empty()) == l2);
    assert(st2.buf == st1.buf.update(st.line, l2));
    assert(l2 =~= l);
    assert(st.buf.update(st.line, l1).update(st.line, l) =~= st.buf);
    assert(st2.buf =~= st.buf);
}

/// The caret is where its mode allows: on a character in normal mode (at
/// column 0 of an empty line), at most one past the last one in insert
/// mode.
pub open spec fn caret_in_range(st: NoteState) -> bool {
    if st.mode == NoteMode::Normal {
        st.col <= if st.cur_len() > 0 { st.cur_len() - 1 } else { 0 }
    } else {
        st.col <= st.cur_len()
    }
}

/// Every normal-mode key leaves the caret where the resulting mode allows
/// it, whether the key moved it, edited the line, switched lines or
/// entered insert mode.
pub proof fn law_normal_key_keeps_caret(st: NoteState, c: char, post: NoteState)
    requires
        st.wf(),
        post.wf(),
        st.mode == NoteMode::Normal,
        caret_in_range(st),
        normal_key_ok(st, c, post),
    ensures
        caret_in_range(post),
{
    lemma_lead_ws_le(st.cur());
    match st.pending {
        Some(first) => {},
        None => if c == 'w' || c == 'W' {
            lemma_word_start_clamped(st, c == 'W', post);
        } else if c == 'b' || c == 'B' {
            lemma_prev_word_start_clamped(st, c == 'B', post);
        } else if c == 'e' || c == 'E' {
            lemma_word_end_clamped(st, c == 'E', post);
        } else if c == 'o' || c == 'O' {
            assert(post.buf[post.line] == continuation_of(st.cur()));
        },
    }
}

/// The other state of a task box.
pub open spec fn flipped(k: ListPrefix) -> ListPrefix {
    match k {
        ListPrefix::Checked => ListPrefix::Unchecked,
        ListPrefix::Unchecked => ListPrefix::Checked,
        ListPrefix::Bullet => ListPrefix::Bullet,
    }
}

/// Toggling the box of a task item flips it and keeps the rest: a ticked
/// item gets an empty box and an empty one gets ticked, behind the same
/// indentation and before the same text; the line reads back as a task
/// item of the other state.
pub proof fn law_toggle_checkbox_flips(st: NoteState)
    requires
        st.wf(),
        parse_list(st.cur()) matches Some(l) && l.kind != ListPrefix::Bullet,
    ensures
        ({
            let l = parse_list(st.cur()).unwrap();
            let after = toggle_checkbox_spec(st).cur();
            &&& parse_list(after) == Some(
                ListLine { indent: l.indent, kind: flipped(l.kind), width: (l.indent + 6) as usize },
            )
            &&& after.take(l.indent as int) == st.cur().take(l.indent as int)
            &&& after.skip(l.indent + 6) == st.cur().skip(l.width as int)
        }),
{
    let line = st.cur();
    let l = parse_list(line).unwrap();
    let ind = l.indent as int;
    lemma_lead_ws_le(line);
    assert(ind == lead_ws(line));
    let marker = if l.kind == ListPrefix::Unchecked { "- [x] "@ } else { "- [ ] "@ };
    reveal_strlit("- [x] ");
    reveal_strlit("- [ ] ");
    assert(l.width as int <= line.len());
    let after = line.take(ind) + marker + line.skip(l.width as int);
    assert(toggle_checkbox_spec(st).cur() == after);
    assert forall|i: int| 0 <= i < line.take(ind).len() implies unicode_whitespace(#[trigger] line.take(ind)[i]) by {
        lemma_lead_ws_all_ws(line, i);
    }
    let text = line.skip(l.width as int);
    assert(after =~= line.take(ind) + (marker + text));
    lemma_lead_ws_concat(line.take(ind), marker + text);
    assert(lead_ws(after) == ind);
    let body = after.skip(ind);
    assert(body =~= marker + text);
    let rest = body.skip(1);
    let aft = rest.skip(2);
    assert(aft =~= marker.skip(3) + text);
    assert(after.take(ind) =~= line.take(ind));
    assert(after.skip(ind + 6) =~= text);
}

/// Toggling a task box twice gives the line back, for an item written
/// with the standard marker (`- [ ] ` or `- [x] `), and the caret returns
/// to where it was.
pub proof fn law_toggle_checkbox_twice(st: NoteState)
    requires
        st.wf(),
        parse_list(st.cur()) matches Some(l) && l.kind != ListPrefix::Bullet && l.width == l.indent + 6
            && st.cur().subrange(l.indent as int, l.indent + 6) == (if l.kind == ListPrefix::Unchecked {
            "- [ ] "@
        } else {
            "- [x] "@
        }),
    ensures
        toggle_checkbox_spec(toggle_checkbox_spec(st)) == (NoteState { dirty: true, ..st }),
{
    law_toggle_checkbox_flips(st);
    let line = st.cur();
    let l = parse_list(line).unwrap();
    let ind = l.indent as int;
    reveal_strlit("- [x] ");
    reveal_strlit("- [ ] ");
    let st1 = toggle_checkbox_spec(st);
    let after = st1.cur();
    let m2 = if flipped(l.kind) == ListPrefix::Unchecked { "- [x] "@ } else { "- [ ] "@ };
    let m1 = if l.kind == ListPrefix::Unchecked { "- [x] "@ } else { "- [ ] "@ };
    lemma_lead_ws_le(line);
    assert(l.width as int <= line.len());
    assert(after == line.take(ind) + m1 + line.skip(ind + 6));
    assert(after.len() == line.len());
    let again = after.take(ind) + m2 + after.skip(ind + 6);
    assert(toggle_checkbox_spec(st1).buf == st1.buf.update(st.line, again));
    assert(again =~= line);
    assert(st.buf.update(st.line, st1.cur()).update(st.line, line) =~= st.buf);
}

/// What the box toggle makes of any line: always a task item with the
/// standard marker, behind the line's own indentation and before its own
/// text; ticked when the line held an empty box, empty otherwise (a
/// ticked box, a plain bullet or prose).
pub proof fn law_toggle_checkbox_result(st: NoteState)
    requires
        st.wf(),
    ensures
        ({
            let line = st.cur();
            let (ind, w, kind) = match parse_list(line) {
                Some(l) => (l.indent as int, l.width as int, if l.kind == ListPrefix::Unchecked {
                    ListPrefix::Checked
                } else {
                    ListPrefix::Unchecked
                }),
                None => (lead_ws(line) as int, lead_ws(line) as int, ListPrefix::Unchecked),
            };
            let after = toggle_checkbox_spec(st).cur();
            &&& parse_list(after) == Some(ListLine { indent: ind as usize, kind, width: (ind + 6) as usize })
            &&& after.take(ind) == line.take(ind)
            &&& after.skip(ind + 6) == line.skip(w)
        }),
{
    let line = st.cur();
    lemma_lead_ws_le(line);
    reveal_strlit("- [x] ");
    reveal_strlit("- [ ] ");
    let ind = lead_ws(line) as int;
    let (w, marker) = match parse_list(line) {
        Some(l) => (l.width as int, if l.kind == ListPrefix::Unchecked { "- [x] "@ } else { "- [ ] "@ }),
        None => (ind, "- [ ] "@),
    };
    assert(ind <= w <= line.len());
    let after = line.take(ind) + marker + line.skip(w);
    assert(toggle_checkbox_spec(st).cur() == after);
    assert forall|i: int| 0 <= i < line.take(ind).len() implies unicode_whitespace(#[trigger] line.take(ind)[i]) by {
        lemma_lead_ws_all_ws(line, i);
    }
    let text = line.skip(w);
    assert(after =~= line.take(ind) + (marker + text));
    lemma_lead_ws_concat(line.take(ind), marker + text);
    let body = after.skip(ind);
    assert(body =~= marker + text);
    assert(body.skip(1).skip(2) =~= marker.skip(3) + text);
    assert(after.take(ind) =~= line.take(ind));
    assert(after.skip(ind + 6) =~= text);
}

} // verus!
