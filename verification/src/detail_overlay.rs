//! The generic detail overlay: a title over rows of `(label, value, role,
//! meta)` with a selection cursor, and an attach-by-id input mode whose
//! query narrows the rows.

use vstd::prelude::*;
use crate::markdown::Segment;
use crate::text::{chars_of, contains_infix, has_infix, is_lit, string_of, to_lowercase, unicode_lowercase};

verus! {

/// Browsing the rows, or typing a query.
#[derive(Debug, Clone, Copy, PartialEq, Eq, Default, Structural)]
pub enum DetailMode {
    #[default]
    List,
    Input,
}

/// Which consumer the open overlay belongs to.
#[derive(Debug, Clone, Copy, PartialEq, Eq, Default, Structural)]
pub enum DetailKind {
    #[default]
    Agents,
    CiChecks,
    RichIssue,
    RichPr,
}

impl DetailKind {
    /// Whether the rows come from a forge link (and so must not outlive it).
    pub fn is_forge_linked(self) -> (r: bool)
        ensures
            r == (self != DetailKind::Agents),
    {
        match self {
            DetailKind::CiChecks | DetailKind::RichIssue | DetailKind::RichPr => true,
            DetailKind::Agents => false,
        }
    }
}

/// Style role of a row.
#[derive(Debug, Clone, Copy, PartialEq, Eq, Default, Structural)]
pub enum DetailRole {
    #[default]
    Normal,
    Active,
    Muted,
    Success,
    Failure,
    Running,
}

/// One overlay row.
#[derive(Debug, Clone, PartialEq, Eq, Default)]
pub struct DetailRow {
    pub label: String,
    pub value: String,
    pub role: DetailRole,
    /// Opaque payload for the consumer's actions (a session id, a URL).
    pub meta: Option<String>,
    /// Secondary text painted after the value.
    pub extra: Option<String>,
    /// Styled runs for a rich row; empty for a plain one.
    pub segments: Vec<Segment>,
    /// Paint as code, never reflow.
    pub preformatted: bool,
}

/// Whether `hay`, lowercased, contains the lowercased query `q`.
pub open spec fn lower_hit(hay: Seq<char>, q: Seq<char>) -> bool {
    has_infix(unicode_lowercase(hay), q)
}

/// The indices of `values` (in order) whose lowercase form contains the
/// lowercased `query`; every index for an empty query.
pub open spec fn filter_spec(values: Seq<Seq<char>>, query: Seq<char>) -> Seq<usize>
    decreases values.len(),
{
    if values.len() == 0 {
        Seq::empty()
    } else {
        let rest = filter_spec(values.drop_last(), query);
        let q = unicode_lowercase(query);
        if q.len() == 0 || lower_hit(values.last(), q) {
            rest.push((values.len() - 1) as usize)
        } else {
            rest
        }
    }
}

pub open spec fn row_values(rows: Seq<DetailRow>) -> Seq<Seq<char>> {
    rows.map_values(|r: DetailRow| r.value@)
}

/// Rows whose value contains the query, case-insensitively.
pub fn filter_rows(rows: &[DetailRow], query: &str) -> (r: Vec<usize>)
    ensures
        r@ == filter_spec(row_values(rows@), query@),
{
    let ghost vals = row_values(rows@);
    let q = to_lowercase(query);
    let qv = chars_of(q.as_str());
    let mut out: Vec<usize> = Vec::new();
    let mut i: usize = 0;
    while i < rows.len()
        invariant
            vals == row_values(rows@),
            qv@ == unicode_lowercase(query@),
            i <= rows@.len(),
            out@ == filter_spec(vals.take(i as int), query@),
        decreases rows.len() - i,
    {
        proof {
            assert(vals.take(i + 1).drop_last() =~= vals.take(i as int));
            assert(vals.take(i + 1).last() == rows@[i as int].value@);
        }
        let hit = if qv.len() == 0 {
            true
        } else {
            let lv = to_lowercase(rows[i].value.as_str());
            let lc = chars_of(lv.as_str());
            contains_infix(lc.as_slice(), qv.as_slice())
        };
        if hit {
            out.push(i);
        }
        i += 1;
    }
    proof {
        assert(vals.take(rows@.len() as int) =~= vals);
    }
    out
}

/// What the session filter reads of an agent session.
#[derive(Debug, Clone, PartialEq, Eq)]
pub struct SessionKey {
    pub id: String,
    pub name: Option<String>,
    /// The session kind as displayed.
    pub kind: String,
}

/// Whether a session matches the lowercased query `q`: by id or name
/// case-insensitively, or by its kind as displayed (as typed).
pub open spec fn session_hit(s: SessionKey, q: Seq<char>) -> bool {
    q.len() == 0 || lower_hit(s.id@, q) || (s.name is Some && lower_hit(s.name->0@, q)) || has_infix(s.kind@, q)
}

pub open spec fn sessions_spec(all: Seq<SessionKey>, query: Seq<char>) -> Seq<usize>
    decreases all.len(),
{
    if all.len() == 0 {
        Seq::empty()
    } else {
        let rest = sessions_spec(all.drop_last(), query);
        if session_hit(all.last(), unicode_lowercase(query)) {
            rest.push((all.len() - 1) as usize)
        } else {
            rest
        }
    }
}

fn lower_contains(hay: &str, q: &Vec<char>) -> (r: bool)
    ensures
        r == lower_hit(hay@, q@),
{
    let l = to_lowercase(hay);
    let lc = chars_of(l.as_str());
    contains_infix(lc.as_slice(), q.as_slice())
}

/// The sessions (by index, in order) the attach-by-id query matches.
pub fn filter_sessions(all: &[SessionKey], query: &str) -> (r: Vec<usize>)
    ensures
        r@ == sessions_spec(all@, query@),
{
    let q = to_lowercase(query);
    let qv = chars_of(q.as_str());
    let mut out: Vec<usize> = Vec::new();
    let mut i: usize = 0;
    while i < all.len()
        invariant
            qv@ == unicode_lowercase(query@),
            i <= all@.len(),
            out@ == sessions_spec(all@.take(i as int), query@),
        decreases all.len() - i,
    {
        proof {
            assert(all@.take(i + 1).drop_last() =~= all@.take(i as int));
            assert(all@.take(i + 1).last() == all@[i as int]);
        }
        let s = &all[i];
        let hit = qv.len() == 0 || lower_contains(s.id.as_str(), &qv) || match &s.name {
            Some(n) => lower_contains(n.as_str(), &qv),
            None => false,
        } || {
            let k = chars_of(s.kind.as_str());
            contains_infix(k.as_slice(), qv.as_slice())
        };
        if hit {
            out.push(i);
        }
        i += 1;
    }
    proof {
        assert(all@.take(all@.len() as int) =~= all@);
    }
    out
}

/// The digits of `n`, at least `width` of them (zero-padded).
pub open spec fn decimal(n: nat, width: nat) -> Seq<char>
    decreases n,
{
    if n < 10 {
        if width > 1 { seq!['0', (n + 48) as char] } else { seq![(n + 48) as char] }
    } else {
        decimal(n / 10, 1) + seq![((n % 10) + 48) as char]
    }
}

pub(crate) fn push_decimal(out: &mut Vec<char>, n: u64, pad: bool)
    ensures
        final(out)@ == old(out)@ + decimal(n as nat, if pad { 2 } else { 1 }),
    decreases n,
{
    if n < 10 {
        if pad {
            out.push('0');
        }
        out.push(((n as u8) + 48) as char);
        proof {
            assert(((n as u8) + 48) as char == (n + 48) as char);
        }
    } else {
        push_decimal(out, n / 10, false);
        out.push((((n % 10) as u8) + 48) as char);
        proof {
            assert((((n % 10) as u8) + 48) as char == ((n % 10) + 48) as char);
        }
    }
}

/// A run time as shown after a check: `1h02m`, `3m05s`, `3m`, `45s`.
pub open spec fn run_duration(secs: nat) -> Seq<char> {
    let h = secs / 3600;
    let m = (secs % 3600) / 60;
    let s = secs % 60;
    if h > 0 {
        decimal(h, 1) + seq!['h'] + decimal(m, 2) + seq!['m']
    } else if m > 0 && s > 0 {
        decimal(m, 1) + seq!['m'] + decimal(s, 2) + seq!['s']
    } else if m > 0 {
        decimal(m, 1) + seq!['m']
    } else {
        decimal(s, 1) + seq!['s']
    }
}

/// Render a check's run time.
pub fn format_run_duration(secs: u64) -> (r: String)
    ensures
        r@ == run_duration(secs as nat),
{
    let h = secs / 3600;
    let m = (secs % 3600) / 60;
    let s = secs % 60;
    let mut out: Vec<char> = Vec::new();
    if h > 0 {
        push_decimal(&mut out, h, false);
        out.push('h');
        push_decimal(&mut out, m, true);
        out.push('m');
    } else if m > 0 && s > 0 {
        push_decimal(&mut out, m, false);
        out.push('m');
        push_decimal(&mut out, s, true);
        out.push('s');
    } else if m > 0 {
        push_decimal(&mut out, m, false);
        out.push('m');
    } else {
        push_decimal(&mut out, s, false);
        out.push('s');
    }
    proof {
        assert(out@ =~= run_duration(secs as nat));
    }
    string_of(out.as_slice())
}

#[derive(Debug, Clone, Default)]
pub struct DetailOverlay {
    pub kind: DetailKind,
    pub title: String,
    pub rows: Vec<DetailRow>,
    pub selected: usize,
    pub mode: DetailMode,
    /// The attach-by-id query while in [`DetailMode::Input`].
    pub input: String,
    /// Highlight within the rows the query keeps.
    pub input_selected: usize,
}

/// `i` clamped to the last of `n` rows (0 when there are none).
pub open spec fn clamp_last(i: int, n: int) -> int {
    let last = if n > 0 { n - 1 } else { 0 };
    if i < last { i } else { last }
}

impl DetailOverlay {
    /// Show `rows` under `title` for `kind`, browsing from the top.
    pub fn open(&mut self, kind: DetailKind, title: String, rows: Vec<DetailRow>)
        ensures
            final(self).kind == kind,
            final(self).title@ == title@,
            final(self).rows@ == rows@,
            final(self).selected == 0,
            final(self).mode == DetailMode::List,
            final(self).input@.len() == 0,
            final(self).input_selected == 0,
    {
        self.kind = kind;
        self.title = title;
        self.rows = rows;
        self.selected = 0;
        self.mode = DetailMode::List;
        self.input = String::new();
        self.input_selected = 0;
    }

    /// Replace the rows, keeping both highlights on a row that exists.
    pub fn set_rows(&mut self, rows: Vec<DetailRow>)
        ensures
            final(self).rows@ == rows@,
            final(self).selected == clamp_last(old(self).selected as int, rows@.len() as int),
            final(self).input_selected == clamp_last(
                old(self).input_selected as int,
                filter_spec(row_values(rows@), old(self).input@).len() as int,
            ),
            final(self).kind == old(self).kind,
            final(self).title@ == old(self).title@,
            final(self).mode == old(self).mode,
            final(self).input@ == old(self).input@,
    {
        self.rows = rows;
        let n = self.rows.len();
        let last = if n > 0 { n - 1 } else { 0 };
        if self.selected > last {
            self.selected = last;
        }
        let kept = filter_rows(self.rows.as_slice(), self.input.as_str());
        let klast = if kept.len() > 0 { kept.len() - 1 } else { 0 };
        if self.input_selected > klast {
            self.input_selected = klast;
        }
    }

    /// Select row `index`; out of range is ignored.
    pub fn select_index(&mut self, index: usize)
        ensures
            final(self).selected == if index < old(self).rows@.len() { index } else { old(self).selected },
            final(self).rows@ == old(self).rows@,
            *final(self) == (DetailOverlay { selected: final(self).selected, ..*old(self) }),
    {
        if index < self.rows.len() {
            self.selected = index;
        }
    }

    /// One row down, stopping at the last.
    pub fn select_next(&mut self)
        requires
            old(self).selected < usize::MAX,
        ensures
            final(self).selected == clamp_last(old(self).selected + 1, old(self).rows@.len() as int),
            final(self).rows@ == old(self).rows@,
            *final(self) == (DetailOverlay { selected: final(self).selected, ..*old(self) }),
    {
        let n = self.rows.len();
        let last = if n > 0 { n - 1 } else { 0 };
        let next = self.selected + 1;
        self.selected = if next < last { next } else { last };
    }

    /// `n` rows down, stopping at the last; nothing when there are no rows.
    pub fn select_page_down(&mut self, n: usize)
        ensures
            final(self).selected == if old(self).rows@.len() == 0 {
                old(self).selected as int
            } else {
                clamp_last(old(self).selected + n, old(self).rows@.len() as int)
            },
            final(self).rows@ == old(self).rows@,
            *final(self) == (DetailOverlay { selected: final(self).selected, ..*old(self) }),
    {
        if self.rows.len() == 0 {
            return;
        }
        let last = self.rows.len() - 1;
        self.selected = if self.selected < last && n < last - self.selected { self.selected + n } else { last };
    }

    /// `n` rows up, stopping at the top.
    pub fn select_page_up(&mut self, n: usize)
        ensures
            final(self).selected == if old(self).selected >= n { old(self).selected - n } else { 0 },
            final(self).rows@ == old(self).rows@,
            *final(self) == (DetailOverlay { selected: final(self).selected, ..*old(self) }),
    {
        self.selected = self.selected.saturating_sub(n);
    }

    pub fn select_first(&mut self)
        ensures
            final(self).selected == 0,
            final(self).rows@ == old(self).rows@,
            *final(self) == (DetailOverlay { selected: final(self).selected, ..*old(self) }),
    {
        self.selected = 0;
    }

    pub fn select_last(&mut self)
        ensures
            final(self).selected == clamp_last(old(self).rows@.len() as int, old(self).rows@.len() as int),
            final(self).rows@ == old(self).rows@,
            *final(self) == (DetailOverlay { selected: final(self).selected, ..*old(self) }),
    {
        let n = self.rows.len();
        self.selected = if n > 0 { n - 1 } else { 0 };
    }

    /// One row up, stopping at the top.
    pub fn select_prev(&mut self)
        ensures
            final(self).selected == if old(self).selected > 0 { old(self).selected - 1 } else { 0 },
            final(self).rows@ == old(self).rows@,
            *final(self) == (DetailOverlay { selected: final(self).selected, ..*old(self) }),
    {
        self.selected = self.selected.saturating_sub(1);
    }

    /// The selected row's payload, if it has one.
    pub fn selected_meta(&self) -> (r: Option<&str>)
        ensures
            match r {
                Some(m) => self.selected < self.rows@.len() && self.rows@[self.selected as int].meta is Some
                    && self.rows@[self.selected as int].meta->0@ == m@,
                None => self.selected >= self.rows@.len() || self.rows@[self.selected as int].meta is None,
            },
    {
        if self.selected < self.rows.len() {
            match &self.rows[self.selected].meta {
                Some(m) => Some(m.as_str()),
                None => None,
            }
        } else {
            None
        }
    }
}

/// Paging down and then up by the same amount comes back to the row,
/// away from the ends of the list.
pub proof fn law_page_down_up(selected: int, n: int, len: int)
    requires
        0 <= selected,
        0 <= n,
        selected + n < len,
    ensures
        ({
            let down = clamp_last(selected + n, len);
            (if down >= n { down - n } else { 0 }) == selected
        }),
{
}

} // verus!
