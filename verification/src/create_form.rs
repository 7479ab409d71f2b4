//! The create-worktree form: a structured mode that walks the editable
//! fields of the branch pattern (type, issue, description) and a free-form
//! mode with a single name field, with per-field input limits.

use vstd::prelude::*;
use crate::text::{ascii_digit, chars_of, is_ascii_digit, is_lit, string_of};

verus! {

/// Most digits an issue number may have.
pub const MAX_ISSUE_LEN: usize = 7;

/// Most characters a description may have.
pub const MAX_DESC_LEN: usize = 200;

/// Most bytes a free-form name may have: one directory component.
pub const MAX_NAME_LEN: usize = 255;

#[derive(Debug, Default, PartialEq, Eq, Clone, Copy, Structural)]
pub enum Mode {
    #[default]
    Structured,
    Freeform,
}

#[derive(Debug, Default, PartialEq, Eq, Clone, Copy, Structural)]
pub enum Field {
    #[default]
    Type,
    Issue,
    Desc,
    Name,
}

/// The form field an editable pattern segment is typed into.
pub open spec fn field_of_segment(s: Seq<char>) -> Option<Field> {
    if s == "type"@ {
        Some(Field::Type)
    } else if s == "issue"@ {
        Some(Field::Issue)
    } else if s == "desc"@ {
        Some(Field::Desc)
    } else {
        None
    }
}

impl Field {
    fn from_segment(segment: &str) -> (r: Option<Field>)
        ensures
            r == field_of_segment(segment@),
    {
        let v = chars_of(segment);
        if is_lit(v.as_slice(), "type") {
            Some(Field::Type)
        } else if is_lit(v.as_slice(), "issue") {
            Some(Field::Issue)
        } else if is_lit(v.as_slice(), "desc") {
            Some(Field::Desc)
        } else {
            None
        }
    }
}

/// The fields for the editable segments `segs`, in order, skipping
/// segments no field takes.
pub open spec fn fields_of_segments(segs: Seq<Seq<char>>) -> Seq<Field>
    decreases segs.len(),
{
    if segs.len() == 0 {
        Seq::empty()
    } else {
        let rest = fields_of_segments(segs.drop_last());
        match field_of_segment(segs.last()) {
            Some(f) => rest.push(f),
            None => rest,
        }
    }
}

/// The form fields for a branch pattern's editable segments.
pub fn fields_for(segments: &[String]) -> (r: Vec<Field>)
    ensures
        r@ == fields_of_segments(segments@.map_values(|s: String| s@)),
{
    let ghost segs = segments@.map_values(|s: String| s@);
    let mut out: Vec<Field> = Vec::new();
    let mut i: usize = 0;
    while i < segments.len()
        invariant
            segs == segments@.map_values(|s: String| s@),
            i <= segments@.len(),
            out@ == fields_of_segments(segs.take(i as int)),
        decreases segments.len() - i,
    {
        proof {
            assert(segs.take(i + 1).drop_last() =~= segs.take(i as int));
            assert(segs.take(i + 1).last() == segments@[i as int]@);
        }
        match Field::from_segment(segments[i].as_str()) {
            Some(f) => out.push(f),
            None => {},
        }
        i += 1;
    }
    proof {
        assert(segs.take(segments@.len() as int) =~= segs);
    }
    out
}

/// Bytes `c` takes in UTF-8.
pub open spec fn utf8_width(c: char) -> nat {
    if (c as u32) < 0x80 {
        1
    } else if (c as u32) < 0x800 {
        2
    } else if (c as u32) < 0x10000 {
        3
    } else {
        4
    }
}

/// Bytes `s` takes in UTF-8.
pub open spec fn utf8_len(s: Seq<char>) -> nat
    decreases s.len(),
{
    if s.len() == 0 {
        0
    } else {
        utf8_len(s.drop_last()) + utf8_width(s.last())
    }
}

fn char_width(c: char) -> (r: usize)
    ensures
        r == utf8_width(c),
{
    let n = c as u32;
    if n < 0x80 {
        1
    } else if n < 0x800 {
        2
    } else if n < 0x10000 {
        3
    } else {
        4
    }
}

/// Whether `s` followed by `c` still fits in `cap` bytes.
fn fits_bytes(s: &str, c: char, cap: usize) -> (r: bool)
    requires
        cap <= 4096,
    ensures
        r == (utf8_len(s@) + utf8_width(c) <= cap),
{
    let v = chars_of(s);
    let mut total: usize = char_width(c);
    let mut i: usize = 0;
    proof {
        assert(v@.take(0) =~= Seq::<char>::empty());
    }
    while i < v.len()
        invariant
            v@ == s@,
            i <= v@.len(),
            total == utf8_len(v@.take(i as int)) + utf8_width(c),
            total <= cap + 4,
            cap <= 4096,
        decreases v.len() - i,
    {
        if total > cap {
            proof {
                lemma_utf8_len_prefix(v@, i as int);
            }
            return false;
        }
        proof {
            assert(v@.take(i + 1).drop_last() =~= v@.take(i as int));
        }
        total = total + char_width(v[i]);
        i += 1;
    }
    proof {
        assert(v@.take(v@.len() as int) =~= v@);
    }
    total <= cap
}

proof fn lemma_utf8_len_prefix(s: Seq<char>, i: int)
    requires
        0 <= i <= s.len(),
    ensures
        utf8_len(s.take(i)) <= utf8_len(s),
    decreases s.len() - i,
{
    if i < s.len() {
        lemma_utf8_len_prefix(s, i + 1);
        assert(s.take(i + 1).drop_last() =~= s.take(i));
    } else {
        assert(s.take(i) =~= s);
    }
}

/// The form's view: mode, focus, chosen type, the three inputs, and the
/// fields the structured mode offers.
pub struct FormView {
    pub mode: Mode,
    pub field: Field,
    pub type_index: usize,
    pub issue: Seq<char>,
    pub desc: Seq<char>,
    pub name: Seq<char>,
    pub fields: Seq<Field>,
}

/// The field structured mode starts on: the first one that takes typing,
/// else the first, else `Type`.
pub open spec fn entry_field_of(fields: Seq<Field>) -> Field {
    if exists|i: int| 0 <= i < fields.len() && fields[i] != Field::Type {
        let i = choose|i: int| 0 <= i < fields.len() && fields[i] != Field::Type && forall|j: int| 0 <= j < i ==> fields[j] == Field::Type;
        fields[i]
    } else if fields.len() > 0 {
        fields[0]
    } else {
        Field::Type
    }
}

pub open spec fn first_or_type(fields: Seq<Field>) -> Field {
    if fields.len() > 0 { fields[0] } else { Field::Type }
}

/// Where `field` sits in `fields` (its first place), or 0.
pub open spec fn position_of(fields: Seq<Field>, field: Field) -> int {
    if fields.contains(field) {
        choose|i: int| 0 <= i < fields.len() && fields[i] == field && forall|j: int| 0 <= j < i ==> fields[j] != field
    } else {
        0
    }
}

/// Focus after moving `step` (±1) through the fields, wrapping.
pub open spec fn rotate_spec(v: FormView, step: int) -> Field {
    if v.mode == Mode::Freeform || v.fields.len() == 0 {
        v.field
    } else {
        let n = v.fields.len() as int;
        let at = position_of(v.fields, v.field);
        v.fields[(((at + step) % n) + n) % n]
    }
}

/// Whether typing goes anywhere in this state.
pub open spec fn accepts_input(v: FormView) -> bool {
    match v.mode {
        Mode::Freeform => v.field == Field::Name,
        Mode::Structured => v.fields.contains(v.field),
    }
}

/// Typing `c`: a digit into the issue (up to its limit), anything into
/// the description (up to its limit), anything into the name (up to its
/// byte limit); otherwise nothing.
pub open spec fn push_spec(v: FormView, c: char) -> FormView {
    if !accepts_input(v) {
        v
    } else if v.field == Field::Issue && ascii_digit(c) && v.issue.len() < MAX_ISSUE_LEN {
        FormView { issue: v.issue.push(c), ..v }
    } else if v.field == Field::Desc && v.desc.len() < MAX_DESC_LEN {
        FormView { desc: v.desc.push(c), ..v }
    } else if v.field == Field::Name && utf8_len(v.name) + utf8_width(c) <= MAX_NAME_LEN {
        FormView { name: v.name.push(c), ..v }
    } else {
        v
    }
}

pub open spec fn drop_last_char(s: Seq<char>) -> Seq<char> {
    if s.len() > 0 { s.drop_last() } else { s }
}

/// Backspace in the focused input, if typing goes anywhere.
pub open spec fn pop_spec(v: FormView) -> FormView {
    if !accepts_input(v) {
        v
    } else if v.field == Field::Issue {
        FormView { issue: drop_last_char(v.issue), ..v }
    } else if v.field == Field::Desc {
        FormView { desc: drop_last_char(v.desc), ..v }
    } else if v.field == Field::Name {
        FormView { name: drop_last_char(v.name), ..v }
    } else {
        v
    }
}

#[derive(Debug)]
pub struct CreateForm {
    pub mode: Mode,
    pub field: Field,
    /// Index into the configured branch types.
    pub type_index: usize,
    pub issue: String,
    pub desc: String,
    pub name: String,
    /// The structured mode's fields, in order.
    fields: Vec<Field>,
}

fn pop_string(s: &String) -> (r: String)
    ensures
        r@ == drop_last_char(s@),
{
    let mut v = chars_of(s.as_str());
    if v.len() > 0 {
        v.pop();
    }
    string_of(v.as_slice())
}

impl CreateForm {
    pub closed spec fn fields_view(&self) -> Seq<Field> {
        self.fields@
    }

    pub closed spec fn view(&self) -> FormView {
        FormView {
            mode: self.mode,
            field: self.field,
            type_index: self.type_index,
            issue: self.issue@,
            desc: self.desc@,
            name: self.name@,
            fields: self.fields_view(),
        }
    }

    /// The view's field list is the form's field list.
    pub proof fn lemma_view_fields(&self)
        ensures
            self.view().fields == self.fields_view(),
    {
    }

    /// Structured, on `Type`, everything empty, the default fields.
    pub fn new() -> (r: CreateForm)
        ensures
            r.view() == (FormView {
                mode: Mode::Structured,
                field: Field::Type,
                type_index: 0,
                issue: Seq::empty(),
                desc: Seq::empty(),
                name: Seq::empty(),
                fields: seq![Field::Type, Field::Issue, Field::Desc],
            }),
    {
        let r = CreateForm {
            mode: Mode::Structured,
            field: Field::Type,
            type_index: 0,
            issue: String::new(),
            desc: String::new(),
            name: String::new(),
            fields: vec![Field::Type, Field::Issue, Field::Desc],
        };
        proof {
            assert(r.fields@ =~= seq![Field::Type, Field::Issue, Field::Desc]);
        }
        r
    }

    /// Offer `fields`; a structured focus on a field no longer offered
    /// moves to the first one.
    pub fn set_fields(&mut self, fields: Vec<Field>)
        ensures
            final(self).view() == (FormView {
                fields: fields@,
                field: if old(self).view().mode == Mode::Structured && !fields@.contains(old(self).view().field) {
                    first_or_type(fields@)
                } else {
                    old(self).view().field
                },
                ..old(self).view()
            }),
    {
        self.fields = fields;
        if self.mode == Mode::Structured && !self.offers(self.field) {
            self.field = if self.fields.len() > 0 { self.fields[0] } else { Field::Type };
        }
    }

    fn offers(&self, f: Field) -> (r: bool)
        ensures
            r == self.fields@.contains(f),
    {
        let mut i: usize = 0;
        while i < self.fields.len()
            invariant
                i <= self.fields@.len(),
                forall|j: int| 0 <= j < i ==> self.fields@[j] != f,
            decreases self.fields.len() - i,
        {
            if self.fields[i] == f {
                return true;
            }
            i += 1;
        }
        false
    }

    pub fn fields(&self) -> (r: &[Field])
        ensures
            r@ == self.fields_view(),
    {
        self.fields.as_slice()
    }

    /// The first field that takes typing, else the first, else `Type`.
    pub fn entry_field(&self) -> (r: Field)
        ensures
            r == entry_field_of(self.fields_view()),
    {
        let mut i: usize = 0;
        while i < self.fields.len()
            invariant
                i <= self.fields@.len(),
                forall|j: int| 0 <= j < i ==> self.fields@[j] == Field::Type,
            decreases self.fields.len() - i,
        {
            if self.fields[i] != Field::Type {
                proof {
                    let k = choose|k: int| 0 <= k < self.fields@.len() && self.fields@[k] != Field::Type && forall|j: int| 0 <= j < k ==> self.fields@[j] == Field::Type;
                    assert(k == i) by {
                        if k < i {
                        } else if k > i {
                            assert(self.fields@[i as int] == Field::Type);
                        }
                    }
                }
                return self.fields[i];
            }
            i += 1;
        }
        if self.fields.len() > 0 { self.fields[0] } else { Field::Type }
    }

    /// The last field, else `Type`.
    pub fn last_field(&self) -> (r: Field)
        ensures
            r == if self.fields_view().len() > 0 { self.fields_view().last() } else { Field::Type },
    {
        if self.fields.len() > 0 { self.fields[self.fields.len() - 1] } else { Field::Type }
    }

    /// Back to an empty structured form on the first field.
    pub fn reset(&mut self)
        ensures
            final(self).view() == (FormView {
                mode: Mode::Structured,
                field: first_or_type(old(self).fields_view()),
                type_index: 0,
                issue: Seq::empty(),
                desc: Seq::empty(),
                name: Seq::empty(),
                fields: old(self).fields_view(),
            }),
    {
        self.mode = Mode::Structured;
        self.field = if self.fields.len() > 0 { self.fields[0] } else { Field::Type };
        self.type_index = 0;
        self.issue = String::new();
        self.desc = String::new();
        self.name = String::new();
    }

    /// Switch modes: free-form focuses the name, structured the entry
    /// field. The inputs are kept.
    pub fn toggle_mode(&mut self)
        ensures
            final(self).view() == (match old(self).view().mode {
                Mode::Structured => (FormView { mode: Mode::Freeform, field: Field::Name, ..old(self).view() }),
                Mode::Freeform => (FormView {
                    mode: Mode::Structured,
                    field: entry_field_of(old(self).fields_view()),
                    ..old(self).view()
                }),
            }),
    {
        match self.mode {
            Mode::Structured => {
                self.mode = Mode::Freeform;
                self.field = Field::Name;
            },
            Mode::Freeform => {
                self.mode = Mode::Structured;
                self.field = self.entry_field();
            },
        }
    }

    fn position(&self) -> (r: usize)
        ensures
            r == position_of(self.fields_view(), self.field),
            self.fields@.len() > 0 ==> r < self.fields@.len(),
    {
        let mut i: usize = 0;
        while i < self.fields.len()
            invariant
                i <= self.fields@.len(),
                forall|j: int| 0 <= j < i ==> self.fields@[j] != self.field,
            decreases self.fields.len() - i,
        {
            if self.fields[i] == self.field {
                proof {
                    assert(self.fields@.contains(self.field));
                    let k = choose|k: int| 0 <= k < self.fields@.len() && self.fields@[k] == self.field && forall|j: int| 0 <= j < k ==> self.fields@[j] != self.field;
                    assert(k == i) by {
                        if k > i {
                            assert(self.fields@[i as int] == self.field);
                        }
                    }
                }
                return i;
            }
            i += 1;
        }
        0
    }

    /// Focus the next structured field, wrapping.
    pub fn next_field(&mut self)
        ensures
            final(self).view() == (FormView { field: rotate_spec(old(self).view(), 1), ..old(self).view() }),
    {
        if self.mode == Mode::Freeform || self.fields.len() == 0 {
            return;
        }
        let n = self.fields.len();
        let at = self.position();
        let to = if at + 1 < n { at + 1 } else { 0 };
        proof {
            let ni = n as int;
            let ai = at as int;
            if ai + 1 < ni {
                assert(((ai + 1) % ni + ni) % ni == ai + 1) by (nonlinear_arith)
                    requires
                        0 <= ai,
                        ai + 1 < ni,
                ;
            } else {
                assert(((ai + 1) % ni + ni) % ni == 0) by (nonlinear_arith)
                    requires
                        0 <= ai,
                        ai + 1 == ni,
                ;
            }
        }
        self.field = self.fields[to];
    }

    /// Focus the previous structured field, wrapping.
    pub fn prev_field(&mut self)
        ensures
            final(self).view() == (FormView { field: rotate_spec(old(self).view(), -1), ..old(self).view() }),
    {
        if self.mode == Mode::Freeform || self.fields.len() == 0 {
            return;
        }
        let n = self.fields.len();
        let at = self.position();
        let to = if at > 0 { at - 1 } else { n - 1 };
        proof {
            let ni = n as int;
            let ai = at as int;
            if ai > 0 {
                assert(((ai - 1) % ni + ni) % ni == ai - 1) by (nonlinear_arith)
                    requires
                        0 < ai < ni,
                ;
            } else {
                assert(((ai - 1) % ni + ni) % ni == ni - 1) by (nonlinear_arith)
                    requires
                        ai == 0,
                        ni > 0,
                ;
            }
        }
        self.field = self.fields[to];
    }

    /// Next branch type of `types_len`, wrapping.
    pub fn next_type(&mut self, types_len: usize)
        ensures
            final(self).view() == (FormView {
                type_index: if types_len == 0 {
                    old(self).view().type_index
                } else {
                    ((old(self).view().type_index as int % types_len as int + 1) % types_len as int) as usize
                },
                ..old(self).view()
            }),
    {
        if types_len == 0 {
            return;
        }
        self.type_index = (self.type_index % types_len + 1) % types_len;
    }

    /// Previous branch type of `types_len`, wrapping.
    pub fn prev_type(&mut self, types_len: usize)
        ensures
            final(self).view() == (FormView {
                type_index: if types_len == 0 {
                    old(self).view().type_index
                } else if old(self).view().type_index == 0 {
                    (types_len - 1) as usize
                } else {
                    (old(self).view().type_index - 1) as usize
                },
                ..old(self).view()
            }),
    {
        if types_len == 0 {
            return;
        }
        if self.type_index == 0 {
            self.type_index = types_len - 1;
        } else {
            self.type_index = self.type_index - 1;
        }
    }

    fn accepts(&self) -> (r: bool)
        ensures
            r == accepts_input(self.view()),
    {
        match self.mode {
            Mode::Freeform => self.field == Field::Name,
            Mode::Structured => self.offers(self.field),
        }
    }

    /// Type `c` into the focused input, within its limit.
    pub fn push_char(&mut self, c: char)
        ensures
            final(self).view() == push_spec(old(self).view(), c),
    {
        if !self.accepts() {
            return;
        }
        if self.field == Field::Issue {
            let v = chars_of(self.issue.as_str());
            if is_ascii_digit(c) && v.len() < MAX_ISSUE_LEN {
                let mut w = v;
                w.push(c);
                self.issue = string_of(w.as_slice());
            }
        } else if self.field == Field::Desc {
            let v = chars_of(self.desc.as_str());
            if v.len() < MAX_DESC_LEN {
                let mut w = v;
                w.push(c);
                self.desc = string_of(w.as_slice());
            }
        } else if self.field == Field::Name {
            if fits_bytes(self.name.as_str(), c, MAX_NAME_LEN) {
                let mut w = chars_of(self.name.as_str());
                w.push(c);
                self.name = string_of(w.as_slice());
            }
        }
    }

    /// Backspace in the focused input.
    pub fn pop_char(&mut self)
        ensures
            final(self).view() == pop_spec(old(self).view()),
    {
        if !self.accepts() {
            return;
        }
        if self.field == Field::Issue {
            self.issue = pop_string(&self.issue);
        } else if self.field == Field::Desc {
            self.desc = pop_string(&self.desc);
        } else if self.field == Field::Name {
            self.name = pop_string(&self.name);
        }
    }
}

impl Default for CreateForm {
    fn default() -> (r: CreateForm)
        ensures
            r.view().mode == Mode::Structured,
            r.view().fields == seq![Field::Type, Field::Issue, Field::Desc],
    {
        CreateForm::new()
    }
}

/// Typing a character and deleting it again leaves the form as it was,
/// whenever the character was accepted.
pub proof fn law_push_pop(v: FormView, c: char)
    requires
        push_spec(v, c) != v,
    ensures
        pop_spec(push_spec(v, c)) == v,
{
    assert(v.issue.push(c).drop_last() =~= v.issue);
    assert(v.desc.push(c).drop_last() =~= v.desc);
    assert(v.name.push(c).drop_last() =~= v.name);
}

/// Moving to the next field and back returns to the same field, when the
/// focus is on an offered field that occurs once.
pub proof fn law_next_prev_field(v: FormView, k: int)
    requires
        v.mode == Mode::Structured,
        0 <= k < v.fields.len(),
        v.fields[k] == v.field,
        forall|i: int, j: int| 0 <= i < j < v.fields.len() ==> v.fields[i] != v.fields[j],
    ensures
        rotate_spec(FormView { field: rotate_spec(v, 1), ..v }, -1) == v.field,
{
    let n = v.fields.len() as int;
    assert(position_of(v.fields, v.field) == k) by {
        assert(v.fields.contains(v.field));
    }
    let to = if k + 1 < n { k + 1 } else { 0 };
    assert(((k + 1) % n + n) % n == to) by (nonlinear_arith)
        requires
            0 <= k < n,
            to == if k + 1 < n { k + 1 } else { 0 },
    ;
    let w = FormView { field: rotate_spec(v, 1), ..v };
    assert(w.field == v.fields[to]);
    assert(position_of(w.fields, w.field) == to) by {
        assert(w.fields.contains(w.field));
    }
    assert(((to - 1) % n + n) % n == k) by (nonlinear_arith)
        requires
            0 <= k < n,
            to == if k + 1 < n { k + 1 } else { 0 },
    ;
}

} // verus!
