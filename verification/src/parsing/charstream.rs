//! The character stream: a forward-seekable, whitespace-aware cursor
//! over source text, with position tracking and a reversible
//! indentation mode.

use vstd::prelude::*;

use super::ParseError;

verus! {

/// A location in a source buffer: row and column for people, the
/// character index for machines, and the identity of the buffer the
/// location belongs to. The default value is the unbound position,
/// which belongs to no buffer and cannot be ordered against anything.
#[derive(Clone, Copy, Debug, PartialEq, Eq, Structural, Hash)]
pub struct Position {
    pub row: usize,
    pub column: usize,
    pub index: usize,
    pub file_id: u32,
}

/// The number of line breaks in the first `i` characters of `s`.
pub open spec fn row_at(s: Seq<char>, i: int) -> int
    decreases i,
{
    if i <= 0 {
        0
    } else {
        row_at(s, i - 1) + if i <= s.len() && s[i - 1] == '\n' {
            1int
        } else {
            0int
        }
    }
}

/// The column of character index `i` in `s`: characters since the last
/// line break.
pub open spec fn col_at(s: Seq<char>, i: int) -> int
    decreases i,
{
    if i <= 0 {
        0
    } else if i <= s.len() && s[i - 1] == '\n' {
        0
    } else {
        col_at(s, i - 1) + 1
    }
}

/// The position of character index `i` of source `s` in the buffer
/// identified by `fid`.
pub open spec fn pos_at(s: Seq<char>, fid: u32, i: int) -> Position {
    Position {
        row: row_at(s, i) as usize,
        column: col_at(s, i) as usize,
        index: i as usize,
        file_id: fid,
    }
}

pub proof fn lemma_row_col_bounds(s: Seq<char>, i: int)
    requires
        0 <= i,
    ensures
        0 <= row_at(s, i) <= i,
        0 <= col_at(s, i) <= i,
    decreases i,
{
    if i > 0 {
        lemma_row_col_bounds(s, i - 1);
    }
}

/// Rows never decrease as the index grows.
pub proof fn lemma_row_monotone(s: Seq<char>, i: int, j: int)
    requires
        0 <= i <= j,
    ensures
        row_at(s, i) <= row_at(s, j),
    decreases j - i,
{
    if i < j {
        lemma_row_monotone(s, i, j - 1);
    }
}

impl Position {
    /// The unbound position: not a location in any buffer.
    pub open spec fn spec_unbound() -> Position {
        Position { row: 0, column: 0, index: 0, file_id: 0 }
    }

    /// The position just past the last character of `value` in the
    /// buffer identified by `file_id`.
    pub fn end(value: &str, file_id: u32) -> (p: Position)
        ensures
            p == pos_at(value@, file_id, value@.len() as int),
    {
        let n = value.unicode_len();
        let mut column: usize = 0;
        let mut row: usize = 0;
        let mut i: usize = 0;
        while i < n
            invariant
                i <= n,
                n == value@.len(),
                row == row_at(value@, i as int),
                column == col_at(value@, i as int),
            decreases n - i,
        {
            proof {
                lemma_row_col_bounds(value@, i + 1);
            }
            let c = value.get_char(i);
            if c == '\n' {
                column = 0;
                row = row + 1;
            } else {
                column = column + 1;
            }
            i = i + 1;
        }
        Position { column, row, index: n, file_id }
    }

    /// Ordering of positions: defined only between two bound positions
    /// of the same buffer, where the row and then the character index
    /// decide; an unbound side, or two buffers, cannot be ordered.
    pub open spec fn spec_cmp(a: Position, b: Position) -> Option<core::cmp::Ordering> {
        if a == Position::spec_unbound() || b == Position::spec_unbound() {
            None
        } else if a.file_id != b.file_id {
            None
        } else if a.row < b.row {
            Some(core::cmp::Ordering::Less)
        } else if a.row > b.row {
            Some(core::cmp::Ordering::Greater)
        } else if a.index < b.index {
            Some(core::cmp::Ordering::Less)
        } else if a.index > b.index {
            Some(core::cmp::Ordering::Greater)
        } else {
            Some(core::cmp::Ordering::Equal)
        }
    }

    /// Compare two positions; `None` when the spans of their lives do
    /// not allow an order (different buffers, or an unbound side).
    pub fn partial_cmp(&self, other: &Position) -> (r: Option<core::cmp::Ordering>)
        ensures
            r == Position::spec_cmp(*self, *other),
    {
        if (self.row == 0 && self.column == 0 && self.index == 0 && self.file_id == 0) || (
        other.row == 0 && other.column == 0 && other.index == 0 && other.file_id == 0) {
            None
        } else if self.file_id != other.file_id {
            None
        } else if self.row < other.row {
            Some(core::cmp::Ordering::Less)
        } else if self.row > other.row {
            Some(core::cmp::Ordering::Greater)
        } else if self.index < other.index {
            Some(core::cmp::Ordering::Less)
        } else if self.index > other.index {
            Some(core::cmp::Ordering::Greater)
        } else {
            Some(core::cmp::Ordering::Equal)
        }
    }

    /// The unbound position as a value.
    pub fn unbound() -> (p: Position)
        ensures
            p == Position::spec_unbound(),
    {
        Position { row: 0, column: 0, index: 0, file_id: 0 }
    }
}

impl Default for Position {
    /// The default position is the unbound one.
    fn default() -> (p: Self)
        ensures
            p == Position::spec_unbound(),
    {
        Position { row: 0, column: 0, index: 0, file_id: 0 }
    }
}

/// A source range: an inclusive start and an exclusive end.
#[derive(Clone, Copy, Debug, PartialEq, Eq, Structural, Hash)]
pub struct Span {
    pub start: Position,
    pub end: Position,
}

impl Span {
    pub fn new(start: Position, end: Position) -> (s: Self)
        ensures
            s == (Span { start, end }),
    {
        Span { start, end }
    }

    /// The span whose two ends are unbound.
    pub open spec fn spec_unbound() -> Span {
        Span { start: Position::spec_unbound(), end: Position::spec_unbound() }
    }

    /// A span is well formed when its start does not come after its
    /// end: either the two ends are the same position, or they are
    /// ordered within one buffer.
    pub open spec fn spec_wf(self) -> bool {
        self.start == self.end || Position::spec_cmp(self.start, self.end) == Some(
            core::cmp::Ordering::Less,
        )
    }

    /// Containment ordering of spans. A span is smaller than every span
    /// that strictly contains it; overlapping spans where neither
    /// contains the other are incomparable, and so are spans whose
    /// positions cannot be ordered.
    pub open spec fn spec_span_cmp(a: Span, b: Span) -> Option<core::cmp::Ordering> {
        match Position::spec_cmp(a.start, b.start) {
            Some(core::cmp::Ordering::Less) => match Position::spec_cmp(a.end, b.end) {
                Some(core::cmp::Ordering::Equal) | Some(core::cmp::Ordering::Greater) => Some(
                    core::cmp::Ordering::Greater,
                ),
                _ => None,
            },
            Some(core::cmp::Ordering::Equal) => Position::spec_cmp(a.end, b.end),
            Some(core::cmp::Ordering::Greater) => match Position::spec_cmp(a.end, b.end) {
                Some(core::cmp::Ordering::Equal) | Some(core::cmp::Ordering::Less) => Some(
                    core::cmp::Ordering::Less,
                ),
                _ => None,
            },
            None => None,
        }
    }

    /// Compare two spans by containment: `Greater` means `self`
    /// contains `other`, `Less` means `other` contains `self`, and
    /// `None` means neither contains the other.
    pub fn partial_cmp(&self, other: &Span) -> (r: Option<core::cmp::Ordering>)
        ensures
            r == Span::spec_span_cmp(*self, *other),
    {
        match self.start.partial_cmp(&other.start) {
            Some(core::cmp::Ordering::Less) => match self.end.partial_cmp(&other.end) {
                Some(core::cmp::Ordering::Equal) | Some(core::cmp::Ordering::Greater) => Some(
                    core::cmp::Ordering::Greater,
                ),
                _ => None,
            },
            Some(core::cmp::Ordering::Equal) => self.end.partial_cmp(&other.end),
            Some(core::cmp::Ordering::Greater) => match self.end.partial_cmp(&other.end) {
                Some(core::cmp::Ordering::Equal) | Some(core::cmp::Ordering::Less) => Some(
                    core::cmp::Ordering::Less,
                ),
                _ => None,
            },
            None => None,
        }
    }
}

impl Default for Span {
    /// The default span has two unbound ends.
    fn default() -> (s: Self)
        ensures
            s == Span::spec_unbound(),
    {
        Span { start: Position { row: 0, column: 0, index: 0, file_id: 0 }, end: Position {
            row: 0,
            column: 0,
            index: 0,
            file_id: 0,
        } }
    }
}

/// How a cursor treats whitespace.
///
/// Under `Ignore` whitespace between characters is silently skipped.
/// Under `KeepAll` every character is visible, whitespace included.
/// Under `Indent` leading whitespace of each line is consumed but its
/// width is recorded as the indent depth; other whitespace is skipped.
#[derive(Clone, Copy, Debug, PartialEq, Eq, Structural)]
pub enum WhitespaceType {
    Ignore,
    KeepAll,
    Indent,
}

/// The whitespace characters the cursor recognises.
pub open spec fn is_space(c: char) -> bool {
    c == ' ' || c == '\t' || c == '\n' || c == '\r'
}

/// Whether `c` is one of the whitespace characters the cursor skips.
pub fn is_space_char(c: char) -> (b: bool)
    ensures
        b == is_space(c),
{
    c == ' ' || c == '\t' || c == '\n' || c == '\r'
}

/// The index of the first non-whitespace character of `s` at or after
/// `i`, or the length of `s` when only whitespace remains.
pub open spec fn next_data(s: Seq<char>, i: int) -> int
    decreases s.len() - i,
{
    if i < 0 || i >= s.len() {
        s.len() as int
    } else if !is_space(s[i]) {
        i
    } else {
        next_data(s, i + 1)
    }
}

pub proof fn lemma_next_data_bounds(s: Seq<char>, i: int)
    requires
        0 <= i <= s.len(),
    ensures
        i <= next_data(s, i) <= s.len(),
        next_data(s, i) < s.len() ==> !is_space(s[next_data(s, i)]),
        forall|k: int| i <= k < next_data(s, i) ==> is_space(s[k]),
    decreases s.len() - i,
{
    if i < s.len() && is_space(s[i]) {
        lemma_next_data_bounds(s, i + 1);
    }
}

/// One step of indent bookkeeping: what consuming `c` does to the
/// recorded depth and the leading-whitespace flag.
pub open spec fn indent_step(c: char, unit: int, ind: int, lead: bool) -> (int, bool) {
    if c == '\n' {
        (0, true)
    } else if is_space(c) {
        (
            if lead {
                ind + if c == '\t' {
                    unit
                } else if c == ' ' {
                    1int
                } else {
                    0int
                }
            } else {
                ind
            },
            lead,
        )
    } else {
        (ind, false)
    }
}

/// The indent state after consuming the characters of `s` from `lo`
/// (inclusive) to `hi` (exclusive), starting from depth `ind` and
/// leading-whitespace flag `lead`, with a tab worth `unit` columns.
pub open spec fn indent_fold(s: Seq<char>, lo: int, hi: int, unit: int, ind: int, lead: bool) -> (
    int,
    bool,
)
    decreases hi - lo,
{
    if lo < 0 || lo >= hi || hi > s.len() {
        (ind, lead)
    } else {
        let st = indent_step(s[lo], unit, ind, lead);
        indent_fold(s, lo + 1, hi, unit, st.0, st.1)
    }
}

/// The index a cursor standing at `m` would read its next character
/// from: its own index under `KeepAll`, the next non-whitespace index
/// otherwise.
pub open spec fn start_of(m: StreamModel) -> int {
    if m.whitespace == WhitespaceType::KeepAll {
        m.index
    } else {
        next_data(m.src, m.index)
    }
}

/// The indent state after skipping whitespace from `m` under its
/// policy: only the `Indent` policy does bookkeeping.
pub open spec fn skip_state(m: StreamModel) -> (int, bool) {
    if m.whitespace == WhitespaceType::Indent {
        indent_fold(m.src, m.index, next_data(m.src, m.index), m.indent_size, m.indent, m.in_indent)
    } else {
        (m.indent, m.in_indent)
    }
}

/// The cursor state after skipping whitespace under the active policy.
pub open spec fn skipped(m: StreamModel) -> StreamModel {
    StreamModel { index: start_of(m), indent: skip_state(m).0, in_indent: skip_state(m).1, ..m }
}

/// Builds a cursor over an owned text buffer.
pub struct CharStreamBuilder {
    buffer: String,
    file_id: u32,
    indent_size: usize,
}

/// Relies on rand::random: a fresh 32-bit buffer identity. Nothing is
/// promised of the value; positions of different cursors compare as
/// unordered only when their identities differ.
#[verifier::external_body]
fn random_file_id() -> u32 {
    rand::random::<u32>()
}

impl CharStreamBuilder {
    /// The text the cursor will read.
    pub closed spec fn spec_buffer(&self) -> Seq<char> {
        self.buffer@
    }

    /// The identity the cursor's positions will carry.
    pub closed spec fn spec_file_id(&self) -> u32 {
        self.file_id
    }

    /// The builder's indent unit is fixed at four columns per tab,
    /// and its buffer identity is never the unbound marker.
    pub closed spec fn wf(&self) -> bool {
        self.indent_size == 4 && self.file_id != 0
    }

    pub fn new(buffer: String) -> (b: Self)
        ensures
            b.wf(),
            b.spec_buffer() == buffer@,
    {
        let id = random_file_id();
        let file_id = if id == 0 {
            1
        } else {
            id
        };
        CharStreamBuilder { buffer, file_id, indent_size: 4 }
    }

    /// Build the cursor: position at the very start, whitespace
    /// ignored, indent depth zero.
    pub fn build(&mut self) -> (r: CharStream)
        requires
            old(self).wf(),
            old(self).spec_buffer().len() * 256 < usize::MAX,
        ensures
            *final(self) == *old(self),
            r.wf(),
            r@.src == old(self).spec_buffer(),
            r@.file_id == old(self).spec_file_id(),
            r@.index == 0,
            r@.whitespace == WhitespaceType::Ignore,
            r@.indent == 0,
            r@.in_indent == true,
            r@.indent_size == 4,
    {
        let n = self.buffer.as_str().unicode_len();
        let mut chars: Vec<char> = Vec::new();
        let mut i: usize = 0;
        while i < n
            invariant
                i <= n,
                n == self.buffer@.len(),
                chars@ =~= self.buffer@.subrange(0, i as int),
            decreases n - i,
        {
            chars.push(self.buffer.as_str().get_char(i));
            i = i + 1;
        }
        proof {
            assert(chars@ =~= self.buffer@);
        }
        let eof = Position::end(self.buffer.as_str(), self.file_id);
        CharStream {
            chars,
            file_id: self.file_id,
            column: 0,
            row: 0,
            index: 0,
            eof,
            whitespace: WhitespaceType::Ignore,
            indent: 0,
            indent_size: self.indent_size,
            in_indent: true,
        }
    }
}

/// The abstract state of a cursor: the source it reads, where it
/// stands, which buffer its positions belong to, its whitespace policy
/// and its indent bookkeeping.
pub struct StreamModel {
    pub src: Seq<char>,
    pub index: int,
    pub file_id: u32,
    pub whitespace: WhitespaceType,
    pub indent: int,
    pub in_indent: bool,
    pub indent_size: int,
}

/// A stateful cursor over a source buffer. Characters are handed out
/// one at a time under the active whitespace policy; the cursor only
/// ever moves forward. Clones are fully independent.
#[derive(Debug)]
pub struct CharStream {
    chars: Vec<char>,
    file_id: u32,
    column: usize,
    row: usize,
    index: usize,
    eof: Position,
    whitespace: WhitespaceType,
    indent: usize,
    indent_size: usize,
    in_indent: bool,
}

impl View for CharStream {
    type V = StreamModel;

    closed spec fn view(&self) -> StreamModel {
        StreamModel {
            src: self.chars@,
            index: self.index as int,
            file_id: self.file_id,
            whitespace: self.whitespace,
            indent: self.indent as int,
            in_indent: self.in_indent,
            indent_size: self.indent_size as int,
        }
    }
}

impl CharStream {
    /// The cursor's internal coordinates agree with its index, the
    /// recorded end of file is the true one, and the indent depth
    /// cannot outgrow the machine.
    pub closed spec fn wf(&self) -> bool {
        &&& self.index <= self.chars.len()
        &&& self.row == row_at(self.chars@, self.index as int)
        &&& self.column == col_at(self.chars@, self.index as int)
        &&& self.eof == pos_at(self.chars@, self.file_id, self.chars@.len() as int)
        &&& (self.chars@.len() as int) * 256 < usize::MAX as int
        &&& self.indent as int <= 256 * (self.index as int)
        &&& self.indent_size <= 255
    }

    /// Start building a cursor over `value`.
    pub fn new(value: String) -> (b: CharStreamBuilder)
        ensures
            b.wf(),
            b.spec_buffer() == value@,
    {
        CharStreamBuilder::new(value)
    }

    /// The current location.
    pub fn pos(&self) -> (p: Position)
        requires
            self.wf(),
        ensures
            p == pos_at(self@.src, self@.file_id, self@.index),
    {
        Position { column: self.column, row: self.row, index: self.index, file_id: self.file_id }
    }

    /// The active whitespace policy.
    pub fn whitespace(&self) -> (w: WhitespaceType)
        ensures
            w == self@.whitespace,
    {
        self.whitespace
    }

    /// The current indent depth; meaningful only under the `Indent`
    /// policy.
    pub fn indent(&self) -> (d: usize)
        ensures
            d as int == self@.indent,
    {
        self.indent
    }

    /// Switch the whitespace policy of this cursor. Clones already
    /// made keep theirs.
    pub fn set_whitespace(&mut self, whitespace: WhitespaceType)
        ensures
            final(self)@ == (StreamModel { whitespace, ..old(self)@ }),
            old(self).wf() ==> final(self).wf(),
    {
        self.whitespace = whitespace;
    }

    /// Consume one raw character, updating row and column; no policy
    /// is applied. A non-whitespace character closes the line's
    /// leading-whitespace flag.
    pub(crate) fn advance_raw(&mut self) -> (r: Option<char>)
        requires
            old(self).wf(),
        ensures
            final(self).wf(),
            final(self)@ == (StreamModel {
                index: final(self)@.index,
                in_indent: final(self)@.in_indent,
                ..old(self)@
            }),
            if old(self)@.index < old(self)@.src.len() {
                let c = old(self)@.src[old(self)@.index];
                &&& r == Some(c)
                &&& final(self)@.index == old(self)@.index + 1
                &&& final(self)@.in_indent == if is_space(c) {
                    old(self)@.in_indent
                } else {
                    false
                }
            } else {
                r is None && final(self)@ == old(self)@
            },
    {
        if self.index < self.chars.len() {
            let c = self.chars[self.index];
            proof {
                lemma_row_col_bounds(self.chars@, self.index as int + 1);
            }
            self.index = self.index + 1;
            if c == '\n' {
                self.row = self.row + 1;
                self.column = 0;
            } else {
                self.column = self.column + 1;
            }
            if !is_space_char(c) {
                self.in_indent = false;
            }
            Some(c)
        } else {
            None
        }
    }

    /// The raw character under the cursor, if any; the cursor does not
    /// move.
    pub(crate) fn peek_raw(&self) -> (r: Option<char>)
        requires
            self.wf(),
        ensures
            r == if self@.index < self@.src.len() {
                Some(self@.src[self@.index])
            } else {
                None::<char>
            },
    {
        if self.index < self.chars.len() {
            Some(self.chars[self.index])
        } else {
            None
        }
    }

    /// Skip whitespace as the active policy asks: not at all under
    /// `KeepAll`, silently under `Ignore`, and with indent bookkeeping
    /// under `Indent`.
    pub(crate) fn skip_whitespace(&mut self)
        requires
            old(self).wf(),
        ensures
            final(self).wf(),
            final(self)@ == skipped(old(self)@),
    {
        match self.whitespace {
            WhitespaceType::KeepAll => {},
            WhitespaceType::Ignore => self.skip_plain(),
            WhitespaceType::Indent => self.skip_indent(),
        }
    }

    /// Skip whitespace without indent bookkeeping.
    fn skip_plain(&mut self)
        requires
            old(self).wf(),
        ensures
            final(self).wf(),
            final(self)@ == (StreamModel { index: next_data(old(self)@.src, old(self)@.index), ..old(
                self,
            )@ }),
    {
        while self.index < self.chars.len() && is_space_char(self.chars[self.index])
            invariant
                self.wf(),
                self@.src == old(self)@.src,
                self@.file_id == old(self)@.file_id,
                self@.whitespace == old(self)@.whitespace,
                self@.indent == old(self)@.indent,
                self@.in_indent == old(self)@.in_indent,
                self@.indent_size == old(self)@.indent_size,
                old(self)@.index <= self@.index <= self@.src.len(),
                next_data(self@.src, self@.index) == next_data(old(self)@.src, old(self)@.index),
            decreases self@.src.len() - self@.index,
        {
            let _ = self.advance_raw();
        }
    }

    /// Skip whitespace, recording leading whitespace into the indent
    /// depth: a tab is worth the indent unit, a space one column, and a
    /// line break resets the depth.
    fn skip_indent(&mut self)
        requires
            old(self).wf(),
        ensures
            final(self).wf(),
            final(self)@ == (StreamModel {
                index: next_data(old(self)@.src, old(self)@.index),
                indent: final(self)@.indent,
                in_indent: final(self)@.in_indent,
                ..old(self)@
            }),
            (final(self)@.indent, final(self)@.in_indent) == indent_fold(
                old(self)@.src,
                old(self)@.index,
                next_data(old(self)@.src, old(self)@.index),
                old(self)@.indent_size,
                old(self)@.indent,
                old(self)@.in_indent,
            ),
    {
        while self.index < self.chars.len() && is_space_char(self.chars[self.index])
            invariant
                self.wf(),
                self@.src == old(self)@.src,
                self@.file_id == old(self)@.file_id,
                self@.whitespace == old(self)@.whitespace,
                self@.indent_size == old(self)@.indent_size,
                old(self)@.index <= self@.index <= self@.src.len(),
                next_data(self@.src, self@.index) == next_data(old(self)@.src, old(self)@.index),
                indent_fold(
                    self@.src,
                    self@.index,
                    next_data(self@.src, self@.index),
                    self@.indent_size,
                    self@.indent,
                    self@.in_indent,
                ) == indent_fold(
                    old(self)@.src,
                    old(self)@.index,
                    next_data(old(self)@.src, old(self)@.index),
                    old(self)@.indent_size,
                    old(self)@.indent,
                    old(self)@.in_indent,
                ),
            decreases self@.src.len() - self@.index,
        {
            let ghost before = self@;
            let c = self.chars[self.index];
            let _ = self.advance_raw();
            if c == '\n' {
                self.in_indent = true;
                self.indent = 0;
            } else if self.in_indent && c == '\t' {
                self.indent = self.indent + self.indent_size;
            } else if self.in_indent && c == ' ' {
                self.indent = self.indent + 1;
            }
            proof {
                lemma_next_data_bounds(before.src, before.index + 1);
                let st = indent_step(c, before.indent_size, before.indent, before.in_indent);
                assert((self@.indent, self@.in_indent) == st);
                assert(next_data(before.src, before.index) == next_data(
                    before.src,
                    before.index + 1,
                ));
                assert(indent_fold(
                    before.src,
                    before.index,
                    next_data(before.src, before.index),
                    before.indent_size,
                    before.indent,
                    before.in_indent,
                ) == indent_fold(
                    before.src,
                    before.index + 1,
                    next_data(before.src, before.index),
                    before.indent_size,
                    st.0,
                    st.1,
                ));
            }
        }
    }

    /// Advance one logical character under the active policy: the raw
    /// character under `KeepAll`, the next non-whitespace character
    /// under `Ignore` and `Indent`, with `Indent` additionally keeping
    /// the depth of each line's leading whitespace.
    pub fn next(&mut self) -> (r: Option<char>)
        requires
            old(self).wf(),
        ensures
            final(self).wf(),
            final(self)@.src == old(self)@.src,
            final(self)@.file_id == old(self)@.file_id,
            final(self)@.whitespace == old(self)@.whitespace,
            final(self)@.indent_size == old(self)@.indent_size,
            old(self)@.index <= final(self)@.index <= final(self)@.src.len(),
            match old(self)@.whitespace {
                WhitespaceType::KeepAll => {
                    &&& final(self)@.indent == old(self)@.indent
                    &&& if old(self)@.index < old(self)@.src.len() {
                        let c = old(self)@.src[old(self)@.index];
                        &&& r == Some(c)
                        &&& final(self)@.index == old(self)@.index + 1
                        &&& final(self)@.in_indent == if is_space(c) {
                            old(self)@.in_indent
                        } else {
                            false
                        }
                    } else {
                        r is None && final(self)@.index == old(self)@.index
                            && final(self)@.in_indent == old(self)@.in_indent
                    }
                },
                WhitespaceType::Ignore => {
                    &&& final(self)@.indent == old(self)@.indent
                    &&& (r is Some ==> final(self)@.in_indent == false)
                    &&& (r is None ==> final(self)@.in_indent == old(self)@.in_indent)
                    &&& skipping_next_ens(old(self)@.src, old(self)@.index, final(self)@.index, r)
                },
                WhitespaceType::Indent => {
                    &&& skipping_next_ens(old(self)@.src, old(self)@.index, final(self)@.index, r)
                    &&& (final(self)@.indent, final(self)@.in_indent) == indent_fold(
                        old(self)@.src,
                        old(self)@.index,
                        final(self)@.index,
                        old(self)@.indent_size,
                        old(self)@.indent,
                        old(self)@.in_indent,
                    )
                },
            },
    {
        match self.whitespace {
            WhitespaceType::KeepAll => self.advance_raw(),
            WhitespaceType::Ignore => {
                proof {
                    lemma_next_data_bounds(self.chars@, self.index as int);
                }
                self.skip_plain();
                self.advance_raw()
            },
            WhitespaceType::Indent => {
                proof {
                    lemma_next_data_bounds(self.chars@, self.index as int);
                }
                let ghost pre = self@;
                self.skip_indent();
                let ghost mid = self@;
                let r = self.advance_raw();
                proof {
                    if mid.index < mid.src.len() {
                        lemma_indent_fold_one(
                            pre.src,
                            mid.index,
                            pre.indent_size,
                            mid.indent,
                            mid.in_indent,
                        );
                        lemma_indent_fold_concat(
                            pre.src,
                            pre.index,
                            mid.index,
                            mid.index + 1,
                            pre.indent_size,
                            pre.indent,
                            pre.in_indent,
                        );
                    }
                }
                r
            },
        }
    }

    /// Forward-seek to `position`. Fails when the position belongs to
    /// another buffer, lies behind the cursor, or lies past the end of
    /// the buffer; otherwise the cursor lands exactly on it. Indent
    /// bookkeeping is not replayed by a seek.
    pub fn goto(&mut self, position: Position) -> (r: Result<(), ParseError>)
        requires
            old(self).wf(),
        ensures
            final(self).wf(),
            r is Ok <==> (position.file_id == old(self)@.file_id && old(self)@.index
                <= position.index && position.index <= old(self)@.src.len()),
            r is Ok ==> final(self)@ == (StreamModel { index: position.index as int, ..old(self)@ }),
            r is Err ==> final(self)@ == old(self)@,
    {
        if self.file_id != position.file_id {
            return Err(ParseError::new("Could not go to position in different buffer.", position));
        }
        if position.index < self.index {
            return Err(ParseError::new("Charstream does not support going back.", position));
        }
        if position.index > self.chars.len() {
            return Err(
                ParseError::new("Charstream can not go to position after end of buffer.", self.eof),
            );
        }
        while self.index < position.index
            invariant
                self.wf(),
                self@.src == old(self)@.src,
                self@.file_id == old(self)@.file_id,
                self@.whitespace == old(self)@.whitespace,
                self@.indent == old(self)@.indent,
                self@.in_indent == old(self)@.in_indent,
                self@.indent_size == old(self)@.indent_size,
                old(self)@.index <= self@.index <= position.index,
                position.index <= self@.src.len(),
            decreases position.index - self@.index,
        {
            self.seek_one();
        }
        Ok(())
    }

    /// One raw step of a seek: row, column and index move, indent
    /// bookkeeping does not.
    fn seek_one(&mut self)
        requires
            old(self).wf(),
            old(self)@.index < old(self)@.src.len(),
        ensures
            final(self).wf(),
            final(self)@ == (StreamModel { index: old(self)@.index + 1, ..old(self)@ }),
    {
        let c = self.chars[self.index];
        proof {
            lemma_row_col_bounds(self.chars@, self.index as int + 1);
        }
        self.index = self.index + 1;
        if c == '\n' {
            self.row = self.row + 1;
            self.column = 0;
        } else {
            self.column = self.column + 1;
        }
    }
}

impl Clone for CharStream {
    /// A clone is an independent cursor in the same state.
    fn clone(&self) -> (r: Self)
        ensures
            r@ == self@,
            self.wf() ==> r.wf(),
    {
        let chars = self.chars.clone();
        proof {
            assert(chars@ =~= self.chars@);
        }
        CharStream {
            chars,
            file_id: self.file_id,
            column: self.column,
            row: self.row,
            index: self.index,
            eof: self.eof,
            whitespace: self.whitespace,
            indent: self.indent,
            indent_size: self.indent_size,
            in_indent: self.in_indent,
        }
    }
}

/// What advancing under a whitespace-skipping policy does to the index
/// and yields: the first non-whitespace character, consumed, or the end
/// of the buffer.
pub open spec fn skipping_next_ens(s: Seq<char>, i0: int, i1: int, r: Option<char>) -> bool {
    let j = next_data(s, i0);
    if j < s.len() {
        r == Some(s[j]) && i1 == j + 1
    } else {
        r is None && i1 == s.len()
    }
}

/// A well-formed cursor stands inside its buffer.
pub proof fn lemma_wf_index(s: &CharStream)
    requires
        s.wf(),
    ensures
        0 <= s@.index <= s@.src.len(),
        s@.src.len() <= usize::MAX,
{
}

/// Folding indent bookkeeping over a single character is one step.
pub proof fn lemma_indent_fold_one(s: Seq<char>, i: int, unit: int, ind: int, lead: bool)
    requires
        0 <= i < s.len(),
    ensures
        indent_fold(s, i, i + 1, unit, ind, lead) == indent_step(s[i], unit, ind, lead),
{
    let st = indent_step(s[i], unit, ind, lead);
    assert(indent_fold(s, i + 1, i + 1, unit, st.0, st.1) == (st.0, st.1));
}

/// Folding indent bookkeeping over two adjacent ranges equals folding
/// it over their union.
pub proof fn lemma_indent_fold_concat(
    s: Seq<char>,
    lo: int,
    mid: int,
    hi: int,
    unit: int,
    ind: int,
    lead: bool,
)
    requires
        0 <= lo <= mid <= hi <= s.len(),
    ensures
        indent_fold(s, lo, hi, unit, ind, lead) == {
            let st = indent_fold(s, lo, mid, unit, ind, lead);
            indent_fold(s, mid, hi, unit, st.0, st.1)
        },
    decreases mid - lo,
{
    if lo < mid {
        let st = indent_step(s[lo], unit, ind, lead);
        lemma_indent_fold_concat(s, lo + 1, mid, hi, unit, st.0, st.1);
    }
}

} // verus!

