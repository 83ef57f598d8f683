//! The token-stream data model: coarse positions, spans over them,
//! lexed tokens, and the stream interface a lexer offers.

use vstd::prelude::*;

use super::ParseError;

verus! {

/// A coarse location: a row and a column.
#[derive(Clone, Copy, Debug, Default, PartialEq, Eq, Structural, Hash)]
pub struct Position {
    pub row: usize,
    pub column: usize,
}

impl Position {
    /// The row, for specifications.
    pub open spec fn spec_row(&self) -> usize {
        self.row
    }

    /// The column, for specifications.
    pub open spec fn spec_column(&self) -> usize {
        self.column
    }

    pub fn new(row: usize, column: usize) -> (p: Self)
        ensures
            p.spec_row() == row,
            p.spec_column() == column,
    {
        Position { row, column }
    }

    /// Step one column to the right.
    pub fn advance(&mut self)
        requires
            old(self).spec_column() < usize::MAX,
        ensures
            final(self).spec_row() == old(self).spec_row(),
            final(self).spec_column() == old(self).spec_column() + 1,
    {
        self.column = self.column + 1;
    }

    /// Step to the start of the next row.
    pub fn newline(&mut self)
        requires
            old(self).spec_row() < usize::MAX,
        ensures
            final(self).spec_row() == old(self).spec_row() + 1,
            final(self).spec_column() == 0,
    {
        self.column = 0;
        self.row = self.row + 1;
    }

    /// Row-then-column order of coarse positions; it is total.
    pub open spec fn spec_cmp(a: Position, b: Position) -> core::cmp::Ordering {
        if a.spec_row() < b.spec_row() {
            core::cmp::Ordering::Less
        } else if a.spec_row() > b.spec_row() {
            core::cmp::Ordering::Greater
        } else if a.spec_column() < b.spec_column() {
            core::cmp::Ordering::Less
        } else if a.spec_column() > b.spec_column() {
            core::cmp::Ordering::Greater
        } else {
            core::cmp::Ordering::Equal
        }
    }

    /// Compare two coarse positions, row first.
    pub fn compare(&self, other: &Position) -> (r: core::cmp::Ordering)
        ensures
            r == Position::spec_cmp(*self, *other),
    {
        if self.row < other.row {
            core::cmp::Ordering::Less
        } else if self.row > other.row {
            core::cmp::Ordering::Greater
        } else if self.column < other.column {
            core::cmp::Ordering::Less
        } else if self.column > other.column {
            core::cmp::Ordering::Greater
        } else {
            core::cmp::Ordering::Equal
        }
    }
}

/// A range of coarse positions.
#[derive(Clone, Copy, Debug, Default, PartialEq, Eq, Structural, Hash)]
pub struct Span {
    pub start: Position,
    pub end: Position,
}

impl Span {
    pub fn new(start: Position, end: Position) -> (s: Self)
        ensures
            s == (Span { start, end }),
    {
        Span { start, end }
    }

    /// Containment ordering over the total order of coarse positions:
    /// a span is smaller than one that contains it, and overlapping
    /// spans where neither contains the other are incomparable.
    pub open spec fn spec_span_cmp(a: Span, b: Span) -> Option<core::cmp::Ordering> {
        match Position::spec_cmp(a.start, b.start) {
            core::cmp::Ordering::Equal => Some(Position::spec_cmp(a.end, b.end)),
            core::cmp::Ordering::Greater => match Position::spec_cmp(a.end, b.end) {
                core::cmp::Ordering::Equal | core::cmp::Ordering::Less => Some(
                    core::cmp::Ordering::Less,
                ),
                _ => None,
            },
            core::cmp::Ordering::Less => match Position::spec_cmp(a.end, b.end) {
                core::cmp::Ordering::Equal | core::cmp::Ordering::Greater => Some(
                    core::cmp::Ordering::Greater,
                ),
                _ => None,
            },
        }
    }

    /// Compare two spans by containment.
    pub fn partial_cmp(&self, other: &Span) -> (r: Option<core::cmp::Ordering>)
        ensures
            r == Span::spec_span_cmp(*self, *other),
    {
        match self.start.compare(&other.start) {
            core::cmp::Ordering::Equal => Some(self.end.compare(&other.end)),
            core::cmp::Ordering::Greater => match self.end.compare(&other.end) {
                core::cmp::Ordering::Equal | core::cmp::Ordering::Less => Some(
                    core::cmp::Ordering::Less,
                ),
                _ => None,
            },
            core::cmp::Ordering::Less => match self.end.compare(&other.end) {
                core::cmp::Ordering::Equal | core::cmp::Ordering::Greater => Some(
                    core::cmp::Ordering::Greater,
                ),
                _ => None,
            },
        }
    }
}

/// Whitespace handling of a token stream: skipped silently, or handed
/// out like any other token.
#[derive(Clone, Copy, Debug, PartialEq, Eq, Structural)]
pub enum WhitespaceType {
    Ignore,
    KeepAll,
}

impl Default for WhitespaceType {
    /// Whitespace is skipped unless asked for.
    fn default() -> (w: Self)
        ensures
            w == WhitespaceType::Ignore,
    {
        WhitespaceType::Ignore
    }
}

/// The lexical class of a token.
#[derive(Clone, Copy, Debug, PartialEq, Eq, Structural)]
pub enum TokenType {
    Identifier,
    String,
    Number,
    Token,
    WhiteSpace,
}

/// One lexed token: its text, where it stood, and its class.
#[derive(Clone, Debug)]
pub struct Token {
    pub value: String,
    pub span: Span,
    pub tokentype: TokenType,
}

impl Token {
    pub fn new(value: String, span: Span, tokentype: TokenType) -> (t: Self)
        ensures
            t.value@ == value@,
            t.span == span,
            t.tokentype == tokentype,
    {
        Token { value, span, tokentype }
    }
}

/// The stream interface a lexer offers: a cursor position, an indent
/// depth, a whitespace policy, one token at a time, and a forward
/// seek.
pub trait TokenStream: Sized {
    /// The states the stream may be used in.
    spec fn stream_wf(&self) -> bool;

    fn pos(&self) -> Position
        requires
            self.stream_wf(),
    ;

    fn indent(&self) -> usize
        requires
            self.stream_wf(),
    ;

    fn set_whitespace(&mut self, whitespace: WhitespaceType)
        requires
            old(self).stream_wf(),
        ensures
            final(self).stream_wf(),
    ;

    fn next_token(&mut self) -> (r: Option<Token>)
        requires
            old(self).stream_wf(),
        ensures
            final(self).stream_wf(),
    ;

    fn goto(&mut self, position: Position) -> (r: Result<(), ParseError>)
        requires
            old(self).stream_wf(),
        ensures
            final(self).stream_wf(),
    ;
}

} // verus!
