//! The character-level lexer behind the token-stream interface: it
//! walks an owned buffer and hands out classified tokens with coarse
//! row-and-column spans.

use vstd::prelude::*;

use super::charstream::{col_at, lemma_row_col_bounds, next_data, row_at};
use super::tokenstream::{Position, Span, Token, TokenType, WhitespaceType};
use super::{is_alnum, is_digit, scan_digits};

verus! {

/// The characters a word may continue with: letters, digits and the
/// underscore.
pub open spec fn is_word(c: char) -> bool {
    is_alnum(c) || c == '_'
}

/// The characters a word may start with: letters and the underscore.
pub open spec fn is_word_start(c: char) -> bool {
    super::is_alpha(c) || c == '_'
}

fn is_word_char(c: char) -> (b: bool)
    ensures
        b == is_word(c),
{
    super::is_alnum_char(c) || c == '_'
}

fn is_word_start_char(c: char) -> (b: bool)
    ensures
        b == is_word_start(c),
{
    super::is_alpha_char(c) || c == '_'
}

/// The first index at or after `i` where `s` stops being word
/// characters.
pub open spec fn scan_word(s: Seq<char>, i: int) -> int
    decreases s.len() - i,
{
    if i < 0 || i >= s.len() {
        i
    } else if !is_word(s[i]) {
        i
    } else {
        scan_word(s, i + 1)
    }
}

/// The index of the first `d` at or after `i`, or the length of `s`
/// when none remains.
pub open spec fn scan_delim(s: Seq<char>, i: int, d: char) -> int
    decreases s.len() - i,
{
    if i < 0 || i >= s.len() {
        s.len() as int
    } else if s[i] == d {
        i
    } else {
        scan_delim(s, i + 1, d)
    }
}

pub proof fn lemma_scan_word_bounds(s: Seq<char>, i: int)
    requires
        0 <= i <= s.len(),
    ensures
        i <= scan_word(s, i) <= s.len(),
    decreases s.len() - i,
{
    if i < s.len() && is_word(s[i]) {
        lemma_scan_word_bounds(s, i + 1);
    }
}

pub proof fn lemma_scan_delim_bounds(s: Seq<char>, i: int, d: char)
    requires
        0 <= i <= s.len(),
    ensures
        i <= scan_delim(s, i, d) <= s.len(),
        scan_delim(s, i, d) < s.len() ==> s[scan_delim(s, i, d)] == d,
    decreases s.len() - i,
{
    if i < s.len() && s[i] != d {
        lemma_scan_delim_bounds(s, i + 1, d);
    }
}

/// The coarse position of character index `i` of `s`.
pub open spec fn coarse_at(s: Seq<char>, i: int) -> Position {
    Position { row: row_at(s, i) as usize, column: col_at(s, i) as usize }
}

/// A lexer over an owned buffer: classifies the characters under its
/// cursor into identifier, number, string, whitespace and plain
/// tokens.
#[derive(Clone)]
pub struct BufferStream {
    position: Position,
    buffer: Vec<char>,
    idx: usize,
    indent: usize,
    do_indent: bool,
    whitespace: WhitespaceType,
}

impl BufferStream {
    /// The buffer being lexed.
    pub closed spec fn src(&self) -> Seq<char> {
        self.buffer@
    }

    /// The index of the next character to classify.
    pub closed spec fn cursor_at(&self) -> int {
        self.idx as int
    }

    /// The active whitespace policy.
    pub closed spec fn policy(&self) -> WhitespaceType {
        self.whitespace
    }

    /// The cursor's coordinates agree with its index, and the
    /// vestigial indent flag stays closed.
    pub closed spec fn wf(&self) -> bool {
        &&& self.idx <= self.buffer.len()
        &&& self.position == coarse_at(self.buffer@, self.idx as int)
        &&& self.do_indent == false
    }

    /// A lexer at the start of the given text.
    pub fn new(buffer: String) -> (s: Self)
        ensures
            s.wf(),
            s.src() == buffer@,
            s.cursor_at() == 0,
            s.policy() == WhitespaceType::Ignore,
    {
        let n = buffer.as_str().unicode_len();
        let mut chars: Vec<char> = Vec::new();
        let mut i: usize = 0;
        while i < n
            invariant
                i <= n,
                n == buffer@.len(),
                chars@ =~= buffer@.subrange(0, i as int),
            decreases n - i,
        {
            chars.push(buffer.as_str().get_char(i));
            i = i + 1;
        }
        proof {
            assert(chars@ =~= buffer@);
        }
        BufferStream {
            position: Position::new(0, 0),
            buffer: chars,
            idx: 0,
            indent: 0,
            do_indent: false,
            whitespace: WhitespaceType::Ignore,
        }
    }

    /// The current position.
    pub fn pos(&self) -> (p: Position)
        requires
            self.wf(),
        ensures
            p == coarse_at(self.src(), self.cursor_at()),
    {
        self.position
    }

    /// The recorded indent depth.
    pub fn indent(&self) -> (d: usize) {
        self.indent
    }

    /// Switch the whitespace policy.
    pub fn set_whitespace(&mut self, whitespace: WhitespaceType)
        ensures
            final(self).policy() == whitespace,
            final(self).src() == old(self).src(),
            final(self).cursor_at() == old(self).cursor_at(),
            old(self).wf() ==> final(self).wf(),
    {
        self.whitespace = whitespace;
    }

    /// Consume one raw character.
    fn bump(&mut self) -> (r: char)
        requires
            old(self).wf(),
            old(self).cursor_at() < old(self).src().len(),
        ensures
            final(self).wf(),
            final(self).src() == old(self).src(),
            final(self).policy() == old(self).policy(),
            final(self).cursor_at() == old(self).cursor_at() + 1,
            r == old(self).src()[old(self).cursor_at()],
    {
        let n = self.buffer.len();
        let c = self.buffer[self.idx];
        proof {
            assert(self.buffer@.len() == n as int);
            lemma_row_col_bounds(self.buffer@, self.idx as int);
            lemma_row_col_bounds(self.buffer@, self.idx as int + 1);
        }
        self.idx = self.idx + 1;
        if c == '\n' {
            self.position.newline();
        } else {
            self.position.advance();
        }
        c
    }

    /// The character under the cursor, if any.
    fn peek(&self) -> (r: Option<char>)
        requires
            self.wf(),
        ensures
            r == if self.cursor_at() < self.src().len() {
                Some(self.src()[self.cursor_at()])
            } else {
                None::<char>
            },
    {
        if self.idx < self.buffer.len() {
            Some(self.buffer[self.idx])
        } else {
            None
        }
    }
}

/// What one lexing step yields at index `j` of `s`, ignoring
/// whitespace policy: the class of the character decides the token,
/// its text is the run it heads, and the cursor ends after the run.
pub open spec fn classify_ens(s: Seq<char>, j: int, i1: int, r: Option<Token>) -> bool {
    if j >= s.len() {
        r is None && i1 == j
    } else if is_word_start(s[j]) {
        let e = scan_word(s, j);
        r matches Some(t) && t.value@ == s.subrange(j, e) && t.span == (Span {
            start: coarse_at(s, j),
            end: coarse_at(s, e),
        }) && t.tokentype == TokenType::Identifier && i1 == e
    } else if s[j] == '"' || s[j] == '\'' {
        let e = scan_delim(s, j + 1, s[j]);
        if e < s.len() {
            r matches Some(t) && t.value@ == s.subrange(j, e + 1) && t.span == (Span {
                start: coarse_at(s, j),
                end: coarse_at(s, e + 1),
            }) && t.tokentype == TokenType::String && i1 == e + 1
        } else {
            r is None && i1 == s.len()
        }
    } else if is_digit(s[j]) {
        let e = scan_digits(s, j);
        r matches Some(t) && t.value@ == s.subrange(j, e) && t.span == (Span {
            start: coarse_at(s, j),
            end: coarse_at(s, e),
        }) && t.tokentype == TokenType::Number && i1 == e
    } else {
        r matches Some(t) && t.value@ == s.subrange(j, j + 1) && t.span == (Span {
            start: coarse_at(s, j),
            end: coarse_at(s, j + 1),
        }) && t.tokentype == TokenType::Token && i1 == j + 1
    }
}

impl BufferStream {
    /// Read a word: the run of word characters under the cursor.
    fn lex_identifier(&mut self) -> (r: Option<Token>)
        requires
            old(self).wf(),
            old(self).cursor_at() < old(self).src().len(),
            is_word_start(old(self).src()[old(self).cursor_at()]),
        ensures
            final(self).wf(),
            final(self).src() == old(self).src(),
            final(self).policy() == old(self).policy(),
            final(self).cursor_at() == scan_word(old(self).src(), old(self).cursor_at()),
            r matches Some(t) && t.value@ == old(self).src().subrange(
                old(self).cursor_at(),
                final(self).cursor_at(),
            ) && t.span == (Span {
                start: coarse_at(old(self).src(), old(self).cursor_at()),
                end: coarse_at(old(self).src(), final(self).cursor_at()),
            }) && t.tokentype == TokenType::Identifier,
    {
        let ghost j = self.cursor_at();
        proof {
            lemma_scan_word_bounds(self.src(), j);
        }
        let start = self.pos();
        let mut value = String::new();
        proof {
            assert(value@ =~= self.src().subrange(j, j));
        }
        loop
            invariant
                self.wf(),
                self.src() == old(self).src(),
                self.policy() == old(self).policy(),
                0 <= j <= self.cursor_at() <= self.src().len(),
                scan_word(self.src(), self.cursor_at()) == scan_word(self.src(), j),
                value@ == self.src().subrange(j, self.cursor_at()),
            ensures
                self.wf(),
                self.src() == old(self).src(),
                self.policy() == old(self).policy(),
                0 <= j <= self.cursor_at() <= self.src().len(),
                self.cursor_at() == scan_word(self.src(), j),
                value@ == self.src().subrange(j, self.cursor_at()),
            decreases self.src().len() - self.cursor_at(),
        {
            let keep = match self.peek() {
                Some(c) => is_word_char(c),
                None => false,
            };
            if !keep {
                break ;
            }
            let ghost i = self.cursor_at();
            let c = self.bump();
            super::push_char(&mut value, c);
            proof {
                assert(value@ =~= self.src().subrange(j, i + 1));
            }
        }
        let span = Span::new(start, self.pos());
        Some(Token::new(value, span, TokenType::Identifier))
    }

    /// Read a number: the run of digits under the cursor.
    fn lex_number(&mut self) -> (r: Option<Token>)
        requires
            old(self).wf(),
            old(self).cursor_at() < old(self).src().len(),
            is_digit(old(self).src()[old(self).cursor_at()]),
        ensures
            final(self).wf(),
            final(self).src() == old(self).src(),
            final(self).policy() == old(self).policy(),
            final(self).cursor_at() == scan_digits(old(self).src(), old(self).cursor_at()),
            r matches Some(t) && t.value@ == old(self).src().subrange(
                old(self).cursor_at(),
                final(self).cursor_at(),
            ) && t.span == (Span {
                start: coarse_at(old(self).src(), old(self).cursor_at()),
                end: coarse_at(old(self).src(), final(self).cursor_at()),
            }) && t.tokentype == TokenType::Number,
    {
        let ghost j = self.cursor_at();
        proof {
            super::lemma_scan_digits_bounds(self.src(), j);
        }
        let start = self.pos();
        let mut value = String::new();
        proof {
            assert(value@ =~= self.src().subrange(j, j));
        }
        loop
            invariant
                self.wf(),
                self.src() == old(self).src(),
                self.policy() == old(self).policy(),
                0 <= j <= self.cursor_at() <= self.src().len(),
                scan_digits(self.src(), self.cursor_at()) == scan_digits(self.src(), j),
                value@ == self.src().subrange(j, self.cursor_at()),
            ensures
                self.wf(),
                self.src() == old(self).src(),
                self.policy() == old(self).policy(),
                0 <= j <= self.cursor_at() <= self.src().len(),
                self.cursor_at() == scan_digits(self.src(), j),
                value@ == self.src().subrange(j, self.cursor_at()),
            decreases self.src().len() - self.cursor_at(),
        {
            let keep = match self.peek() {
                Some(c) => super::is_digit_char(c),
                None => false,
            };
            if !keep {
                break ;
            }
            let ghost i = self.cursor_at();
            let c = self.bump();
            super::push_char(&mut value, c);
            proof {
                assert(value@ =~= self.src().subrange(j, i + 1));
            }
        }
        let span = Span::new(start, self.pos());
        Some(Token::new(value, span, TokenType::Number))
    }

    /// Read a string: the raw text from the opening quote through the
    /// matching closing one, both included. A string the buffer ends
    /// inside yields nothing.
    fn lex_string(&mut self) -> (r: Option<Token>)
        requires
            old(self).wf(),
            old(self).cursor_at() < old(self).src().len(),
            old(self).src()[old(self).cursor_at()] == '"' || old(self).src()[old(self).cursor_at()] == '\'',
        ensures
            final(self).wf(),
            final(self).src() == old(self).src(),
            final(self).policy() == old(self).policy(),
            ({
                let s = old(self).src();
                let j = old(self).cursor_at();
                let e = scan_delim(s, j + 1, s[j]);
                if e < s.len() {
                    &&& final(self).cursor_at() == e + 1
                    &&& r matches Some(t) && t.value@ == s.subrange(j, e + 1) && t.span == (Span {
                        start: coarse_at(s, j),
                        end: coarse_at(s, e + 1),
                    }) && t.tokentype == TokenType::String
                } else {
                    final(self).cursor_at() == s.len() && r is None
                }
            }),
    {
        let ghost j = self.cursor_at();
        let ghost s = self.src();
        let ghost e = scan_delim(s, j + 1, s[j]);
        proof {
            lemma_scan_delim_bounds(s, j + 1, s[j]);
        }
        let start = self.pos();
        let mut value = String::new();
        let delim = self.bump();
        super::push_char(&mut value, delim);
        proof {
            assert(value@ =~= s.subrange(j, j + 1));
        }
        let mut closed = false;
        loop
            invariant_except_break
                closed == false,
                e == scan_delim(s, self.cursor_at(), delim),
            invariant
                self.wf(),
                self.src() == s,
                self.policy() == old(self).policy(),
                s[j] == delim,
                0 <= j < self.cursor_at() <= s.len(),
                e <= s.len(),
                e < s.len() ==> s[e] == delim,
                value@ == s.subrange(j, self.cursor_at()),
            ensures
                self.wf(),
                self.src() == s,
                self.policy() == old(self).policy(),
                0 <= j < self.cursor_at() <= s.len(),
                value@ == s.subrange(j, self.cursor_at()),
                closed <==> e < s.len(),
                if e < s.len() {
                    self.cursor_at() == e + 1
                } else {
                    self.cursor_at() == s.len()
                },
            decreases s.len() + 1 - self.cursor_at(),
        {
            match self.peek() {
                None => {
                    break ;
                },
                Some(c) => {
                    let ghost i = self.cursor_at();
                    let _ = self.bump();
                    super::push_char(&mut value, c);
                    proof {
                        assert(value@ =~= s.subrange(j, i + 1));
                    }
                    if c == delim {
                        closed = true;
                        proof {
                            assert(e == i);
                        }
                        break ;
                    }
                },
            }
        }
        if closed {
            let span = Span::new(start, self.pos());
            Some(Token::new(value, span, TokenType::String))
        } else {
            None
        }
    }
}

impl BufferStream {
    /// Read a whitespace run. Depth bookkeeping is kept in the shape
    /// the stream interface asks for, though nothing opens the
    /// leading-whitespace flag, so the recorded depth stays zero.
    fn lex_whitespace(&mut self) -> (r: Option<Token>)
        requires
            old(self).wf(),
            old(self).cursor_at() < old(self).src().len(),
            super::charstream::is_space(old(self).src()[old(self).cursor_at()]),
        ensures
            final(self).wf(),
            final(self).src() == old(self).src(),
            final(self).policy() == old(self).policy(),
            final(self).cursor_at() == next_data(old(self).src(), old(self).cursor_at()),
            r matches Some(t) && t.value@ == old(self).src().subrange(
                old(self).cursor_at(),
                final(self).cursor_at(),
            ) && t.span == (Span {
                start: coarse_at(old(self).src(), old(self).cursor_at()),
                end: coarse_at(old(self).src(), final(self).cursor_at()),
            }) && t.tokentype == TokenType::WhiteSpace,
    {
        let ghost j = self.cursor_at();
        proof {
            super::charstream::lemma_next_data_bounds(self.src(), j);
        }
        let start = self.pos();
        let mut value = String::new();
        proof {
            assert(value@ =~= self.src().subrange(j, j));
        }
        loop
            invariant
                self.wf(),
                self.src() == old(self).src(),
                self.policy() == old(self).policy(),
                0 <= j <= self.cursor_at() <= self.src().len(),
                next_data(self.src(), self.cursor_at()) == next_data(self.src(), j),
                value@ == self.src().subrange(j, self.cursor_at()),
            ensures
                self.wf(),
                self.src() == old(self).src(),
                self.policy() == old(self).policy(),
                0 <= j <= self.cursor_at() <= self.src().len(),
                self.cursor_at() == next_data(self.src(), j),
                value@ == self.src().subrange(j, self.cursor_at()),
            decreases self.src().len() - self.cursor_at(),
        {
            let keep = match self.peek() {
                Some(c) => super::charstream::is_space_char(c),
                None => false,
            };
            if !keep {
                self.do_indent = false;
                break ;
            }
            let ghost i = self.cursor_at();
            let c = self.bump();
            if c == '\n' {
                self.indent = 0;
            } else if self.do_indent && c == ' ' {
                self.indent = self.indent + 1;
            } else if self.do_indent && c == '\t' {
                self.indent = self.indent + 4;
            }
            super::push_char(&mut value, c);
            proof {
                assert(value@ =~= self.src().subrange(j, i + 1));
            }
        }
        let span = Span::new(start, self.pos());
        Some(Token::new(value, span, TokenType::WhiteSpace))
    }

    /// Read one plain character as a token.
    fn lex_token(&mut self) -> (r: Option<Token>)
        requires
            old(self).wf(),
            old(self).cursor_at() < old(self).src().len(),
        ensures
            final(self).wf(),
            final(self).src() == old(self).src(),
            final(self).policy() == old(self).policy(),
            final(self).cursor_at() == old(self).cursor_at() + 1,
            r matches Some(t) && t.value@ == old(self).src().subrange(
                old(self).cursor_at(),
                old(self).cursor_at() + 1,
            ) && t.span == (Span {
                start: coarse_at(old(self).src(), old(self).cursor_at()),
                end: coarse_at(old(self).src(), old(self).cursor_at() + 1),
            }) && t.tokentype == TokenType::Token,
    {
        let ghost j = self.cursor_at();
        let start = self.pos();
        let mut value = String::new();
        let c = self.bump();
        super::push_char(&mut value, c);
        proof {
            assert(value@ =~= self.src().subrange(j, j + 1));
        }
        let span = Span::new(start, self.pos());
        Some(Token::new(value, span, TokenType::Token))
    }

    /// Classify the non-whitespace character under the cursor and
    /// read its token.
    fn classify(&mut self) -> (r: Option<Token>)
        requires
            old(self).wf(),
        ensures
            final(self).wf(),
            final(self).src() == old(self).src(),
            final(self).policy() == old(self).policy(),
            old(self).cursor_at() <= final(self).cursor_at(),
            final(self).cursor_at() <= final(self).src().len(),
            r is Some ==> old(self).cursor_at() < final(self).cursor_at(),
            classify_ens(old(self).src(), old(self).cursor_at(), final(self).cursor_at(), r),
    {
        proof {
            assert(self.idx <= self.buffer.len());
            assert(self.cursor_at() <= self.src().len());
        }
        let peeked = self.peek();
        match peeked {
            None => {
                proof {
                    assert(self.cursor_at() >= self.src().len());
                    assert(classify_ens(self.src(), self.cursor_at(), self.cursor_at(), None::<Token>));
                }
                None
            },
            Some(c) => {
                let ghost i0 = self.cursor_at();
                if is_word_start_char(c) {
                    let r = self.lex_identifier();
                    proof {
                        lemma_scan_word_bounds(self.src(), i0);
                        lemma_scan_word_bounds(self.src(), i0 + 1);
                    }
                    r
                } else if c == '"' || c == '\'' {
                    let r = self.lex_string();
                    proof {
                        lemma_scan_delim_bounds(self.src(), i0 + 1, self.src()[i0]);
                    }
                    r
                } else if super::is_digit_char(c) {
                    let r = self.lex_number();
                    proof {
                        super::lemma_scan_digits_bounds(self.src(), i0);
                        super::lemma_scan_digits_bounds(self.src(), i0 + 1);
                    }
                    r
                } else {
                    self.lex_token()
                }
            },
        }
    }

    /// Hand out the next token: under the silent policy whitespace is
    /// skipped first, otherwise a whitespace run is itself the token.
    pub fn next_token(&mut self) -> (r: Option<Token>)
        requires
            old(self).wf(),
        ensures
            final(self).wf(),
            final(self).src() == old(self).src(),
            final(self).policy() == old(self).policy(),
            old(self).cursor_at() <= final(self).cursor_at() <= final(self).src().len(),
            r is Some ==> old(self).cursor_at() < final(self).cursor_at(),
            ({
                let s = old(self).src();
                let i0 = old(self).cursor_at();
                if i0 < s.len() && super::charstream::is_space(s[i0]) {
                    if old(self).policy() == WhitespaceType::KeepAll {
                        &&& final(self).cursor_at() == next_data(s, i0)
                        &&& r matches Some(t) && t.value@ == s.subrange(i0, next_data(s, i0))
                            && t.tokentype == TokenType::WhiteSpace
                    } else {
                        classify_ens(s, next_data(s, i0), final(self).cursor_at(), r)
                    }
                } else {
                    classify_ens(s, i0, final(self).cursor_at(), r)
                }
            }),
    {
        proof {
            lemma_row_col_bounds(self.src(), self.cursor_at());
        }
        let is_ws = match self.peek() {
            Some(c) => super::charstream::is_space_char(c),
            None => false,
        };
        if is_ws {
            let ghost i0 = self.cursor_at();
            let w = self.lex_whitespace();
            proof {
                super::charstream::lemma_next_data_bounds(self.src(), i0);
            }
            match self.whitespace {
                WhitespaceType::Ignore => self.classify(),
                WhitespaceType::KeepAll => w,
            }
        } else {
            self.classify()
        }
    }
}

impl super::tokenstream::TokenStream for BufferStream {
    open spec fn stream_wf(&self) -> bool {
        self.wf()
    }

    fn pos(&self) -> Position {
        self.position
    }

    fn indent(&self) -> usize {
        self.indent
    }

    fn set_whitespace(&mut self, whitespace: WhitespaceType) {
        self.whitespace = whitespace;
    }

    fn next_token(&mut self) -> Option<Token> {
        BufferStream::next_token(self)
    }

    fn goto(&mut self, position: Position) -> Result<(), super::ParseError> {
        let marker = super::charstream::Position {
            row: position.row,
            column: position.column,
            index: 0,
            file_id: 0,
        };
        loop
            invariant
                self.wf(),
            decreases self.src().len() - self.cursor_at(),
        {
            let here = BufferStream::pos(self);
            match here.compare(&position) {
                core::cmp::Ordering::Less => {
                    let stepped = BufferStream::next_token(self);
                    if stepped.is_none() {
                        return Err(
                            super::ParseError::new(
                                "Can not move past the end of a token stream.",
                                marker,
                            ),
                        );
                    }
                },
                core::cmp::Ordering::Equal => {
                    return Ok(());
                },
                core::cmp::Ordering::Greater => {
                    return Err(
                        super::ParseError::new("Can not move backward in a token stream.", marker),
                    );
                },
            }
        }
    }
}

} // verus!
