//! The parsing core: the `Parse` contract, parse errors, and the
//! primitive combinators.

use vstd::prelude::*;

pub mod bufferstream;
pub mod charstream;
pub mod token;
pub mod tokens;
pub mod tokenstream;

use charstream::{
    CharStream, Position, Span, StreamModel, WhitespaceType, is_space, lemma_next_data_bounds,
    lemma_row_col_bounds, lemma_row_monotone, lemma_wf_index, next_data, pos_at, skip_state,
    skipped, start_of,
};

verus! {

/// An error produced by a failed parse attempt: a human-readable cause
/// and the position the failure was noticed at. Errors are ordinary
/// values; parsers return them instead of unwinding.
#[derive(Clone, Debug)]
pub struct ParseError(String, Position);

impl ParseError {
    /// The message this error carries.
    pub closed spec fn spec_message(&self) -> Seq<char> {
        self.0@
    }

    /// The position this error points at.
    pub closed spec fn spec_pos(&self) -> Position {
        self.1
    }

    pub fn new(cause: &str, pos: Position) -> (e: Self)
        ensures
            e.spec_message() == cause@,
            e.spec_pos() == pos,
    {
        ParseError(cause.to_owned(), pos)
    }

    pub fn pos(&self) -> (p: Position)
        ensures
            p == self.spec_pos(),
    {
        self.1
    }

    /// The message, for reporting; tokens and fields name themselves in it.
    pub fn message(&self) -> (m: String)
        ensures
            m@ == self.spec_message(),
    {
        self.0.clone()
    }
}

/// Relies on String::push: appends one character to the string.
#[verifier::external_body]
pub(crate) fn push_char(s: &mut String, c: char)
    ensures
        final(s)@ == old(s)@.push(c),
{
    s.push(c);
}

/// The Latin letters, the characters an identifier may start with.
pub open spec fn is_alpha(c: char) -> bool {
    (('a' as u32) <= (c as u32) && (c as u32) <= ('z' as u32)) || (('A' as u32) <= (c as u32) && (
    c as u32) <= ('Z' as u32))
}

/// The decimal digits.
pub open spec fn is_digit(c: char) -> bool {
    ('0' as u32) <= (c as u32) && (c as u32) <= ('9' as u32)
}

/// Letters and digits, the characters an identifier may continue
/// with.
pub open spec fn is_alnum(c: char) -> bool {
    is_alpha(c) || is_digit(c)
}

pub(crate) fn is_alpha_char(c: char) -> (b: bool)
    ensures
        b == is_alpha(c),
{
    let u = c as u32;
    (('a' as u32) <= u && u <= ('z' as u32)) || (('A' as u32) <= u && u <= ('Z' as u32))
}

pub(crate) fn is_digit_char(c: char) -> (b: bool)
    ensures
        b == is_digit(c),
{
    let u = c as u32;
    ('0' as u32) <= u && u <= ('9' as u32)
}

pub(crate) fn is_alnum_char(c: char) -> (b: bool)
    ensures
        b == is_alnum(c),
{
    is_alpha_char(c) || is_digit_char(c)
}

/// The first index at or after `i` where `s` stops being alphanumeric.
pub open spec fn scan_alnum(s: Seq<char>, i: int) -> int
    decreases s.len() - i,
{
    if i < 0 || i >= s.len() {
        i
    } else if !is_alnum(s[i]) {
        i
    } else {
        scan_alnum(s, i + 1)
    }
}

/// The first index at or after `i` where `s` stops being a digit.
pub open spec fn scan_digits(s: Seq<char>, i: int) -> int
    decreases s.len() - i,
{
    if i < 0 || i >= s.len() {
        i
    } else if !is_digit(s[i]) {
        i
    } else {
        scan_digits(s, i + 1)
    }
}

pub proof fn lemma_scan_alnum_bounds(s: Seq<char>, i: int)
    requires
        0 <= i <= s.len(),
    ensures
        i <= scan_alnum(s, i) <= s.len(),
    decreases s.len() - i,
{
    if i < s.len() && is_alnum(s[i]) {
        lemma_scan_alnum_bounds(s, i + 1);
    }
}

pub proof fn lemma_scan_digits_bounds(s: Seq<char>, i: int)
    requires
        0 <= i <= s.len(),
    ensures
        i <= scan_digits(s, i) <= s.len(),
    decreases s.len() - i,
{
    if i < s.len() && is_digit(s[i]) {
        lemma_scan_digits_bounds(s, i + 1);
    }
}

/// Every grammatical element implements `Parse`: a parse procedure
/// over a cursor and a source span for parsed values.
///
/// Whatever the element, a parse preserves the cursor's source, buffer
/// identity, whitespace policy and indent unit, and never moves the
/// cursor backwards; a successful parse returns a well-formed value.
/// What else a parse does is the element's own contract, stated by its
/// `parse_ens`.
pub trait Parse: Sized {
    /// The values this element considers well formed; spans may only
    /// be asked of these.
    spec fn wf(&self) -> bool;

    /// The source range a value was read from.
    spec fn spec_span(&self) -> Span;

    /// The element's own contract: how the cursor state after
    /// `parse` and its result relate to the state before.
    spec fn parse_ens(pre: StreamModel, post: StreamModel, r: Result<Self, ParseError>) -> bool;

    fn parse(stream: &mut CharStream) -> (r: Result<Self, ParseError>)
        requires
            old(stream).wf(),
        ensures
            final(stream).wf(),
            final(stream)@.src == old(stream)@.src,
            final(stream)@.file_id == old(stream)@.file_id,
            final(stream)@.whitespace == old(stream)@.whitespace,
            final(stream)@.indent_size == old(stream)@.indent_size,
            old(stream)@.index <= final(stream)@.index <= final(stream)@.src.len(),
            r matches Ok(v) ==> v.wf(),
            Self::parse_ens(old(stream)@, final(stream)@, r),
    ;

    fn span(&self) -> (s: Span)
        requires
            self.wf(),
        ensures
            s == self.spec_span(),
    ;
}

/// An identifier: a word starting with a letter, continued by letters
/// and digits. The first character is read under the cursor's policy,
/// so leading whitespace may be skipped; the rest is read raw, so any
/// whitespace ends the word.
#[derive(Clone, Debug)]
pub struct Identifier {
    identifier: String,
    span: Span,
}

impl View for Identifier {
    type V = Seq<char>;

    closed spec fn view(&self) -> Seq<char> {
        self.identifier@
    }
}

/// What parsing an identifier means. With `j` the index after the
/// policy's whitespace skip: it succeeds exactly when a letter stands
/// at `j`, the value is the longest alphanumeric run from `j`, the
/// span covers that run, and the cursor ends right after it. A failed
/// attempt consumes nothing beyond the skip.
pub open spec fn ident_ens(
    pre: StreamModel,
    post: StreamModel,
    r: Result<Identifier, ParseError>,
) -> bool {
    let j = start_of(pre);
    let e = scan_alnum(pre.src, j);
    if j < pre.src.len() && is_alpha(pre.src[j]) {
        &&& r matches Ok(v) && v@ == pre.src.subrange(j, e) && v.spec_span() == (Span {
            start: pos_at(pre.src, pre.file_id, j),
            end: pos_at(pre.src, pre.file_id, e),
        })
        &&& post == (StreamModel {
            index: e,
            indent: skip_state(pre).0,
            in_indent: false,
            ..pre
        })
    } else {
        r is Err && post == skipped(pre)
    }
}

impl Identifier {
    /// The word itself.
    pub fn name(&self) -> (n: String)
        ensures
            n@ == self@,
    {
        self.identifier.clone()
    }

    /// Whether the word equals the given literal.
    pub fn matches(&self, literal: &str) -> (b: bool)
        ensures
            b == (self@ == literal@),
    {
        let other = String::from_str(literal);
        self.identifier == other
    }
}

impl Parse for Identifier {
    open spec fn wf(&self) -> bool {
        true
    }

    closed spec fn spec_span(&self) -> Span {
        self.span
    }

    open spec fn parse_ens(
        pre: StreamModel,
        post: StreamModel,
        r: Result<Identifier, ParseError>,
    ) -> bool {
        ident_ens(pre, post, r)
    }

    fn parse(stream: &mut CharStream) -> (r: Result<Self, ParseError>)
    {
        proof {
            lemma_wf_index(stream);
            lemma_next_data_bounds(old(stream)@.src, old(stream)@.index);
        }
        stream.skip_whitespace();
        let start = stream.pos();
        let ghost j = stream@.index;
        let peeked = stream.peek_raw();
        let first = match peeked {
            Some(c) => {
                if is_alpha_char(c) {
                    c
                } else {
                    return Err(ParseError::new("Expected identifier", start));
                }
            },
            None => {
                return Err(ParseError::new("Expected identifier", start));
            },
        };
        proof {
            lemma_scan_alnum_bounds(stream@.src, j);
        }
        let mut identifier = String::new();
        let _ = stream.advance_raw();
        push_char(&mut identifier, first);
        proof {
            assert(identifier@ =~= stream@.src.subrange(j, j + 1));
        }
        loop
            invariant
                stream.wf(),
                stream@.src == old(stream)@.src,
                stream@.file_id == old(stream)@.file_id,
                stream@.whitespace == old(stream)@.whitespace,
                stream@.indent_size == old(stream)@.indent_size,
                stream@.indent == skip_state(old(stream)@).0,
                stream@.in_indent == false,
                0 <= j < stream@.index <= stream@.src.len(),
                scan_alnum(stream@.src, stream@.index) == scan_alnum(stream@.src, j),
                identifier@ == stream@.src.subrange(j, stream@.index),
            ensures
                stream.wf(),
                stream@.src == old(stream)@.src,
                stream@.file_id == old(stream)@.file_id,
                stream@.whitespace == old(stream)@.whitespace,
                stream@.indent_size == old(stream)@.indent_size,
                stream@.indent == skip_state(old(stream)@).0,
                stream@.in_indent == false,
                0 <= j < stream@.index <= stream@.src.len(),
                stream@.index == scan_alnum(stream@.src, j),
                identifier@ == stream@.src.subrange(j, stream@.index),
            decreases stream@.src.len() - stream@.index,
        {
            let peeked2 = stream.peek_raw();
            match peeked2 {
                Some(c) => {
                    if is_alnum_char(c) {
                        let ghost i = stream@.index;
                        let _ = stream.advance_raw();
                        push_char(&mut identifier, c);
                        proof {
                            assert(identifier@ =~= stream@.src.subrange(j, i + 1));
                        }
                    } else {
                        break ;
                    }
                },
                None => {
                    break ;
                },
            }
        }
        let span = Span::new(start, stream.pos());
        Ok(Identifier { identifier, span })
    }

    fn span(&self) -> (s: Span) {
        self.span
    }
}

/// A number literal: a run of digits. The first digit is read under
/// the cursor's policy, the rest raw.
#[derive(Clone, Debug)]
pub struct Number {
    value: String,
    span: Span,
}

impl View for Number {
    type V = Seq<char>;

    closed spec fn view(&self) -> Seq<char> {
        self.value@
    }
}

/// The integer a run of digits denotes, base ten.
pub open spec fn digits_val(s: Seq<char>) -> int
    decreases s.len(),
{
    if s.len() == 0 {
        0
    } else {
        digits_val(s.drop_last()) * 10 + ((s.last() as u32) as int - 48)
    }
}

/// What parsing a number means: with `j` the index after the policy's
/// whitespace skip, it succeeds exactly when a digit stands at `j`,
/// the value is the longest digit run from `j`, the span covers it,
/// and the cursor ends right after it. A failed attempt consumes
/// nothing beyond the skip.
pub open spec fn number_ens(
    pre: StreamModel,
    post: StreamModel,
    r: Result<Number, ParseError>,
) -> bool {
    let j = start_of(pre);
    let e = scan_digits(pre.src, j);
    if j < pre.src.len() && is_digit(pre.src[j]) {
        &&& r matches Ok(v) && v@ == pre.src.subrange(j, e) && v.spec_span() == (Span {
            start: pos_at(pre.src, pre.file_id, j),
            end: pos_at(pre.src, pre.file_id, e),
        })
        &&& post == (StreamModel {
            index: e,
            indent: skip_state(pre).0,
            in_indent: false,
            ..pre
        })
    } else {
        r is Err && post == skipped(pre)
    }
}

impl Number {
    /// The digits as read.
    pub fn text(&self) -> (t: String)
        ensures
            t@ == self@,
    {
        self.value.clone()
    }

    /// The machine integer the digits denote, when it fits.
    pub fn value(&self) -> (r: Option<usize>)
        requires
            self.wf(),
        ensures
            r matches Some(v) ==> v == digits_val(self@),
            r is None <==> digits_val(self@) > usize::MAX,
    {
        let text = &self.value;
        let n = text.as_str().unicode_len();
        let mut acc: usize = 0;
        let mut i: usize = 0;
        proof {
            assert(self@.subrange(0, 0) =~= Seq::<char>::empty());
        }
        while i < n
            invariant
                i <= n,
                n == self@.len(),
                text@ == self@,
                self.wf(),
                acc == digits_val(self@.subrange(0, i as int)),
            ensures
                i == n,
                acc == digits_val(self@.subrange(0, n as int)),
            decreases n - i,
        {
            let c = text.as_str().get_char(i);
            proof {
                assert(is_digit(self@[i as int]));
            }
            let d = ((c as u32) - 48) as usize;
            proof {
                assert(self@.subrange(0, i + 1).drop_last() =~= self@.subrange(0, i as int));
                assert(self@.subrange(0, i + 1).last() == self@[i as int]);
                lemma_digits_val_prefix(self@, i + 1);
            }
            let m = acc.checked_mul(10);
            let step = match m {
                Some(x) => x.checked_add(d),
                None => None,
            };
            match step {
                Some(next) => {
                    acc = next;
                },
                None => {
                    proof {
                        assert(digits_val(self@.subrange(0, i + 1)) > usize::MAX);
                    }
                    return None;
                },
            }
            i = i + 1;
        }
        proof {
            assert(self@.subrange(0, n as int) =~= self@);
        }
        Some(acc)
    }
}

/// A sequence of digits denotes a non-negative value, and every prefix
/// denotes at most what the whole does.
pub proof fn lemma_digits_val_prefix(s: Seq<char>, k: int)
    requires
        0 <= k <= s.len(),
        forall|i: int| 0 <= i < s.len() ==> is_digit(#[trigger] s[i]),
    ensures
        0 <= digits_val(s.subrange(0, k)),
        digits_val(s.subrange(0, k)) <= digits_val(s),
    decreases s.len(),
{
    lemma_digits_val_nonneg(s);
    if s.len() > 0 {
        lemma_digits_val_nonneg(s.drop_last());
        assert(is_digit(s.last()));
        assert((s.last() as u32) as int - 48 >= 0);
        assert(digits_val(s.drop_last()) <= digits_val(s.drop_last()) * 10) by (nonlinear_arith)
            requires
                digits_val(s.drop_last()) >= 0,
        ;
        if k == s.len() {
            assert(s.subrange(0, k) =~= s);
        } else {
            assert(s.subrange(0, k) =~= s.drop_last().subrange(0, k));
            lemma_digits_val_prefix(s.drop_last(), k);
        }
    } else {
        assert(s.subrange(0, 0) =~= s);
    }
}

/// A sequence of digits denotes a non-negative value.
pub proof fn lemma_digits_val_nonneg(s: Seq<char>)
    requires
        forall|i: int| 0 <= i < s.len() ==> is_digit(#[trigger] s[i]),
    ensures
        digits_val(s) >= 0,
    decreases s.len(),
{
    if s.len() > 0 {
        lemma_digits_val_nonneg(s.drop_last());
        assert(is_digit(s.last()));
        assert((s.last() as u32) as int - 48 >= 0);
        assert(digits_val(s.drop_last()) * 10 >= 0) by (nonlinear_arith)
            requires
                digits_val(s.drop_last()) >= 0,
        ;
    }
}

impl Parse for Number {
    /// A well-formed number holds digits only.
    open spec fn wf(&self) -> bool {
        forall|i: int| 0 <= i < self@.len() ==> is_digit(#[trigger] self@[i])
    }

    closed spec fn spec_span(&self) -> Span {
        self.span
    }

    open spec fn parse_ens(
        pre: StreamModel,
        post: StreamModel,
        r: Result<Number, ParseError>,
    ) -> bool {
        number_ens(pre, post, r)
    }

    fn parse(stream: &mut CharStream) -> (r: Result<Self, ParseError>)
    {
        proof {
            lemma_wf_index(stream);
            lemma_next_data_bounds(old(stream)@.src, old(stream)@.index);
        }
        stream.skip_whitespace();
        let start = stream.pos();
        let ghost j = stream@.index;
        let peeked = stream.peek_raw();
        let first = match peeked {
            Some(c) => {
                if is_digit_char(c) {
                    c
                } else {
                    return Err(ParseError::new("Expected number literal", start));
                }
            },
            None => {
                return Err(ParseError::new("Expected number literal", start));
            },
        };
        proof {
            lemma_scan_digits_bounds(stream@.src, j);
        }
        let mut value = String::new();
        let _ = stream.advance_raw();
        push_char(&mut value, first);
        proof {
            assert(value@ =~= stream@.src.subrange(j, j + 1));
        }
        loop
            invariant
                stream.wf(),
                stream@.src == old(stream)@.src,
                stream@.file_id == old(stream)@.file_id,
                stream@.whitespace == old(stream)@.whitespace,
                stream@.indent_size == old(stream)@.indent_size,
                stream@.indent == skip_state(old(stream)@).0,
                stream@.in_indent == false,
                0 <= j < stream@.index <= stream@.src.len(),
                scan_digits(stream@.src, stream@.index) == scan_digits(stream@.src, j),
                value@ == stream@.src.subrange(j, stream@.index),
            ensures
                stream.wf(),
                stream@.src == old(stream)@.src,
                stream@.file_id == old(stream)@.file_id,
                stream@.whitespace == old(stream)@.whitespace,
                stream@.indent_size == old(stream)@.indent_size,
                stream@.indent == skip_state(old(stream)@).0,
                stream@.in_indent == false,
                0 <= j < stream@.index <= stream@.src.len(),
                stream@.index == scan_digits(stream@.src, j),
                value@ == stream@.src.subrange(j, stream@.index),
            decreases stream@.src.len() - stream@.index,
        {
            let peeked2 = stream.peek_raw();
            match peeked2 {
                Some(c) => {
                    if is_digit_char(c) {
                        let ghost i = stream@.index;
                        let _ = stream.advance_raw();
                        push_char(&mut value, c);
                        proof {
                            assert(value@ =~= stream@.src.subrange(j, i + 1));
                        }
                    } else {
                        break ;
                    }
                },
                None => {
                    break ;
                },
            }
        }
        let span = Span::new(start, stream.pos());
        proof {
            let pre = old(stream)@;
            let e = scan_digits(pre.src, start_of(pre));
            assert(forall|i: int| start_of(pre) <= i < e ==> is_digit(#[trigger] pre.src[i])) by {
                lemma_scan_digits_run(pre.src, start_of(pre));
            }
        }
        Ok(Number { value, span })
    }

    fn span(&self) -> (s: Span) {
        self.span
    }
}

/// Every character of the run a digit scan covers is a digit.
pub proof fn lemma_scan_digits_run(s: Seq<char>, i: int)
    requires
        0 <= i <= s.len(),
    ensures
        forall|k: int| i <= k < scan_digits(s, i) ==> is_digit(#[trigger] s[k]),
    decreases s.len() - i,
{
    if i < s.len() && is_digit(s[i]) {
        lemma_scan_digits_run(s, i + 1);
    }
}

/// A string literal: text between double quotes. A backslash escapes
/// the character after it, so `\\` and `\"` stand for a backslash
/// and a quote; no other interpretation is applied.
#[derive(Clone, Debug)]
pub struct StringValue {
    value: String,
    span: Span,
}

impl View for StringValue {
    type V = Seq<char>;

    closed spec fn view(&self) -> Seq<char> {
        self.value@
    }
}

/// The index of the closing quote of a string body starting at `i`:
/// the first unescaped `"` at or after `i`, or the end of `s` when the
/// string is unterminated.
pub open spec fn scan_string(s: Seq<char>, i: int) -> int
    decreases s.len() - i,
{
    if i < 0 || i >= s.len() {
        i
    } else if s[i] == '"' {
        i
    } else if s[i] == '\\' && i + 2 <= s.len() {
        scan_string(s, i + 2)
    } else {
        scan_string(s, i + 1)
    }
}

pub proof fn lemma_scan_string_bounds(s: Seq<char>, i: int)
    requires
        0 <= i <= s.len(),
    ensures
        i <= scan_string(s, i) <= s.len(),
        scan_string(s, i) < s.len() ==> s[scan_string(s, i)] == '"',
    decreases s.len() - i,
{
    if i < s.len() && s[i] != '"' {
        if s[i] == '\\' && i + 2 <= s.len() {
            lemma_scan_string_bounds(s, i + 2);
        } else {
            lemma_scan_string_bounds(s, i + 1);
        }
    }
}

/// The text a string body between `i` and `e` denotes, with each
/// backslash replaced by the character it escapes.
pub open spec fn unescape(s: Seq<char>, i: int, e: int) -> Seq<char>
    decreases e - i,
{
    if i < 0 || i >= e || e > s.len() {
        Seq::empty()
    } else if s[i] == '\\' && i + 2 <= e {
        seq![s[i + 1]] + unescape(s, i + 2, e)
    } else {
        seq![s[i]] + unescape(s, i + 1, e)
    }
}

/// What parsing a string literal means: with `j` the index after the
/// policy's whitespace skip, it succeeds exactly when a quote stands
/// at `j` and a closing quote follows; the value is the unescaped body
/// between the quotes, the span covers both quotes, and the cursor
/// ends after the closing quote. When no quote stands at `j`, nothing
/// beyond the skip is consumed; an unterminated string consumes the
/// rest of the buffer and fails.
pub open spec fn string_ens(
    pre: StreamModel,
    post: StreamModel,
    r: Result<StringValue, ParseError>,
) -> bool {
    let j = start_of(pre);
    let src = pre.src;
    if j < src.len() && src[j] == '"' {
        let e = scan_string(src, j + 1);
        if e < src.len() {
            &&& r matches Ok(v) && v@ == unescape(src, j + 1, e) && v.spec_span() == (Span {
                start: pos_at(src, pre.file_id, j),
                end: pos_at(src, pre.file_id, e + 1),
            })
            &&& post == (StreamModel {
                index: e + 1,
                indent: skip_state(pre).0,
                in_indent: false,
                ..pre
            })
        } else {
            &&& r is Err
            &&& post == (StreamModel {
                index: src.len() as int,
                indent: skip_state(pre).0,
                in_indent: post.in_indent,
                ..pre
            })
        }
    } else {
        r is Err && post == skipped(pre)
    }
}

impl StringValue {
    /// The text between the quotes, unescaped.
    pub fn text(&self) -> (t: String)
        ensures
            t@ == self@,
    {
        self.value.clone()
    }
}

impl Parse for StringValue {
    open spec fn wf(&self) -> bool {
        true
    }

    closed spec fn spec_span(&self) -> Span {
        self.span
    }

    open spec fn parse_ens(
        pre: StreamModel,
        post: StreamModel,
        r: Result<StringValue, ParseError>,
    ) -> bool {
        string_ens(pre, post, r)
    }

    fn parse(stream: &mut CharStream) -> (r: Result<Self, ParseError>)
    {
        proof {
            lemma_wf_index(stream);
            lemma_next_data_bounds(old(stream)@.src, old(stream)@.index);
        }
        stream.skip_whitespace();
        let start = stream.pos();
        let opened = match stream.peek_raw() {
            Some(c) => c == '"',
            None => false,
        };
        if !opened {
            return Err(ParseError::new("Expected string literal", start));
        }
        let _ = stream.advance_raw();
        let ghost j = stream@.index - 1;
        let ghost e = scan_string(stream@.src, j + 1);
        proof {
            lemma_scan_string_bounds(stream@.src, j + 1);
        }
        let mut value = String::new();
        loop
            invariant_except_break
                e == scan_string(stream@.src, stream@.index),
                unescape(stream@.src, j + 1, e) == value@ + unescape(
                    stream@.src,
                    stream@.index,
                    e,
                ),
            invariant
                stream.wf(),
                stream@.src == old(stream)@.src,
                stream@.file_id == old(stream)@.file_id,
                stream@.whitespace == old(stream)@.whitespace,
                stream@.indent_size == old(stream)@.indent_size,
                stream@.indent == skip_state(old(stream)@).0,
                stream@.in_indent == false,
                0 <= j < stream@.index <= e <= stream@.src.len(),
                e < stream@.src.len() ==> stream@.src[e] == '"',
            ensures
                stream.wf(),
                stream@.src == old(stream)@.src,
                stream@.file_id == old(stream)@.file_id,
                stream@.whitespace == old(stream)@.whitespace,
                stream@.indent_size == old(stream)@.indent_size,
                stream@.indent == skip_state(old(stream)@).0,
                stream@.in_indent == false,
                stream@.index == e,
                e < stream@.src.len() ==> value@ == unescape(stream@.src, j + 1, e),
            decreases e - stream@.index,
        {
            let peeked = stream.peek_raw();
            match peeked {
                None => {
                    proof {
                        assert(unescape(stream@.src, stream@.index, e) =~= Seq::<char>::empty());
                    }
                    break ;
                },
                Some(c) => {
                    if c == '"' {
                        proof {
                            assert(unescape(stream@.src, stream@.index, e)
                                =~= Seq::<char>::empty());
                        }
                        break ;
                    } else if c == '\\' {
                        let ghost i = stream@.index;
                        let ghost old_v = value@;
                        let _ = stream.advance_raw();
                        match stream.peek_raw() {
                            Some(c2) => {
                                let _ = stream.advance_raw();
                                push_char(&mut value, c2);
                                proof {
                                    lemma_scan_string_bounds(stream@.src, i + 2);
                                    assert(scan_string(stream@.src, i) == scan_string(
                                        stream@.src,
                                        i + 2,
                                    ));
                                    assert(i + 2 <= e);
                                    assert(unescape(stream@.src, i, e) == seq![c2] + unescape(
                                        stream@.src,
                                        i + 2,
                                        e,
                                    ));
                                    assert(old_v + (seq![c2] + unescape(stream@.src, i + 2, e))
                                        =~= value@ + unescape(stream@.src, i + 2, e));
                                }
                            },
                            None => {
                                break ;
                            },
                        }
                    } else {
                        let ghost i = stream@.index;
                        let ghost old_v = value@;
                        let _ = stream.advance_raw();
                        push_char(&mut value, c);
                        proof {
                            assert(unescape(stream@.src, i, e) == seq![c] + unescape(
                                stream@.src,
                                i + 1,
                                e,
                            ));
                            assert(old_v + (seq![c] + unescape(stream@.src, i + 1, e))
                                =~= value@ + unescape(stream@.src, i + 1, e));
                        }
                    }
                },
            }
        }
        let close = stream.advance_raw();
        match close {
            Some(_) => {
                let span = Span::new(start, stream.pos());
                Ok(StringValue { value, span })
            },
            None => Err(ParseError::new("Expected closing quote of string literal", stream.pos())),
        }
    }

    fn span(&self) -> (s: Span) {
        self.span
    }
}

/// Whether the cursor standing at `pre` faces the literal `lit`,
/// after the policy's whitespace skip.
pub open spec fn token_match(pre: StreamModel, lit: Seq<char>) -> bool {
    let j = start_of(pre);
    j + lit.len() <= pre.src.len() && pre.src.subrange(j, j + lit.len() as int) == lit
}

/// The span a literal matched at `pre` covers.
pub open spec fn token_span(pre: StreamModel, lit: Seq<char>) -> Span {
    let j = start_of(pre);
    Span {
        start: pos_at(pre.src, pre.file_id, j),
        end: pos_at(pre.src, pre.file_id, j + lit.len() as int),
    }
}

/// What parsing the literal `lit` means: it succeeds exactly when the
/// cursor faces the literal, consuming it and reporting its span; a
/// failed attempt leaves the cursor exactly where it stood.
pub open spec fn token_ens(
    lit: Seq<char>,
    pre: StreamModel,
    post: StreamModel,
    r: Result<Span, ParseError>,
) -> bool {
    if token_match(pre, lit) {
        &&& r matches Ok(sp) && sp == token_span(pre, lit)
        &&& post == (StreamModel {
            index: start_of(pre) + lit.len(),
            indent: skip_state(pre).0,
            in_indent: false,
            ..pre
        })
    } else {
        r is Err && post == pre
    }
}

/// Match one fixed literal against the cursor: the first character is
/// looked for under the cursor's policy, the rest raw. The attempt is
/// atomic: it runs on a clone, and only a full match moves the cursor.
pub fn parse_literal(stream: &mut CharStream, literal: &str) -> (r: Result<Span, ParseError>)
    requires
        old(stream).wf(),
        literal@.len() >= 1,
        forall|k: int| 0 <= k < literal@.len() ==> !is_space(#[trigger] literal@[k]),
    ensures
        final(stream).wf(),
        final(stream)@.src == old(stream)@.src,
        final(stream)@.file_id == old(stream)@.file_id,
        final(stream)@.whitespace == old(stream)@.whitespace,
        final(stream)@.indent_size == old(stream)@.indent_size,
        old(stream)@.index <= final(stream)@.index <= final(stream)@.src.len(),
        token_ens(literal@, old(stream)@, final(stream)@, r),
{
    proof {
        lemma_wf_index(stream);
        lemma_next_data_bounds(old(stream)@.src, old(stream)@.index);
    }
    let ghost pre = stream@;
    let mut probe = stream.clone();
    probe.skip_whitespace();
    let start = probe.pos();
    let ghost j = probe@.index;
    let n = literal.unicode_len();
    let mut k: usize = 0;
    while k < n
        invariant_except_break
            probe@.index == j + k,
            j + n <= probe@.src.len() || k < n,
            pre.src.subrange(j, j + k as int) == literal@.subrange(0, k as int),
            k >= 1 ==> probe@.in_indent == false,
            k == 0 ==> probe@.in_indent == skip_state(pre).1,
        invariant
            probe.wf(),
            probe@.src == pre.src,
            probe@.file_id == pre.file_id,
            probe@.whitespace == pre.whitespace,
            probe@.indent_size == pre.indent_size,
            probe@.indent == skip_state(pre).0,
            stream@ == pre,
            stream.wf(),
            k <= n,
            n == literal@.len(),
            n >= 1,
            0 <= pre.index <= pre.src.len(),
            j == start_of(pre),
            0 <= j <= probe@.index <= probe@.src.len(),
            forall|t: int| 0 <= t < literal@.len() ==> !is_space(#[trigger] literal@[t]),
        ensures
            k == n,
            probe.wf(),
            probe@.src == pre.src,
            probe@.file_id == pre.file_id,
            probe@.whitespace == pre.whitespace,
            probe@.indent_size == pre.indent_size,
            probe@.indent == skip_state(pre).0,
            probe@.in_indent == false,
            probe@.index == j + n,
            stream@ == pre,
            stream.wf(),
            pre.src.subrange(j, j + n as int) == literal@,
        decreases n - k,
    {
        let c = literal.get_char(k);
        let peeked = probe.peek_raw();
        match peeked {
            Some(c2) => {
                if c2 == c {
                    let _ = probe.advance_raw();
                    proof {
                        assert(pre.src.subrange(j, j + k as int) =~= literal@.subrange(
                            0,
                            k as int,
                        ));
                        assert(pre.src.subrange(j, j + (k + 1) as int) =~= literal@.subrange(
                            0,
                            (k + 1) as int,
                        ));
                    }
                    k = k + 1;
                } else {
                    proof {
                        lemma_token_mismatch(pre.src, literal@, j, k as int);
                    }
                    return Err(
                        ParseError::new("Did not find the expected token.", stream.pos()),
                    );
                }
            },
            None => {
                proof {
                    lemma_token_short(pre.src, literal@, j, k as int);
                }
                return Err(ParseError::new("Did not find the expected token.", stream.pos()));
            },
        }
    }
    let end = probe.pos();
    proof {
        assert(literal@.subrange(0, n as int) =~= literal@);
    }
    *stream = probe;
    Ok(Span::new(start, end))
}

/// A literal does not match where one of its characters differs from
/// the source.
proof fn lemma_token_mismatch(src: Seq<char>, lit: Seq<char>, j: int, k: int)
    requires
        0 <= j,
        0 <= k < lit.len(),
        j + k < src.len(),
        src[j + k] != lit[k],
    ensures
        !(j + lit.len() <= src.len() && src.subrange(j, j + lit.len() as int) == lit),
{
    if j + lit.len() <= src.len() && src.subrange(j, j + lit.len() as int) == lit {
        assert(src.subrange(j, j + lit.len() as int)[k] == src[j + k]);
    }
}

/// A literal does not match where the source ends before it does.
proof fn lemma_token_short(src: Seq<char>, lit: Seq<char>, j: int, k: int)
    requires
        0 <= j,
        0 <= k < lit.len(),
        j + k >= src.len(),
    ensures
        !(j + lit.len() <= src.len() && src.subrange(j, j + lit.len() as int) == lit),
{
}

/// A delimited item: the opening token of `D`, one inner `I`, the
/// closing token of `D`.
#[derive(Clone)]
pub struct Group<D, I> {
    pub delimiter: D,
    pub item: I,
}

impl<D: tokens::Delimiter, I: Parse> Group<D, I> {
    /// The inner value, by reference.
    pub fn item(&self) -> (i: &I)
        ensures
            *i == self.item,
    {
        &self.item
    }
}

impl<D: tokens::Delimiter, I: Parse> Parse for Group<D, I> {
    /// A well-formed group holds a well-formed delimiter and item.
    open spec fn wf(&self) -> bool {
        self.delimiter.wf() && self.item.wf()
    }

    open spec fn spec_span(&self) -> Span {
        self.delimiter.spec_span()
    }

    /// A group parse is the opening token's parse, the item's parse
    /// and the closing token's parse in sequence, stopping at the
    /// first failure.
    open spec fn parse_ens(
        pre: StreamModel,
        post: StreamModel,
        r: Result<Group<D, I>, ParseError>,
    ) -> bool {
        match r {
            Ok(v) => exists|m1: StreamModel, m2: StreamModel, st: D::Start, en: D::End|
                #![auto]
                {
                    &&& <D::Start as Parse>::parse_ens(pre, m1, Ok(st))
                    &&& I::parse_ens(m1, m2, Ok(v.item))
                    &&& <D::End as Parse>::parse_ens(m2, post, Ok(en))
                    &&& pre.index <= m1.index <= m2.index <= post.index <= pre.src.len()
                    &&& m1.src == pre.src && m1.file_id == pre.file_id
                    &&& m2.src == pre.src && m2.file_id == pre.file_id
                    &&& v.delimiter.spec_span() == (Span {
                        start: st.spec_span().start,
                        end: en.spec_span().end,
                    })
                },
            Err(e) => {
                ||| <D::Start as Parse>::parse_ens(pre, post, Err(e))
                ||| exists|m1: StreamModel, st: D::Start|
                    #![auto]
                    <D::Start as Parse>::parse_ens(pre, m1, Ok(st)) && I::parse_ens(
                        m1,
                        post,
                        Err(e),
                    )
                ||| exists|m1: StreamModel, m2: StreamModel, st: D::Start, it: I|
                    #![auto]
                    <D::Start as Parse>::parse_ens(pre, m1, Ok(st)) && I::parse_ens(
                        m1,
                        m2,
                        Ok(it),
                    ) && <D::End as Parse>::parse_ens(m2, post, Err(e))
            },
        }
    }

    fn parse(stream: &mut CharStream) -> (r: Result<Self, ParseError>) {
        let ghost pre = stream@;
        let start = match <D::Start as Parse>::parse(stream) {
            Ok(v) => v,
            Err(e) => {
                return Err(e);
            },
        };
        let ghost m1 = stream@;
        let ghost gst = start;
        let item = match I::parse(stream) {
            Ok(v) => v,
            Err(e) => {
                return Err(e);
            },
        };
        let ghost m2 = stream@;
        let end = match <D::End as Parse>::parse(stream) {
            Ok(v) => v,
            Err(e) => {
                return Err(e);
            },
        };
        let ghost gen_ = end;
        let ghost gitem = item;
        let delimiter = D::new(start, end);
        let g = Group { delimiter, item };
        proof {
            assert(<D::Start as Parse>::parse_ens(pre, m1, Ok(gst)) && I::parse_ens(
                m1,
                m2,
                Ok(g.item),
            ) && <D::End as Parse>::parse_ens(m2, stream@, Ok(gen_)) && pre.index <= m1.index
                <= m2.index <= stream@.index <= pre.src.len() && m1.src == pre.src && m1.file_id
                == pre.file_id && m2.src == pre.src && m2.file_id == pre.file_id
                && g.delimiter.spec_span() == (Span {
                start: gst.spec_span().start,
                end: gen_.spec_span().end,
            }));
        }
        Ok(g)
    }

    fn span(&self) -> (s: Span) {
        self.delimiter.span()
    }
}

/// Law: a group whose opening token does not face the cursor fails
/// and leaves the cursor at its entry position. The opening token is
/// matched under its own atomic rule, so nothing was consumed.
pub proof fn lemma_group_start_atomic<D: tokens::Delimiter, I: Parse>(
    pre: StreamModel,
    post: StreamModel,
    e: ParseError,
)
    requires
        Group::<D, I>::parse_ens(pre, post, Err(e)),
        !token_match(pre, <D::Start as tokens::Token>::spec_literal()),
        0 <= pre.index <= pre.src.len(),
    ensures
        post == pre,
{
    if <D::Start as Parse>::parse_ens(pre, post, Err(e)) {
        <D::Start as tokens::Token>::parse_ens_inv(pre, post, Err(e));
    } else if exists|m1: StreamModel, st: D::Start|
        #![auto]
        <D::Start as Parse>::parse_ens(pre, m1, Ok(st)) && I::parse_ens(m1, post, Err(e)) {
        let (m1, st) = choose|m1: StreamModel, st: D::Start|
            #![auto]
            <D::Start as Parse>::parse_ens(pre, m1, Ok(st)) && I::parse_ens(m1, post, Err(e));
        <D::Start as tokens::Token>::parse_ens_inv(pre, m1, Ok(st));
    } else {
        let (m1, m2, st, it) = choose|m1: StreamModel, m2: StreamModel, st: D::Start, it: I|
            #![auto]
            <D::Start as Parse>::parse_ens(pre, m1, Ok(st)) && I::parse_ens(m1, m2, Ok(it))
                && <D::End as Parse>::parse_ens(m2, post, Err(e));
        <D::Start as tokens::Token>::parse_ens_inv(pre, m1, Ok(st));
    }
}

/// The states a list's separated pairs pass through: each pair is an
/// item parse followed by a separator parse, in sequence from `m0` to
/// `mk`.
pub open spec fn list_pairs_run<I: Parse, S: tokens::Token>(
    m0: StreamModel,
    mk: StreamModel,
    items: Seq<(I, S)>,
) -> bool
    decreases items.len(),
{
    if items.len() == 0 {
        mk == m0
    } else {
        exists|m1: StreamModel, m2: StreamModel|
            #![auto]
            I::parse_ens(m0, m1, Ok(items[0].0)) && S::parse_ens(m1, m2, Ok(items[0].1))
                && list_pairs_run::<I, S>(m2, mk, items.drop_first())
    }
}

/// What reading a whole list means: the separated pairs were parsed
/// greedily in sequence from `pre`; then either one more item was
/// accepted as the trailing one and its separator failed, or the next
/// item itself failed; the cursor stands after the last accepted
/// piece.
pub open spec fn list_run<I: Parse, S: tokens::Token>(
    pre: StreamModel,
    post: StreamModel,
    items: Seq<(I, S)>,
    last: Option<I>,
) -> bool {
    match last {
        Some(i) => exists|mk: StreamModel, w: StreamModel, e: ParseError|
            #![auto]
            list_pairs_run::<I, S>(pre, mk, items) && I::parse_ens(mk, post, Ok(i))
                && S::parse_ens(post, w, Err(e)),
        None => exists|w: StreamModel, e: ParseError|
            #![auto]
            list_pairs_run::<I, S>(pre, post, items) && I::parse_ens(post, w, Err(e)),
    }
}

/// One more accepted pair extends a pair run.
pub(crate) proof fn lemma_list_pairs_snoc<I: Parse, S: tokens::Token>(
    m0: StreamModel,
    mk: StreamModel,
    m1: StreamModel,
    m2: StreamModel,
    items: Seq<(I, S)>,
    i: I,
    s: S,
)
    requires
        list_pairs_run::<I, S>(m0, mk, items),
        I::parse_ens(mk, m1, Ok(i)),
        S::parse_ens(m1, m2, Ok(s)),
    ensures
        list_pairs_run::<I, S>(m0, m2, items.push((i, s))),
    decreases items.len(),
{
    let p = items.push((i, s));
    if items.len() == 0 {
        assert(p[0] == (i, s));
        assert(p.drop_first() =~= Seq::<(I, S)>::empty());
        assert(I::parse_ens(m0, m1, Ok(p[0].0)));
        assert(S::parse_ens(m1, m2, Ok(p[0].1)));
        assert(list_pairs_run::<I, S>(m2, m2, p.drop_first()));
    } else {
        let (w1, w2) = choose|w1: StreamModel, w2: StreamModel|
            #![auto]
            I::parse_ens(m0, w1, Ok(items[0].0)) && S::parse_ens(w1, w2, Ok(items[0].1))
                && list_pairs_run::<I, S>(w2, mk, items.drop_first());
        lemma_list_pairs_snoc::<I, S>(w2, mk, m1, m2, items.drop_first(), i, s);
        assert(p.drop_first() =~= items.drop_first().push((i, s)));
        assert(p[0] == items[0]);
        assert(I::parse_ens(m0, w1, Ok(p[0].0)));
        assert(S::parse_ens(w1, w2, Ok(p[0].1)));
        assert(list_pairs_run::<I, S>(w2, m2, p.drop_first()));
    }
}

/// A possibly-empty list of `I` items separated by `S` tokens, with
/// an optional trailing item that no separator follows.
#[derive(Clone)]
pub struct List<I, S = tokens::Comma> {
    pub items: Vec<(I, S)>,
    pub last_item: Option<I>,
    pub span: Span,
}

impl<I: Parse + Clone, S: tokens::Token> List<I, S> {
    /// The items, separators dropped: the separated ones first, then
    /// the trailing one if any. Each entry is a clone of the stored
    /// item.
    pub fn values(&self) -> (v: Vec<I>)
        ensures
            v@.len() == self.items@.len() + if self.last_item is Some {
                1int
            } else {
                0int
            },
            forall|k: int|
                0 <= k < self.items@.len() ==> cloned::<I>((#[trigger] self.items@[k]).0, v@[k]),
            self.last_item matches Some(l) ==> cloned::<I>(l, v@[v@.len() - 1]),
    {
        let mut v: Vec<I> = Vec::new();
        let n = self.items.len();
        let mut k: usize = 0;
        while k < n
            invariant
                k <= n,
                n == self.items@.len(),
                v@.len() == k as int,
                forall|t: int|
                    0 <= t < k ==> cloned::<I>((#[trigger] self.items@[t]).0, v@[t]),
            decreases n - k,
        {
            v.push(self.items[k].0.clone());
            k = k + 1;
        }
        match &self.last_item {
            Some(l) => {
                v.push(l.clone());
            },
            None => {},
        }
        v
    }
}

impl<I: Parse, S: tokens::Token> Parse for List<I, S> {
    open spec fn wf(&self) -> bool {
        &&& forall|k: int|
            0 <= k < self.items@.len() ==> (#[trigger] self.items@[k]).0.wf()
                && self.items@[k].1.wf()
        &&& self.last_item matches Some(l) ==> l.wf()
    }

    open spec fn spec_span(&self) -> Span {
        self.span
    }

    /// A list parse never fails. The returned pairs and trailing item
    /// are exactly one greedy run of item and separator parses from
    /// the entry state, the span runs from the position the parse
    /// started at to the position it stopped at, and a list that found
    /// nothing leaves the cursor exactly where it stood.
    open spec fn parse_ens(
        pre: StreamModel,
        post: StreamModel,
        r: Result<List<I, S>, ParseError>,
    ) -> bool {
        match r {
            Ok(v) => {
                &&& v.span == (Span {
                    start: pos_at(pre.src, pre.file_id, pre.index),
                    end: pos_at(pre.src, pre.file_id, post.index),
                })
                &&& list_run::<I, S>(pre, post, v.items@, v.last_item)
                &&& (v.items@.len() == 0 && v.last_item is None ==> post == pre)
            },
            Err(_) => false,
        }
    }

    fn parse(stream: &mut CharStream) -> (r: Result<Self, ParseError>) {
        proof {
            lemma_wf_index(stream);
        }
        let start = stream.pos();
        let mut items: Vec<(I, S)> = Vec::new();
        let mut last_item: Option<I> = None;
        loop
            invariant_except_break
                last_item is None,
                list_pairs_run::<I, S>(old(stream)@, stream@, items@),
            invariant
                stream.wf(),
                stream@.src == old(stream)@.src,
                stream@.file_id == old(stream)@.file_id,
                stream@.whitespace == old(stream)@.whitespace,
                stream@.indent_size == old(stream)@.indent_size,
                0 <= old(stream)@.index,
                old(stream)@.index <= stream@.index <= stream@.src.len(),
                forall|k: int|
                    0 <= k < items@.len() ==> (#[trigger] items@[k]).0.wf() && items@[k].1.wf(),
                items@.len() == 0 && last_item is None ==> stream@ == old(stream)@,
            ensures
                stream.wf(),
                stream@.src == old(stream)@.src,
                stream@.file_id == old(stream)@.file_id,
                stream@.whitespace == old(stream)@.whitespace,
                stream@.indent_size == old(stream)@.indent_size,
                old(stream)@.index <= stream@.index <= stream@.src.len(),
                forall|k: int|
                    0 <= k < items@.len() ==> (#[trigger] items@[k]).0.wf() && items@[k].1.wf(),
                last_item matches Some(l) ==> l.wf(),
                items@.len() == 0 && last_item is None ==> stream@ == old(stream)@,
                list_run::<I, S>(old(stream)@, stream@, items@, last_item),
            decreases stream@.src.len() + 1 - stream@.index,
        {
            let ghost m_entry = stream@;
            let mut probe = stream.clone();
            let item = match I::parse(&mut probe) {
                Err(e) => {
                    let ghost ge = e;
                    proof {
                        assert(I::parse_ens(m_entry, probe@, Err(ge)));
                    }
                    break ;
                },
                Ok(v) => v,
            };
            let ghost gitem = item;
            *stream = probe;
            let ghost mid = stream@;
            let mut probe2 = stream.clone();
            match S::parse(&mut probe2) {
                Err(e) => {
                    let ghost ge = e;
                    proof {
                        assert(list_pairs_run::<I, S>(old(stream)@, m_entry, items@));
                        assert(I::parse_ens(m_entry, mid, Ok(gitem)));
                        assert(S::parse_ens(mid, probe2@, Err(ge)));
                    }
                    last_item = Some(item);
                    break ;
                },
                Ok(sep) => {
                    let ghost gsep = sep;
                    proof {
                        S::parse_ens_inv(mid, probe2@, Ok(gsep));
                    }
                    *stream = probe2;
                    let ghost old_items = items@;
                    items.push((item, sep));
                    proof {
                        lemma_list_pairs_snoc::<I, S>(
                            old(stream)@,
                            m_entry,
                            mid,
                            probe2@,
                            old_items,
                            gitem,
                            gsep,
                        );
                    }
                },
            }
        }
        let span = Span::new(start, stream.pos());
        Ok(List { items, last_item, span })
    }

    fn span(&self) -> (s: Span) {
        self.span
    }
}

/// An optional element: a speculative, atomic attempt. `Some` on
/// success, committing the cursor; `None` on failure, consuming
/// nothing. It never fails.
impl<T: Parse> Parse for Option<T> {
    open spec fn wf(&self) -> bool {
        match self {
            Some(v) => v.wf(),
            None => true,
        }
    }

    open spec fn spec_span(&self) -> Span {
        match self {
            Some(v) => v.spec_span(),
            None => Span::spec_unbound(),
        }
    }

    open spec fn parse_ens(
        pre: StreamModel,
        post: StreamModel,
        r: Result<Option<T>, ParseError>,
    ) -> bool {
        match r {
            Ok(ov) => match ov {
                Some(v) => T::parse_ens(pre, post, Ok(v)),
                None => post == pre && exists|w: StreamModel, e: ParseError|
                    #![auto]
                    T::parse_ens(pre, w, Err(e)),
            },
            Err(_) => false,
        }
    }

    fn parse(stream: &mut CharStream) -> (r: Result<Self, ParseError>) {
        let mut probe = stream.clone();
        match T::parse(&mut probe) {
            Ok(v) => {
                *stream = probe;
                Ok(Some(v))
            },
            Err(e) => {
                let ghost ge = e;
                proof {
                    assert(T::parse_ens(old(stream)@, probe@, Err(ge)));
                }
                Ok(None)
            },
        }
    }

    fn span(&self) -> (s: Span) {
        match self {
            Some(v) => v.span(),
            None => Span::new(Position::unbound(), Position::unbound()),
        }
    }
}

/// A boxed element parses as the element itself; the indirection
/// breaks structural recursion in grammar declarations.
impl<T: Parse> Parse for Box<T> {
    open spec fn wf(&self) -> bool {
        (**self).wf()
    }

    open spec fn spec_span(&self) -> Span {
        (**self).spec_span()
    }

    open spec fn parse_ens(
        pre: StreamModel,
        post: StreamModel,
        r: Result<Box<T>, ParseError>,
    ) -> bool {
        match r {
            Ok(v) => T::parse_ens(pre, post, Ok(*v)),
            Err(e) => T::parse_ens(pre, post, Err(e)),
        }
    }

    fn parse(stream: &mut CharStream) -> (r: Result<Self, ParseError>) {
        match T::parse(stream) {
            Ok(v) => Ok(Box::new(v)),
            Err(e) => Err(e),
        }
    }

    fn span(&self) -> (s: Span) {
        (**self).span()
    }
}

/// A pair parses its components in order.
impl<A: Parse, B: Parse> Parse for (A, B) {
    open spec fn wf(&self) -> bool {
        self.0.wf() && self.1.wf()
    }

    open spec fn spec_span(&self) -> Span {
        Span { start: self.0.spec_span().start, end: self.1.spec_span().end }
    }

    open spec fn parse_ens(
        pre: StreamModel,
        post: StreamModel,
        r: Result<(A, B), ParseError>,
    ) -> bool {
        match r {
            Ok(v) => exists|m: StreamModel|
                (#[trigger] A::parse_ens(pre, m, Ok(v.0))) && B::parse_ens(m, post, Ok(v.1)),
            Err(e) => {
                ||| A::parse_ens(pre, post, Err(e))
                ||| exists|m: StreamModel, a: A|
                    #![auto]
                    A::parse_ens(pre, m, Ok(a)) && B::parse_ens(m, post, Err(e))
            },
        }
    }

    fn parse(stream: &mut CharStream) -> (r: Result<Self, ParseError>) {
        let ghost pre = stream@;
        let a = match A::parse(stream) {
            Ok(v) => v,
            Err(e) => {
                return Err(e);
            },
        };
        let ghost m = stream@;
        let ghost ga = a;
        let b = match B::parse(stream) {
            Ok(v) => v,
            Err(e) => {
                proof {
                    assert(A::parse_ens(pre, m, Ok(ga)));
                }
                return Err(e);
            },
        };
        let t = (a, b);
        proof {
            lemma_pair_intro(pre, m, stream@, t);
        }
        Ok(t)
    }

    fn span(&self) -> (s: Span) {
        Span::new(self.0.span().start, self.1.span().end)
    }
}

/// A triple parses its components in order.
impl<A: Parse, B: Parse, C: Parse> Parse for (A, B, C) {
    open spec fn wf(&self) -> bool {
        self.0.wf() && self.1.wf() && self.2.wf()
    }

    open spec fn spec_span(&self) -> Span {
        Span { start: self.0.spec_span().start, end: self.2.spec_span().end }
    }

    open spec fn parse_ens(
        pre: StreamModel,
        post: StreamModel,
        r: Result<(A, B, C), ParseError>,
    ) -> bool {
        match r {
            Ok(v) => exists|m1: StreamModel, m2: StreamModel|
                (#[trigger] A::parse_ens(pre, m1, Ok(v.0))) && (#[trigger] B::parse_ens(
                    m1,
                    m2,
                    Ok(v.1),
                )) && C::parse_ens(m2, post, Ok(v.2)),
            Err(e) => {
                ||| A::parse_ens(pre, post, Err(e))
                ||| exists|m1: StreamModel, a: A|
                    #![auto]
                    A::parse_ens(pre, m1, Ok(a)) && B::parse_ens(m1, post, Err(e))
                ||| exists|m1: StreamModel, m2: StreamModel, a: A, b: B|
                    #![auto]
                    A::parse_ens(pre, m1, Ok(a)) && B::parse_ens(m1, m2, Ok(b)) && C::parse_ens(
                        m2,
                        post,
                        Err(e),
                    )
            },
        }
    }

    fn parse(stream: &mut CharStream) -> (r: Result<Self, ParseError>) {
        let ghost pre = stream@;
        let a = match A::parse(stream) {
            Ok(v) => v,
            Err(e) => {
                return Err(e);
            },
        };
        let ghost m1 = stream@;
        let ghost ga = a;
        let b = match B::parse(stream) {
            Ok(v) => v,
            Err(e) => {
                proof {
                    assert(A::parse_ens(pre, m1, Ok(ga)));
                }
                return Err(e);
            },
        };
        let ghost m2 = stream@;
        let ghost gb = b;
        let c = match C::parse(stream) {
            Ok(v) => v,
            Err(e) => {
                proof {
                    assert(A::parse_ens(pre, m1, Ok(ga)) && B::parse_ens(m1, m2, Ok(gb)));
                }
                return Err(e);
            },
        };
        let t = (a, b, c);
        proof {
            lemma_triple_intro(pre, m1, m2, stream@, t);
        }
        Ok(t)
    }

    fn span(&self) -> (s: Span) {
        Span::new(self.0.span().start, self.2.span().end)
    }
}

/// The states a repetition's accepted items pass through: each item
/// parsed in sequence, each consuming at least one character.
pub open spec fn vec_items_run<T: Parse>(m0: StreamModel, mk: StreamModel, items: Seq<T>) -> bool
    decreases items.len(),
{
    if items.len() == 0 {
        mk == m0
    } else {
        exists|m1: StreamModel|
            (#[trigger] T::parse_ens(m0, m1, Ok(items[0]))) && m0.index < m1.index
                && vec_items_run::<T>(m1, mk, items.drop_first())
    }
}

/// Why a repetition stopped at `mk`: the next attempt failed, or it
/// succeeded without consuming anything.
pub open spec fn vec_stop<T: Parse>(mk: StreamModel) -> bool {
    ||| exists|w: StreamModel, e: ParseError| #![auto] T::parse_ens(mk, w, Err(e))
    ||| exists|w: StreamModel, v: T| #![auto] T::parse_ens(mk, w, Ok(v)) && w.index <= mk.index
}

/// One more accepted item extends an item run.
proof fn lemma_vec_items_snoc<T: Parse>(
    m0: StreamModel,
    mk: StreamModel,
    m1: StreamModel,
    items: Seq<T>,
    i: T,
)
    requires
        vec_items_run::<T>(m0, mk, items),
        T::parse_ens(mk, m1, Ok(i)),
        mk.index < m1.index,
    ensures
        vec_items_run::<T>(m0, m1, items.push(i)),
    decreases items.len(),
{
    let p = items.push(i);
    if items.len() == 0 {
        assert(p[0] == i);
        assert(p.drop_first() =~= Seq::<T>::empty());
        assert(T::parse_ens(m0, m1, Ok(p[0])));
        assert(vec_items_run::<T>(m1, m1, p.drop_first()));
    } else {
        let w1 = choose|w1: StreamModel|
            (#[trigger] T::parse_ens(m0, w1, Ok(items[0]))) && m0.index < w1.index
                && vec_items_run::<T>(w1, mk, items.drop_first());
        lemma_vec_items_snoc::<T>(w1, mk, m1, items.drop_first(), i);
        assert(p.drop_first() =~= items.drop_first().push(i));
        assert(p[0] == items[0]);
        assert(T::parse_ens(m0, w1, Ok(p[0])));
        assert(vec_items_run::<T>(w1, m1, p.drop_first()));
    }
}

/// A non-empty repetition: items are attempted one after another,
/// atomically, until an attempt fails; finding none at all is a
/// failure. An accepted item that consumed nothing ends the
/// repetition, so that the loop always terminates.
impl<T: Parse> Parse for Vec<T> {
    open spec fn wf(&self) -> bool {
        self@.len() >= 1 && forall|k: int| 0 <= k < self@.len() ==> (#[trigger] self@[k]).wf()
    }

    open spec fn spec_span(&self) -> Span {
        Span {
            start: self@[0].spec_span().start,
            end: self@[self@.len() - 1].spec_span().end,
        }
    }

    /// The returned items are exactly one run of accepted parses from
    /// the entry state, stopped by a failed or unconsuming attempt;
    /// the read fails exactly when that happens before a first item,
    /// and then the cursor is untouched.
    open spec fn parse_ens(
        pre: StreamModel,
        post: StreamModel,
        r: Result<Vec<T>, ParseError>,
    ) -> bool {
        match r {
            Ok(v) => v@.len() >= 1 && vec_items_run::<T>(pre, post, v@) && vec_stop::<T>(post),
            Err(_) => post == pre && vec_stop::<T>(pre),
        }
    }

    fn parse(stream: &mut CharStream) -> (r: Result<Self, ParseError>) {
        proof {
            lemma_wf_index(stream);
        }
        let mut vec: Vec<T> = Vec::new();
        loop
            invariant
                stream.wf(),
                stream@.src == old(stream)@.src,
                stream@.file_id == old(stream)@.file_id,
                stream@.whitespace == old(stream)@.whitespace,
                stream@.indent_size == old(stream)@.indent_size,
                0 <= old(stream)@.index,
                old(stream)@.index <= stream@.index <= stream@.src.len(),
                forall|k: int| 0 <= k < vec@.len() ==> (#[trigger] vec@[k]).wf(),
                vec@.len() == 0 ==> stream@ == old(stream)@,
                vec_items_run::<T>(old(stream)@, stream@, vec@),
            ensures
                stream.wf(),
                stream@.src == old(stream)@.src,
                stream@.file_id == old(stream)@.file_id,
                stream@.whitespace == old(stream)@.whitespace,
                stream@.indent_size == old(stream)@.indent_size,
                old(stream)@.index <= stream@.index <= stream@.src.len(),
                forall|k: int| 0 <= k < vec@.len() ==> (#[trigger] vec@[k]).wf(),
                vec@.len() == 0 ==> stream@ == old(stream)@,
                vec_items_run::<T>(old(stream)@, stream@, vec@),
                vec_stop::<T>(stream@),
            decreases stream@.src.len() + 1 - stream@.index,
        {
            let ghost m_entry = stream@;
            proof {
                lemma_wf_index(stream);
            }
            let before = stream.pos();
            let mut probe = stream.clone();
            match T::parse(&mut probe) {
                Err(e) => {
                    let ghost ge = e;
                    proof {
                        assert(T::parse_ens(m_entry, probe@, Err(ge)));
                    }
                    break ;
                },
                Ok(item) => {
                    let ghost gitem = item;
                    proof {
                        lemma_wf_index(&probe);
                    }
                    let after = probe.pos();
                    if after.index <= before.index {
                        proof {
                            assert(T::parse_ens(m_entry, probe@, Ok(gitem)) && probe@.index
                                <= m_entry.index);
                        }
                        break ;
                    }
                    let ghost old_items = vec@;
                    *stream = probe;
                    vec.push(item);
                    proof {
                        lemma_vec_items_snoc::<T>(old(stream)@, m_entry, stream@, old_items, gitem);
                    }
                },
            }
        }
        if vec.len() == 0 {
            return Err(ParseError::new("Could not find vector item.", stream.pos()));
        }
        Ok(vec)
    }

    fn span(&self) -> (s: Span) {
        let n = self.len();
        Span::new(self[0].span().start, self[n - 1].span().end)
    }
}

/// The states an indent block's items pass through after the first:
/// each parsed in sequence, each consuming at least one character and
/// leaving the cursor's recorded indent at the block depth.
pub open spec fn indent_items_run<T: Parse>(
    m0: StreamModel,
    mk: StreamModel,
    items: Seq<T>,
    depth: int,
) -> bool
    decreases items.len(),
{
    if items.len() == 0 {
        mk == m0
    } else {
        exists|m1: StreamModel|
            (#[trigger] T::parse_ens(m0, m1, Ok(items[0]))) && m0.index < m1.index && m1.indent
                == depth && indent_items_run::<T>(m1, mk, items.drop_first(), depth)
    }
}

/// Why an indent block stopped at `mk`: the next item failed, or it
/// parsed at another depth, or it consumed nothing.
pub open spec fn indent_stop<T: Parse>(mk: StreamModel, depth: int) -> bool {
    ||| exists|w: StreamModel, e: ParseError| #![auto] T::parse_ens(mk, w, Err(e))
    ||| exists|w: StreamModel, v: T|
        #![auto]
        T::parse_ens(mk, w, Ok(v)) && (w.indent != depth || w.index <= mk.index)
}

/// What a successful indent-block read means: the first item was
/// parsed under the `Indent` policy and set the block depth, the
/// further items each kept that depth, the block stopped for one of
/// the stated reasons, and the cursor was committed to the end of the
/// last accepted item.
pub open spec fn indent_run<T: Parse>(
    pre: StreamModel,
    post: StreamModel,
    values: Seq<T>,
    depth: usize,
) -> bool {
    let ipre = StreamModel { whitespace: WhitespaceType::Indent, ..pre };
    values.len() >= 1 && exists|m1: StreamModel, mk: StreamModel|
        (#[trigger] T::parse_ens(ipre, m1, Ok(values[0]))) && depth as int == m1.indent && (
        #[trigger] indent_items_run::<T>(m1, mk, values.drop_first(), m1.indent))
            && indent_stop::<T>(mk, m1.indent) && post == (StreamModel {
            index: mk.index,
            ..pre
        })
}

/// A failed indent-block read means the first item itself failed
/// under the `Indent` policy.
pub open spec fn indent_fail<T: Parse>(pre: StreamModel) -> bool {
    let ipre = StreamModel { whitespace: WhitespaceType::Indent, ..pre };
    exists|w: StreamModel, e: ParseError| #![auto] T::parse_ens(ipre, w, Err(e))
}

/// One more accepted item extends an indent-block run.
proof fn lemma_indent_items_snoc<T: Parse>(
    m0: StreamModel,
    mk: StreamModel,
    m1: StreamModel,
    items: Seq<T>,
    i: T,
    depth: int,
)
    requires
        indent_items_run::<T>(m0, mk, items, depth),
        T::parse_ens(mk, m1, Ok(i)),
        mk.index < m1.index,
        m1.indent == depth,
    ensures
        indent_items_run::<T>(m0, m1, items.push(i), depth),
    decreases items.len(),
{
    let p = items.push(i);
    if items.len() == 0 {
        assert(p[0] == i);
        assert(p.drop_first() =~= Seq::<T>::empty());
        assert(T::parse_ens(m0, m1, Ok(p[0])));
        assert(indent_items_run::<T>(m1, m1, p.drop_first(), depth));
    } else {
        let w1 = choose|w1: StreamModel|
            (#[trigger] T::parse_ens(m0, w1, Ok(items[0]))) && m0.index < w1.index && w1.indent
                == depth && indent_items_run::<T>(w1, mk, items.drop_first(), depth);
        lemma_indent_items_snoc::<T>(w1, mk, m1, items.drop_first(), i, depth);
        assert(p.drop_first() =~= items.drop_first().push(i));
        assert(p[0] == items[0]);
        assert(T::parse_ens(m0, w1, Ok(p[0])));
        assert(indent_items_run::<T>(w1, m1, p.drop_first(), depth));
    }
}

/// A block of items sharing one indent depth. The block is read under
/// the `Indent` whitespace policy on a speculative cursor: one item is
/// required, further items are taken as long as they parse and the
/// cursor's indent depth right after each equals the depth right
/// after the first. Success commits the original cursor to the end of
/// the last accepted item; failure leaves it untouched.
#[derive(Clone)]
pub struct Indent<T> {
    pub values: Vec<T>,
    pub depth: usize,
}

impl<T: Parse> Parse for Indent<T> {
    open spec fn wf(&self) -> bool {
        self.values@.len() >= 1 && forall|k: int|
            0 <= k < self.values@.len() ==> (#[trigger] self.values@[k]).wf()
    }

    open spec fn spec_span(&self) -> Span {
        Span {
            start: self.values@[0].spec_span().start,
            end: self.values@[self.values@.len() - 1].spec_span().end,
        }
    }

    open spec fn parse_ens(
        pre: StreamModel,
        post: StreamModel,
        r: Result<Indent<T>, ParseError>,
    ) -> bool {
        match r {
            Ok(v) => {
                &&& indent_run::<T>(pre, post, v.values@, v.depth)
                &&& pre.index <= post.index <= pre.src.len()
            },
            Err(_) => post == pre && indent_fail::<T>(pre),
        }
    }

    fn parse(stream: &mut CharStream) -> (r: Result<Self, ParseError>) {
        proof {
            lemma_wf_index(stream);
        }
        let entry = stream.pos();
        let mut probe = stream.clone();
        probe.set_whitespace(WhitespaceType::Indent);
        let ghost ipre = probe@;
        let first = match T::parse(&mut probe) {
            Err(e) => {
                let ghost ge = e;
                proof {
                    assert(T::parse_ens(ipre, probe@, Err(ge)));
                }
                return Err(ParseError::new("Could not find Indent block.", entry));
            },
            Ok(v) => v,
        };
        let ghost m1 = probe@;
        let ghost gfirst = first;
        let depth = probe.indent();
        proof {
            lemma_wf_index(&probe);
        }
        let mut committed = probe.pos();
        let mut values: Vec<T> = Vec::new();
        values.push(first);
        proof {
            assert(T::parse_ens(ipre, m1, Ok(values@[0])));
            assert(values@.drop_first() =~= Seq::<T>::empty());
        }
        loop
            invariant
                probe.wf(),
                stream.wf(),
                stream@ == old(stream)@,
                probe@.src == stream@.src,
                probe@.file_id == stream@.file_id,
                probe@.indent_size == stream@.indent_size,
                0 <= stream@.index <= probe@.index <= probe@.src.len(),
                committed == pos_at(stream@.src, stream@.file_id, probe@.index),
                committed.file_id == stream@.file_id,
                stream@.index <= committed.index <= stream@.src.len(),
                committed.index == probe@.index,
                values@.len() >= 1,
                forall|k: int| 0 <= k < values@.len() ==> (#[trigger] values@[k]).wf(),
                values@[0] == gfirst,
                T::parse_ens(ipre, m1, Ok(gfirst)),
                depth as int == m1.indent,
                indent_items_run::<T>(m1, probe@, values@.drop_first(), m1.indent),
                ipre == (StreamModel { whitespace: WhitespaceType::Indent, ..old(stream)@ }),
            ensures
                probe.wf(),
                stream.wf(),
                stream@ == old(stream)@,
                committed.file_id == stream@.file_id,
                stream@.index <= committed.index <= stream@.src.len(),
                committed.index == probe@.index,
                values@.len() >= 1,
                forall|k: int| 0 <= k < values@.len() ==> (#[trigger] values@[k]).wf(),
                values@[0] == gfirst,
                indent_items_run::<T>(m1, probe@, values@.drop_first(), m1.indent),
                indent_stop::<T>(probe@, m1.indent),
            decreases probe@.src.len() + 1 - probe@.index,
        {
            let ghost mk = probe@;
            let before = probe.pos();
            let mut probe2 = probe.clone();
            match T::parse(&mut probe2) {
                Err(e) => {
                    let ghost ge = e;
                    proof {
                        assert(T::parse_ens(mk, probe2@, Err(ge)));
                    }
                    break ;
                },
                Ok(item) => {
                    let ghost gitem = item;
                    proof {
                        lemma_wf_index(&probe2);
                    }
                    let after = probe2.pos();
                    let d2 = probe2.indent();
                    if d2 != depth || after.index <= before.index {
                        proof {
                            assert(T::parse_ens(mk, probe2@, Ok(gitem)) && (probe2@.indent
                                != m1.indent || probe2@.index <= mk.index));
                        }
                        break ;
                    }
                    probe = probe2;
                    let ghost old_items = values@.drop_first();
                    values.push(item);
                    proof {
                        assert(values@.drop_first() =~= old_items.push(gitem));
                        lemma_indent_items_snoc::<T>(m1, mk, probe@, old_items, gitem, m1.indent);
                    }
                    committed = probe.pos();
                },
            }
        }
        match stream.goto(committed) {
            Ok(_) => {
                let ind = Indent { values, depth };
                proof {
                    assert(indent_run::<T>(old(stream)@, stream@, ind.values@, ind.depth));
                }
                Ok(ind)
            },
            Err(e) => Err(e),
        }
    }

    fn span(&self) -> (s: Span) {
        let n = self.values.len();
        Span::new(self.values[0].span().start, self.values[n - 1].span().end)
    }
}

/// Law: the span a list reports is well formed: it runs from the
/// position the parse began at to the position it stopped at, two
/// anchored positions of the buffer in order.
pub proof fn lemma_list_span_wf<I: Parse, S: tokens::Token>(
    pre: StreamModel,
    post: StreamModel,
    v: List<I, S>,
)
    requires
        <List<I, S> as Parse>::parse_ens(pre, post, Ok(v)),
        pre.file_id != 0,
        0 <= pre.index <= post.index <= pre.src.len(),
        pre.src.len() <= usize::MAX,
    ensures
        v.spec_span().spec_wf(),
{
    lemma_span_between_wf(pre.src, pre.file_id, pre.index, post.index);
}

/// Sequencing two component parses yields a pair parse.
proof fn lemma_pair_intro<A: Parse, B: Parse>(
    pre: StreamModel,
    m: StreamModel,
    post: StreamModel,
    t: (A, B),
)
    requires
        A::parse_ens(pre, m, Ok(t.0)),
        B::parse_ens(m, post, Ok(t.1)),
    ensures
        <(A, B) as Parse>::parse_ens(pre, post, Ok(t)),
{
    let r: Result<(A, B), ParseError> = Ok(t);
    assert(A::parse_ens(pre, m, Ok(r->Ok_0.0)));
    assert(B::parse_ens(m, post, Ok(r->Ok_0.1)));
    assert(exists|w: StreamModel|
        (#[trigger] A::parse_ens(pre, w, Ok(r->Ok_0.0))) && B::parse_ens(
            w,
            post,
            Ok(r->Ok_0.1),
        ));
}

/// Sequencing three component parses yields a triple parse.
proof fn lemma_triple_intro<A: Parse, B: Parse, C: Parse>(
    pre: StreamModel,
    m1: StreamModel,
    m2: StreamModel,
    post: StreamModel,
    t: (A, B, C),
)
    requires
        A::parse_ens(pre, m1, Ok(t.0)),
        B::parse_ens(m1, m2, Ok(t.1)),
        C::parse_ens(m2, post, Ok(t.2)),
    ensures
        <(A, B, C) as Parse>::parse_ens(pre, post, Ok(t)),
{
    let r: Result<(A, B, C), ParseError> = Ok(t);
    assert(A::parse_ens(pre, m1, Ok(r->Ok_0.0)));
    assert(B::parse_ens(m1, m2, Ok(r->Ok_0.1)));
    assert(C::parse_ens(m2, post, Ok(r->Ok_0.2)));
    assert(exists|w1: StreamModel, w2: StreamModel|
        (#[trigger] A::parse_ens(pre, w1, Ok(r->Ok_0.0))) && (#[trigger] B::parse_ens(
            w1,
            w2,
            Ok(r->Ok_0.1),
        )) && C::parse_ens(w2, post, Ok(r->Ok_0.2)));
}

/// Parse one field under a temporary whitespace policy, as the
/// grammar attribute that overrides whitespace handling asks: the
/// attempt runs on a clone whose policy is switched, and only success
/// moves the cursor, which keeps its own policy.
pub fn parse_with_policy<T: Parse>(stream: &mut CharStream, policy: WhitespaceType) -> (r: Result<
    T,
    ParseError,
>)
    requires
        old(stream).wf(),
    ensures
        final(stream).wf(),
        final(stream)@.src == old(stream)@.src,
        final(stream)@.file_id == old(stream)@.file_id,
        final(stream)@.whitespace == old(stream)@.whitespace,
        final(stream)@.indent_size == old(stream)@.indent_size,
        old(stream)@.index <= final(stream)@.index <= final(stream)@.src.len(),
        match r {
            Ok(v) => v.wf() && exists|m: StreamModel|
                #![auto]
                T::parse_ens((StreamModel { whitespace: policy, ..old(stream)@ }), m, Ok(v))
                    && final(stream)@ == (StreamModel { whitespace: old(stream)@.whitespace, ..m }),
            Err(e) => final(stream)@ == old(stream)@ && ({
                let switched = StreamModel { whitespace: policy, ..old(stream)@ };
                exists|w: StreamModel| #[trigger] T::parse_ens(switched, w, Err(e))
            }),
        },
{
    proof {
        lemma_wf_index(stream);
    }
    let own = stream.whitespace();
    let mut probe = stream.clone();
    probe.set_whitespace(policy);
    match T::parse(&mut probe) {
        Ok(v) => {
            probe.set_whitespace(own);
            *stream = probe;
            Ok(v)
        },
        Err(e) => {
            let ghost ge = e;
            proof {
                assert(T::parse_ens(
                    (StreamModel { whitespace: policy, ..old(stream)@ }),
                    probe@,
                    Err(ge),
                ));
            }
            Err(e)
        },
    }
}

/// The keyword constraint of a grammar field: the parsed word must be
/// one of the listed literals, or the field is rejected.
pub fn check_value(ident: Identifier, allowed: &[&str], pos: Position) -> (r: Result<
    Identifier,
    ParseError,
>)
    ensures
        r matches Ok(v) ==> v == ident,
        r is Ok <==> exists|k: int| 0 <= k < allowed@.len() && ident@ == (#[trigger] allowed@[k])@,
        r matches Err(e) ==> e.spec_pos() == pos && e.spec_message()
            == "Value was not one of the expected values."@,
{
    let n = allowed.len();
    let mut k: usize = 0;
    while k < n
        invariant
            k <= n,
            n == allowed@.len(),
            forall|t: int| 0 <= t < k ==> ident@ != (#[trigger] allowed@[t])@,
        decreases n - k,
    {
        if ident.matches(allowed[k]) {
            return Ok(ident);
        }
        k = k + 1;
    }
    Err(ParseError::new("Value was not one of the expected values.", pos))
}

/// Whether a freshly parsed alternative displaces the current best
/// one: only a span that strictly contains the best one wins, so the
/// longest match is preferred, and spans that cannot be ordered leave
/// the earlier-declared alternative in place.
pub open spec fn spec_prefer(new: Span, best: Span) -> bool {
    Span::spec_span_cmp(new, best) == Some(core::cmp::Ordering::Greater)
}

/// The alternative-selection rule of sum grammars, executable.
pub fn prefer_candidate(new: &Span, best: &Span) -> (b: bool)
    ensures
        b == spec_prefer(*new, *best),
{
    match new.partial_cmp(best) {
        Some(core::cmp::Ordering::Greater) => true,
        _ => false,
    }
}

/// Weighing one more alternative, in declaration order: a successful
/// candidate with span `sp` displaces the best one so far only when
/// its span is preferred; a failed candidate changes nothing.
pub open spec fn weigh(best: Option<(int, Span)>, idx: int, cand: Option<Span>) -> Option<
    (int, Span),
> {
    match cand {
        None => best,
        Some(sp) => match best {
            None => Some((idx, sp)),
            Some(b) => if spec_prefer(sp, b.1) {
                Some((idx, sp))
            } else {
                best
            },
        },
    }
}

/// Law: among overlapping successful alternatives, the one whose span
/// strictly contains the other is chosen, whichever was declared
/// first.
pub proof fn lemma_longest_match_wins(new: Span, best: Span)
    requires
        Span::spec_span_cmp(new, best) == Some(core::cmp::Ordering::Greater),
    ensures
        spec_prefer(new, best),
        !spec_prefer(best, new),
{
}

/// Law: successful alternatives whose spans cannot be ordered by
/// containment tie-break to declaration order: the later one never
/// displaces the earlier.
pub proof fn lemma_incomparable_keeps_earlier(new: Span, best: Span)
    requires
        Span::spec_span_cmp(new, best) is None,
    ensures
        !spec_prefer(new, best),
{
}

/// Law: a span between two positions of one buffer, in order, is well
/// formed: its start does not come after its end.
pub proof fn lemma_span_between_wf(s: Seq<char>, fid: u32, i: int, j: int)
    requires
        fid != 0,
        0 <= i <= j <= s.len(),
        s.len() <= usize::MAX,
    ensures
        (Span { start: pos_at(s, fid, i), end: pos_at(s, fid, j) }).spec_wf(),
{
    lemma_row_col_bounds(s, i);
    lemma_row_col_bounds(s, j);
    lemma_row_monotone(s, i, j);
    if pos_at(s, fid, i) != pos_at(s, fid, j) {
        assert(i < j);
    }
}

/// Law: every span a successful identifier parse reports is well
/// formed, and starts no earlier than the position the parse began
/// at.
pub proof fn lemma_identifier_span_wf(
    pre: StreamModel,
    post: StreamModel,
    v: Identifier,
)
    requires
        ident_ens(pre, post, Ok(v)),
        pre.file_id != 0,
        0 <= pre.index <= pre.src.len(),
        pre.src.len() <= usize::MAX,
    ensures
        v.spec_span().spec_wf(),
{
    lemma_next_data_bounds(pre.src, pre.index);
    lemma_scan_alnum_bounds(pre.src, start_of(pre));
    lemma_span_between_wf(pre.src, pre.file_id, start_of(pre), scan_alnum(pre.src, start_of(pre)));
}

/// Law: every span a successful number parse reports is well formed.
pub proof fn lemma_number_span_wf(pre: StreamModel, post: StreamModel, v: Number)
    requires
        number_ens(pre, post, Ok(v)),
        pre.file_id != 0,
        0 <= pre.index <= pre.src.len(),
        pre.src.len() <= usize::MAX,
    ensures
        v.spec_span().spec_wf(),
{
    lemma_next_data_bounds(pre.src, pre.index);
    lemma_scan_digits_bounds(pre.src, start_of(pre));
    lemma_span_between_wf(pre.src, pre.file_id, start_of(pre), scan_digits(pre.src, start_of(pre)));
}

/// Law: every span a successful string parse reports is well formed.
pub proof fn lemma_string_span_wf(pre: StreamModel, post: StreamModel, v: StringValue)
    requires
        string_ens(pre, post, Ok(v)),
        pre.file_id != 0,
        0 <= pre.index <= pre.src.len(),
        pre.src.len() <= usize::MAX,
    ensures
        v.spec_span().spec_wf(),
{
    lemma_next_data_bounds(pre.src, pre.index);
    let j = start_of(pre);
    lemma_scan_string_bounds(pre.src, j + 1);
    lemma_span_between_wf(pre.src, pre.file_id, j, scan_string(pre.src, j + 1) + 1);
}

/// Law: every span a matched literal reports is well formed.
pub proof fn lemma_token_span_wf(lit: Seq<char>, pre: StreamModel, post: StreamModel, sp: Span)
    requires
        token_ens(lit, pre, post, Ok(sp)),
        pre.file_id != 0,
        0 <= pre.index <= pre.src.len(),
        pre.src.len() <= usize::MAX,
    ensures
        sp.spec_wf(),
{
    lemma_next_data_bounds(pre.src, pre.index);
    lemma_span_between_wf(pre.src, pre.file_id, start_of(pre), start_of(pre) + lit.len());
}

/// Law: a speculative attempt that yields nothing leaves the cursor
/// exactly where it stood: the attempt ran on a clone that was then
/// discarded.
pub proof fn lemma_option_none_atomic<T: Parse>(pre: StreamModel, post: StreamModel)
    requires
        <Option<T> as Parse>::parse_ens(pre, post, Ok(None)),
    ensures
        post == pre,
{
}

} // verus!
