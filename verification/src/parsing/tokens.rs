//! The fixed-literal punctuation tokens and the paired delimiters.

use vstd::prelude::*;

use super::charstream::{start_of, CharStream, Span, StreamModel, lemma_next_data_bounds};
use super::{Parse, ParseError, parse_literal, token_ens, token_match, token_span};

verus! {

/// A token is a grammatical element that stands for one fixed
/// literal: parsing matches the literal exactly, and a value stores
/// only the span it was matched at.
pub trait Token: Parse {
    /// The literal this token stands for.
    spec fn spec_literal() -> Seq<char>;

    /// The literal as text, for messages.
    fn literal() -> (s: String)
        ensures
            s@ == Self::spec_literal(),
    ;

    /// Law: a failed token parse leaves the cursor exactly where it
    /// stood, and a successful one means the literal faced the cursor,
    /// at least one character was consumed, and the reported span is
    /// the literal's source range.
    proof fn parse_ens_inv(pre: StreamModel, post: StreamModel, r: Result<Self, ParseError>)
        requires
            Self::parse_ens(pre, post, r),
            0 <= pre.index <= pre.src.len(),
        ensures
            r is Err ==> post == pre,
            r is Ok ==> token_match(pre, Self::spec_literal()) && pre.index < post.index,
            r matches Ok(v) ==> v.spec_span() == token_span(pre, Self::spec_literal())
                && post.index == start_of(pre) + Self::spec_literal().len(),
    ;
}

/// A paired delimiter: a start token and an end token enclosing some
/// inner element.
pub trait Delimiter: Sized + Clone {
    type Start: Token;

    type End: Token;

    /// The values this delimiter considers well formed.
    spec fn wf(&self) -> bool;

    /// The range from the start of the opening token to the end of
    /// the closing one.
    spec fn spec_span(&self) -> Span;

    fn new(start: Self::Start, end: Self::End) -> (d: Self)
        requires
            start.wf(),
            end.wf(),
        ensures
            d.wf(),
            d.spec_span() == (Span {
                start: start.spec_span().start,
                end: end.spec_span().end,
            }),
    ;

    fn span(&self) -> (s: Span)
        requires
            self.wf(),
        ensures
            s == self.spec_span(),
    ;

    /// The delimiter's name, for messages.
    fn name() -> String;
}

/// The `,` token.
#[derive(Clone, Debug)]
pub struct Comma {
    pub span: Span,
}

impl Token for Comma {
    open spec fn spec_literal() -> Seq<char> {
        ","@
    }

    fn literal() -> (s: String) {
        String::from_str(",")
    }

    proof fn parse_ens_inv(pre: StreamModel, post: StreamModel, r: Result<Self, ParseError>) {
        reveal_strlit(",");
        lemma_next_data_bounds(pre.src, pre.index);
    }
}

impl Parse for Comma {
    open spec fn wf(&self) -> bool {
        true
    }

    open spec fn spec_span(&self) -> Span {
        self.span
    }

    open spec fn parse_ens(
        pre: StreamModel,
        post: StreamModel,
        r: Result<Comma, ParseError>,
    ) -> bool {
        match r {
            Ok(v) => v.span == token_span(pre, ","@) && token_ens(
                ","@,
                pre,
                post,
                Ok(v.span),
            ),
            Err(e) => token_ens(","@, pre, post, Err(e)),
        }
    }

    fn parse(stream: &mut CharStream) -> (r: Result<Self, ParseError>) {
        proof {
            reveal_strlit(",");
        }
        match parse_literal(stream, ",") {
            Ok(span) => Ok(Comma { span }),
            Err(e) => Err(e),
        }
    }

    fn span(&self) -> (s: Span) {
        self.span
    }
}

/// The `.` token.
#[derive(Clone, Debug)]
pub struct Period {
    pub span: Span,
}

impl Token for Period {
    open spec fn spec_literal() -> Seq<char> {
        "."@
    }

    fn literal() -> (s: String) {
        String::from_str(".")
    }

    proof fn parse_ens_inv(pre: StreamModel, post: StreamModel, r: Result<Self, ParseError>) {
        reveal_strlit(".");
        lemma_next_data_bounds(pre.src, pre.index);
    }
}

impl Parse for Period {
    open spec fn wf(&self) -> bool {
        true
    }

    open spec fn spec_span(&self) -> Span {
        self.span
    }

    open spec fn parse_ens(
        pre: StreamModel,
        post: StreamModel,
        r: Result<Period, ParseError>,
    ) -> bool {
        match r {
            Ok(v) => v.span == token_span(pre, "."@) && token_ens(
                "."@,
                pre,
                post,
                Ok(v.span),
            ),
            Err(e) => token_ens("."@, pre, post, Err(e)),
        }
    }

    fn parse(stream: &mut CharStream) -> (r: Result<Self, ParseError>) {
        proof {
            reveal_strlit(".");
        }
        match parse_literal(stream, ".") {
            Ok(span) => Ok(Period { span }),
            Err(e) => Err(e),
        }
    }

    fn span(&self) -> (s: Span) {
        self.span
    }
}

/// The `!` token.
#[derive(Clone, Debug)]
pub struct Bang {
    pub span: Span,
}

impl Token for Bang {
    open spec fn spec_literal() -> Seq<char> {
        "!"@
    }

    fn literal() -> (s: String) {
        String::from_str("!")
    }

    proof fn parse_ens_inv(pre: StreamModel, post: StreamModel, r: Result<Self, ParseError>) {
        reveal_strlit("!");
        lemma_next_data_bounds(pre.src, pre.index);
    }
}

impl Parse for Bang {
    open spec fn wf(&self) -> bool {
        true
    }

    open spec fn spec_span(&self) -> Span {
        self.span
    }

    open spec fn parse_ens(
        pre: StreamModel,
        post: StreamModel,
        r: Result<Bang, ParseError>,
    ) -> bool {
        match r {
            Ok(v) => v.span == token_span(pre, "!"@) && token_ens(
                "!"@,
                pre,
                post,
                Ok(v.span),
            ),
            Err(e) => token_ens("!"@, pre, post, Err(e)),
        }
    }

    fn parse(stream: &mut CharStream) -> (r: Result<Self, ParseError>) {
        proof {
            reveal_strlit("!");
        }
        match parse_literal(stream, "!") {
            Ok(span) => Ok(Bang { span }),
            Err(e) => Err(e),
        }
    }

    fn span(&self) -> (s: Span) {
        self.span
    }
}

/// The `#` token.
#[derive(Clone, Debug)]
pub struct Hash {
    pub span: Span,
}

impl Token for Hash {
    open spec fn spec_literal() -> Seq<char> {
        "#"@
    }

    fn literal() -> (s: String) {
        String::from_str("#")
    }

    proof fn parse_ens_inv(pre: StreamModel, post: StreamModel, r: Result<Self, ParseError>) {
        reveal_strlit("#");
        lemma_next_data_bounds(pre.src, pre.index);
    }
}

impl Parse for Hash {
    open spec fn wf(&self) -> bool {
        true
    }

    open spec fn spec_span(&self) -> Span {
        self.span
    }

    open spec fn parse_ens(
        pre: StreamModel,
        post: StreamModel,
        r: Result<Hash, ParseError>,
    ) -> bool {
        match r {
            Ok(v) => v.span == token_span(pre, "#"@) && token_ens(
                "#"@,
                pre,
                post,
                Ok(v.span),
            ),
            Err(e) => token_ens("#"@, pre, post, Err(e)),
        }
    }

    fn parse(stream: &mut CharStream) -> (r: Result<Self, ParseError>) {
        proof {
            reveal_strlit("#");
        }
        match parse_literal(stream, "#") {
            Ok(span) => Ok(Hash { span }),
            Err(e) => Err(e),
        }
    }

    fn span(&self) -> (s: Span) {
        self.span
    }
}

/// The `$` token.
#[derive(Clone, Debug)]
pub struct Dollar {
    pub span: Span,
}

impl Token for Dollar {
    open spec fn spec_literal() -> Seq<char> {
        "$"@
    }

    fn literal() -> (s: String) {
        String::from_str("$")
    }

    proof fn parse_ens_inv(pre: StreamModel, post: StreamModel, r: Result<Self, ParseError>) {
        reveal_strlit("$");
        lemma_next_data_bounds(pre.src, pre.index);
    }
}

impl Parse for Dollar {
    open spec fn wf(&self) -> bool {
        true
    }

    open spec fn spec_span(&self) -> Span {
        self.span
    }

    open spec fn parse_ens(
        pre: StreamModel,
        post: StreamModel,
        r: Result<Dollar, ParseError>,
    ) -> bool {
        match r {
            Ok(v) => v.span == token_span(pre, "$"@) && token_ens(
                "$"@,
                pre,
                post,
                Ok(v.span),
            ),
            Err(e) => token_ens("$"@, pre, post, Err(e)),
        }
    }

    fn parse(stream: &mut CharStream) -> (r: Result<Self, ParseError>) {
        proof {
            reveal_strlit("$");
        }
        match parse_literal(stream, "$") {
            Ok(span) => Ok(Dollar { span }),
            Err(e) => Err(e),
        }
    }

    fn span(&self) -> (s: Span) {
        self.span
    }
}

/// The `%` token.
#[derive(Clone, Debug)]
pub struct Percentage {
    pub span: Span,
}

impl Token for Percentage {
    open spec fn spec_literal() -> Seq<char> {
        "%"@
    }

    fn literal() -> (s: String) {
        String::from_str("%")
    }

    proof fn parse_ens_inv(pre: StreamModel, post: StreamModel, r: Result<Self, ParseError>) {
        reveal_strlit("%");
        lemma_next_data_bounds(pre.src, pre.index);
    }
}

impl Parse for Percentage {
    open spec fn wf(&self) -> bool {
        true
    }

    open spec fn spec_span(&self) -> Span {
        self.span
    }

    open spec fn parse_ens(
        pre: StreamModel,
        post: StreamModel,
        r: Result<Percentage, ParseError>,
    ) -> bool {
        match r {
            Ok(v) => v.span == token_span(pre, "%"@) && token_ens(
                "%"@,
                pre,
                post,
                Ok(v.span),
            ),
            Err(e) => token_ens("%"@, pre, post, Err(e)),
        }
    }

    fn parse(stream: &mut CharStream) -> (r: Result<Self, ParseError>) {
        proof {
            reveal_strlit("%");
        }
        match parse_literal(stream, "%") {
            Ok(span) => Ok(Percentage { span }),
            Err(e) => Err(e),
        }
    }

    fn span(&self) -> (s: Span) {
        self.span
    }
}

/// The `^` token.
#[derive(Clone, Debug)]
pub struct UpArrow {
    pub span: Span,
}

impl Token for UpArrow {
    open spec fn spec_literal() -> Seq<char> {
        "^"@
    }

    fn literal() -> (s: String) {
        String::from_str("^")
    }

    proof fn parse_ens_inv(pre: StreamModel, post: StreamModel, r: Result<Self, ParseError>) {
        reveal_strlit("^");
        lemma_next_data_bounds(pre.src, pre.index);
    }
}

impl Parse for UpArrow {
    open spec fn wf(&self) -> bool {
        true
    }

    open spec fn spec_span(&self) -> Span {
        self.span
    }

    open spec fn parse_ens(
        pre: StreamModel,
        post: StreamModel,
        r: Result<UpArrow, ParseError>,
    ) -> bool {
        match r {
            Ok(v) => v.span == token_span(pre, "^"@) && token_ens(
                "^"@,
                pre,
                post,
                Ok(v.span),
            ),
            Err(e) => token_ens("^"@, pre, post, Err(e)),
        }
    }

    fn parse(stream: &mut CharStream) -> (r: Result<Self, ParseError>) {
        proof {
            reveal_strlit("^");
        }
        match parse_literal(stream, "^") {
            Ok(span) => Ok(UpArrow { span }),
            Err(e) => Err(e),
        }
    }

    fn span(&self) -> (s: Span) {
        self.span
    }
}

/// The `&` token.
#[derive(Clone, Debug)]
pub struct Ampersand {
    pub span: Span,
}

impl Token for Ampersand {
    open spec fn spec_literal() -> Seq<char> {
        "&"@
    }

    fn literal() -> (s: String) {
        String::from_str("&")
    }

    proof fn parse_ens_inv(pre: StreamModel, post: StreamModel, r: Result<Self, ParseError>) {
        reveal_strlit("&");
        lemma_next_data_bounds(pre.src, pre.index);
    }
}

impl Parse for Ampersand {
    open spec fn wf(&self) -> bool {
        true
    }

    open spec fn spec_span(&self) -> Span {
        self.span
    }

    open spec fn parse_ens(
        pre: StreamModel,
        post: StreamModel,
        r: Result<Ampersand, ParseError>,
    ) -> bool {
        match r {
            Ok(v) => v.span == token_span(pre, "&"@) && token_ens(
                "&"@,
                pre,
                post,
                Ok(v.span),
            ),
            Err(e) => token_ens("&"@, pre, post, Err(e)),
        }
    }

    fn parse(stream: &mut CharStream) -> (r: Result<Self, ParseError>) {
        proof {
            reveal_strlit("&");
        }
        match parse_literal(stream, "&") {
            Ok(span) => Ok(Ampersand { span }),
            Err(e) => Err(e),
        }
    }

    fn span(&self) -> (s: Span) {
        self.span
    }
}

/// The `*` token.
#[derive(Clone, Debug)]
pub struct Asterisk {
    pub span: Span,
}

impl Token for Asterisk {
    open spec fn spec_literal() -> Seq<char> {
        "*"@
    }

    fn literal() -> (s: String) {
        String::from_str("*")
    }

    proof fn parse_ens_inv(pre: StreamModel, post: StreamModel, r: Result<Self, ParseError>) {
        reveal_strlit("*");
        lemma_next_data_bounds(pre.src, pre.index);
    }
}

impl Parse for Asterisk {
    open spec fn wf(&self) -> bool {
        true
    }

    open spec fn spec_span(&self) -> Span {
        self.span
    }

    open spec fn parse_ens(
        pre: StreamModel,
        post: StreamModel,
        r: Result<Asterisk, ParseError>,
    ) -> bool {
        match r {
            Ok(v) => v.span == token_span(pre, "*"@) && token_ens(
                "*"@,
                pre,
                post,
                Ok(v.span),
            ),
            Err(e) => token_ens("*"@, pre, post, Err(e)),
        }
    }

    fn parse(stream: &mut CharStream) -> (r: Result<Self, ParseError>) {
        proof {
            reveal_strlit("*");
        }
        match parse_literal(stream, "*") {
            Ok(span) => Ok(Asterisk { span }),
            Err(e) => Err(e),
        }
    }

    fn span(&self) -> (s: Span) {
        self.span
    }
}

/// The `_` token.
#[derive(Clone, Debug)]
pub struct UnderScore {
    pub span: Span,
}

impl Token for UnderScore {
    open spec fn spec_literal() -> Seq<char> {
        "_"@
    }

    fn literal() -> (s: String) {
        String::from_str("_")
    }

    proof fn parse_ens_inv(pre: StreamModel, post: StreamModel, r: Result<Self, ParseError>) {
        reveal_strlit("_");
        lemma_next_data_bounds(pre.src, pre.index);
    }
}

impl Parse for UnderScore {
    open spec fn wf(&self) -> bool {
        true
    }

    open spec fn spec_span(&self) -> Span {
        self.span
    }

    open spec fn parse_ens(
        pre: StreamModel,
        post: StreamModel,
        r: Result<UnderScore, ParseError>,
    ) -> bool {
        match r {
            Ok(v) => v.span == token_span(pre, "_"@) && token_ens(
                "_"@,
                pre,
                post,
                Ok(v.span),
            ),
            Err(e) => token_ens("_"@, pre, post, Err(e)),
        }
    }

    fn parse(stream: &mut CharStream) -> (r: Result<Self, ParseError>) {
        proof {
            reveal_strlit("_");
        }
        match parse_literal(stream, "_") {
            Ok(span) => Ok(UnderScore { span }),
            Err(e) => Err(e),
        }
    }

    fn span(&self) -> (s: Span) {
        self.span
    }
}

/// The `-` token.
#[derive(Clone, Debug)]
pub struct Hyphen {
    pub span: Span,
}

impl Token for Hyphen {
    open spec fn spec_literal() -> Seq<char> {
        "-"@
    }

    fn literal() -> (s: String) {
        String::from_str("-")
    }

    proof fn parse_ens_inv(pre: StreamModel, post: StreamModel, r: Result<Self, ParseError>) {
        reveal_strlit("-");
        lemma_next_data_bounds(pre.src, pre.index);
    }
}

impl Parse for Hyphen {
    open spec fn wf(&self) -> bool {
        true
    }

    open spec fn spec_span(&self) -> Span {
        self.span
    }

    open spec fn parse_ens(
        pre: StreamModel,
        post: StreamModel,
        r: Result<Hyphen, ParseError>,
    ) -> bool {
        match r {
            Ok(v) => v.span == token_span(pre, "-"@) && token_ens(
                "-"@,
                pre,
                post,
                Ok(v.span),
            ),
            Err(e) => token_ens("-"@, pre, post, Err(e)),
        }
    }

    fn parse(stream: &mut CharStream) -> (r: Result<Self, ParseError>) {
        proof {
            reveal_strlit("-");
        }
        match parse_literal(stream, "-") {
            Ok(span) => Ok(Hyphen { span }),
            Err(e) => Err(e),
        }
    }

    fn span(&self) -> (s: Span) {
        self.span
    }
}

/// The `+` token.
#[derive(Clone, Debug)]
pub struct Plus {
    pub span: Span,
}

impl Token for Plus {
    open spec fn spec_literal() -> Seq<char> {
        "+"@
    }

    fn literal() -> (s: String) {
        String::from_str("+")
    }

    proof fn parse_ens_inv(pre: StreamModel, post: StreamModel, r: Result<Self, ParseError>) {
        reveal_strlit("+");
        lemma_next_data_bounds(pre.src, pre.index);
    }
}

impl Parse for Plus {
    open spec fn wf(&self) -> bool {
        true
    }

    open spec fn spec_span(&self) -> Span {
        self.span
    }

    open spec fn parse_ens(
        pre: StreamModel,
        post: StreamModel,
        r: Result<Plus, ParseError>,
    ) -> bool {
        match r {
            Ok(v) => v.span == token_span(pre, "+"@) && token_ens(
                "+"@,
                pre,
                post,
                Ok(v.span),
            ),
            Err(e) => token_ens("+"@, pre, post, Err(e)),
        }
    }

    fn parse(stream: &mut CharStream) -> (r: Result<Self, ParseError>) {
        proof {
            reveal_strlit("+");
        }
        match parse_literal(stream, "+") {
            Ok(span) => Ok(Plus { span }),
            Err(e) => Err(e),
        }
    }

    fn span(&self) -> (s: Span) {
        self.span
    }
}

/// The `=` token.
#[derive(Clone, Debug)]
pub struct Equal {
    pub span: Span,
}

impl Token for Equal {
    open spec fn spec_literal() -> Seq<char> {
        "="@
    }

    fn literal() -> (s: String) {
        String::from_str("=")
    }

    proof fn parse_ens_inv(pre: StreamModel, post: StreamModel, r: Result<Self, ParseError>) {
        reveal_strlit("=");
        lemma_next_data_bounds(pre.src, pre.index);
    }
}

impl Parse for Equal {
    open spec fn wf(&self) -> bool {
        true
    }

    open spec fn spec_span(&self) -> Span {
        self.span
    }

    open spec fn parse_ens(
        pre: StreamModel,
        post: StreamModel,
        r: Result<Equal, ParseError>,
    ) -> bool {
        match r {
            Ok(v) => v.span == token_span(pre, "="@) && token_ens(
                "="@,
                pre,
                post,
                Ok(v.span),
            ),
            Err(e) => token_ens("="@, pre, post, Err(e)),
        }
    }

    fn parse(stream: &mut CharStream) -> (r: Result<Self, ParseError>) {
        proof {
            reveal_strlit("=");
        }
        match parse_literal(stream, "=") {
            Ok(span) => Ok(Equal { span }),
            Err(e) => Err(e),
        }
    }

    fn span(&self) -> (s: Span) {
        self.span
    }
}

/// The `==` token.
#[derive(Clone, Debug)]
pub struct EqualEqual {
    pub span: Span,
}

impl Token for EqualEqual {
    open spec fn spec_literal() -> Seq<char> {
        "=="@
    }

    fn literal() -> (s: String) {
        String::from_str("==")
    }

    proof fn parse_ens_inv(pre: StreamModel, post: StreamModel, r: Result<Self, ParseError>) {
        reveal_strlit("==");
        lemma_next_data_bounds(pre.src, pre.index);
    }
}

impl Parse for EqualEqual {
    open spec fn wf(&self) -> bool {
        true
    }

    open spec fn spec_span(&self) -> Span {
        self.span
    }

    open spec fn parse_ens(
        pre: StreamModel,
        post: StreamModel,
        r: Result<EqualEqual, ParseError>,
    ) -> bool {
        match r {
            Ok(v) => v.span == token_span(pre, "=="@) && token_ens(
                "=="@,
                pre,
                post,
                Ok(v.span),
            ),
            Err(e) => token_ens("=="@, pre, post, Err(e)),
        }
    }

    fn parse(stream: &mut CharStream) -> (r: Result<Self, ParseError>) {
        proof {
            reveal_strlit("==");
        }
        match parse_literal(stream, "==") {
            Ok(span) => Ok(EqualEqual { span }),
            Err(e) => Err(e),
        }
    }

    fn span(&self) -> (s: Span) {
        self.span
    }
}

/// The `:` token.
#[derive(Clone, Debug)]
pub struct Colon {
    pub span: Span,
}

impl Token for Colon {
    open spec fn spec_literal() -> Seq<char> {
        ":"@
    }

    fn literal() -> (s: String) {
        String::from_str(":")
    }

    proof fn parse_ens_inv(pre: StreamModel, post: StreamModel, r: Result<Self, ParseError>) {
        reveal_strlit(":");
        lemma_next_data_bounds(pre.src, pre.index);
    }
}

impl Parse for Colon {
    open spec fn wf(&self) -> bool {
        true
    }

    open spec fn spec_span(&self) -> Span {
        self.span
    }

    open spec fn parse_ens(
        pre: StreamModel,
        post: StreamModel,
        r: Result<Colon, ParseError>,
    ) -> bool {
        match r {
            Ok(v) => v.span == token_span(pre, ":"@) && token_ens(
                ":"@,
                pre,
                post,
                Ok(v.span),
            ),
            Err(e) => token_ens(":"@, pre, post, Err(e)),
        }
    }

    fn parse(stream: &mut CharStream) -> (r: Result<Self, ParseError>) {
        proof {
            reveal_strlit(":");
        }
        match parse_literal(stream, ":") {
            Ok(span) => Ok(Colon { span }),
            Err(e) => Err(e),
        }
    }

    fn span(&self) -> (s: Span) {
        self.span
    }
}

/// The `::` token.
#[derive(Clone, Debug)]
pub struct DoubleColon {
    pub span: Span,
}

impl Token for DoubleColon {
    open spec fn spec_literal() -> Seq<char> {
        "::"@
    }

    fn literal() -> (s: String) {
        String::from_str("::")
    }

    proof fn parse_ens_inv(pre: StreamModel, post: StreamModel, r: Result<Self, ParseError>) {
        reveal_strlit("::");
        lemma_next_data_bounds(pre.src, pre.index);
    }
}

impl Parse for DoubleColon {
    open spec fn wf(&self) -> bool {
        true
    }

    open spec fn spec_span(&self) -> Span {
        self.span
    }

    open spec fn parse_ens(
        pre: StreamModel,
        post: StreamModel,
        r: Result<DoubleColon, ParseError>,
    ) -> bool {
        match r {
            Ok(v) => v.span == token_span(pre, "::"@) && token_ens(
                "::"@,
                pre,
                post,
                Ok(v.span),
            ),
            Err(e) => token_ens("::"@, pre, post, Err(e)),
        }
    }

    fn parse(stream: &mut CharStream) -> (r: Result<Self, ParseError>) {
        proof {
            reveal_strlit("::");
        }
        match parse_literal(stream, "::") {
            Ok(span) => Ok(DoubleColon { span }),
            Err(e) => Err(e),
        }
    }

    fn span(&self) -> (s: Span) {
        self.span
    }
}

/// The `;` token.
#[derive(Clone, Debug)]
pub struct Semicolon {
    pub span: Span,
}

impl Token for Semicolon {
    open spec fn spec_literal() -> Seq<char> {
        ";"@
    }

    fn literal() -> (s: String) {
        String::from_str(";")
    }

    proof fn parse_ens_inv(pre: StreamModel, post: StreamModel, r: Result<Self, ParseError>) {
        reveal_strlit(";");
        lemma_next_data_bounds(pre.src, pre.index);
    }
}

impl Parse for Semicolon {
    open spec fn wf(&self) -> bool {
        true
    }

    open spec fn spec_span(&self) -> Span {
        self.span
    }

    open spec fn parse_ens(
        pre: StreamModel,
        post: StreamModel,
        r: Result<Semicolon, ParseError>,
    ) -> bool {
        match r {
            Ok(v) => v.span == token_span(pre, ";"@) && token_ens(
                ";"@,
                pre,
                post,
                Ok(v.span),
            ),
            Err(e) => token_ens(";"@, pre, post, Err(e)),
        }
    }

    fn parse(stream: &mut CharStream) -> (r: Result<Self, ParseError>) {
        proof {
            reveal_strlit(";");
        }
        match parse_literal(stream, ";") {
            Ok(span) => Ok(Semicolon { span }),
            Err(e) => Err(e),
        }
    }

    fn span(&self) -> (s: Span) {
        self.span
    }
}

/// The `|` token.
#[derive(Clone, Debug)]
pub struct Pipe {
    pub span: Span,
}

impl Token for Pipe {
    open spec fn spec_literal() -> Seq<char> {
        "|"@
    }

    fn literal() -> (s: String) {
        String::from_str("|")
    }

    proof fn parse_ens_inv(pre: StreamModel, post: StreamModel, r: Result<Self, ParseError>) {
        reveal_strlit("|");
        lemma_next_data_bounds(pre.src, pre.index);
    }
}

impl Parse for Pipe {
    open spec fn wf(&self) -> bool {
        true
    }

    open spec fn spec_span(&self) -> Span {
        self.span
    }

    open spec fn parse_ens(
        pre: StreamModel,
        post: StreamModel,
        r: Result<Pipe, ParseError>,
    ) -> bool {
        match r {
            Ok(v) => v.span == token_span(pre, "|"@) && token_ens(
                "|"@,
                pre,
                post,
                Ok(v.span),
            ),
            Err(e) => token_ens("|"@, pre, post, Err(e)),
        }
    }

    fn parse(stream: &mut CharStream) -> (r: Result<Self, ParseError>) {
        proof {
            reveal_strlit("|");
        }
        match parse_literal(stream, "|") {
            Ok(span) => Ok(Pipe { span }),
            Err(e) => Err(e),
        }
    }

    fn span(&self) -> (s: Span) {
        self.span
    }
}

/// The `<` token.
#[derive(Clone, Debug)]
pub struct Less {
    pub span: Span,
}

impl Token for Less {
    open spec fn spec_literal() -> Seq<char> {
        "<"@
    }

    fn literal() -> (s: String) {
        String::from_str("<")
    }

    proof fn parse_ens_inv(pre: StreamModel, post: StreamModel, r: Result<Self, ParseError>) {
        reveal_strlit("<");
        lemma_next_data_bounds(pre.src, pre.index);
    }
}

impl Parse for Less {
    open spec fn wf(&self) -> bool {
        true
    }

    open spec fn spec_span(&self) -> Span {
        self.span
    }

    open spec fn parse_ens(
        pre: StreamModel,
        post: StreamModel,
        r: Result<Less, ParseError>,
    ) -> bool {
        match r {
            Ok(v) => v.span == token_span(pre, "<"@) && token_ens(
                "<"@,
                pre,
                post,
                Ok(v.span),
            ),
            Err(e) => token_ens("<"@, pre, post, Err(e)),
        }
    }

    fn parse(stream: &mut CharStream) -> (r: Result<Self, ParseError>) {
        proof {
            reveal_strlit("<");
        }
        match parse_literal(stream, "<") {
            Ok(span) => Ok(Less { span }),
            Err(e) => Err(e),
        }
    }

    fn span(&self) -> (s: Span) {
        self.span
    }
}

/// The `>` token.
#[derive(Clone, Debug)]
pub struct Greater {
    pub span: Span,
}

impl Token for Greater {
    open spec fn spec_literal() -> Seq<char> {
        ">"@
    }

    fn literal() -> (s: String) {
        String::from_str(">")
    }

    proof fn parse_ens_inv(pre: StreamModel, post: StreamModel, r: Result<Self, ParseError>) {
        reveal_strlit(">");
        lemma_next_data_bounds(pre.src, pre.index);
    }
}

impl Parse for Greater {
    open spec fn wf(&self) -> bool {
        true
    }

    open spec fn spec_span(&self) -> Span {
        self.span
    }

    open spec fn parse_ens(
        pre: StreamModel,
        post: StreamModel,
        r: Result<Greater, ParseError>,
    ) -> bool {
        match r {
            Ok(v) => v.span == token_span(pre, ">"@) && token_ens(
                ">"@,
                pre,
                post,
                Ok(v.span),
            ),
            Err(e) => token_ens(">"@, pre, post, Err(e)),
        }
    }

    fn parse(stream: &mut CharStream) -> (r: Result<Self, ParseError>) {
        proof {
            reveal_strlit(">");
        }
        match parse_literal(stream, ">") {
            Ok(span) => Ok(Greater { span }),
            Err(e) => Err(e),
        }
    }

    fn span(&self) -> (s: Span) {
        self.span
    }
}

/// The `/` token.
#[derive(Clone, Debug)]
pub struct ForwardSlash {
    pub span: Span,
}

impl Token for ForwardSlash {
    open spec fn spec_literal() -> Seq<char> {
        "/"@
    }

    fn literal() -> (s: String) {
        String::from_str("/")
    }

    proof fn parse_ens_inv(pre: StreamModel, post: StreamModel, r: Result<Self, ParseError>) {
        reveal_strlit("/");
        lemma_next_data_bounds(pre.src, pre.index);
    }
}

impl Parse for ForwardSlash {
    open spec fn wf(&self) -> bool {
        true
    }

    open spec fn spec_span(&self) -> Span {
        self.span
    }

    open spec fn parse_ens(
        pre: StreamModel,
        post: StreamModel,
        r: Result<ForwardSlash, ParseError>,
    ) -> bool {
        match r {
            Ok(v) => v.span == token_span(pre, "/"@) && token_ens(
                "/"@,
                pre,
                post,
                Ok(v.span),
            ),
            Err(e) => token_ens("/"@, pre, post, Err(e)),
        }
    }

    fn parse(stream: &mut CharStream) -> (r: Result<Self, ParseError>) {
        proof {
            reveal_strlit("/");
        }
        match parse_literal(stream, "/") {
            Ok(span) => Ok(ForwardSlash { span }),
            Err(e) => Err(e),
        }
    }

    fn span(&self) -> (s: Span) {
        self.span
    }
}

/// The `->` token.
#[derive(Clone, Debug)]
pub struct RightArrow {
    pub span: Span,
}

impl Token for RightArrow {
    open spec fn spec_literal() -> Seq<char> {
        "->"@
    }

    fn literal() -> (s: String) {
        String::from_str("->")
    }

    proof fn parse_ens_inv(pre: StreamModel, post: StreamModel, r: Result<Self, ParseError>) {
        reveal_strlit("->");
        lemma_next_data_bounds(pre.src, pre.index);
    }
}

impl Parse for RightArrow {
    open spec fn wf(&self) -> bool {
        true
    }

    open spec fn spec_span(&self) -> Span {
        self.span
    }

    open spec fn parse_ens(
        pre: StreamModel,
        post: StreamModel,
        r: Result<RightArrow, ParseError>,
    ) -> bool {
        match r {
            Ok(v) => v.span == token_span(pre, "->"@) && token_ens(
                "->"@,
                pre,
                post,
                Ok(v.span),
            ),
            Err(e) => token_ens("->"@, pre, post, Err(e)),
        }
    }

    fn parse(stream: &mut CharStream) -> (r: Result<Self, ParseError>) {
        proof {
            reveal_strlit("->");
        }
        match parse_literal(stream, "->") {
            Ok(span) => Ok(RightArrow { span }),
            Err(e) => Err(e),
        }
    }

    fn span(&self) -> (s: Span) {
        self.span
    }
}

/// The `=>` token.
#[derive(Clone, Debug)]
pub struct FatArrow {
    pub span: Span,
}

impl Token for FatArrow {
    open spec fn spec_literal() -> Seq<char> {
        "=>"@
    }

    fn literal() -> (s: String) {
        String::from_str("=>")
    }

    proof fn parse_ens_inv(pre: StreamModel, post: StreamModel, r: Result<Self, ParseError>) {
        reveal_strlit("=>");
        lemma_next_data_bounds(pre.src, pre.index);
    }
}

impl Parse for FatArrow {
    open spec fn wf(&self) -> bool {
        true
    }

    open spec fn spec_span(&self) -> Span {
        self.span
    }

    open spec fn parse_ens(
        pre: StreamModel,
        post: StreamModel,
        r: Result<FatArrow, ParseError>,
    ) -> bool {
        match r {
            Ok(v) => v.span == token_span(pre, "=>"@) && token_ens(
                "=>"@,
                pre,
                post,
                Ok(v.span),
            ),
            Err(e) => token_ens("=>"@, pre, post, Err(e)),
        }
    }

    fn parse(stream: &mut CharStream) -> (r: Result<Self, ParseError>) {
        proof {
            reveal_strlit("=>");
        }
        match parse_literal(stream, "=>") {
            Ok(span) => Ok(FatArrow { span }),
            Err(e) => Err(e),
        }
    }

    fn span(&self) -> (s: Span) {
        self.span
    }
}

/// The `(` token.
#[derive(Clone, Debug)]
pub struct LeftParen {
    pub span: Span,
}

impl Token for LeftParen {
    open spec fn spec_literal() -> Seq<char> {
        "("@
    }

    fn literal() -> (s: String) {
        String::from_str("(")
    }

    proof fn parse_ens_inv(pre: StreamModel, post: StreamModel, r: Result<Self, ParseError>) {
        reveal_strlit("(");
        lemma_next_data_bounds(pre.src, pre.index);
    }
}

impl Parse for LeftParen {
    open spec fn wf(&self) -> bool {
        true
    }

    open spec fn spec_span(&self) -> Span {
        self.span
    }

    open spec fn parse_ens(
        pre: StreamModel,
        post: StreamModel,
        r: Result<LeftParen, ParseError>,
    ) -> bool {
        match r {
            Ok(v) => v.span == token_span(pre, "("@) && token_ens(
                "("@,
                pre,
                post,
                Ok(v.span),
            ),
            Err(e) => token_ens("("@, pre, post, Err(e)),
        }
    }

    fn parse(stream: &mut CharStream) -> (r: Result<Self, ParseError>) {
        proof {
            reveal_strlit("(");
        }
        match parse_literal(stream, "(") {
            Ok(span) => Ok(LeftParen { span }),
            Err(e) => Err(e),
        }
    }

    fn span(&self) -> (s: Span) {
        self.span
    }
}

/// The `)` token.
#[derive(Clone, Debug)]
pub struct RightParen {
    pub span: Span,
}

impl Token for RightParen {
    open spec fn spec_literal() -> Seq<char> {
        ")"@
    }

    fn literal() -> (s: String) {
        String::from_str(")")
    }

    proof fn parse_ens_inv(pre: StreamModel, post: StreamModel, r: Result<Self, ParseError>) {
        reveal_strlit(")");
        lemma_next_data_bounds(pre.src, pre.index);
    }
}

impl Parse for RightParen {
    open spec fn wf(&self) -> bool {
        true
    }

    open spec fn spec_span(&self) -> Span {
        self.span
    }

    open spec fn parse_ens(
        pre: StreamModel,
        post: StreamModel,
        r: Result<RightParen, ParseError>,
    ) -> bool {
        match r {
            Ok(v) => v.span == token_span(pre, ")"@) && token_ens(
                ")"@,
                pre,
                post,
                Ok(v.span),
            ),
            Err(e) => token_ens(")"@, pre, post, Err(e)),
        }
    }

    fn parse(stream: &mut CharStream) -> (r: Result<Self, ParseError>) {
        proof {
            reveal_strlit(")");
        }
        match parse_literal(stream, ")") {
            Ok(span) => Ok(RightParen { span }),
            Err(e) => Err(e),
        }
    }

    fn span(&self) -> (s: Span) {
        self.span
    }
}

/// The `{` token.
#[derive(Clone, Debug)]
pub struct LeftBrace {
    pub span: Span,
}

impl Token for LeftBrace {
    open spec fn spec_literal() -> Seq<char> {
        "{"@
    }

    fn literal() -> (s: String) {
        String::from_str("{")
    }

    proof fn parse_ens_inv(pre: StreamModel, post: StreamModel, r: Result<Self, ParseError>) {
        reveal_strlit("{");
        lemma_next_data_bounds(pre.src, pre.index);
    }
}

impl Parse for LeftBrace {
    open spec fn wf(&self) -> bool {
        true
    }

    open spec fn spec_span(&self) -> Span {
        self.span
    }

    open spec fn parse_ens(
        pre: StreamModel,
        post: StreamModel,
        r: Result<LeftBrace, ParseError>,
    ) -> bool {
        match r {
            Ok(v) => v.span == token_span(pre, "{"@) && token_ens(
                "{"@,
                pre,
                post,
                Ok(v.span),
            ),
            Err(e) => token_ens("{"@, pre, post, Err(e)),
        }
    }

    fn parse(stream: &mut CharStream) -> (r: Result<Self, ParseError>) {
        proof {
            reveal_strlit("{");
        }
        match parse_literal(stream, "{") {
            Ok(span) => Ok(LeftBrace { span }),
            Err(e) => Err(e),
        }
    }

    fn span(&self) -> (s: Span) {
        self.span
    }
}

/// The `}` token.
#[derive(Clone, Debug)]
pub struct RightBrace {
    pub span: Span,
}

impl Token for RightBrace {
    open spec fn spec_literal() -> Seq<char> {
        "}"@
    }

    fn literal() -> (s: String) {
        String::from_str("}")
    }

    proof fn parse_ens_inv(pre: StreamModel, post: StreamModel, r: Result<Self, ParseError>) {
        reveal_strlit("}");
        lemma_next_data_bounds(pre.src, pre.index);
    }
}

impl Parse for RightBrace {
    open spec fn wf(&self) -> bool {
        true
    }

    open spec fn spec_span(&self) -> Span {
        self.span
    }

    open spec fn parse_ens(
        pre: StreamModel,
        post: StreamModel,
        r: Result<RightBrace, ParseError>,
    ) -> bool {
        match r {
            Ok(v) => v.span == token_span(pre, "}"@) && token_ens(
                "}"@,
                pre,
                post,
                Ok(v.span),
            ),
            Err(e) => token_ens("}"@, pre, post, Err(e)),
        }
    }

    fn parse(stream: &mut CharStream) -> (r: Result<Self, ParseError>) {
        proof {
            reveal_strlit("}");
        }
        match parse_literal(stream, "}") {
            Ok(span) => Ok(RightBrace { span }),
            Err(e) => Err(e),
        }
    }

    fn span(&self) -> (s: Span) {
        self.span
    }
}

/// The `[` token.
#[derive(Clone, Debug)]
pub struct LeftBracket {
    pub span: Span,
}

impl Token for LeftBracket {
    open spec fn spec_literal() -> Seq<char> {
        "["@
    }

    fn literal() -> (s: String) {
        String::from_str("[")
    }

    proof fn parse_ens_inv(pre: StreamModel, post: StreamModel, r: Result<Self, ParseError>) {
        reveal_strlit("[");
        lemma_next_data_bounds(pre.src, pre.index);
    }
}

impl Parse for LeftBracket {
    open spec fn wf(&self) -> bool {
        true
    }

    open spec fn spec_span(&self) -> Span {
        self.span
    }

    open spec fn parse_ens(
        pre: StreamModel,
        post: StreamModel,
        r: Result<LeftBracket, ParseError>,
    ) -> bool {
        match r {
            Ok(v) => v.span == token_span(pre, "["@) && token_ens(
                "["@,
                pre,
                post,
                Ok(v.span),
            ),
            Err(e) => token_ens("["@, pre, post, Err(e)),
        }
    }

    fn parse(stream: &mut CharStream) -> (r: Result<Self, ParseError>) {
        proof {
            reveal_strlit("[");
        }
        match parse_literal(stream, "[") {
            Ok(span) => Ok(LeftBracket { span }),
            Err(e) => Err(e),
        }
    }

    fn span(&self) -> (s: Span) {
        self.span
    }
}

/// The `]` token.
#[derive(Clone, Debug)]
pub struct RightBracket {
    pub span: Span,
}

impl Token for RightBracket {
    open spec fn spec_literal() -> Seq<char> {
        "]"@
    }

    fn literal() -> (s: String) {
        String::from_str("]")
    }

    proof fn parse_ens_inv(pre: StreamModel, post: StreamModel, r: Result<Self, ParseError>) {
        reveal_strlit("]");
        lemma_next_data_bounds(pre.src, pre.index);
    }
}

impl Parse for RightBracket {
    open spec fn wf(&self) -> bool {
        true
    }

    open spec fn spec_span(&self) -> Span {
        self.span
    }

    open spec fn parse_ens(
        pre: StreamModel,
        post: StreamModel,
        r: Result<RightBracket, ParseError>,
    ) -> bool {
        match r {
            Ok(v) => v.span == token_span(pre, "]"@) && token_ens(
                "]"@,
                pre,
                post,
                Ok(v.span),
            ),
            Err(e) => token_ens("]"@, pre, post, Err(e)),
        }
    }

    fn parse(stream: &mut CharStream) -> (r: Result<Self, ParseError>) {
        proof {
            reveal_strlit("]");
        }
        match parse_literal(stream, "]") {
            Ok(span) => Ok(RightBracket { span }),
            Err(e) => Err(e),
        }
    }

    fn span(&self) -> (s: Span) {
        self.span
    }
}

/// The `\"` token.
#[derive(Clone, Debug)]
pub struct LeftQuote {
    pub span: Span,
}

impl Token for LeftQuote {
    open spec fn spec_literal() -> Seq<char> {
        "\""@
    }

    fn literal() -> (s: String) {
        String::from_str("\"")
    }

    proof fn parse_ens_inv(pre: StreamModel, post: StreamModel, r: Result<Self, ParseError>) {
        reveal_strlit("\"");
        lemma_next_data_bounds(pre.src, pre.index);
    }
}

impl Parse for LeftQuote {
    open spec fn wf(&self) -> bool {
        true
    }

    open spec fn spec_span(&self) -> Span {
        self.span
    }

    open spec fn parse_ens(
        pre: StreamModel,
        post: StreamModel,
        r: Result<LeftQuote, ParseError>,
    ) -> bool {
        match r {
            Ok(v) => v.span == token_span(pre, "\""@) && token_ens(
                "\""@,
                pre,
                post,
                Ok(v.span),
            ),
            Err(e) => token_ens("\""@, pre, post, Err(e)),
        }
    }

    fn parse(stream: &mut CharStream) -> (r: Result<Self, ParseError>) {
        proof {
            reveal_strlit("\"");
        }
        match parse_literal(stream, "\"") {
            Ok(span) => Ok(LeftQuote { span }),
            Err(e) => Err(e),
        }
    }

    fn span(&self) -> (s: Span) {
        self.span
    }
}

/// The `\"` token.
#[derive(Clone, Debug)]
pub struct RightQuote {
    pub span: Span,
}

impl Token for RightQuote {
    open spec fn spec_literal() -> Seq<char> {
        "\""@
    }

    fn literal() -> (s: String) {
        String::from_str("\"")
    }

    proof fn parse_ens_inv(pre: StreamModel, post: StreamModel, r: Result<Self, ParseError>) {
        reveal_strlit("\"");
        lemma_next_data_bounds(pre.src, pre.index);
    }
}

impl Parse for RightQuote {
    open spec fn wf(&self) -> bool {
        true
    }

    open spec fn spec_span(&self) -> Span {
        self.span
    }

    open spec fn parse_ens(
        pre: StreamModel,
        post: StreamModel,
        r: Result<RightQuote, ParseError>,
    ) -> bool {
        match r {
            Ok(v) => v.span == token_span(pre, "\""@) && token_ens(
                "\""@,
                pre,
                post,
                Ok(v.span),
            ),
            Err(e) => token_ens("\""@, pre, post, Err(e)),
        }
    }

    fn parse(stream: &mut CharStream) -> (r: Result<Self, ParseError>) {
        proof {
            reveal_strlit("\"");
        }
        match parse_literal(stream, "\"") {
            Ok(span) => Ok(RightQuote { span }),
            Err(e) => Err(e),
        }
    }

    fn span(&self) -> (s: Span) {
        self.span
    }
}

/// The `Paren` delimiter pair.
#[derive(Clone, Debug)]
pub struct Paren {
    pub start: LeftParen,
    pub end: RightParen,
}

impl Delimiter for Paren {
    type Start = LeftParen;

    type End = RightParen;

    open spec fn wf(&self) -> bool {
        true
    }

    open spec fn spec_span(&self) -> Span {
        Span { start: self.start.span.start, end: self.end.span.end }
    }

    fn new(start: LeftParen, end: RightParen) -> (d: Self) {
        Paren { start, end }
    }

    fn span(&self) -> (s: Span) {
        Span::new(self.start.span().start, self.end.span().end)
    }

    fn name() -> String {
        String::from_str("Paren")
    }
}

/// The `Brace` delimiter pair.
#[derive(Clone, Debug)]
pub struct Brace {
    pub start: LeftBrace,
    pub end: RightBrace,
}

impl Delimiter for Brace {
    type Start = LeftBrace;

    type End = RightBrace;

    open spec fn wf(&self) -> bool {
        true
    }

    open spec fn spec_span(&self) -> Span {
        Span { start: self.start.span.start, end: self.end.span.end }
    }

    fn new(start: LeftBrace, end: RightBrace) -> (d: Self) {
        Brace { start, end }
    }

    fn span(&self) -> (s: Span) {
        Span::new(self.start.span().start, self.end.span().end)
    }

    fn name() -> String {
        String::from_str("Brace")
    }
}

/// The `Bracket` delimiter pair.
#[derive(Clone, Debug)]
pub struct Bracket {
    pub start: LeftBracket,
    pub end: RightBracket,
}

impl Delimiter for Bracket {
    type Start = LeftBracket;

    type End = RightBracket;

    open spec fn wf(&self) -> bool {
        true
    }

    open spec fn spec_span(&self) -> Span {
        Span { start: self.start.span.start, end: self.end.span.end }
    }

    fn new(start: LeftBracket, end: RightBracket) -> (d: Self) {
        Bracket { start, end }
    }

    fn span(&self) -> (s: Span) {
        Span::new(self.start.span().start, self.end.span().end)
    }

    fn name() -> String {
        String::from_str("Bracket")
    }
}

/// The `Quote` delimiter pair.
#[derive(Clone, Debug)]
pub struct Quote {
    pub start: LeftQuote,
    pub end: RightQuote,
}

impl Delimiter for Quote {
    type Start = LeftQuote;

    type End = RightQuote;

    open spec fn wf(&self) -> bool {
        true
    }

    open spec fn spec_span(&self) -> Span {
        Span { start: self.start.span.start, end: self.end.span.end }
    }

    fn new(start: LeftQuote, end: RightQuote) -> (d: Self) {
        Quote { start, end }
    }

    fn span(&self) -> (s: Span) {
        Span::new(self.start.span().start, self.end.span().end)
    }

    fn name() -> String {
        String::from_str("Quote")
    }
}

/// The `Chevron` delimiter pair.
#[derive(Clone, Debug)]
pub struct Chevron {
    pub start: Less,
    pub end: Greater,
}

impl Delimiter for Chevron {
    type Start = Less;

    type End = Greater;

    open spec fn wf(&self) -> bool {
        true
    }

    open spec fn spec_span(&self) -> Span {
        Span { start: self.start.span.start, end: self.end.span.end }
    }

    fn new(start: Less, end: Greater) -> (d: Self) {
        Chevron { start, end }
    }

    fn span(&self) -> (s: Span) {
        Span::new(self.start.span().start, self.end.span().end)
    }

    fn name() -> String {
        String::from_str("Chevron")
    }
}

} // verus!
