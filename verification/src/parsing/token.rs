//! A lexed-token vocabulary and a whole-input token store with its
//! reshaping passes.

use vstd::prelude::*;

use super::push_char;

verus! {

/// A lexed number: its value and the base it was written in.
#[derive(Clone, Copy, Debug, PartialEq, Eq, Structural)]
pub struct Number {
    value: usize,
    base: u8,
}

impl Number {
    /// The numeric value, for specifications.
    pub closed spec fn spec_value(&self) -> usize {
        self.value
    }

    /// The base, for specifications.
    pub closed spec fn spec_base(&self) -> u8 {
        self.base
    }

    pub fn new(value: usize, base: u8) -> (n: Self)
        ensures
            n.spec_value() == value,
            n.spec_base() == base,
    {
        Number { value, base }
    }
}

/// One token of the lexed-token vocabulary.
#[derive(Debug, PartialEq, Eq)]
pub enum Token {
    WhiteSpace(String),
    Identifier(String),
    String(String),
    Number(Number),
    Char(char),
    Keyword(String),
    Operator(String),
}

impl Clone for Token {
    /// A clone reads the same.
    fn clone(&self) -> (r: Self)
        ensures
            r@ == self@,
    {
        match self {
            Token::WhiteSpace(v) => Token::WhiteSpace(v.clone()),
            Token::Identifier(v) => Token::Identifier(v.clone()),
            Token::String(v) => Token::String(v.clone()),
            Token::Number(n) => Token::Number(*n),
            Token::Char(c) => Token::Char(*c),
            Token::Keyword(v) => Token::Keyword(v.clone()),
            Token::Operator(v) => Token::Operator(v.clone()),
        }
    }
}

/// The abstract shape of a token: its text as a character sequence.
pub enum TokenView {
    WhiteSpace(Seq<char>),
    Identifier(Seq<char>),
    String(Seq<char>),
    Number(Number),
    Char(char),
    Keyword(Seq<char>),
    Operator(Seq<char>),
}

impl View for Token {
    type V = TokenView;

    open spec fn view(&self) -> TokenView {
        match self {
            Token::WhiteSpace(v) => TokenView::WhiteSpace(v@),
            Token::Identifier(v) => TokenView::Identifier(v@),
            Token::String(v) => TokenView::String(v@),
            Token::Number(n) => TokenView::Number(*n),
            Token::Char(c) => TokenView::Char(*c),
            Token::Keyword(v) => TokenView::Keyword(v@),
            Token::Operator(v) => TokenView::Operator(v@),
        }
    }
}

/// Whether `p` is a prefix of `s`.
pub open spec fn is_prefix(p: Seq<char>, s: Seq<char>) -> bool {
    p.len() <= s.len() && s.subrange(0, p.len() as int) == p
}

/// How many of the given operators start with `test`.
pub open spec fn prefix_count(ops: Seq<Seq<char>>, test: Seq<char>) -> int
    decreases ops.len(),
{
    if ops.len() == 0 {
        0
    } else {
        prefix_count(ops.drop_last(), test) + if is_prefix(test, ops.last()) {
            1int
        } else {
            0int
        }
    }
}

/// Whether `test` is itself one of the given operators.
pub open spec fn ops_contain(ops: Seq<Seq<char>>, test: Seq<char>) -> bool {
    exists|i: int| 0 <= i < ops.len() && ops[i] == test
}

/// One step of the greedy operator scan: a plain character extends the
/// accumulated text, which is emitted as an operator the moment it
/// spells exactly the one operator it can still become, and flushed
/// when no operator starts with it any more; any other token first
/// flushes the accumulated text, then passes through unchanged.
pub open spec fn op_step(
    ops: Seq<Seq<char>>,
    out: Seq<TokenView>,
    acc: Seq<char>,
    t: TokenView,
) -> (Seq<TokenView>, Seq<char>) {
    match t {
        TokenView::Char(ch) => {
            let test = acc.push(ch);
            if prefix_count(ops, test) == 1 && ops_contain(ops, test) {
                (out.push(TokenView::Operator(test)), Seq::empty())
            } else if prefix_count(ops, test) == 0 {
                if test.len() > 1 {
                    (out.push(TokenView::Operator(acc)), Seq::empty())
                } else {
                    (out.push(TokenView::Char(ch)), Seq::empty())
                }
            } else {
                (out, test)
            }
        },
        _ => {
            if acc.len() > 0 {
                (out.push(TokenView::Operator(acc)).push(t), Seq::empty())
            } else {
                (out.push(t), Seq::empty())
            }
        },
    }
}

/// The greedy operator scan over a whole token sequence; text still
/// accumulated when the input ends is dropped.
pub open spec fn op_fold(ops: Seq<Seq<char>>, s: Seq<TokenView>) -> (Seq<TokenView>, Seq<char>)
    decreases s.len(),
{
    if s.len() == 0 {
        (Seq::empty(), Seq::empty())
    } else {
        let st = op_fold(ops, s.drop_last());
        op_step(ops, st.0, st.1, s.last())
    }
}

/// What reclassifying one token against a keyword list yields: an
/// identifier whose text is listed becomes a keyword, everything else
/// stays itself.
pub open spec fn spec_keyword_of(t: Token, kws: Seq<Seq<char>>) -> Token {
    match t {
        Token::Identifier(v) => if exists|i: int| 0 <= i < kws.len() && kws[i] == v@ {
            Token::Keyword(v)
        } else {
            Token::Identifier(v)
        },
        _ => t,
    }
}

/// The tokens of `s` that are not whitespace, in order.
pub open spec fn spec_without_ws(s: Seq<Token>) -> Seq<Token>
    decreases s.len(),
{
    if s.len() == 0 {
        Seq::empty()
    } else {
        let rest = spec_without_ws(s.drop_last());
        if s.last() is WhiteSpace {
            rest
        } else {
            rest.push(s.last())
        }
    }
}

/// A whole lexed input: the tokens in order, with reshaping passes
/// that drop whitespace or reclassify keywords.
#[derive(Clone, Debug)]
pub struct TokenStream {
    tokens: Vec<Token>,
}

impl View for TokenStream {
    type V = Seq<Token>;

    closed spec fn view(&self) -> Seq<Token> {
        self.tokens@
    }
}

impl TokenStream {
    /// A store over the given tokens.
    pub fn new(tokens: Vec<Token>) -> (s: Self)
        ensures
            s@ == tokens@,
    {
        TokenStream { tokens }
    }

    /// The tokens, in order.
    pub fn iter(&self) -> (t: &Vec<Token>)
        ensures
            t@ == self@,
    {
        &self.tokens
    }

    /// Drop every whitespace token, keeping the rest in order.
    pub fn remove_whitespace(&mut self)
        ensures
            final(self)@ == spec_without_ws(old(self)@),
    {
        let mut input = self.tokens.split_off(0);
        let n = input.len();
        let mut kept: Vec<Token> = Vec::new();
        let ghost orig = input@;
        let mut k: usize = 0;
        proof {
            assert(orig =~= old(self)@);
            assert(orig.subrange(0, 0) =~= Seq::<Token>::empty());
        }
        while k < n
            invariant
                k <= n,
                n == orig.len(),
                input@ == orig.subrange(k as int, n as int),
                kept@ == spec_without_ws(orig.subrange(0, k as int)),
            decreases n - k,
        {
            let t = input.remove(0);
            proof {
                assert(t == orig[k as int]);
                assert(input@ =~= orig.subrange(k + 1, n as int));
                assert(orig.subrange(0, k + 1).drop_last() =~= orig.subrange(0, k as int));
                assert(orig.subrange(0, k + 1).last() == orig[k as int]);
            }
            let keep = match &t {
                Token::WhiteSpace(_) => false,
                _ => true,
            };
            if keep {
                kept.push(t);
            }
            k = k + 1;
        }
        proof {
            assert(orig.subrange(0, n as int) =~= orig);
        }
        self.tokens = kept;
    }

    /// Reclassify identifiers that spell a listed keyword.
    pub fn keywords(&mut self, keywords: &[&str])
        ensures
            final(self)@.len() == old(self)@.len(),
            forall|k: int|
                0 <= k < old(self)@.len() ==> final(self)@[k] == spec_keyword_of(
                    #[trigger] old(self)@[k],
                    keywords@.map_values(|w: &str| w@),
                ),
    {
        let mut input = self.tokens.split_off(0);
        let n = input.len();
        let mut out: Vec<Token> = Vec::new();
        let ghost orig = input@;
        let mut k: usize = 0;
        proof {
            assert(orig =~= old(self)@);
        }
        while k < n
            invariant
                k <= n,
                n == orig.len(),
                input@ == orig.subrange(k as int, n as int),
                out@.len() == k as int,
                forall|t: int|
                    0 <= t < k ==> out@[t] == spec_keyword_of(
                        #[trigger] orig[t],
                        keywords@.map_values(|w: &str| w@),
                    ),
            decreases n - k,
        {
            let t = input.remove(0);
            proof {
                assert(t == orig[k as int]);
                assert(input@ =~= orig.subrange(k + 1, n as int));
            }
            proof {
                let kws = keywords@.map_values(|w: &str| w@);
                assert(forall|i: int|
                    0 <= i < kws.len() ==> #[trigger] kws[i] == (keywords@[i])@);
            }
            match t {
                Token::Identifier(v) => {
                    if contains_str(keywords, &v) {
                        proof {
                            let i0 = choose|i: int|
                                0 <= i < keywords@.len() && (#[trigger] keywords@[i])@ == v@;
                            assert(keywords@.map_values(|w: &str| w@)[i0] == v@);
                        }
                        out.push(Token::Keyword(v));
                    } else {
                        proof {
                            let kws = keywords@.map_values(|w: &str| w@);
                            assert forall|i: int| 0 <= i < kws.len() implies #[trigger] kws[i]
                                != v@ by {
                                assert((keywords@[i])@ != v@);
                            }
                        }
                        out.push(Token::Identifier(v));
                    }
                },
                other => {
                    out.push(other);
                },
            }
            k = k + 1;
        }
        self.tokens = out;
    }
}

impl TokenStream {
    /// Merge runs of plain characters into the listed operators,
    /// greedily: text keeps growing while more than one operator can
    /// still come of it, is emitted the moment it spells exactly the
    /// one operator left, and is flushed as soon as no operator
    /// starts with it; other tokens pass through after flushing.
    pub fn operators(&mut self, operators: &[&str])
        ensures
            final(self)@.map_values(|t: Token| t@) == op_fold(
                operators@.map_values(|w: &str| w@),
                old(self)@.map_values(|t: Token| t@),
            ).0,
    {
        let ghost ops = operators@.map_values(|w: &str| w@);
        let mut input = self.tokens.split_off(0);
        let n = input.len();
        let mut out: Vec<Token> = Vec::new();
        let mut value = String::new();
        let ghost orig = input@;
        let mut k: usize = 0;
        proof {
            assert(orig =~= old(self)@);
            assert(orig.subrange(0, 0).map_values(|t: Token| t@) =~= Seq::<TokenView>::empty());
        }
        while k < n
            invariant
                k <= n,
                n == orig.len(),
                input@ == orig.subrange(k as int, n as int),
                ops == operators@.map_values(|w: &str| w@),
                (out@.map_values(|t: Token| t@), value@) == op_fold(
                    ops,
                    orig.subrange(0, k as int).map_values(|t: Token| t@),
                ),
            decreases n - k,
        {
            let t = input.remove(0);
            let ghost prev_out = out@.map_values(|t: Token| t@);
            let ghost prev_acc = value@;
            proof {
                assert(t == orig[k as int]);
                assert(input@ =~= orig.subrange(k + 1, n as int));
                assert(orig.subrange(0, k + 1).map_values(|t: Token| t@).drop_last()
                    =~= orig.subrange(0, k as int).map_values(|t: Token| t@));
                assert(orig.subrange(0, k + 1).map_values(|t: Token| t@).last() == orig[k as int]@);
            }
            match t {
                Token::Char(ch) => {
                    let mut test = value.clone();
                    push_char(&mut test, ch);
                    let info = prefix_info(operators, &test);
                    if info.0 == 1 && info.1 {
                        out.push(Token::Operator(test));
                        value = String::new();
                        proof {
                            assert(out@.map_values(|t: Token| t@) =~= prev_out.push(
                                TokenView::Operator(prev_acc.push(ch)),
                            ));
                        }
                    } else if info.0 == 0 {
                        if test.as_str().unicode_len() > 1 {
                            out.push(Token::Operator(value));
                            value = String::new();
                            proof {
                                assert(out@.map_values(|t: Token| t@) =~= prev_out.push(
                                    TokenView::Operator(prev_acc),
                                ));
                            }
                        } else {
                            out.push(Token::Char(ch));
                            value = String::new();
                            proof {
                                assert(out@.map_values(|t: Token| t@) =~= prev_out.push(
                                    TokenView::Char(ch),
                                ));
                            }
                        }
                    } else {
                        value = test;
                    }
                },
                other => {
                    let ghost gother = other@;
                    if value.as_str().unicode_len() > 0 {
                        out.push(Token::Operator(value));
                        value = String::new();
                        proof {
                            assert(out@.map_values(|t: Token| t@) =~= prev_out.push(
                                TokenView::Operator(prev_acc),
                            ));
                        }
                        out.push(other);
                        proof {
                            assert(out@.map_values(|t: Token| t@) =~= prev_out.push(
                                TokenView::Operator(prev_acc),
                            ).push(gother));
                        }
                    } else {
                        out.push(other);
                        proof {
                            assert(out@.map_values(|t: Token| t@) =~= prev_out.push(gother));
                        }
                    }
                },
            }
            k = k + 1;
        }
        proof {
            assert(orig.subrange(0, n as int) =~= orig);
            assert(orig.subrange(0, n as int).map_values(|t: Token| t@) =~= orig.map_values(
                |t: Token| t@,
            ));
        }
        self.tokens = out;
    }
}

/// Whether `op` starts with the characters of `test`.
fn starts_with_str(op: &str, test: &String) -> (b: bool)
    ensures
        b == is_prefix(test@, op@),
{
    let tn = test.as_str().unicode_len();
    let on = op.unicode_len();
    if tn > on {
        return false;
    }
    let mut i: usize = 0;
    while i < tn
        invariant
            i <= tn,
            tn == test@.len(),
            on == op@.len(),
            tn <= on,
            forall|j: int| 0 <= j < i ==> test@[j] == op@[j],
        decreases tn - i,
    {
        if test.as_str().get_char(i) != op.get_char(i) {
            proof {
                if is_prefix(test@, op@) {
                    assert(op@.subrange(0, tn as int)[i as int] == op@[i as int]);
                }
            }
            return false;
        }
        i = i + 1;
    }
    proof {
        assert(op@.subrange(0, tn as int) =~= test@);
    }
    true
}

/// How many of the given operators start with `test`, and whether one
/// of them is `test` itself.
fn prefix_info(operators: &[&str], test: &String) -> (r: (usize, bool))
    ensures
        r.0 as int == prefix_count(operators@.map_values(|w: &str| w@), test@),
        r.1 == ops_contain(operators@.map_values(|w: &str| w@), test@),
{
    let n = operators.len();
    let mut count: usize = 0;
    let mut exact = false;
    let mut k: usize = 0;
    proof {
        assert(operators@.map_values(|w: &str| w@).subrange(0, 0) =~= Seq::<Seq<char>>::empty());
    }
    while k < n
        invariant
            k <= n,
            n == operators@.len(),
            count <= k,
            count as int == prefix_count(
                operators@.map_values(|w: &str| w@).subrange(0, k as int),
                test@,
            ),
            exact == exists|i: int| 0 <= i < k && (#[trigger] operators@[i])@ == test@,
        decreases n - k,
    {
        let ghost ops = operators@.map_values(|w: &str| w@);
        proof {
            assert(ops.subrange(0, k + 1).drop_last() =~= ops.subrange(0, k as int));
            assert(ops.subrange(0, k + 1).last() == ops[k as int]);
            assert(ops[k as int] == (operators@[k as int])@);
        }
        if starts_with_str(operators[k], test) {
            count = count + 1;
        }
        let word = String::from_str(operators[k]);
        if word == *test {
            exact = true;
        }
        k = k + 1;
    }
    proof {
        let ops = operators@.map_values(|w: &str| w@);
        assert(ops.subrange(0, n as int) =~= ops);
        assert(forall|i: int| 0 <= i < n ==> #[trigger] ops[i] == (operators@[i])@);
        if exact {
            let i0 = choose|i: int| 0 <= i < n && (#[trigger] operators@[i])@ == test@;
            assert(ops[i0] == test@);
        }
        if ops_contain(ops, test@) {
            let i0 = choose|i: int| 0 <= i < ops.len() && ops[i] == test@;
            assert((operators@[i0])@ == test@);
        }
    }
    (count, exact)
}

/// Whether `value` spells one of the given words.
fn contains_str(words: &[&str], value: &String) -> (b: bool)
    ensures
        b == exists|i: int| 0 <= i < words@.len() && (#[trigger] words@[i])@ == value@,
{
    let n = words.len();
    let mut k: usize = 0;
    while k < n
        invariant
            k <= n,
            n == words@.len(),
            forall|t: int| 0 <= t < k ==> (#[trigger] words@[t])@ != value@,
        decreases n - k,
    {
        let w = String::from_str(words[k]);
        if w == *value {
            return true;
        }
        k = k + 1;
    }
    false
}

} // verus!
