//! Data-format building blocks: key-value entries, scalar values, and
//! the uniform node tree that parsed data formats project into.

use vstd::prelude::*;

use crate::parsing::charstream::{lemma_wf_index, CharStream, Position, Span, StreamModel};
use crate::parsing::tokens::Token;
use crate::parsing::charstream::{pos_at, start_of};
use crate::parsing::{
    digits_val, ident_ens, is_alpha, is_digit, number_ens, prefer_candidate, scan_alnum,
    scan_string, string_ens, weigh, Identifier, Number, Parse, ParseError, StringValue,
};

verus! {

/// A key-value entry: a name, a separator token, an inner value.
#[derive(Clone)]
pub struct NamedValue<N, S, I>(pub N, pub S, pub I);

impl<N: Parse, S: Token, I: Parse> NamedValue<N, S, I> {
    /// The entry's name.
    pub fn name(&self) -> (n: &N)
        ensures
            *n == self.0,
    {
        &self.0
    }

    /// The entry's value.
    pub fn value(&self) -> (v: &I)
        ensures
            *v == self.2,
    {
        &self.2
    }
}

impl<N: Parse, S: Token, I: Parse> Parse for NamedValue<N, S, I> {
    open spec fn wf(&self) -> bool {
        self.0.wf() && self.1.wf() && self.2.wf()
    }

    open spec fn spec_span(&self) -> Span {
        Span { start: self.0.spec_span().start, end: self.2.spec_span().end }
    }

    /// An entry parses as its three parts in order.
    open spec fn parse_ens(
        pre: StreamModel,
        post: StreamModel,
        r: Result<NamedValue<N, S, I>, ParseError>,
    ) -> bool {
        match r {
            Ok(v) => <(N, S, I) as Parse>::parse_ens(pre, post, Ok((v.0, v.1, v.2))),
            Err(e) => <(N, S, I) as Parse>::parse_ens(pre, post, Err(e)),
        }
    }

    fn parse(stream: &mut CharStream) -> (r: Result<Self, ParseError>) {
        match <(N, S, I) as Parse>::parse(stream) {
            Ok(t) => {
                let v = NamedValue(t.0, t.1, t.2);
                proof {
                    assert((v.0, v.1, v.2) == t);
                }
                Ok(v)
            },
            Err(e) => Err(e),
        }
    }

    fn span(&self) -> (s: Span) {
        Span::new(self.0.span().start, self.2.span().end)
    }
}

/// The cursor state after committing to a speculative attempt that
/// ended at `end`: only the position moves.
pub open spec fn committed(pre: StreamModel, end: int) -> StreamModel {
    StreamModel { index: end, ..pre }
}

/// A scalar of a data format: a string, a number, or one of the two
/// boolean keywords.
#[derive(Clone, Debug)]
pub enum ParseValue {
    String(StringValue),
    Number(Number),
    Bool(Identifier),
}

/// What one successful scalar alternative means, tried from `pre` and
/// ending at `m`.
pub open spec fn parse_value_variant(pre: StreamModel, m: StreamModel, v: ParseValue) -> bool {
    match v {
        ParseValue::String(sv) => string_ens(pre, m, Ok(sv)),
        ParseValue::Number(n) => number_ens(pre, m, Ok(n)),
        ParseValue::Bool(id) => ident_ens(pre, m, Ok(id)) && (id@ == "true"@ || id@ == "false"@),
    }
}

/// Whether a scalar stands at the cursor: a closed string literal, a
/// digit, or one of the boolean keywords.
pub open spec fn spec_value_starts(pre: StreamModel) -> bool {
    let j = start_of(pre);
    let src = pre.src;
    j < src.len() && ({
        ||| (src[j] == '"' && scan_string(src, j + 1) < src.len())
        ||| is_digit(src[j])
        ||| (is_alpha(src[j]) && {
            let w = src.subrange(j, scan_alnum(src, j));
            w == "true"@ || w == "false"@
        })
    })
}

/// The outcome of each scalar alternative, tried from `pre`: a
/// successful one carries its value and end state, a failed one
/// nothing, and either way the outcome is vouched by the
/// alternative's own contract. The boolean-keyword alternative also
/// fails when the word is neither keyword.
pub open spec fn value_candidates(
    pre: StreamModel,
    c1: Option<(StringValue, StreamModel)>,
    c2: Option<(Number, StreamModel)>,
    c3: Option<(Identifier, StreamModel)>,
) -> bool {
    &&& match c1 {
        Some(p) => string_ens(pre, p.1, Ok(p.0)),
        None => exists|w: StreamModel, e: ParseError| #![auto] string_ens(pre, w, Err(e)),
    }
    &&& match c2 {
        Some(p) => number_ens(pre, p.1, Ok(p.0)),
        None => exists|w: StreamModel, e: ParseError| #![auto] number_ens(pre, w, Err(e)),
    }
    &&& match c3 {
        Some(p) => ident_ens(pre, p.1, Ok(p.0)) && (p.0@ == "true"@ || p.0@ == "false"@),
        None => {
            ||| exists|w: StreamModel, e: ParseError| #![auto] ident_ens(pre, w, Err(e))
            ||| exists|w: StreamModel, v: Identifier|
                #![auto]
                ident_ens(pre, w, Ok(v)) && v@ != "true"@ && v@ != "false"@
        },
    }
}

/// Which scalar alternative the selection rule picks, given the three
/// outcomes: candidates are weighed in declaration order and the
/// preferred span wins.
pub open spec fn value_choice(
    c1: Option<(StringValue, StreamModel)>,
    c2: Option<(Number, StreamModel)>,
    c3: Option<(Identifier, StreamModel)>,
) -> Option<(int, Span)> {
    let s1 = match c1 {
        Some(p) => Some(p.0.spec_span()),
        None => None,
    };
    let s2 = match c2 {
        Some(p) => Some(p.0.spec_span()),
        None => None,
    };
    let s3 = match c3 {
        Some(p) => Some(p.0.spec_span()),
        None => None,
    };
    weigh(weigh(weigh(None, 1, s1), 2, s2), 3, s3)
}

/// What parsing a scalar means: each alternative was tried from the
/// entry state, the selection rule picked the winner among the
/// successful ones, the winner's value was returned and the cursor
/// committed to its end; it fails exactly when no scalar stands at
/// the cursor, and then consumes nothing.
pub open spec fn parse_value_ens(
    pre: StreamModel,
    post: StreamModel,
    r: Result<ParseValue, ParseError>,
) -> bool {
    &&& match r {
        Ok(v) => exists|m: StreamModel|
            #![auto]
            parse_value_variant(pre, m, v) && post == committed(pre, m.index),
        Err(_) => post == pre && !spec_value_starts(pre),
    }
    &&& exists|
        c1: Option<(StringValue, StreamModel)>,
        c2: Option<(Number, StreamModel)>,
        c3: Option<(Identifier, StreamModel)>,
    |
        #![auto]
        value_candidates(pre, c1, c2, c3) && (match value_choice(c1, c2, c3) {
            None => r is Err,
            Some(b) => r matches Ok(v) && (if b.0 == 1 {
                v == ParseValue::String(c1->Some_0.0) && post == committed(
                    pre,
                    c1->Some_0.1.index,
                )
            } else if b.0 == 2 {
                v == ParseValue::Number(c2->Some_0.0) && post == committed(
                    pre,
                    c2->Some_0.1.index,
                )
            } else {
                v == ParseValue::Bool(c3->Some_0.0) && post == committed(pre, c3->Some_0.1.index)
            }),
        })
}

impl Parse for ParseValue {
    open spec fn wf(&self) -> bool {
        match self {
            ParseValue::String(sv) => sv.wf(),
            ParseValue::Number(n) => n.wf(),
            ParseValue::Bool(id) => id.wf(),
        }
    }

    open spec fn spec_span(&self) -> Span {
        match self {
            ParseValue::String(sv) => sv.spec_span(),
            ParseValue::Number(n) => n.spec_span(),
            ParseValue::Bool(id) => id.spec_span(),
        }
    }

    open spec fn parse_ens(
        pre: StreamModel,
        post: StreamModel,
        r: Result<ParseValue, ParseError>,
    ) -> bool {
        parse_value_ens(pre, post, r)
    }

    fn parse(stream: &mut CharStream) -> (r: Result<Self, ParseError>) {
        proof {
            lemma_wf_index(stream);
        }
        let entry = stream.pos();
        let ghost pre = stream@;
        let mut best: Option<(ParseValue, Position)> = None;
        let ghost mut bw: StreamModel = stream@;
        let mut err: Option<ParseError> = None;
        let ghost mut gc1: Option<(StringValue, StreamModel)> = None;
        let ghost mut gc2: Option<(Number, StreamModel)> = None;
        let ghost mut gc3: Option<(Identifier, StreamModel)> = None;

        let mut probe1 = stream.clone();
        match StringValue::parse(&mut probe1) {
            Ok(sv) => {
                proof {
                    lemma_wf_index(&probe1);
                    bw = probe1@;
                    gc1 = Some((sv, probe1@));
                }
                let pos = probe1.pos();
                best = Some((ParseValue::String(sv), pos));
            },
            Err(e) => {
                proof {
                    let ghost ge = e;
                    assert(string_ens(pre, probe1@, Err(ge)));
                }
                err = Some(e);
            },
        }
        let ghost gw1 = weigh(None, 1, match gc1 {
            Some(p) => Some(p.0.spec_span()),
            None => None,
        });
        proof {
            assert(match gw1 {
                None => best is None,
                Some(b) => best matches Some(p) && b.0 == 1 && p.0
                    == ParseValue::String(gc1->Some_0.0) && p.1 == pos_at(
                    pre.src,
                    pre.file_id,
                    gc1->Some_0.1.index,
                ) && b.1 == p.0.spec_span() && bw == gc1->Some_0.1,
            });
        }

        let mut probe2 = stream.clone();
        match Number::parse(&mut probe2) {
            Ok(n) => {
                proof {
                    lemma_wf_index(&probe2);
                    gc2 = Some((n, probe2@));
                }
                let pos = probe2.pos();
                let cand = ParseValue::Number(n);
                let replace = match &best {
                    None => true,
                    Some((b, _)) => prefer_candidate(&cand.span(), &b.span()),
                };
                if replace {
                    proof {
                        bw = probe2@;
                    }
                    best = Some((cand, pos));
                }
            },
            Err(e) => {
                proof {
                    let ghost ge = e;
                    assert(number_ens(pre, probe2@, Err(ge)));
                }
                err = Some(e);
            },
        }
        let ghost gw2 = weigh(gw1, 2, match gc2 {
            Some(p) => Some(p.0.spec_span()),
            None => None,
        });
        proof {
            assert(match gw2 {
                None => best is None,
                Some(b) => best matches Some(p) && b.1 == p.0.spec_span() && if b.0 == 1 {
                    p.0 == ParseValue::String(gc1->Some_0.0) && p.1 == pos_at(
                        pre.src,
                        pre.file_id,
                        gc1->Some_0.1.index,
                    ) && bw == gc1->Some_0.1
                } else {
                    b.0 == 2 && p.0 == ParseValue::Number(gc2->Some_0.0) && p.1 == pos_at(
                        pre.src,
                        pre.file_id,
                        gc2->Some_0.1.index,
                    ) && bw == gc2->Some_0.1
                },
            });
        }

        let mut probe3 = stream.clone();
        match Identifier::parse(&mut probe3) {
            Ok(id) => {
                if id.matches("true") || id.matches("false") {
                    proof {
                        lemma_wf_index(&probe3);
                        gc3 = Some((id, probe3@));
                    }
                    let pos = probe3.pos();
                    let cand = ParseValue::Bool(id);
                    let replace = match &best {
                        None => true,
                        Some((b, _)) => prefer_candidate(&cand.span(), &b.span()),
                    };
                    if replace {
                        proof {
                            bw = probe3@;
                        }
                        best = Some((cand, pos));
                    }
                } else {
                    proof {
                        let ghost gid = id;
                        assert(ident_ens(pre, probe3@, Ok(gid)) && gid@ != "true"@ && gid@
                            != "false"@);
                    }
                    err = Some(
                        ParseError::new("Value was not one of the expected values.", entry),
                    );
                }
            },
            Err(e) => {
                proof {
                    let ghost ge = e;
                    assert(ident_ens(pre, probe3@, Err(ge)));
                }
                err = Some(e);
            },
        }
        let ghost gw3 = weigh(gw2, 3, match gc3 {
            Some(p) => Some(p.0.spec_span()),
            None => None,
        });
        proof {
            assert(value_candidates(pre, gc1, gc2, gc3));
            assert(gw3 == value_choice(gc1, gc2, gc3));
            assert(match gw3 {
                None => best is None,
                Some(b) => best matches Some(p) && b.1 == p.0.spec_span() && if b.0 == 1 {
                    p.0 == ParseValue::String(gc1->Some_0.0) && p.1 == pos_at(
                        pre.src,
                        pre.file_id,
                        gc1->Some_0.1.index,
                    ) && bw == gc1->Some_0.1
                } else if b.0 == 2 {
                    p.0 == ParseValue::Number(gc2->Some_0.0) && p.1 == pos_at(
                        pre.src,
                        pre.file_id,
                        gc2->Some_0.1.index,
                    ) && bw == gc2->Some_0.1
                } else {
                    b.0 == 3 && p.0 == ParseValue::Bool(gc3->Some_0.0) && p.1 == pos_at(
                        pre.src,
                        pre.file_id,
                        gc3->Some_0.1.index,
                    ) && bw == gc3->Some_0.1
                },
            });
        }

        match best {
            Some((v, pos)) => {
                proof {
                    assert(parse_value_variant(pre, bw, v));
                    assert(pos == pos_at(pre.src, pre.file_id, bw.index));
                }
                match stream.goto(pos) {
                    Ok(_) => {
                        proof {
                            assert(stream@ == committed(pre, bw.index));
                            assert(exists|m: StreamModel|
                                #![auto]
                                parse_value_variant(pre, m, v) && stream@ == committed(
                                    pre,
                                    m.index,
                                ));
                        }
                        Ok(v)
                    },
                    Err(e) => Err(e),
                }
            },
            None => {
                proof {
                    assert(!spec_value_starts(pre));
                }
                match err {
                    Some(e) => Err(e),
                    None => Err(ParseError::new("Did not find variant for value.", entry)),
                }
            },
        }
    }

    fn span(&self) -> (s: Span) {
        match self {
            ParseValue::String(sv) => sv.span(),
            ParseValue::Number(n) => n.span(),
            ParseValue::Bool(id) => id.span(),
        }
    }
}

/// One node of a parsed data-format tree: a scalar, an object of some
/// grammar `O`, or a list of some grammar `L`. Alternatives are tried
/// in declaration order on speculative cursors and the best span wins.
#[derive(Clone)]
pub enum ParseNode<O, L> {
    Value(ParseValue),
    Object(O),
    List(L),
}

/// What one successful node alternative means, tried from `pre` and
/// ending at `m`.
pub open spec fn node_variant<O: Parse, L: Parse>(
    pre: StreamModel,
    m: StreamModel,
    v: ParseNode<O, L>,
) -> bool {
    match v {
        ParseNode::Value(pv) => parse_value_ens(pre, m, Ok(pv)),
        ParseNode::Object(o) => O::parse_ens(pre, m, Ok(o)),
        ParseNode::List(l) => L::parse_ens(pre, m, Ok(l)),
    }
}

/// The outcome of each node alternative, tried from `pre`, each
/// vouched by its own contract.
pub open spec fn node_candidates<O: Parse, L: Parse>(
    pre: StreamModel,
    c1: Option<(ParseValue, StreamModel)>,
    c2: Option<(O, StreamModel)>,
    c3: Option<(L, StreamModel)>,
) -> bool {
    &&& match c1 {
        Some(p) => parse_value_ens(pre, p.1, Ok(p.0)),
        None => exists|w: StreamModel, e: ParseError| #![auto] parse_value_ens(pre, w, Err(e)),
    }
    &&& match c2 {
        Some(p) => O::parse_ens(pre, p.1, Ok(p.0)),
        None => exists|w: StreamModel, e: ParseError| #![auto] O::parse_ens(pre, w, Err(e)),
    }
    &&& match c3 {
        Some(p) => L::parse_ens(pre, p.1, Ok(p.0)),
        None => exists|w: StreamModel, e: ParseError| #![auto] L::parse_ens(pre, w, Err(e)),
    }
}

/// Which node alternative the selection rule picks.
pub open spec fn node_choice<O: Parse, L: Parse>(
    c1: Option<(ParseValue, StreamModel)>,
    c2: Option<(O, StreamModel)>,
    c3: Option<(L, StreamModel)>,
) -> Option<(int, Span)> {
    let s1 = match c1 {
        Some(p) => Some(p.0.spec_span()),
        None => None,
    };
    let s2 = match c2 {
        Some(p) => Some(p.0.spec_span()),
        None => None,
    };
    let s3 = match c3 {
        Some(p) => Some(p.0.spec_span()),
        None => None,
    };
    weigh(weigh(weigh(None, 1, s1), 2, s2), 3, s3)
}

impl<O: Parse, L: Parse> Parse for ParseNode<O, L> {
    open spec fn wf(&self) -> bool {
        match self {
            ParseNode::Value(pv) => pv.wf(),
            ParseNode::Object(o) => o.wf(),
            ParseNode::List(l) => l.wf(),
        }
    }

    open spec fn spec_span(&self) -> Span {
        match self {
            ParseNode::Value(pv) => pv.spec_span(),
            ParseNode::Object(o) => o.spec_span(),
            ParseNode::List(l) => l.spec_span(),
        }
    }

    /// Each alternative was tried from the entry state, the selection
    /// rule picked the winner among the successful ones, the winner's
    /// value was returned and the cursor committed to its end; the
    /// read fails exactly when every alternative failed, and then
    /// consumes nothing.
    open spec fn parse_ens(
        pre: StreamModel,
        post: StreamModel,
        r: Result<ParseNode<O, L>, ParseError>,
    ) -> bool {
        &&& match r {
            Ok(v) => exists|m: StreamModel|
                #![auto]
                node_variant(pre, m, v) && post == committed(pre, m.index),
            Err(_) => post == pre,
        }
        &&& exists|
            c1: Option<(ParseValue, StreamModel)>,
            c2: Option<(O, StreamModel)>,
            c3: Option<(L, StreamModel)>,
        |
            #![auto]
            node_candidates::<O, L>(pre, c1, c2, c3) && (match node_choice::<O, L>(c1, c2, c3) {
                None => r is Err,
                Some(b) => r matches Ok(v) && (if b.0 == 1 {
                    v == ParseNode::<O, L>::Value(c1->Some_0.0) && post == committed(
                        pre,
                        c1->Some_0.1.index,
                    )
                } else if b.0 == 2 {
                    v == ParseNode::<O, L>::Object(c2->Some_0.0) && post == committed(
                        pre,
                        c2->Some_0.1.index,
                    )
                } else {
                    v == ParseNode::<O, L>::List(c3->Some_0.0) && post == committed(
                        pre,
                        c3->Some_0.1.index,
                    )
                }),
            })
    }

    fn parse(stream: &mut CharStream) -> (r: Result<Self, ParseError>) {
        proof {
            lemma_wf_index(stream);
        }
        let entry = stream.pos();
        let ghost pre = stream@;
        let mut best: Option<(ParseNode<O, L>, Position)> = None;
        let ghost mut bw: StreamModel = stream@;
        let mut err: Option<ParseError> = None;
        let ghost mut gc1: Option<(ParseValue, StreamModel)> = None;
        let ghost mut gc2: Option<(O, StreamModel)> = None;
        let ghost mut gc3: Option<(L, StreamModel)> = None;

        let mut probe1 = stream.clone();
        match ParseValue::parse(&mut probe1) {
            Ok(pv) => {
                proof {
                    lemma_wf_index(&probe1);
                    bw = probe1@;
                    gc1 = Some((pv, probe1@));
                }
                let pos = probe1.pos();
                best = Some((ParseNode::Value(pv), pos));
            },
            Err(e) => {
                proof {
                    let ghost ge = e;
                    assert(parse_value_ens(pre, probe1@, Err(ge)));
                }
                err = Some(e);
            },
        }
        let ghost gw1 = weigh(None, 1, match gc1 {
            Some(p) => Some(p.0.spec_span()),
            None => None,
        });
        proof {
            assert(match gw1 {
                None => best is None,
                Some(b) => best matches Some(p) && b.0 == 1 && p.0 == ParseNode::<O, L>::Value(
                    gc1->Some_0.0,
                ) && p.1 == pos_at(pre.src, pre.file_id, gc1->Some_0.1.index) && b.1
                    == p.0.spec_span() && bw == gc1->Some_0.1,
            });
        }

        let mut probe2 = stream.clone();
        match O::parse(&mut probe2) {
            Ok(o) => {
                proof {
                    lemma_wf_index(&probe2);
                    gc2 = Some((o, probe2@));
                }
                let pos = probe2.pos();
                let cand = ParseNode::Object(o);
                let replace = match &best {
                    None => true,
                    Some((b, _)) => prefer_candidate(&cand.span(), &b.span()),
                };
                if replace {
                    proof {
                        bw = probe2@;
                    }
                    best = Some((cand, pos));
                }
            },
            Err(e) => {
                proof {
                    let ghost ge = e;
                    assert(O::parse_ens(pre, probe2@, Err(ge)));
                }
                err = Some(e);
            },
        }
        let ghost gw2 = weigh(gw1, 2, match gc2 {
            Some(p) => Some(p.0.spec_span()),
            None => None,
        });
        proof {
            assert(match gw2 {
                None => best is None,
                Some(b) => best matches Some(p) && b.1 == p.0.spec_span() && (if b.0 == 1 {
                    p.0 == ParseNode::<O, L>::Value(gc1->Some_0.0) && p.1 == pos_at(
                        pre.src,
                        pre.file_id,
                        gc1->Some_0.1.index,
                    ) && bw == gc1->Some_0.1
                } else {
                    b.0 == 2 && p.0 == ParseNode::<O, L>::Object(gc2->Some_0.0) && p.1 == pos_at(
                        pre.src,
                        pre.file_id,
                        gc2->Some_0.1.index,
                    ) && bw == gc2->Some_0.1
                }),
            });
        }

        let mut probe3 = stream.clone();
        match L::parse(&mut probe3) {
            Ok(l) => {
                proof {
                    lemma_wf_index(&probe3);
                    gc3 = Some((l, probe3@));
                }
                let pos = probe3.pos();
                let cand = ParseNode::List(l);
                let replace = match &best {
                    None => true,
                    Some((b, _)) => prefer_candidate(&cand.span(), &b.span()),
                };
                if replace {
                    proof {
                        bw = probe3@;
                    }
                    best = Some((cand, pos));
                }
            },
            Err(e) => {
                proof {
                    let ghost ge = e;
                    assert(L::parse_ens(pre, probe3@, Err(ge)));
                }
                err = Some(e);
            },
        }
        let ghost gw3 = weigh(gw2, 3, match gc3 {
            Some(p) => Some(p.0.spec_span()),
            None => None,
        });
        proof {
            assert(node_candidates::<O, L>(pre, gc1, gc2, gc3));
            assert(gw3 == node_choice::<O, L>(gc1, gc2, gc3));
            assert(match gw3 {
                None => best is None,
                Some(b) => best matches Some(p) && b.1 == p.0.spec_span() && (if b.0 == 1 {
                    p.0 == ParseNode::<O, L>::Value(gc1->Some_0.0) && p.1 == pos_at(
                        pre.src,
                        pre.file_id,
                        gc1->Some_0.1.index,
                    ) && bw == gc1->Some_0.1
                } else if b.0 == 2 {
                    p.0 == ParseNode::<O, L>::Object(gc2->Some_0.0) && p.1 == pos_at(
                        pre.src,
                        pre.file_id,
                        gc2->Some_0.1.index,
                    ) && bw == gc2->Some_0.1
                } else {
                    b.0 == 3 && p.0 == ParseNode::<O, L>::List(gc3->Some_0.0) && p.1 == pos_at(
                        pre.src,
                        pre.file_id,
                        gc3->Some_0.1.index,
                    ) && bw == gc3->Some_0.1
                }),
            });
        }

        match best {
            Some((v, pos)) => {
                proof {
                    assert(node_variant(pre, bw, v));
                    assert(pos == pos_at(pre.src, pre.file_id, bw.index));
                }
                match stream.goto(pos) {
                    Ok(_) => {
                        proof {
                            assert(stream@ == committed(pre, bw.index));
                            assert(exists|m: StreamModel|
                                #![auto]
                                node_variant(pre, m, v) && stream@ == committed(pre, m.index));
                        }
                        Ok(v)
                    },
                    Err(e) => Err(e),
                }
            },
            None => match err {
                Some(e) => Err(e),
                None => Err(ParseError::new("Did not find variant for node.", entry)),
            },
        }
    }

    fn span(&self) -> (s: Span) {
        match self {
            ParseNode::Value(pv) => pv.span(),
            ParseNode::Object(o) => o.span(),
            ParseNode::List(l) => l.span(),
        }
    }
}

/// A plain scalar value, free of source bookkeeping.
#[derive(Clone, Debug, PartialEq, Eq)]
pub enum Value {
    String(String),
    Number(usize),
    Bool(bool),
}

impl ParseValue {
    /// The plain value this scalar denotes: the unescaped string, the
    /// machine integer when it fits, or the boolean the keyword names.
    pub fn to_value(&self) -> (r: Option<Value>)
        requires
            self.wf(),
        ensures
            match self {
                ParseValue::String(sv) => r matches Some(v) && v matches Value::String(t) && t@
                    == sv@,
                ParseValue::Number(n) => {
                    &&& (r is Some <==> digits_val(n@) <= usize::MAX)
                    &&& (r matches Some(v) ==> v == Value::Number(digits_val(n@) as usize))
                },
                ParseValue::Bool(id) => r == Some(Value::Bool(id@ == "true"@)),
            },
    {
        match self {
            ParseValue::String(sv) => Some(Value::String(sv.text())),
            ParseValue::Number(n) => match n.value() {
                Some(u) => Some(Value::Number(u)),
                None => None,
            },
            ParseValue::Bool(id) => Some(Value::Bool(id.matches("true"))),
        }
    }
}

/// A uniform data tree: scalars, objects as ordered name-node pairs,
/// and lists. Data-format grammars project into this shape. Object
/// entries keep their source order, and a repeated name keeps both
/// entries rather than overwriting the earlier one.
pub enum Node {
    Value(Value),
    Object(Vec<(String, Node)>),
    List(Vec<Node>),
}

impl Node {
    /// The scalar behind this node, if it is one.
    pub fn as_value(&self) -> (r: Option<&Value>)
        ensures
            match self {
                Node::Value(v) => r == Some(v),
                _ => r is None,
            },
    {
        match self {
            Node::Value(v) => Some(v),
            _ => None,
        }
    }

    /// The entries behind this node, if it is an object.
    pub fn entries(&self) -> (r: Option<&Vec<(String, Node)>>)
        ensures
            match self {
                Node::Object(es) => r == Some(es),
                _ => r is None,
            },
    {
        match self {
            Node::Object(es) => Some(es),
            _ => None,
        }
    }

    /// The elements behind this node, if it is a list.
    pub fn elements(&self) -> (r: Option<&Vec<Node>>)
        ensures
            match self {
                Node::List(es) => r == Some(es),
                _ => r is None,
            },
    {
        match self {
            Node::List(es) => Some(es),
            _ => None,
        }
    }

}

/// A data format that parses into a tree: it names its object and
/// list grammars and exposes the parsed node behind a value.
pub trait TreeData: Parse {
    type Object: Parse;

    type List: Parse;

    /// The parsed tree this value holds.
    fn value(&self) -> ParseNode<Self::Object, Self::List>;
}

} // verus!
