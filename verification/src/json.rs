//! A JSON grammar, as a client of the parsing core: objects are braced
//! lists of name-value entries, lists are bracketed lists of nodes,
//! and scalars are strings and numbers. The mutual recursion of nodes,
//! lists and objects is written out by hand with an explicit measure
//! on the unread part of the buffer.

use vstd::prelude::*;

use crate::data_formats::{committed, Node, Value as PlainValue};
use crate::parsing::charstream::{
    lemma_next_data_bounds, lemma_wf_index, pos_at, CharStream, Position, Span, StreamModel,
};
use crate::parsing::tokens::{
    Bracket, Brace, Comma, Colon, LeftBracket, LeftBrace, RightBracket, RightBrace, Delimiter,
    Token,
};
use crate::parsing::charstream::start_of;
use crate::parsing::{
    lemma_scan_digits_bounds, lemma_scan_string_bounds, number_ens, prefer_candidate, string_ens,
    token_ens, token_match, weigh, Group, List, Number, Parse, ParseError, StringValue,
};

verus! {

/// A JSON list: nodes between brackets, separated by commas.
pub struct JSONList {
    pub list: Group<Bracket, List<Box<JSONNode>, Comma>>,
}

/// One entry of a JSON object: a string name, a colon, a node.
pub struct NamedValue {
    pub name: StringValue,
    pub colon: Colon,
    pub value: Box<JSONNode>,
}

/// A JSON object: entries between braces, separated by commas.
pub struct JSONObject {
    pub map: Group<Brace, List<NamedValue, Comma>>,
}

/// A JSON scalar: a string or a number.
pub enum Value {
    String(StringValue),
    Number(Number),
}

/// One JSON node: alternatives are tried in declaration order and the
/// best span wins.
pub enum JSONNode {
    List(JSONList),
    Object(JSONObject),
    Value(Value),
}

/// The nodes whose scalars carry well-formed digit runs.
pub open spec fn node_wf(n: JSONNode) -> bool {
    match n {
        JSONNode::Value(v) => v.wf(),
        _ => true,
    }
}

/// What one successful scalar alternative means.
pub open spec fn json_value_variant(pre: StreamModel, m: StreamModel, v: Value) -> bool {
    match v {
        Value::String(sv) => string_ens(pre, m, Ok(sv)),
        Value::Number(n) => number_ens(pre, m, Ok(n)),
    }
}

/// The outcome of each scalar alternative, tried from `pre`, each
/// vouched by its own contract.
pub open spec fn json_value_candidates(
    pre: StreamModel,
    c1: Option<(StringValue, StreamModel)>,
    c2: Option<(Number, StreamModel)>,
) -> bool {
    &&& match c1 {
        Some(p) => string_ens(pre, p.1, Ok(p.0)),
        None => exists|w: StreamModel, e: ParseError| #![auto] string_ens(pre, w, Err(e)),
    }
    &&& match c2 {
        Some(p) => number_ens(pre, p.1, Ok(p.0)),
        None => exists|w: StreamModel, e: ParseError| #![auto] number_ens(pre, w, Err(e)),
    }
}

/// Which scalar alternative the selection rule picks.
pub open spec fn json_value_choice(
    c1: Option<(StringValue, StreamModel)>,
    c2: Option<(Number, StreamModel)>,
) -> Option<(int, Span)> {
    let s1 = match c1 {
        Some(p) => Some(p.0.spec_span()),
        None => None,
    };
    let s2 = match c2 {
        Some(p) => Some(p.0.spec_span()),
        None => None,
    };
    weigh(weigh(None, 1, s1), 2, s2)
}

impl Parse for Value {
    open spec fn wf(&self) -> bool {
        match self {
            Value::String(sv) => sv.wf(),
            Value::Number(n) => n.wf(),
        }
    }

    open spec fn spec_span(&self) -> Span {
        match self {
            Value::String(sv) => sv.spec_span(),
            Value::Number(n) => n.spec_span(),
        }
    }

    /// Each scalar alternative was tried from the entry state, the
    /// selection rule picked the winner, the winner's value was
    /// returned and the cursor committed to its end, consuming at
    /// least one character; the read fails exactly when both
    /// alternatives failed, and then consumes nothing.
    open spec fn parse_ens(
        pre: StreamModel,
        post: StreamModel,
        r: Result<Value, ParseError>,
    ) -> bool {
        &&& match r {
            Ok(v) => pre.index < post.index && exists|m: StreamModel|
                #![auto]
                json_value_variant(pre, m, v) && post == committed(pre, m.index),
            Err(_) => post == pre,
        }
        &&& exists|c1: Option<(StringValue, StreamModel)>, c2: Option<(Number, StreamModel)>|
            #![auto]
            json_value_candidates(pre, c1, c2) && (match json_value_choice(c1, c2) {
                None => r is Err,
                Some(b) => r matches Ok(v) && (if b.0 == 1 {
                    v == Value::String(c1->Some_0.0) && post == committed(pre, c1->Some_0.1.index)
                } else {
                    v == Value::Number(c2->Some_0.0) && post == committed(pre, c2->Some_0.1.index)
                }),
            })
    }

    fn parse(stream: &mut CharStream) -> (r: Result<Self, ParseError>) {
        proof {
            lemma_wf_index(stream);
            lemma_next_data_bounds(stream@.src, stream@.index);
        }
        let entry = stream.pos();
        let ghost pre = stream@;
        let mut best: Option<(Value, Position)> = None;
        let ghost mut bw: StreamModel = stream@;
        let mut err: Option<ParseError> = None;
        let ghost mut gc1: Option<(StringValue, StreamModel)> = None;
        let ghost mut gc2: Option<(Number, StreamModel)> = None;

        let mut probe1 = stream.clone();
        match StringValue::parse(&mut probe1) {
            Ok(sv) => {
                proof {
                    lemma_wf_index(&probe1);
                    bw = probe1@;
                    gc1 = Some((sv, probe1@));
                }
                let pos = probe1.pos();
                best = Some((Value::String(sv), pos));
            },
            Err(e) => {
                proof {
                    let ghost ge = e;
                    assert(string_ens(pre, probe1@, Err(ge)));
                }
                err = Some(e);
            },
        }
        let ghost gw1 = weigh(None, 1, match gc1 {
            Some(p) => Some(p.0.spec_span()),
            None => None,
        });
        proof {
            assert(match gw1 {
                None => best is None,
                Some(b) => best matches Some(p) && b.0 == 1 && p.0 == Value::String(gc1->Some_0.0)
                    && p.1 == pos_at(pre.src, pre.file_id, gc1->Some_0.1.index) && b.1
                    == p.0.spec_span() && bw == gc1->Some_0.1,
            });
        }

        let mut probe2 = stream.clone();
        match Number::parse(&mut probe2) {
            Ok(n) => {
                proof {
                    lemma_wf_index(&probe2);
                    gc2 = Some((n, probe2@));
                }
                let pos = probe2.pos();
                let cand = Value::Number(n);
                let replace = match &best {
                    None => true,
                    Some((b, _)) => prefer_candidate(&cand.span(), &b.span()),
                };
                if replace {
                    proof {
                        bw = probe2@;
                    }
                    best = Some((cand, pos));
                }
            },
            Err(e) => {
                proof {
                    let ghost ge = e;
                    assert(number_ens(pre, probe2@, Err(ge)));
                }
                err = Some(e);
            },
        }
        let ghost gw2 = weigh(gw1, 2, match gc2 {
            Some(p) => Some(p.0.spec_span()),
            None => None,
        });
        proof {
            assert(json_value_candidates(pre, gc1, gc2));
            assert(gw2 == json_value_choice(gc1, gc2));
            assert(match gw2 {
                None => best is None,
                Some(b) => best matches Some(p) && b.1 == p.0.spec_span() && (if b.0 == 1 {
                    p.0 == Value::String(gc1->Some_0.0) && p.1 == pos_at(
                        pre.src,
                        pre.file_id,
                        gc1->Some_0.1.index,
                    ) && bw == gc1->Some_0.1
                } else {
                    b.0 == 2 && p.0 == Value::Number(gc2->Some_0.0) && p.1 == pos_at(
                        pre.src,
                        pre.file_id,
                        gc2->Some_0.1.index,
                    ) && bw == gc2->Some_0.1
                }),
            });
        }

        match best {
            Some((v, pos)) => {
                proof {
                    assert(json_value_variant(pre, bw, v));
                    assert(pos == pos_at(pre.src, pre.file_id, bw.index));
                    if start_of(pre) + 1 <= pre.src.len() {
                        lemma_scan_string_bounds(pre.src, start_of(pre) + 1);
                        lemma_scan_digits_bounds(pre.src, start_of(pre) + 1);
                    }
                    assert(pre.index < bw.index);
                }
                match stream.goto(pos) {
                    Ok(_) => {
                        proof {
                            assert(stream@ == committed(pre, bw.index));
                            assert(exists|m: StreamModel|
                                #![auto]
                                json_value_variant(pre, m, v) && stream@ == committed(
                                    pre,
                                    m.index,
                                ));
                        }
                        Ok(v)
                    },
                    Err(e) => Err(e),
                }
            },
            None => match err {
                Some(e) => Err(e),
                None => Err(ParseError::new("Did not find variant for value.", entry)),
            },
        }
    }

    fn span(&self) -> (s: Span) {
        match self {
            Value::String(sv) => sv.span(),
            Value::Number(n) => n.span(),
        }
    }
}

/// One node accepted inside a list or an object entry: it consumed
/// characters, only moved the cursor, and is well formed.
pub open spec fn node_step(m0: StreamModel, m1: StreamModel, node: JSONNode) -> bool {
    m0.index < m1.index && m1 == committed(m0, m1.index) && node_wf(node)
}

/// The states a list's node-and-comma pairs pass through, in
/// sequence.
pub open spec fn json_pairs_run(
    m0: StreamModel,
    mk: StreamModel,
    items: Seq<(Box<JSONNode>, Comma)>,
) -> bool
    decreases items.len(),
{
    if items.len() == 0 {
        mk == m0
    } else {
        exists|m1: StreamModel, m2: StreamModel|
            (#[trigger] node_step(m0, m1, *items[0].0)) && (#[trigger] token_ens(
                ","@,
                m1,
                m2,
                Ok(items[0].1.span),
            )) && json_pairs_run(m2, mk, items.drop_first())
    }
}

/// A whole list body: the separated pairs, then either a trailing
/// node with no comma after it, or a stop where no further node was
/// read.
pub open spec fn json_list_items_run(
    m0: StreamModel,
    post: StreamModel,
    items: Seq<(Box<JSONNode>, Comma)>,
    last: Option<Box<JSONNode>>,
) -> bool {
    match last {
        Some(b) => exists|mk: StreamModel|
            (#[trigger] json_pairs_run(m0, mk, items)) && node_step(mk, post, *b)
                && !token_match(post, ","@),
        None => json_pairs_run(m0, post, items),
    }
}

/// What reading a bracketed list means: the opening bracket, one
/// greedy run of node-and-comma pairs with an optional trailing node,
/// and the closing bracket, in sequence. A read that does not face an
/// opening bracket fails without consuming anything; one that does,
/// but finds no closing bracket after its run, fails there.
pub open spec fn json_list_ens(
    pre: StreamModel,
    post: StreamModel,
    r: Result<JSONList, ParseError>,
) -> bool {
    &&& pre.index <= post.index <= pre.src.len()
    &&& (!token_match(pre, "["@) ==> r is Err && post == pre)
    &&& (match r {
        Ok(v) => pre.index < post.index && exists|ms: StreamModel, me: StreamModel|
            (#[trigger] token_ens("["@, pre, ms, Ok(v.list.delimiter.start.span)))
                && json_list_items_run(ms, me, v.list.item.items@, v.list.item.last_item) && (
            #[trigger] token_ens("]"@, me, post, Ok(v.list.delimiter.end.span)))
                && v.list.item.span
                == (Span {
                start: pos_at(pre.src, pre.file_id, ms.index),
                end: pos_at(pre.src, pre.file_id, me.index),
            }),
        Err(_) => token_match(pre, "["@) ==> exists|
            ms: StreamModel,
            me: StreamModel,
            sp: Span,
            items: Seq<(Box<JSONNode>, Comma)>,
            last: Option<Box<JSONNode>>,
        |
            (#[trigger] token_ens("["@, pre, ms, Ok(sp))) && (#[trigger] json_list_items_run(
                ms,
                me,
                items,
                last,
            )) && !token_match(me, "]"@) && post == me,
    })
}

/// What reading one object entry means: a string name, a colon and a
/// node, in sequence, stopping at the first failure.
pub open spec fn json_entry_ens(
    pre: StreamModel,
    post: StreamModel,
    r: Result<NamedValue, ParseError>,
) -> bool {
    &&& pre.index <= post.index <= pre.src.len()
    &&& (match r {
        Ok(v) => pre.index < post.index && exists|m1: StreamModel, m2: StreamModel|
            (#[trigger] string_ens(pre, m1, Ok(v.name))) && (#[trigger] token_ens(
                ":"@,
                m1,
                m2,
                Ok(v.colon.span),
            )) && node_step(m2, post, *v.value),
        Err(e) => {
            ||| string_ens(pre, post, Err(e))
            ||| exists|m1: StreamModel, nm: StringValue|
                (#[trigger] string_ens(pre, m1, Ok(nm))) && !token_match(m1, ":"@) && post == m1
            ||| exists|m1: StreamModel, m2: StreamModel, nm: StringValue, sp: Span|
                (#[trigger] string_ens(pre, m1, Ok(nm))) && (#[trigger] token_ens(
                    ":"@,
                    m1,
                    m2,
                    Ok(sp),
                )) && post == m2
        },
    })
}

/// One entry accepted inside an object: it consumed characters and
/// reads as a name, a colon and a node.
pub open spec fn entry_step(m0: StreamModel, m1: StreamModel, v: NamedValue) -> bool {
    json_entry_ens(m0, m1, Ok(v))
}

/// The states an object's entry-and-comma pairs pass through, in
/// sequence.
pub open spec fn json_entries_run(
    m0: StreamModel,
    mk: StreamModel,
    items: Seq<(NamedValue, Comma)>,
) -> bool
    decreases items.len(),
{
    if items.len() == 0 {
        mk == m0
    } else {
        exists|m1: StreamModel, m2: StreamModel|
            (#[trigger] entry_step(m0, m1, items[0].0)) && (#[trigger] token_ens(
                ","@,
                m1,
                m2,
                Ok(items[0].1.span),
            )) && json_entries_run(m2, mk, items.drop_first())
    }
}

/// A whole object body, in the same shape as a list body.
pub open spec fn json_object_items_run(
    m0: StreamModel,
    post: StreamModel,
    items: Seq<(NamedValue, Comma)>,
    last: Option<NamedValue>,
) -> bool {
    match last {
        Some(v) => exists|mk: StreamModel|
            (#[trigger] json_entries_run(m0, mk, items)) && entry_step(mk, post, v)
                && !token_match(post, ","@),
        None => json_entries_run(m0, post, items),
    }
}

/// What reading a braced object means, in the same shape as a
/// bracketed list, over name-colon-node entries.
pub open spec fn json_object_ens(
    pre: StreamModel,
    post: StreamModel,
    r: Result<JSONObject, ParseError>,
) -> bool {
    &&& pre.index <= post.index <= pre.src.len()
    &&& (!token_match(pre, "{"@) ==> r is Err && post == pre)
    &&& (match r {
        Ok(v) => pre.index < post.index && exists|ms: StreamModel, me: StreamModel|
            (#[trigger] token_ens("{"@, pre, ms, Ok(v.map.delimiter.start.span)))
                && json_object_items_run(ms, me, v.map.item.items@, v.map.item.last_item) && (
            #[trigger] token_ens("}"@, me, post, Ok(v.map.delimiter.end.span)))
                && v.map.item.span
                == (Span {
                start: pos_at(pre.src, pre.file_id, ms.index),
                end: pos_at(pre.src, pre.file_id, me.index),
            }),
        Err(_) => true,
    })
}

/// One more accepted pair extends a list run.
proof fn lemma_json_pairs_snoc(
    m0: StreamModel,
    mk: StreamModel,
    m1: StreamModel,
    m2: StreamModel,
    items: Seq<(Box<JSONNode>, Comma)>,
    b: Box<JSONNode>,
    c: Comma,
)
    requires
        json_pairs_run(m0, mk, items),
        node_step(mk, m1, *b),
        token_ens(","@, m1, m2, Ok(c.span)),
    ensures
        json_pairs_run(m0, m2, items.push((b, c))),
    decreases items.len(),
{
    let p = items.push((b, c));
    if items.len() == 0 {
        assert(p[0] == (b, c));
        assert(p.drop_first() =~= Seq::<(Box<JSONNode>, Comma)>::empty());
        assert(node_step(m0, m1, *p[0].0));
        assert(token_ens(","@, m1, m2, Ok(p[0].1.span)));
        assert(json_pairs_run(m2, m2, p.drop_first()));
    } else {
        let (w1, w2) = choose|w1: StreamModel, w2: StreamModel|
            (#[trigger] node_step(m0, w1, *items[0].0)) && (#[trigger] token_ens(
                ","@,
                w1,
                w2,
                Ok(items[0].1.span),
            )) && json_pairs_run(w2, mk, items.drop_first());
        lemma_json_pairs_snoc(w2, mk, m1, m2, items.drop_first(), b, c);
        assert(p.drop_first() =~= items.drop_first().push((b, c)));
        assert(p[0] == items[0]);
        assert(node_step(m0, w1, *p[0].0));
        assert(token_ens(","@, w1, w2, Ok(p[0].1.span)));
        assert(json_pairs_run(w2, m2, p.drop_first()));
    }
}

/// One more accepted pair extends an object run.
proof fn lemma_json_entries_snoc(
    m0: StreamModel,
    mk: StreamModel,
    m1: StreamModel,
    m2: StreamModel,
    items: Seq<(NamedValue, Comma)>,
    v: NamedValue,
    c: Comma,
)
    requires
        json_entries_run(m0, mk, items),
        entry_step(mk, m1, v),
        token_ens(","@, m1, m2, Ok(c.span)),
    ensures
        json_entries_run(m0, m2, items.push((v, c))),
    decreases items.len(),
{
    let p = items.push((v, c));
    if items.len() == 0 {
        assert(p[0] == (v, c));
        assert(p.drop_first() =~= Seq::<(NamedValue, Comma)>::empty());
        assert(entry_step(m0, m1, p[0].0));
        assert(token_ens(","@, m1, m2, Ok(p[0].1.span)));
        assert(json_entries_run(m2, m2, p.drop_first()));
    } else {
        let (w1, w2) = choose|w1: StreamModel, w2: StreamModel|
            (#[trigger] entry_step(m0, w1, items[0].0)) && (#[trigger] token_ens(
                ","@,
                w1,
                w2,
                Ok(items[0].1.span),
            )) && json_entries_run(w2, mk, items.drop_first());
        lemma_json_entries_snoc(w2, mk, m1, m2, items.drop_first(), v, c);
        assert(p.drop_first() =~= items.drop_first().push((v, c)));
        assert(p[0] == items[0]);
        assert(entry_step(m0, w1, p[0].0));
        assert(token_ens(","@, w1, w2, Ok(p[0].1.span)));
        assert(json_entries_run(w2, m2, p.drop_first()));
    }
}

/// The outcome of each node alternative, tried from `pre`, each
/// vouched by its own contract.
pub open spec fn node_candidates(
    pre: StreamModel,
    c1: Option<(JSONList, StreamModel)>,
    c2: Option<(JSONObject, StreamModel)>,
    c3: Option<(Value, StreamModel)>,
) -> bool {
    &&& match c1 {
        Some(p) => json_list_ens(pre, p.1, Ok(p.0)),
        None => exists|w: StreamModel, e: ParseError| #![auto] json_list_ens(pre, w, Err(e)),
    }
    &&& match c2 {
        Some(p) => json_object_ens(pre, p.1, Ok(p.0)),
        None => exists|w: StreamModel, e: ParseError| #![auto] json_object_ens(pre, w, Err(e)),
    }
    &&& match c3 {
        Some(p) => <Value as Parse>::parse_ens(pre, p.1, Ok(p.0)),
        None => exists|w: StreamModel, e: ParseError|
            #![auto]
            <Value as Parse>::parse_ens(pre, w, Err(e)),
    }
}

/// Which node alternative the selection rule picks.
pub open spec fn node_choice(
    c1: Option<(JSONList, StreamModel)>,
    c2: Option<(JSONObject, StreamModel)>,
    c3: Option<(Value, StreamModel)>,
) -> Option<(int, Span)> {
    let s1 = match c1 {
        Some(p) => Some(
            Span {
                start: p.0.list.delimiter.start.span.start,
                end: p.0.list.delimiter.end.span.end,
            },
        ),
        None => None,
    };
    let s2 = match c2 {
        Some(p) => Some(
            Span {
                start: p.0.map.delimiter.start.span.start,
                end: p.0.map.delimiter.end.span.end,
            },
        ),
        None => None,
    };
    let s3 = match c3 {
        Some(p) => Some(
            match p.0 {
                Value::String(sv) => sv.spec_span(),
                Value::Number(n) => n.spec_span(),
            },
        ),
        None => None,
    };
    weigh(weigh(weigh(None, 1, s1), 2, s2), 3, s3)
}

/// What parsing one node means: each alternative was tried from the
/// entry state, the selection rule picked the winner among the
/// successful ones, the winner's value was returned and the cursor
/// committed to its end; the read fails exactly when every
/// alternative failed, and then consumes nothing.
pub open spec fn json_node_ens(
    pre: StreamModel,
    post: StreamModel,
    r: Result<JSONNode, ParseError>,
) -> bool {
    &&& (r is Ok ==> pre.index < post.index && post == committed(pre, post.index))
    &&& (r matches Ok(v) ==> node_wf(v))
    &&& (r is Err ==> post == pre)
    &&& exists|
        c1: Option<(JSONList, StreamModel)>,
        c2: Option<(JSONObject, StreamModel)>,
        c3: Option<(Value, StreamModel)>,
    |
        #![auto]
        node_candidates(pre, c1, c2, c3) && (match node_choice(c1, c2, c3) {
            None => r is Err,
            Some(b) => r matches Ok(v) && (if b.0 == 1 {
                v == JSONNode::List(c1->Some_0.0) && post == committed(pre, c1->Some_0.1.index)
            } else if b.0 == 2 {
                v == JSONNode::Object(c2->Some_0.0) && post == committed(pre, c2->Some_0.1.index)
            } else {
                v == JSONNode::Value(c3->Some_0.0) && post == committed(pre, c3->Some_0.1.index)
            }),
        })
}

/// Parse one JSON node from the cursor: the recursive spine of the
/// grammar. Alternatives run on speculative cursors; the chosen one is
/// committed.
fn parse_node(stream: &mut CharStream) -> (r: Result<JSONNode, ParseError>)
    requires
        old(stream).wf(),
    ensures
        final(stream).wf(),
        final(stream)@.src == old(stream)@.src,
        final(stream)@.file_id == old(stream)@.file_id,
        final(stream)@.whitespace == old(stream)@.whitespace,
        final(stream)@.indent_size == old(stream)@.indent_size,
        old(stream)@.index <= final(stream)@.index <= final(stream)@.src.len(),
        json_node_ens(old(stream)@, final(stream)@, r),
    decreases old(stream)@.src.len() - old(stream)@.index, 3int,
{
    proof {
        lemma_wf_index(stream);
    }
    let entry = stream.pos();
    let ghost pre = stream@;
    let mut best: Option<(JSONNode, Position)> = None;
    let ghost mut bw: StreamModel = stream@;
    let mut err: Option<ParseError> = None;
    let ghost mut gc1: Option<(JSONList, StreamModel)> = None;
    let ghost mut gc2: Option<(JSONObject, StreamModel)> = None;
    let ghost mut gc3: Option<(Value, StreamModel)> = None;

    let mut probe1 = stream.clone();
    match parse_list(&mut probe1) {
        Ok(l) => {
            proof {
                lemma_wf_index(&probe1);
                bw = probe1@;
                gc1 = Some((l, probe1@));
            }
            let pos = probe1.pos();
            best = Some((JSONNode::List(l), pos));
        },
        Err(e) => {
            proof {
                let ghost ge = e;
                assert(json_list_ens(pre, probe1@, Err(ge)));
            }
            err = Some(e);
        },
    }
    let ghost gw1 = weigh(None, 1, match gc1 {
        Some(p) => Some(
            Span {
                start: p.0.list.delimiter.start.span.start,
                end: p.0.list.delimiter.end.span.end,
            },
        ),
        None => None,
    });
    proof {
        assert(match gw1 {
            None => best is None,
            Some(b) => best matches Some(p) && b.0 == 1 && p.0 == JSONNode::List(gc1->Some_0.0)
                && p.1 == pos_at(pre.src, pre.file_id, gc1->Some_0.1.index) && bw
                == gc1->Some_0.1,
        });
    }

    let mut probe2 = stream.clone();
    match parse_object(&mut probe2) {
        Ok(o) => {
            proof {
                lemma_wf_index(&probe2);
                gc2 = Some((o, probe2@));
            }
            let pos = probe2.pos();
            let cand = JSONNode::Object(o);
            let replace = match &best {
                None => true,
                Some((b, _)) => prefer_candidate(&cand.span(), &b.span()),
            };
            if replace {
                proof {
                    bw = probe2@;
                }
                best = Some((cand, pos));
            }
        },
        Err(e) => {
            proof {
                let ghost ge = e;
                assert(json_object_ens(pre, probe2@, Err(ge)));
            }
            err = Some(e);
        },
    }
    let ghost gw2 = weigh(gw1, 2, match gc2 {
        Some(p) => Some(
            Span {
                start: p.0.map.delimiter.start.span.start,
                end: p.0.map.delimiter.end.span.end,
            },
        ),
        None => None,
    });
    proof {
        assert(match gw2 {
            None => best is None,
            Some(b) => best matches Some(p) && (if b.0 == 1 {
                p.0 == JSONNode::List(gc1->Some_0.0) && p.1 == pos_at(
                    pre.src,
                    pre.file_id,
                    gc1->Some_0.1.index,
                ) && bw == gc1->Some_0.1
            } else {
                b.0 == 2 && p.0 == JSONNode::Object(gc2->Some_0.0) && p.1 == pos_at(
                    pre.src,
                    pre.file_id,
                    gc2->Some_0.1.index,
                ) && bw == gc2->Some_0.1
            }),
        });
    }

    let mut probe3 = stream.clone();
    match Value::parse(&mut probe3) {
        Ok(v) => {
            proof {
                lemma_wf_index(&probe3);
                gc3 = Some((v, probe3@));
            }
            let pos = probe3.pos();
            let cand = JSONNode::Value(v);
            let replace = match &best {
                None => true,
                Some((b, _)) => prefer_candidate(&cand.span(), &b.span()),
            };
            if replace {
                proof {
                    bw = probe3@;
                }
                best = Some((cand, pos));
            }
        },
        Err(e) => {
            proof {
                let ghost ge = e;
                assert(<Value as Parse>::parse_ens(pre, probe3@, Err(ge)));
            }
            err = Some(e);
        },
    }
    let ghost gw3 = weigh(gw2, 3, match gc3 {
        Some(p) => Some(
            match p.0 {
                Value::String(sv) => sv.spec_span(),
                Value::Number(n) => n.spec_span(),
            },
        ),
        None => None,
    });
    proof {
        assert(node_candidates(pre, gc1, gc2, gc3));
        assert(gw3 == node_choice(gc1, gc2, gc3));
        assert(match gw3 {
            None => best is None,
            Some(b) => best matches Some(p) && (if b.0 == 1 {
                p.0 == JSONNode::List(gc1->Some_0.0) && p.1 == pos_at(
                    pre.src,
                    pre.file_id,
                    gc1->Some_0.1.index,
                ) && bw == gc1->Some_0.1
            } else if b.0 == 2 {
                p.0 == JSONNode::Object(gc2->Some_0.0) && p.1 == pos_at(
                    pre.src,
                    pre.file_id,
                    gc2->Some_0.1.index,
                ) && bw == gc2->Some_0.1
            } else {
                b.0 == 3 && p.0 == JSONNode::Value(gc3->Some_0.0) && p.1 == pos_at(
                    pre.src,
                    pre.file_id,
                    gc3->Some_0.1.index,
                ) && bw == gc3->Some_0.1
            }),
        });
    }

    match best {
        Some((v, pos)) => {
            proof {
                assert(pre.index < bw.index);
                assert(pos == pos_at(pre.src, pre.file_id, bw.index));
            }
            match stream.goto(pos) {
                Ok(_) => {
                    proof {
                        assert(stream@ == committed(pre, bw.index));
                    }
                    Ok(v)
                },
                Err(e) => Err(e),
            }
        },
        None => match err {
            Some(e) => Err(e),
            None => Err(ParseError::new("Did not find variant for node.", entry)),
        },
    }
}

/// Parse a bracketed, comma-separated list of nodes.
fn parse_list(stream: &mut CharStream) -> (r: Result<JSONList, ParseError>)
    requires
        old(stream).wf(),
    ensures
        final(stream).wf(),
        final(stream)@.src == old(stream)@.src,
        final(stream)@.file_id == old(stream)@.file_id,
        final(stream)@.whitespace == old(stream)@.whitespace,
        final(stream)@.indent_size == old(stream)@.indent_size,
        json_list_ens(old(stream)@, final(stream)@, r),
    decreases old(stream)@.src.len() - old(stream)@.index, 2int,
{
    proof {
        lemma_wf_index(stream);
        lemma_next_data_bounds(stream@.src, stream@.index);
        reveal_strlit("[");
    }
    let ghost pre = stream@;
    let start = match LeftBracket::parse(stream) {
        Ok(t) => t,
        Err(e) => {
            return Err(e);
        },
    };
    let ghost gstart = start;
    proof {
        crate::parsing::tokens::Token::parse_ens_inv(pre, stream@, Ok(gstart));
    }
    let ghost ms = stream@;
    let list_start = stream.pos();
    let mut items: Vec<(Box<JSONNode>, Comma)> = Vec::new();
    let mut last_item: Option<Box<JSONNode>> = None;
    loop
        invariant_except_break
            last_item is None,
            json_pairs_run(ms, stream@, items@),
        invariant
            pre == old(stream)@,
            stream.wf(),
            stream@.src == pre.src,
            stream@.file_id == pre.file_id,
            stream@.whitespace == pre.whitespace,
            stream@.indent_size == pre.indent_size,
            0 <= pre.index < ms.index <= stream@.index <= stream@.src.len(),
        ensures
            pre == old(stream)@,
            stream.wf(),
            stream@.src == pre.src,
            stream@.file_id == pre.file_id,
            stream@.whitespace == pre.whitespace,
            stream@.indent_size == pre.indent_size,
            pre.index < ms.index <= stream@.index <= stream@.src.len(),
            json_list_items_run(ms, stream@, items@, last_item),
        decreases stream@.src.len() + 1 - stream@.index,
    {
        let ghost m_entry = stream@;
        let mut probe = stream.clone();
        let node = match parse_node(&mut probe) {
            Err(_) => {
                break ;
            },
            Ok(v) => v,
        };
        let item = Box::new(node);
        let ghost gitem = item;
        proof {
            assert(node_step(m_entry, probe@, *gitem));
        }
        *stream = probe;
        let ghost mid = stream@;
        let mut probe2 = stream.clone();
        match Comma::parse(&mut probe2) {
            Err(e) => {
                let ghost ge = e;
                proof {
                    assert(token_ens(","@, mid, probe2@, Err(ge)));
                    assert(!token_match(mid, ","@));
                }
                last_item = Some(item);
                break ;
            },
            Ok(sep) => {
                let ghost gsep = sep;
                proof {
                    Comma::parse_ens_inv(mid, probe2@, Ok(gsep));
                }
                *stream = probe2;
                let ghost old_items = items@;
                items.push((item, sep));
                proof {
                    lemma_json_pairs_snoc(ms, m_entry, mid, probe2@, old_items, gitem, gsep);
                }
            },
        }
    }
    let ghost me = stream@;
    let list_end = stream.pos();
    let end = match RightBracket::parse(stream) {
        Ok(t) => t,
        Err(e) => {
            let ghost ge = e;
            proof {
                assert(token_ens("]"@, me, stream@, Err(ge)));
                assert(!token_match(me, "]"@));
                assert(token_ens("["@, pre, ms, Ok(gstart.span)));
            }
            return Err(e);
        },
    };
    let ghost gend = end;
    let delimiter = Bracket { start, end };
    let list = List { items, last_item, span: Span::new(list_start, list_end) };
    let result = JSONList { list: Group { delimiter, item: list } };
    proof {
        assert(token_ens("["@, pre, ms, Ok(result.list.delimiter.start.span)));
        assert(json_list_items_run(ms, me, result.list.item.items@, result.list.item.last_item));
        assert(token_ens("]"@, me, stream@, Ok(result.list.delimiter.end.span)));
        assert(result.list.item.span == (Span {
            start: pos_at(pre.src, pre.file_id, ms.index),
            end: pos_at(pre.src, pre.file_id, me.index),
        }));
    }
    Ok(result)
}

/// Parse a braced, comma-separated object of name-value entries.
fn parse_object(stream: &mut CharStream) -> (r: Result<JSONObject, ParseError>)
    requires
        old(stream).wf(),
    ensures
        final(stream).wf(),
        final(stream)@.src == old(stream)@.src,
        final(stream)@.file_id == old(stream)@.file_id,
        final(stream)@.whitespace == old(stream)@.whitespace,
        final(stream)@.indent_size == old(stream)@.indent_size,
        json_object_ens(old(stream)@, final(stream)@, r),
    decreases old(stream)@.src.len() - old(stream)@.index, 2int,
{
    proof {
        lemma_wf_index(stream);
        lemma_next_data_bounds(stream@.src, stream@.index);
        reveal_strlit("{");
    }
    let ghost pre = stream@;
    let start = match LeftBrace::parse(stream) {
        Ok(t) => t,
        Err(e) => {
            return Err(e);
        },
    };
    let ghost gstart = start;
    proof {
        crate::parsing::tokens::Token::parse_ens_inv(pre, stream@, Ok(gstart));
    }
    let ghost ms = stream@;
    let list_start = stream.pos();
    let mut items: Vec<(NamedValue, Comma)> = Vec::new();
    let mut last_item: Option<NamedValue> = None;
    loop
        invariant_except_break
            last_item is None,
            json_entries_run(ms, stream@, items@),
        invariant
            pre == old(stream)@,
            stream.wf(),
            stream@.src == pre.src,
            stream@.file_id == pre.file_id,
            stream@.whitespace == pre.whitespace,
            stream@.indent_size == pre.indent_size,
            0 <= pre.index < ms.index <= stream@.index <= stream@.src.len(),
        ensures
            pre == old(stream)@,
            stream.wf(),
            stream@.src == pre.src,
            stream@.file_id == pre.file_id,
            stream@.whitespace == pre.whitespace,
            stream@.indent_size == pre.indent_size,
            pre.index < ms.index <= stream@.index <= stream@.src.len(),
            json_object_items_run(ms, stream@, items@, last_item),
        decreases stream@.src.len() + 1 - stream@.index,
    {
        let ghost m_entry = stream@;
        let mut probe = stream.clone();
        let node = match parse_entry(&mut probe) {
            Err(_) => {
                break ;
            },
            Ok(v) => v,
        };
        let item = node;
        let ghost gitem = item;
        proof {
            assert(entry_step(m_entry, probe@, gitem));
        }
        *stream = probe;
        let ghost mid = stream@;
        let mut probe2 = stream.clone();
        match Comma::parse(&mut probe2) {
            Err(e) => {
                let ghost ge = e;
                proof {
                    assert(token_ens(","@, mid, probe2@, Err(ge)));
                    assert(!token_match(mid, ","@));
                }
                last_item = Some(item);
                break ;
            },
            Ok(sep) => {
                let ghost gsep = sep;
                proof {
                    Comma::parse_ens_inv(mid, probe2@, Ok(gsep));
                }
                *stream = probe2;
                let ghost old_items = items@;
                items.push((item, sep));
                proof {
                    lemma_json_entries_snoc(ms, m_entry, mid, probe2@, old_items, gitem, gsep);
                }
            },
        }
    }
    let ghost me = stream@;
    let list_end = stream.pos();
    let end = match RightBrace::parse(stream) {
        Ok(t) => t,
        Err(e) => {
            let ghost ge = e;
            proof {
                assert(token_ens("}"@, me, stream@, Err(ge)));
                assert(!token_match(me, "}"@));
                assert(token_ens("{"@, pre, ms, Ok(gstart.span)));
            }
            return Err(e);
        },
    };
    let ghost gend = end;
    let delimiter = Brace { start, end };
    let list = List { items, last_item, span: Span::new(list_start, list_end) };
    let result = JSONObject { map: Group { delimiter, item: list } };
    proof {
        assert(token_ens("{"@, pre, ms, Ok(result.map.delimiter.start.span)));
        assert(json_object_items_run(ms, me, result.map.item.items@, result.map.item.last_item));
        assert(token_ens("}"@, me, stream@, Ok(result.map.delimiter.end.span)));
        assert(result.map.item.span == (Span {
            start: pos_at(pre.src, pre.file_id, ms.index),
            end: pos_at(pre.src, pre.file_id, me.index),
        }));
    }
    Ok(result)
}

/// Parse one name-value entry of an object.
fn parse_entry(stream: &mut CharStream) -> (r: Result<NamedValue, ParseError>)
    requires
        old(stream).wf(),
    ensures
        final(stream).wf(),
        final(stream)@.src == old(stream)@.src,
        final(stream)@.file_id == old(stream)@.file_id,
        final(stream)@.whitespace == old(stream)@.whitespace,
        final(stream)@.indent_size == old(stream)@.indent_size,
        json_entry_ens(old(stream)@, final(stream)@, r),
    decreases old(stream)@.src.len() - old(stream)@.index, 2int,
{
    proof {
        lemma_wf_index(stream);
        lemma_next_data_bounds(stream@.src, stream@.index);
        reveal_strlit(":");
    }
    let ghost pre = stream@;
    let name = match StringValue::parse(stream) {
        Ok(v) => v,
        Err(e) => {
            return Err(e);
        },
    };
    let ghost gname = name;
    proof {
        if start_of(pre) + 1 <= pre.src.len() {
            lemma_scan_string_bounds(pre.src, start_of(pre) + 1);
        }
        assert(pre.index < stream@.index);
    }
    let ghost m1 = stream@;
    let colon = match Colon::parse(stream) {
        Ok(v) => v,
        Err(e) => {
            proof {
                assert(string_ens(pre, m1, Ok(gname)));
            }
            return Err(e);
        },
    };
    let ghost gcolon = colon;
    let ghost m2 = stream@;
    proof {
        lemma_wf_index(stream);
        assert(token_ens(":"@, m1, m2, Ok(gcolon.span)));
    }
    let value = match parse_node(stream) {
        Ok(v) => Box::new(v),
        Err(e) => {
            proof {
                assert(string_ens(pre, m1, Ok(gname)));
            }
            return Err(e);
        },
    };
    let entry = NamedValue { name, colon, value };
    proof {
        assert(string_ens(pre, m1, Ok(entry.name)));
        assert(token_ens(":"@, m1, m2, Ok(entry.colon.span)));
        assert(node_step(m2, stream@, *entry.value));
    }
    Ok(entry)
}

/// The trees whose scalars are well formed all the way down; parsing
/// yields only such trees.
pub open spec fn node_deep_wf(n: JSONNode) -> bool
    decreases n,
{
    match n {
        JSONNode::Value(v) => v.wf(),
        JSONNode::List(l) => {
            &&& (forall|k: int|
                0 <= k < l.list.item.items@.len() ==> node_deep_wf(
                    #[trigger] *l.list.item.items@[k].0,
                ))
            &&& (l.list.item.last_item matches Some(b) ==> node_deep_wf(*b))
        },
        JSONNode::Object(o) => {
            &&& (forall|k: int|
                0 <= k < o.map.item.items@.len() ==> node_deep_wf(
                    *(#[trigger] o.map.item.items@[k].0).value,
                ))
            &&& (o.map.item.last_item matches Some(v) ==> node_deep_wf(*v.value))
        },
    }
}

/// The nodes whose numbers all fit the machine word, so that the
/// whole tree can be projected into plain values.
pub open spec fn node_fits(n: JSONNode) -> bool
    decreases n,
{
    match n {
        JSONNode::Value(Value::String(_)) => true,
        JSONNode::Value(Value::Number(num)) => crate::parsing::digits_val(num@) <= usize::MAX,
        JSONNode::List(l) => {
            &&& (forall|k: int|
                0 <= k < l.list.item.items@.len() ==> node_fits(
                    #[trigger] *l.list.item.items@[k].0,
                ))
            &&& (l.list.item.last_item matches Some(b) ==> node_fits(*b))
        },
        JSONNode::Object(o) => {
            &&& (forall|k: int|
                0 <= k < o.map.item.items@.len() ==> node_fits(
                    *(#[trigger] o.map.item.items@[k].0).value,
                ))
            &&& (o.map.item.last_item matches Some(v) ==> node_fits(*v.value))
        },
    }
}

impl JSONNode {
    /// Project the parsed tree into the uniform node tree: strings and
    /// numbers become plain scalars, lists become node sequences, and
    /// objects become ordered name-node pairs. The projection exists
    /// exactly when every number in the tree fits the machine word.
    pub fn to_node(&self) -> (r: Option<Node>)
        requires
            node_deep_wf(*self),
        ensures
            r is Some <==> node_fits(*self),
            r matches Some(n) ==> (match *self {
                JSONNode::Value(_) => n is Value,
                JSONNode::List(_) => n is List,
                JSONNode::Object(_) => n is Object,
            }),
        decreases *self,
    {
        match self {
            JSONNode::Value(Value::String(sv)) => Some(Node::Value(PlainValue::String(sv.text()))),
            JSONNode::Value(Value::Number(num)) => match num.value() {
                Some(u) => Some(Node::Value(PlainValue::Number(u))),
                None => None,
            },
            JSONNode::List(l) => {
                let mut out: Vec<Node> = Vec::new();
                let n = l.list.item.items.len();
                let mut k: usize = 0;
                while k < n
                    invariant
                        *self == JSONNode::List(*l),
                        k <= n,
                        n == l.list.item.items@.len(),
                        node_deep_wf(JSONNode::List(*l)),
                        forall|t: int|
                            0 <= t < k ==> node_fits(#[trigger] *l.list.item.items@[t].0),
                    decreases n - k,
                {
                    proof {
                        vstd::std_specs::vec::axiom_vec_index_decreases(
                            l.list.item.items,
                            k as int,
                        );
                        assert(decreases_to!(*self => *l.list.item.items@[k as int].0));
                    }
                    match l.list.item.items[k].0.to_node() {
                        Some(node) => {
                            out.push(node);
                        },
                        None => {
                            return None;
                        },
                    }
                    k = k + 1;
                }
                match &l.list.item.last_item {
                    Some(b) => match b.to_node() {
                        Some(node) => {
                            out.push(node);
                        },
                        None => {
                            return None;
                        },
                    },
                    None => {},
                }
                Some(Node::List(out))
            },
            JSONNode::Object(o) => {
                let mut out: Vec<(String, Node)> = Vec::new();
                let n = o.map.item.items.len();
                let mut k: usize = 0;
                while k < n
                    invariant
                        *self == JSONNode::Object(*o),
                        k <= n,
                        n == o.map.item.items@.len(),
                        node_deep_wf(JSONNode::Object(*o)),
                        forall|t: int|
                            0 <= t < k ==> node_fits(*(#[trigger] o.map.item.items@[t].0).value),
                    decreases n - k,
                {
                    let entry = &o.map.item.items[k].0;
                    proof {
                        vstd::std_specs::vec::axiom_vec_index_decreases(
                            o.map.item.items,
                            k as int,
                        );
                        assert(decreases_to!(*self => *o.map.item.items@[k as int].0.value));
                    }
                    match entry.value.to_node() {
                        Some(node) => {
                            out.push((entry.name.text(), node));
                        },
                        None => {
                            return None;
                        },
                    }
                    k = k + 1;
                }
                match &o.map.item.last_item {
                    Some(entry) => match entry.value.to_node() {
                        Some(node) => {
                            out.push((entry.name.text(), node));
                        },
                        None => {
                            return None;
                        },
                    },
                    None => {},
                }
                Some(Node::Object(out))
            },
        }
    }
}

impl Parse for JSONList {
    open spec fn wf(&self) -> bool {
        true
    }

    open spec fn spec_span(&self) -> Span {
        self.list.delimiter.spec_span()
    }

    open spec fn parse_ens(
        pre: StreamModel,
        post: StreamModel,
        r: Result<JSONList, ParseError>,
    ) -> bool {
        json_list_ens(pre, post, r)
    }

    fn parse(stream: &mut CharStream) -> (r: Result<Self, ParseError>) {
        parse_list(stream)
    }

    fn span(&self) -> (s: Span) {
        self.list.delimiter.span()
    }
}

impl Parse for JSONObject {
    open spec fn wf(&self) -> bool {
        true
    }

    open spec fn spec_span(&self) -> Span {
        self.map.delimiter.spec_span()
    }

    open spec fn parse_ens(
        pre: StreamModel,
        post: StreamModel,
        r: Result<JSONObject, ParseError>,
    ) -> bool {
        json_object_ens(pre, post, r)
    }

    fn parse(stream: &mut CharStream) -> (r: Result<Self, ParseError>) {
        parse_object(stream)
    }

    fn span(&self) -> (s: Span) {
        self.map.delimiter.span()
    }
}

impl Parse for NamedValue {
    open spec fn wf(&self) -> bool {
        node_wf(*self.value)
    }

    open spec fn spec_span(&self) -> Span {
        Span { start: self.name.spec_span().start, end: self.value.spec_span().end }
    }

    open spec fn parse_ens(
        pre: StreamModel,
        post: StreamModel,
        r: Result<NamedValue, ParseError>,
    ) -> bool {
        json_entry_ens(pre, post, r)
    }

    fn parse(stream: &mut CharStream) -> (r: Result<Self, ParseError>) {
        parse_entry(stream)
    }

    fn span(&self) -> (s: Span) {
        Span::new(self.name.span().start, self.value.span().end)
    }
}

impl Parse for JSONNode {
    open spec fn wf(&self) -> bool {
        node_wf(*self)
    }

    open spec fn spec_span(&self) -> Span {
        match self {
            JSONNode::List(l) => l.list.delimiter.spec_span(),
            JSONNode::Object(o) => o.map.delimiter.spec_span(),
            JSONNode::Value(v) => v.spec_span(),
        }
    }

    open spec fn parse_ens(
        pre: StreamModel,
        post: StreamModel,
        r: Result<JSONNode, ParseError>,
    ) -> bool {
        json_node_ens(pre, post, r)
    }

    fn parse(stream: &mut CharStream) -> (r: Result<Self, ParseError>) {
        parse_node(stream)
    }

    fn span(&self) -> (s: Span) {
        match self {
            JSONNode::List(l) => l.list.delimiter.span(),
            JSONNode::Object(o) => o.map.delimiter.span(),
            JSONNode::Value(v) => v.span(),
        }
    }
}

} // verus!
