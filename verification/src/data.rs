//! Grid-shaped data formats over the lexed-token vocabulary: rows of
//! cell tokens separated by a column separator and ended by a line
//! break.

use vstd::prelude::*;

use crate::parsing::token::{Token, TokenView};
use crate::parsing::ParseError;
use crate::parsing::charstream::Position;

verus! {

/// One row of cells.
pub struct Row {
    pub values: Vec<Token>,
}

/// The tokens a cell may hold.
pub open spec fn is_cell(t: TokenView) -> bool {
    match t {
        TokenView::String(_) => true,
        TokenView::Number(_) => true,
        TokenView::Keyword(_) => true,
        TokenView::Identifier(_) => true,
        _ => false,
    }
}

/// The tokens that end a row: a line break, bare or carriage-returned.
pub open spec fn is_row_end(t: TokenView) -> bool {
    t == TokenView::WhiteSpace("\n"@) || t == TokenView::WhiteSpace("\r\n"@)
}

/// The token that separates two cells: a comma operator, or a tab when
/// the grid is tab-separated.
pub open spec fn is_sep(tab: bool, t: TokenView) -> bool {
    if tab {
        t == TokenView::WhiteSpace("\t"@)
    } else {
        t == TokenView::Operator(","@)
    }
}

/// What one row holds, read from index `i`: its cells and the index
/// after it, or nothing where the tokens do not shape a row.
pub open spec fn row_scan(tab: bool, toks: Seq<TokenView>, i: int) -> Option<(Seq<TokenView>, int)>
    decreases toks.len() - i,
{
    if i < 0 || i >= toks.len() {
        Some((Seq::empty(), if i < 0 {
            i
        } else {
            toks.len() as int
        }))
    } else if !is_cell(toks[i]) {
        None
    } else if i + 1 >= toks.len() {
        Some((seq![toks[i]], i + 1))
    } else if is_row_end(toks[i + 1]) {
        Some((seq![toks[i]], i + 2))
    } else if is_sep(tab, toks[i + 1]) {
        match row_scan(tab, toks, i + 2) {
            Some(rest) => Some((seq![toks[i]] + rest.0, rest.1)),
            None => None,
        }
    } else {
        None
    }
}

/// A format whose data is a grid: single cells and whole rows are read
/// off a lexed token sequence.
pub trait GridData: Sized {
    /// Whether the grid separates cells with tabs rather than commas.
    spec fn spec_tab_separated() -> bool;

    fn parse_data(tokens: &Vec<Token>, at: &mut usize) -> (r: Result<Token, ParseError>)
        requires
            old(at) <= tokens@.len(),
        ensures
            *final(at) <= tokens@.len(),
            if *old(at) < tokens@.len() && is_cell(tokens@[*old(at) as int]@) {
                r matches Ok(t) && t@ == tokens@[*old(at) as int]@ && *final(at) == *old(at) + 1
            } else {
                r is Err && *final(at) == *old(at)
            },
    ;

    fn parse_row(tokens: &Vec<Token>, at: &mut usize) -> (r: Result<Row, ParseError>)
        requires
            old(at) <= tokens@.len(),
        ensures
            *final(at) <= tokens@.len(),
            match row_scan(
                Self::spec_tab_separated(),
                tokens@.map_values(|t: Token| t@),
                *old(at) as int,
            ) {
                Some(row) => r matches Ok(v) && v.values@.map_values(|t: Token| t@) == row.0
                    && *final(at) == row.1,
                None => r is Err,
            },
    ;
}

/// Parse one cell: the token under the cursor, when it is one a cell
/// may hold.
fn parse_cell(tokens: &Vec<Token>, at: &mut usize) -> (r: Result<Token, ParseError>)
    requires
        old(at) <= tokens@.len(),
    ensures
        *final(at) <= tokens@.len(),
        if *old(at) < tokens@.len() && is_cell(tokens@[*old(at) as int]@) {
            r matches Ok(t) && t@ == tokens@[*old(at) as int]@ && *final(at) == *old(at) + 1
        } else {
            r is Err && *final(at) == *old(at)
        },
{
    if *at < tokens.len() {
        let ok = match &tokens[*at] {
            Token::String(_) => true,
            Token::Number(_) => true,
            Token::Keyword(_) => true,
            Token::Identifier(_) => true,
            _ => false,
        };
        if ok {
            let t = tokens[*at].clone();
            *at = *at + 1;
            return Ok(t);
        }
    }
    Err(ParseError::new("Expected a value.", Position::unbound()))
}

/// Whether the token under the cursor ends a row.
fn at_row_end(tokens: &Vec<Token>, at: usize) -> (b: bool)
    requires
        at <= tokens@.len(),
    ensures
        b == (at < tokens@.len() && is_row_end(tokens@[at as int]@)),
{
    if at < tokens.len() {
        match &tokens[at] {
            Token::WhiteSpace(v) => {
                let nl = String::from_str("\n");
                let crnl = String::from_str("\r\n");
                *v == nl || *v == crnl
            },
            _ => false,
        }
    } else {
        false
    }
}

/// Whether the token under the cursor separates two cells.
fn at_sep(tab: bool, tokens: &Vec<Token>, at: usize) -> (b: bool)
    requires
        at <= tokens@.len(),
    ensures
        b == (at < tokens@.len() && is_sep(tab, tokens@[at as int]@)),
{
    if at < tokens.len() {
        if tab {
            match &tokens[at] {
                Token::WhiteSpace(v) => {
                    let t = String::from_str("\t");
                    *v == t
                },
                _ => false,
            }
        } else {
            match &tokens[at] {
                Token::Operator(v) => {
                    let c = String::from_str(",");
                    *v == c
                },
                _ => false,
            }
        }
    } else {
        false
    }
}

/// Read one row: cells separated by the given separator, ended by a
/// line break or by the end of the tokens.
fn read_row(tab: bool, tokens: &Vec<Token>, at: &mut usize) -> (r: Result<Row, ParseError>)
    requires
        old(at) <= tokens@.len(),
    ensures
        *final(at) <= tokens@.len(),
        match row_scan(tab, tokens@.map_values(|t: Token| t@), *old(at) as int) {
            Some(row) => r matches Ok(v) && v.values@.map_values(|t: Token| t@) == row.0
                && *final(at) == row.1,
            None => r is Err,
        },
{
    let ghost views = tokens@.map_values(|t: Token| t@);
    let mut values: Vec<Token> = Vec::new();
    proof {
        assert(values@.map_values(|t: Token| t@) =~= Seq::<TokenView>::empty());
    }
    loop
        invariant_except_break
            row_scan(tab, views, *old(at) as int) == (match row_scan(tab, views, *at as int) {
                Some(rest) => Some::<(Seq<TokenView>, int)>(
                    (values@.map_values(|t: Token| t@) + rest.0, rest.1),
                ),
                None => None::<(Seq<TokenView>, int)>,
            }),
        invariant
            *at <= tokens@.len(),
            views == tokens@.map_values(|t: Token| t@),
        ensures
            *at <= tokens@.len(),
            match row_scan(tab, views, *old(at) as int) {
                Some(row) => values@.map_values(|t: Token| t@) == row.0 && *at == row.1,
                None => false,
            },
        decreases tokens@.len() - *at,
    {
        let ghost i = *at as int;
        let ghost acc = values@.map_values(|t: Token| t@);
        if *at >= tokens.len() {
            proof {
                assert(acc + Seq::<TokenView>::empty() =~= acc);
            }
            break ;
        }
        let cell = match parse_cell(tokens, at) {
            Ok(t) => t,
            Err(e) => {
                return Err(e);
            },
        };
        let ghost gcell = cell@;
        values.push(cell);
        proof {
            assert(values@.map_values(|t: Token| t@) =~= acc.push(views[i]));
        }
        if at_row_end(tokens, *at) {
            *at = *at + 1;
            proof {
                assert(seq![views[i]] =~= Seq::<TokenView>::empty().push(views[i]));
                assert(acc + seq![views[i]] =~= acc.push(views[i]));
            }
            break ;
        }
        if *at >= tokens.len() {
            proof {
                assert(seq![views[i]] =~= Seq::<TokenView>::empty().push(views[i]));
                assert(acc + seq![views[i]] =~= acc.push(views[i]));
            }
            break ;
        }
        if at_sep(tab, tokens, *at) {
            *at = *at + 1;
            proof {
                assert(forall|rest: Seq<TokenView>|
                    acc + (#[trigger] (seq![views[i]] + rest)) =~= acc.push(views[i]) + rest);
            }
        } else {
            return Err(ParseError::new("Expected a separator.", Position::unbound()));
        }
    }
    Ok(Row { values })
}

/// What a whole grid holds, read from index `i`: its rows, or nothing
/// where some row is malformed.
pub open spec fn grid_scan(tab: bool, toks: Seq<TokenView>, i: int) -> Option<
    Seq<Seq<TokenView>>,
>
    decreases toks.len() - i,
{
    if i < 0 {
        None
    } else if i >= toks.len() {
        Some(Seq::empty())
    } else {
        match row_scan(tab, toks, i) {
            None => None,
            Some(row) => if i < row.1 <= toks.len() {
                match grid_scan(tab, toks, row.1) {
                    None => None,
                    Some(rest) => Some(seq![row.0] + rest),
                }
            } else {
                None
            },
        }
    }
}

/// A comma-separated grid.
pub struct CSV {
    pub values: Vec<Row>,
}

impl GridData for CSV {
    open spec fn spec_tab_separated() -> bool {
        false
    }

    fn parse_data(tokens: &Vec<Token>, at: &mut usize) -> (r: Result<Token, ParseError>) {
        parse_cell(tokens, at)
    }

    fn parse_row(tokens: &Vec<Token>, at: &mut usize) -> (r: Result<Row, ParseError>) {
        read_row(false, tokens, at)
    }
}

impl CSV {
    /// Parse a whole comma-separated grid: rows until the tokens end.
    pub fn parse_tokens(tokens: &Vec<Token>) -> (r: Result<CSV, ParseError>)
        ensures
            match grid_scan(false, tokens@.map_values(|t: Token| t@), 0) {
                Some(rows) => r matches Ok(v) && v.values@.map_values(
                    |w: Row| w.values@.map_values(|t: Token| t@),
                ) == rows,
                None => r is Err,
            },
    {
        let ghost views = tokens@.map_values(|t: Token| t@);
        let mut rows: Vec<Row> = Vec::new();
        let mut at: usize = 0;
        proof {
            assert(rows@.map_values(|w: Row| w.values@.map_values(|t: Token| t@))
                =~= Seq::<Seq<TokenView>>::empty());
        }
        while at < tokens.len()
            invariant
                at <= tokens@.len(),
                views == tokens@.map_values(|t: Token| t@),
                grid_scan(false, views, 0) == (match grid_scan(false, views, at as int) {
                    Some(rest) => Some::<Seq<Seq<TokenView>>>(
                        rows@.map_values(|w: Row| w.values@.map_values(|t: Token| t@)) + rest,
                    ),
                    None => None::<Seq<Seq<TokenView>>>,
                }),
            decreases tokens@.len() - at,
        {
            let ghost before = at;
            let ghost acc = rows@.map_values(|w: Row| w.values@.map_values(|t: Token| t@));
            let row = match read_row(false, tokens, &mut at) {
                Ok(v) => v,
                Err(e) => {
                    return Err(e);
                },
            };
            proof {
                lemma_row_scan_progress(false, views, before as int);
            }
            rows.push(row);
            proof {
                let grow = row_scan(false, views, before as int)->Some_0.0;
                assert(rows@.map_values(|w: Row| w.values@.map_values(|t: Token| t@))
                    =~= acc.push(grow));
                if grid_scan(false, views, at as int) is Some {
                    let rest = grid_scan(false, views, at as int)->Some_0;
                    assert(acc + (seq![grow] + rest) =~= acc.push(grow) + rest);
                }
            }
        }
        proof {
            assert(grid_scan(false, views, tokens@.len() as int) == Some(
                Seq::<Seq<TokenView>>::empty(),
            ));
            let acc = rows@.map_values(|w: Row| w.values@.map_values(|t: Token| t@));
            assert(acc + Seq::<Seq<TokenView>>::empty() =~= acc);
        }
        Ok(CSV { values: rows })
    }
}

/// A tab-separated grid.
pub struct TSV {
    pub values: Vec<Row>,
}

impl GridData for TSV {
    open spec fn spec_tab_separated() -> bool {
        true
    }

    fn parse_data(tokens: &Vec<Token>, at: &mut usize) -> (r: Result<Token, ParseError>) {
        parse_cell(tokens, at)
    }

    fn parse_row(tokens: &Vec<Token>, at: &mut usize) -> (r: Result<Row, ParseError>) {
        read_row(true, tokens, at)
    }
}

impl TSV {
    /// Parse a whole tab-separated grid: rows until the tokens end.
    pub fn parse_tokens(tokens: &Vec<Token>) -> (r: Result<TSV, ParseError>)
        ensures
            match grid_scan(true, tokens@.map_values(|t: Token| t@), 0) {
                Some(rows) => r matches Ok(v) && v.values@.map_values(
                    |w: Row| w.values@.map_values(|t: Token| t@),
                ) == rows,
                None => r is Err,
            },
    {
        let ghost views = tokens@.map_values(|t: Token| t@);
        let mut rows: Vec<Row> = Vec::new();
        let mut at: usize = 0;
        proof {
            assert(rows@.map_values(|w: Row| w.values@.map_values(|t: Token| t@))
                =~= Seq::<Seq<TokenView>>::empty());
        }
        while at < tokens.len()
            invariant
                at <= tokens@.len(),
                views == tokens@.map_values(|t: Token| t@),
                grid_scan(true, views, 0) == (match grid_scan(true, views, at as int) {
                    Some(rest) => Some::<Seq<Seq<TokenView>>>(
                        rows@.map_values(|w: Row| w.values@.map_values(|t: Token| t@)) + rest,
                    ),
                    None => None::<Seq<Seq<TokenView>>>,
                }),
            decreases tokens@.len() - at,
        {
            let ghost before = at;
            let ghost acc = rows@.map_values(|w: Row| w.values@.map_values(|t: Token| t@));
            let row = match read_row(true, tokens, &mut at) {
                Ok(v) => v,
                Err(e) => {
                    return Err(e);
                },
            };
            proof {
                lemma_row_scan_progress(true, views, before as int);
            }
            rows.push(row);
            proof {
                let grow = row_scan(true, views, before as int)->Some_0.0;
                assert(rows@.map_values(|w: Row| w.values@.map_values(|t: Token| t@))
                    =~= acc.push(grow));
                if grid_scan(true, views, at as int) is Some {
                    let rest = grid_scan(true, views, at as int)->Some_0;
                    assert(acc + (seq![grow] + rest) =~= acc.push(grow) + rest);
                }
            }
        }
        proof {
            assert(grid_scan(true, views, tokens@.len() as int) == Some(
                Seq::<Seq<TokenView>>::empty(),
            ));
            let acc = rows@.map_values(|w: Row| w.values@.map_values(|t: Token| t@));
            assert(acc + Seq::<Seq<TokenView>>::empty() =~= acc);
        }
        Ok(TSV { values: rows })
    }
}

/// A row read from inside the tokens ends past where it began.
proof fn lemma_row_scan_progress(tab: bool, toks: Seq<TokenView>, i: int)
    requires
        0 <= i < toks.len(),
    ensures
        row_scan(tab, toks, i) matches Some(row) ==> i < row.1 <= toks.len(),
    decreases toks.len() - i,
{
    if is_cell(toks[i]) && i + 1 < toks.len() && !is_row_end(toks[i + 1]) && is_sep(
        tab,
        toks[i + 1],
    ) {
        if i + 2 < toks.len() {
            lemma_row_scan_progress(tab, toks, i + 2);
        }
    }
}

/// A parsed data tree over lexed tokens: lists, objects of named
/// entries, and immediate scalar tokens. Object entries keep their
/// source order, and a repeated name keeps both entries rather than
/// overwriting the earlier one.
pub enum Data {
    List(Vec<Data>),
    Object(Vec<(String, Data)>),
    Immediate(Token),
}

/// A format whose data is a tree: values, lists and objects are read
/// off a lexed token sequence. Every read stays inside the tokens and
/// a successful one consumes at least one of them.
pub trait TreeData: Sized {
    fn parse_data(tokens: &Vec<Token>, at: &mut usize) -> (r: Result<Data, ParseError>)
        requires
            old(at) <= tokens@.len(),
        ensures
            *old(at) <= *final(at) <= tokens@.len(),
    ;

    fn parse_list(tokens: &Vec<Token>, at: &mut usize) -> (r: Result<Data, ParseError>)
        requires
            old(at) <= tokens@.len(),
        ensures
            *old(at) <= *final(at) <= tokens@.len(),
    ;

    fn parse_object(tokens: &Vec<Token>, at: &mut usize) -> (r: Result<Data, ParseError>)
        requires
            old(at) <= tokens@.len(),
        ensures
            *old(at) <= *final(at) <= tokens@.len(),
    ;
}

/// Where one brace-and-bracket tree value read from `i` would end, or
/// nothing where the tokens do not shape one: a bracketed list, a
/// braced object, or an immediate string or number.
pub open spec fn json_data_scan(toks: Seq<TokenView>, i: int) -> Option<int>
    decreases toks.len() - i, 2int,
{
    if i < 0 || i >= toks.len() {
        None
    } else if toks[i] == TokenView::Char('[') {
        match json_items_scan(toks, i + 1) {
            Some(j) => Some(j + 1),
            None => None,
        }
    } else if toks[i] == TokenView::Char('{') {
        match json_entries_scan(toks, i + 1) {
            Some(j) => Some(j + 1),
            None => None,
        }
    } else if toks[i] is String || toks[i] is Number {
        Some(i + 1)
    } else {
        None
    }
}

/// Where the closing bracket of a list whose elements start at `j`
/// stands, or nothing where the elements do not shape a list body.
pub open spec fn json_items_scan(toks: Seq<TokenView>, j: int) -> Option<int>
    decreases toks.len() - j, 3int,
{
    if j < 0 {
        None
    } else {
        match json_data_scan(toks, j) {
            None => None,
            Some(j2) => if !(j < j2 <= toks.len()) {
                None
            } else if j2 < toks.len() && toks[j2] == TokenView::Char(']') {
                Some(j2)
            } else if j2 < toks.len() && toks[j2] == TokenView::Char(',') {
                json_items_scan(toks, j2 + 1)
            } else {
                None
            },
        }
    }
}

/// Where the closing brace of an object whose entries start at `j`
/// stands, or nothing where the entries do not shape an object body.
pub open spec fn json_entries_scan(toks: Seq<TokenView>, j: int) -> Option<int>
    decreases toks.len() - j, 3int,
{
    if j < 0 || j >= toks.len() {
        None
    } else if !(toks[j] is String) {
        None
    } else if !(j + 1 < toks.len() && toks[j + 1] == TokenView::Char(':')) {
        None
    } else {
        match json_data_scan(toks, j + 2) {
            None => None,
            Some(j2) => if !(j + 2 <= j2 <= toks.len()) {
                None
            } else if j2 < toks.len() && toks[j2] == TokenView::Char('}') {
                Some(j2)
            } else if j2 < toks.len() && toks[j2] == TokenView::Char(',') {
                json_entries_scan(toks, j2 + 1)
            } else {
                None
            },
        }
    }
}

/// Whether the token under the cursor is the given plain character.
fn at_char(tokens: &Vec<Token>, at: usize, c: char) -> (b: bool)
    requires
        at <= tokens@.len(),
    ensures
        b == (at < tokens@.len() && tokens@[at as int]@ == TokenView::Char(c)),
{
    if at < tokens.len() {
        match &tokens[at] {
            Token::Char(x) => *x == c,
            _ => false,
        }
    } else {
        false
    }
}

/// Read one value of a brace-and-bracket tree: a bracketed list, a
/// braced object, or an immediate string or number.
fn json_data(tokens: &Vec<Token>, at: &mut usize) -> (r: Result<Data, ParseError>)
    requires
        old(at) <= tokens@.len(),
    ensures
        *old(at) <= *final(at) <= tokens@.len(),
        r is Ok ==> *old(at) < *final(at),
        (match json_data_scan(tokens@.map_values(|t: Token| t@), *old(at) as int) {
            Some(j) => r is Ok && *final(at) == j,
            None => r is Err,
        }),
        r matches Ok(v) ==> (match v {
            Data::List(_) => tokens@.map_values(|t: Token| t@)[*old(at) as int] == TokenView::Char(
                '[',
            ),
            Data::Object(_) => tokens@.map_values(|t: Token| t@)[*old(at) as int]
                == TokenView::Char('{'),
            Data::Immediate(t) => t@ == tokens@.map_values(|t2: Token| t2@)[*old(at) as int]
                && *final(at) == *old(at) + 1,
        }),
    decreases tokens@.len() - *old(at), 2int,
{
    if at_char(tokens, *at, '[') {
        json_list(tokens, at)
    } else if at_char(tokens, *at, '{') {
        json_object(tokens, at)
    } else if *at < tokens.len() {
        let imm = match &tokens[*at] {
            Token::String(_) => true,
            Token::Number(_) => true,
            _ => false,
        };
        if imm {
            let t = tokens[*at].clone();
            *at = *at + 1;
            Ok(Data::Immediate(t))
        } else {
            Err(ParseError::new("Unexpected token.", Position::unbound()))
        }
    } else {
        Err(ParseError::new("Unexpected end of tokens.", Position::unbound()))
    }
}

/// Read a bracketed, comma-separated list of values.
fn json_list(tokens: &Vec<Token>, at: &mut usize) -> (r: Result<Data, ParseError>)
    requires
        old(at) <= tokens@.len(),
        old(at) < tokens@.len() && tokens@[*old(at) as int]@ == TokenView::Char('['),
    ensures
        *old(at) <= *final(at) <= tokens@.len(),
        r is Ok ==> *old(at) < *final(at),
        (match json_items_scan(tokens@.map_values(|t: Token| t@), *old(at) + 1) {
            Some(j) => r matches Ok(v) && v is List && *final(at) == j + 1,
            None => r is Err,
        }),
    decreases tokens@.len() - *old(at), 1int,
{
    let ghost entry = *at as int;
    let ghost views = tokens@.map_values(|t: Token| t@);
    let n = tokens.len();
    *at = *at + 1;
    let mut list: Vec<Data> = Vec::new();
    loop
        invariant_except_break
            json_items_scan(views, entry + 1) == json_items_scan(views, *at as int),
        invariant
            entry == *old(at) as int,
            n == tokens@.len(),
            views == tokens@.map_values(|t: Token| t@),
            entry < *at as int <= tokens@.len(),
        ensures
            entry == *old(at) as int,
            entry < *at as int,
            (*at as int) < tokens@.len(),
            json_items_scan(views, entry + 1) == Some(*at as int),
        decreases tokens@.len() - *at,
    {
        let ghost j = *at as int;
        match json_data(tokens, at) {
            Ok(v) => {
                list.push(v);
            },
            Err(e) => {
                return Err(e);
            },
        }
        if at_char(tokens, *at, ']') {
            break ;
        }
        if at_char(tokens, *at, ',') {
            *at = *at + 1;
        } else {
            return Err(ParseError::new("Expected a comma in the list.", Position::unbound()));
        }
    }
    *at = *at + 1;
    Ok(Data::List(list))
}

/// Read a braced, comma-separated object of string-named values.
fn json_object(tokens: &Vec<Token>, at: &mut usize) -> (r: Result<Data, ParseError>)
    requires
        old(at) <= tokens@.len(),
        old(at) < tokens@.len() && tokens@[*old(at) as int]@ == TokenView::Char('{'),
    ensures
        *old(at) <= *final(at) <= tokens@.len(),
        r is Ok ==> *old(at) < *final(at),
        (match json_entries_scan(tokens@.map_values(|t: Token| t@), *old(at) + 1) {
            Some(j) => r matches Ok(v) && v is Object && *final(at) == j + 1,
            None => r is Err,
        }),
    decreases tokens@.len() - *old(at), 1int,
{
    let ghost entry = *at as int;
    let ghost views = tokens@.map_values(|t: Token| t@);
    let n = tokens.len();
    *at = *at + 1;
    let mut map: Vec<(String, Data)> = Vec::new();
    loop
        invariant_except_break
            json_entries_scan(views, entry + 1) == json_entries_scan(views, *at as int),
        invariant
            entry == *old(at) as int,
            n == tokens@.len(),
            views == tokens@.map_values(|t: Token| t@),
            entry < *at as int <= tokens@.len(),
        ensures
            entry == *old(at) as int,
            entry < *at as int,
            (*at as int) < tokens@.len(),
            json_entries_scan(views, entry + 1) == Some(*at as int),
        decreases tokens@.len() - *at,
    {
        let name = if *at < tokens.len() {
            match &tokens[*at] {
                Token::String(v) => {
                    let n = v.clone();
                    *at = *at + 1;
                    n
                },
                _ => {
                    return Err(
                        ParseError::new("Expected a property name.", Position::unbound()),
                    );
                },
            }
        } else {
            return Err(ParseError::new("Expected a property name.", Position::unbound()));
        };
        if at_char(tokens, *at, ':') {
            *at = *at + 1;
        } else {
            return Err(ParseError::new("Expected a colon after the name.", Position::unbound()));
        }
        let value = match json_data(tokens, at) {
            Ok(v) => v,
            Err(e) => {
                return Err(e);
            },
        };
        map.push((name, value));
        if at_char(tokens, *at, '}') {
            break ;
        }
        if at_char(tokens, *at, ',') {
            *at = *at + 1;
        } else {
            return Err(ParseError::new("Expected a comma in the object.", Position::unbound()));
        }
    }
    *at = *at + 1;
    Ok(Data::Object(map))
}

/// A brace-and-bracket tree format over lexed tokens.
pub struct JSON {
    pub value: Data,
}

impl TreeData for JSON {
    fn parse_data(tokens: &Vec<Token>, at: &mut usize) -> (r: Result<Data, ParseError>) {
        json_data(tokens, at)
    }

    fn parse_list(tokens: &Vec<Token>, at: &mut usize) -> (r: Result<Data, ParseError>) {
        if at_char(tokens, *at, '[') {
            json_list(tokens, at)
        } else {
            Err(ParseError::new("Expected a list.", Position::unbound()))
        }
    }

    fn parse_object(tokens: &Vec<Token>, at: &mut usize) -> (r: Result<Data, ParseError>) {
        if at_char(tokens, *at, '{') {
            json_object(tokens, at)
        } else {
            Err(ParseError::new("Expected an object.", Position::unbound()))
        }
    }
}

impl JSON {
    /// Parse whole lexed input as one tree: it succeeds exactly when a
    /// tree value starts the tokens, and holds it.
    pub fn parse_tokens(tokens: &Vec<Token>) -> (r: Result<JSON, ParseError>)
        ensures
            r is Ok <==> json_data_scan(tokens@.map_values(|t: Token| t@), 0) is Some,
            r matches Ok(p) ==> (match p.value {
                Data::List(_) => tokens@.map_values(|t: Token| t@)[0] == TokenView::Char('['),
                Data::Object(_) => tokens@.map_values(|t: Token| t@)[0] == TokenView::Char('{'),
                Data::Immediate(t) => t@ == tokens@.map_values(|t2: Token| t2@)[0],
            }),
    {
        let mut at: usize = 0;
        match json_data(tokens, &mut at) {
            Ok(value) => Ok(JSON { value }),
            Err(e) => Err(e),
        }
    }
}

/// Where a dashed list whose first dash stands at `i` would end: the
/// index after its last element, reached when no further dash faces
/// the scan; or nothing where an element is malformed.
pub open spec fn yaml_items_scan(toks: Seq<TokenView>, i: int) -> Option<int>
    decreases toks.len() - i, 1int,
{
    if i < 0 {
        None
    } else if !(i < toks.len() && toks[i] == TokenView::Operator("-"@)) {
        Some(i)
    } else {
        match yaml_data_scan(toks, i + 1) {
            None => None,
            Some(j2) => if i < j2 <= toks.len() {
                yaml_items_scan(toks, j2)
            } else {
                None
            },
        }
    }
}

/// Where an object whose first entry starts at `i` would end: the
/// index after its last entry, reached when no further name faces the
/// scan; or nothing where an entry is malformed.
pub open spec fn yaml_entries_scan(toks: Seq<TokenView>, i: int) -> Option<int>
    decreases toks.len() - i, 1int,
{
    if i < 0 {
        None
    } else if !(i < toks.len() && toks[i] is Identifier) {
        Some(i)
    } else if !(i + 1 < toks.len() && toks[i + 1] == TokenView::Operator(":"@)) {
        None
    } else {
        match yaml_data_scan(toks, i + 2) {
            None => None,
            Some(j2) => if i < j2 <= toks.len() {
                yaml_entries_scan(toks, j2)
            } else {
                None
            },
        }
    }
}

/// Where one dash-and-name tree value read from `i` would end, or
/// nothing where the tokens do not shape one.
pub open spec fn yaml_data_scan(toks: Seq<TokenView>, i: int) -> Option<int>
    decreases toks.len() - i, 2int,
{
    if i < 0 || i >= toks.len() {
        None
    } else if toks[i] == TokenView::Operator("-"@) {
        yaml_items_scan(toks, i)
    } else if toks[i] is Identifier {
        yaml_entries_scan(toks, i)
    } else if toks[i] is String || toks[i] is Number || toks[i] is Keyword {
        Some(i + 1)
    } else {
        None
    }
}

/// Whether the token under the cursor is the given operator.
fn at_op(tokens: &Vec<Token>, at: usize, op: &str) -> (b: bool)
    requires
        at <= tokens@.len(),
    ensures
        b == (at < tokens@.len() && tokens@[at as int]@ == TokenView::Operator(op@)),
{
    if at < tokens.len() {
        match &tokens[at] {
            Token::Operator(v) => {
                let w = String::from_str(op);
                *v == w
            },
            _ => false,
        }
    } else {
        false
    }
}

/// Read one value of a dash-and-name tree: a dashed list, an object of
/// named entries, or an immediate scalar.
fn yaml_data(tokens: &Vec<Token>, at: &mut usize) -> (r: Result<Data, ParseError>)
    requires
        old(at) <= tokens@.len(),
    ensures
        *old(at) <= *final(at) <= tokens@.len(),
        (match yaml_data_scan(tokens@.map_values(|t: Token| t@), *old(at) as int) {
            Some(j) => r is Ok && *final(at) == j,
            None => r is Err,
        }),
        r matches Ok(v) ==> (match v {
            Data::List(_) => tokens@.map_values(|t: Token| t@)[*old(at) as int]
                == TokenView::Operator("-"@),
            Data::Object(_) => tokens@.map_values(|t: Token| t@)[*old(at) as int] is Identifier,
            Data::Immediate(t) => t@ == tokens@.map_values(|t2: Token| t2@)[*old(at) as int]
                && *final(at) == *old(at) + 1,
        }),
    decreases tokens@.len() - *old(at), 2int,
{
    if at_op(tokens, *at, "-") {
        yaml_list(tokens, at)
    } else if *at < tokens.len() {
        let kind = match &tokens[*at] {
            Token::Identifier(_) => 1usize,
            Token::String(_) => 2,
            Token::Number(_) => 2,
            Token::Keyword(_) => 2,
            _ => 0,
        };
        if kind == 1 {
            yaml_object(tokens, at)
        } else if kind == 2 {
            let t = tokens[*at].clone();
            *at = *at + 1;
            Ok(Data::Immediate(t))
        } else {
            Err(ParseError::new("Unexpected token.", Position::unbound()))
        }
    } else {
        Err(ParseError::new("Unexpected end of tokens.", Position::unbound()))
    }
}

/// Read a dashed list: values, each behind its own dash.
fn yaml_list(tokens: &Vec<Token>, at: &mut usize) -> (r: Result<Data, ParseError>)
    requires
        old(at) <= tokens@.len(),
    ensures
        *old(at) <= *final(at) <= tokens@.len(),
        (match yaml_items_scan(tokens@.map_values(|t: Token| t@), *old(at) as int) {
            Some(j) => r matches Ok(v) && v is List && *final(at) == j,
            None => r is Err,
        }),
    decreases tokens@.len() - *old(at), 1int,
{
    let ghost entry = *at as int;
    let ghost views = tokens@.map_values(|t: Token| t@);
    let n = tokens.len();
    let mut list: Vec<Data> = Vec::new();
    loop
        invariant_except_break
            yaml_items_scan(views, entry) == yaml_items_scan(views, *at as int),
        invariant
            entry == *old(at) as int,
            n == tokens@.len(),
            views == tokens@.map_values(|t: Token| t@),
            entry <= *at as int <= tokens@.len(),
        ensures
            entry == *old(at) as int,
            entry <= *at as int <= tokens@.len(),
            yaml_items_scan(views, entry) == Some(*at as int),
        decreases tokens@.len() - *at,
    {
        if !at_op(tokens, *at, "-") {
            break ;
        }
        *at = *at + 1;
        match yaml_data(tokens, at) {
            Ok(v) => {
                list.push(v);
            },
            Err(e) => {
                return Err(e);
            },
        }
    }
    Ok(Data::List(list))
}

/// Read an object: entries of a name, a colon and a value, as long as
/// a name stands under the cursor.
fn yaml_object(tokens: &Vec<Token>, at: &mut usize) -> (r: Result<Data, ParseError>)
    requires
        old(at) <= tokens@.len(),
    ensures
        *old(at) <= *final(at) <= tokens@.len(),
        (match yaml_entries_scan(tokens@.map_values(|t: Token| t@), *old(at) as int) {
            Some(j) => r matches Ok(v) && v is Object && *final(at) == j,
            None => r is Err,
        }),
    decreases tokens@.len() - *old(at), 1int,
{
    let ghost entry = *at as int;
    let ghost views = tokens@.map_values(|t: Token| t@);
    let n = tokens.len();
    let mut map: Vec<(String, Data)> = Vec::new();
    loop
        invariant_except_break
            yaml_entries_scan(views, entry) == yaml_entries_scan(views, *at as int),
        invariant
            entry == *old(at) as int,
            n == tokens@.len(),
            views == tokens@.map_values(|t: Token| t@),
            entry <= *at as int <= tokens@.len(),
        ensures
            entry == *old(at) as int,
            entry <= *at as int <= tokens@.len(),
            yaml_entries_scan(views, entry) == Some(*at as int),
        decreases tokens@.len() - *at,
    {
        let name = if *at < tokens.len() {
            match &tokens[*at] {
                Token::Identifier(v) => {
                    let nm = v.clone();
                    *at = *at + 1;
                    nm
                },
                _ => {
                    break ;
                },
            }
        } else {
            break ;
        };
        if at_op(tokens, *at, ":") {
            *at = *at + 1;
        } else {
            return Err(ParseError::new("Expected a colon after the name.", Position::unbound()));
        }
        match yaml_data(tokens, at) {
            Ok(v) => {
                map.push((name, v));
            },
            Err(e) => {
                return Err(e);
            },
        }
    }
    Ok(Data::Object(map))
}

/// A dash-and-name tree format over lexed tokens; the document starts
/// with the three-dash marker.
pub struct YAML {
    pub value: Data,
}

impl TreeData for YAML {
    fn parse_data(tokens: &Vec<Token>, at: &mut usize) -> (r: Result<Data, ParseError>) {
        yaml_data(tokens, at)
    }

    fn parse_list(tokens: &Vec<Token>, at: &mut usize) -> (r: Result<Data, ParseError>) {
        yaml_list(tokens, at)
    }

    fn parse_object(tokens: &Vec<Token>, at: &mut usize) -> (r: Result<Data, ParseError>) {
        yaml_object(tokens, at)
    }
}

impl YAML {
    /// Parse whole lexed input as one document behind the three-dash
    /// marker: it succeeds exactly when the marker leads and a tree
    /// value follows it.
    pub fn parse_tokens(tokens: &Vec<Token>) -> (r: Result<YAML, ParseError>)
        ensures
            r is Ok <==> ({
                let views = tokens@.map_values(|t: Token| t@);
                &&& views.len() > 0
                &&& views[0] == TokenView::Operator("---"@)
                &&& yaml_data_scan(views, 1) is Some
            }),
    {
        let mut at: usize = 0;
        if at_op(tokens, at, "---") {
            at = at + 1;
        } else {
            return Err(
                ParseError::new(
                    "Expected the three-dash marker at the start of the document.",
                    Position::unbound(),
                ),
            );
        }
        match yaml_data(tokens, &mut at) {
            Ok(value) => Ok(YAML { value }),
            Err(e) => Err(e),
        }
    }
}

} // verus!
