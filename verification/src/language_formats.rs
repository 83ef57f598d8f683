//! Source-language building blocks: the shape a language grammar
//! exposes, and the dispatch over its kinds of definitions.

use vstd::prelude::*;

use crate::data_formats::committed;
use crate::parsing::charstream::{lemma_wf_index, pos_at, CharStream, Position, Span, StreamModel};
use crate::parsing::{prefer_candidate, weigh, Identifier, Parse, ParseError};

verus! {

/// What a language knows about one of its functions.
pub struct FunctionData {}

/// What a language knows about one of its imports.
pub struct ImportData {}

/// What a language knows about one of its variables.
pub struct VariableData {}

/// What a language knows about one of its types.
pub struct TypeData {}

/// A grammar element that defines a single named thing.
pub trait Define<Data>: Parse {
    /// The defined name.
    fn name(&self) -> Identifier;
}

/// A grammar element that defines several named things at once.
pub trait DefineList<Data>: Parse {
    /// The defined names.
    fn names(&self) -> Vec<Identifier>;
}

/// The grammars a language is made of: its function, import, variable
/// and type declarations.
pub trait LanguageData: Parse {
    type Function: Define<FunctionData>;

    type Import: DefineList<ImportData>;

    type Variable: DefineList<VariableData>;

    type Type: Define<TypeData>;
}

/// One definition of a language `L`: alternatives are tried in
/// declaration order on speculative cursors and the best span wins.
pub enum Definition<L: LanguageData> {
    Function(L::Function),
    Import(L::Import),
    Variable(L::Variable),
    Type(L::Type),
}

/// What one successful definition alternative means, tried from `pre`
/// and ending at `m`.
pub open spec fn definition_variant<L: LanguageData>(
    pre: StreamModel,
    m: StreamModel,
    v: Definition<L>,
) -> bool {
    match v {
        Definition::Function(f) => <L::Function as Parse>::parse_ens(pre, m, Ok(f)),
        Definition::Import(i) => <L::Import as Parse>::parse_ens(pre, m, Ok(i)),
        Definition::Variable(d) => <L::Variable as Parse>::parse_ens(pre, m, Ok(d)),
        Definition::Type(t) => <L::Type as Parse>::parse_ens(pre, m, Ok(t)),
    }
}

/// The outcome of each definition alternative, tried from `pre`, each
/// vouched by its own contract.
pub open spec fn definition_candidates<L: LanguageData>(
    pre: StreamModel,
    c1: Option<(L::Function, StreamModel)>,
    c2: Option<(L::Import, StreamModel)>,
    c3: Option<(L::Variable, StreamModel)>,
    c4: Option<(L::Type, StreamModel)>,
) -> bool {
    &&& match c1 {
        Some(p) => <L::Function as Parse>::parse_ens(pre, p.1, Ok(p.0)),
        None => exists|w: StreamModel, e: ParseError|
            #![auto]
            <L::Function as Parse>::parse_ens(pre, w, Err(e)),
    }
    &&& match c2 {
        Some(p) => <L::Import as Parse>::parse_ens(pre, p.1, Ok(p.0)),
        None => exists|w: StreamModel, e: ParseError|
            #![auto]
            <L::Import as Parse>::parse_ens(pre, w, Err(e)),
    }
    &&& match c3 {
        Some(p) => <L::Variable as Parse>::parse_ens(pre, p.1, Ok(p.0)),
        None => exists|w: StreamModel, e: ParseError|
            #![auto]
            <L::Variable as Parse>::parse_ens(pre, w, Err(e)),
    }
    &&& match c4 {
        Some(p) => <L::Type as Parse>::parse_ens(pre, p.1, Ok(p.0)),
        None => exists|w: StreamModel, e: ParseError|
            #![auto]
            <L::Type as Parse>::parse_ens(pre, w, Err(e)),
    }
}

/// Which definition alternative the selection rule picks.
pub open spec fn definition_choice<L: LanguageData>(
    c1: Option<(L::Function, StreamModel)>,
    c2: Option<(L::Import, StreamModel)>,
    c3: Option<(L::Variable, StreamModel)>,
    c4: Option<(L::Type, StreamModel)>,
) -> Option<(int, Span)> {
    let s1 = match c1 {
        Some(p) => Some(p.0.spec_span()),
        None => None,
    };
    let s2 = match c2 {
        Some(p) => Some(p.0.spec_span()),
        None => None,
    };
    let s3 = match c3 {
        Some(p) => Some(p.0.spec_span()),
        None => None,
    };
    let s4 = match c4 {
        Some(p) => Some(p.0.spec_span()),
        None => None,
    };
    weigh(weigh(weigh(weigh(None, 1, s1), 2, s2), 3, s3), 4, s4)
}

impl<L: LanguageData> Parse for Definition<L> {
    open spec fn wf(&self) -> bool {
        match self {
            Definition::Function(f) => f.wf(),
            Definition::Import(i) => i.wf(),
            Definition::Variable(d) => d.wf(),
            Definition::Type(t) => t.wf(),
        }
    }

    open spec fn spec_span(&self) -> Span {
        match self {
            Definition::Function(f) => f.spec_span(),
            Definition::Import(i) => i.spec_span(),
            Definition::Variable(d) => d.spec_span(),
            Definition::Type(t) => t.spec_span(),
        }
    }

    /// Each alternative was tried from the entry state, the selection
    /// rule picked the winner among the successful ones, the winner's
    /// value was returned and the cursor committed to its end; the
    /// read fails exactly when every alternative failed, and then
    /// consumes nothing.
    open spec fn parse_ens(
        pre: StreamModel,
        post: StreamModel,
        r: Result<Definition<L>, ParseError>,
    ) -> bool {
        &&& match r {
            Ok(v) => exists|m: StreamModel|
                #![auto]
                definition_variant(pre, m, v) && post == committed(pre, m.index),
            Err(_) => post == pre,
        }
        &&& exists|
            c1: Option<(L::Function, StreamModel)>,
            c2: Option<(L::Import, StreamModel)>,
            c3: Option<(L::Variable, StreamModel)>,
            c4: Option<(L::Type, StreamModel)>,
        |
            #![auto]
            definition_candidates::<L>(pre, c1, c2, c3, c4) && (match definition_choice::<L>(
                c1,
                c2,
                c3,
                c4,
            ) {
                None => r is Err,
                Some(b) => r matches Ok(v) && (if b.0 == 1 {
                    v == Definition::<L>::Function(c1->Some_0.0) && post == committed(
                        pre,
                        c1->Some_0.1.index,
                    )
                } else if b.0 == 2 {
                    v == Definition::<L>::Import(c2->Some_0.0) && post == committed(
                        pre,
                        c2->Some_0.1.index,
                    )
                } else if b.0 == 3 {
                    v == Definition::<L>::Variable(c3->Some_0.0) && post == committed(
                        pre,
                        c3->Some_0.1.index,
                    )
                } else {
                    v == Definition::<L>::Type(c4->Some_0.0) && post == committed(
                        pre,
                        c4->Some_0.1.index,
                    )
                }),
            })
    }

    fn parse(stream: &mut CharStream) -> (r: Result<Self, ParseError>) {
        proof {
            lemma_wf_index(stream);
        }
        let entry = stream.pos();
        let ghost pre = stream@;
        let mut best: Option<(Definition<L>, Position)> = None;
        let ghost mut bw: StreamModel = stream@;
        let mut err: Option<ParseError> = None;
        let ghost mut gc1: Option<(L::Function, StreamModel)> = None;
        let ghost mut gc2: Option<(L::Import, StreamModel)> = None;
        let ghost mut gc3: Option<(L::Variable, StreamModel)> = None;
        let ghost mut gc4: Option<(L::Type, StreamModel)> = None;

        let mut probe1 = stream.clone();
        match <L::Function as Parse>::parse(&mut probe1) {
            Ok(x) => {
                proof {
                    lemma_wf_index(&probe1);
                    gc1 = Some((x, probe1@));
                }
                let pos = probe1.pos();
                proof {
                    bw = probe1@;
                }
                best = Some((Definition::Function(x), pos));
            },
            Err(e) => {
                proof {
                    let ghost ge = e;
                    assert(<L::Function as Parse>::parse_ens(pre, probe1@, Err(ge)));
                }
                err = Some(e);
            },
        }
        let ghost gw1 = weigh(None, 1, match gc1 {
            Some(p) => Some(p.0.spec_span()),
            None => None,
        });
        proof {
            assert(match gw1 {
                None => best is None,
                Some(b) => best matches Some(p) && b.1 == p.0.spec_span() && b.0 == 1 && p.0 == Definition::<L>::Function(gc1->Some_0.0) && p.1 == pos_at(
                    pre.src,
                    pre.file_id,
                    gc1->Some_0.1.index,
                ) && bw == gc1->Some_0.1,
            });
        }

        let mut probe2 = stream.clone();
        match <L::Import as Parse>::parse(&mut probe2) {
            Ok(x) => {
                proof {
                    lemma_wf_index(&probe2);
                    gc2 = Some((x, probe2@));
                }
                let pos = probe2.pos();
                let cand = Definition::Import(x);
                let replace = match &best {
                    None => true,
                    Some((b, _)) => prefer_candidate(&cand.span(), &b.span()),
                };
                if replace {
                    proof {
                        bw = probe2@;
                    }
                    best = Some((cand, pos));
                }
            },
            Err(e) => {
                proof {
                    let ghost ge = e;
                    assert(<L::Import as Parse>::parse_ens(pre, probe2@, Err(ge)));
                }
                err = Some(e);
            },
        }
        let ghost gw2 = weigh(gw1, 2, match gc2 {
            Some(p) => Some(p.0.spec_span()),
            None => None,
        });
        proof {
            assert(match gw2 {
                None => best is None,
                Some(b) => best matches Some(p) && b.1 == p.0.spec_span() && (if b.0 == 1 {
                    p.0 == Definition::<L>::Function(gc1->Some_0.0) && p.1 == pos_at(
                    pre.src,
                    pre.file_id,
                    gc1->Some_0.1.index,
                ) && bw == gc1->Some_0.1
                } else {
                    b.0 == 2 && p.0 == Definition::<L>::Import(gc2->Some_0.0) && p.1 == pos_at(
                    pre.src,
                    pre.file_id,
                    gc2->Some_0.1.index,
                ) && bw == gc2->Some_0.1
                }),
            });
        }

        let mut probe3 = stream.clone();
        match <L::Variable as Parse>::parse(&mut probe3) {
            Ok(x) => {
                proof {
                    lemma_wf_index(&probe3);
                    gc3 = Some((x, probe3@));
                }
                let pos = probe3.pos();
                let cand = Definition::Variable(x);
                let replace = match &best {
                    None => true,
                    Some((b, _)) => prefer_candidate(&cand.span(), &b.span()),
                };
                if replace {
                    proof {
                        bw = probe3@;
                    }
                    best = Some((cand, pos));
                }
            },
            Err(e) => {
                proof {
                    let ghost ge = e;
                    assert(<L::Variable as Parse>::parse_ens(pre, probe3@, Err(ge)));
                }
                err = Some(e);
            },
        }
        let ghost gw3 = weigh(gw2, 3, match gc3 {
            Some(p) => Some(p.0.spec_span()),
            None => None,
        });
        proof {
            assert(match gw3 {
                None => best is None,
                Some(b) => best matches Some(p) && b.1 == p.0.spec_span() && (if b.0 == 1 {
                    p.0 == Definition::<L>::Function(gc1->Some_0.0) && p.1 == pos_at(
                    pre.src,
                    pre.file_id,
                    gc1->Some_0.1.index,
                ) && bw == gc1->Some_0.1
                } else if b.0 == 2 {
                    p.0 == Definition::<L>::Import(gc2->Some_0.0) && p.1 == pos_at(
                    pre.src,
                    pre.file_id,
                    gc2->Some_0.1.index,
                ) && bw == gc2->Some_0.1
                } else {
                    b.0 == 3 && p.0 == Definition::<L>::Variable(gc3->Some_0.0) && p.1 == pos_at(
                    pre.src,
                    pre.file_id,
                    gc3->Some_0.1.index,
                ) && bw == gc3->Some_0.1
                }),
            });
        }

        let mut probe4 = stream.clone();
        match <L::Type as Parse>::parse(&mut probe4) {
            Ok(x) => {
                proof {
                    lemma_wf_index(&probe4);
                    gc4 = Some((x, probe4@));
                }
                let pos = probe4.pos();
                let cand = Definition::Type(x);
                let replace = match &best {
                    None => true,
                    Some((b, _)) => prefer_candidate(&cand.span(), &b.span()),
                };
                if replace {
                    proof {
                        bw = probe4@;
                    }
                    best = Some((cand, pos));
                }
            },
            Err(e) => {
                proof {
                    let ghost ge = e;
                    assert(<L::Type as Parse>::parse_ens(pre, probe4@, Err(ge)));
                }
                err = Some(e);
            },
        }
        let ghost gw4 = weigh(gw3, 4, match gc4 {
            Some(p) => Some(p.0.spec_span()),
            None => None,
        });
        proof {
            assert(match gw4 {
                None => best is None,
                Some(b) => best matches Some(p) && b.1 == p.0.spec_span() && (if b.0 == 1 {
                    p.0 == Definition::<L>::Function(gc1->Some_0.0) && p.1 == pos_at(
                    pre.src,
                    pre.file_id,
                    gc1->Some_0.1.index,
                ) && bw == gc1->Some_0.1
                } else if b.0 == 2 {
                    p.0 == Definition::<L>::Import(gc2->Some_0.0) && p.1 == pos_at(
                    pre.src,
                    pre.file_id,
                    gc2->Some_0.1.index,
                ) && bw == gc2->Some_0.1
                } else if b.0 == 3 {
                    p.0 == Definition::<L>::Variable(gc3->Some_0.0) && p.1 == pos_at(
                    pre.src,
                    pre.file_id,
                    gc3->Some_0.1.index,
                ) && bw == gc3->Some_0.1
                } else {
                    b.0 == 4 && p.0 == Definition::<L>::Type(gc4->Some_0.0) && p.1 == pos_at(
                    pre.src,
                    pre.file_id,
                    gc4->Some_0.1.index,
                ) && bw == gc4->Some_0.1
                }),
            });
        }

        proof {
            assert(definition_candidates::<L>(pre, gc1, gc2, gc3, gc4));
            assert(gw4 == definition_choice::<L>(gc1, gc2, gc3, gc4));
        }
        match best {
            Some((v, pos)) => {
                proof {
                    assert(definition_variant(pre, bw, v));
                    assert(pos == pos_at(pre.src, pre.file_id, bw.index));
                }
                match stream.goto(pos) {
                    Ok(_) => {
                        proof {
                            assert(stream@ == committed(pre, bw.index));
                            assert(exists|m: StreamModel|
                                #![auto]
                                definition_variant(pre, m, v) && stream@ == committed(
                                    pre,
                                    m.index,
                                ));
                        }
                        Ok(v)
                    },
                    Err(e) => Err(e),
                }
            },
            None => match err {
                Some(e) => Err(e),
                None => Err(ParseError::new("Did not find variant for definition.", entry)),
            },
        }
    }

    fn span(&self) -> (s: Span) {
        match self {
            Definition::Function(f) => f.span(),
            Definition::Import(i) => i.span(),
            Definition::Variable(d) => d.span(),
            Definition::Type(t) => t.span(),
        }
    }
}

} // verus!
