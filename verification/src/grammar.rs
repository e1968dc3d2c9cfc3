//! The grammar of M-Lang as spec functions: what the parser reads from a
//! list of tokens, the errors it records, and where it stops.
use vstd::prelude::*;

use crate::ast::{AltModel, ExprModel, Span, StmtModel, TypeModel};
use crate::parser::{can_start_type, has_pyaung_prefix, is_infix_operator, operator_text, precedence_of};
use crate::render::kind_debug;
use crate::text::uppercase;
use crate::token::{KindModel, TokenTag};

verus! {

/// A token as plain values: its kind and where it stands.
pub struct TokM {
    pub kind: KindModel,
    pub line: usize,
    pub col: usize,
}

/// A recorded error as plain values: its message, line and column.
pub struct ErrM {
    pub message: Seq<char>,
    pub line: usize,
    pub col: usize,
}

/// The parser's state: the index of the current token and the errors
/// recorded so far.
pub struct St {
    pub pos: int,
    pub errs: Seq<ErrM>,
}

/// A parameter: name, type and the place of the name.
pub type ParamM = (Seq<char>, TypeModel, Span);

/// A field or interface parameter: name and type.
pub type FieldM = (Seq<char>, TypeModel);

/// An interface method: name, parameters and result type.
pub type MethodM = (Seq<char>, Seq<FieldM>, TypeModel);

/// A token kind's tag and name, read from its model.
pub broadcast proof fn lemma_kind_model(k: crate::token::TokenKind)
    ensures
        km_tag(#[trigger] k.model()) == k.tag_of(),
        km_ident(k.model()) == (match k {
            crate::token::TokenKind::Identifier(n) => n@,
            _ => Seq::<char>::empty(),
        }),
{
}

/// The tag of a token kind.
pub open spec fn km_tag(k: KindModel) -> TokenTag {
    match k {
        KindModel::Plain(t) => t,
        KindModel::Identifier(_) => TokenTag::Identifier,
        KindModel::Number(_) => TokenTag::Number,
        KindModel::FloatLiteral(_, _) => TokenTag::FloatLiteral,
        KindModel::StringLiteral(_) => TokenTag::StringLiteral,
        KindModel::Comment(_) => TokenTag::Comment,
    }
}

/// The name an identifier holds; empty for other kinds.
pub open spec fn km_ident(k: KindModel) -> Seq<char> {
    match k {
        KindModel::Identifier(n) => n,
        _ => Seq::empty(),
    }
}

pub open spec fn tag(toks: Seq<TokM>, i: int) -> TokenTag {
    km_tag(toks[i].kind)
}

pub open spec fn span(toks: Seq<TokM>, i: int) -> Span {
    Span { line: toks[i].line, column: toks[i].col }
}

/// The index of the token after `i`; the last one has none and stays.
pub open spec fn peek_idx(toks: Seq<TokM>, i: int) -> int {
    if i + 1 < toks.len() {
        i + 1
    } else {
        toks.len() - 1
    }
}

pub open spec fn peek_is(toks: Seq<TokM>, s: St, t: TokenTag) -> bool {
    tag(toks, peek_idx(toks, s.pos)) == t
}

pub open spec fn cur_is(toks: Seq<TokM>, s: St, t: TokenTag) -> bool {
    tag(toks, s.pos) == t
}

/// Moving on one token; at the last token the position stays.
pub open spec fn adv(toks: Seq<TokM>, s: St) -> St {
    if s.pos + 1 < toks.len() {
        St { pos: s.pos + 1, ..s }
    } else {
        s
    }
}

/// Recording an error at a line and column.
pub open spec fn err(s: St, message: Seq<char>, line: usize, col: usize) -> St {
    St { errs: s.errs.push(ErrM { message, line, col }), ..s }
}

/// Recording an error at the current token.
pub open spec fn err_cur(toks: Seq<TokM>, s: St, message: Seq<char>) -> St {
    err(s, message, toks[s.pos].line, toks[s.pos].col)
}

/// Recording the error about an unexpected next token.
pub open spec fn err_peek(toks: Seq<TokM>, s: St) -> St {
    let p = peek_idx(toks, s.pos);
    err(s, "Unexpected token: "@ + kind_debug(toks[p].kind), toks[p].line, toks[p].col)
}

/// Moving on when the next token has the tag `t`; an error otherwise.
pub open spec fn expect(toks: Seq<TokM>, s: St, t: TokenTag) -> (bool, St) {
    if peek_is(toks, s, t) {
        (true, adv(toks, s))
    } else {
        (false, err_peek(toks, s))
    }
}

/// Taking the identifier that must follow, with its place.
pub open spec fn expect_ident(toks: Seq<TokM>, s: St) -> (Option<(Seq<char>, Span)>, St) {
    if peek_is(toks, s, TokenTag::Identifier) {
        let s1 = adv(toks, s);
        (Some((km_ident(toks[s1.pos].kind), span(toks, s1.pos))), s1)
    } else {
        let p = peek_idx(toks, s.pos);
        (
            None,
            err(
                s,
                "Expected next token to be Identifier, got "@ + kind_debug(toks[p].kind),
                toks[p].line,
                toks[p].col,
            ),
        )
    }
}

/// Skipping a semicolon that follows.
pub open spec fn skip_semi(toks: Seq<TokM>, s: St) -> St {
    if peek_is(toks, s, TokenTag::Semicolon) {
        adv(toks, s)
    } else {
        s
    }
}

/// `b` is at or after `a` and inside the tokens.
pub open spec fn ge(toks: Seq<TokM>, a: St, b: St) -> bool {
    a.pos <= b.pos < toks.len()
}

/// `b` is after `a` and inside the tokens.
pub open spec fn gt(toks: Seq<TokM>, a: St, b: St) -> bool {
    a.pos < b.pos < toks.len()
}

/// The state is at a token.
pub open spec fn at(toks: Seq<TokM>, s: St) -> bool {
    0 <= s.pos < toks.len()
}

/// The list `acc` followed by the list that `r` holds, if any.
pub open spec fn cons_opt<A>(acc: Seq<A>, r: (Option<Seq<A>>, St)) -> (Option<Seq<A>>, St) {
    match r.0 {
        Some(rest) => (Some(acc + rest), r.1),
        None => (None, r.1),
    }
}

/// The type model that `pyaung_` and the given suffix converts to.
pub open spec fn conversion_model(suffix: Seq<char>) -> Option<TypeModel> {
    if suffix == "kain"@ {
        Some(TypeModel::Kain)
    } else if suffix == "sar"@ {
        Some(TypeModel::Sar)
    } else if suffix == "da_tha"@ {
        Some(TypeModel::DaTha)
    } else {
        None
    }
}

/// Declarations that `pay` can export.
pub open spec fn exportable_m(st: StmtModel) -> bool {
    st is Let || st is FunctionDecl || st is StructDecl || st is MethodDecl || st is InterfaceDecl
}

/// What the parser reads from a source text: the statements of its
/// program and the state it ends in (with the errors it recorded).
pub open spec fn parse_source(source: Seq<char>) -> (Seq<StmtModel>, St) {
    program_at(crate::lexer::source_tokens(source), St { pos: 0, errs: Seq::empty() })
}

/// The statements of the program that a source text parses to.
pub open spec fn parsed_statements(source: Seq<char>) -> Seq<StmtModel> {
    parse_source(source).0
}

/// The errors that the parser records on a source text, in order.
pub open spec fn parse_errors(source: Seq<char>) -> Seq<ErrM> {
    parse_source(source).1.errs
}

// ----------------------------------------------------------------------
// Types

/// Where the `.segment` parts of a qualified type name that starts at the
/// state's token end, with the name read so far.
#[verifier::opaque]
pub open spec fn qualified(toks: Seq<TokM>, name: Seq<char>, s: St) -> (Option<Seq<char>>, St)
    decreases toks.len() - s.pos,
{
    if !at(toks, s) || !peek_is(toks, s, TokenTag::Dot) {
        (Some(name), s)
    } else {
        let s1 = adv(toks, s);
        match expect_ident(toks, s1) {
            (None, s2) => (None, s2),
            (Some((seg, _)), s2) => if !gt(toks, s, s2) {
                (None, s2)
            } else {
                qualified(toks, name + seq!['.'] + seg, s2)
            },
        }
    }
}

/// The type at the current token.
#[verifier::opaque]
pub open spec fn type_at(toks: Seq<TokM>, s: St) -> (Option<TypeModel>, St)
    decreases toks.len() - s.pos, 5nat,
{
    if !at(toks, s) {
        (None, s)
    } else {
        match tag(toks, s.pos) {
            TokenTag::Kain => (Some(TypeModel::Kain), s),
            TokenTag::Sar => (Some(TypeModel::Sar), s),
            TokenTag::Sit => (Some(TypeModel::Sit), s),
            TokenTag::DaTha => (Some(TypeModel::DaTha), s),
            TokenTag::Amhar => (Some(TypeModel::Error), s),
            TokenTag::Baung => (Some(TypeModel::Baung), s),
            TokenTag::Su => match angle_at(toks, s) {
                (Some(t), s1) => (Some(TypeModel::Array(Box::new(t))), s1),
                (None, s1) => (None, s1),
            },
            TokenTag::Laung => match angle_at(toks, s) {
                (Some(t), s1) => (Some(TypeModel::Channel(Box::new(t))), s1),
                (None, s1) => (None, s1),
            },
            TokenTag::Twe => map_type_at(toks, s),
            TokenTag::LParen => tuple_type_at(toks, s),
            TokenTag::Loke => fn_type_at(toks, s),
            TokenTag::Identifier => match qualified(toks, km_ident(toks[s.pos].kind), s) {
                (Some(n), s1) => (Some(TypeModel::Struct(n)), s1),
                (None, s1) => (None, s1),
            },
            _ => (None, s),
        }
    }
}

/// `<T>` after the current token.
#[verifier::opaque]
pub open spec fn angle_at(toks: Seq<TokM>, s: St) -> (Option<TypeModel>, St)
    decreases toks.len() - s.pos, 4nat,
{
    match expect(toks, s, TokenTag::LessThan) {
        (false, s1) => (None, s1),
        (true, s1) => {
            let s2 = adv(toks, s1);
            if !gt(toks, s, s2) {
                (None, s2)
            } else {
                match type_at(toks, s2) {
                    (None, s3) => (None, s3),
                    (Some(t), s3) => match expect(toks, s3, TokenTag::GreaterThan) {
                        (false, s4) => (None, s4),
                        (true, s4) => (Some(t), s4),
                    },
                }
            }
        },
    }
}

/// `<K, V>` after the current token, as a map type.
#[verifier::opaque]
pub open spec fn map_type_at(toks: Seq<TokM>, s: St) -> (Option<TypeModel>, St)
    decreases toks.len() - s.pos, 4nat,
{
    match expect(toks, s, TokenTag::LessThan) {
        (false, s1) => (None, s1),
        (true, s1) => {
            let s2 = adv(toks, s1);
            if !gt(toks, s, s2) {
                (None, s2)
            } else {
                match type_at(toks, s2) {
                    (None, s3) => (None, s3),
                    (Some(k), s3) => match expect(toks, s3, TokenTag::Comma) {
                        (false, s4) => (None, s4),
                        (true, s4) => {
                            let s5 = adv(toks, s4);
                            if !gt(toks, s, s5) {
                                (None, s5)
                            } else {
                                match type_at(toks, s5) {
                                    (None, s6) => (None, s6),
                                    (Some(v), s6) => match expect(toks, s6, TokenTag::GreaterThan) {
                                        (false, s7) => (None, s7),
                                        (true, s7) => (
                                            Some(TypeModel::Dict(Box::new(k), Box::new(v))),
                                            s7,
                                        ),
                                    },
                                }
                            }
                        },
                    },
                }
            }
        },
    }
}

/// The `, T` parts after the current token.
#[verifier::opaque]
pub open spec fn type_list(toks: Seq<TokM>, s: St) -> (Option<Seq<TypeModel>>, St)
    decreases toks.len() - s.pos, 3nat,
{
    if !at(toks, s) || !peek_is(toks, s, TokenTag::Comma) {
        (Some(Seq::empty()), s)
    } else {
        let s1 = adv(toks, adv(toks, s));
        if !gt(toks, s, s1) {
            (None, s1)
        } else {
            match type_at(toks, s1) {
                (None, s2) => (None, s2),
                (Some(t), s2) => if !ge(toks, s1, s2) {
                    (None, s2)
                } else {
                    cons_opt(seq![t], type_list(toks, s2))
                },
            }
        }
    }
}

/// `(T, ...)` from the `(` at the current token.
#[verifier::opaque]
pub open spec fn tuple_type_at(toks: Seq<TokM>, s: St) -> (Option<TypeModel>, St)
    decreases toks.len() - s.pos, 4nat,
{
    let s1 = adv(toks, s);
    if !gt(toks, s, s1) {
        (None, s1)
    } else {
        match type_at(toks, s1) {
            (None, s2) => (None, s2),
            (Some(t), s2) => if !ge(toks, s1, s2) {
                (None, s2)
            } else {
                match cons_opt(seq![t], type_list(toks, s2)) {
                    (None, s3) => (None, s3),
                    (Some(ts), s3) => match expect(toks, s3, TokenTag::RParen) {
                        (false, s4) => (None, s4),
                        (true, s4) => (Some(TypeModel::Tuple(ts)), s4),
                    },
                }
            },
        }
    }
}

/// `(T, ...) -> R` after the `loke` at the current token.
#[verifier::opaque]
pub open spec fn fn_type_at(toks: Seq<TokM>, s: St) -> (Option<TypeModel>, St)
    decreases toks.len() - s.pos, 4nat,
{
    match expect(toks, s, TokenTag::LParen) {
        (false, s1) => (None, s1),
        (true, s1) => {
            let params: (Option<Seq<TypeModel>>, St) = if peek_is(toks, s1, TokenTag::RParen) {
                (Some(Seq::empty()), adv(toks, s1))
            } else {
                let s2 = adv(toks, s1);
                if !gt(toks, s, s2) {
                    (None, s2)
                } else {
                    match type_at(toks, s2) {
                        (None, s3) => (None, s3),
                        (Some(t), s3) => if !ge(toks, s2, s3) {
                            (None, s3)
                        } else {
                            match cons_opt(seq![t], type_list(toks, s3)) {
                                (None, s4) => (None, s4),
                                (Some(ts), s4) => match expect(toks, s4, TokenTag::RParen) {
                                    (false, s5) => (None, s5),
                                    (true, s5) => (Some(ts), s5),
                                },
                            }
                        },
                    }
                }
            };
            match params {
                (None, s2) => (None, s2),
                (Some(ps), s2) => match expect(toks, s2, TokenTag::Arrow) {
                    (false, s3) => (None, s3),
                    (true, s3) => {
                        let s4 = adv(toks, s3);
                        if !gt(toks, s, s4) {
                            (None, s4)
                        } else {
                            match type_at(toks, s4) {
                                (None, s5) => (None, s5),
                                (Some(r), s5) => (Some(TypeModel::Function(ps, Box::new(r))), s5),
                            }
                        }
                    },
                },
            }
        },
    }
}

// ----------------------------------------------------------------------
// Parameter, field and method lists

/// One `Type name` parameter from the current token.
pub open spec fn param_item(toks: Seq<TokM>, s: St) -> (Option<ParamM>, St) {
    match type_at(toks, s) {
        (None, s1) => (None, s1),
        (Some(t), s1) => match expect_ident(toks, s1) {
            (None, s2) => (None, s2),
            (Some((n, sp)), s2) => (Some((n, t, sp)), s2),
        },
    }
}

/// The `, Type name` parameters after the current token.
#[verifier::opaque]
pub open spec fn param_rest(toks: Seq<TokM>, s: St) -> (Option<Seq<ParamM>>, St)
    decreases toks.len() - s.pos,
{
    if !at(toks, s) || !peek_is(toks, s, TokenTag::Comma) {
        (Some(Seq::empty()), s)
    } else {
        let s1 = adv(toks, adv(toks, s));
        match param_item(toks, s1) {
            (None, s2) => (None, s2),
            (Some(it), s2) => if !gt(toks, s, s2) {
                (None, s2)
            } else {
                cons_opt(seq![it], param_rest(toks, s2))
            },
        }
    }
}

/// The parameters `(Type name, ...)` from the `(` at the current token.
pub open spec fn params_at(toks: Seq<TokM>, s: St) -> (Option<Seq<ParamM>>, St) {
    if peek_is(toks, s, TokenTag::RParen) {
        (Some(Seq::empty()), adv(toks, s))
    } else {
        let s1 = adv(toks, s);
        match param_item(toks, s1) {
            (None, s2) => (None, s2),
            (Some(it), s2) => if !gt(toks, s, s2) {
                (None, s2)
            } else {
                match cons_opt(seq![it], param_rest(toks, s2)) {
                    (None, s3) => (None, s3),
                    (Some(ps), s3) => match expect(toks, s3, TokenTag::RParen) {
                        (false, s4) => (None, s4),
                        (true, s4) => (Some(ps), s4),
                    },
                }
            },
        }
    }
}

/// One `Type name` interface parameter from the current token.
pub open spec fn iparam_item(toks: Seq<TokM>, s: St) -> (Option<FieldM>, St) {
    match type_at(toks, s) {
        (None, s1) => (None, s1),
        (Some(t), s1) => match expect_ident(toks, s1) {
            (None, s2) => (None, s2),
            (Some((n, _)), s2) => (Some((n, t)), s2),
        },
    }
}

/// The `, Type name` interface parameters after the current token.
#[verifier::opaque]
pub open spec fn iparam_rest(toks: Seq<TokM>, s: St) -> (Option<Seq<FieldM>>, St)
    decreases toks.len() - s.pos,
{
    if !at(toks, s) || !peek_is(toks, s, TokenTag::Comma) {
        (Some(Seq::empty()), s)
    } else {
        let s1 = adv(toks, adv(toks, s));
        match iparam_item(toks, s1) {
            (None, s2) => (None, s2),
            (Some(it), s2) => if !gt(toks, s, s2) {
                (None, s2)
            } else {
                cons_opt(seq![it], iparam_rest(toks, s2))
            },
        }
    }
}

/// The parameters of an interface method from the `(` at the current token.
pub open spec fn iparams_at(toks: Seq<TokM>, s: St) -> (Option<Seq<FieldM>>, St) {
    if peek_is(toks, s, TokenTag::RParen) {
        (Some(Seq::empty()), adv(toks, s))
    } else {
        let s1 = adv(toks, s);
        match iparam_item(toks, s1) {
            (None, s2) => (None, s2),
            (Some(it), s2) => if !gt(toks, s, s2) {
                (None, s2)
            } else {
                match cons_opt(seq![it], iparam_rest(toks, s2)) {
                    (None, s3) => (None, s3),
                    (Some(ps), s3) => match expect(toks, s3, TokenTag::RParen) {
                        (false, s4) => (None, s4),
                        (true, s4) => (Some(ps), s4),
                    },
                }
            },
        }
    }
}

/// The `Type name;` fields of a struct from the current token to its `}`.
#[verifier::opaque]
pub open spec fn fields_at(toks: Seq<TokM>, s: St) -> (Option<Seq<FieldM>>, St)
    decreases toks.len() - s.pos,
{
    if !at(toks, s) || cur_is(toks, s, TokenTag::RBrace) || cur_is(toks, s, TokenTag::Eof) {
        (Some(Seq::empty()), s)
    } else {
        match iparam_item(toks, s) {
            (None, s1) => (None, s1),
            (Some(f), s1) => {
                let s2 = adv(toks, skip_semi(toks, s1));
                if !gt(toks, s, s2) {
                    (None, s2)
                } else {
                    cons_opt(seq![f], fields_at(toks, s2))
                }
            },
        }
    }
}

/// The `loke name(params) -> T;` methods of an interface from the current
/// token to its `}`.
#[verifier::opaque]
pub open spec fn methods_at(toks: Seq<TokM>, s: St) -> (Option<Seq<MethodM>>, St)
    decreases toks.len() - s.pos,
{
    if !at(toks, s) || cur_is(toks, s, TokenTag::RBrace) || cur_is(toks, s, TokenTag::Eof) {
        (Some(Seq::empty()), s)
    } else if !cur_is(toks, s, TokenTag::Loke) {
        (
            None,
            err_cur(
                toks,
                s,
                "Expected 'loke' in interface method declaration, got "@ + kind_debug(
                    toks[s.pos].kind,
                ),
            ),
        )
    } else {
        match expect_ident(toks, s) {
            (None, s1) => (None, s1),
            (Some((n, _)), s1) => match expect(toks, s1, TokenTag::LParen) {
                (false, s2) => (None, s2),
                (true, s2) => match iparams_at(toks, s2) {
                    (None, s3) => (None, s3),
                    (Some(ps), s3) => match expect(toks, s3, TokenTag::Arrow) {
                        (false, s4) => (None, s4),
                        (true, s4) => match type_at(toks, adv(toks, s4)) {
                            (None, s5) => (None, s5),
                            (Some(r), s5) => {
                                let s6 = adv(toks, skip_semi(toks, s5));
                                if !gt(toks, s, s6) {
                                    (None, s6)
                                } else {
                                    cons_opt(seq![(n, ps, r)], methods_at(toks, s6))
                                }
                            },
                        },
                    },
                },
            },
        }
    }
}

// ----------------------------------------------------------------------
// Statements

/// The statements from the current token up to the end of input (`top`)
/// or up to the end of input or a `}` (in a block), at block depth `d`.
#[verifier::opaque]
pub open spec fn stmts_at(toks: Seq<TokM>, d: int, s: St, top: bool) -> (Seq<StmtModel>, St)
    decreases toks.len() - s.pos, 50nat,
{
    if !at(toks, s) || cur_is(toks, s, TokenTag::Eof) || (!top && cur_is(toks, s, TokenTag::RBrace)) {
        (Seq::empty(), s)
    } else {
        let (r, s1) = stmt_at(toks, d, s);
        let s2 = adv(toks, s1);
        if !gt(toks, s, s2) {
            (Seq::empty(), s2)
        } else {
            let (rest, s3) = stmts_at(toks, d, s2, top);
            (
                match r {
                    Some(x) => seq![x] + rest,
                    None => rest,
                },
                s3,
            )
        }
    }
}

/// The program: its statements up to the end of input.
pub open spec fn program_at(toks: Seq<TokM>, s: St) -> (Seq<StmtModel>, St) {
    stmts_at(toks, 0, s, true)
}

/// A block from the `{` at the current token, at block depth `d`: its
/// statements, one block deeper.
#[verifier::opaque]
pub open spec fn block_at(toks: Seq<TokM>, d: int, s: St) -> (Seq<StmtModel>, St)
    decreases toks.len() - s.pos, 51nat,
{
    let s1 = adv(toks, s);
    if !gt(toks, s, s1) {
        (Seq::empty(), s1)
    } else {
        stmts_at(toks, d + 1, s1, false)
    }
}

/// The statement at the current token.
#[verifier::opaque]
pub open spec fn stmt_at(toks: Seq<TokM>, d: int, s: St) -> (Option<StmtModel>, St)
    decreases toks.len() - s.pos, 30nat,
{
    if !at(toks, s) {
        (None, s)
    } else {
        match tag(toks, s.pos) {
            TokenTag::Atote => package_at(toks, d, s),
            TokenTag::Pay => export_at(toks, d, s),
            TokenTag::Kain | TokenTag::Sar | TokenTag::Sit | TokenTag::DaTha | TokenTag::Su
            | TokenTag::Twe | TokenTag::Laung | TokenTag::Baung => let_at(toks, d, s),
            TokenTag::Hlyin => if_at(toks, d, s),
            TokenTag::Pyan => return_at(toks, d, s),
            TokenTag::Pat => pat_at(toks, d, s),
            TokenTag::Break => (Some(StmtModel::Break), skip_semi(toks, s)),
            TokenTag::Continue => (Some(StmtModel::Continue), skip_semi(toks, s)),
            TokenTag::Kyoe => go_at(toks, d, true, s),
            TokenTag::NautSone => go_at(toks, d, false, s),
            TokenTag::SetSae => test_at(toks, d, s),
            TokenTag::Phat => expr_stmt_at(toks, d, s),
            TokenTag::Yu => import_at(toks, s),
            TokenTag::Loke => fn_decl_at(toks, d, s),
            TokenTag::Pya => print_at(toks, d, s),
            TokenTag::Pone => struct_at(toks, s),
            TokenTag::Nee => method_at(toks, d, s),
            TokenTag::Myat => interface_at(toks, s),
            TokenTag::Amhar => if peek_is(toks, s, TokenTag::Identifier) {
                let_at(toks, d, s)
            } else {
                expr_stmt_at(toks, d, s)
            },
            TokenTag::Identifier => if peek_is(toks, s, TokenTag::Identifier) {
                let_at(toks, d, s)
            } else {
                reassign_at(toks, d, s)
            },
            _ => expr_stmt_at(toks, d, s),
        }
    }
}

pub open spec fn package_at(toks: Seq<TokM>, d: int, s: St) -> (Option<StmtModel>, St) {
    if d > 0 {
        (None, err_cur(toks, s, "`atote` is only allowed at top level"@))
    } else {
        match expect_ident(toks, s) {
            (None, s1) => (None, s1),
            (Some((n, sp)), s1) => (Some(StmtModel::PackageDecl(n, sp)), skip_semi(toks, s1)),
        }
    }
}

#[verifier::opaque]
pub open spec fn export_at(toks: Seq<TokM>, d: int, s: St) -> (Option<StmtModel>, St)
    decreases toks.len() - s.pos, 20nat,
{
    let sp = span(toks, s.pos);
    if d > 0 {
        (None, err_cur(toks, s, "`pay` is only allowed at top level"@))
    } else {
        let s1 = adv(toks, s);
        if !gt(toks, s, s1) {
            (None, s1)
        } else {
            match stmt_at(toks, d, s1) {
                (None, s2) => (None, s2),
                (Some(inner), s2) => if !exportable_m(inner) {
                    (None, err(s2, "`pay` can only export declarations"@, sp.line, sp.column))
                } else {
                    (Some(StmtModel::Export(Box::new(inner), sp)), s2)
                },
            }
        }
    }
}

pub open spec fn import_at(toks: Seq<TokM>, s: St) -> (Option<StmtModel>, St) {
    let s1 = adv(toks, s);
    let sp = span(toks, s1.pos);
    match toks[s1.pos].kind {
        KindModel::Identifier(n) => (Some(StmtModel::Import(n, sp)), skip_semi(toks, s1)),
        KindModel::StringLiteral(n) => (Some(StmtModel::Import(n, sp)), skip_semi(toks, s1)),
        _ => (None, s1),
    }
}

#[verifier::opaque]
pub open spec fn test_at(toks: Seq<TokM>, d: int, s: St) -> (Option<StmtModel>, St)
    decreases toks.len() - s.pos, 20nat,
{
    if d > 0 {
        (None, err_cur(toks, s, "`set_sae` is only allowed at top level"@))
    } else {
        match expect_ident(toks, s) {
            (None, s1) => (None, s1),
            (Some((n, sp)), s1) => match expect(toks, s1, TokenTag::LBrace) {
                (false, s2) => (None, s2),
                (true, s2) => if !gt(toks, s, s2) {
                    (None, s2)
                } else {
                    let (body, s3) = block_at(toks, d, s2);
                    (Some(StmtModel::TestDecl(n, body, sp)), s3)
                },
            },
        }
    }
}

/// The `Type name, ...` names of a destructuring after its first comma at
/// the current token: whether they ended well, the names read, the state.
#[verifier::opaque]
pub open spec fn destructured_tail(toks: Seq<TokM>, s: St) -> (bool, Seq<ParamM>, St)
    decreases toks.len() - s.pos,
{
    match param_item(toks, adv(toks, s)) {
        (None, s2) => (false, Seq::empty(), s2),
        (Some(it), s2) => if !peek_is(toks, s2, TokenTag::Comma) {
            (true, seq![it], s2)
        } else {
            let s3 = adv(toks, s2);
            if !gt(toks, s, s3) {
                (false, seq![it], s3)
            } else {
                let (ok, rest, s4) = destructured_tail(toks, s3);
                (ok, seq![it] + rest, s4)
            }
        },
    }
}

/// `= value;` of a declaration of the given names, from the token before
/// the `=`.
#[verifier::opaque]
pub open spec fn destructured_value(toks: Seq<TokM>, d: int, names: Seq<ParamM>, s: St, from: St) -> (
    Option<StmtModel>,
    St,
)
    decreases toks.len() - from.pos, 19nat,
{
    match expect(toks, s, TokenTag::Assign) {
        (false, s1) => (None, s1),
        (true, s1) => {
            let s2 = adv(toks, s1);
            if !gt(toks, from, s2) {
                (None, s2)
            } else {
                match expr_at(toks, d, 1, s2) {
                    (None, s3) => (None, s3),
                    (Some(v), s3) => (Some(StmtModel::LetDestructured(names, v)), skip_semi(toks, s3)),
                }
            }
        },
    }
}

/// `= value;` of a declaration of one name, from the token before the `=`.
#[verifier::opaque]
pub open spec fn let_value(
    toks: Seq<TokM>,
    d: int,
    name: Seq<char>,
    ty: TypeModel,
    sp: Span,
    s: St,
    from: St,
) -> (Option<StmtModel>, St)
    decreases toks.len() - from.pos, 19nat,
{
    match expect(toks, s, TokenTag::Assign) {
        (false, s1) => (None, s1),
        (true, s1) => {
            let s2 = adv(toks, s1);
            if !gt(toks, from, s2) {
                (None, s2)
            } else {
                match expr_at(toks, d, 1, s2) {
                    (None, s3) => (None, s3),
                    (Some(v), s3) => (Some(StmtModel::Let(name, v, ty, sp)), skip_semi(toks, s3)),
                }
            }
        },
    }
}

/// The rest of a declaration whose first name has been read, the state at
/// that name: a destructuring when a comma follows, one name otherwise.
#[verifier::opaque]
pub open spec fn declaration_rest(
    toks: Seq<TokM>,
    d: int,
    name: Seq<char>,
    ty: TypeModel,
    sp: Span,
    s: St,
    from: St,
) -> (Option<StmtModel>, St)
    decreases toks.len() - from.pos, 20nat,
{
    if peek_is(toks, s, TokenTag::Comma) {
        let s1 = adv(toks, s);
        if !gt(toks, from, s1) {
            (None, s1)
        } else {
            match destructured_tail(toks, s1) {
                (false, _, s2) => (None, s2),
                (true, rest, s2) => if !ge(toks, from, s2) {
                    (None, s2)
                } else {
                    destructured_value(toks, d, seq![(name, ty, sp)] + rest, s2, from)
                },
            }
        }
    } else if !ge(toks, from, s) {
        (None, s)
    } else {
        let_value(toks, d, name, ty, sp, s, from)
    }
}

#[verifier::opaque]
pub open spec fn let_at(toks: Seq<TokM>, d: int, s: St) -> (Option<StmtModel>, St)
    decreases toks.len() - s.pos, 21nat,
{
    match type_at(toks, s) {
        (None, s1) => (None, s1),
        (Some(t), s1) => match expect_ident(toks, s1) {
            (None, s2) => (None, s2),
            (Some((n, sp)), s2) => if !ge(toks, s, s2) {
                (None, s2)
            } else {
                declaration_rest(toks, d, n, t, sp, s2, s)
            },
        },
    }
}

/// The assignment `left = value;` whose value starts at `s2`.
#[verifier::opaque]
pub open spec fn assignment_at(toks: Seq<TokM>, d: int, left: ExprModel, sp: Span, s: St, from: St) -> (
    Option<StmtModel>,
    St,
)
    decreases toks.len() - from.pos, 19nat,
{
    let s1 = adv(toks, adv(toks, s));
    if !gt(toks, from, s1) {
        (None, s1)
    } else {
        match expr_at(toks, d, 1, s1) {
            (None, s2) => (None, s2),
            (Some(v), s2) => {
                let s3 = skip_semi(toks, s2);
                match left {
                    ExprModel::Ident(n) => (Some(StmtModel::Assign(n, v, sp)), s3),
                    ExprModel::Field(obj, f) => match *obj {
                        ExprModel::Ident(o) => (Some(StmtModel::FieldAssign(o, f, v, sp)), s3),
                        _ => (None, err(s3, "Invalid field assignment target"@, sp.line, sp.column)),
                    },
                    ExprModel::Index(l, i) => (Some(StmtModel::IndexAssign(*l, *i, v, sp)), s3),
                    _ => (None, err(s3, "Invalid assignment target"@, sp.line, sp.column)),
                }
            },
        }
    }
}

#[verifier::opaque]
pub open spec fn reassign_at(toks: Seq<TokM>, d: int, s: St) -> (Option<StmtModel>, St)
    decreases toks.len() - s.pos, 22nat,
{
    let sp = span(toks, s.pos);
    match expr_at(toks, d, 1, s) {
        (None, s1) => (None, s1),
        (Some(left), s1) => if !ge(toks, s, s1) {
            (None, s1)
        } else if peek_is(toks, s1, TokenTag::Assign) {
            assignment_at(toks, d, left, sp, s1, s)
        } else {
            match left {
                ExprModel::Field(obj, f) => match *obj {
                    ExprModel::Ident(ns) => if peek_is(toks, s1, TokenTag::Identifier) {
                        let s2 = adv(toks, s1);
                        if !gt(toks, s, s2) {
                            (None, s2)
                        } else {
                            declaration_rest(
                                toks,
                                d,
                                km_ident(toks[s2.pos].kind),
                                TypeModel::Struct(ns + seq!['.'] + f),
                                span(toks, s2.pos),
                                s2,
                                s,
                            )
                        }
                    } else {
                        (Some(StmtModel::ExpressionStatement(left)), skip_semi(toks, s1))
                    },
                    _ => (Some(StmtModel::ExpressionStatement(left)), skip_semi(toks, s1)),
                },
                _ => (Some(StmtModel::ExpressionStatement(left)), skip_semi(toks, s1)),
            }
        },
    }
}

/// The `, e` items after the current token.
#[verifier::opaque]
pub open spec fn expr_rest(toks: Seq<TokM>, d: int, s: St) -> (Option<Seq<ExprModel>>, St)
    decreases toks.len() - s.pos, 0nat,
{
    if !at(toks, s) || !peek_is(toks, s, TokenTag::Comma) {
        (Some(Seq::empty()), s)
    } else {
        let s1 = adv(toks, adv(toks, s));
        if !gt(toks, s, s1) {
            (None, s1)
        } else {
            match expr_at(toks, d, 1, s1) {
                (None, s2) => (None, s2),
                (Some(e), s2) => if !ge(toks, s1, s2) {
                    (None, s2)
                } else {
                    cons_opt(seq![e], expr_rest(toks, d, s2))
                },
            }
        }
    }
}

#[verifier::opaque]
pub open spec fn return_at(toks: Seq<TokM>, d: int, s: St) -> (Option<StmtModel>, St)
    decreases toks.len() - s.pos, 20nat,
{
    let s1 = adv(toks, s);
    if !gt(toks, s, s1) {
        (None, s1)
    } else if cur_is(toks, s1, TokenTag::LParen) {
        let s2 = adv(toks, s1);
        if !gt(toks, s, s2) {
            (None, s2)
        } else {
            match expr_at(toks, d, 1, s2) {
                (None, s3) => (None, s3),
                (Some(first), s3) => if !ge(toks, s2, s3) {
                    (None, s3)
                } else if peek_is(toks, s3, TokenTag::Comma) {
                    match cons_opt(seq![first], expr_rest(toks, d, s3)) {
                        (None, s4) => (None, s4),
                        (Some(es), s4) => match expect(toks, s4, TokenTag::RParen) {
                            (false, s5) => (None, s5),
                            (true, s5) => (
                                Some(StmtModel::Return(ExprModel::Tuple(es))),
                                skip_semi(toks, s5),
                            ),
                        },
                    }
                } else {
                    match expect(toks, s3, TokenTag::RParen) {
                        (false, s4) => (None, s4),
                        (true, s4) => (Some(StmtModel::Return(first)), skip_semi(toks, s4)),
                    }
                },
            }
        }
    } else {
        match expr_at(toks, d, 1, s1) {
            (None, s2) => (None, s2),
            (Some(v), s2) => (Some(StmtModel::Return(v)), skip_semi(toks, s2)),
        }
    }
}

#[verifier::opaque]
pub open spec fn go_at(toks: Seq<TokM>, d: int, go: bool, s: St) -> (Option<StmtModel>, St)
    decreases toks.len() - s.pos, 20nat,
{
    let s1 = adv(toks, s);
    if !gt(toks, s, s1) {
        (None, s1)
    } else {
        match expr_at(toks, d, 1, s1) {
            (None, s2) => (None, s2),
            (Some(call), s2) => if !(call is Call || call is MethodCall) {
                (
                    None,
                    err_cur(
                        toks,
                        s2,
                        if go {
                            "`kyoe` expects a function or method call"@
                        } else {
                            "`naut_sone` expects a function or method call"@
                        },
                    ),
                )
            } else if go {
                (Some(StmtModel::Go(call)), skip_semi(toks, s2))
            } else {
                (Some(StmtModel::Defer(call)), skip_semi(toks, s2))
            },
        }
    }
}

#[verifier::opaque]
pub open spec fn print_at(toks: Seq<TokM>, d: int, s: St) -> (Option<StmtModel>, St)
    decreases toks.len() - s.pos, 20nat,
{
    match expect(toks, s, TokenTag::LParen) {
        (false, s1) => (None, s1),
        (true, s1) => {
            let s2 = adv(toks, s1);
            if !gt(toks, s, s2) {
                (None, s2)
            } else {
                match expr_at(toks, d, 1, s2) {
                    (None, s3) => (None, s3),
                    (Some(v), s3) => match expect(toks, s3, TokenTag::RParen) {
                        (false, s4) => (None, s4),
                        (true, s4) => (Some(StmtModel::Print(v)), skip_semi(toks, s4)),
                    },
                }
            }
        },
    }
}

#[verifier::opaque]
pub open spec fn if_at(toks: Seq<TokM>, d: int, s: St) -> (Option<StmtModel>, St)
    decreases toks.len() - s.pos, 20nat,
{
    match expect(toks, s, TokenTag::LParen) {
        (false, s1) => (None, s1),
        (true, s1) => {
            let s2 = adv(toks, s1);
            if !gt(toks, s, s2) {
                (None, s2)
            } else {
                match expr_at(toks, d, 1, s2) {
                    (None, s3) => (None, s3),
                    (Some(c), s3) => match expect(toks, s3, TokenTag::RParen) {
                        (false, s4) => (None, s4),
                        (true, s4) => match expect(toks, s4, TokenTag::LBrace) {
                            (false, s5) => (None, s5),
                            (true, s5) => if !gt(toks, s, s5) {
                                (None, s5)
                            } else {
                                let (cons, s6) = block_at(toks, d, s5);
                                if !peek_is(toks, s6, TokenTag::Mo) {
                                    (Some(StmtModel::If(c, cons, None)), s6)
                                } else {
                                    let s7 = adv(toks, s6);
                                    if !gt(toks, s, s7) {
                                        (None, s7)
                                    } else if peek_is(toks, s7, TokenTag::Hlyin) {
                                        let s8 = adv(toks, s7);
                                        if !gt(toks, s, s8) {
                                            (None, s8)
                                        } else {
                                            match if_at(toks, d, s8) {
                                                (None, s9) => (None, s9),
                                                (Some(inner), s9) => (
                                                    Some(
                                                        StmtModel::If(
                                                            c,
                                                            cons,
                                                            Some(AltModel::ElseIf(Box::new(inner))),
                                                        ),
                                                    ),
                                                    s9,
                                                ),
                                            }
                                        }
                                    } else {
                                        match expect(toks, s7, TokenTag::LBrace) {
                                            (false, s8) => (None, s8),
                                            (true, s8) => if !gt(toks, s, s8) {
                                                (None, s8)
                                            } else {
                                                let (alt, s9) = block_at(toks, d, s8);
                                                (
                                                    Some(StmtModel::If(c, cons, Some(AltModel::Else(alt)))),
                                                    s9,
                                                )
                                            },
                                        }
                                    }
                                }
                            },
                        },
                    },
                }
            }
        },
    }
}

#[verifier::opaque]
pub open spec fn pat_at(toks: Seq<TokM>, d: int, s: St) -> (Option<StmtModel>, St)
    decreases toks.len() - s.pos, 25nat,
{
    if peek_is(toks, s, TokenTag::LParen) {
        paren_pat_at(toks, d, s)
    } else {
        for_in_stmt_at(toks, d, s)
    }
}

#[verifier::opaque]
pub open spec fn for_in_tail(
    toks: Seq<TokM>,
    d: int,
    index: Option<Seq<char>>,
    iterator: Seq<char>,
    sp: Span,
    s: St,
) -> (Option<StmtModel>, St)
    decreases toks.len() - s.pos, 18nat,
{
    match expect(toks, s, TokenTag::Htae) {
        (false, s1) => (None, s1),
        (true, s1) => {
            let s2 = adv(toks, s1);
            if !gt(toks, s, s2) {
                (None, s2)
            } else {
                match expr_at(toks, d, 1, s2) {
                    (None, s3) => (None, s3),
                    (Some(c), s3) => match expect(toks, s3, TokenTag::LBrace) {
                        (false, s4) => (None, s4),
                        (true, s4) => if !gt(toks, s, s4) {
                            (None, s4)
                        } else {
                            let (body, s5) = block_at(toks, d, s4);
                            (Some(StmtModel::ForIn(index, iterator, c, body, sp)), s5)
                        },
                    },
                }
            }
        },
    }
}

#[verifier::opaque]
pub open spec fn for_in_stmt_at(toks: Seq<TokM>, d: int, s: St) -> (Option<StmtModel>, St)
    decreases toks.len() - s.pos, 20nat,
{
    match expect_ident(toks, s) {
        (None, s1) => (None, s1),
        (Some((it, sp)), s1) => if !gt(toks, s, s1) {
            (None, s1)
        } else {
            for_in_tail(toks, d, None, it, sp, s1)
        },
    }
}

/// The for-in loop of `(Type name` or `(Type i, Type name` whose first
/// name has been read, the state at that name.
#[verifier::opaque]
pub open spec fn typed_for_in(toks: Seq<TokM>, d: int, first: Seq<char>, first_sp: Span, s: St, from: St) -> (
    Option<StmtModel>,
    St,
)
    decreases toks.len() - from.pos, 19nat,
{
    let head: (Option<(Option<Seq<char>>, Seq<char>, Span)>, St) = if peek_is(
        toks,
        s,
        TokenTag::Comma,
    ) {
        let s1 = adv(toks, adv(toks, s));
        match param_item(toks, s1) {
            (None, s2) => (None, s2),
            (Some((second, _, sp2)), s2) => (Some((Some(first), second, sp2)), s2),
        }
    } else {
        (Some((None, first, first_sp)), s)
    };
    match head {
        (None, s1) => (None, s1),
        (Some((index, iterator, sp)), s1) => match expect(toks, s1, TokenTag::RParen) {
            (false, s2) => (None, s2),
            (true, s2) => if !gt(toks, from, s2) {
                (None, s2)
            } else {
                for_in_tail(toks, d, index, iterator, sp, s2)
            },
        },
    }
}

#[verifier::opaque]
pub open spec fn paren_pat_at(toks: Seq<TokM>, d: int, s: St) -> (Option<StmtModel>, St)
    decreases toks.len() - s.pos, 20nat,
{
    let s1 = adv(toks, adv(toks, s));
    if !gt(toks, s, s1) {
        (None, s1)
    } else {
        let cur = tag(toks, s1.pos);
        if cur == TokenTag::Semicolon || (cur == TokenTag::Identifier && peek_is(
            toks,
            s1,
            TokenTag::Assign,
        )) {
            classic_for_at(toks, d, s1)
        } else if can_start_type(cur) && peek_is(toks, s1, TokenTag::Identifier) {
            match param_item(toks, s1) {
                (None, s2) => (None, s2),
                (Some((name, ty, sp)), s2) => if !gt(toks, s, s2) {
                    (None, s2)
                } else if peek_is(toks, s2, TokenTag::Assign) {
                    let s3 = adv(toks, adv(toks, s2));
                    if !gt(toks, s, s3) {
                        (None, s3)
                    } else {
                        match expr_at(toks, d, 1, s3) {
                            (None, s4) => (None, s4),
                            (Some(v), s4) => if !gt(toks, s, s4) {
                                (None, s4)
                            } else {
                                classic_tail(toks, d, Some(StmtModel::Let(name, v, ty, sp)), s4)
                            },
                        }
                    }
                } else {
                    typed_for_in(toks, d, name, sp, s2, s)
                },
            }
        } else if cur == TokenTag::Identifier && peek_is(toks, s1, TokenTag::Comma) {
            let index = km_ident(toks[s1.pos].kind);
            let sp = span(toks, s1.pos);
            let s2 = adv(toks, s1);
            match expect_ident(toks, s2) {
                (None, s3) => (None, s3),
                (Some((it, _)), s3) => match expect(toks, s3, TokenTag::RParen) {
                    (false, s4) => (None, s4),
                    (true, s4) => if !gt(toks, s, s4) {
                        (None, s4)
                    } else {
                        for_in_tail(toks, d, Some(index), it, sp, s4)
                    },
                },
            }
        } else {
            match expr_at(toks, d, 1, s1) {
                (None, s2) => (None, s2),
                (Some(c), s2) => match expect(toks, s2, TokenTag::RParen) {
                    (false, s3) => (None, s3),
                    (true, s3) => match expect(toks, s3, TokenTag::LBrace) {
                        (false, s4) => (None, s4),
                        (true, s4) => if !gt(toks, s, s4) {
                            (None, s4)
                        } else {
                            let (body, s5) = block_at(toks, d, s4);
                            (Some(StmtModel::While(c, body)), s5)
                        },
                    },
                },
            }
        }
    }
}

#[verifier::opaque]
pub open spec fn classic_for_at(toks: Seq<TokM>, d: int, s: St) -> (Option<StmtModel>, St)
    decreases toks.len() - s.pos, 15nat,
{
    if cur_is(toks, s, TokenTag::Semicolon) {
        classic_tail(toks, d, None, s)
    } else {
        match component_at(toks, d, true, s) {
            (None, s1) => (None, s1),
            (Some(init), s1) => if !ge(toks, s, s1) {
                (None, s1)
            } else {
                classic_tail(toks, d, Some(init), s1)
            },
        }
    }
}

/// Moving onto a token with tag `t`: nothing when already there, else the
/// next one must have it.
pub open spec fn onto(toks: Seq<TokM>, s: St, t: TokenTag) -> (bool, St) {
    if !cur_is(toks, s, t) {
        expect(toks, s, t)
    } else {
        (true, s)
    }
}

#[verifier::opaque]
pub open spec fn classic_tail(toks: Seq<TokM>, d: int, init: Option<StmtModel>, s: St) -> (
    Option<StmtModel>,
    St,
)
    decreases toks.len() - s.pos, 14nat,
{
    match onto(toks, s, TokenTag::Semicolon) {
        (false, s1) => (None, s1),
        (true, s1) => {
            let s2 = adv(toks, s1);
            if !gt(toks, s, s2) {
                (None, s2)
            } else {
                let cond: (Option<Option<ExprModel>>, St) = if cur_is(toks, s2, TokenTag::Semicolon) {
                    (Some(None), s2)
                } else {
                    match expr_at(toks, d, 1, s2) {
                        (None, s3) => (None, s3),
                        (Some(c), s3) => (Some(Some(c)), s3),
                    }
                };
                match cond {
                    (None, s3) => (None, s3),
                    (Some(c), s3) => match onto(toks, s3, TokenTag::Semicolon) {
                        (false, s4) => (None, s4),
                        (true, s4) => {
                            let s5 = adv(toks, s4);
                            if !gt(toks, s, s5) {
                                (None, s5)
                            } else {
                                let post: (Option<Option<StmtModel>>, St) = if cur_is(
                                    toks,
                                    s5,
                                    TokenTag::RParen,
                                ) {
                                    (Some(None), s5)
                                } else {
                                    match component_at(toks, d, false, s5) {
                                        (None, s6) => (None, s6),
                                        (Some(p), s6) => (Some(Some(p)), s6),
                                    }
                                };
                                match post {
                                    (None, s6) => (None, s6),
                                    (Some(p), s6) => match onto(toks, s6, TokenTag::RParen) {
                                        (false, s7) => (None, s7),
                                        (true, s7) => match expect(toks, s7, TokenTag::LBrace) {
                                            (false, s8) => (None, s8),
                                            (true, s8) => if !gt(toks, s, s8) {
                                                (None, s8)
                                            } else {
                                                let (body, s9) = block_at(toks, d, s8);
                                                (
                                                    Some(
                                                        StmtModel::ForClassic(
                                                            match init {
                                                                Some(x) => Some(Box::new(x)),
                                                                None => None,
                                                            },
                                                            c,
                                                            match p {
                                                                Some(x) => Some(Box::new(x)),
                                                                None => None,
                                                            },
                                                            body,
                                                        ),
                                                    ),
                                                    s9,
                                                )
                                            },
                                        },
                                    },
                                }
                            }
                        },
                    },
                }
            }
        },
    }
}

#[verifier::opaque]
pub open spec fn component_at(toks: Seq<TokM>, d: int, allow_typed_let: bool, s: St) -> (
    Option<StmtModel>,
    St,
)
    decreases toks.len() - s.pos, 13nat,
{
    let cur = tag(toks, s.pos);
    if allow_typed_let && can_start_type(cur) && peek_is(toks, s, TokenTag::Identifier) {
        match param_item(toks, s) {
            (None, s1) => (None, s1),
            (Some((n, t, sp)), s1) => match expect(toks, s1, TokenTag::Assign) {
                (false, s2) => (None, s2),
                (true, s2) => {
                    let s3 = adv(toks, s2);
                    if !gt(toks, s, s3) {
                        (None, s3)
                    } else {
                        match expr_at(toks, d, 1, s3) {
                            (None, s4) => (None, s4),
                            (Some(v), s4) => (Some(StmtModel::Let(n, v, t, sp)), s4),
                        }
                    }
                },
            },
        }
    } else if cur == TokenTag::Identifier && peek_is(toks, s, TokenTag::Assign) {
        let sp = span(toks, s.pos);
        let n = km_ident(toks[s.pos].kind);
        let s1 = adv(toks, adv(toks, s));
        if !gt(toks, s, s1) {
            (None, s1)
        } else {
            match expr_at(toks, d, 1, s1) {
                (None, s2) => (None, s2),
                (Some(v), s2) => (Some(StmtModel::Assign(n, v, sp)), s2),
            }
        }
    } else {
        match expr_at(toks, d, 1, s) {
            (None, s1) => (None, s1),
            (Some(e), s1) => (Some(StmtModel::ExpressionStatement(e)), s1),
        }
    }
}

/// `(params) -> T { body }` from the token before the `(`: the parameters,
/// the result type and the body.
#[verifier::opaque]
pub open spec fn signature_body(toks: Seq<TokM>, d: int, s: St, from: St) -> (
    Option<(Seq<ParamM>, TypeModel, Seq<StmtModel>)>,
    St,
)
    decreases toks.len() - from.pos, 19nat,
{
    match expect(toks, s, TokenTag::LParen) {
        (false, s1) => (None, s1),
        (true, s1) => match params_at(toks, s1) {
            (None, s2) => (None, s2),
            (Some(ps), s2) => match expect(toks, s2, TokenTag::Arrow) {
                (false, s3) => (None, s3),
                (true, s3) => match type_at(toks, adv(toks, s3)) {
                    (None, s4) => (None, s4),
                    (Some(r), s4) => match expect(toks, s4, TokenTag::LBrace) {
                        (false, s5) => (None, s5),
                        (true, s5) => if !gt(toks, from, s5) {
                            (None, s5)
                        } else {
                            let (body, s6) = block_at(toks, d, s5);
                            (Some((ps, r, body)), s6)
                        },
                    },
                },
            },
        },
    }
}

#[verifier::opaque]
pub open spec fn fn_decl_at(toks: Seq<TokM>, d: int, s: St) -> (Option<StmtModel>, St)
    decreases toks.len() - s.pos, 20nat,
{
    match expect_ident(toks, s) {
        (None, s1) => (None, s1),
        (Some((n, sp)), s1) => if !ge(toks, s, s1) {
            (None, s1)
        } else {
            match signature_body(toks, d, s1, s) {
                (None, s2) => (None, s2),
                (Some((ps, r, body)), s2) => (Some(StmtModel::FunctionDecl(n, ps, r, body, sp)), s2),
            }
        },
    }
}

pub open spec fn struct_at(toks: Seq<TokM>, s: St) -> (Option<StmtModel>, St) {
    match expect_ident(toks, s) {
        (None, s1) => (None, s1),
        (Some((n, sp)), s1) => match expect(toks, s1, TokenTag::LBrace) {
            (false, s2) => (None, s2),
            (true, s2) => match fields_at(toks, adv(toks, s2)) {
                (None, s3) => (None, s3),
                (Some(fs), s3) => (Some(StmtModel::StructDecl(n, fs, sp)), s3),
            },
        },
    }
}

#[verifier::opaque]
pub open spec fn method_at(toks: Seq<TokM>, d: int, s: St) -> (Option<StmtModel>, St)
    decreases toks.len() - s.pos, 20nat,
{
    match expect(toks, s, TokenTag::LParen) {
        (false, s1) => (None, s1),
        (true, s1) => {
            let s2 = adv(toks, s1);
            if !cur_is(toks, s2, TokenTag::Identifier) {
                (None, err_cur(toks, s2, "Expected receiver type name"@))
            } else {
                let recv_type = km_ident(toks[s2.pos].kind);
                match expect_ident(toks, s2) {
                    (None, s3) => (None, s3),
                    (Some((recv_name, _)), s3) => match expect(toks, s3, TokenTag::RParen) {
                        (false, s4) => (None, s4),
                        (true, s4) => match expect_ident(toks, s4) {
                            (None, s5) => (None, s5),
                            (Some((n, sp)), s5) => if !ge(toks, s, s5) {
                                (None, s5)
                            } else {
                                match signature_body(toks, d, s5, s) {
                                    (None, s6) => (None, s6),
                                    (Some((ps, r, body)), s6) => (
                                        Some(StmtModel::MethodDecl(recv_type, recv_name, n, ps, r, body, sp)),
                                        s6,
                                    ),
                                }
                            },
                        },
                    },
                }
            }
        },
    }
}

pub open spec fn interface_at(toks: Seq<TokM>, s: St) -> (Option<StmtModel>, St) {
    match expect_ident(toks, s) {
        (None, s1) => (None, s1),
        (Some((n, sp)), s1) => match expect(toks, s1, TokenTag::LBrace) {
            (false, s2) => (None, s2),
            (true, s2) => match methods_at(toks, adv(toks, s2)) {
                (None, s3) => (None, s3),
                (Some(ms), s3) => (Some(StmtModel::InterfaceDecl(n, ms, sp)), s3),
            },
        },
    }
}

#[verifier::opaque]
pub open spec fn expr_stmt_at(toks: Seq<TokM>, d: int, s: St) -> (Option<StmtModel>, St)
    decreases toks.len() - s.pos, 20nat,
{
    match expr_at(toks, d, 1, s) {
        (None, s1) => (None, s1),
        (Some(e), s1) => (Some(StmtModel::ExpressionStatement(e)), skip_semi(toks, s1)),
    }
}

// ----------------------------------------------------------------------
// Expressions

/// The expression at the current token, read at binding power `prec`.
#[verifier::opaque]
pub open spec fn expr_at(toks: Seq<TokM>, d: int, prec: u8, s: St) -> (Option<ExprModel>, St)
    decreases toks.len() - s.pos, 10nat,
{
    if !at(toks, s) {
        (None, s)
    } else {
        match prefix_at(toks, d, s) {
            (None, s1) => (None, s1),
            (Some(l), s1) => if !ge(toks, s, s1) {
                (None, s1)
            } else {
                infix_loop(toks, d, prec, l, s1)
            },
        }
    }
}

/// The expression that begins at the current token, before any operator.
#[verifier::opaque]
pub open spec fn prefix_at(toks: Seq<TokM>, d: int, s: St) -> (Option<ExprModel>, St)
    decreases toks.len() - s.pos, 9nat,
{
    let k = toks[s.pos].kind;
    match k {
        KindModel::Identifier(name) => if has_pyaung_prefix(name) {
            conversion_at(toks, d, name, s)
        } else if peek_is(toks, s, TokenTag::LBrace) && name.len() > 0 && uppercase(name[0]) {
            let (e, s1) = struct_lit_at(toks, d, name, s);
            (Some(e), s1)
        } else {
            (Some(ExprModel::Ident(name)), s)
        },
        KindModel::Number(v) => (Some(ExprModel::Int(v)), s),
        KindModel::FloatLiteral(w, f) => (Some(ExprModel::Float(w, f)), s),
        KindModel::StringLiteral(v) => (Some(ExprModel::Str(v)), s),
        KindModel::Plain(TokenTag::Hman) => (Some(ExprModel::Bool(true)), s),
        KindModel::Plain(TokenTag::Hmar) => (Some(ExprModel::Bool(false)), s),
        KindModel::Plain(TokenTag::Bhala) => (Some(ExprModel::Nil), s),
        KindModel::Plain(TokenTag::Amhar) => wrapped_at(toks, d, 0, s),
        KindModel::Plain(TokenTag::Loke) => closure_at(toks, d, s),
        KindModel::Plain(TokenTag::Laung) => channel_at(toks, d, s),
        KindModel::Plain(TokenTag::Baung) => wrapped_at(toks, d, 1, s),
        KindModel::Plain(TokenTag::Htae) => if peek_is(toks, s, TokenTag::LParen) {
            (Some(ExprModel::Ident("htae"@)), s)
        } else {
            (None, err_cur(toks, s, "Unexpected htae in expression context"@))
        },
        KindModel::Plain(TokenTag::LParen) => grouped_at(toks, d, s),
        KindModel::Plain(TokenTag::LBracket) => match expr_list_at(toks, d, TokenTag::RBracket, s) {
            (None, s1) => (None, s1),
            (Some(es), s1) => (Some(ExprModel::Array(es)), s1),
        },
        KindModel::Plain(TokenTag::LBrace) => hash_at(toks, d, s),
        KindModel::Plain(TokenTag::Phat) => wrapped_at(toks, d, 2, s),
        _ => (None, err_cur(toks, s, "No prefix parse function for "@ + kind_debug(k))),
    }
}

/// The operators that follow an expression `left`, applied while they bind
/// tighter than `prec`.
#[verifier::opaque]
pub open spec fn infix_loop(toks: Seq<TokM>, d: int, prec: u8, left: ExprModel, s: St) -> (
    Option<ExprModel>,
    St,
)
    decreases toks.len() - s.pos, 8nat,
{
    let pk = tag(toks, peek_idx(toks, s.pos));
    if !at(toks, s) || pk == TokenTag::Semicolon || !(prec < precedence_of(pk)) {
        (Some(left), s)
    } else if !(is_infix_operator(pk) || pk == TokenTag::LParen || pk == TokenTag::LBracket || pk
        == TokenTag::Dot) {
        (Some(left), s)
    } else {
        let s1 = adv(toks, s);
        if !gt(toks, s, s1) {
            (None, s1)
        } else {
            let step: (Option<ExprModel>, St) = if is_infix_operator(pk) {
                binary_at(toks, d, left, s1)
            } else if pk == TokenTag::LParen {
                match left {
                    ExprModel::Ident(f) => match expr_list_at(toks, d, TokenTag::RParen, s1) {
                        (None, s2) => (None, s2),
                        (Some(args), s2) => (Some(ExprModel::Call(f, args)), s2),
                    },
                    _ => (None, s1),
                }
            } else if pk == TokenTag::LBracket {
                index_at(toks, d, left, s1)
            } else {
                dot_at(toks, d, left, s1)
            };
            match step {
                (None, s2) => (None, s2),
                (Some(l2), s2) => if !ge(toks, s1, s2) {
                    (None, s2)
                } else {
                    infix_loop(toks, d, prec, l2, s2)
                },
            }
        }
    }
}

/// `left op right` with the operator at the current token.
#[verifier::opaque]
pub open spec fn binary_at(toks: Seq<TokM>, d: int, left: ExprModel, s: St) -> (Option<ExprModel>, St)
    decreases toks.len() - s.pos, 7nat,
{
    let t = tag(toks, s.pos);
    let s1 = adv(toks, s);
    if !gt(toks, s, s1) {
        (None, s1)
    } else {
        match expr_at(toks, d, precedence_of(t), s1) {
            (None, s2) => (None, s2),
            (Some(r), s2) => (
                Some(ExprModel::Binary(Box::new(left), operator_text(t), Box::new(r))),
                s2,
            ),
        }
    }
}

/// `[i]`, `[lo:hi]`, `[:hi]` or `[lo:]` after `left`, from the `[`.
#[verifier::opaque]
pub open spec fn index_at(toks: Seq<TokM>, d: int, left: ExprModel, s: St) -> (Option<ExprModel>, St)
    decreases toks.len() - s.pos, 7nat,
{
    let s1 = adv(toks, s);
    if !gt(toks, s, s1) {
        (None, s1)
    } else if cur_is(toks, s1, TokenTag::Colon) {
        let s2 = adv(toks, s1);
        if !gt(toks, s, s2) {
            (None, s2)
        } else {
            match expr_at(toks, d, 1, s2) {
                (None, s3) => (None, s3),
                (Some(h), s3) => match expect(toks, s3, TokenTag::RBracket) {
                    (false, s4) => (None, s4),
                    (true, s4) => (
                        Some(ExprModel::Slice(Box::new(left), None, Some(Box::new(h)))),
                        s4,
                    ),
                },
            }
        }
    } else {
        match expr_at(toks, d, 1, s1) {
            (None, s2) => (None, s2),
            (Some(i), s2) => if peek_is(toks, s2, TokenTag::Colon) {
                let s3 = adv(toks, s2);
                if peek_is(toks, s3, TokenTag::RBracket) {
                    (
                        Some(ExprModel::Slice(Box::new(left), Some(Box::new(i)), None)),
                        adv(toks, s3),
                    )
                } else {
                    let s4 = adv(toks, s3);
                    if !gt(toks, s, s4) {
                        (None, s4)
                    } else {
                        match expr_at(toks, d, 1, s4) {
                            (None, s5) => (None, s5),
                            (Some(h), s5) => match expect(toks, s5, TokenTag::RBracket) {
                                (false, s6) => (None, s6),
                                (true, s6) => (
                                    Some(
                                        ExprModel::Slice(
                                            Box::new(left),
                                            Some(Box::new(i)),
                                            Some(Box::new(h)),
                                        ),
                                    ),
                                    s6,
                                ),
                            },
                        }
                    }
                }
            } else {
                match expect(toks, s2, TokenTag::RBracket) {
                    (false, s3) => (None, s3),
                    (true, s3) => (Some(ExprModel::Index(Box::new(left), Box::new(i))), s3),
                }
            },
        }
    }
}

/// `.member` or `.method(args)` after `left`, from the `.`.
#[verifier::opaque]
pub open spec fn dot_at(toks: Seq<TokM>, d: int, left: ExprModel, s: St) -> (Option<ExprModel>, St)
    decreases toks.len() - s.pos, 7nat,
{
    let s1 = adv(toks, s);
    if !cur_is(toks, s1, TokenTag::Identifier) {
        (
            None,
            err_cur(toks, s1, "Expected identifier after '.', got "@ + kind_debug(toks[s1.pos].kind)),
        )
    } else {
        let m = km_ident(toks[s1.pos].kind);
        if peek_is(toks, s1, TokenTag::LParen) {
            let s2 = adv(toks, s1);
            if !gt(toks, s, s2) {
                (None, s2)
            } else {
                match expr_list_at(toks, d, TokenTag::RParen, s2) {
                    (None, s3) => (None, s3),
                    (Some(args), s3) => (Some(ExprModel::MethodCall(Box::new(left), m, args)), s3),
                }
            }
        } else {
            (Some(ExprModel::Field(Box::new(left), m)), s1)
        }
    }
}

/// `pyaung_...(x)` for the name at the current token.
#[verifier::opaque]
pub open spec fn conversion_at(toks: Seq<TokM>, d: int, name: Seq<char>, s: St) -> (
    Option<ExprModel>,
    St,
)
    decreases toks.len() - s.pos, 8nat,
{
    match conversion_model(name.subrange(7, name.len() as int)) {
        None => (None, err_cur(toks, s, "Unknown type conversion: "@ + name)),
        Some(t) => match expect(toks, s, TokenTag::LParen) {
            (false, s1) => (None, s1),
            (true, s1) => {
                let s2 = adv(toks, s1);
                if !gt(toks, s, s2) {
                    (None, s2)
                } else {
                    match expr_at(toks, d, 1, s2) {
                        (None, s3) => (None, s3),
                        (Some(a), s3) => match expect(toks, s3, TokenTag::RParen) {
                            (false, s4) => (None, s4),
                            (true, s4) => (Some(ExprModel::Conversion(t, Box::new(a))), s4),
                        },
                    }
                }
            },
        },
    }
}

/// The `, name: value` fields of a struct literal after the current token;
/// reading stops quietly at the first one that is not well formed.
#[verifier::opaque]
pub open spec fn struct_fields_rest(toks: Seq<TokM>, d: int, s: St) -> (Seq<(Seq<char>, ExprModel)>, St)
    decreases toks.len() - s.pos, 0nat,
{
    if !at(toks, s) || !peek_is(toks, s, TokenTag::Comma) {
        (Seq::empty(), s)
    } else {
        let s1 = adv(toks, adv(toks, s));
        if !gt(toks, s, s1) {
            (Seq::empty(), s1)
        } else if !cur_is(toks, s1, TokenTag::Identifier) || !peek_is(toks, s1, TokenTag::Colon) {
            (Seq::empty(), s1)
        } else {
            let f = km_ident(toks[s1.pos].kind);
            let s2 = adv(toks, adv(toks, s1));
            if !gt(toks, s, s2) {
                (Seq::empty(), s2)
            } else {
                match expr_at(toks, d, 1, s2) {
                    (None, s3) => (Seq::empty(), s3),
                    (Some(v), s3) => if !ge(toks, s2, s3) {
                        (Seq::empty(), s3)
                    } else {
                        let (rest, s4) = struct_fields_rest(toks, d, s3);
                        (seq![(f, v)] + rest, s4)
                    },
                }
            }
        }
    }
}

/// `Name { field: value, ... }` for the name at the current token; the
/// name alone when no field follows the `{`.
#[verifier::opaque]
pub open spec fn struct_lit_at(toks: Seq<TokM>, d: int, name: Seq<char>, s: St) -> (ExprModel, St)
    decreases toks.len() - s.pos, 8nat,
{
    let s1 = adv(toks, s);
    if peek_is(toks, s1, TokenTag::RBrace) {
        (ExprModel::StructLit(name, Seq::empty()), adv(toks, s1))
    } else {
        let s2 = adv(toks, s1);
        if cur_is(toks, s2, TokenTag::Identifier) && peek_is(toks, s2, TokenTag::Colon) {
            let f = km_ident(toks[s2.pos].kind);
            let s3 = adv(toks, adv(toks, s2));
            if !gt(toks, s, s3) {
                (ExprModel::Ident(name), s3)
            } else {
                match expr_at(toks, d, 1, s3) {
                    (None, s4) => (ExprModel::Ident(name), s4),
                    (Some(v), s4) => if !ge(toks, s3, s4) {
                        (ExprModel::Ident(name), s4)
                    } else {
                        let (rest, s5) = struct_fields_rest(toks, d, s4);
                        (
                            ExprModel::StructLit(name, seq![(f, v)] + rest),
                            if peek_is(toks, s5, TokenTag::RBrace) {
                                adv(toks, s5)
                            } else {
                                s5
                            },
                        )
                    },
                }
            }
        } else {
            (ExprModel::Ident(name), s2)
        }
    }
}

/// `amhar(e)` (kind 0), `baung(e)` (kind 1) or `phat(e)` (kind 2).
#[verifier::opaque]
pub open spec fn wrapped_at(toks: Seq<TokM>, d: int, kind: u8, s: St) -> (Option<ExprModel>, St)
    decreases toks.len() - s.pos, 8nat,
{
    match expect(toks, s, TokenTag::LParen) {
        (false, s1) => (None, s1),
        (true, s1) => {
            let s2 = adv(toks, s1);
            if !gt(toks, s, s2) {
                (None, s2)
            } else {
                match expr_at(toks, d, 1, s2) {
                    (None, s3) => (None, s3),
                    (Some(e), s3) => match expect(toks, s3, TokenTag::RParen) {
                        (false, s4) => (None, s4),
                        (true, s4) => (
                            Some(
                                if kind == 0 {
                                    ExprModel::ErrorCreate(Box::new(e))
                                } else if kind == 1 {
                                    ExprModel::BaungCreate(Box::new(e))
                                } else {
                                    ExprModel::ReadInput(Box::new(e))
                                },
                            ),
                            s4,
                        ),
                    },
                }
            }
        },
    }
}

/// `loke(params) -> T { body }` as a closure; without an arrow the result
/// type is `Nil`.
#[verifier::opaque]
pub open spec fn closure_at(toks: Seq<TokM>, d: int, s: St) -> (Option<ExprModel>, St)
    decreases toks.len() - s.pos, 8nat,
{
    match expect(toks, s, TokenTag::LParen) {
        (false, s1) => (None, s1),
        (true, s1) => match params_at(toks, s1) {
            (None, s2) => (None, s2),
            (Some(ps), s2) => {
                let ret: (Option<TypeModel>, St) = if peek_is(toks, s2, TokenTag::Arrow) {
                    type_at(toks, adv(toks, adv(toks, s2)))
                } else {
                    (Some(TypeModel::Nil), s2)
                };
                match ret {
                    (None, s3) => (None, s3),
                    (Some(r), s3) => match expect(toks, s3, TokenTag::LBrace) {
                        (false, s4) => (None, s4),
                        (true, s4) => if !gt(toks, s, s4) {
                            (None, s4)
                        } else {
                            let (body, s5) = block_at(toks, d, s4);
                            (Some(ExprModel::Closure(ps, r, body)), s5)
                        },
                    },
                }
            },
        },
    }
}

/// `( e )` from the `(`.
#[verifier::opaque]
pub open spec fn grouped_at(toks: Seq<TokM>, d: int, s: St) -> (Option<ExprModel>, St)
    decreases toks.len() - s.pos, 8nat,
{
    let s1 = adv(toks, s);
    if !gt(toks, s, s1) {
        (None, s1)
    } else {
        match expr_at(toks, d, 1, s1) {
            (None, s2) => (None, s2),
            (Some(e), s2) => match expect(toks, s2, TokenTag::RParen) {
                (false, s3) => (None, s3),
                (true, s3) => (Some(e), s3),
            },
        }
    }
}

/// The `, k: v` pairs of a map literal after the current token.
#[verifier::opaque]
pub open spec fn hash_rest(toks: Seq<TokM>, d: int, s: St) -> (Option<Seq<(ExprModel, ExprModel)>>, St)
    decreases toks.len() - s.pos, 0nat,
{
    if !at(toks, s) || !peek_is(toks, s, TokenTag::Comma) {
        (Some(Seq::empty()), s)
    } else {
        let s1 = adv(toks, adv(toks, s));
        if !gt(toks, s, s1) {
            (None, s1)
        } else {
            match hash_pair(toks, d, s1) {
                (None, s2) => (None, s2),
                (Some(p), s2) => if !ge(toks, s1, s2) {
                    (None, s2)
                } else {
                    cons_opt(seq![p], hash_rest(toks, d, s2))
                },
            }
        }
    }
}

/// One `k: v` pair from the current token.
#[verifier::opaque]
pub open spec fn hash_pair(toks: Seq<TokM>, d: int, s: St) -> (Option<(ExprModel, ExprModel)>, St)
    decreases toks.len() - s.pos, 11nat,
{
    match expr_at(toks, d, 1, s) {
        (None, s1) => (None, s1),
        (Some(k), s1) => match expect(toks, s1, TokenTag::Colon) {
            (false, s2) => (None, s2),
            (true, s2) => {
                let s3 = adv(toks, s2);
                if !gt(toks, s, s3) {
                    (None, s3)
                } else {
                    match expr_at(toks, d, 1, s3) {
                        (None, s4) => (None, s4),
                        (Some(v), s4) => (Some((k, v)), s4),
                    }
                }
            },
        },
    }
}

/// `{ k: v, ... }` from the `{`.
#[verifier::opaque]
pub open spec fn hash_at(toks: Seq<TokM>, d: int, s: St) -> (Option<ExprModel>, St)
    decreases toks.len() - s.pos, 8nat,
{
    if peek_is(toks, s, TokenTag::RBrace) {
        (Some(ExprModel::Hash(Seq::empty())), adv(toks, s))
    } else {
        let s1 = adv(toks, s);
        if !gt(toks, s, s1) {
            (None, s1)
        } else {
            match hash_pair(toks, d, s1) {
                (None, s2) => (None, s2),
                (Some(p), s2) => if !ge(toks, s1, s2) {
                    (None, s2)
                } else {
                    match cons_opt(seq![p], hash_rest(toks, d, s2)) {
                        (None, s3) => (None, s3),
                        (Some(ps), s3) => match expect(toks, s3, TokenTag::RBrace) {
                            (false, s4) => (None, s4),
                            (true, s4) => (Some(ExprModel::Hash(ps)), s4),
                        },
                    }
                },
            }
        }
    }
}

/// `laung<T>(capacity)` after the `laung`.
#[verifier::opaque]
pub open spec fn channel_at(toks: Seq<TokM>, d: int, s: St) -> (Option<ExprModel>, St)
    decreases toks.len() - s.pos, 8nat,
{
    match expect(toks, s, TokenTag::LessThan) {
        (false, s1) => (None, s1),
        (true, s1) => match type_at(toks, adv(toks, s1)) {
            (None, s2) => (None, s2),
            (Some(t), s2) => match expect(toks, s2, TokenTag::GreaterThan) {
                (false, s3) => (None, s3),
                (true, s3) => match expect(toks, s3, TokenTag::LParen) {
                    (false, s4) => (None, s4),
                    (true, s4) => if peek_is(toks, s4, TokenTag::RParen) {
                        (Some(ExprModel::ChannelMake(t, None)), adv(toks, s4))
                    } else {
                        let s5 = adv(toks, s4);
                        if !gt(toks, s, s5) {
                            (None, s5)
                        } else {
                            match expr_at(toks, d, 1, s5) {
                                (None, s6) => (None, s6),
                                (Some(c), s6) => match expect(toks, s6, TokenTag::RParen) {
                                    (false, s7) => (None, s7),
                                    (true, s7) => (
                                        Some(ExprModel::ChannelMake(t, Some(Box::new(c)))),
                                        s7,
                                    ),
                                },
                            }
                        }
                    },
                },
            },
        },
    }
}

/// `e, ...` up to the token `end`, from the token before the first item.
#[verifier::opaque]
pub open spec fn expr_list_at(toks: Seq<TokM>, d: int, end: TokenTag, s: St) -> (
    Option<Seq<ExprModel>>,
    St,
)
    decreases toks.len() - s.pos, 7nat,
{
    if peek_is(toks, s, end) {
        (Some(Seq::empty()), adv(toks, s))
    } else {
        let s1 = adv(toks, s);
        if !gt(toks, s, s1) {
            (None, s1)
        } else {
            match expr_at(toks, d, 1, s1) {
                (None, s2) => (None, s2),
                (Some(e), s2) => if !ge(toks, s1, s2) {
                    (None, s2)
                } else {
                    match cons_opt(seq![e], expr_rest(toks, d, s2)) {
                        (None, s3) => (None, s3),
                        (Some(es), s3) => match expect(toks, s3, end) {
                            (false, s4) => (None, s4),
                            (true, s4) => (Some(es), s4),
                        },
                    }
                },
            }
        }
    }
}

} // verus!
