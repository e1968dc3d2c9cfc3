//! Recursive-descent (Pratt) parser from tokens to the syntax tree.
use vstd::prelude::*;

use crate::ast::{
    expr_model, exprs_model, field_models, lemma_exprs_model_push, lemma_named_model_push,
    lemma_pairs_model_push, lemma_stmts_model_push, method_models, named_model, pairs_model,
    param_models, stmt_model, stmts_model, BlockStatement, ExprModel, Expression, IfAlternative,
    Program, Span, Statement, StmtModel, Type, TypeModel,
};
use crate::grammar::{
    adv, ge, gt, peek_is, assignment_at, binary_at, block_at, declaration_rest, destructured_value, hash_pair,
    let_value, signature_body, typed_for_in, channel_at, classic_for_at, classic_tail, closure_at, component_at,
    cons_opt, conversion_at, destructured_tail, dot_at, err, err_cur, err_peek, expect,
    expect_ident, export_at, expr_at, expr_list_at, expr_rest, expr_stmt_at, fields_at, fn_decl_at,
    fn_type_at, for_in_stmt_at, for_in_tail, go_at, grouped_at, hash_at, hash_rest, if_at,
    import_at, index_at, infix_loop, interface_at, iparam_rest, iparams_at, km_ident, km_tag,
    let_at, map_type_at, method_at, methods_at, package_at, param_rest, params_at, paren_pat_at,
    pat_at, peek_idx, prefix_at, print_at, qualified, reassign_at, return_at, skip_semi, span,
    stmt_at, stmts_at, struct_at, struct_fields_rest, struct_lit_at, tag, test_at, angle_at,
    tuple_type_at, type_at, type_list, wrapped_at, ErrM, St, TokM,
};
use crate::lexer::{source_tokens_from, Lexer};
use crate::render::{push_kind_debug, push_usize, nat_digits};
use crate::text::{char_is_uppercase, chars_of, push_str, push_string, str_eq, string_of};
use crate::token::{Token, TokenKind, TokenTag};

verus! {

#[derive(Debug, Clone)]
pub struct ParseError {
    pub message: String,
    pub line: usize,
    pub column: usize,
}

/// `[line:column] message`, the way a parse error is shown.
pub open spec fn error_text(line: usize, column: usize, message: Seq<char>) -> Seq<char> {
    seq!['['] + nat_digits(line as nat) + seq![':'] + nat_digits(column as nat) + seq![']', ' ']
        + message
}

impl ParseError {
    /// The error as text: `[line:column] message`.
    pub fn to_text(&self) -> (r: String)
        ensures
            r@ == error_text(self.line, self.column, self.message@),
    {
        let mut buf: Vec<char> = Vec::new();
        buf.push('[');
        push_usize(&mut buf, self.line);
        buf.push(':');
        push_usize(&mut buf, self.column);
        buf.push(']');
        buf.push(' ');
        push_string(&mut buf, &self.message);
        assert(buf@ =~= error_text(self.line, self.column, self.message@));
        string_of(buf.as_slice())
    }
}

/// Binding power of an infix token.
pub open spec fn precedence_of(t: TokenTag) -> u8 {
    match t {
        TokenTag::Equals | TokenTag::NotEquals => 2,
        TokenTag::LessThan | TokenTag::GreaterThan | TokenTag::LessEquals
        | TokenTag::GreaterEquals => 3,
        TokenTag::Plus | TokenTag::Minus => 4,
        TokenTag::Star | TokenTag::Slash => 5,
        TokenTag::LParen | TokenTag::Dot => 6,
        TokenTag::LBracket => 7,
        _ => 1,
    }
}

pub const LOWEST: u8 = 1;

pub fn get_precedence(t: TokenTag) -> (p: u8)
    ensures
        p == precedence_of(t),
{
    match t {
        TokenTag::Equals | TokenTag::NotEquals => 2,
        TokenTag::LessThan | TokenTag::GreaterThan | TokenTag::LessEquals
        | TokenTag::GreaterEquals => 3,
        TokenTag::Plus | TokenTag::Minus => 4,
        TokenTag::Star | TokenTag::Slash => 5,
        TokenTag::LParen | TokenTag::Dot => 6,
        TokenTag::LBracket => 7,
        _ => 1,
    }
}

/// The operator text of an infix token.
pub open spec fn operator_text(t: TokenTag) -> Seq<char> {
    match t {
        TokenTag::Plus => "+"@,
        TokenTag::Minus => "-"@,
        TokenTag::Star => "*"@,
        TokenTag::Slash => "/"@,
        TokenTag::Equals => "=="@,
        TokenTag::NotEquals => "!="@,
        TokenTag::LessThan => "<"@,
        TokenTag::GreaterThan => ">"@,
        TokenTag::LessEquals => "<="@,
        TokenTag::GreaterEquals => ">="@,
        _ => Seq::empty(),
    }
}

pub fn token_kind_to_string(t: TokenTag) -> (r: String)
    ensures
        r@ == operator_text(t),
{
    let s = match t {
        TokenTag::Plus => "+",
        TokenTag::Minus => "-",
        TokenTag::Star => "*",
        TokenTag::Slash => "/",
        TokenTag::Equals => "==",
        TokenTag::NotEquals => "!=",
        TokenTag::LessThan => "<",
        TokenTag::GreaterThan => ">",
        TokenTag::LessEquals => "<=",
        TokenTag::GreaterEquals => ">=",
        _ => "",
    };
    let cs = chars_of(s);
    let r = string_of(cs.as_slice());
    proof {
        if t != TokenTag::Plus && t != TokenTag::Minus && t != TokenTag::Star && t
            != TokenTag::Slash && t != TokenTag::Equals && t != TokenTag::NotEquals && t
            != TokenTag::LessThan && t != TokenTag::GreaterThan && t != TokenTag::LessEquals && t
            != TokenTag::GreaterEquals {
            assert(""@ =~= Seq::<char>::empty()) by {
                reveal_strlit("");
            }
        }
    }
    r
}

/// Tokens that can start a type in a declaration.
pub open spec fn can_start_type(t: TokenTag) -> bool {
    t == TokenTag::Kain || t == TokenTag::Sar || t == TokenTag::Sit || t == TokenTag::DaTha || t
        == TokenTag::Amhar || t == TokenTag::Su || t == TokenTag::Laung || t == TokenTag::Baung
        || t == TokenTag::Twe || t == TokenTag::Identifier || t == TokenTag::LParen
}

pub fn token_can_start_type(t: TokenTag) -> (r: bool)
    ensures
        r == can_start_type(t),
{
    t == TokenTag::Kain || t == TokenTag::Sar || t == TokenTag::Sit || t == TokenTag::DaTha || t
        == TokenTag::Amhar || t == TokenTag::Su || t == TokenTag::Laung || t == TokenTag::Baung
        || t == TokenTag::Twe || t == TokenTag::Identifier || t == TokenTag::LParen
}

pub open spec fn is_infix_operator(t: TokenTag) -> bool {
    t == TokenTag::Plus || t == TokenTag::Minus || t == TokenTag::Star || t == TokenTag::Slash
        || t == TokenTag::Equals || t == TokenTag::NotEquals || t == TokenTag::LessThan || t
        == TokenTag::GreaterThan || t == TokenTag::LessEquals || t == TokenTag::GreaterEquals
}


/// The texts of the infix operators are different from one another, each
/// of one or two characters as written in the source.
pub proof fn lemma_operator_texts_distinct()
    ensures
        "+"@ != "-"@,
        "+"@ != "*"@,
        "+"@ != "/"@,
        "+"@ != "<"@,
        "+"@ != ">"@,
        "+"@ != "<="@,
        "+"@ != ">="@,
        "+"@ != "=="@,
        "+"@ != "!="@,
        "-"@ != "*"@,
        "-"@ != "/"@,
        "-"@ != "<"@,
        "-"@ != ">"@,
        "-"@ != "<="@,
        "-"@ != ">="@,
        "-"@ != "=="@,
        "-"@ != "!="@,
        "*"@ != "/"@,
        "*"@ != "<"@,
        "*"@ != ">"@,
        "*"@ != "<="@,
        "*"@ != ">="@,
        "*"@ != "=="@,
        "*"@ != "!="@,
        "/"@ != "<"@,
        "/"@ != ">"@,
        "/"@ != "<="@,
        "/"@ != ">="@,
        "/"@ != "=="@,
        "/"@ != "!="@,
        "<"@ != ">"@,
        "<"@ != "<="@,
        "<"@ != ">="@,
        "<"@ != "=="@,
        "<"@ != "!="@,
        ">"@ != "<="@,
        ">"@ != ">="@,
        ">"@ != "=="@,
        ">"@ != "!="@,
        "<="@ != ">="@,
        "<="@ != "=="@,
        "<="@ != "!="@,
        ">="@ != "=="@,
        ">="@ != "!="@,
        "=="@ != "!="@,
        "+"@ == seq!['+'],
        "-"@ == seq!['-'],
        "*"@ == seq!['*'],
        "/"@ == seq!['/'],
        "<"@ == seq!['<'],
        ">"@ == seq!['>'],
        "<="@ == seq!['<', '='],
        ">="@ == seq!['>', '='],
        "=="@ == seq!['=', '='],
        "!="@ == seq!['!', '='],
{
    reveal_strlit("+");
    reveal_strlit("-");
    reveal_strlit("*");
    reveal_strlit("/");
    reveal_strlit("<");
    reveal_strlit(">");
    reveal_strlit("<=");
    reveal_strlit(">=");
    reveal_strlit("==");
    reveal_strlit("!=");
    assert("+"@[0] != "-"@[0]);
    assert("+"@[0] != "*"@[0]);
    assert("+"@[0] != "/"@[0]);
    assert("+"@[0] != "<"@[0]);
    assert("+"@[0] != ">"@[0]);
    assert("+"@.len() != "<="@.len());
    assert("+"@.len() != ">="@.len());
    assert("+"@.len() != "=="@.len());
    assert("+"@.len() != "!="@.len());
    assert("-"@[0] != "*"@[0]);
    assert("-"@[0] != "/"@[0]);
    assert("-"@[0] != "<"@[0]);
    assert("-"@[0] != ">"@[0]);
    assert("-"@.len() != "<="@.len());
    assert("-"@.len() != ">="@.len());
    assert("-"@.len() != "=="@.len());
    assert("-"@.len() != "!="@.len());
    assert("*"@[0] != "/"@[0]);
    assert("*"@[0] != "<"@[0]);
    assert("*"@[0] != ">"@[0]);
    assert("*"@.len() != "<="@.len());
    assert("*"@.len() != ">="@.len());
    assert("*"@.len() != "=="@.len());
    assert("*"@.len() != "!="@.len());
    assert("/"@[0] != "<"@[0]);
    assert("/"@[0] != ">"@[0]);
    assert("/"@.len() != "<="@.len());
    assert("/"@.len() != ">="@.len());
    assert("/"@.len() != "=="@.len());
    assert("/"@.len() != "!="@.len());
    assert("<"@[0] != ">"@[0]);
    assert("<"@.len() != "<="@.len());
    assert("<"@.len() != ">="@.len());
    assert("<"@.len() != "=="@.len());
    assert("<"@.len() != "!="@.len());
    assert(">"@.len() != "<="@.len());
    assert(">"@.len() != ">="@.len());
    assert(">"@.len() != "=="@.len());
    assert(">"@.len() != "!="@.len());
    assert("<="@[0] != ">="@[0]);
    assert("<="@[0] != "=="@[0]);
    assert("<="@[0] != "!="@[0]);
    assert(">="@[0] != "=="@[0]);
    assert(">="@[0] != "!="@[0]);
    assert("=="@[0] != "!="@[0]);
    assert("+"@ =~= seq!['+']);
    assert("-"@ =~= seq!['-']);
    assert("*"@ =~= seq!['*']);
    assert("/"@ =~= seq!['/']);
    assert("<"@ =~= seq!['<']);
    assert(">"@ =~= seq!['>']);
    assert("<="@ =~= seq!['<', '=']);
    assert(">="@ =~= seq!['>', '=']);
    assert("=="@ =~= seq!['=', '=']);
    assert("!="@ =~= seq!['!', '=']);
}

/// How tightly the infix operators bind: `*` and `/` tighter than `+` and
/// `-`, those tighter than the comparisons, the comparisons tighter than
/// `==` and `!=`, and all of them tighter than the lowest level; operators
/// in one group bind alike.
pub proof fn law_precedence_order()
    ensures
        precedence_of(TokenTag::Star) == precedence_of(TokenTag::Slash),
        precedence_of(TokenTag::Plus) == precedence_of(TokenTag::Minus),
        precedence_of(TokenTag::LessThan) == precedence_of(TokenTag::GreaterThan),
        precedence_of(TokenTag::LessThan) == precedence_of(TokenTag::LessEquals),
        precedence_of(TokenTag::LessThan) == precedence_of(TokenTag::GreaterEquals),
        precedence_of(TokenTag::Equals) == precedence_of(TokenTag::NotEquals),
        precedence_of(TokenTag::Star) > precedence_of(TokenTag::Plus),
        precedence_of(TokenTag::Plus) > precedence_of(TokenTag::LessThan),
        precedence_of(TokenTag::LessThan) > precedence_of(TokenTag::Equals),
        precedence_of(TokenTag::Equals) > LOWEST,
        forall|t: TokenTag| #[trigger] is_infix_operator(t) ==> precedence_of(t) > LOWEST,
{
}

/// The name an identifier token holds; empty for other tokens.
pub open spec fn ident_text(k: TokenKind) -> Seq<char> {
    match k {
        TokenKind::Identifier(n) => n@,
        _ => Seq::empty(),
    }
}

/// A token as plain values.
pub open spec fn tok_model(t: Token) -> TokM {
    TokM { kind: t.kind.model(), line: t.line, col: t.column }
}

/// Tokens as plain values.
pub open spec fn toks_model(v: Seq<Token>) -> Seq<TokM> {
    Seq::new(v.len(), |i: int| tok_model(v[i]))
}

/// Parse errors as plain values.
pub open spec fn errs_model(v: Seq<ParseError>) -> Seq<ErrM> {
    Seq::new(v.len(), |i: int| ErrM { message: v[i].message@, line: v[i].line, col: v[i].column })
}

/// The model of an optional type.
pub open spec fn opt_type_model(t: Option<Type>) -> Option<TypeModel> {
    match t {
        Some(x) => Some(x.model()),
        None => None,
    }
}

/// The model of an optional expression.
pub open spec fn opt_expr_model(e: Option<Expression>) -> Option<ExprModel> {
    match e {
        Some(x) => Some(expr_model(x)),
        None => None,
    }
}

/// The model of an optional statement.
pub open spec fn opt_stmt_model(s: Option<Statement>) -> Option<StmtModel> {
    match s {
        Some(x) => Some(stmt_model(x)),
        None => None,
    }
}

/// The model of an optional list of expressions.
pub open spec fn opt_exprs_model(v: Option<Vec<Expression>>) -> Option<Seq<ExprModel>> {
    match v {
        Some(x) => Some(exprs_model(x@)),
        None => None,
    }
}

broadcast use crate::grammar::lemma_kind_model;

pub struct Parser {
    tokens: Vec<Token>,
    pos: usize,
    pub errors: Vec<ParseError>,
    block_depth: usize,
}

impl Parser {
    pub closed spec fn wf(&self) -> bool {
        &&& self.tokens.len() >= 1
        &&& self.tokens@.last().kind.tag_of() == TokenTag::Eof
        &&& self.pos < self.tokens.len()
        &&& self.block_depth <= self.pos
    }

    /// The tokens being read, as plain values.
    pub closed spec fn toks(&self) -> Seq<TokM> {
        toks_model(self.tokens@)
    }

    /// The position and the errors recorded so far.
    pub closed spec fn st(&self) -> St {
        St { pos: self.pos as int, errs: errs_model(self.errors@) }
    }

    /// How many blocks enclose the current token.
    pub closed spec fn depth(&self) -> int {
        self.block_depth as int
    }

    /// The errors recorded so far.
    pub closed spec fn error_list(&self) -> Seq<ParseError> {
        self.errors@
    }

    /// The errors recorded so far.
    pub fn errors(&self) -> (r: &Vec<ParseError>)
        ensures
            r@ == self.error_list(),
            errs_model(r@) == self.st().errs,
    {
        &self.errors
    }

    pub closed spec fn remaining(&self) -> int {
        self.tokens.len() - self.pos
    }

    /// `b` is a later state of the parser `a`: the same tokens, a position no
    /// earlier, the same block nesting, and the errors of `a` kept in front.
    pub closed spec fn evolves(a: Parser, b: Parser) -> bool {
        &&& b.wf()
        &&& b.tokens == a.tokens
        &&& b.pos >= a.pos
        &&& b.block_depth == a.block_depth
        &&& b.errors.len() >= a.errors.len()
        &&& forall|i: int| 0 <= i < a.errors.len() ==> #[trigger] b.errors@[i] == a.errors@[i]
    }

    /// Facts about the tokens of a well-formed parser.
    proof fn lemma_wf(&self)
        requires
            self.wf(),
        ensures
            self.toks().len() == self.tokens.len(),
            tag(self.toks(), self.toks().len() - 1) == TokenTag::Eof,
            0 <= self.st().pos < self.toks().len(),
            forall|i: int|
                0 <= i < self.tokens.len() ==> #[trigger] self.toks()[i] == tok_model(self.tokens@[i]),
    {
        let k = self.tokens@.last().kind;
        assert(km_tag(k.model()) == k.tag_of());
    }

    /// A parser over the tokens of `lexer` that are not comments.
    pub fn new(lexer: Lexer) -> (p: Parser)
        requires
            lexer.wf(),
        ensures
            p.wf(),
            p.error_list() == Seq::<ParseError>::empty(),
            p.toks() == source_tokens_from(lexer.text(), lexer.state()),
            p.st() == (St { pos: 0, errs: Seq::empty() }),
            p.depth() == 0,
    {
        let ghost text = lexer.text();
        let ghost st0 = lexer.state();
        let mut lexer = lexer;
        let mut tokens: Vec<Token> = Vec::new();
        loop
            invariant_except_break
                lexer.wf(),
                lexer.text() == text,
                source_tokens_from(text, st0) == toks_model(tokens@) + source_tokens_from(
                    text,
                    lexer.state(),
                ),
            ensures
                tokens.len() >= 1,
                tokens@.last().kind.tag_of() == TokenTag::Eof,
                toks_model(tokens@) == source_tokens_from(text, st0),
            decreases lexer.text().len() - lexer.state().pos,
        {
            proof {
                lexer.lemma_bounds();
            }
            let ghost before = tokens@;
            let ghost st = lexer.state();
            let tok = lexer.next_non_comment_token();
            proof {
                lexer.lemma_bounds();
            }
            let is_eof = tok.kind.tag() == TokenTag::Eof;
            tokens.push(tok);
            proof {
                assert(toks_model(tokens@) =~= toks_model(before).push(tok_model(tok)));
                assert(tok_model(tok) == crate::lexer::tok_of(crate::lexer::nc_token(text, st)));
                if is_eof {
                    assert(source_tokens_from(text, st) == seq![tok_model(tok)]);
                    assert(toks_model(tokens@) =~= toks_model(before) + seq![tok_model(tok)]);
                } else {
                    assert(source_tokens_from(text, st) == seq![tok_model(tok)] + source_tokens_from(
                        text,
                        lexer.state(),
                    ));
                    assert(toks_model(tokens@) + source_tokens_from(text, lexer.state()) =~= toks_model(
                        before,
                    ) + (seq![tok_model(tok)] + source_tokens_from(text, lexer.state())));
                }
            }
            if is_eof {
                break;
            }
        }
        let p = Parser { tokens, pos: 0, errors: Vec::new(), block_depth: 0 };
        assert(errs_model(p.errors@) =~= Seq::<ErrM>::empty());
        p
    }

    fn cur_tag(&self) -> (t: TokenTag)
        requires
            self.wf(),
        ensures
            t == tag(self.toks(), self.st().pos),
    {
        proof {
            self.lemma_wf();
        }
        self.tokens[self.pos].kind.tag()
    }

    fn peek_tag(&self) -> (t: TokenTag)
        requires
            self.wf(),
        ensures
            t == tag(self.toks(), peek_idx(self.toks(), self.st().pos)),
    {
        proof {
            self.lemma_wf();
        }
        if self.pos + 1 < self.tokens.len() {
            self.tokens[self.pos + 1].kind.tag()
        } else {
            self.tokens[self.tokens.len() - 1].kind.tag()
        }
    }

    fn cur_span(&self) -> (s: Span)
        requires
            self.wf(),
        ensures
            s == span(self.toks(), self.st().pos),
    {
        proof {
            self.lemma_wf();
        }
        Span { line: self.tokens[self.pos].line, column: self.tokens[self.pos].column }
    }

    fn peek_token(&self) -> (t: &Token)
        requires
            self.wf(),
        ensures
            tok_model(*t) == self.toks()[peek_idx(self.toks(), self.st().pos)],
    {
        proof {
            self.lemma_wf();
        }
        if self.pos + 1 < self.tokens.len() {
            &self.tokens[self.pos + 1]
        } else {
            &self.tokens[self.tokens.len() - 1]
        }
    }

    /// The name held by the current token, when it is an identifier.
    fn cur_ident(&self) -> (r: Option<String>)
        requires
            self.wf(),
        ensures
            r.is_some() == (tag(self.toks(), self.st().pos) == TokenTag::Identifier),
            r matches Some(n) ==> n@ == km_ident(self.toks()[self.st().pos].kind),
    {
        proof {
            self.lemma_wf();
        }
        match &self.tokens[self.pos].kind {
            TokenKind::Identifier(n) => Some(n.clone()),
            _ => None,
        }
    }

    fn peek_is_identifier(&self) -> (r: bool)
        requires
            self.wf(),
        ensures
            r == (tag(self.toks(), peek_idx(self.toks(), self.st().pos)) == TokenTag::Identifier),
    {
        self.peek_tag() == TokenTag::Identifier
    }

    /// Moves to the next token; at the end of input the position stays.
    pub fn next_token(&mut self)
        requires
            old(self).wf(),
        ensures
            Parser::evolves(*old(self), *final(self)),
            final(self).st() == adv(old(self).toks(), old(self).st()),
            final(self).error_list() == old(self).error_list(),
    {
        proof {
            self.lemma_wf();
        }
        if self.pos + 1 < self.tokens.len() {
            self.pos = self.pos + 1;
        }
    }

    fn push_error(&mut self, message: Vec<char>, line: usize, column: usize)
        requires
            old(self).wf(),
        ensures
            Parser::evolves(*old(self), *final(self)),
            final(self).st() == err(old(self).st(), message@, line, column),
    {
        let m = string_of(message.as_slice());
        let ghost before = self.errors@;
        self.errors.push(ParseError { message: m, line, column });
        assert(errs_model(self.errors@) =~= errs_model(before).push(
            ErrM { message: message@, line, col: column },
        ));
    }

    fn error_at_cur(&mut self, message: &str)
        requires
            old(self).wf(),
        ensures
            Parser::evolves(*old(self), *final(self)),
            final(self).st() == err_cur(old(self).toks(), old(self).st(), message@),
    {
        proof {
            self.lemma_wf();
        }
        let m = chars_of(message);
        let line = self.tokens[self.pos].line;
        let column = self.tokens[self.pos].column;
        self.push_error(m, line, column);
    }

    fn peek_error(&mut self)
        requires
            old(self).wf(),
        ensures
            Parser::evolves(*old(self), *final(self)),
            final(self).st() == err_peek(old(self).toks(), old(self).st()),
    {
        let mut m: Vec<char> = Vec::new();
        push_str(&mut m, "Unexpected token: ");
        let line;
        let column;
        {
            let pk = self.peek_token();
            push_kind_debug(&mut m, &pk.kind);
            line = pk.line;
            column = pk.column;
        }
        self.push_error(m, line, column);
    }

    /// Moves on when the next token has the given kind; records an error
    /// otherwise.
    fn expect_peek(&mut self, kind: TokenTag) -> (r: bool)
        requires
            old(self).wf(),
        ensures
            Parser::evolves(*old(self), *final(self)),
            (r, final(self).st()) == expect(old(self).toks(), old(self).st(), kind),
    {
        if self.peek_tag() == kind {
            self.next_token();
            true
        } else {
            self.peek_error();
            false
        }
    }

    /// Takes the identifier that must follow; `None` (with an error) when it
    /// does not.
    fn expect_ident(&mut self) -> (r: Option<(String, Span)>)
        requires
            old(self).wf(),
        ensures
            Parser::evolves(*old(self), *final(self)),
            (match r {
                Some(x) => Some((x.0@, x.1)),
                None => None,
            }, final(self).st()) == expect_ident(old(self).toks(), old(self).st()),
    {
        if self.peek_tag() == TokenTag::Identifier {
            self.next_token();
            let span = self.cur_span();
            match self.cur_ident() {
                Some(n) => Some((n, span)),
                None => None,
            }
        } else {
            let mut m: Vec<char> = Vec::new();
            push_str(&mut m, "Expected next token to be Identifier, got ");
            let line;
            let column;
            {
                let pk = self.peek_token();
                push_kind_debug(&mut m, &pk.kind);
                line = pk.line;
                column = pk.column;
            }
            self.push_error(m, line, column);
            None
        }
    }

    fn skip_semicolon(&mut self)
        requires
            old(self).wf(),
        ensures
            Parser::evolves(*old(self), *final(self)),
            final(self).st() == skip_semi(old(self).toks(), old(self).st()),
    {
        if self.peek_tag() == TokenTag::Semicolon {
            self.next_token();
        }
    }

    /// Parses the whole program, one statement after another, up to the end
    /// of input.
    #[verifier::spinoff_prover]
    pub fn parse_program(&mut self) -> (r: Option<Program>)
        requires
            old(self).wf(),
        ensures
            Parser::evolves(*old(self), *final(self)),
            r matches Some(p) && stmts_model(p.statements@) == stmts_at(
                old(self).toks(),
                old(self).depth(),
                old(self).st(),
                true,
            ).0,
            final(self).st() == stmts_at(old(self).toks(), old(self).depth(), old(self).st(), true).1,
    {
        reveal(stmts_at);
        let ghost toks = self.toks();
        let ghost d = self.depth();
        let ghost s0 = self.st();
        let mut statements: Vec<Statement> = Vec::new();
        proof {
            assert(stmts_model(statements@) =~= Seq::<StmtModel>::empty());
        }
        while self.cur_tag() != TokenTag::Eof
            invariant
                Parser::evolves(*old(self), *self),
                toks == self.toks(),
                toks == old(self).toks(),
                d == self.depth(),
                s0 == old(self).st(),
                stmts_at(toks, d, s0, true) == (
                    stmts_model(statements@) + stmts_at(toks, d, self.st(), true).0,
                    stmts_at(toks, d, self.st(), true).1,
                ),
            decreases self.remaining() + (if tag(self.toks(), self.st().pos) == TokenTag::Eof {
                0int
            } else {
                1int
            }),
        {
            reveal(stmts_at);
            proof {
                self.lemma_wf();
            }
            let ghost s = self.st();
            let ghost before = statements@;
            let r = self.parse_statement();
            let ghost rm = opt_stmt_model(r);
            if let Some(stmt) = r {
                statements.push(stmt);
                proof {
                    lemma_stmts_model_push(before, stmt);
                }
            }
            self.next_token();
            proof {
                self.lemma_wf();
                let rest = stmts_at(toks, d, self.st(), true);
                assert(stmts_at(toks, d, s, true) == (
                    match rm {
                        Some(x) => seq![x] + rest.0,
                        None => rest.0,
                    },
                    rest.1,
                ));
                match rm {
                    Some(x) => {
                        assert(stmts_model(before) + (seq![x] + rest.0) =~= stmts_model(statements@)
                            + rest.0);
                    },
                    None => {},
                }
            }
        }
        proof {
            assert(stmts_model(statements@) + Seq::<StmtModel>::empty() =~= stmts_model(statements@));
        }
        Some(Program { statements })
    }

    #[verifier::spinoff_prover]
    fn parse_statement(&mut self) -> (r: Option<Statement>)
        requires
            old(self).wf(),
        ensures
            Parser::evolves(*old(self), *final(self)),
            (opt_stmt_model(r), final(self).st()) == stmt_at(
                old(self).toks(),
                old(self).depth(),
                old(self).st(),
            ),
        decreases old(self).remaining(), 30nat,
    {
        reveal(stmt_at);
        let t = self.cur_tag();
        match t {
            TokenTag::Atote => self.parse_package_statement(),
            TokenTag::Pay => self.parse_export_statement(),
            TokenTag::Kain | TokenTag::Sar | TokenTag::Sit | TokenTag::DaTha | TokenTag::Su
            | TokenTag::Twe | TokenTag::Laung | TokenTag::Baung => self.parse_let_or_destructured(),
            TokenTag::Hlyin => self.parse_if_statement(),
            TokenTag::Pyan => self.parse_return_statement(),
            TokenTag::Pat => self.parse_pat_statement(),
            TokenTag::Break => {
                self.skip_semicolon();
                Some(Statement::Break)
            },
            TokenTag::Continue => {
                self.skip_semicolon();
                Some(Statement::Continue)
            },
            TokenTag::Kyoe => self.parse_go_or_defer(true),
            TokenTag::NautSone => self.parse_go_or_defer(false),
            TokenTag::SetSae => self.parse_test_declaration(),
            TokenTag::Phat => self.parse_expression_statement(),
            TokenTag::Yu => self.parse_import_statement(),
            TokenTag::Loke => self.parse_function_declaration(),
            TokenTag::Pya => self.parse_print_statement(),
            TokenTag::Pone => self.parse_struct_declaration(),
            TokenTag::Nee => self.parse_method_declaration(),
            TokenTag::Myat => self.parse_interface_declaration(),
            TokenTag::Amhar => {
                if self.peek_is_identifier() {
                    self.parse_let_or_destructured()
                } else {
                    self.parse_expression_statement()
                }
            },
            TokenTag::Identifier => {
                if self.peek_is_identifier() {
                    self.parse_let_or_destructured()
                } else {
                    self.parse_reassignment_or_expression_statement()
                }
            },
            _ => self.parse_expression_statement(),
        }
    }

    #[verifier::spinoff_prover]
    fn parse_type(&mut self) -> (r: Option<Type>)
        requires
            old(self).wf(),
        ensures
            Parser::evolves(*old(self), *final(self)),
            (opt_type_model(r), final(self).st()) == type_at(old(self).toks(), old(self).st()),
        decreases old(self).remaining(), 5nat,
    {
        reveal(type_at);
        let t = self.cur_tag();
        match t {
            TokenTag::Kain => Some(Type::Kain),
            TokenTag::Sar => Some(Type::Sar),
            TokenTag::Sit => Some(Type::Sit),
            TokenTag::DaTha => Some(Type::DaTha),
            TokenTag::Amhar => Some(Type::Error),
            TokenTag::Su => {
                let inner = match self.parse_angle_type() {
                    Some(x) => x,
                    None => {
                        return None;
                    },
                };
                Some(Type::Array(Box::new(inner)))
            },
            TokenTag::Laung => {
                let inner = match self.parse_angle_type() {
                    Some(x) => x,
                    None => {
                        return None;
                    },
                };
                Some(Type::Channel(Box::new(inner)))
            },
            TokenTag::Baung => Some(Type::Baung),
            TokenTag::Twe => self.parse_map_type(),
            TokenTag::LParen => self.parse_tuple_type(),
            TokenTag::Loke => self.parse_function_type(),
            TokenTag::Identifier => {
                let first = match self.cur_ident() {
                    Some(x) => x,
                    None => {
                        return None;
                    },
                };
                let name = match self.parse_qualified_type_name(first) {
                    Some(x) => x,
                    None => {
                        return None;
                    },
                };
                Some(Type::Struct(name))
            },
            _ => None,
        }
    }

    #[verifier::spinoff_prover]
    fn parse_qualified_type_name(&mut self, first: String) -> (r: Option<String>)
        requires
            old(self).wf(),
        ensures
            Parser::evolves(*old(self), *final(self)),
            (match r {
                Some(n) => Some(n@),
                None => None,
            }, final(self).st()) == qualified(old(self).toks(), first@, old(self).st()),
    {
        reveal(qualified);
        let ghost toks = self.toks();
        let mut full: Vec<char> = chars_of(first.as_str());
        while self.peek_tag() == TokenTag::Dot
            invariant
                Parser::evolves(*old(self), *self),
                toks == self.toks(),
                qualified(toks, first@, old(self).st()) == qualified(toks, full@, self.st()),
            decreases self.remaining(),
        {
            reveal(qualified);
            proof {
                self.lemma_wf();
            }
            let ghost s = self.st();
            let ghost before = full@;
            self.next_token();
            let (segment, _) = match self.expect_ident() {
                Some(x) => x,
                None => {
                    return None;
                },
            };
            full.push('.');
            push_string(&mut full, &segment);
            proof {
                self.lemma_wf();
                assert(full@ =~= before + seq!['.'] + segment@);
            }
        }
        proof {
            self.lemma_wf();
        }
        Some(string_of(full.as_slice()))
    }

    /// `<T>` after `su` or `laung`.
    #[verifier::spinoff_prover]
    fn parse_angle_type(&mut self) -> (r: Option<Type>)
        requires
            old(self).wf(),
        ensures
            Parser::evolves(*old(self), *final(self)),
            (opt_type_model(r), final(self).st()) == angle_at(old(self).toks(), old(self).st()),
        decreases old(self).remaining(), 4nat,
    {
        reveal(angle_at);
        if !self.expect_peek(TokenTag::LessThan) {
            return None;
        }
        self.next_token();
        let inner = match self.parse_type() {
            Some(t) => t,
            None => {
                return None;
            },
        };
        if !self.expect_peek(TokenTag::GreaterThan) {
            return None;
        }
        Some(inner)
    }

    #[verifier::spinoff_prover]
    fn parse_map_type(&mut self) -> (r: Option<Type>)
        requires
            old(self).wf(),
        ensures
            Parser::evolves(*old(self), *final(self)),
            (opt_type_model(r), final(self).st()) == map_type_at(old(self).toks(), old(self).st()),
        decreases old(self).remaining(), 4nat,
    {
        reveal(map_type_at);
        if !self.expect_peek(TokenTag::LessThan) {
            return None;
        }
        self.next_token();
        let key = match self.parse_type() {
            Some(x) => x,
            None => {
                return None;
            },
        };
        if !self.expect_peek(TokenTag::Comma) {
            return None;
        }
        self.next_token();
        let val = match self.parse_type() {
            Some(x) => x,
            None => {
                return None;
            },
        };
        if !self.expect_peek(TokenTag::GreaterThan) {
            return None;
        }
        Some(Type::HashMap(Box::new(key), Box::new(val)))
    }

    #[verifier::spinoff_prover]
    fn parse_tuple_type(&mut self) -> (r: Option<Type>)
        requires
            old(self).wf(),
            tag(old(self).toks(), old(self).st().pos) == TokenTag::LParen,
        ensures
            Parser::evolves(*old(self), *final(self)),
            (opt_type_model(r), final(self).st()) == tuple_type_at(old(self).toks(), old(self).st()),
        decreases old(self).remaining(), 4nat,
    {
        reveal(tuple_type_at); reveal(type_list);
        proof {
            self.lemma_wf();
        }
        let ghost toks = self.toks();
        self.next_token();
        let mut types: Vec<Type> = Vec::new();
        let first = match self.parse_type() {
            Some(x) => x,
            None => {
                return None;
            },
        };
        let ghost t0 = first.model();
        types.push(first);
        let ghost e0 = self.st();
        proof {
            crate::ast::lemma_models_of(types@);
            assert(crate::ast::models_of(types@).drop_first() =~= Seq::<TypeModel>::empty());
            match type_list(toks, e0).0 {
                Some(rest) => {
                    assert(Seq::<TypeModel>::empty() + rest =~= rest);
                },
                None => {},
            }
        }
        while self.peek_tag() == TokenTag::Comma
            invariant
                Parser::evolves(*old(self), *self),
                toks == self.toks(),
                toks == old(self).toks(),
                old(self).st().pos < e0.pos <= self.st().pos,
                tuple_type_at(toks, old(self).st()) == (match cons_opt(seq![t0], type_list(toks, e0)) {
                    (None, s3) => (None, s3),
                    (Some(ts), s3) => match expect(toks, s3, TokenTag::RParen) {
                        (false, s4) => (None, s4),
                        (true, s4) => (Some(TypeModel::Tuple(ts)), s4),
                    },
                }),
                crate::ast::models_of(types@).len() == types.len(),
                types.len() >= 1,
                crate::ast::models_of(types@)[0] == t0,
                type_list(toks, e0) == cons_opt(
                    crate::ast::models_of(types@).drop_first(),
                    type_list(toks, self.st()),
                ),
            decreases self.remaining(),
        {
            reveal(tuple_type_at); reveal(type_list);
            proof {
                self.lemma_wf();
            }
            let ghost before = types@;
            self.next_token();
            self.next_token();
            let ty = match self.parse_type() {
                Some(x) => x,
                None => {
                    return None;
                },
            };
            let ghost tm = ty.model();
            types.push(ty);
            proof {
                self.lemma_wf();
                crate::ast::lemma_models_of(types@);
                crate::ast::lemma_models_of(before);
                assert(crate::ast::models_of(types@) =~= crate::ast::models_of(before).push(tm));
                assert(crate::ast::models_of(types@).drop_first() =~= crate::ast::models_of(
                    before,
                ).drop_first().push(tm));
                match type_list(toks, self.st()).0 {
                    Some(rest) => {
                        assert(crate::ast::models_of(before).drop_first() + (seq![tm] + rest)
                            =~= crate::ast::models_of(before).drop_first().push(tm) + rest);
                    },
                    None => {},
                }
            }
        }
        proof {
            self.lemma_wf();
            crate::ast::lemma_models_of(types@);
            assert(seq![t0] + crate::ast::models_of(types@).drop_first() =~= crate::ast::models_of(
                types@,
            ));
            assert(crate::ast::models_of(types@).drop_first() + Seq::<TypeModel>::empty()
                =~= crate::ast::models_of(types@).drop_first());
        }
        if !self.expect_peek(TokenTag::RParen) {
            return None;
        }
        Some(Type::Tuple(types))
    }

    #[verifier::spinoff_prover]
    fn parse_function_type(&mut self) -> (r: Option<Type>)
        requires
            old(self).wf(),
        ensures
            Parser::evolves(*old(self), *final(self)),
            (opt_type_model(r), final(self).st()) == fn_type_at(old(self).toks(), old(self).st()),
        decreases old(self).remaining(), 4nat,
    {
        reveal(fn_type_at); reveal(type_list);
        proof {
            self.lemma_wf();
        }
        let ghost toks = self.toks();
        if !self.expect_peek(TokenTag::LParen) {
            return None;
        }
        let ghost s1 = self.st();
        let mut params: Vec<Type> = Vec::new();
        if self.peek_tag() == TokenTag::RParen {
            self.next_token();
            proof {
                crate::ast::lemma_models_of(params@);
                assert(crate::ast::models_of(params@) =~= Seq::<TypeModel>::empty());
            }
        } else {
            self.next_token();
            let first = match self.parse_type() {
                Some(x) => x,
                None => {
                    return None;
                },
            };
            let ghost t0 = first.model();
            params.push(first);
            let ghost e0 = self.st();
            proof {
                self.lemma_wf();
                crate::ast::lemma_models_of(params@);
                assert(crate::ast::models_of(params@).drop_first() =~= Seq::<TypeModel>::empty());
                match type_list(toks, e0).0 {
                    Some(rest) => {
                        assert(Seq::<TypeModel>::empty() + rest =~= rest);
                    },
                    None => {},
                }
            }
            while self.peek_tag() == TokenTag::Comma
                invariant
                    Parser::evolves(*old(self), *self),
                    toks == self.toks(),
                    toks == old(self).toks(),
                    s1.pos < e0.pos <= self.st().pos,
                    fn_type_at(toks, old(self).st()) == (match (match cons_opt(
                        seq![t0],
                        type_list(toks, e0),
                    ) {
                        (None, s4) => (None, s4),
                        (Some(ts), s4) => match expect(toks, s4, TokenTag::RParen) {
                            (false, s5) => (None, s5),
                            (true, s5) => (Some(ts), s5),
                        },
                    }) {
                        (None, s2) => (None, s2),
                        (Some(ps), s2) => match expect(toks, s2, TokenTag::Arrow) {
                            (false, s3) => (None, s3),
                            (true, s3) => {
                                let s4 = adv(toks, s3);
                                if !crate::grammar::gt(toks, old(self).st(), s4) {
                                    (None, s4)
                                } else {
                                    match type_at(toks, s4) {
                                        (None, s5) => (None, s5),
                                        (Some(r), s5) => (Some(TypeModel::Function(ps, Box::new(r))), s5),
                                    }
                                }
                            },
                        },
                    }),
                    crate::ast::models_of(params@).len() == params.len(),
                    params.len() >= 1,
                    crate::ast::models_of(params@)[0] == t0,
                    type_list(toks, e0) == cons_opt(
                        crate::ast::models_of(params@).drop_first(),
                        type_list(toks, self.st()),
                    ),
                decreases self.remaining(),
            {
                reveal(fn_type_at); reveal(type_list);
                proof {
                    self.lemma_wf();
                }
                let ghost before = params@;
                self.next_token();
                self.next_token();
                let ty = match self.parse_type() {
                    Some(x) => x,
                    None => {
                        return None;
                    },
                };
                let ghost tm = ty.model();
                params.push(ty);
                proof {
                    self.lemma_wf();
                    crate::ast::lemma_models_of(params@);
                    crate::ast::lemma_models_of(before);
                    assert(crate::ast::models_of(params@) =~= crate::ast::models_of(before).push(tm));
                    assert(crate::ast::models_of(params@).drop_first() =~= crate::ast::models_of(
                        before,
                    ).drop_first().push(tm));
                    match type_list(toks, self.st()).0 {
                        Some(rest) => {
                            assert(crate::ast::models_of(before).drop_first() + (seq![tm] + rest)
                                =~= crate::ast::models_of(before).drop_first().push(tm) + rest);
                        },
                        None => {},
                    }
                }
            }
            proof {
                self.lemma_wf();
                crate::ast::lemma_models_of(params@);
                assert(seq![t0] + crate::ast::models_of(params@).drop_first() =~= crate::ast::models_of(
                    params@,
                ));
                assert(crate::ast::models_of(params@).drop_first() + Seq::<TypeModel>::empty()
                    =~= crate::ast::models_of(params@).drop_first());
            }
            if !self.expect_peek(TokenTag::RParen) {
                return None;
            }
        }
        if !self.expect_peek(TokenTag::Arrow) {
            return None;
        }
        self.next_token();
        let ret = match self.parse_type() {
            Some(x) => x,
            None => {
                return None;
            },
        };
        Some(Type::Function { params, return_type: Box::new(ret) })
    }

    #[verifier::spinoff_prover]
    fn parse_package_statement(&mut self) -> (r: Option<Statement>)
        requires
            old(self).wf(),
        ensures
            Parser::evolves(*old(self), *final(self)),
            (opt_stmt_model(r), final(self).st()) == package_at(
                old(self).toks(),
                old(self).depth(),
                old(self).st(),
            ),
    {
        if self.block_depth > 0 {
            self.error_at_cur("`atote` is only allowed at top level");
            return None;
        }
        let (name, name_span) = match self.expect_ident() {
            Some(x) => x,
            None => {
                return None;
            },
        };
        self.skip_semicolon();
        Some(Statement::PackageDecl { name, name_span })
    }

    #[verifier::spinoff_prover]
    fn parse_export_statement(&mut self) -> (r: Option<Statement>)
        requires
            old(self).wf(),
            tag(old(self).toks(), old(self).st().pos) == TokenTag::Pay,
        ensures
            Parser::evolves(*old(self), *final(self)),
            (opt_stmt_model(r), final(self).st()) == export_at(
                old(self).toks(),
                old(self).depth(),
                old(self).st(),
            ),
        decreases old(self).remaining(), 20nat,
    {
        reveal(export_at);
        let name_span = self.cur_span();
        if self.block_depth > 0 {
            self.error_at_cur("`pay` is only allowed at top level");
            return None;
        }
        self.next_token();
        let inner = match self.parse_statement() {
            Some(x) => x,
            None => {
                return None;
            },
        };
        let exportable = match &inner {
            Statement::Let { .. } | Statement::FunctionDecl { .. } | Statement::StructDecl { .. }
            | Statement::MethodDecl { .. } | Statement::InterfaceDecl { .. } => true,
            _ => false,
        };
        if !exportable {
            let m = chars_of("`pay` can only export declarations");
            self.push_error(m, name_span.line, name_span.column);
            return None;
        }
        Some(Statement::Export { statement: Box::new(inner), name_span })
    }

    #[verifier::spinoff_prover]
    fn parse_import_statement(&mut self) -> (r: Option<Statement>)
        requires
            old(self).wf(),
        ensures
            Parser::evolves(*old(self), *final(self)),
            (opt_stmt_model(r), final(self).st()) == import_at(old(self).toks(), old(self).st()),
    {
        self.next_token();
        let name_span = self.cur_span();
        let module = match &self.tokens[self.pos].kind {
            TokenKind::Identifier(n) => n.clone(),
            TokenKind::StringLiteral(n) => n.clone(),
            _ => {
                return None;
            },
        };
        self.skip_semicolon();
        Some(Statement::Import { module, name_span })
    }

    #[verifier::spinoff_prover]
    fn parse_test_declaration(&mut self) -> (r: Option<Statement>)
        requires
            old(self).wf(),
        ensures
            Parser::evolves(*old(self), *final(self)),
            (opt_stmt_model(r), final(self).st()) == test_at(
                old(self).toks(),
                old(self).depth(),
                old(self).st(),
            ),
        decreases old(self).remaining(), 20nat,
    {
        reveal(test_at);
        if self.block_depth > 0 {
            self.error_at_cur("`set_sae` is only allowed at top level");
            return None;
        }
        let (name, name_span) = match self.expect_ident() {
            Some(x) => x,
            None => {
                return None;
            },
        };
        if !self.expect_peek(TokenTag::LBrace) {
            return None;
        }
        let body = self.parse_block_statement();
        Some(Statement::TestDecl { name, body, name_span })
    }

    /// The `Type name, Type name, ...` list of a destructuring declaration
    /// after its first comma, up to the `=`.
    #[verifier::spinoff_prover]
    fn parse_destructured_tail(&mut self, names: &mut Vec<(String, Type, Span)>) -> (r: bool)
        requires
            old(self).wf(),
        ensures
            Parser::evolves(*old(self), *final(self)),
            final(names)@.len() >= old(names)@.len(),
            final(names)@.subrange(0, old(names)@.len() as int) == old(names)@,
            destructured_tail(old(self).toks(), old(self).st()) == (
                r,
                param_models(final(names)@).subrange(
                    old(names)@.len() as int,
                    final(names)@.len() as int,
                ),
                final(self).st(),
            ),
    {
        reveal(destructured_tail);
        let ghost toks = self.toks();
        let ghost n0 = names@.len();
        proof {
            assert(names@.subrange(0, n0 as int) =~= old(names)@);
        }
        loop
            invariant
                Parser::evolves(*old(self), *self),
                toks == self.toks(),
                toks == old(self).toks(),
                n0 == old(names)@.len(),
                names@.len() >= n0,
                names@.subrange(0, n0 as int) == old(names)@,
                destructured_tail(toks, old(self).st()) == (match destructured_tail(
                    toks,
                    self.st(),
                ) {
                    (ok, rest, s) => (
                        ok,
                        param_models(names@).subrange(n0 as int, names@.len() as int) + rest,
                        s,
                    ),
                }),
            decreases self.remaining(),
        {
            reveal(destructured_tail);
            proof {
                self.lemma_wf();
            }
            let ghost s = self.st();
            let ghost before = names@;
            self.next_token();
            let ty = match self.parse_type() {
                Some(t) => t,
                None => {
                    proof {
                        assert(param_models(names@).subrange(n0 as int, names@.len() as int)
                            + Seq::<crate::grammar::ParamM>::empty() =~= param_models(
                            names@,
                        ).subrange(n0 as int, names@.len() as int));
                    }
                    return false;
                },
            };
            let (name, span) = match self.expect_ident() {
                Some(x) => x,
                None => {
                    proof {
                        assert(param_models(names@).subrange(n0 as int, names@.len() as int)
                            + Seq::<crate::grammar::ParamM>::empty() =~= param_models(
                            names@,
                        ).subrange(n0 as int, names@.len() as int));
                    }
                    return false;
                },
            };
            let ghost it = (name@, ty.model(), span);
            names.push((name, ty, span));
            proof {
                assert(names@.subrange(0, n0 as int) =~= before.subrange(0, n0 as int));
                assert(param_models(names@).subrange(n0 as int, names@.len() as int) =~= param_models(
                    before,
                ).subrange(n0 as int, before.len() as int) + seq![it]);
            }
            if self.peek_tag() != TokenTag::Comma {
                proof {
                    self.lemma_wf();
                    assert(param_models(before).subrange(n0 as int, before.len() as int) + seq![it]
                        =~= param_models(names@).subrange(n0 as int, names@.len() as int));
                }
                return true;
            }
            self.next_token();
            proof {
                self.lemma_wf();
                let (ok, rest, s4) = destructured_tail(toks, self.st());
                assert(param_models(before).subrange(n0 as int, before.len() as int) + (seq![it]
                    + rest) =~= param_models(names@).subrange(n0 as int, names@.len() as int)
                    + rest);
            }
        }
    }

    #[verifier::spinoff_prover]
    fn parse_let_or_destructured(&mut self) -> (r: Option<Statement>)
        requires
            old(self).wf(),
        ensures
            Parser::evolves(*old(self), *final(self)),
            (opt_stmt_model(r), final(self).st()) == let_at(
                old(self).toks(),
                old(self).depth(),
                old(self).st(),
            ),
        decreases old(self).remaining(), 20nat,
    {
        reveal(let_at);
        proof {
            self.lemma_wf();
        }
        let ghost from = self.st();
        let ty1 = match self.parse_type() {
            Some(x) => x,
            None => {
                return None;
            },
        };
        let (name1, span1) = match self.expect_ident() {
            Some(x) => x,
            None => {
                return None;
            },
        };
        proof {
            self.lemma_wf();
        }
        self.parse_declaration_rest(name1, ty1, span1, Ghost(from))
    }

    /// The rest of a declaration whose first name is at the current token:
    /// `, Type name ... = value` or `= value`.
    #[verifier::spinoff_prover]
    fn parse_declaration_rest(&mut self, name1: String, ty1: Type, span1: Span, Ghost(from): Ghost<St>) -> (r: Option<Statement>)
        requires
            old(self).wf(),
            from.pos <= old(self).st().pos,
        ensures
            Parser::evolves(*old(self), *final(self)),
            (opt_stmt_model(r), final(self).st()) == declaration_rest(
                old(self).toks(),
                old(self).depth(),
                name1@,
                ty1.model(),
                span1,
                old(self).st(),
                from,
            ),
        decreases old(self).remaining(), 19nat,
    {
        reveal(declaration_rest); reveal(destructured_value); reveal(let_value);
        proof {
            self.lemma_wf();
        }
        if self.peek_tag() == TokenTag::Comma {
            self.next_token();
            let mut names: Vec<(String, Type, Span)> = Vec::new();
            let ghost first = (name1@, ty1.model(), span1);
            names.push((name1, ty1, span1));
            let ghost pre = names@;
            proof {
                assert(param_models(pre)[0] == first);
            }
            if !self.parse_destructured_tail(&mut names) {
                return None;
            }
            proof {
                self.lemma_wf();
                assert(names@.subrange(0, 1) == pre);
                assert(names@[0] == names@.subrange(0, 1)[0]);
                assert(param_models(names@)[0] == first);
                assert(param_models(names@) =~= seq![first] + param_models(names@).subrange(
                    1,
                    names@.len() as int,
                ));
            }
            if !self.expect_peek(TokenTag::Assign) {
                return None;
            }
            self.next_token();
            proof {
                self.lemma_wf();
            }
            let value = match self.parse_expression(LOWEST) {
                Some(x) => x,
                None => {
                    return None;
                },
            };
            self.skip_semicolon();
            return Some(Statement::LetDestructured { names, value });
        }
        if !self.expect_peek(TokenTag::Assign) {
            return None;
        }
        self.next_token();
        proof {
            self.lemma_wf();
        }
        let value = match self.parse_expression(LOWEST) {
            Some(x) => x,
            None => {
                return None;
            },
        };
        self.skip_semicolon();
        Some(Statement::Let { name: name1, value, ty: ty1, name_span: span1 })
    }

    /// `= value;` after the target `left` of an assignment.
    #[verifier::spinoff_prover]
    fn parse_assignment(&mut self, left: Expression, name_span: Span, Ghost(from): Ghost<St>) -> (r: Option<Statement>)
        requires
            old(self).wf(),
            from.pos <= old(self).st().pos,
            peek_is(old(self).toks(), old(self).st(), TokenTag::Assign),
        ensures
            Parser::evolves(*old(self), *final(self)),
            (opt_stmt_model(r), final(self).st()) == assignment_at(
                old(self).toks(),
                old(self).depth(),
                expr_model(left),
                name_span,
                old(self).st(),
                from,
            ),
        decreases old(self).remaining(), 19nat,
    {
        reveal(assignment_at);
        proof {
            reveal_with_fuel(expr_model, 2);
            self.lemma_wf();
        }
        self.next_token();
        self.next_token();
        proof {
            self.lemma_wf();
        }
        let value = match self.parse_expression(LOWEST) {
            Some(x) => x,
            None => {
                return None;
            },
        };
        self.skip_semicolon();
        match left {
            Expression::Identifier(name) => Some(Statement::Assign { name, value, name_span }),
            Expression::FieldAccess { object, field } => match *object {
                Expression::Identifier(object_name) => Some(
                    Statement::FieldAssign { object: object_name, field, value, name_span },
                ),
                _ => {
                    let m = chars_of("Invalid field assignment target");
                    self.push_error(m, name_span.line, name_span.column);
                    None
                },
            },
            Expression::IndexExpression { left, index } => Some(
                Statement::IndexAssign { object: *left, index: *index, value, name_span },
            ),
            _ => {
                let m = chars_of("Invalid assignment target");
                self.push_error(m, name_span.line, name_span.column);
                None
            },
        }
    }

    #[verifier::spinoff_prover]
    fn parse_reassignment_or_expression_statement(&mut self) -> (r: Option<Statement>)
        requires
            old(self).wf(),
        ensures
            Parser::evolves(*old(self), *final(self)),
            (opt_stmt_model(r), final(self).st()) == reassign_at(
                old(self).toks(),
                old(self).depth(),
                old(self).st(),
            ),
        decreases old(self).remaining(), 20nat,
    {
        reveal(reassign_at);
        proof {
            reveal_with_fuel(expr_model, 2);
            self.lemma_wf();
        }
        let ghost from = self.st();
        let name_span = self.cur_span();
        let left = match self.parse_expression(LOWEST) {
            Some(x) => x,
            None => {
                return None;
            },
        };
        proof {
            self.lemma_wf();
        }
        if self.peek_tag() == TokenTag::Assign {
            return self.parse_assignment(left, name_span, Ghost(from));
        }
        // `module.Type name = expr;` and `module.Type a, amhar b = expr;`
        let qualified: Option<Vec<char>> = match &left {
            Expression::FieldAccess { object, field } => match &**object {
                Expression::Identifier(type_ns) => {
                    let mut q = chars_of(type_ns.as_str());
                    q.push('.');
                    push_string(&mut q, field);
                    proof {
                        assert(q@ =~= type_ns@ + seq!['.'] + field@);
                    }
                    Some(q)
                },
                _ => None,
            },
            _ => None,
        };
        if let Some(q) = qualified {
            if self.peek_is_identifier() {
                self.next_token();
                let first_span = self.cur_span();
                let first_name = match self.cur_ident() {
                    Some(x) => x,
                    None => {
                        return None;
                    },
                };
                let first_ty = Type::Struct(string_of(q.as_slice()));
                proof {
                    self.lemma_wf();
                }
                proof {
                    assert(first_ty.model() == TypeModel::Struct(q@));
                    assert(gt(self.toks(), from, self.st()));
                }
                return self.parse_declaration_rest(first_name, first_ty, first_span, Ghost(from));
            }
        }
        self.skip_semicolon();
        Some(Statement::ExpressionStatement(left))
    }

    #[verifier::spinoff_prover]
    fn parse_return_statement(&mut self) -> (r: Option<Statement>)
        requires
            old(self).wf(),
            tag(old(self).toks(), old(self).st().pos) == TokenTag::Pyan,
        ensures
            Parser::evolves(*old(self), *final(self)),
            (opt_stmt_model(r), final(self).st()) == return_at(
                old(self).toks(),
                old(self).depth(),
                old(self).st(),
            ),
        decreases old(self).remaining(), 20nat,
    {
        reveal(return_at); reveal(expr_rest);
        proof {
            self.lemma_wf();
        }
        let ghost toks = self.toks();
        let ghost d = self.depth();
        self.next_token();
        if self.cur_tag() == TokenTag::LParen {
            self.next_token();
            let first = match self.parse_expression(LOWEST) {
                Some(x) => x,
                None => {
                    return None;
                },
            };
            proof {
                self.lemma_wf();
            }
            if self.peek_tag() == TokenTag::Comma {
                let ghost e0 = self.st();
                let mut elements: Vec<Expression> = Vec::new();
                elements.push(first);
                proof {
                    assert(exprs_model(elements@).drop_first() =~= Seq::<ExprModel>::empty()) by {
                        reveal_with_fuel(exprs_model, 2);
                    }
                    match expr_rest(toks, d, e0).0 {
                        Some(rest) => {
                            assert(Seq::<ExprModel>::empty() + rest =~= rest);
                        },
                        None => {},
                    }
                }
                while self.peek_tag() == TokenTag::Comma
                    invariant
                        Parser::evolves(*old(self), *self),
                        toks == self.toks(),
                        toks == old(self).toks(),
                        d == self.depth(),
                        elements.len() >= 1,
                        exprs_model(elements@).len() == elements.len(),
                        expr_rest(toks, d, e0) == cons_opt(
                            exprs_model(elements@).drop_first(),
                            expr_rest(toks, d, self.st()),
                        ),
                        exprs_model(elements@)[0] == expr_model(elements@[0]),
                        return_at(toks, d, old(self).st()) == (match cons_opt(
                            seq![exprs_model(elements@)[0]],
                            expr_rest(toks, d, e0),
                        ) {
                            (None, s4) => (None, s4),
                            (Some(es), s4) => match expect(toks, s4, TokenTag::RParen) {
                                (false, s5) => (None, s5),
                                (true, s5) => (
                                    Some(StmtModel::Return(ExprModel::Tuple(es))),
                                    skip_semi(toks, s5),
                                ),
                            },
                        }),
                    decreases self.remaining(),
                {
                    reveal(return_at); reveal(expr_rest);
                    proof {
                        self.lemma_wf();
                    }
                    let ghost before = elements@;
                    self.next_token();
                    self.next_token();
                    let e = match self.parse_expression(LOWEST) {
                        Some(x) => x,
                        None => {
                            return None;
                        },
                    };
                    let ghost em = expr_model(e);
                    elements.push(e);
                    proof {
                        self.lemma_wf();
                        lemma_exprs_model_push(before, e);
                        assert(exprs_model(elements@).drop_first() =~= exprs_model(
                            before,
                        ).drop_first().push(em));
                        match expr_rest(toks, d, self.st()).0 {
                            Some(rest) => {
                                assert(exprs_model(before).drop_first() + (seq![em] + rest)
                                    =~= exprs_model(before).drop_first().push(em) + rest);
                            },
                            None => {},
                        }
                    }
                }
                proof {
                    self.lemma_wf();
                    assert(exprs_model(elements@) =~= seq![exprs_model(elements@)[0]] + exprs_model(
                        elements@,
                    ).drop_first());
                    assert(exprs_model(elements@).drop_first() + Seq::<ExprModel>::empty()
                        =~= exprs_model(elements@).drop_first());
                }
                if !self.expect_peek(TokenTag::RParen) {
                    return None;
                }
                self.skip_semicolon();
                let ghost es = exprs_model(elements@);
                let v = Expression::TupleLiteral { elements };
                proof {
                    assert(expr_model(v) == ExprModel::Tuple(es));
                    assert(stmt_model(Statement::Return { value: v }) == StmtModel::Return(
                        ExprModel::Tuple(es),
                    ));
                }
                return Some(Statement::Return { value: v });
            }
            if !self.expect_peek(TokenTag::RParen) {
                return None;
            }
            self.skip_semicolon();
            return Some(Statement::Return { value: first });
        }
        let value = match self.parse_expression(LOWEST) {
            Some(x) => x,
            None => {
                return None;
            },
        };
        self.skip_semicolon();
        Some(Statement::Return { value })
    }

    /// `kyoe call;` when `go` holds, `naut_sone call;` otherwise.
    #[verifier::spinoff_prover]
    fn parse_go_or_defer(&mut self, go: bool) -> (r: Option<Statement>)
        requires
            old(self).wf(),
            !go ==> tag(old(self).toks(), old(self).st().pos) == TokenTag::NautSone,
            go ==> tag(old(self).toks(), old(self).st().pos) == TokenTag::Kyoe,
        ensures
            Parser::evolves(*old(self), *final(self)),
            (opt_stmt_model(r), final(self).st()) == go_at(
                old(self).toks(),
                old(self).depth(),
                go,
                old(self).st(),
            ),
        decreases old(self).remaining(), 20nat,
    {
        reveal(go_at);
        self.next_token();
        let call = match self.parse_expression(LOWEST) {
            Some(x) => x,
            None => {
                return None;
            },
        };
        let is_call = match &call {
            Expression::FunctionCall { .. } | Expression::MethodCall { .. } => true,
            _ => false,
        };
        assert(is_call == (expr_model(call) is Call || expr_model(call) is MethodCall));
        if !is_call {
            if go {
                self.error_at_cur("`kyoe` expects a function or method call");
            } else {
                self.error_at_cur("`naut_sone` expects a function or method call");
            }
            return None;
        }
        self.skip_semicolon();
        if go {
            Some(Statement::Go { call })
        } else {
            Some(Statement::Defer { call })
        }
    }

    #[verifier::spinoff_prover]
    fn parse_print_statement(&mut self) -> (r: Option<Statement>)
        requires
            old(self).wf(),
        ensures
            Parser::evolves(*old(self), *final(self)),
            (opt_stmt_model(r), final(self).st()) == print_at(
                old(self).toks(),
                old(self).depth(),
                old(self).st(),
            ),
        decreases old(self).remaining(), 20nat,
    {
        reveal(print_at);
        if !self.expect_peek(TokenTag::LParen) {
            return None;
        }
        self.next_token();
        let value = match self.parse_expression(LOWEST) {
            Some(x) => x,
            None => {
                return None;
            },
        };
        if !self.expect_peek(TokenTag::RParen) {
            return None;
        }
        self.skip_semicolon();
        Some(Statement::Print { value })
    }

    #[verifier::spinoff_prover]
    fn parse_if_statement(&mut self) -> (r: Option<Statement>)
        requires
            old(self).wf(),
        ensures
            Parser::evolves(*old(self), *final(self)),
            (opt_stmt_model(r), final(self).st()) == if_at(
                old(self).toks(),
                old(self).depth(),
                old(self).st(),
            ),
        decreases old(self).remaining(), 20nat,
    {
        reveal(if_at);
        if !self.expect_peek(TokenTag::LParen) {
            return None;
        }
        self.next_token();
        let condition = match self.parse_expression(LOWEST) {
            Some(x) => x,
            None => {
                return None;
            },
        };
        if !self.expect_peek(TokenTag::RParen) {
            return None;
        }
        if !self.expect_peek(TokenTag::LBrace) {
            return None;
        }
        let consequence = self.parse_block_statement();
        let alternative = if self.peek_tag() == TokenTag::Mo {
            self.next_token();
            if self.peek_tag() == TokenTag::Hlyin {
                self.next_token();
                let elif = match self.parse_if_statement() {
                    Some(x) => x,
                    None => {
                        return None;
                    },
                };
                Some(IfAlternative::ElseIf(Box::new(elif)))
            } else {
                if !self.expect_peek(TokenTag::LBrace) {
                    return None;
                }
                Some(IfAlternative::Else(self.parse_block_statement()))
            }
        } else {
            None
        };
        Some(Statement::If { condition, consequence, alternative })
    }

    #[verifier::spinoff_prover]
    fn parse_pat_statement(&mut self) -> (r: Option<Statement>)
        requires
            old(self).wf(),
        ensures
            Parser::evolves(*old(self), *final(self)),
            (opt_stmt_model(r), final(self).st()) == pat_at(
                old(self).toks(),
                old(self).depth(),
                old(self).st(),
            ),
        decreases old(self).remaining(), 25nat,
    {
        reveal(pat_at);
        if self.peek_tag() == TokenTag::LParen {
            return self.parse_paren_pat_statement();
        }
        self.parse_for_in_statement()
    }

    /// `htae collection { body }` of a for-in loop.
    #[verifier::spinoff_prover]
    fn parse_for_in_tail(&mut self, index: Option<String>, iterator: String, name_span: Span) -> (r:
        Option<Statement>)
        requires
            old(self).wf(),
        ensures
            Parser::evolves(*old(self), *final(self)),
            (opt_stmt_model(r), final(self).st()) == for_in_tail(
                old(self).toks(),
                old(self).depth(),
                match index {
                    Some(i) => Some(i@),
                    None => None,
                },
                iterator@,
                name_span,
                old(self).st(),
            ),
        decreases old(self).remaining(), 18nat,
    {
        reveal(for_in_tail);
        if !self.expect_peek(TokenTag::Htae) {
            return None;
        }
        self.next_token();
        let collection = match self.parse_expression(LOWEST) {
            Some(x) => x,
            None => {
                return None;
            },
        };
        if !self.expect_peek(TokenTag::LBrace) {
            return None;
        }
        let body = self.parse_block_statement();
        Some(Statement::ForIn { index, iterator, collection, body, name_span })
    }

    #[verifier::spinoff_prover]
    fn parse_paren_pat_statement(&mut self) -> (r: Option<Statement>)
        requires
            old(self).wf(),
            tag(old(self).toks(), peek_idx(old(self).toks(), old(self).st().pos)) == TokenTag::LParen,
        ensures
            Parser::evolves(*old(self), *final(self)),
            (opt_stmt_model(r), final(self).st()) == paren_pat_at(
                old(self).toks(),
                old(self).depth(),
                old(self).st(),
            ),
        decreases old(self).remaining(), 20nat,
    {
        reveal(paren_pat_at); reveal(typed_for_in);
        self.next_token();
        self.next_token();
        let cur = self.cur_tag();
        if cur == TokenTag::Semicolon || (cur == TokenTag::Identifier && self.peek_tag()
            == TokenTag::Assign) {
            return self.parse_classic_for_statement();
        }
        if token_can_start_type(cur) && self.peek_is_identifier() {
            let first_ty = match self.parse_type() {
                Some(x) => x,
                None => {
                    return None;
                },
            };
            let (first_name, first_span) = match self.expect_ident() {
                Some(x) => x,
                None => {
                    return None;
                },
            };
            if self.peek_tag() == TokenTag::Assign {
                self.next_token();
                self.next_token();
                let init_value = match self.parse_expression(LOWEST) {
                    Some(x) => x,
                    None => {
                        return None;
                    },
                };
                let init = Statement::Let {
                    name: first_name,
                    value: init_value,
                    ty: first_ty,
                    name_span: first_span,
                };
                return self.parse_classic_for_tail(Some(init));
            }
            let mut name_span = self.cur_span();
            let index: Option<String>;
            let iterator: String;
            if self.peek_tag() == TokenTag::Comma {
                self.next_token();
                self.next_token();
                let _second_ty = match self.parse_type() {
                    Some(x) => x,
                    None => {
                        return None;
                    },
                };
                let (second_name, second_span) = match self.expect_ident() {
                    Some(x) => x,
                    None => {
                        return None;
                    },
                };
                name_span = second_span;
                index = Some(first_name);
                iterator = second_name;
            } else {
                index = None;
                iterator = first_name;
            }
            if !self.expect_peek(TokenTag::RParen) {
                return None;
            }
            return self.parse_for_in_tail(index, iterator, name_span);
        }
        if cur == TokenTag::Identifier && self.peek_tag() == TokenTag::Comma {
            let index_name = match self.cur_ident() {
                Some(x) => x,
                None => {
                    return None;
                },
            };
            let first_span = self.cur_span();
            self.next_token();
            let (iterator, _) = match self.expect_ident() {
                Some(x) => x,
                None => {
                    return None;
                },
            };
            if !self.expect_peek(TokenTag::RParen) {
                return None;
            }
            return self.parse_for_in_tail(Some(index_name), iterator, first_span);
        }
        let condition = match self.parse_expression(LOWEST) {
            Some(x) => x,
            None => {
                return None;
            },
        };
        if !self.expect_peek(TokenTag::RParen) {
            return None;
        }
        if !self.expect_peek(TokenTag::LBrace) {
            return None;
        }
        let body = self.parse_block_statement();
        Some(Statement::While { condition, body })
    }

    #[verifier::spinoff_prover]
    fn parse_classic_for_statement(&mut self) -> (r: Option<Statement>)
        requires
            old(self).wf(),
        ensures
            Parser::evolves(*old(self), *final(self)),
            (opt_stmt_model(r), final(self).st()) == classic_for_at(
                old(self).toks(),
                old(self).depth(),
                old(self).st(),
            ),
        decreases old(self).remaining(), 15nat,
    {
        reveal(classic_for_at);
        let init = if self.cur_tag() == TokenTag::Semicolon {
            None
        } else {
            let stmt = match self.parse_for_classic_component(true) {
                Some(x) => x,
                None => {
                    return None;
                },
            };
            Some(stmt)
        };
        self.parse_classic_for_tail(init)
    }

    #[verifier::spinoff_prover]
    fn parse_classic_for_tail(&mut self, init: Option<Statement>) -> (r: Option<Statement>)
        requires
            old(self).wf(),
        ensures
            Parser::evolves(*old(self), *final(self)),
            (opt_stmt_model(r), final(self).st()) == classic_tail(
                old(self).toks(),
                old(self).depth(),
                opt_stmt_model(init),
                old(self).st(),
            ),
        decreases old(self).remaining(), 14nat,
    {
        reveal(classic_tail);
        if self.cur_tag() != TokenTag::Semicolon {
            if !self.expect_peek(TokenTag::Semicolon) {
                return None;
            }
        }
        self.next_token();
        let condition = if self.cur_tag() == TokenTag::Semicolon {
            None
        } else {
            let cond = match self.parse_expression(LOWEST) {
                Some(x) => x,
                None => {
                    return None;
                },
            };
            Some(cond)
        };
        if self.cur_tag() != TokenTag::Semicolon {
            if !self.expect_peek(TokenTag::Semicolon) {
                return None;
            }
        }
        self.next_token();
        let post = if self.cur_tag() == TokenTag::RParen {
            None
        } else {
            let stmt = match self.parse_for_classic_component(false) {
                Some(x) => x,
                None => {
                    return None;
                },
            };
            Some(Box::new(stmt))
        };
        if self.cur_tag() != TokenTag::RParen {
            if !self.expect_peek(TokenTag::RParen) {
                return None;
            }
        }
        if !self.expect_peek(TokenTag::LBrace) {
            return None;
        }
        let body = self.parse_block_statement();
        let init = match init {
            Some(s) => Some(Box::new(s)),
            None => None,
        };
        Some(Statement::ForClassic { init, condition, post, body })
    }

    #[verifier::spinoff_prover]
    fn parse_for_classic_component(&mut self, allow_typed_let: bool) -> (r: Option<Statement>)
        requires
            old(self).wf(),
        ensures
            Parser::evolves(*old(self), *final(self)),
            (opt_stmt_model(r), final(self).st()) == component_at(
                old(self).toks(),
                old(self).depth(),
                allow_typed_let,
                old(self).st(),
            ),
        decreases old(self).remaining(), 14nat,
    {
        reveal(component_at);
        let cur = self.cur_tag();
        if allow_typed_let && token_can_start_type(cur) && self.peek_is_identifier() {
            let ty = match self.parse_type() {
                Some(x) => x,
                None => {
                    return None;
                },
            };
            let (name, name_span) = match self.expect_ident() {
                Some(x) => x,
                None => {
                    return None;
                },
            };
            if !self.expect_peek(TokenTag::Assign) {
                return None;
            }
            self.next_token();
            let value = match self.parse_expression(LOWEST) {
                Some(x) => x,
                None => {
                    return None;
                },
            };
            return Some(Statement::Let { name, value, ty, name_span });
        }
        if cur == TokenTag::Identifier && self.peek_tag() == TokenTag::Assign {
            let span = self.cur_span();
            let name = match self.cur_ident() {
                Some(x) => x,
                None => {
                    return None;
                },
            };
            self.next_token();
            self.next_token();
            let value = match self.parse_expression(LOWEST) {
                Some(x) => x,
                None => {
                    return None;
                },
            };
            return Some(Statement::Assign { name, value, name_span: span });
        }
        let expr = match self.parse_expression(LOWEST) {
            Some(x) => x,
            None => {
                return None;
            },
        };
        Some(Statement::ExpressionStatement(expr))
    }

    #[verifier::spinoff_prover]
    fn parse_for_in_statement(&mut self) -> (r: Option<Statement>)
        requires
            old(self).wf(),
        ensures
            Parser::evolves(*old(self), *final(self)),
            (opt_stmt_model(r), final(self).st()) == for_in_stmt_at(
                old(self).toks(),
                old(self).depth(),
                old(self).st(),
            ),
        decreases old(self).remaining(), 20nat,
    {
        reveal(for_in_stmt_at);
        let (iterator, name_span) = match self.expect_ident() {
            Some(x) => x,
            None => {
                return None;
            },
        };
        self.parse_for_in_tail(None, iterator, name_span)
    }

    #[verifier::spinoff_prover]
    fn parse_function_declaration(&mut self) -> (r: Option<Statement>)
        requires
            old(self).wf(),
        ensures
            Parser::evolves(*old(self), *final(self)),
            (opt_stmt_model(r), final(self).st()) == fn_decl_at(
                old(self).toks(),
                old(self).depth(),
                old(self).st(),
            ),
        decreases old(self).remaining(), 20nat,
    {
        reveal(fn_decl_at); reveal(signature_body);
        let (name, name_span) = match self.expect_ident() {
            Some(x) => x,
            None => {
                return None;
            },
        };
        if !self.expect_peek(TokenTag::LParen) {
            return None;
        }
        let parameters = match self.parse_function_parameters() {
            Some(x) => x,
            None => {
                return None;
            },
        };
        if !self.expect_peek(TokenTag::Arrow) {
            return None;
        }
        self.next_token();
        let return_type = match self.parse_type() {
            Some(x) => x,
            None => {
                return None;
            },
        };
        if !self.expect_peek(TokenTag::LBrace) {
            return None;
        }
        let body = self.parse_block_statement();
        Some(Statement::FunctionDecl { name, parameters, return_type, body, name_span })
    }

    #[verifier::spinoff_prover]
    fn parse_method_declaration(&mut self) -> (r: Option<Statement>)
        requires
            old(self).wf(),
        ensures
            Parser::evolves(*old(self), *final(self)),
            (opt_stmt_model(r), final(self).st()) == method_at(
                old(self).toks(),
                old(self).depth(),
                old(self).st(),
            ),
        decreases old(self).remaining(), 20nat,
    {
        reveal(method_at); reveal(signature_body);
        if !self.expect_peek(TokenTag::LParen) {
            return None;
        }
        self.next_token();
        let receiver_type = match self.cur_ident() {
            Some(n) => n,
            None => {
                self.error_at_cur("Expected receiver type name");
                return None;
            },
        };
        let (receiver_name, _) = match self.expect_ident() {
            Some(x) => x,
            None => {
                return None;
            },
        };
        if !self.expect_peek(TokenTag::RParen) {
            return None;
        }
        let (name, name_span) = match self.expect_ident() {
            Some(x) => x,
            None => {
                return None;
            },
        };
        if !self.expect_peek(TokenTag::LParen) {
            return None;
        }
        let parameters = match self.parse_function_parameters() {
            Some(x) => x,
            None => {
                return None;
            },
        };
        if !self.expect_peek(TokenTag::Arrow) {
            return None;
        }
        self.next_token();
        let return_type = match self.parse_type() {
            Some(x) => x,
            None => {
                return None;
            },
        };
        if !self.expect_peek(TokenTag::LBrace) {
            return None;
        }
        let body = self.parse_block_statement();
        Some(
            Statement::MethodDecl {
                receiver_type,
                receiver_name,
                name,
                parameters,
                return_type,
                body,
                name_span,
            },
        )
    }

    #[verifier::spinoff_prover]
    fn parse_expression_statement(&mut self) -> (r: Option<Statement>)
        requires
            old(self).wf(),
        ensures
            Parser::evolves(*old(self), *final(self)),
            (opt_stmt_model(r), final(self).st()) == expr_stmt_at(
                old(self).toks(),
                old(self).depth(),
                old(self).st(),
            ),
        decreases old(self).remaining(), 20nat,
    {
        reveal(expr_stmt_at);
        let expr = match self.parse_expression(LOWEST) {
            Some(x) => x,
            None => {
                return None;
            },
        };
        self.skip_semicolon();
        Some(Statement::ExpressionStatement(expr))
    }

    #[verifier::spinoff_prover]
    fn parse_struct_declaration(&mut self) -> (r: Option<Statement>)
        requires
            old(self).wf(),
        ensures
            Parser::evolves(*old(self), *final(self)),
            (opt_stmt_model(r), final(self).st()) == struct_at(old(self).toks(), old(self).st()),
    {
        reveal(fields_at);
        let ghost toks = self.toks();
        let (name, name_span) = match self.expect_ident() {
            Some(x) => x,
            None => {
                return None;
            },
        };
        if !self.expect_peek(TokenTag::LBrace) {
            return None;
        }
        let mut fields: Vec<(String, Type)> = Vec::new();
        self.next_token();
        let ghost start = self.st();
        proof {
            assert(field_models(fields@) =~= Seq::<crate::grammar::FieldM>::empty());
            match fields_at(toks, start).0 {
                Some(rest) => {
                    assert(Seq::<crate::grammar::FieldM>::empty() + rest =~= rest);
                },
                None => {},
            }
        }
        while self.cur_tag() != TokenTag::RBrace && self.cur_tag() != TokenTag::Eof
            invariant
                Parser::evolves(*old(self), *self),
                toks == self.toks(),
                toks == old(self).toks(),
                fields_at(toks, start) == cons_opt(field_models(fields@), fields_at(toks, self.st())),
                struct_at(toks, old(self).st()) == (match fields_at(toks, start) {
                    (None, s3) => (None, s3),
                    (Some(fs), s3) => (Some(StmtModel::StructDecl(name@, fs, name_span)), s3),
                }),
            decreases self.remaining(),
        {
            reveal(fields_at);
            proof {
                self.lemma_wf();
            }
            let ghost before = fields@;
            let field_type = match self.parse_type() {
                Some(x) => x,
                None => {
                    return None;
                },
            };
            let (field_name, _) = match self.expect_ident() {
                Some(x) => x,
                None => {
                    return None;
                },
            };
            let ghost item = (field_name@, field_type.model());
            fields.push((field_name, field_type));
            self.skip_semicolon();
            self.next_token();
            proof {
                self.lemma_wf();
                assert(field_models(fields@) =~= field_models(before).push(item));
                match fields_at(toks, self.st()).0 {
                    Some(rest) => {
                        assert(field_models(before) + (seq![item] + rest) =~= field_models(
                            before,
                        ).push(item) + rest);
                    },
                    None => {},
                }
            }
        }
        proof {
            self.lemma_wf();
            assert(field_models(fields@) + Seq::<crate::grammar::FieldM>::empty() =~= field_models(
                fields@,
            ));
        }
        Some(Statement::StructDecl { name, fields, name_span })
    }

    #[verifier::spinoff_prover]
    fn parse_interface_declaration(&mut self) -> (r: Option<Statement>)
        requires
            old(self).wf(),
        ensures
            Parser::evolves(*old(self), *final(self)),
            (opt_stmt_model(r), final(self).st()) == interface_at(old(self).toks(), old(self).st()),
    {
        reveal(methods_at);
        let ghost toks = self.toks();
        let (name, name_span) = match self.expect_ident() {
            Some(x) => x,
            None => {
                return None;
            },
        };
        if !self.expect_peek(TokenTag::LBrace) {
            return None;
        }
        let mut methods: Vec<(String, Vec<(String, Type)>, Type)> = Vec::new();
        self.next_token();
        let ghost start = self.st();
        proof {
            assert(method_models(methods@) =~= Seq::<crate::grammar::MethodM>::empty());
            match methods_at(toks, start).0 {
                Some(rest) => {
                    assert(Seq::<crate::grammar::MethodM>::empty() + rest =~= rest);
                },
                None => {},
            }
        }
        while self.cur_tag() != TokenTag::RBrace && self.cur_tag() != TokenTag::Eof
            invariant
                Parser::evolves(*old(self), *self),
                toks == self.toks(),
                toks == old(self).toks(),
                methods_at(toks, start) == cons_opt(method_models(methods@), methods_at(toks, self.st())),
                interface_at(toks, old(self).st()) == (match methods_at(toks, start) {
                    (None, s3) => (None, s3),
                    (Some(ms), s3) => (Some(StmtModel::InterfaceDecl(name@, ms, name_span)), s3),
                }),
            decreases self.remaining(),
        {
            reveal(methods_at);
            proof {
                self.lemma_wf();
            }
            let ghost before = methods@;
            if self.cur_tag() != TokenTag::Loke {
                let mut m: Vec<char> = Vec::new();
                push_str(&mut m, "Expected 'loke' in interface method declaration, got ");
                push_kind_debug(&mut m, &self.tokens[self.pos].kind);
                let line = self.tokens[self.pos].line;
                let column = self.tokens[self.pos].column;
                self.push_error(m, line, column);
                return None;
            }
            let (method_name, _) = match self.expect_ident() {
                Some(x) => x,
                None => {
                    return None;
                },
            };
            if !self.expect_peek(TokenTag::LParen) {
                return None;
            }
            let params = match self.parse_interface_params() {
                Some(x) => x,
                None => {
                    return None;
                },
            };
            if !self.expect_peek(TokenTag::Arrow) {
                return None;
            }
            self.next_token();
            let ret = match self.parse_type() {
                Some(x) => x,
                None => {
                    return None;
                },
            };
            let ghost item = (method_name@, field_models(params@), ret.model());
            methods.push((method_name, params, ret));
            self.skip_semicolon();
            self.next_token();
            proof {
                self.lemma_wf();
                assert(method_models(methods@) =~= method_models(before).push(item));
                match methods_at(toks, self.st()).0 {
                    Some(rest) => {
                        assert(method_models(before) + (seq![item] + rest) =~= method_models(
                            before,
                        ).push(item) + rest);
                    },
                    None => {},
                }
            }
        }
        proof {
            self.lemma_wf();
            assert(method_models(methods@) + Seq::<crate::grammar::MethodM>::empty() =~= method_models(
                methods@,
            ));
        }
        Some(Statement::InterfaceDecl { name, methods, name_span })
    }

    #[verifier::spinoff_prover]
    fn parse_interface_params(&mut self) -> (r: Option<Vec<(String, Type)>>)
        requires
            old(self).wf(),
            tag(old(self).toks(), old(self).st().pos) == TokenTag::LParen,
        ensures
            Parser::evolves(*old(self), *final(self)),
            (match r {
                Some(v) => Some(field_models(v@)),
                None => None,
            }, final(self).st()) == iparams_at(old(self).toks(), old(self).st()),
    {
        reveal(iparam_rest);
        proof {
            self.lemma_wf();
        }
        let ghost toks = self.toks();
        let mut params: Vec<(String, Type)> = Vec::new();
        if self.peek_tag() == TokenTag::RParen {
            self.next_token();
            assert(field_models(params@) =~= Seq::<crate::grammar::FieldM>::empty());
            return Some(params);
        }
        self.next_token();
        let ty = match self.parse_type() {
            Some(x) => x,
            None => {
                return None;
            },
        };
        let (name, _) = match self.expect_ident() {
            Some(x) => x,
            None => {
                return None;
            },
        };
        let ghost it0 = (name@, ty.model());
        params.push((name, ty));
        let ghost e0 = self.st();
        proof {
            assert(field_models(params@).drop_first() =~= Seq::<crate::grammar::FieldM>::empty());
            match iparam_rest(toks, e0).0 {
                Some(rest) => {
                    assert(Seq::<crate::grammar::FieldM>::empty() + rest =~= rest);
                },
                None => {},
            }
        }
        while self.peek_tag() == TokenTag::Comma
            invariant
                Parser::evolves(*old(self), *self),
                toks == self.toks(),
                toks == old(self).toks(),
                params.len() >= 1,
                old(self).st().pos < e0.pos <= self.st().pos,
                field_models(params@)[0] == it0,
                iparams_at(toks, old(self).st()) == (match cons_opt(seq![it0], iparam_rest(toks, e0)) {
                    (None, s3) => (None, s3),
                    (Some(ps), s3) => match expect(toks, s3, TokenTag::RParen) {
                        (false, s4) => (None, s4),
                        (true, s4) => (Some(ps), s4),
                    },
                }),
                iparam_rest(toks, e0) == cons_opt(
                    field_models(params@).drop_first(),
                    iparam_rest(toks, self.st()),
                ),
            decreases self.remaining(),
        {
            reveal(iparam_rest);
            proof {
                self.lemma_wf();
            }
            let ghost before = params@;
            self.next_token();
            self.next_token();
            let ty = match self.parse_type() {
                Some(x) => x,
                None => {
                    return None;
                },
            };
            let (name, _) = match self.expect_ident() {
                Some(x) => x,
                None => {
                    return None;
                },
            };
            let ghost it = (name@, ty.model());
            params.push((name, ty));
            proof {
                self.lemma_wf();
                assert(field_models(params@) =~= field_models(before).push(it));
                assert(field_models(params@).drop_first() =~= field_models(before).drop_first().push(
                    it,
                ));
                match iparam_rest(toks, self.st()).0 {
                    Some(rest) => {
                        assert(field_models(before).drop_first() + (seq![it] + rest)
                            =~= field_models(before).drop_first().push(it) + rest);
                    },
                    None => {},
                }
            }
        }
        proof {
            self.lemma_wf();
            assert(seq![it0] + field_models(params@).drop_first() =~= field_models(params@));
            assert(field_models(params@).drop_first() + Seq::<crate::grammar::FieldM>::empty()
                =~= field_models(params@).drop_first());
        }
        if !self.expect_peek(TokenTag::RParen) {
            return None;
        }
        Some(params)
    }

    #[verifier::spinoff_prover]
    fn parse_function_parameters(&mut self) -> (r: Option<Vec<(String, Type, Span)>>)
        requires
            old(self).wf(),
            tag(old(self).toks(), old(self).st().pos) == TokenTag::LParen,
        ensures
            Parser::evolves(*old(self), *final(self)),
            (match r {
                Some(v) => Some(param_models(v@)),
                None => None,
            }, final(self).st()) == params_at(old(self).toks(), old(self).st()),
    {
        reveal(param_rest);
        proof {
            self.lemma_wf();
        }
        let ghost toks = self.toks();
        let mut identifiers: Vec<(String, Type, Span)> = Vec::new();
        if self.peek_tag() == TokenTag::RParen {
            self.next_token();
            assert(param_models(identifiers@) =~= Seq::<crate::grammar::ParamM>::empty());
            return Some(identifiers);
        }
        self.next_token();
        let ty = match self.parse_type() {
            Some(x) => x,
            None => {
                return None;
            },
        };
        let (name, span) = match self.expect_ident() {
            Some(x) => x,
            None => {
                return None;
            },
        };
        let ghost it0 = (name@, ty.model(), span);
        identifiers.push((name, ty, span));
        let ghost e0 = self.st();
        proof {
            assert(param_models(identifiers@).drop_first() =~= Seq::<crate::grammar::ParamM>::empty());
            match param_rest(toks, e0).0 {
                Some(rest) => {
                    assert(Seq::<crate::grammar::ParamM>::empty() + rest =~= rest);
                },
                None => {},
            }
        }
        while self.peek_tag() == TokenTag::Comma
            invariant
                Parser::evolves(*old(self), *self),
                toks == self.toks(),
                toks == old(self).toks(),
                identifiers.len() >= 1,
                old(self).st().pos < e0.pos <= self.st().pos,
                param_models(identifiers@)[0] == it0,
                params_at(toks, old(self).st()) == (match cons_opt(seq![it0], param_rest(toks, e0)) {
                    (None, s3) => (None, s3),
                    (Some(ps), s3) => match expect(toks, s3, TokenTag::RParen) {
                        (false, s4) => (None, s4),
                        (true, s4) => (Some(ps), s4),
                    },
                }),
                param_rest(toks, e0) == cons_opt(
                    param_models(identifiers@).drop_first(),
                    param_rest(toks, self.st()),
                ),
            decreases self.remaining(),
        {
            reveal(param_rest);
            proof {
                self.lemma_wf();
            }
            let ghost before = identifiers@;
            self.next_token();
            self.next_token();
            let ty = match self.parse_type() {
                Some(x) => x,
                None => {
                    return None;
                },
            };
            let (name, span) = match self.expect_ident() {
                Some(x) => x,
                None => {
                    return None;
                },
            };
            let ghost it = (name@, ty.model(), span);
            identifiers.push((name, ty, span));
            proof {
                self.lemma_wf();
                assert(param_models(identifiers@) =~= param_models(before).push(it));
                assert(param_models(identifiers@).drop_first() =~= param_models(
                    before,
                ).drop_first().push(it));
                match param_rest(toks, self.st()).0 {
                    Some(rest) => {
                        assert(param_models(before).drop_first() + (seq![it] + rest)
                            =~= param_models(before).drop_first().push(it) + rest);
                    },
                    None => {},
                }
            }
        }
        proof {
            self.lemma_wf();
            assert(seq![it0] + param_models(identifiers@).drop_first() =~= param_models(identifiers@));
            assert(param_models(identifiers@).drop_first() + Seq::<crate::grammar::ParamM>::empty()
                =~= param_models(identifiers@).drop_first());
        }
        if !self.expect_peek(TokenTag::RParen) {
            return None;
        }
        Some(identifiers)
    }

    #[verifier::spinoff_prover]
    fn parse_block_statement(&mut self) -> (r: BlockStatement)
        requires
            old(self).wf(),
            tag(old(self).toks(), old(self).st().pos) == TokenTag::LBrace,
        ensures
            Parser::evolves(*old(self), *final(self)),
            final(self).st().pos > old(self).st().pos,
            (stmts_model(r.statements@), final(self).st()) == block_at(
                old(self).toks(),
                old(self).depth(),
                old(self).st(),
            ),
        decreases old(self).remaining(), 20nat,
    {
        reveal(block_at); reveal(stmts_at);
        proof {
            self.lemma_wf();
        }
        let ghost toks = self.toks();
        let ghost d = self.depth();
        let mut statements: Vec<Statement> = Vec::new();
        self.next_token();
        self.block_depth = self.block_depth + 1;
        let ghost s0 = self.st();
        proof {
            assert(stmts_model(statements@) =~= Seq::<StmtModel>::empty());
        }
        while self.cur_tag() != TokenTag::RBrace && self.cur_tag() != TokenTag::Eof
            invariant
                self.wf(),
                self.tokens == old(self).tokens,
                toks == self.toks(),
                toks == old(self).toks(),
                self.pos > old(self).pos,
                self.block_depth == old(self).block_depth + 1,
                d == old(self).depth(),
                self.errors.len() >= old(self).errors.len(),
                forall|i: int|
                    0 <= i < old(self).errors.len() ==> #[trigger] self.errors@[i]
                        == old(self).errors@[i],
                stmts_at(toks, d + 1, s0, false) == (
                    stmts_model(statements@) + stmts_at(toks, d + 1, self.st(), false).0,
                    stmts_at(toks, d + 1, self.st(), false).1,
                ),
            decreases self.remaining() + (if tag(self.toks(), self.st().pos) == TokenTag::Eof || tag(
                self.toks(),
                self.st().pos,
            ) == TokenTag::RBrace {
                0int
            } else {
                1int
            }),
        {
            reveal(block_at); reveal(stmts_at);
            proof {
                self.lemma_wf();
            }
            let ghost s = self.st();
            let ghost before = statements@;
            let r = self.parse_statement();
            let ghost rm = opt_stmt_model(r);
            if let Some(stmt) = r {
                statements.push(stmt);
                proof {
                    lemma_stmts_model_push(before, stmt);
                }
            }
            self.next_token();
            proof {
                self.lemma_wf();
                let rest = stmts_at(toks, d + 1, self.st(), false);
                assert(stmts_at(toks, d + 1, s, false) == (
                    match rm {
                        Some(x) => seq![x] + rest.0,
                        None => rest.0,
                    },
                    rest.1,
                ));
                match rm {
                    Some(x) => {
                        assert(stmts_model(before) + (seq![x] + rest.0) =~= stmts_model(statements@)
                            + rest.0);
                    },
                    None => {},
                }
            }
        }
        self.block_depth = self.block_depth - 1;
        proof {
            self.lemma_wf();
            assert(stmts_model(statements@) + Seq::<StmtModel>::empty() =~= stmts_model(statements@));
        }
        BlockStatement { statements }
    }

    #[verifier::spinoff_prover]
    fn parse_expression(&mut self, precedence: u8) -> (r: Option<Expression>)
        requires
            old(self).wf(),
        ensures
            Parser::evolves(*old(self), *final(self)),
            (opt_expr_model(r), final(self).st()) == expr_at(
                old(self).toks(),
                old(self).depth(),
                precedence,
                old(self).st(),
            ),
        decreases old(self).remaining(), 12nat,
    {
        reveal(expr_at); reveal(infix_loop);
        proof {
            self.lemma_wf();
        }
        let ghost toks = self.toks();
        let ghost d = self.depth();
        let mut left = match self.parse_prefix() {
            Some(x) => x,
            None => {
                return None;
            },
        };
        let ghost first = expr_model(left);
        let ghost s1 = self.st();
        loop
            invariant
                Parser::evolves(*old(self), *self),
                toks == self.toks(),
                toks == old(self).toks(),
                d == self.depth(),
                s1.pos <= self.st().pos,
                infix_loop(toks, d, precedence, first, s1) == infix_loop(
                    toks,
                    d,
                    precedence,
                    expr_model(left),
                    self.st(),
                ),
                expr_at(toks, d, precedence, old(self).st()) == infix_loop(toks, d, precedence, first, s1),
            decreases self.remaining(),
        {
            reveal(expr_at); reveal(infix_loop);
            proof {
                self.lemma_wf();
            }
            let pk = self.peek_tag();
            if pk == TokenTag::Semicolon || !(precedence < get_precedence(pk)) {
                return Some(left);
            }
            if is_infix_operator_exec(pk) {
                self.next_token();
                left = match self.parse_infix_expression(left) {
                    Some(x) => x,
                    None => {
                        return None;
                    },
                };
            } else if pk == TokenTag::LParen {
                self.next_token();
                left = match self.parse_call_expression(left) {
                    Some(x) => x,
                    None => {
                        return None;
                    },
                };
            } else if pk == TokenTag::LBracket {
                self.next_token();
                left = match self.parse_index_or_slice_expression(left) {
                    Some(x) => x,
                    None => {
                        return None;
                    },
                };
            } else if pk == TokenTag::Dot {
                self.next_token();
                left = match self.parse_dot_expression(left) {
                    Some(x) => x,
                    None => {
                        return None;
                    },
                };
            } else {
                return Some(left);
            }
        }
    }

    /// The expression that begins at the current token, before any operator.
    #[verifier::spinoff_prover]
    fn parse_prefix(&mut self) -> (r: Option<Expression>)
        requires
            old(self).wf(),
        ensures
            Parser::evolves(*old(self), *final(self)),
            (opt_expr_model(r), final(self).st()) == prefix_at(
                old(self).toks(),
                old(self).depth(),
                old(self).st(),
            ),
        decreases old(self).remaining(), 11nat,
    {
        reveal(prefix_at);
        proof {
            self.lemma_wf();
        }
        let t = self.cur_tag();
        match t {
            TokenTag::Identifier => {
                let name = match self.cur_ident() {
                    Some(x) => x,
                    None => {
                        return None;
                    },
                };
                let cs = chars_of(name.as_str());
                if starts_with_pyaung(&cs) {
                    self.parse_type_conversion(&cs)
                } else if self.peek_tag() == TokenTag::LBrace && cs.len() > 0 && char_is_uppercase(
                    cs[0],
                ) {
                    Some(self.parse_struct_literal_or_ident(name))
                } else {
                    Some(Expression::Identifier(name))
                }
            },
            TokenTag::Number => match &self.tokens[self.pos].kind {
                TokenKind::Number(v) => Some(Expression::IntegerLiteral(*v)),
                _ => None,
            },
            TokenTag::FloatLiteral => match &self.tokens[self.pos].kind {
                TokenKind::FloatLiteral(d) => Some(
                    Expression::FloatLiteral(
                        crate::token::DecimalLiteral {
                            whole: d.whole,
                            fraction: crate::module_loader::copy_bytes(&d.fraction),
                        },
                    ),
                ),
                _ => None,
            },
            TokenTag::StringLiteral => match &self.tokens[self.pos].kind {
                TokenKind::StringLiteral(v) => Some(Expression::StringLiteral(v.clone())),
                _ => None,
            },
            TokenTag::Hman => Some(Expression::BooleanLiteral(true)),
            TokenTag::Hmar => Some(Expression::BooleanLiteral(false)),
            TokenTag::Bhala => Some(Expression::NilLiteral),
            TokenTag::Amhar => self.parse_wrapped(0),
            TokenTag::Loke => self.parse_closure_literal(),
            TokenTag::Laung => self.parse_channel_make(),
            TokenTag::Baung => self.parse_wrapped(1),
            TokenTag::Htae => {
                if self.peek_tag() == TokenTag::LParen {
                    Some(Expression::Identifier(string_of(chars_of("htae").as_slice())))
                } else {
                    self.error_at_cur("Unexpected htae in expression context");
                    None
                }
            },
            TokenTag::LParen => self.parse_grouped_expression(),
            TokenTag::LBracket => {
                let elements = match self.parse_expression_list(TokenTag::RBracket) {
                    Some(x) => x,
                    None => {
                        return None;
                    },
                };
                Some(Expression::ArrayLiteral { elements })
            },
            TokenTag::LBrace => self.parse_hash_literal(),
            TokenTag::Phat => self.parse_wrapped(2),
            _ => {
                let mut m: Vec<char> = Vec::new();
                push_str(&mut m, "No prefix parse function for ");
                push_kind_debug(&mut m, &self.tokens[self.pos].kind);
                let line = self.tokens[self.pos].line;
                let column = self.tokens[self.pos].column;
                self.push_error(m, line, column);
                None
            },
        }
    }

    /// `pyaung_kain(x)`, `pyaung_sar(x)`, `pyaung_da_tha(x)`.
    #[verifier::spinoff_prover]
    fn parse_type_conversion(&mut self, name: &Vec<char>) -> (r: Option<Expression>)
        requires
            old(self).wf(),
            name@.len() >= 7,
        ensures
            Parser::evolves(*old(self), *final(self)),
            (opt_expr_model(r), final(self).st()) == conversion_at(
                old(self).toks(),
                old(self).depth(),
                name@,
                old(self).st(),
            ),
        decreases old(self).remaining(), 9nat,
    {
        reveal(conversion_at);
        let suffix = crate::lexer::copy_range(name, 7, name.len());
        let suffix_s = string_of(suffix.as_slice());
        let target_type = if str_eq(suffix_s.as_str(), "kain") {
            Type::Kain
        } else if str_eq(suffix_s.as_str(), "sar") {
            Type::Sar
        } else if str_eq(suffix_s.as_str(), "da_tha") {
            Type::DaTha
        } else {
            let mut m: Vec<char> = Vec::new();
            push_str(&mut m, "Unknown type conversion: ");
            crate::text::push_chars(&mut m, name);
            let line = self.tokens[self.pos].line;
            let column = self.tokens[self.pos].column;
            self.push_error(m, line, column);
            return None;
        };
        if !self.expect_peek(TokenTag::LParen) {
            return None;
        }
        self.next_token();
        let argument = match self.parse_expression(LOWEST) {
            Some(x) => x,
            None => {
                return None;
            },
        };
        if !self.expect_peek(TokenTag::RParen) {
            return None;
        }
        Some(Expression::TypeConversion { target_type, argument: Box::new(argument) })
    }

    #[verifier::spinoff_prover]
    fn parse_struct_literal_or_ident(&mut self, name: String) -> (r: Expression)
        requires
            old(self).wf(),
            tag(old(self).toks(), peek_idx(old(self).toks(), old(self).st().pos)) == TokenTag::LBrace,
        ensures
            Parser::evolves(*old(self), *final(self)),
            (expr_model(r), final(self).st()) == struct_lit_at(
                old(self).toks(),
                old(self).depth(),
                name@,
                old(self).st(),
            ),
        decreases old(self).remaining(), 9nat,
    {
        reveal(struct_lit_at); reveal(struct_fields_rest);
        proof {
            self.lemma_wf();
        }
        let ghost toks = self.toks();
        let ghost d = self.depth();
        self.next_token();
        if self.peek_tag() == TokenTag::RBrace {
            self.next_token();
            let fields: Vec<(String, Expression)> = Vec::new();
            proof {
                assert(named_model(fields@) =~= Seq::<(Seq<char>, ExprModel)>::empty());
            }
            return Expression::StructLiteral { name, fields };
        }
        self.next_token();
        if self.cur_tag() == TokenTag::Identifier && self.peek_tag() == TokenTag::Colon {
            let field_name = match self.cur_ident() {
                Some(n) => n,
                None => {
                    return Expression::Identifier(name);
                },
            };
            self.next_token();
            self.next_token();
            let value = match self.parse_expression(LOWEST) {
                Some(v) => v,
                None => {
                    return Expression::Identifier(name);
                },
            };
            let ghost f0 = (field_name@, expr_model(value));
            let mut fields: Vec<(String, Expression)> = Vec::new();
            fields.push((field_name, value));
            let ghost e0 = self.st();
            proof {
                reveal_with_fuel(named_model, 2);
                assert(named_model(fields@).drop_first() =~= Seq::<(Seq<char>, ExprModel)>::empty());
                assert(Seq::<(Seq<char>, ExprModel)>::empty() + struct_fields_rest(toks, d, e0).0
                    =~= struct_fields_rest(toks, d, e0).0);
            }
            loop
                invariant_except_break
                    struct_fields_rest(toks, d, e0) == (
                        named_model(fields@).drop_first() + struct_fields_rest(toks, d, self.st()).0,
                        struct_fields_rest(toks, d, self.st()).1,
                    ),
                invariant
                    Parser::evolves(*old(self), *self),
                    toks == self.toks(),
                    toks == old(self).toks(),
                    d == self.depth(),
                    e0.pos <= self.st().pos,
                    fields.len() >= 1,
                    named_model(fields@)[0] == f0,
                ensures
                    struct_fields_rest(toks, d, e0) == (named_model(fields@).drop_first(), self.st()),
                decreases self.remaining(),
            {
                reveal(struct_lit_at); reveal(struct_fields_rest);
                proof {
                    self.lemma_wf();
                }
                if self.peek_tag() != TokenTag::Comma {
                    proof {
                        assert(struct_fields_rest(toks, d, self.st()) == (
                            Seq::<(Seq<char>, ExprModel)>::empty(),
                            self.st(),
                        ));
                        assert(named_model(fields@).drop_first() + Seq::<(Seq<char>, ExprModel)>::empty()
                            =~= named_model(fields@).drop_first());
                    }
                    break;
                }
                let ghost before = fields@;
                let ghost s = self.st();
                self.next_token();
                self.next_token();
                let fname = match self.cur_ident() {
                    Some(n) => n,
                    None => {
                        proof {
                            assert(named_model(fields@).drop_first() + Seq::<(Seq<char>, ExprModel)>::empty()
                                =~= named_model(fields@).drop_first());
                        }
                        break;
                    },
                };
                if self.peek_tag() != TokenTag::Colon {
                    proof {
                        assert(named_model(fields@).drop_first() + Seq::<(Seq<char>, ExprModel)>::empty()
                            =~= named_model(fields@).drop_first());
                    }
                    break;
                }
                self.next_token();
                self.next_token();
                let fval = match self.parse_expression(LOWEST) {
                    Some(v) => v,
                    None => {
                        proof {
                            assert(named_model(fields@).drop_first() + Seq::<(Seq<char>, ExprModel)>::empty()
                                =~= named_model(fields@).drop_first());
                        }
                        break;
                    },
                };
                let ghost it = (fname@, expr_model(fval));
                fields.push((fname, fval));
                proof {
                    self.lemma_wf();
                    lemma_named_model_push(before, (fname, fval));
                    assert(named_model(fields@).drop_first() =~= named_model(before).drop_first().push(
                        it,
                    ));
                    let rest = struct_fields_rest(toks, d, self.st()).0;
                    assert(named_model(before).drop_first() + (seq![it] + rest) =~= named_model(
                        fields@,
                    ).drop_first() + rest);
                }
            }
            proof {
                self.lemma_wf();
                assert(named_model(fields@) =~= seq![f0] + named_model(fields@).drop_first());
            }
            if self.peek_tag() == TokenTag::RBrace {
                self.next_token();
            }
            return Expression::StructLiteral { name, fields };
        }
        Expression::Identifier(name)
    }

    /// `amhar(message)` (kind 0), `baung(timeout)` (kind 1) or
    /// `phat(prompt)` (kind 2).
    #[verifier::spinoff_prover]
    fn parse_wrapped(&mut self, kind: u8) -> (r: Option<Expression>)
        requires
            old(self).wf(),
        ensures
            Parser::evolves(*old(self), *final(self)),
            (opt_expr_model(r), final(self).st()) == wrapped_at(
                old(self).toks(),
                old(self).depth(),
                kind,
                old(self).st(),
            ),
        decreases old(self).remaining(), 9nat,
    {
        reveal(wrapped_at);
        if !self.expect_peek(TokenTag::LParen) {
            return None;
        }
        self.next_token();
        let inner = match self.parse_expression(LOWEST) {
            Some(x) => x,
            None => {
                return None;
            },
        };
        if !self.expect_peek(TokenTag::RParen) {
            return None;
        }
        if kind == 0 {
            Some(Expression::ErrorCreate { message: Box::new(inner) })
        } else if kind == 1 {
            Some(Expression::BaungCreate { timeout_ms: Box::new(inner) })
        } else {
            Some(Expression::ReadInput { prompt: Box::new(inner) })
        }
    }

    #[verifier::spinoff_prover]
    fn parse_closure_literal(&mut self) -> (r: Option<Expression>)
        requires
            old(self).wf(),
        ensures
            Parser::evolves(*old(self), *final(self)),
            (opt_expr_model(r), final(self).st()) == closure_at(
                old(self).toks(),
                old(self).depth(),
                old(self).st(),
            ),
        decreases old(self).remaining(), 9nat,
    {
        reveal(closure_at);
        if !self.expect_peek(TokenTag::LParen) {
            return None;
        }
        let parameters = match self.parse_function_parameters() {
            Some(x) => x,
            None => {
                return None;
            },
        };
        let return_type = if self.peek_tag() == TokenTag::Arrow {
            self.next_token();
            self.next_token();
            match self.parse_type() {
                Some(t) => t,
                None => {
                    return None;
                },
            }
        } else {
            Type::Nil
        };
        if !self.expect_peek(TokenTag::LBrace) {
            return None;
        }
        let body = self.parse_block_statement();
        Some(Expression::ClosureLiteral { parameters, return_type, body })
    }

    #[verifier::spinoff_prover]
    fn parse_dot_expression(&mut self, left: Expression) -> (r: Option<Expression>)
        requires
            old(self).wf(),
            tag(old(self).toks(), old(self).st().pos) == TokenTag::Dot,
        ensures
            Parser::evolves(*old(self), *final(self)),
            (opt_expr_model(r), final(self).st()) == dot_at(
                old(self).toks(),
                old(self).depth(),
                expr_model(left),
                old(self).st(),
            ),
        decreases old(self).remaining(), 9nat,
    {
        reveal(dot_at);
        self.next_token();
        let member = match self.cur_ident() {
            Some(n) => n,
            None => {
                let mut m: Vec<char> = Vec::new();
                push_str(&mut m, "Expected identifier after '.', got ");
                push_kind_debug(&mut m, &self.tokens[self.pos].kind);
                let line = self.tokens[self.pos].line;
                let column = self.tokens[self.pos].column;
                self.push_error(m, line, column);
                return None;
            },
        };
        if self.peek_tag() == TokenTag::LParen {
            self.next_token();
            let arguments = match self.parse_expression_list(TokenTag::RParen) {
                Some(x) => x,
                None => {
                    return None;
                },
            };
            Some(Expression::MethodCall { object: Box::new(left), method: member, arguments })
        } else {
            Some(Expression::FieldAccess { object: Box::new(left), field: member })
        }
    }

    #[verifier::spinoff_prover]
    fn parse_index_or_slice_expression(&mut self, left: Expression) -> (r: Option<Expression>)
        requires
            old(self).wf(),
            tag(old(self).toks(), old(self).st().pos) == TokenTag::LBracket,
        ensures
            Parser::evolves(*old(self), *final(self)),
            (opt_expr_model(r), final(self).st()) == index_at(
                old(self).toks(),
                old(self).depth(),
                expr_model(left),
                old(self).st(),
            ),
        decreases old(self).remaining(), 9nat,
    {
        reveal(index_at);
        self.next_token();
        if self.cur_tag() == TokenTag::Colon {
            self.next_token();
            let high = match self.parse_expression(LOWEST) {
                Some(x) => x,
                None => {
                    return None;
                },
            };
            if !self.expect_peek(TokenTag::RBracket) {
                return None;
            }
            return Some(
                Expression::SliceExpression {
                    left: Box::new(left),
                    low: None,
                    high: Some(Box::new(high)),
                },
            );
        }
        let index_or_low = match self.parse_expression(LOWEST) {
            Some(x) => x,
            None => {
                return None;
            },
        };
        if self.peek_tag() == TokenTag::Colon {
            self.next_token();
            if self.peek_tag() == TokenTag::RBracket {
                self.next_token();
                return Some(
                    Expression::SliceExpression {
                        left: Box::new(left),
                        low: Some(Box::new(index_or_low)),
                        high: None,
                    },
                );
            }
            self.next_token();
            let high = match self.parse_expression(LOWEST) {
                Some(x) => x,
                None => {
                    return None;
                },
            };
            if !self.expect_peek(TokenTag::RBracket) {
                return None;
            }
            return Some(
                Expression::SliceExpression {
                    left: Box::new(left),
                    low: Some(Box::new(index_or_low)),
                    high: Some(Box::new(high)),
                },
            );
        }
        if !self.expect_peek(TokenTag::RBracket) {
            return None;
        }
        Some(Expression::IndexExpression { left: Box::new(left), index: Box::new(index_or_low) })
    }

    #[verifier::spinoff_prover]
    fn parse_grouped_expression(&mut self) -> (r: Option<Expression>)
        requires
            old(self).wf(),
            tag(old(self).toks(), old(self).st().pos) == TokenTag::LParen,
        ensures
            Parser::evolves(*old(self), *final(self)),
            (opt_expr_model(r), final(self).st()) == grouped_at(
                old(self).toks(),
                old(self).depth(),
                old(self).st(),
            ),
        decreases old(self).remaining(), 9nat,
    {
        reveal(grouped_at);
        self.next_token();
        let exp = match self.parse_expression(LOWEST) {
            Some(x) => x,
            None => {
                return None;
            },
        };
        if !self.expect_peek(TokenTag::RParen) {
            return None;
        }
        Some(exp)
    }

    #[verifier::spinoff_prover]
    fn parse_infix_expression(&mut self, left: Expression) -> (r: Option<Expression>)
        requires
            old(self).wf(),
            is_infix_operator(tag(old(self).toks(), old(self).st().pos)),
        ensures
            Parser::evolves(*old(self), *final(self)),
            (opt_expr_model(r), final(self).st()) == binary_at(
                old(self).toks(),
                old(self).depth(),
                expr_model(left),
                old(self).st(),
            ),
        decreases old(self).remaining(), 9nat,
    {
        reveal(binary_at);
        let t = self.cur_tag();
        let operator = token_kind_to_string(t);
        let precedence = get_precedence(t);
        self.next_token();
        let right = match self.parse_expression(precedence) {
            Some(x) => x,
            None => {
                return None;
            },
        };
        Some(Expression::Binary { left: Box::new(left), operator, right: Box::new(right) })
    }

    #[verifier::spinoff_prover]
    fn parse_call_expression(&mut self, function: Expression) -> (r: Option<Expression>)
        requires
            old(self).wf(),
            tag(old(self).toks(), old(self).st().pos) == TokenTag::LParen,
        ensures
            Parser::evolves(*old(self), *final(self)),
            (opt_expr_model(r), final(self).st()) == (match expr_model(function) {
                ExprModel::Ident(f) => match expr_list_at(
                    old(self).toks(),
                    old(self).depth(),
                    TokenTag::RParen,
                    old(self).st(),
                ) {
                    (None, s2) => (None, s2),
                    (Some(args), s2) => (Some(ExprModel::Call(f, args)), s2),
                },
                _ => (None, old(self).st()),
            }),
        decreases old(self).remaining(), 9nat,
    {
        let func_name = match function {
            Expression::Identifier(n) => n,
            _ => {
                return None;
            },
        };
        let arguments = match self.parse_expression_list(TokenTag::RParen) {
            Some(x) => x,
            None => {
                return None;
            },
        };
        Some(Expression::FunctionCall { function: func_name, arguments })
    }

    #[verifier::spinoff_prover]
    fn parse_hash_literal(&mut self) -> (r: Option<Expression>)
        requires
            old(self).wf(),
            tag(old(self).toks(), old(self).st().pos) == TokenTag::LBrace,
        ensures
            Parser::evolves(*old(self), *final(self)),
            (opt_expr_model(r), final(self).st()) == hash_at(
                old(self).toks(),
                old(self).depth(),
                old(self).st(),
            ),
        decreases old(self).remaining(), 9nat,
    {
        reveal(hash_at); reveal(hash_rest); reveal(hash_pair);
        proof {
            self.lemma_wf();
        }
        let ghost toks = self.toks();
        let ghost d = self.depth();
        let mut pairs: Vec<(Expression, Expression)> = Vec::new();
        if self.peek_tag() == TokenTag::RBrace {
            self.next_token();
            proof {
                assert(pairs_model(pairs@) =~= Seq::<(ExprModel, ExprModel)>::empty());
            }
            return Some(Expression::HashLiteral { pairs });
        }
        self.next_token();
        let key = match self.parse_expression(LOWEST) {
            Some(x) => x,
            None => {
                return None;
            },
        };
        if !self.expect_peek(TokenTag::Colon) {
            return None;
        }
        self.next_token();
        let value = match self.parse_expression(LOWEST) {
            Some(x) => x,
            None => {
                return None;
            },
        };
        let ghost p0 = (expr_model(key), expr_model(value));
        pairs.push((key, value));
        let ghost e0 = self.st();
        proof {
            reveal_with_fuel(pairs_model, 2);
            assert(pairs_model(pairs@).drop_first() =~= Seq::<(ExprModel, ExprModel)>::empty());
            match hash_rest(toks, d, e0).0 {
                Some(rest) => {
                    assert(Seq::<(ExprModel, ExprModel)>::empty() + rest =~= rest);
                },
                None => {},
            }
        }
        while self.peek_tag() == TokenTag::Comma
            invariant
                Parser::evolves(*old(self), *self),
                toks == self.toks(),
                toks == old(self).toks(),
                d == self.depth(),
                pairs.len() >= 1,
                old(self).st().pos < e0.pos <= self.st().pos,
                pairs_model(pairs@)[0] == p0,
                hash_at(toks, d, old(self).st()) == (match cons_opt(seq![p0], hash_rest(toks, d, e0)) {
                    (None, s3) => (None, s3),
                    (Some(ps), s3) => match expect(toks, s3, TokenTag::RBrace) {
                        (false, s4) => (None, s4),
                        (true, s4) => (Some(ExprModel::Hash(ps)), s4),
                    },
                }),
                pairs_model(pairs@).len() == pairs.len(),
                hash_rest(toks, d, e0) == cons_opt(
                    pairs_model(pairs@).drop_first(),
                    hash_rest(toks, d, self.st()),
                ),
            decreases self.remaining(),
        {
            reveal(hash_at); reveal(hash_rest); reveal(hash_pair);
            proof {
                self.lemma_wf();
            }
            let ghost before = pairs@;
            let ghost s = self.st();
            self.next_token();
            self.next_token();
            let ghost s1 = self.st();
            proof {
                assert(gt(toks, s, s1));
            }
            let key = match self.parse_expression(LOWEST) {
                Some(x) => x,
                None => {
                    proof {
                        assert(hash_pair(toks, d, s1) == (None::<(ExprModel, ExprModel)>, self.st()));
                        assert(hash_rest(toks, d, s) == (None::<Seq<(ExprModel, ExprModel)>>, self.st()));
                    }
                    return None;
                },
            };
            let ghost sk = self.st();
            if !self.expect_peek(TokenTag::Colon) {
                proof {
                    assert(hash_pair(toks, d, s1) == (None::<(ExprModel, ExprModel)>, self.st()));
                    assert(hash_rest(toks, d, s) == (None::<Seq<(ExprModel, ExprModel)>>, self.st()));
                }
                return None;
            }
            self.next_token();
            proof {
                self.lemma_wf();
                assert(sk.pos >= s1.pos);
                assert(gt(toks, s1, self.st()));
            }
            let value = match self.parse_expression(LOWEST) {
                Some(x) => x,
                None => {
                    proof {
                        assert(hash_pair(toks, d, s1) == (None::<(ExprModel, ExprModel)>, self.st()));
                        assert(hash_rest(toks, d, s) == (None::<Seq<(ExprModel, ExprModel)>>, self.st()));
                    }
                    return None;
                },
            };
            let ghost it = (expr_model(key), expr_model(value));
            pairs.push((key, value));
            proof {
                self.lemma_wf();
                assert(hash_pair(toks, d, s1) == (Some(it), self.st()));
                assert(ge(toks, s1, self.st()));
                assert(hash_rest(toks, d, s) == cons_opt(seq![it], hash_rest(toks, d, self.st())));
                lemma_pairs_model_push(before, (key, value));
                assert(pairs_model(pairs@).drop_first() =~= pairs_model(before).drop_first().push(it));
                match hash_rest(toks, d, self.st()).0 {
                    Some(rest) => {
                        assert(pairs_model(before).drop_first() + (seq![it] + rest) =~= pairs_model(
                            before,
                        ).drop_first().push(it) + rest);
                    },
                    None => {},
                }
            }
        }
        proof {
            self.lemma_wf();
            assert(pairs_model(pairs@) =~= seq![p0] + pairs_model(pairs@).drop_first());
            assert(pairs_model(pairs@).drop_first() + Seq::<(ExprModel, ExprModel)>::empty()
                =~= pairs_model(pairs@).drop_first());
        }
        if !self.expect_peek(TokenTag::RBrace) {
            return None;
        }
        Some(Expression::HashLiteral { pairs })
    }

    #[verifier::spinoff_prover]
    fn parse_channel_make(&mut self) -> (r: Option<Expression>)
        requires
            old(self).wf(),
        ensures
            Parser::evolves(*old(self), *final(self)),
            (opt_expr_model(r), final(self).st()) == channel_at(
                old(self).toks(),
                old(self).depth(),
                old(self).st(),
            ),
        decreases old(self).remaining(), 9nat,
    {
        reveal(channel_at);
        if !self.expect_peek(TokenTag::LessThan) {
            return None;
        }
        self.next_token();
        let value_type = match self.parse_type() {
            Some(x) => x,
            None => {
                return None;
            },
        };
        if !self.expect_peek(TokenTag::GreaterThan) {
            return None;
        }
        if !self.expect_peek(TokenTag::LParen) {
            return None;
        }
        let capacity = if self.peek_tag() == TokenTag::RParen {
            self.next_token();
            None
        } else {
            self.next_token();
            let expr = match self.parse_expression(LOWEST) {
                Some(x) => x,
                None => {
                    return None;
                },
            };
            if !self.expect_peek(TokenTag::RParen) {
                return None;
            }
            Some(Box::new(expr))
        };
        Some(Expression::ChannelMake { value_type: Box::new(value_type), capacity })
    }

    #[verifier::spinoff_prover]
    fn parse_expression_list(&mut self, end: TokenTag) -> (r: Option<Vec<Expression>>)
        requires
            old(self).wf(),
            tag(old(self).toks(), old(self).st().pos) != TokenTag::Eof,
        ensures
            Parser::evolves(*old(self), *final(self)),
            (opt_exprs_model(r), final(self).st()) == expr_list_at(
                old(self).toks(),
                old(self).depth(),
                end,
                old(self).st(),
            ),
        decreases old(self).remaining(), 8nat,
    {
        reveal(expr_list_at); reveal(expr_rest);
        proof {
            self.lemma_wf();
        }
        let ghost toks = self.toks();
        let ghost d = self.depth();
        let mut args: Vec<Expression> = Vec::new();
        if self.peek_tag() == end {
            self.next_token();
            proof {
                assert(exprs_model(args@) =~= Seq::<ExprModel>::empty());
            }
            return Some(args);
        }
        self.next_token();
        let first = match self.parse_expression(LOWEST) {
            Some(x) => x,
            None => {
                return None;
            },
        };
        let ghost m0 = expr_model(first);
        args.push(first);
        let ghost e0 = self.st();
        proof {
            reveal_with_fuel(exprs_model, 2);
            assert(exprs_model(args@).drop_first() =~= Seq::<ExprModel>::empty());
            match expr_rest(toks, d, e0).0 {
                Some(rest) => {
                    assert(Seq::<ExprModel>::empty() + rest =~= rest);
                },
                None => {},
            }
        }
        while self.peek_tag() == TokenTag::Comma
            invariant
                Parser::evolves(*old(self), *self),
                toks == self.toks(),
                toks == old(self).toks(),
                d == self.depth(),
                args.len() >= 1,
                old(self).st().pos < e0.pos <= self.st().pos,
                exprs_model(args@)[0] == m0,
                expr_list_at(toks, d, end, old(self).st()) == (match cons_opt(
                    seq![m0],
                    expr_rest(toks, d, e0),
                ) {
                    (None, s3) => (None, s3),
                    (Some(es), s3) => match expect(toks, s3, end) {
                        (false, s4) => (None, s4),
                        (true, s4) => (Some(es), s4),
                    },
                }),
                exprs_model(args@).len() == args.len(),
                expr_rest(toks, d, e0) == cons_opt(
                    exprs_model(args@).drop_first(),
                    expr_rest(toks, d, self.st()),
                ),
            decreases self.remaining(),
        {
            reveal(expr_list_at); reveal(expr_rest);
            proof {
                self.lemma_wf();
            }
            let ghost before = args@;
            self.next_token();
            self.next_token();
            let e = match self.parse_expression(LOWEST) {
                Some(x) => x,
                None => {
                    return None;
                },
            };
            let ghost em = expr_model(e);
            args.push(e);
            proof {
                self.lemma_wf();
                lemma_exprs_model_push(before, e);
                assert(exprs_model(args@).drop_first() =~= exprs_model(before).drop_first().push(em));
                match expr_rest(toks, d, self.st()).0 {
                    Some(rest) => {
                        assert(exprs_model(before).drop_first() + (seq![em] + rest) =~= exprs_model(
                            before,
                        ).drop_first().push(em) + rest);
                    },
                    None => {},
                }
            }
        }
        proof {
            self.lemma_wf();
            assert(exprs_model(args@) =~= seq![m0] + exprs_model(args@).drop_first());
            assert(exprs_model(args@).drop_first() + Seq::<ExprModel>::empty() =~= exprs_model(
                args@,
            ).drop_first());
        }
        if !self.expect_peek(end) {
            return None;
        }
        Some(args)
    }
}

/// Whether a name starts with `pyaung_`.
pub open spec fn has_pyaung_prefix(s: Seq<char>) -> bool {
    s.len() >= 7 && s.subrange(0, 7) == "pyaung_"@
}

fn starts_with_pyaung(s: &Vec<char>) -> (r: bool)
    ensures
        r == has_pyaung_prefix(s@),
        r ==> s@.len() >= 7,
{
    if s.len() < 7 {
        return false;
    }
    let head = crate::lexer::copy_range(s, 0, 7);
    let hs = string_of(head.as_slice());
    str_eq(hs.as_str(), "pyaung_")
}

fn is_infix_operator_exec(t: TokenTag) -> (r: bool)
    ensures
        r == is_infix_operator(t),
{
    t == TokenTag::Plus || t == TokenTag::Minus || t == TokenTag::Star || t == TokenTag::Slash || t
        == TokenTag::Equals || t == TokenTag::NotEquals || t == TokenTag::LessThan || t
        == TokenTag::GreaterThan || t == TokenTag::LessEquals || t == TokenTag::GreaterEquals
}

} // verus!
