//! What an editor is told about a document: the names it declares, with
//! their kinds, types and positions.
use vstd::prelude::*;

use crate::ast::{copy_type, Expression, IfAlternative, Program, Span, Statement, Type, TypeModel};
use crate::document::{rope_len_lines, rope_line, rope_line_len_chars, rope_text, rope_to_string, text_lines};
use crate::formatter::{format_source, formats_to, items_model, join, push_join};
use crate::lexer::Lexer;
use crate::parser::{ParseError, Parser};
use crate::text::{alphanumeric, char_is_alphanumeric, chars_of, push_str, push_string, str_eq, string_of};
use crate::typecheck::{tc_program, Environment, TcModel, TypeCheckError, TypeChecker};
use ropey::Rope;

verus! {

/// What kind of thing a declared name is.
#[derive(Debug, Clone, Copy, PartialEq, Eq, Structural)]
pub enum SymbolKindInfo {
    Variable,
    Function,
    Parameter,
    Struct,
    Method,
    Interface,
}

/// A declared name, at its 0-based line and column.
#[derive(Debug)]
pub struct SymbolInfo {
    pub name: String,
    pub kind: SymbolKindInfo,
    pub ty: Option<Type>,
    pub line: usize,
    pub column: usize,
    pub parameters: Vec<(String, Type)>,
}

/// A declared name as plain values.
pub struct SymbolModel {
    pub name: Seq<char>,
    pub kind: SymbolKindInfo,
    pub ty: Option<TypeModel>,
    pub line: usize,
    pub column: usize,
    pub parameters: Seq<(Seq<char>, TypeModel)>,
}

pub open spec fn opt_type_model(t: Option<Type>) -> Option<TypeModel> {
    match t {
        Some(x) => Some(x.model()),
        None => None,
    }
}

pub open spec fn pairs_model(ps: Seq<(String, Type)>) -> Seq<(Seq<char>, TypeModel)> {
    Seq::new(ps.len(), |i: int| (ps[i].0@, ps[i].1.model()))
}

pub open spec fn param_pairs(ps: Seq<(String, Type, Span)>) -> Seq<(Seq<char>, TypeModel)> {
    Seq::new(ps.len(), |i: int| (ps[i].0@, ps[i].1.model()))
}

impl SymbolInfo {
    pub open spec fn model(&self) -> SymbolModel {
        SymbolModel {
            name: self.name@,
            kind: self.kind,
            ty: opt_type_model(self.ty),
            line: self.line,
            column: self.column,
            parameters: pairs_model(self.parameters@),
        }
    }
}

pub open spec fn symbols_model(v: Seq<SymbolInfo>) -> Seq<SymbolModel> {
    Seq::new(v.len(), |i: int| v[i].model())
}

/// A 1-based position as 0-based: one less, but never below 0.
pub open spec fn zero_based(n: usize) -> usize {
    if n > 0 {
        (n - 1) as usize
    } else {
        0
    }
}

/// A name declared at a position.
pub open spec fn sym_at(
    name: Seq<char>,
    kind: SymbolKindInfo,
    ty: Option<TypeModel>,
    span: Span,
    parameters: Seq<(Seq<char>, TypeModel)>,
) -> SymbolModel {
    SymbolModel {
        name,
        kind,
        ty,
        line: zero_based(span.line),
        column: zero_based(span.column),
        parameters,
    }
}

/// The type of the items of a for-in collection, when an array literal's
/// first item shows it.
pub open spec fn item_type(collection: Expression) -> Option<TypeModel> {
    match collection {
        Expression::ArrayLiteral { elements } => if elements@.len() == 0 {
            None
        } else {
            match elements@[0] {
                Expression::IntegerLiteral(_) => Some(TypeModel::Kain),
                Expression::StringLiteral(_) => Some(TypeModel::Sar),
                Expression::BooleanLiteral(_) => Some(TypeModel::Sit),
                _ => None,
            }
        },
        _ => None,
    }
}

/// The names a statement declares, with the names declared inside its
/// blocks, in order.
pub open spec fn stmt_symbols(s: Statement) -> Seq<SymbolModel>
    decreases s, 1nat,
{
    match s {
        Statement::Let { name, ty, name_span, .. } => seq![
            sym_at(name@, SymbolKindInfo::Variable, Some(ty.model()), name_span, Seq::empty()),
        ],
        Statement::FunctionDecl { name, parameters, return_type, body, name_span } => seq![
            sym_at(
                name@,
                SymbolKindInfo::Function,
                Some(return_type.model()),
                name_span,
                param_pairs(parameters@),
            ),
        ] + Seq::new(parameters@.len(), |i: int| each_symbol(parameters@, SymbolKindInfo::Parameter, i))
            + stmts_symbols(body.statements@),
        Statement::If { consequence, alternative, .. } => stmts_symbols(consequence.statements@) + match alternative {
            Some(IfAlternative::Else(b)) => stmts_symbols(b.statements@),
            Some(IfAlternative::ElseIf(inner)) => stmt_symbols(*inner),
            None => Seq::empty(),
        },
        Statement::While { body, .. } => stmts_symbols(body.statements@),
        Statement::ForIn { index, iterator, collection, body, name_span } => seq![
            sym_at(iterator@, SymbolKindInfo::Variable, item_type(collection), name_span, Seq::empty()),
        ] + (match index {
            Some(i) => seq![
                sym_at(i@, SymbolKindInfo::Variable, Some(TypeModel::Kain), name_span, Seq::empty()),
            ],
            None => Seq::empty(),
        }) + stmts_symbols(body.statements@),
        Statement::TestDecl { name, body, name_span } => seq![
            sym_at(name@, SymbolKindInfo::Function, Some(TypeModel::Error), name_span, Seq::empty()),
        ] + stmts_symbols(body.statements@),
        Statement::ForClassic { init, post, body, .. } => (match init {
            Some(st) => stmt_symbols(*st),
            None => Seq::empty(),
        }) + (match post {
            Some(st) => stmt_symbols(*st),
            None => Seq::empty(),
        }) + stmts_symbols(body.statements@),
        Statement::LetDestructured { names, .. } => Seq::new(
            names@.len(),
            |i: int| each_symbol(names@, SymbolKindInfo::Variable, i),
        ),
        Statement::StructDecl { name, fields, name_span } => seq![
            sym_at(
                name@,
                SymbolKindInfo::Struct,
                Some(TypeModel::Struct(name@)),
                name_span,
                pairs_model(fields@),
            ),
        ],
        Statement::MethodDecl { receiver_type, name, parameters, return_type, body, name_span, .. } => seq![
            sym_at(
                receiver_type@ + seq!['.'] + name@,
                SymbolKindInfo::Method,
                Some(return_type.model()),
                name_span,
                param_pairs(parameters@),
            ),
        ] + stmts_symbols(body.statements@),
        Statement::InterfaceDecl { name, name_span, .. } => seq![
            sym_at(
                name@,
                SymbolKindInfo::Interface,
                Some(TypeModel::Interface(name@)),
                name_span,
                Seq::empty(),
            ),
        ],
        Statement::Export { statement, .. } => stmt_symbols(*statement),
        _ => Seq::empty(),
    }
}

pub open spec fn stmts_symbols(ss: Seq<Statement>) -> Seq<SymbolModel>
    decreases ss, 0nat,
{
    if ss.len() == 0 {
        Seq::empty()
    } else {
        stmts_symbols(ss.drop_last()) + stmt_symbols(ss.last())
    }
}

fn zero_based_exec(n: usize) -> (r: usize)
    ensures
        r == zero_based(n),
{
    if n > 0 {
        n - 1
    } else {
        0
    }
}

fn push_symbol(
    out: &mut Vec<SymbolInfo>,
    name: String,
    kind: SymbolKindInfo,
    ty: Option<Type>,
    span: Span,
    parameters: Vec<(String, Type)>,
)
    ensures
        symbols_model(final(out)@) == symbols_model(old(out)@).push(
            sym_at(name@, kind, opt_type_model(ty), span, pairs_model(parameters@)),
        ),
{
    let info = SymbolInfo {
        name,
        kind,
        ty,
        line: zero_based_exec(span.line),
        column: zero_based_exec(span.column),
        parameters,
    };
    let ghost before = out@;
    out.push(info);
    assert(symbols_model(out@) =~= symbols_model(before).push(info.model()));
}

fn pair_list(ps: &Vec<(String, Type, Span)>) -> (r: Vec<(String, Type)>)
    ensures
        pairs_model(r@) == param_pairs(ps@),
{
    let mut out: Vec<(String, Type)> = Vec::new();
    let mut i: usize = 0;
    while i < ps.len()
        invariant
            i <= ps.len(),
            out.len() == i,
            forall|k: int|
                0 <= k < i ==> (#[trigger] out@[k]).0@ == ps@[k].0@ && out@[k].1.model() == ps@[k].1.model(),
        decreases ps.len() - i,
    {
        out.push((ps[i].0.clone(), copy_type(&ps[i].1)));
        i = i + 1;
    }
    assert(pairs_model(out@) =~= param_pairs(ps@));
    out
}

fn field_list(fs: &Vec<(String, Type)>) -> (r: Vec<(String, Type)>)
    ensures
        pairs_model(r@) == pairs_model(fs@),
{
    let mut out: Vec<(String, Type)> = Vec::new();
    let mut i: usize = 0;
    while i < fs.len()
        invariant
            i <= fs.len(),
            out.len() == i,
            forall|k: int|
                0 <= k < i ==> (#[trigger] out@[k]).0@ == fs@[k].0@ && out@[k].1.model() == fs@[k].1.model(),
        decreases fs.len() - i,
    {
        out.push((fs[i].0.clone(), copy_type(&fs[i].1)));
        i = i + 1;
    }
    assert(pairs_model(out@) =~= pairs_model(fs@));
    out
}

pub open spec fn each_symbol(ps: Seq<(String, Type, Span)>, kind: SymbolKindInfo, i: int) -> SymbolModel {
    sym_at(ps[i].0@, kind, Some(ps[i].1.model()), ps[i].2, Seq::empty())
}

/// Appends one symbol per parameter or per destructured name.
fn push_each(out: &mut Vec<SymbolInfo>, ps: &Vec<(String, Type, Span)>, kind: SymbolKindInfo)
    ensures
        symbols_model(final(out)@) == symbols_model(old(out)@) + Seq::new(
            ps@.len(),
            |i: int| each_symbol(ps@, kind, i),
        ),
{
    let mut i: usize = 0;
    while i < ps.len()
        invariant
            i <= ps.len(),
            symbols_model(out@) == symbols_model(old(out)@) + Seq::new(i as nat, |k: int| each_symbol(ps@, kind, k)),
        decreases ps.len() - i,
    {
        let empty: Vec<(String, Type)> = Vec::new();
        assert(pairs_model(empty@) =~= Seq::<(Seq<char>, TypeModel)>::empty());
        let ghost prev = symbols_model(out@);
        push_symbol(out, ps[i].0.clone(), kind, Some(copy_type(&ps[i].1)), ps[i].2, empty);
        assert(symbols_model(out@) == prev.push(each_symbol(ps@, kind, i as int)));
        assert(Seq::new((i + 1) as nat, |k: int| each_symbol(ps@, kind, k)) =~= Seq::new(
            i as nat,
            |k: int| each_symbol(ps@, kind, k),
        ).push(each_symbol(ps@, kind, i as int)));
        i = i + 1;
        assert(symbols_model(out@) =~= symbols_model(old(out)@) + Seq::new(i as nat, |k: int| each_symbol(ps@, kind, k)));
    }
}

/// Appends the names a statement declares, with the names declared inside
/// its blocks.
pub fn collect_statement_symbols(s: &Statement, out: &mut Vec<SymbolInfo>)
    ensures
        symbols_model(final(out)@) == symbols_model(old(out)@) + stmt_symbols(*s),
    decreases s, 1nat,
{
    match s {
        Statement::Let { name, ty, name_span, .. } => {
            let empty: Vec<(String, Type)> = Vec::new();
            assert(pairs_model(empty@) =~= Seq::<(Seq<char>, TypeModel)>::empty());
            push_symbol(out, name.clone(), SymbolKindInfo::Variable, Some(copy_type(ty)), *name_span, empty);
            assert(symbols_model(out@) =~= symbols_model(old(out)@) + stmt_symbols(*s));
        },
        Statement::FunctionDecl { name, parameters, return_type, body, name_span } => {
            push_symbol(
                out,
                name.clone(),
                SymbolKindInfo::Function,
                Some(copy_type(return_type)),
                *name_span,
                pair_list(parameters),
            );
            push_each(out, parameters, SymbolKindInfo::Parameter);
            collect_block_symbols(&body.statements, out);
            assert(symbols_model(out@) =~= symbols_model(old(out)@) + stmt_symbols(*s));
        },
        Statement::If { consequence, alternative, .. } => {
            collect_block_symbols(&consequence.statements, out);
            match alternative {
                Some(IfAlternative::Else(b)) => collect_block_symbols(&b.statements, out),
                Some(IfAlternative::ElseIf(inner)) => collect_statement_symbols(inner, out),
                None => {},
            }
            assert(symbols_model(out@) =~= symbols_model(old(out)@) + stmt_symbols(*s));
        },
        Statement::While { body, .. } => collect_block_symbols(&body.statements, out),
        Statement::ForIn { index, iterator, collection, body, name_span } => {
            let ty: Option<Type> = match collection {
                Expression::ArrayLiteral { elements } => {
                    if elements.len() == 0 {
                        None
                    } else {
                        match &elements[0] {
                            Expression::IntegerLiteral(_) => Some(Type::Kain),
                            Expression::StringLiteral(_) => Some(Type::Sar),
                            Expression::BooleanLiteral(_) => Some(Type::Sit),
                            _ => None,
                        }
                    }
                },
                _ => None,
            };
            let empty: Vec<(String, Type)> = Vec::new();
            assert(pairs_model(empty@) =~= Seq::<(Seq<char>, TypeModel)>::empty());
            push_symbol(out, iterator.clone(), SymbolKindInfo::Variable, ty, *name_span, empty);
            match index {
                Some(i) => {
                    let empty2: Vec<(String, Type)> = Vec::new();
                    assert(pairs_model(empty2@) =~= Seq::<(Seq<char>, TypeModel)>::empty());
                    push_symbol(out, i.clone(), SymbolKindInfo::Variable, Some(Type::Kain), *name_span, empty2);
                },
                None => {},
            }
            collect_block_symbols(&body.statements, out);
            assert(symbols_model(out@) =~= symbols_model(old(out)@) + stmt_symbols(*s));
        },
        Statement::TestDecl { name, body, name_span } => {
            let empty: Vec<(String, Type)> = Vec::new();
            assert(pairs_model(empty@) =~= Seq::<(Seq<char>, TypeModel)>::empty());
            push_symbol(out, name.clone(), SymbolKindInfo::Function, Some(Type::Error), *name_span, empty);
            collect_block_symbols(&body.statements, out);
            assert(symbols_model(out@) =~= symbols_model(old(out)@) + stmt_symbols(*s));
        },
        Statement::ForClassic { init, post, body, .. } => {
            match init {
                Some(st) => collect_statement_symbols(st, out),
                None => {},
            }
            let ghost mid = symbols_model(out@);
            match post {
                Some(st) => collect_statement_symbols(st, out),
                None => {},
            }
            collect_block_symbols(&body.statements, out);
            assert(symbols_model(out@) =~= symbols_model(old(out)@) + stmt_symbols(*s));
        },
        Statement::LetDestructured { names, .. } => {
            push_each(out, names, SymbolKindInfo::Variable);
        },
        Statement::StructDecl { name, fields, name_span } => {
            push_symbol(
                out,
                name.clone(),
                SymbolKindInfo::Struct,
                Some(Type::Struct(name.clone())),
                *name_span,
                field_list(fields),
            );
            assert(symbols_model(out@) =~= symbols_model(old(out)@) + stmt_symbols(*s));
        },
        Statement::MethodDecl { receiver_type, name, parameters, return_type, body, name_span, .. } => {
            let mut full: Vec<char> = Vec::new();
            push_string(&mut full, receiver_type);
            full.push('.');
            push_string(&mut full, name);
            assert(full@ =~= receiver_type@ + seq!['.'] + name@);
            push_symbol(
                out,
                string_of(full.as_slice()),
                SymbolKindInfo::Method,
                Some(copy_type(return_type)),
                *name_span,
                pair_list(parameters),
            );
            collect_block_symbols(&body.statements, out);
            assert(symbols_model(out@) =~= symbols_model(old(out)@) + stmt_symbols(*s));
        },
        Statement::InterfaceDecl { name, name_span, .. } => {
            let empty: Vec<(String, Type)> = Vec::new();
            assert(pairs_model(empty@) =~= Seq::<(Seq<char>, TypeModel)>::empty());
            push_symbol(
                out,
                name.clone(),
                SymbolKindInfo::Interface,
                Some(Type::Interface(name.clone())),
                *name_span,
                empty,
            );
            assert(symbols_model(out@) =~= symbols_model(old(out)@) + stmt_symbols(*s));
        },
        Statement::Export { statement, .. } => collect_statement_symbols(statement, out),
        _ => {
            assert(symbols_model(out@) =~= symbols_model(old(out)@) + stmt_symbols(*s));
        },
    }
}

fn collect_block_symbols(ss: &Vec<Statement>, out: &mut Vec<SymbolInfo>)
    ensures
        symbols_model(final(out)@) == symbols_model(old(out)@) + stmts_symbols(ss@),
    decreases ss@, 0nat,
{
    let mut i: usize = 0;
    while i < ss.len()
        invariant
            i <= ss.len(),
            symbols_model(out@) == symbols_model(old(out)@) + stmts_symbols(ss@.subrange(0, i as int)),
        decreases ss.len() - i,
    {
        assert(ss@.subrange(0, i + 1).drop_last() =~= ss@.subrange(0, i as int));
        collect_statement_symbols(&ss[i], out);
        i = i + 1;
        assert(symbols_model(out@) =~= symbols_model(old(out)@) + stmts_symbols(ss@.subrange(0, i as int)));
    }
    assert(ss@.subrange(0, ss.len() as int) =~= ss@);
}

/// The names a program declares, in order.
pub fn collect_symbols(program: &Program) -> (r: Vec<SymbolInfo>)
    ensures
        symbols_model(r@) == stmts_symbols(program.statements@),
{
    let mut out: Vec<SymbolInfo> = Vec::new();
    assert(symbols_model(out@) =~= Seq::<SymbolModel>::empty());
    collect_block_symbols(&program.statements, &mut out);
    assert(symbols_model(out@) =~= stmts_symbols(program.statements@));
    out
}

// ----------------------------------------------------------------------
// Types as an editor shows them

/// A type as hover and completion texts show it, e.g. `su<kain (int)> (array)`.
pub open spec fn type_display(t: TypeModel) -> Seq<char>
    decreases t, 1nat,
{
    match t {
        TypeModel::Kain => "kain (int)"@,
        TypeModel::Sar => "sar (string)"@,
        TypeModel::Sit => "sit (bool)"@,
        TypeModel::Array(inner) => "su<"@ + type_display(*inner) + "> (array)"@,
        TypeModel::Channel(inner) => "laung<"@ + type_display(*inner) + "> (channel)"@,
        TypeModel::Dict(k, v) => "twe<"@ + type_display(*k) + ", "@ + type_display(*v) + "> (map)"@,
        TypeModel::DaTha => "da_tha (float64)"@,
        TypeModel::Baung => "baung (context)"@,
        TypeModel::Nil => "bhala (nil)"@,
        TypeModel::Error => "amhar (error)"@,
        TypeModel::Struct(n) => "pone "@ + n + " (struct)"@,
        TypeModel::Interface(n) => "myat "@ + n + " (interface)"@,
        TypeModel::Tuple(ts) => "("@ + join(type_displays(ts), ", "@) + ") (tuple)"@,
        TypeModel::Function(ps, r) => "loke("@ + join(type_displays(ps), ", "@) + ") -> "@ + type_display(*r)
            + " (function)"@,
    }
}

pub open spec fn type_displays(ts: Seq<TypeModel>) -> Seq<Seq<char>>
    decreases ts, 0nat,
{
    if ts.len() == 0 {
        Seq::empty()
    } else {
        type_displays(ts.drop_last()).push(type_display(ts.last()))
    }
}

fn push_type_display(out: &mut Vec<char>, t: &Type)
    ensures
        final(out)@ == old(out)@ + type_display(t.model()),
    decreases t, 1nat,
{
    match t {
        Type::Kain => push_str(out, "kain (int)"),
        Type::Sar => push_str(out, "sar (string)"),
        Type::Sit => push_str(out, "sit (bool)"),
        Type::Array(inner) => {
            push_str(out, "su<");
            push_type_display(out, inner);
            push_str(out, "> (array)");
        },
        Type::Channel(inner) => {
            push_str(out, "laung<");
            push_type_display(out, inner);
            push_str(out, "> (channel)");
        },
        Type::HashMap(k, v) => {
            push_str(out, "twe<");
            push_type_display(out, k);
            push_str(out, ", ");
            push_type_display(out, v);
            push_str(out, "> (map)");
        },
        Type::DaTha => push_str(out, "da_tha (float64)"),
        Type::Baung => push_str(out, "baung (context)"),
        Type::Nil => push_str(out, "bhala (nil)"),
        Type::Error => push_str(out, "amhar (error)"),
        Type::Struct(n) => {
            push_str(out, "pone ");
            push_string(out, n);
            push_str(out, " (struct)");
        },
        Type::Interface(n) => {
            push_str(out, "myat ");
            push_string(out, n);
            push_str(out, " (interface)");
        },
        Type::Tuple(ts) => {
            push_str(out, "(");
            let ds = type_display_list(ts);
            push_join(out, &ds, ", ");
            push_str(out, ") (tuple)");
        },
        Type::Function { params, return_type } => {
            push_str(out, "loke(");
            let ds = type_display_list(params);
            push_join(out, &ds, ", ");
            push_str(out, ") -> ");
            push_type_display(out, return_type);
            push_str(out, " (function)");
        },
    }
    assert(final(out)@ =~= old(out)@ + type_display(t.model()));
}

fn type_display_list(ts: &Vec<Type>) -> (r: Vec<Vec<char>>)
    ensures
        items_model(r@) == type_displays(crate::ast::models_of(ts@)),
    decreases ts@, 0nat,
{
    let ghost ms = crate::ast::models_of(ts@);
    proof {
        crate::ast::lemma_models_of(ts@);
    }
    let mut out: Vec<Vec<char>> = Vec::new();
    let mut i: usize = 0;
    assert(items_model(out@) =~= type_displays(ms.subrange(0, 0)));
    while i < ts.len()
        invariant
            i <= ts.len(),
            ms == crate::ast::models_of(ts@),
            ms.len() == ts.len(),
            forall|k: int| 0 <= k < ts.len() ==> #[trigger] ms[k] == ts@[k].model(),
            items_model(out@) == type_displays(ms.subrange(0, i as int)),
        decreases ts.len() - i,
    {
        let mut d: Vec<char> = Vec::new();
        push_type_display(&mut d, &ts[i]);
        assert(ms.subrange(0, i + 1).drop_last() =~= ms.subrange(0, i as int));
        let ghost before = out@;
        out.push(d);
        assert(items_model(out@) =~= items_model(before).push(type_display(ms[i as int])));
        i = i + 1;
    }
    assert(ms.subrange(0, ts.len() as int) =~= ms);
    out
}

/// A type as hover and completion texts show it.
pub fn format_type(t: &Type) -> (r: String)
    ensures
        r@ == type_display(t.model()),
{
    let mut out: Vec<char> = Vec::new();
    push_type_display(&mut out, t);
    string_of(out.as_slice())
}

// ----------------------------------------------------------------------
// The word under the cursor

/// Whether a character belongs to a word: a letter or digit, `_`, or a
/// character of the Myanmar block.
pub open spec fn is_word_char(c: char) -> bool {
    alphanumeric(c) || c == '_' || ('\u{1000}' <= c && c <= '\u{109F}')
}

fn is_word_char_exec(c: char) -> (r: bool)
    ensures
        r == is_word_char(c),
{
    char_is_alphanumeric(c) || c == '_' || ('\u{1000}' <= c && c <= '\u{109F}')
}

/// Where the word through position `i` starts.
pub open spec fn word_start(line: Seq<char>, i: int) -> int
    decreases i,
{
    if i > 0 && i <= line.len() && is_word_char(line[i - 1]) {
        word_start(line, i - 1)
    } else {
        i
    }
}

/// Where the word through position `i` ends.
pub open spec fn word_end(line: Seq<char>, i: int) -> int
    decreases line.len() - i,
{
    if 0 <= i < line.len() && is_word_char(line[i]) {
        word_end(line, i + 1)
    } else {
        i
    }
}

/// The word at a column of a line: none when the column is past the end or
/// on no word character, else the longest run of word characters around it.
pub open spec fn word_in_line(line: Seq<char>, col: int) -> Option<Seq<char>> {
    if col < 0 || col >= line.len() || !is_word_char(line[col]) {
        None
    } else {
        Some(line.subrange(word_start(line, col), word_end(line, col)))
    }
}

/// The word at a 0-based line and character of a text.
pub open spec fn word_at(text: Seq<char>, line: u32, character: u32) -> Option<Seq<char>> {
    if line >= text_lines(text).len() {
        None
    } else {
        word_in_line(text_lines(text)[line as int], character as int)
    }
}

proof fn lemma_word_start_bounds(line: Seq<char>, i: int)
    requires
        0 <= i <= line.len(),
    ensures
        0 <= word_start(line, i) <= i,
    decreases i,
{
    if i > 0 && is_word_char(line[i - 1]) {
        lemma_word_start_bounds(line, i - 1);
    }
}

proof fn lemma_word_end_bounds(line: Seq<char>, i: int)
    requires
        0 <= i <= line.len(),
    ensures
        i <= word_end(line, i) <= line.len(),
    decreases line.len() - i,
{
    if i < line.len() && is_word_char(line[i]) {
        lemma_word_end_bounds(line, i + 1);
    }
}

/// The word at the cursor: the 0-based line and character of the rope.
pub fn get_word_at_position(rope: &Rope, line: u32, character: u32) -> (r: Option<String>)
    ensures
        match r {
            Some(w) => word_at(rope_text(*rope), line, character) == Some(w@),
            None => word_at(rope_text(*rope), line, character) is None,
        },
{
    let line_idx = line as usize;
    if line_idx >= rope_len_lines(rope) {
        return None;
    }
    let text = rope_line(rope, line_idx);
    let chars = chars_of(text.as_str());
    let col = character as usize;
    if col >= chars.len() {
        return None;
    }
    if !is_word_char_exec(chars[col]) {
        return None;
    }
    let ghost l = chars@;
    let mut start = col;
    while start > 0 && is_word_char_exec(chars[start - 1])
        invariant
            start <= col < chars.len(),
            l == chars@,
            word_start(l, col as int) == word_start(l, start as int),
        decreases start,
    {
        start = start - 1;
    }
    let mut end = col;
    while end < chars.len() && is_word_char_exec(chars[end])
        invariant
            col <= end <= chars.len(),
            l == chars@,
            word_end(l, col as int) == word_end(l, end as int),
        decreases chars.len() - end,
    {
        end = end + 1;
    }
    let mut out: Vec<char> = Vec::new();
    let mut k = start;
    while k < end
        invariant
            start <= k <= end <= chars.len(),
            out@ == l.subrange(start as int, k as int),
            l == chars@,
        decreases end - k,
    {
        out.push(chars[k]);
        k = k + 1;
        assert(out@ =~= l.subrange(start as int, k as int));
    }
    Some(string_of(out.as_slice()))
}

// ----------------------------------------------------------------------
// Analysis of a document

/// What an editor learns of a document: the syntax errors, the type errors,
/// the declared names and the program.
pub struct AnalysisResult {
    pub parse_errors: Vec<ParseError>,
    pub type_errors: Vec<TypeCheckError>,
    pub symbols: Vec<SymbolInfo>,
    pub program: Option<Program>,
}

/// The type checker before it has seen anything.
pub open spec fn tc_start() -> TcModel {
    TcModel {
        errors: Seq::empty(),
        structs: Map::empty(),
        methods: Map::empty(),
        interfaces: Map::empty(),
        loop_depth: 0,
    }
}

/// The messages a fresh type checker reports for a program.
pub open spec fn type_error_messages(p: Program) -> Seq<Seq<char>> {
    tc_program(tc_start(), seq![Map::empty()], p).0.errors
}

/// Parses and checks a document: the program the parser builds, with its
/// declared names and the type errors of a fresh checker.
pub fn analyze(source: &str) -> (r: AnalysisResult)
    ensures
        r.program is Some,
        crate::ast::stmts_model(r.program->0.statements@) == crate::grammar::parsed_statements(source@),
        crate::parser::errs_model(r.parse_errors@) == crate::grammar::parse_errors(source@),
        symbols_model(r.symbols@) == stmts_symbols(r.program->0.statements@),
        r.type_errors@.len() == type_error_messages(r.program->0).len(),
        forall|i: int|
            0 <= i < r.type_errors@.len() ==> (#[trigger] r.type_errors@[i]).message@ == type_error_messages(
                r.program->0,
            )[i],
{
    let lexer = Lexer::new(source);
    let mut parser = Parser::new(lexer);
    let program = parser.parse_program();
    let parse_errors = copy_parse_errors(parser.errors());
    assert(crate::parser::errs_model(parse_errors@) =~= crate::grammar::parse_errors(source@));
    match program {
        Some(prog) => {
            let symbols = collect_symbols(&prog);
            let mut type_checker = TypeChecker::new();
            let mut env = Environment::new();
            type_checker.check_program(&prog, &mut env);
            proof {
                type_checker.lemma_model_errors();
            }
            let type_errors = type_checker.into_errors();
            AnalysisResult {
                parse_errors,
                type_errors,
                symbols,
                program: Some(prog),
            }
        },
        None => AnalysisResult { parse_errors, type_errors: Vec::new(), symbols: Vec::new(), program: None },
    }
}

fn copy_parse_errors(v: &Vec<ParseError>) -> (r: Vec<ParseError>)
    ensures
        r@.len() == v@.len(),
        forall|i: int|
            0 <= i < v@.len() ==> (#[trigger] r@[i]).message@ == v@[i].message@ && r@[i].line == v@[i].line
                && r@[i].column == v@[i].column,
{
    let mut out: Vec<ParseError> = Vec::new();
    let mut i: usize = 0;
    while i < v.len()
        invariant
            i <= v.len(),
            out@.len() == i,
            forall|k: int|
                0 <= k < i ==> (#[trigger] out@[k]).message@ == v@[k].message@ && out@[k].line == v@[k].line
                    && out@[k].column == v@[k].column,
        decreases v.len() - i,
    {
        out.push(ParseError { message: v[i].message.clone(), line: v[i].line, column: v[i].column });
        i = i + 1;
    }
    out
}

// ----------------------------------------------------------------------
// Ranges, definitions, diagnostics and formatting edits

/// A range of a document: 0-based start and end lines and characters.
#[derive(Debug, Clone, Copy, PartialEq, Eq, Structural)]
pub struct SourceRange {
    pub start_line: u32,
    pub start_character: u32,
    pub end_line: u32,
    pub end_character: u32,
}

/// The range of a declared name: its line and column, as far as its name
/// reaches.
pub open spec fn name_range(sym: SymbolModel) -> SourceRange {
    SourceRange {
        start_line: sym.line as u32,
        start_character: sym.column as u32,
        end_line: sym.line as u32,
        end_character: (sym.column + sym.name.len()) as u32,
    }
}

/// Whether going to a definition can land on a declared name of this kind.
pub open spec fn is_definition_kind(k: SymbolKindInfo) -> bool {
    k == SymbolKindInfo::Variable || k == SymbolKindInfo::Function || k == SymbolKindInfo::Parameter
}

/// The range of the first variable, function or parameter of the given name.
pub open spec fn definition_of(syms: Seq<SymbolModel>, word: Seq<char>) -> Option<SourceRange>
    decreases syms.len(),
{
    if syms.len() == 0 {
        None
    } else if syms[0].name == word && is_definition_kind(syms[0].kind) {
        Some(name_range(syms[0]))
    } else {
        definition_of(syms.drop_first(), word)
    }
}

fn char_count(s: &String) -> (n: usize)
    ensures
        n == s@.len(),
{
    chars_of(s.as_str()).len()
}

fn range_of_symbol(sym: &SymbolInfo) -> (r: SourceRange)
    ensures
        r == name_range(sym.model()),
{
    let n = char_count(&sym.name);
    SourceRange {
        start_line: sym.line as u32,
        start_character: sym.column as u32,
        end_line: sym.line as u32,
        end_character: ((sym.column as u128) + (n as u128)) as u32,
    }
}

/// Where the word at the cursor is defined: the range of the first
/// variable, function or parameter of that name that the analysis found.
pub fn find_definition(rope: &Rope, line: u32, character: u32, analysis: &AnalysisResult) -> (r: Option<
    SourceRange,
>)
    ensures
        r == match word_at(rope_text(*rope), line, character) {
            Some(w) => definition_of(symbols_model(analysis.symbols@), w),
            None => None,
        },
{
    let word = match get_word_at_position(rope, line, character) {
        Some(w) => w,
        None => return None,
    };
    let syms = &analysis.symbols;
    let ghost m = symbols_model(syms@);
    let mut i: usize = 0;
    assert(m.subrange(0, m.len() as int) =~= m);
    while i < syms.len()
        invariant
            i <= syms.len(),
            syms@ == analysis.symbols@,
            m == symbols_model(syms@),
            word_at(rope_text(*rope), line, character) == Some(word@),
            definition_of(m, word@) == definition_of(m.subrange(i as int, m.len() as int), word@),
        decreases syms.len() - i,
    {
        let ghost sub = m.subrange(i as int, m.len() as int);
        assert(sub.drop_first() =~= m.subrange(i + 1, m.len() as int));
        assert(sub[0] == syms@[i as int].model());
        let sym = &syms[i];
        let kind_ok = match sym.kind {
            SymbolKindInfo::Variable | SymbolKindInfo::Function | SymbolKindInfo::Parameter => true,
            _ => false,
        };
        if kind_ok && str_eq(sym.name.as_str(), word.as_str()) {
            return Some(range_of_symbol(sym));
        }
        i = i + 1;
    }
    None
}

/// A problem to show in the editor: where, who found it, and what it is.
pub struct DiagnosticEntry {
    pub range: SourceRange,
    pub source: String,
    pub message: String,
}

pub open spec fn diagnostics_model(v: Seq<DiagnosticEntry>) -> Seq<(SourceRange, Seq<char>, Seq<char>)> {
    Seq::new(v.len(), |i: int| (v[i].range, v[i].source@, v[i].message@))
}

/// The diagnostic of a syntax error: one character at its line (made
/// 0-based) and column.
pub open spec fn parse_diagnostic(line: usize, column: usize, message: Seq<char>) -> (SourceRange, Seq<char>, Seq<char>) {
    let l = zero_based(line);
    (
        SourceRange {
            start_line: l as u32,
            start_character: column as u32,
            end_line: l as u32,
            end_character: (column + 1) as u32,
        },
        "mlang"@,
        message,
    )
}

/// The diagnostic of a type error, shown at the start of the document.
pub open spec fn type_diagnostic(message: Seq<char>) -> (SourceRange, Seq<char>, Seq<char>) {
    (
        SourceRange { start_line: 0, start_character: 0, end_line: 0, end_character: 1 },
        "mlang-typecheck"@,
        message,
    )
}

/// The diagnostics of an analysis: one per syntax error, then one per type
/// error, in order.
pub open spec fn diagnostics_of(parse_errors: Seq<ParseError>, type_errors: Seq<TypeCheckError>) -> Seq<
    (SourceRange, Seq<char>, Seq<char>),
> {
    Seq::new(
        parse_errors.len(),
        |i: int| parse_diagnostic(parse_errors[i].line, parse_errors[i].column, parse_errors[i].message@),
    ) + Seq::new(type_errors.len(), |i: int| type_diagnostic(type_errors[i].message@))
}

/// The diagnostics to publish for an analysis.
pub fn diagnostics(result: &AnalysisResult) -> (r: Vec<DiagnosticEntry>)
    ensures
        diagnostics_model(r@) == diagnostics_of(result.parse_errors@, result.type_errors@),
{
    let mut out: Vec<DiagnosticEntry> = Vec::new();
    let pe = &result.parse_errors;
    let te = &result.type_errors;
    let ghost want = diagnostics_of(pe@, te@);
    let mut i: usize = 0;
    while i < pe.len()
        invariant
            i <= pe.len(),
            want == diagnostics_of(pe@, te@),
            out@.len() == i,
            forall|k: int| 0 <= k < i ==> #[trigger] diagnostics_model(out@)[k] == want[k],
        decreases pe.len() - i,
    {
        let e = &pe[i];
        let line = zero_based_exec(e.line);
        let ghost before = out@;
        out.push(
            DiagnosticEntry {
                range: SourceRange {
                    start_line: line as u32,
                    start_character: e.column as u32,
                    end_line: line as u32,
                    end_character: ((e.column as u128) + 1) as u32,
                },
                source: "mlang".to_owned(),
                message: e.message.clone(),
            },
        );
        assert(diagnostics_model(out@)[i as int].0 == want[i as int].0);
        assert(diagnostics_model(out@)[i as int].1 =~= want[i as int].1);
        assert(diagnostics_model(out@)[i as int].2 =~= want[i as int].2);
        assert forall|k: int| 0 <= k < i + 1 implies #[trigger] diagnostics_model(out@)[k] == want[k] by {
            if k < i {
                assert(diagnostics_model(before)[k] == want[k]);
                assert(out@[k] == before[k]);
            }
        }
        i = i + 1;
    }
    let mut j: usize = 0;
    while j < te.len()
        invariant
            j <= te.len(),
            want == diagnostics_of(pe@, te@),
            out@.len() == pe.len() + j,
            forall|k: int| 0 <= k < pe.len() + j ==> #[trigger] diagnostics_model(out@)[k] == want[k],
        decreases te.len() - j,
    {
        let ghost before = out@;
        out.push(
            DiagnosticEntry {
                range: SourceRange { start_line: 0, start_character: 0, end_line: 0, end_character: 1 },
                source: "mlang-typecheck".to_owned(),
                message: te[j].message.clone(),
            },
        );
        assert(diagnostics_model(out@)[pe.len() + j].1 =~= want[pe.len() + j].1);
        assert(diagnostics_model(out@)[pe.len() + j].2 =~= want[pe.len() + j].2);
        assert forall|k: int| 0 <= k < pe.len() + j + 1 implies #[trigger] diagnostics_model(out@)[k] == want[k] by {
            if k < pe.len() + j {
                assert(diagnostics_model(before)[k] == want[k]);
                assert(out@[k] == before[k]);
            }
        }
        j = j + 1;
    }
    assert(diagnostics_model(out@) =~= want);
    out
}

/// A replacement of a range of the document by new text.
pub struct TextEditEntry {
    pub range: SourceRange,
    pub new_text: String,
}

pub open spec fn edits_model(v: Seq<TextEditEntry>) -> Seq<(SourceRange, Seq<char>)> {
    Seq::new(v.len(), |i: int| (v[i].range, v[i].new_text@))
}

proof fn lemma_split_lines_nonempty(t: Seq<char>, cur: Seq<char>)
    ensures
        split_lines_len_ok(t, cur),
    decreases t.len(),
{
    if t.len() > 0 {
        if t[0] == '\r' && t.len() > 1 && t[1] == '\n' {
            lemma_split_lines_nonempty(t.subrange(2, t.len() as int), Seq::empty());
        } else if crate::document::is_line_break(t[0]) {
            lemma_split_lines_nonempty(t.drop_first(), Seq::empty());
        } else {
            lemma_split_lines_nonempty(t.drop_first(), cur.push(t[0]));
        }
    }
}

pub open spec fn split_lines_len_ok(t: Seq<char>, cur: Seq<char>) -> bool {
    crate::document::split_lines(t, cur).len() >= 1
}

/// The range of a whole document: from its start to the end of its last
/// line.
pub open spec fn full_range(text: Seq<char>) -> SourceRange {
    let last = (if text_lines(text).len() > 0 { text_lines(text).len() - 1 } else { 0 }) as u32;
    SourceRange {
        start_line: 0,
        start_character: 0,
        end_line: last,
        end_character: text_lines(text)[last as int].len() as u32,
    }
}

/// The edits that turn a document into its formatting: none when it is
/// formatted already, else one that replaces the whole document.
pub open spec fn edits_for(text: Seq<char>, formatted: Seq<char>) -> Seq<(SourceRange, Seq<char>)> {
    if formatted == text {
        Seq::empty()
    } else {
        seq![(full_range(text), formatted)]
    }
}

/// Formats a document: the edits that make it formatted, or the messages of
/// the parser when it cannot be formatted.
pub fn document_formatting(rope: &Rope) -> (r: Result<Vec<TextEditEntry>, Vec<String>>)
    ensures
        match r {
            Ok(es) => exists|f: Seq<char>|
                #![trigger formats_to(rope_text(*rope), f)]
                formats_to(rope_text(*rope), f) && edits_model(es@) == edits_for(rope_text(*rope), f),
            Err(msgs) => crate::formatter::strings_model(msgs@) == crate::formatter::parse_error_texts(
                rope_text(*rope),
            ),
        },
        r is Ok <==> crate::grammar::parse_errors(rope_text(*rope)).len() == 0,
{
    let source = rope_to_string(rope);
    match format_source(source.as_str()) {
        Ok(formatted) => {
            if str_eq(formatted.as_str(), source.as_str()) {
                let es: Vec<TextEditEntry> = Vec::new();
                assert(edits_model(es@) =~= edits_for(rope_text(*rope), formatted@));
                return Ok(es);
            }
            proof {
                lemma_split_lines_nonempty(rope_text(*rope), Seq::empty());
            }
            let n = rope_len_lines(rope);
            let last_line: u32 = (if n > 0 { n - 1 } else { 0 }) as u32;
            let last_char = rope_line_len_chars(rope, last_line as usize) as u32;
            let mut es: Vec<TextEditEntry> = Vec::new();
            es.push(
                TextEditEntry {
                    range: SourceRange {
                        start_line: 0,
                        start_character: 0,
                        end_line: last_line,
                        end_character: last_char,
                    },
                    new_text: formatted,
                },
            );
            assert(edits_model(es@) =~= edits_for(rope_text(*rope), es@[0].new_text@));
            Ok(es)
        },
        Err(msgs) => Err(msgs),
    }
}

} // verus!
