//! Which language phase a program's features belong to, and what the LLVM
//! backend cannot build.
use vstd::prelude::*;

use crate::ast::{BlockStatement, Expression, IfAlternative, Program, Span, Statement, Type};
use crate::stdlib::{resolve_stdlib_module, stdlib_module};
use crate::text::{chars_are, push_str, push_string, str_eq, string_of, trim_quotes, trim_quotes_exec};

verus! {

/// Whether an expression is the identifier `name`.
pub open spec fn is_ident(e: Expression, name: Seq<char>) -> bool {
    match e {
        Expression::Identifier(n) => n@ == name,
        _ => false,
    }
}

fn is_ident_exec(e: &Expression, name: &str) -> (r: bool)
    ensures
        r == is_ident(*e, name@),
{
    match e {
        Expression::Identifier(n) => str_eq(n.as_str(), name),
        _ => false,
    }
}

/// Whether a type mentions a Phase 3 feature.
pub open spec fn type_phase3(t: Type) -> bool
    decreases t, 1nat,
{
    match t {
        Type::Channel(_) => true,
        Type::Array(inner) => type_phase3(*inner),
        Type::HashMap(k, v) => type_phase3(*k) || type_phase3(*v),
        Type::Tuple(ts) => any_type_phase3(ts@),
        Type::Function { params, return_type } => any_type_phase3(params@) || type_phase3(*return_type),
        _ => false,
    }
}

pub open spec fn any_type_phase3(ts: Seq<Type>) -> bool
    decreases ts, 0nat,
{
    ts.len() > 0 && (type_phase3(ts[0]) || any_type_phase3(ts.drop_first()))
}

/// Whether a parameter list mentions a Phase 3 type.
pub open spec fn any_param_phase3(ps: Seq<(String, Type, Span)>) -> bool {
    exists|i: int| 0 <= i < ps.len() && type_phase3(#[trigger] ps[i].1)
}

pub open spec fn any_field_phase3(fs: Seq<(String, Type)>) -> bool {
    exists|i: int| 0 <= i < fs.len() && type_phase3(#[trigger] fs[i].1)
}

pub open spec fn method_phase3(m: (String, Vec<(String, Type)>, Type)) -> bool {
    any_field_phase3(m.1@) || type_phase3(m.2)
}

pub open spec fn any_method_phase3(ms: Seq<(String, Vec<(String, Type)>, Type)>) -> bool {
    exists|i: int| 0 <= i < ms.len() && method_phase3(#[trigger] ms[i])
}

/// Whether an expression uses a Phase 3 feature.
pub open spec fn expr_phase3(e: Expression) -> bool
    decreases e, 1nat,
{
    match e {
        Expression::ChannelMake { .. } => true,
        Expression::MethodCall { object, method, arguments } => (is_ident(*object, "http"@) && (
        method@ == "handle"@ || method@ == "listen"@)) || method@ == "send"@ || method@ == "recv"@
            || method@ == "close"@ || expr_phase3(*object) || any_expr_phase3(arguments@),
        Expression::BaungCreate { timeout_ms } => expr_phase3(*timeout_ms),
        Expression::FunctionCall { arguments, .. } => any_expr_phase3(arguments@),
        Expression::Binary { left, right, .. } => expr_phase3(*left) || expr_phase3(*right),
        Expression::ArrayLiteral { elements } => any_expr_phase3(elements@),
        Expression::HashLiteral { pairs } => any_pair_phase3(pairs@),
        Expression::IndexExpression { left, index } => expr_phase3(*left) || expr_phase3(*index),
        Expression::SliceExpression { left, low, high } => expr_phase3(*left) || (match low {
            Some(b) => expr_phase3(*b),
            None => false,
        }) || (match high {
            Some(b) => expr_phase3(*b),
            None => false,
        }),
        Expression::ReadInput { prompt } => expr_phase3(*prompt),
        Expression::TypeConversion { argument, .. } => expr_phase3(*argument),
        Expression::FieldAccess { object, .. } => expr_phase3(*object),
        Expression::StructLiteral { fields, .. } => any_named_phase3(fields@),
        Expression::ClosureLiteral { parameters, return_type, body } => any_param_phase3(parameters@)
            || type_phase3(return_type) || block_phase3(body),
        Expression::ErrorCreate { message } => expr_phase3(*message),
        Expression::TupleLiteral { elements } => any_expr_phase3(elements@),
        _ => false,
    }
}

pub open spec fn any_expr_phase3(es: Seq<Expression>) -> bool
    decreases es, 0nat,
{
    es.len() > 0 && (expr_phase3(es[0]) || any_expr_phase3(es.drop_first()))
}

pub open spec fn any_pair_phase3(ps: Seq<(Expression, Expression)>) -> bool
    decreases ps, 0nat,
{
    ps.len() > 0 && (expr_phase3(ps[0].0) || expr_phase3(ps[0].1) || any_pair_phase3(ps.drop_first()))
}

pub open spec fn any_named_phase3(fs: Seq<(String, Expression)>) -> bool
    decreases fs, 0nat,
{
    fs.len() > 0 && (expr_phase3(fs[0].1) || any_named_phase3(fs.drop_first()))
}

/// Whether a statement uses a Phase 3 feature.
pub open spec fn stmt_phase3(s: Statement) -> bool
    decreases s, 1nat,
{
    match s {
        Statement::Go { .. } | Statement::Defer { .. } => true,
        Statement::TestDecl { body, .. } => block_phase3(body),
        Statement::Import { module, .. } => trim_quotes(module@) == "kainn"@,
        Statement::Let { ty, value, .. } => type_phase3(ty) || expr_phase3(value),
        Statement::LetDestructured { names, value } => any_param_phase3(names@) || expr_phase3(value),
        Statement::Assign { value, .. } => expr_phase3(value),
        Statement::FieldAssign { value, .. } => expr_phase3(value),
        Statement::IndexAssign { object, index, value, .. } => expr_phase3(object) || expr_phase3(index)
            || expr_phase3(value),
        Statement::If { condition, consequence, alternative } => expr_phase3(condition) || block_phase3(
            consequence,
        ) || alt_phase3(alternative),
        Statement::While { condition, body } => expr_phase3(condition) || block_phase3(body),
        Statement::ForIn { collection, body, .. } => expr_phase3(collection) || block_phase3(body),
        Statement::ForClassic { init, condition, post, body } => (match init {
            Some(st) => stmt_phase3(*st),
            None => false,
        }) || (match condition {
            Some(c) => expr_phase3(c),
            None => false,
        }) || (match post {
            Some(st) => stmt_phase3(*st),
            None => false,
        }) || block_phase3(body),
        Statement::FunctionDecl { parameters, return_type, body, .. } => any_param_phase3(parameters@)
            || type_phase3(return_type) || block_phase3(body),
        Statement::Return { value } => expr_phase3(value),
        Statement::Print { value } => expr_phase3(value),
        Statement::ExpressionStatement(e) => expr_phase3(e),
        Statement::StructDecl { fields, .. } => any_field_phase3(fields@),
        Statement::MethodDecl { parameters, return_type, body, .. } => any_param_phase3(parameters@)
            || type_phase3(return_type) || block_phase3(body),
        Statement::InterfaceDecl { methods, .. } => any_method_phase3(methods@),
        Statement::Export { statement, .. } => stmt_phase3(*statement),
        _ => false,
    }
}

pub open spec fn alt_phase3(a: Option<IfAlternative>) -> bool
    decreases a, 0nat,
{
    match a {
        Some(IfAlternative::Else(b)) => block_phase3(b),
        Some(IfAlternative::ElseIf(st)) => stmt_phase3(*st),
        None => false,
    }
}

pub open spec fn block_phase3(b: BlockStatement) -> bool
    decreases b, 1nat,
{
    any_stmt_phase3(b.statements@)
}

pub open spec fn any_stmt_phase3(ss: Seq<Statement>) -> bool
    decreases ss, 0nat,
{
    ss.len() > 0 && (stmt_phase3(ss[0]) || any_stmt_phase3(ss.drop_first()))
}


pub fn type_uses_phase3(t: &Type) -> (r: bool)
    ensures
        r == type_phase3(*t),
    decreases t, 1nat,
{
    match t {
        Type::Channel(_) => true,
        Type::Array(inner) => type_uses_phase3(inner),
        Type::HashMap(k, v) => type_uses_phase3(k) || type_uses_phase3(v),
        Type::Tuple(ts) => any_type_uses_phase3(ts),
        Type::Function { params, return_type } => any_type_uses_phase3(params) || type_uses_phase3(return_type),
        _ => false,
    }
}

fn any_type_uses_phase3(ts: &Vec<Type>) -> (r: bool)
    ensures
        r == any_type_phase3(ts@),
    decreases ts@, 0nat,
{
    let mut i: usize = 0;
    assert(ts@.subrange(0, ts.len() as int) =~= ts@);
    while i < ts.len()
        invariant
            i <= ts.len(),
            any_type_phase3(ts@.subrange(i as int, ts.len() as int)) == any_type_phase3(ts@),
        decreases ts.len() - i,
    {
        let ghost sub = ts@.subrange(i as int, ts.len() as int);
        assert(sub.drop_first() =~= ts@.subrange(i + 1, ts.len() as int));
        assert(sub[0] == ts@[i as int]);
        if type_uses_phase3(&ts[i]) {
            return true;
        }
        i = i + 1;
    }
    false
}

fn any_param_uses_phase3(ps: &Vec<(String, Type, Span)>) -> (r: bool)
    ensures
        r == any_param_phase3(ps@),
{
    let mut i: usize = 0;
    while i < ps.len()
        invariant
            i <= ps.len(),
            forall|k: int| 0 <= k < i ==> !type_phase3(#[trigger] ps@[k].1),
        decreases ps.len() - i,
    {
        if type_uses_phase3(&ps[i].1) {
            return true;
        }
        i = i + 1;
    }
    false
}

fn any_field_uses_phase3(fs: &Vec<(String, Type)>) -> (r: bool)
    ensures
        r == any_field_phase3(fs@),
{
    let mut i: usize = 0;
    while i < fs.len()
        invariant
            i <= fs.len(),
            forall|k: int| 0 <= k < i ==> !type_phase3(#[trigger] fs@[k].1),
        decreases fs.len() - i,
    {
        if type_uses_phase3(&fs[i].1) {
            return true;
        }
        i = i + 1;
    }
    false
}

fn any_method_uses_phase3(ms: &Vec<(String, Vec<(String, Type)>, Type)>) -> (r: bool)
    ensures
        r == any_method_phase3(ms@),
{
    let mut i: usize = 0;
    while i < ms.len()
        invariant
            i <= ms.len(),
            forall|k: int| 0 <= k < i ==> !method_phase3(#[trigger] ms@[k]),
        decreases ms.len() - i,
    {
        let f = any_field_uses_phase3(&ms[i].1);
        let t = type_uses_phase3(&ms[i].2);
        if f || t {
            return true;
        }
        assert(!method_phase3(ms@[i as int]));
        i = i + 1;
    }
    false
}

pub fn expression_uses_phase3(e: &Expression) -> (r: bool)
    ensures
        r == expr_phase3(*e),
    decreases e, 1nat,
{
    match e {
        Expression::ChannelMake { .. } => true,
        Expression::MethodCall { object, method, arguments } => {
            let m = method.as_str();
            (is_ident_exec(object, "http") && (str_eq(m, "handle") || str_eq(m, "listen"))) || str_eq(m, "send")
                || str_eq(m, "recv") || str_eq(m, "close") || expression_uses_phase3(object)
                || any_expr_uses_phase3(arguments)
        },
        Expression::BaungCreate { timeout_ms } => expression_uses_phase3(timeout_ms),
        Expression::FunctionCall { arguments, .. } => any_expr_uses_phase3(arguments),
        Expression::Binary { left, right, .. } => expression_uses_phase3(left) || expression_uses_phase3(right),
        Expression::ArrayLiteral { elements } => any_expr_uses_phase3(elements),
        Expression::HashLiteral { pairs } => any_pair_uses_phase3(pairs),
        Expression::IndexExpression { left, index } => expression_uses_phase3(left) || expression_uses_phase3(index),
        Expression::SliceExpression { left, low, high } => expression_uses_phase3(left) || (match low {
            Some(b) => expression_uses_phase3(b),
            None => false,
        }) || (match high {
            Some(b) => expression_uses_phase3(b),
            None => false,
        }),
        Expression::ReadInput { prompt } => expression_uses_phase3(prompt),
        Expression::TypeConversion { argument, .. } => expression_uses_phase3(argument),
        Expression::FieldAccess { object, .. } => expression_uses_phase3(object),
        Expression::StructLiteral { fields, .. } => any_named_uses_phase3(fields),
        Expression::ClosureLiteral { parameters, return_type, body } => any_param_uses_phase3(parameters)
            || type_uses_phase3(return_type) || block_uses_phase3(body),
        Expression::ErrorCreate { message } => expression_uses_phase3(message),
        Expression::TupleLiteral { elements } => any_expr_uses_phase3(elements),
        _ => false,
    }
}

fn any_expr_uses_phase3(es: &Vec<Expression>) -> (r: bool)
    ensures
        r == any_expr_phase3(es@),
    decreases es@, 0nat,
{
    let mut i: usize = 0;
    assert(es@.subrange(0, es.len() as int) =~= es@);
    while i < es.len()
        invariant
            i <= es.len(),
            any_expr_phase3(es@.subrange(i as int, es.len() as int)) == any_expr_phase3(es@),
        decreases es.len() - i,
    {
        let ghost sub = es@.subrange(i as int, es.len() as int);
        assert(sub.drop_first() =~= es@.subrange(i + 1, es.len() as int));
        assert(sub[0] == es@[i as int]);
        if expression_uses_phase3(&es[i]) {
            return true;
        }
        i = i + 1;
    }
    false
}

fn any_pair_uses_phase3(ps: &Vec<(Expression, Expression)>) -> (r: bool)
    ensures
        r == any_pair_phase3(ps@),
    decreases ps@, 0nat,
{
    let mut i: usize = 0;
    assert(ps@.subrange(0, ps.len() as int) =~= ps@);
    while i < ps.len()
        invariant
            i <= ps.len(),
            any_pair_phase3(ps@.subrange(i as int, ps.len() as int)) == any_pair_phase3(ps@),
        decreases ps.len() - i,
    {
        let ghost sub = ps@.subrange(i as int, ps.len() as int);
        assert(sub.drop_first() =~= ps@.subrange(i + 1, ps.len() as int));
        assert(sub[0] == ps@[i as int]);
        if expression_uses_phase3(&ps[i].0) || expression_uses_phase3(&ps[i].1) {
            return true;
        }
        i = i + 1;
    }
    false
}

fn any_named_uses_phase3(fs: &Vec<(String, Expression)>) -> (r: bool)
    ensures
        r == any_named_phase3(fs@),
    decreases fs@, 0nat,
{
    let mut i: usize = 0;
    assert(fs@.subrange(0, fs.len() as int) =~= fs@);
    while i < fs.len()
        invariant
            i <= fs.len(),
            any_named_phase3(fs@.subrange(i as int, fs.len() as int)) == any_named_phase3(fs@),
        decreases fs.len() - i,
    {
        let ghost sub = fs@.subrange(i as int, fs.len() as int);
        assert(sub.drop_first() =~= fs@.subrange(i + 1, fs.len() as int));
        assert(sub[0] == fs@[i as int]);
        if expression_uses_phase3(&fs[i].1) {
            return true;
        }
        i = i + 1;
    }
    false
}

pub fn statement_uses_phase3(s: &Statement) -> (r: bool)
    ensures
        r == stmt_phase3(*s),
    decreases s, 1nat,
{
    match s {
        Statement::Go { .. } | Statement::Defer { .. } => true,
        Statement::TestDecl { body, .. } => block_uses_phase3(body),
        Statement::Import { module, .. } => {
            let t = trim_quotes_exec(module.as_str());
            chars_are(&t, "kainn")
        },
        Statement::Let { ty, value, .. } => type_uses_phase3(ty) || expression_uses_phase3(value),
        Statement::LetDestructured { names, value } => any_param_uses_phase3(names) || expression_uses_phase3(value),
        Statement::Assign { value, .. } => expression_uses_phase3(value),
        Statement::FieldAssign { value, .. } => expression_uses_phase3(value),
        Statement::IndexAssign { object, index, value, .. } => expression_uses_phase3(object)
            || expression_uses_phase3(index) || expression_uses_phase3(value),
        Statement::If { condition, consequence, alternative } => expression_uses_phase3(condition)
            || block_uses_phase3(consequence) || alt_uses_phase3(alternative),
        Statement::While { condition, body } => expression_uses_phase3(condition) || block_uses_phase3(body),
        Statement::ForIn { collection, body, .. } => expression_uses_phase3(collection) || block_uses_phase3(body),
        Statement::ForClassic { init, condition, post, body } => (match init {
            Some(st) => statement_uses_phase3(st),
            None => false,
        }) || (match condition {
            Some(c) => expression_uses_phase3(c),
            None => false,
        }) || (match post {
            Some(st) => statement_uses_phase3(st),
            None => false,
        }) || block_uses_phase3(body),
        Statement::FunctionDecl { parameters, return_type, body, .. } => any_param_uses_phase3(parameters)
            || type_uses_phase3(return_type) || block_uses_phase3(body),
        Statement::Return { value } => expression_uses_phase3(value),
        Statement::Print { value } => expression_uses_phase3(value),
        Statement::ExpressionStatement(e) => expression_uses_phase3(e),
        Statement::StructDecl { fields, .. } => any_field_uses_phase3(fields),
        Statement::MethodDecl { parameters, return_type, body, .. } => any_param_uses_phase3(parameters)
            || type_uses_phase3(return_type) || block_uses_phase3(body),
        Statement::InterfaceDecl { methods, .. } => any_method_uses_phase3(methods),
        Statement::Export { statement, .. } => statement_uses_phase3(statement),
        _ => false,
    }
}

fn alt_uses_phase3(a: &Option<IfAlternative>) -> (r: bool)
    ensures
        r == alt_phase3(*a),
    decreases a, 0nat,
{
    match a {
        Some(IfAlternative::Else(b)) => block_uses_phase3(b),
        Some(IfAlternative::ElseIf(st)) => statement_uses_phase3(st),
        None => false,
    }
}

pub fn block_uses_phase3(b: &BlockStatement) -> (r: bool)
    ensures
        r == block_phase3(*b),
    decreases b, 1nat,
{
    any_stmt_uses_phase3(&b.statements)
}

fn any_stmt_uses_phase3(ss: &Vec<Statement>) -> (r: bool)
    ensures
        r == any_stmt_phase3(ss@),
    decreases ss@, 0nat,
{
    let mut i: usize = 0;
    assert(ss@.subrange(0, ss.len() as int) =~= ss@);
    while i < ss.len()
        invariant
            i <= ss.len(),
            any_stmt_phase3(ss@.subrange(i as int, ss.len() as int)) == any_stmt_phase3(ss@),
        decreases ss.len() - i,
    {
        let ghost sub = ss@.subrange(i as int, ss.len() as int);
        assert(sub.drop_first() =~= ss@.subrange(i + 1, ss.len() as int));
        assert(sub[0] == ss@[i as int]);
        if statement_uses_phase3(&ss[i]) {
            return true;
        }
        i = i + 1;
    }
    false
}

/// Whether a program uses a Phase 3 feature anywhere.
pub fn program_uses_phase3(program: &Program) -> (r: bool)
    ensures
        r == any_stmt_phase3(program.statements@),
{
    any_stmt_uses_phase3(&program.statements)
}


/// Whether a type mentions a Phase 4 feature.
pub open spec fn type_phase4(t: Type) -> bool
    decreases t, 1nat,
{
    match t {
        Type::Baung => true,
        Type::Array(inner) => type_phase4(*inner),
        Type::Channel(inner) => type_phase4(*inner),
        Type::HashMap(k, v) => type_phase4(*k) || type_phase4(*v),
        Type::Tuple(ts) => any_type_phase4(ts@),
        Type::Function { params, return_type } => any_type_phase4(params@) || type_phase4(*return_type),
        _ => false,
    }
}

pub open spec fn any_type_phase4(ts: Seq<Type>) -> bool
    decreases ts, 0nat,
{
    ts.len() > 0 && (type_phase4(ts[0]) || any_type_phase4(ts.drop_first()))
}

/// Whether a parameter list mentions a Phase 4 type.
pub open spec fn any_param_phase4(ps: Seq<(String, Type, Span)>) -> bool {
    exists|i: int| 0 <= i < ps.len() && type_phase4(#[trigger] ps[i].1)
}

pub open spec fn any_field_phase4(fs: Seq<(String, Type)>) -> bool {
    exists|i: int| 0 <= i < fs.len() && type_phase4(#[trigger] fs[i].1)
}

pub open spec fn method_phase4(m: (String, Vec<(String, Type)>, Type)) -> bool {
    any_field_phase4(m.1@) || type_phase4(m.2)
}

pub open spec fn any_method_phase4(ms: Seq<(String, Vec<(String, Type)>, Type)>) -> bool {
    exists|i: int| 0 <= i < ms.len() && method_phase4(#[trigger] ms[i])
}

/// Whether an expression uses a Phase 4 feature.
pub open spec fn expr_phase4(e: Expression) -> bool
    decreases e, 1nat,
{
    match e {
        Expression::BaungCreate { .. } => true,
        Expression::MethodCall { object, method, arguments } => (is_ident(*object, "http"@) && (
        method@ == "handle_ctx"@ || method@ == "handle_timeout"@)) || expr_phase4(*object) || any_expr_phase4(
            arguments@,
        ),
        Expression::ChannelMake { capacity, .. } => match capacity {
            Some(c) => expr_phase4(*c),
            None => false,
        },
        Expression::FunctionCall { arguments, .. } => any_expr_phase4(arguments@),
        Expression::Binary { left, right, .. } => expr_phase4(*left) || expr_phase4(*right),
        Expression::ArrayLiteral { elements } => any_expr_phase4(elements@),
        Expression::HashLiteral { pairs } => any_pair_phase4(pairs@),
        Expression::IndexExpression { left, index } => expr_phase4(*left) || expr_phase4(*index),
        Expression::SliceExpression { left, low, high } => expr_phase4(*left) || (match low {
            Some(b) => expr_phase4(*b),
            None => false,
        }) || (match high {
            Some(b) => expr_phase4(*b),
            None => false,
        }),
        Expression::ReadInput { prompt } => expr_phase4(*prompt),
        Expression::TypeConversion { argument, .. } => expr_phase4(*argument),
        Expression::FieldAccess { object, .. } => expr_phase4(*object),
        Expression::StructLiteral { fields, .. } => any_named_phase4(fields@),
        Expression::ClosureLiteral { parameters, return_type, body } => any_param_phase4(parameters@)
            || type_phase4(return_type) || block_phase4(body),
        Expression::ErrorCreate { message } => expr_phase4(*message),
        Expression::TupleLiteral { elements } => any_expr_phase4(elements@),
        _ => false,
    }
}

pub open spec fn any_expr_phase4(es: Seq<Expression>) -> bool
    decreases es, 0nat,
{
    es.len() > 0 && (expr_phase4(es[0]) || any_expr_phase4(es.drop_first()))
}

pub open spec fn any_pair_phase4(ps: Seq<(Expression, Expression)>) -> bool
    decreases ps, 0nat,
{
    ps.len() > 0 && (expr_phase4(ps[0].0) || expr_phase4(ps[0].1) || any_pair_phase4(ps.drop_first()))
}

pub open spec fn any_named_phase4(fs: Seq<(String, Expression)>) -> bool
    decreases fs, 0nat,
{
    fs.len() > 0 && (expr_phase4(fs[0].1) || any_named_phase4(fs.drop_first()))
}

/// Whether a statement uses a Phase 4 feature.
pub open spec fn stmt_phase4(s: Statement) -> bool
    decreases s, 1nat,
{
    match s {
        Statement::TestDecl { .. } => true,
        Statement::Go { call } | Statement::Defer { call } => expr_phase4(call),
        Statement::Import { module, .. } => trim_quotes(module@) == "database"@,
        Statement::Let { ty, value, .. } => type_phase4(ty) || expr_phase4(value),
        Statement::LetDestructured { names, value } => any_param_phase4(names@) || expr_phase4(value),
        Statement::Assign { value, .. } => expr_phase4(value),
        Statement::FieldAssign { value, .. } => expr_phase4(value),
        Statement::IndexAssign { object, index, value, .. } => expr_phase4(object) || expr_phase4(index)
            || expr_phase4(value),
        Statement::If { condition, consequence, alternative } => expr_phase4(condition) || block_phase4(
            consequence,
        ) || alt_phase4(alternative),
        Statement::While { condition, body } => expr_phase4(condition) || block_phase4(body),
        Statement::ForIn { collection, body, .. } => expr_phase4(collection) || block_phase4(body),
        Statement::ForClassic { init, condition, post, body } => (match init {
            Some(st) => stmt_phase4(*st),
            None => false,
        }) || (match condition {
            Some(c) => expr_phase4(c),
            None => false,
        }) || (match post {
            Some(st) => stmt_phase4(*st),
            None => false,
        }) || block_phase4(body),
        Statement::FunctionDecl { parameters, return_type, body, .. } => any_param_phase4(parameters@)
            || type_phase4(return_type) || block_phase4(body),
        Statement::Return { value } => expr_phase4(value),
        Statement::Print { value } => expr_phase4(value),
        Statement::ExpressionStatement(e) => expr_phase4(e),
        Statement::StructDecl { fields, .. } => any_field_phase4(fields@),
        Statement::MethodDecl { parameters, return_type, body, .. } => any_param_phase4(parameters@)
            || type_phase4(return_type) || block_phase4(body),
        Statement::InterfaceDecl { methods, .. } => any_method_phase4(methods@),
        Statement::Export { statement, .. } => stmt_phase4(*statement),
        _ => false,
    }
}

pub open spec fn alt_phase4(a: Option<IfAlternative>) -> bool
    decreases a, 0nat,
{
    match a {
        Some(IfAlternative::Else(b)) => block_phase4(b),
        Some(IfAlternative::ElseIf(st)) => stmt_phase4(*st),
        None => false,
    }
}

pub open spec fn block_phase4(b: BlockStatement) -> bool
    decreases b, 1nat,
{
    any_stmt_phase4(b.statements@)
}

pub open spec fn any_stmt_phase4(ss: Seq<Statement>) -> bool
    decreases ss, 0nat,
{
    ss.len() > 0 && (stmt_phase4(ss[0]) || any_stmt_phase4(ss.drop_first()))
}


pub fn type_uses_phase4(t: &Type) -> (r: bool)
    ensures
        r == type_phase4(*t),
    decreases t, 1nat,
{
    match t {
        Type::Baung => true,
        Type::Array(inner) => type_uses_phase4(inner),
        Type::Channel(inner) => type_uses_phase4(inner),
        Type::HashMap(k, v) => type_uses_phase4(k) || type_uses_phase4(v),
        Type::Tuple(ts) => any_type_uses_phase4(ts),
        Type::Function { params, return_type } => any_type_uses_phase4(params) || type_uses_phase4(return_type),
        _ => false,
    }
}

fn any_type_uses_phase4(ts: &Vec<Type>) -> (r: bool)
    ensures
        r == any_type_phase4(ts@),
    decreases ts@, 0nat,
{
    let mut i: usize = 0;
    assert(ts@.subrange(0, ts.len() as int) =~= ts@);
    while i < ts.len()
        invariant
            i <= ts.len(),
            any_type_phase4(ts@.subrange(i as int, ts.len() as int)) == any_type_phase4(ts@),
        decreases ts.len() - i,
    {
        let ghost sub = ts@.subrange(i as int, ts.len() as int);
        assert(sub.drop_first() =~= ts@.subrange(i + 1, ts.len() as int));
        assert(sub[0] == ts@[i as int]);
        if type_uses_phase4(&ts[i]) {
            return true;
        }
        i = i + 1;
    }
    false
}

fn any_param_uses_phase4(ps: &Vec<(String, Type, Span)>) -> (r: bool)
    ensures
        r == any_param_phase4(ps@),
{
    let mut i: usize = 0;
    while i < ps.len()
        invariant
            i <= ps.len(),
            forall|k: int| 0 <= k < i ==> !type_phase4(#[trigger] ps@[k].1),
        decreases ps.len() - i,
    {
        if type_uses_phase4(&ps[i].1) {
            return true;
        }
        i = i + 1;
    }
    false
}

fn any_field_uses_phase4(fs: &Vec<(String, Type)>) -> (r: bool)
    ensures
        r == any_field_phase4(fs@),
{
    let mut i: usize = 0;
    while i < fs.len()
        invariant
            i <= fs.len(),
            forall|k: int| 0 <= k < i ==> !type_phase4(#[trigger] fs@[k].1),
        decreases fs.len() - i,
    {
        if type_uses_phase4(&fs[i].1) {
            return true;
        }
        i = i + 1;
    }
    false
}

fn any_method_uses_phase4(ms: &Vec<(String, Vec<(String, Type)>, Type)>) -> (r: bool)
    ensures
        r == any_method_phase4(ms@),
{
    let mut i: usize = 0;
    while i < ms.len()
        invariant
            i <= ms.len(),
            forall|k: int| 0 <= k < i ==> !method_phase4(#[trigger] ms@[k]),
        decreases ms.len() - i,
    {
        let f = any_field_uses_phase4(&ms[i].1);
        let t = type_uses_phase4(&ms[i].2);
        if f || t {
            return true;
        }
        assert(!method_phase4(ms@[i as int]));
        i = i + 1;
    }
    false
}

pub fn expression_uses_phase4(e: &Expression) -> (r: bool)
    ensures
        r == expr_phase4(*e),
    decreases e, 1nat,
{
    match e {
        Expression::BaungCreate { .. } => true,
        Expression::MethodCall { object, method, arguments } => {
            let m = method.as_str();
            (is_ident_exec(object, "http") && (str_eq(m, "handle_ctx") || str_eq(m, "handle_timeout")))
                || expression_uses_phase4(object) || any_expr_uses_phase4(arguments)
        },
        Expression::ChannelMake { capacity, .. } => match capacity {
            Some(c) => expression_uses_phase4(c),
            None => false,
        },
        Expression::FunctionCall { arguments, .. } => any_expr_uses_phase4(arguments),
        Expression::Binary { left, right, .. } => expression_uses_phase4(left) || expression_uses_phase4(right),
        Expression::ArrayLiteral { elements } => any_expr_uses_phase4(elements),
        Expression::HashLiteral { pairs } => any_pair_uses_phase4(pairs),
        Expression::IndexExpression { left, index } => expression_uses_phase4(left) || expression_uses_phase4(index),
        Expression::SliceExpression { left, low, high } => expression_uses_phase4(left) || (match low {
            Some(b) => expression_uses_phase4(b),
            None => false,
        }) || (match high {
            Some(b) => expression_uses_phase4(b),
            None => false,
        }),
        Expression::ReadInput { prompt } => expression_uses_phase4(prompt),
        Expression::TypeConversion { argument, .. } => expression_uses_phase4(argument),
        Expression::FieldAccess { object, .. } => expression_uses_phase4(object),
        Expression::StructLiteral { fields, .. } => any_named_uses_phase4(fields),
        Expression::ClosureLiteral { parameters, return_type, body } => any_param_uses_phase4(parameters)
            || type_uses_phase4(return_type) || block_uses_phase4(body),
        Expression::ErrorCreate { message } => expression_uses_phase4(message),
        Expression::TupleLiteral { elements } => any_expr_uses_phase4(elements),
        _ => false,
    }
}

fn any_expr_uses_phase4(es: &Vec<Expression>) -> (r: bool)
    ensures
        r == any_expr_phase4(es@),
    decreases es@, 0nat,
{
    let mut i: usize = 0;
    assert(es@.subrange(0, es.len() as int) =~= es@);
    while i < es.len()
        invariant
            i <= es.len(),
            any_expr_phase4(es@.subrange(i as int, es.len() as int)) == any_expr_phase4(es@),
        decreases es.len() - i,
    {
        let ghost sub = es@.subrange(i as int, es.len() as int);
        assert(sub.drop_first() =~= es@.subrange(i + 1, es.len() as int));
        assert(sub[0] == es@[i as int]);
        if expression_uses_phase4(&es[i]) {
            return true;
        }
        i = i + 1;
    }
    false
}

fn any_pair_uses_phase4(ps: &Vec<(Expression, Expression)>) -> (r: bool)
    ensures
        r == any_pair_phase4(ps@),
    decreases ps@, 0nat,
{
    let mut i: usize = 0;
    assert(ps@.subrange(0, ps.len() as int) =~= ps@);
    while i < ps.len()
        invariant
            i <= ps.len(),
            any_pair_phase4(ps@.subrange(i as int, ps.len() as int)) == any_pair_phase4(ps@),
        decreases ps.len() - i,
    {
        let ghost sub = ps@.subrange(i as int, ps.len() as int);
        assert(sub.drop_first() =~= ps@.subrange(i + 1, ps.len() as int));
        assert(sub[0] == ps@[i as int]);
        if expression_uses_phase4(&ps[i].0) || expression_uses_phase4(&ps[i].1) {
            return true;
        }
        i = i + 1;
    }
    false
}

fn any_named_uses_phase4(fs: &Vec<(String, Expression)>) -> (r: bool)
    ensures
        r == any_named_phase4(fs@),
    decreases fs@, 0nat,
{
    let mut i: usize = 0;
    assert(fs@.subrange(0, fs.len() as int) =~= fs@);
    while i < fs.len()
        invariant
            i <= fs.len(),
            any_named_phase4(fs@.subrange(i as int, fs.len() as int)) == any_named_phase4(fs@),
        decreases fs.len() - i,
    {
        let ghost sub = fs@.subrange(i as int, fs.len() as int);
        assert(sub.drop_first() =~= fs@.subrange(i + 1, fs.len() as int));
        assert(sub[0] == fs@[i as int]);
        if expression_uses_phase4(&fs[i].1) {
            return true;
        }
        i = i + 1;
    }
    false
}

pub fn statement_uses_phase4(s: &Statement) -> (r: bool)
    ensures
        r == stmt_phase4(*s),
    decreases s, 1nat,
{
    match s {
        Statement::TestDecl { .. } => true,
        Statement::Go { call } | Statement::Defer { call } => expression_uses_phase4(call),
        Statement::Import { module, .. } => {
            let t = trim_quotes_exec(module.as_str());
            chars_are(&t, "database")
        },
        Statement::Let { ty, value, .. } => type_uses_phase4(ty) || expression_uses_phase4(value),
        Statement::LetDestructured { names, value } => any_param_uses_phase4(names) || expression_uses_phase4(value),
        Statement::Assign { value, .. } => expression_uses_phase4(value),
        Statement::FieldAssign { value, .. } => expression_uses_phase4(value),
        Statement::IndexAssign { object, index, value, .. } => expression_uses_phase4(object)
            || expression_uses_phase4(index) || expression_uses_phase4(value),
        Statement::If { condition, consequence, alternative } => expression_uses_phase4(condition)
            || block_uses_phase4(consequence) || alt_uses_phase4(alternative),
        Statement::While { condition, body } => expression_uses_phase4(condition) || block_uses_phase4(body),
        Statement::ForIn { collection, body, .. } => expression_uses_phase4(collection) || block_uses_phase4(body),
        Statement::ForClassic { init, condition, post, body } => (match init {
            Some(st) => statement_uses_phase4(st),
            None => false,
        }) || (match condition {
            Some(c) => expression_uses_phase4(c),
            None => false,
        }) || (match post {
            Some(st) => statement_uses_phase4(st),
            None => false,
        }) || block_uses_phase4(body),
        Statement::FunctionDecl { parameters, return_type, body, .. } => any_param_uses_phase4(parameters)
            || type_uses_phase4(return_type) || block_uses_phase4(body),
        Statement::Return { value } => expression_uses_phase4(value),
        Statement::Print { value } => expression_uses_phase4(value),
        Statement::ExpressionStatement(e) => expression_uses_phase4(e),
        Statement::StructDecl { fields, .. } => any_field_uses_phase4(fields),
        Statement::MethodDecl { parameters, return_type, body, .. } => any_param_uses_phase4(parameters)
            || type_uses_phase4(return_type) || block_uses_phase4(body),
        Statement::InterfaceDecl { methods, .. } => any_method_uses_phase4(methods),
        Statement::Export { statement, .. } => statement_uses_phase4(statement),
        _ => false,
    }
}

fn alt_uses_phase4(a: &Option<IfAlternative>) -> (r: bool)
    ensures
        r == alt_phase4(*a),
    decreases a, 0nat,
{
    match a {
        Some(IfAlternative::Else(b)) => block_uses_phase4(b),
        Some(IfAlternative::ElseIf(st)) => statement_uses_phase4(st),
        None => false,
    }
}

pub fn block_uses_phase4(b: &BlockStatement) -> (r: bool)
    ensures
        r == block_phase4(*b),
    decreases b, 1nat,
{
    any_stmt_uses_phase4(&b.statements)
}

fn any_stmt_uses_phase4(ss: &Vec<Statement>) -> (r: bool)
    ensures
        r == any_stmt_phase4(ss@),
    decreases ss@, 0nat,
{
    let mut i: usize = 0;
    assert(ss@.subrange(0, ss.len() as int) =~= ss@);
    while i < ss.len()
        invariant
            i <= ss.len(),
            any_stmt_phase4(ss@.subrange(i as int, ss.len() as int)) == any_stmt_phase4(ss@),
        decreases ss.len() - i,
    {
        let ghost sub = ss@.subrange(i as int, ss.len() as int);
        assert(sub.drop_first() =~= ss@.subrange(i + 1, ss.len() as int));
        assert(sub[0] == ss@[i as int]);
        if statement_uses_phase4(&ss[i]) {
            return true;
        }
        i = i + 1;
    }
    false
}

/// Whether a program uses a Phase 4 feature anywhere.
pub fn program_uses_phase4(program: &Program) -> (r: bool)
    ensures
        r == any_stmt_phase4(program.statements@),
{
    any_stmt_uses_phase4(&program.statements)
}

// ----------------------------------------------------------------------
// What the LLVM backend refuses

/// Why the LLVM backend cannot build the top-level statements `ss`: the
/// first import of a standard library module, or the first package or
/// export declaration; nothing if there is none.
pub open spec fn llvm_blocker(ss: Seq<Statement>) -> Option<Seq<char>>
    decreases ss.len(),
{
    if ss.len() == 0 {
        None
    } else {
        match ss[0] {
            Statement::Import { module, .. } => match stdlib_module(module@) {
                Some(m) => Some(
                    "LLVM backend does not support Go-backed stdlib module `"@ + m.mlang_name
                        + "` (import `"@ + module@
                        + "`) yet. Use `--target go` for stdlib/server builds."@,
                ),
                None => llvm_blocker(ss.drop_first()),
            },
            Statement::PackageDecl { .. } | Statement::Export { .. } => Some(
                "LLVM backend MVP does not support Phase 2 package/export declarations yet. Use `--target go` for module-system builds."@,
            ),
            _ => llvm_blocker(ss.drop_first()),
        }
    }
}

/// Why the LLVM backend cannot build a program, checked in this order:
/// local modules, Phase 4 features, Phase 3 features, then the top-level
/// statements; nothing when it can.
pub open spec fn llvm_message(p: Program, uses_local_modules: bool) -> Option<Seq<char>> {
    if uses_local_modules {
        Some(
            "LLVM backend MVP does not support local package/module imports yet. Use `--target go` for Phase 2 module-system builds."@,
        )
    } else if any_stmt_phase4(p.statements@) {
        Some(
            "LLVM backend MVP does not support Phase 4 features (`set_sae`, `baung`, context middleware, database runtime) yet. Use `--target go` for production/server features."@,
        )
    } else if any_stmt_phase3(p.statements@) {
        Some(
            "LLVM backend MVP does not support Phase 3 features (`kyoe`, `naut_sone`, `laung`, server/socket runtime) yet. Use `--target go` for concurrency and networking features."@,
        )
    } else {
        llvm_blocker(p.statements@)
    }
}

pub open spec fn opt_string_text(o: Option<String>) -> Option<Seq<char>> {
    match o {
        Some(s) => Some(s@),
        None => None,
    }
}

/// Why the LLVM backend cannot build a program, if it cannot.
pub fn llvm_unsupported_feature_message(program: &Program, uses_local_modules: bool) -> (r: Option<String>)
    ensures
        opt_string_text(r) == llvm_message(*program, uses_local_modules),
{
    if uses_local_modules {
        return Some(
            "LLVM backend MVP does not support local package/module imports yet. Use `--target go` for Phase 2 module-system builds.".to_owned(),
        );
    }
    if program_uses_phase4(program) {
        return Some(
            "LLVM backend MVP does not support Phase 4 features (`set_sae`, `baung`, context middleware, database runtime) yet. Use `--target go` for production/server features.".to_owned(),
        );
    }
    if program_uses_phase3(program) {
        return Some(
            "LLVM backend MVP does not support Phase 3 features (`kyoe`, `naut_sone`, `laung`, server/socket runtime) yet. Use `--target go` for concurrency and networking features.".to_owned(),
        );
    }
    let ss = &program.statements;
    let mut i: usize = 0;
    assert(ss@.subrange(0, ss.len() as int) =~= ss@);
    while i < ss.len()
        invariant
            i <= ss.len(),
            llvm_blocker(ss@.subrange(i as int, ss.len() as int)) == llvm_blocker(ss@),
            ss@ == program.statements@,
            !uses_local_modules,
            !any_stmt_phase4(program.statements@),
            !any_stmt_phase3(program.statements@),
        decreases ss.len() - i,
    {
        let ghost sub = ss@.subrange(i as int, ss.len() as int);
        assert(sub.drop_first() =~= ss@.subrange(i + 1, ss.len() as int));
        assert(sub[0] == ss@[i as int]);
        match &ss[i] {
            Statement::Import { module, .. } => {
                match resolve_stdlib_module(module.as_str()) {
                    Some(info) => {
                        let mut out: Vec<char> = Vec::new();
                        push_str(&mut out, "LLVM backend does not support Go-backed stdlib module `");
                        push_str(&mut out, info.mlang_name);
                        push_str(&mut out, "` (import `");
                        push_string(&mut out, module);
                        push_str(
                            &mut out,
                            "`) yet. Use `--target go` for stdlib/server builds.",
                        );
                        return Some(string_of(out.as_slice()));
                    },
                    None => {},
                }
            },
            Statement::PackageDecl { .. } | Statement::Export { .. } => {
                return Some(
                    "LLVM backend MVP does not support Phase 2 package/export declarations yet. Use `--target go` for module-system builds.".to_owned(),
                );
            },
            _ => {},
        }
        i = i + 1;
    }
    None
}


// ----------------------------------------------------------------------
// What the C backend refuses

/// The first import among the top-level statements `ss` that names a
/// standard library module, as the C backend reports it; nothing if none does.
pub open spec fn c_blocker(ss: Seq<Statement>) -> Option<Seq<char>>
    decreases ss.len(),
{
    if ss.len() == 0 {
        None
    } else {
        match ss[0] {
            Statement::Import { module, .. } => match stdlib_module(module@) {
                Some(m) => Some(
                    "C backend does not support stdlib module `"@ + m.mlang_name + "` (import `"@
                        + module@ + "`). Use `--target go`."@,
                ),
                None => c_blocker(ss.drop_first()),
            },
            _ => c_blocker(ss.drop_first()),
        }
    }
}

/// Why the C backend cannot build a program, checked in this order: Phase 4
/// features, Phase 3 features, then standard library imports; nothing when
/// it can.
pub open spec fn c_message(p: Program) -> Option<Seq<char>> {
    if any_stmt_phase4(p.statements@) {
        Some(
            "C backend does not support Phase 4 features (`set_sae`, `baung`, context middleware, database runtime). Use `--target go`."@,
        )
    } else if any_stmt_phase3(p.statements@) {
        Some(
            "C backend does not support Phase 3 features (`kyoe`, `naut_sone`, `laung`, server/socket runtime). Use `--target go`."@,
        )
    } else {
        c_blocker(p.statements@)
    }
}

/// Why the C backend cannot build a program, if it cannot.
pub fn c_backend_unsupported_message(program: &Program) -> (r: Option<String>)
    ensures
        opt_string_text(r) == c_message(*program),
{
    if program_uses_phase4(program) {
        return Some(
            "C backend does not support Phase 4 features (`set_sae`, `baung`, context middleware, database runtime). Use `--target go`.".to_owned(),
        );
    }
    if program_uses_phase3(program) {
        return Some(
            "C backend does not support Phase 3 features (`kyoe`, `naut_sone`, `laung`, server/socket runtime). Use `--target go`.".to_owned(),
        );
    }
    let ss = &program.statements;
    let mut i: usize = 0;
    assert(ss@.subrange(0, ss.len() as int) =~= ss@);
    while i < ss.len()
        invariant
            i <= ss.len(),
            c_blocker(ss@.subrange(i as int, ss.len() as int)) == c_blocker(ss@),
            ss@ == program.statements@,
            !any_stmt_phase4(program.statements@),
            !any_stmt_phase3(program.statements@),
        decreases ss.len() - i,
    {
        let ghost sub = ss@.subrange(i as int, ss.len() as int);
        assert(sub.drop_first() =~= ss@.subrange(i + 1, ss.len() as int));
        assert(sub[0] == ss@[i as int]);
        match &ss[i] {
            Statement::Import { module, .. } => {
                match resolve_stdlib_module(module.as_str()) {
                    Some(info) => {
                        let mut out: Vec<char> = Vec::new();
                        push_str(&mut out, "C backend does not support stdlib module `");
                        push_str(&mut out, info.mlang_name);
                        push_str(&mut out, "` (import `");
                        push_string(&mut out, module);
                        push_str(&mut out, "`). Use `--target go`.");
                        return Some(string_of(out.as_slice()));
                    },
                    None => {},
                }
            },
            _ => {},
        }
        i = i + 1;
    }
    None
}

/// Whether the statement at position `i` of `ss` imports a standard library
/// module.
pub open spec fn imports_stdlib_at(ss: Seq<Statement>, i: int) -> bool {
    &&& 0 <= i < ss.len()
    &&& ss[i] matches Statement::Import { module, .. } && stdlib_module(module@) is Some
}

proof fn lemma_blockers_found(ss: Seq<Statement>, i: int)
    requires
        imports_stdlib_at(ss, i),
    ensures
        c_blocker(ss) is Some,
        llvm_blocker(ss) is Some,
    decreases ss.len(),
{
    if i > 0 {
        assert(imports_stdlib_at(ss.drop_first(), i - 1)) by {
            assert(ss.drop_first()[i - 1] == ss[i]);
        }
        lemma_blockers_found(ss.drop_first(), i - 1);
    }
}

/// A program that imports a standard library module at its top level is
/// refused by the C backend and by the LLVM backend, with a message.
pub proof fn law_stdlib_import_refused(p: Program, i: int, uses_local_modules: bool)
    requires
        imports_stdlib_at(p.statements@, i),
    ensures
        c_message(p) is Some,
        llvm_message(p, uses_local_modules) is Some,
{
    lemma_blockers_found(p.statements@, i);
}

/// Why `--target c` cannot build a loaded program: first the use of local
/// modules, then what the C backend refuses; nothing when it can.
pub open spec fn c_target_message(p: Program, uses_local_modules: bool) -> Option<Seq<char>> {
    if uses_local_modules {
        Some("C backend does not support local package/module system. Use `--target go`."@)
    } else {
        c_message(p)
    }
}

/// Why `--target c` cannot build a loaded program, if it cannot.
pub fn c_target_unsupported_message(program: &Program, uses_local_modules: bool) -> (r: Option<String>)
    ensures
        opt_string_text(r) == c_target_message(*program, uses_local_modules),
{
    if uses_local_modules {
        return Some("C backend does not support local package/module system. Use `--target go`.".to_owned());
    }
    c_backend_unsupported_message(program)
}

} // verus!
