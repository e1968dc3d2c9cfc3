//! Syntax tree of M-Lang programs.
use vstd::prelude::*;

use crate::token::DecimalLiteral;

verus! {

#[derive(Debug, Clone, Copy, PartialEq, Eq, Structural, Default)]
pub struct Span {
    pub line: usize,
    pub column: usize,
}

#[derive(Debug, PartialEq)]
pub enum Type {
    Kain,
    Sar,
    Sit,
    DaTha,
    Baung,
    Nil,
    Error,
    Array(Box<Type>),
    Channel(Box<Type>),
    HashMap(Box<Type>, Box<Type>),
    Struct(String),
    Interface(String),
    Tuple(Vec<Type>),
    Function { params: Vec<Type>, return_type: Box<Type> },
}

/// A type as a plain value: names as characters, lists as sequences.
pub enum TypeModel {
    Kain,
    Sar,
    Sit,
    DaTha,
    Baung,
    Nil,
    Error,
    Array(Box<TypeModel>),
    Channel(Box<TypeModel>),
    Dict(Box<TypeModel>, Box<TypeModel>),
    Struct(Seq<char>),
    Interface(Seq<char>),
    Tuple(Seq<TypeModel>),
    Function(Seq<TypeModel>, Box<TypeModel>),
}

impl Type {
    pub open spec fn model(self) -> TypeModel
        decreases self,
    {
        match self {
            Type::Kain => TypeModel::Kain,
            Type::Sar => TypeModel::Sar,
            Type::Sit => TypeModel::Sit,
            Type::DaTha => TypeModel::DaTha,
            Type::Baung => TypeModel::Baung,
            Type::Nil => TypeModel::Nil,
            Type::Error => TypeModel::Error,
            Type::Array(t) => TypeModel::Array(Box::new(t.model())),
            Type::Channel(t) => TypeModel::Channel(Box::new(t.model())),
            Type::HashMap(k, v) => TypeModel::Dict(Box::new(k.model()), Box::new(v.model())),
            Type::Struct(n) => TypeModel::Struct(n@),
            Type::Interface(n) => TypeModel::Interface(n@),
            Type::Tuple(ts) => TypeModel::Tuple(models_of(ts@)),
            Type::Function { params, return_type } => TypeModel::Function(
                models_of(params@),
                Box::new(return_type.model()),
            ),
        }
    }
}

/// The models of a list of types.
pub open spec fn models_of(ts: Seq<Type>) -> Seq<TypeModel>
    decreases ts,
{
    if ts.len() == 0 {
        Seq::empty()
    } else {
        seq![ts[0].model()] + models_of(ts.drop_first())
    }
}


#[derive(Debug, PartialEq)]
pub enum Expression {
    IntegerLiteral(i64),
    FloatLiteral(DecimalLiteral),
    StringLiteral(String),
    BooleanLiteral(bool),
    NilLiteral,
    Identifier(String),
    Binary { left: Box<Expression>, operator: String, right: Box<Expression> },
    FunctionCall { function: String, arguments: Vec<Expression> },
    ArrayLiteral { elements: Vec<Expression> },
    HashLiteral { pairs: Vec<(Expression, Expression)> },
    IndexExpression { left: Box<Expression>, index: Box<Expression> },
    SliceExpression {
        left: Box<Expression>,
        low: Option<Box<Expression>>,
        high: Option<Box<Expression>>,
    },
    ReadInput { prompt: Box<Expression> },
    TypeConversion { target_type: Type, argument: Box<Expression> },
    MethodCall { object: Box<Expression>, method: String, arguments: Vec<Expression> },
    FieldAccess { object: Box<Expression>, field: String },
    StructLiteral { name: String, fields: Vec<(String, Expression)> },
    ClosureLiteral {
        parameters: Vec<(String, Type, Span)>,
        return_type: Type,
        body: BlockStatement,
    },
    ErrorCreate { message: Box<Expression> },
    TupleLiteral { elements: Vec<Expression> },
    ChannelMake { value_type: Box<Type>, capacity: Option<Box<Expression>> },
    BaungCreate { timeout_ms: Box<Expression> },
}

#[derive(Debug, PartialEq)]
pub enum IfAlternative {
    ElseIf(Box<Statement>),
    Else(BlockStatement),
}

#[derive(Debug, PartialEq)]
pub enum Statement {
    PackageDecl { name: String, name_span: Span },
    Let { name: String, value: Expression, ty: Type, name_span: Span },
    LetDestructured { names: Vec<(String, Type, Span)>, value: Expression },
    Assign { name: String, value: Expression, name_span: Span },
    FieldAssign { object: String, field: String, value: Expression, name_span: Span },
    IndexAssign { object: Expression, index: Expression, value: Expression, name_span: Span },
    If {
        condition: Expression,
        consequence: BlockStatement,
        alternative: Option<IfAlternative>,
    },
    While { condition: Expression, body: BlockStatement },
    Break,
    Continue,
    Go { call: Expression },
    Defer { call: Expression },
    TestDecl { name: String, body: BlockStatement, name_span: Span },
    ForIn {
        index: Option<String>,
        iterator: String,
        collection: Expression,
        body: BlockStatement,
        name_span: Span,
    },
    ForClassic {
        init: Option<Box<Statement>>,
        condition: Option<Expression>,
        post: Option<Box<Statement>>,
        body: BlockStatement,
    },
    FunctionDecl {
        name: String,
        parameters: Vec<(String, Type, Span)>,
        return_type: Type,
        body: BlockStatement,
        name_span: Span,
    },
    Return { value: Expression },
    Print { value: Expression },
    Import { module: String, name_span: Span },
    ExpressionStatement(Expression),
    StructDecl { name: String, fields: Vec<(String, Type)>, name_span: Span },
    MethodDecl {
        receiver_type: String,
        receiver_name: String,
        name: String,
        parameters: Vec<(String, Type, Span)>,
        return_type: Type,
        body: BlockStatement,
        name_span: Span,
    },
    InterfaceDecl {
        name: String,
        methods: Vec<(String, Vec<(String, Type)>, Type)>,
        name_span: Span,
    },
    Export { statement: Box<Statement>, name_span: Span },
}

#[derive(Debug, PartialEq)]
pub struct BlockStatement {
    pub statements: Vec<Statement>,
}

#[derive(Debug, PartialEq)]
pub struct Program {
    pub statements: Vec<Statement>,
}

pub proof fn lemma_models_of(ts: Seq<Type>)
    ensures
        models_of(ts).len() == ts.len(),
        forall|i: int| 0 <= i < ts.len() ==> #[trigger] models_of(ts)[i] == ts[i].model(),
    decreases ts.len(),
{
    if ts.len() > 0 {
        lemma_models_of(ts.drop_first());
        assert forall|i: int| 0 <= i < ts.len() implies #[trigger] models_of(ts)[i]
            == ts[i].model() by {
            if i > 0 {
                assert(ts.drop_first()[i - 1] == ts[i]);
            }
        }
    }
}


/// Two decimal literals with the same digits.
pub open spec fn same_decimal(a: DecimalLiteral, b: DecimalLiteral) -> bool {
    a.whole == b.whole && a.fraction@ == b.fraction@
}

/// Two parameter lists with the same names, types and places.
pub open spec fn same_params(a: Seq<(String, Type, Span)>, b: Seq<(String, Type, Span)>) -> bool {
    a.len() == b.len() && forall|i: int|
        #![trigger a[i], b[i]]
        0 <= i < a.len() ==> a[i].0@ == b[i].0@ && a[i].1.model() == b[i].1.model() && a[i].2
            == b[i].2
}

/// Two field lists with the same names and types.
pub open spec fn same_fields(a: Seq<(String, Type)>, b: Seq<(String, Type)>) -> bool {
    a.len() == b.len() && forall|i: int|
        #![trigger a[i], b[i]]
        0 <= i < a.len() ==> a[i].0@ == b[i].0@ && a[i].1.model() == b[i].1.model()
}

/// Two interface method lists with the same names, parameters and results.
pub open spec fn same_methods(
    a: Seq<(String, Vec<(String, Type)>, Type)>,
    b: Seq<(String, Vec<(String, Type)>, Type)>,
) -> bool {
    a.len() == b.len() && forall|i: int|
        #![trigger a[i], b[i]]
        0 <= i < a.len() ==> a[i].0@ == b[i].0@ && same_fields(a[i].1@, b[i].1@) && a[i].2.model()
            == b[i].2.model()
}

/// `b` is the same expression as `a`: the same variant, the same names
/// and literals, the same types, and the same parts, all the way down.
pub open spec fn same_expr(a: Expression, b: Expression) -> bool
    decreases a, 0nat,
{
    match a {
        Expression::IntegerLiteral(x) => b == Expression::IntegerLiteral(x),
        Expression::FloatLiteral(d) => b matches Expression::FloatLiteral(e) && same_decimal(d, e),
        Expression::StringLiteral(s) => b matches Expression::StringLiteral(t) && s@ == t@,
        Expression::BooleanLiteral(x) => b == Expression::BooleanLiteral(x),
        Expression::NilLiteral => b == Expression::NilLiteral,
        Expression::Identifier(s) => b matches Expression::Identifier(t) && s@ == t@,
        Expression::Binary { left, operator, right } => b matches Expression::Binary {
            left: l2,
            operator: o2,
            right: r2,
        } && same_expr(*left, *l2) && operator@ == o2@ && same_expr(*right, *r2),
        Expression::FunctionCall { function, arguments } => b matches Expression::FunctionCall {
            function: f2,
            arguments: a2,
        } && function@ == f2@ && arguments.len() == a2.len() && forall|i: int|
            0 <= i < arguments.len() ==> same_expr(#[trigger] arguments@[i], a2@[i]),
        Expression::ArrayLiteral { elements } => b matches Expression::ArrayLiteral {
            elements: e2,
        } && elements.len() == e2.len() && forall|i: int|
            0 <= i < elements.len() ==> same_expr(#[trigger] elements@[i], e2@[i]),
        Expression::HashLiteral { pairs } => b matches Expression::HashLiteral { pairs: p2 }
            && pairs.len() == p2.len() && forall|i: int|
            0 <= i < pairs.len() ==> same_expr(#[trigger] pairs@[i].0, p2@[i].0) && same_expr(
                pairs@[i].1,
                p2@[i].1,
            ),
        Expression::IndexExpression { left, index } => b matches Expression::IndexExpression {
            left: l2,
            index: i2,
        } && same_expr(*left, *l2) && same_expr(*index, *i2),
        Expression::SliceExpression { left, low, high } => b matches Expression::SliceExpression {
            left: l2,
            low: lo2,
            high: hi2,
        } && same_expr(*left, *l2) && (match low {
            Some(x) => lo2 matches Some(y) && same_expr(*x, *y),
            None => lo2 is None,
        }) && (match high {
            Some(x) => hi2 matches Some(y) && same_expr(*x, *y),
            None => hi2 is None,
        }),
        Expression::ReadInput { prompt } => b matches Expression::ReadInput { prompt: p2 }
            && same_expr(*prompt, *p2),
        Expression::TypeConversion { target_type, argument } => b matches Expression::TypeConversion {
            target_type: t2,
            argument: a2,
        } && target_type.model() == t2.model() && same_expr(*argument, *a2),
        Expression::MethodCall { object, method, arguments } => b matches Expression::MethodCall {
            object: o2,
            method: m2,
            arguments: a2,
        } && same_expr(*object, *o2) && method@ == m2@ && arguments.len() == a2.len() && forall|
            i: int,
        | 0 <= i < arguments.len() ==> same_expr(#[trigger] arguments@[i], a2@[i]),
        Expression::FieldAccess { object, field } => b matches Expression::FieldAccess {
            object: o2,
            field: f2,
        } && same_expr(*object, *o2) && field@ == f2@,
        Expression::StructLiteral { name, fields } => b matches Expression::StructLiteral {
            name: n2,
            fields: f2,
        } && name@ == n2@ && fields.len() == f2.len() && forall|i: int|
            0 <= i < fields.len() ==> (#[trigger] fields@[i]).0@ == f2@[i].0@ && same_expr(
                fields@[i].1,
                f2@[i].1,
            ),
        Expression::ClosureLiteral { parameters, return_type, body } => b matches Expression::ClosureLiteral {
            parameters: p2,
            return_type: r2,
            body: b2,
        } && same_params(parameters@, p2@) && return_type.model() == r2.model() && same_block(
            body,
            b2,
        ),
        Expression::ErrorCreate { message } => b matches Expression::ErrorCreate { message: m2 }
            && same_expr(*message, *m2),
        Expression::TupleLiteral { elements } => b matches Expression::TupleLiteral {
            elements: e2,
        } && elements.len() == e2.len() && forall|i: int|
            0 <= i < elements.len() ==> same_expr(#[trigger] elements@[i], e2@[i]),
        Expression::ChannelMake { value_type, capacity } => b matches Expression::ChannelMake {
            value_type: v2,
            capacity: c2,
        } && value_type.model() == v2.model() && (match capacity {
            Some(x) => c2 matches Some(y) && same_expr(*x, *y),
            None => c2 is None,
        }),
        Expression::BaungCreate { timeout_ms } => b matches Expression::BaungCreate {
            timeout_ms: t2,
        } && same_expr(*timeout_ms, *t2),
    }
}

/// `b` is the same block as `a`: the same statements, one for one.
pub open spec fn same_block(a: BlockStatement, b: BlockStatement) -> bool
    decreases a, 1nat,
{
    a.statements.len() == b.statements.len() && forall|i: int|
        0 <= i < a.statements.len() ==> same_stmt(
            #[trigger] a.statements@[i],
            b.statements@[i],
        )
}

/// `b` is the same statement as `a`: the same variant, names, places,
/// types and parts, all the way down.
pub open spec fn same_stmt(a: Statement, b: Statement) -> bool
    decreases a, 0nat,
{
    match a {
        Statement::PackageDecl { name, name_span } => b matches Statement::PackageDecl {
            name: n2,
            name_span: s2,
        } && name@ == n2@ && name_span == s2,
        Statement::Let { name, value, ty, name_span } => b matches Statement::Let {
            name: n2,
            value: v2,
            ty: t2,
            name_span: s2,
        } && name@ == n2@ && same_expr(value, v2) && ty.model() == t2.model() && name_span == s2,
        Statement::LetDestructured { names, value } => b matches Statement::LetDestructured {
            names: n2,
            value: v2,
        } && same_params(names@, n2@) && same_expr(value, v2),
        Statement::Assign { name, value, name_span } => b matches Statement::Assign {
            name: n2,
            value: v2,
            name_span: s2,
        } && name@ == n2@ && same_expr(value, v2) && name_span == s2,
        Statement::FieldAssign { object, field, value, name_span } => b matches Statement::FieldAssign {
            object: o2,
            field: f2,
            value: v2,
            name_span: s2,
        } && object@ == o2@ && field@ == f2@ && same_expr(value, v2) && name_span == s2,
        Statement::IndexAssign { object, index, value, name_span } => b matches Statement::IndexAssign {
            object: o2,
            index: i2,
            value: v2,
            name_span: s2,
        } && same_expr(object, o2) && same_expr(index, i2) && same_expr(value, v2) && name_span
            == s2,
        Statement::If { condition, consequence, alternative } => b matches Statement::If {
            condition: c2,
            consequence: q2,
            alternative: a2,
        } && same_expr(condition, c2) && same_block(consequence, q2) && (match alternative {
            Some(IfAlternative::ElseIf(inner)) => a2 matches Some(IfAlternative::ElseIf(i2))
                && same_stmt(*inner, *i2),
            Some(IfAlternative::Else(block)) => a2 matches Some(IfAlternative::Else(b2))
                && same_block(block, b2),
            None => a2 is None,
        }),
        Statement::While { condition, body } => b matches Statement::While {
            condition: c2,
            body: b2,
        } && same_expr(condition, c2) && same_block(body, b2),
        Statement::Break => b == Statement::Break,
        Statement::Continue => b == Statement::Continue,
        Statement::Go { call } => b matches Statement::Go { call: c2 } && same_expr(call, c2),
        Statement::Defer { call } => b matches Statement::Defer { call: c2 } && same_expr(call, c2),
        Statement::TestDecl { name, body, name_span } => b matches Statement::TestDecl {
            name: n2,
            body: b2,
            name_span: s2,
        } && name@ == n2@ && same_block(body, b2) && name_span == s2,
        Statement::ForIn { index, iterator, collection, body, name_span } => b matches Statement::ForIn {
            index: x2,
            iterator: it2,
            collection: c2,
            body: b2,
            name_span: s2,
        } && (match index {
            Some(x) => x2 matches Some(y) && x@ == y@,
            None => x2 is None,
        }) && iterator@ == it2@ && same_expr(collection, c2) && same_block(body, b2) && name_span
            == s2,
        Statement::ForClassic { init, condition, post, body } => b matches Statement::ForClassic {
            init: i2,
            condition: c2,
            post: p2,
            body: b2,
        } && (match init {
            Some(x) => i2 matches Some(y) && same_stmt(*x, *y),
            None => i2 is None,
        }) && (match condition {
            Some(x) => c2 matches Some(y) && same_expr(x, y),
            None => c2 is None,
        }) && (match post {
            Some(x) => p2 matches Some(y) && same_stmt(*x, *y),
            None => p2 is None,
        }) && same_block(body, b2),
        Statement::FunctionDecl { name, parameters, return_type, body, name_span } => b matches Statement::FunctionDecl {
            name: n2,
            parameters: p2,
            return_type: r2,
            body: b2,
            name_span: s2,
        } && name@ == n2@ && same_params(parameters@, p2@) && return_type.model() == r2.model()
            && same_block(body, b2) && name_span == s2,
        Statement::Return { value } => b matches Statement::Return { value: v2 } && same_expr(
            value,
            v2,
        ),
        Statement::Print { value } => b matches Statement::Print { value: v2 } && same_expr(
            value,
            v2,
        ),
        Statement::Import { module, name_span } => b matches Statement::Import {
            module: m2,
            name_span: s2,
        } && module@ == m2@ && name_span == s2,
        Statement::ExpressionStatement(e) => b matches Statement::ExpressionStatement(e2)
            && same_expr(e, e2),
        Statement::StructDecl { name, fields, name_span } => b matches Statement::StructDecl {
            name: n2,
            fields: f2,
            name_span: s2,
        } && name@ == n2@ && same_fields(fields@, f2@) && name_span == s2,
        Statement::MethodDecl {
            receiver_type,
            receiver_name,
            name,
            parameters,
            return_type,
            body,
            name_span,
        } => b matches Statement::MethodDecl {
            receiver_type: t2,
            receiver_name: rn2,
            name: n2,
            parameters: p2,
            return_type: r2,
            body: b2,
            name_span: s2,
        } && receiver_type@ == t2@ && receiver_name@ == rn2@ && name@ == n2@ && same_params(
            parameters@,
            p2@,
        ) && return_type.model() == r2.model() && same_block(body, b2) && name_span == s2,
        Statement::InterfaceDecl { name, methods, name_span } => b matches Statement::InterfaceDecl {
            name: n2,
            methods: m2,
            name_span: s2,
        } && name@ == n2@ && same_methods(methods@, m2@) && name_span == s2,
        Statement::Export { statement, name_span } => b matches Statement::Export {
            statement: st2,
            name_span: s2,
        } && same_stmt(*statement, *st2) && name_span == s2,
    }
}

/// An expression as a plain value: names as characters, lists as
/// sequences, types by their models.
pub enum ExprModel {
    Int(i64),
    Float(i64, Seq<u8>),
    Str(Seq<char>),
    Bool(bool),
    Nil,
    Ident(Seq<char>),
    Binary(Box<ExprModel>, Seq<char>, Box<ExprModel>),
    Call(Seq<char>, Seq<ExprModel>),
    Array(Seq<ExprModel>),
    Hash(Seq<(ExprModel, ExprModel)>),
    Index(Box<ExprModel>, Box<ExprModel>),
    Slice(Box<ExprModel>, Option<Box<ExprModel>>, Option<Box<ExprModel>>),
    ReadInput(Box<ExprModel>),
    Conversion(TypeModel, Box<ExprModel>),
    MethodCall(Box<ExprModel>, Seq<char>, Seq<ExprModel>),
    Field(Box<ExprModel>, Seq<char>),
    StructLit(Seq<char>, Seq<(Seq<char>, ExprModel)>),
    Closure(Seq<(Seq<char>, TypeModel, Span)>, TypeModel, Seq<StmtModel>),
    ErrorCreate(Box<ExprModel>),
    Tuple(Seq<ExprModel>),
    ChannelMake(TypeModel, Option<Box<ExprModel>>),
    BaungCreate(Box<ExprModel>),
}

/// The alternative of an `if` as a plain value.
pub enum AltModel {
    ElseIf(Box<StmtModel>),
    Else(Seq<StmtModel>),
}

/// A statement as a plain value.
pub enum StmtModel {
    PackageDecl(Seq<char>, Span),
    Let(Seq<char>, ExprModel, TypeModel, Span),
    LetDestructured(Seq<(Seq<char>, TypeModel, Span)>, ExprModel),
    Assign(Seq<char>, ExprModel, Span),
    FieldAssign(Seq<char>, Seq<char>, ExprModel, Span),
    IndexAssign(ExprModel, ExprModel, ExprModel, Span),
    If(ExprModel, Seq<StmtModel>, Option<AltModel>),
    While(ExprModel, Seq<StmtModel>),
    Break,
    Continue,
    Go(ExprModel),
    Defer(ExprModel),
    TestDecl(Seq<char>, Seq<StmtModel>, Span),
    ForIn(Option<Seq<char>>, Seq<char>, ExprModel, Seq<StmtModel>, Span),
    ForClassic(Option<Box<StmtModel>>, Option<ExprModel>, Option<Box<StmtModel>>, Seq<StmtModel>),
    FunctionDecl(Seq<char>, Seq<(Seq<char>, TypeModel, Span)>, TypeModel, Seq<StmtModel>, Span),
    Return(ExprModel),
    Print(ExprModel),
    Import(Seq<char>, Span),
    ExpressionStatement(ExprModel),
    StructDecl(Seq<char>, Seq<(Seq<char>, TypeModel)>, Span),
    MethodDecl(
        Seq<char>,
        Seq<char>,
        Seq<char>,
        Seq<(Seq<char>, TypeModel, Span)>,
        TypeModel,
        Seq<StmtModel>,
        Span,
    ),
    InterfaceDecl(Seq<char>, Seq<(Seq<char>, Seq<(Seq<char>, TypeModel)>, TypeModel)>, Span),
    Export(Box<StmtModel>, Span),
}

/// Parameters as plain values.
pub open spec fn param_models(v: Seq<(String, Type, Span)>) -> Seq<(Seq<char>, TypeModel, Span)> {
    Seq::new(v.len(), |i: int| (v[i].0@, v[i].1.model(), v[i].2))
}

/// Fields as plain values.
pub open spec fn field_models(v: Seq<(String, Type)>) -> Seq<(Seq<char>, TypeModel)> {
    Seq::new(v.len(), |i: int| (v[i].0@, v[i].1.model()))
}

/// Interface methods as plain values.
pub open spec fn method_models(v: Seq<(String, Vec<(String, Type)>, Type)>) -> Seq<
    (Seq<char>, Seq<(Seq<char>, TypeModel)>, TypeModel),
> {
    Seq::new(v.len(), |i: int| (v[i].0@, field_models(v[i].1@), v[i].2.model()))
}

/// The model of an expression.
pub open spec fn expr_model(e: Expression) -> ExprModel
    decreases e, 0nat,
{
    match e {
        Expression::IntegerLiteral(v) => ExprModel::Int(v),
        Expression::FloatLiteral(d) => ExprModel::Float(d.whole, d.fraction@),
        Expression::StringLiteral(v) => ExprModel::Str(v@),
        Expression::BooleanLiteral(b) => ExprModel::Bool(b),
        Expression::NilLiteral => ExprModel::Nil,
        Expression::Identifier(n) => ExprModel::Ident(n@),
        Expression::Binary { left, operator, right } => ExprModel::Binary(
            Box::new(expr_model(*left)),
            operator@,
            Box::new(expr_model(*right)),
        ),
        Expression::FunctionCall { function, arguments } => ExprModel::Call(
            function@,
            exprs_model(arguments@),
        ),
        Expression::ArrayLiteral { elements } => ExprModel::Array(exprs_model(elements@)),
        Expression::HashLiteral { pairs } => ExprModel::Hash(pairs_model(pairs@)),
        Expression::IndexExpression { left, index } => ExprModel::Index(
            Box::new(expr_model(*left)),
            Box::new(expr_model(*index)),
        ),
        Expression::SliceExpression { left, low, high } => ExprModel::Slice(
            Box::new(expr_model(*left)),
            match low {
                Some(x) => Some(Box::new(expr_model(*x))),
                None => None,
            },
            match high {
                Some(x) => Some(Box::new(expr_model(*x))),
                None => None,
            },
        ),
        Expression::ReadInput { prompt } => ExprModel::ReadInput(Box::new(expr_model(*prompt))),
        Expression::TypeConversion { target_type, argument } => ExprModel::Conversion(
            target_type.model(),
            Box::new(expr_model(*argument)),
        ),
        Expression::MethodCall { object, method, arguments } => ExprModel::MethodCall(
            Box::new(expr_model(*object)),
            method@,
            exprs_model(arguments@),
        ),
        Expression::FieldAccess { object, field } => ExprModel::Field(
            Box::new(expr_model(*object)),
            field@,
        ),
        Expression::StructLiteral { name, fields } => ExprModel::StructLit(
            name@,
            named_model(fields@),
        ),
        Expression::ClosureLiteral { parameters, return_type, body } => ExprModel::Closure(
            param_models(parameters@),
            return_type.model(),
            stmts_model(body.statements@),
        ),
        Expression::ErrorCreate { message } => ExprModel::ErrorCreate(
            Box::new(expr_model(*message)),
        ),
        Expression::TupleLiteral { elements } => ExprModel::Tuple(exprs_model(elements@)),
        Expression::ChannelMake { value_type, capacity } => ExprModel::ChannelMake(
            value_type.model(),
            match capacity {
                Some(x) => Some(Box::new(expr_model(*x))),
                None => None,
            },
        ),
        Expression::BaungCreate { timeout_ms } => ExprModel::BaungCreate(
            Box::new(expr_model(*timeout_ms)),
        ),
    }
}

/// The models of a list of expressions.
pub open spec fn exprs_model(s: Seq<Expression>) -> Seq<ExprModel>
    decreases s, 0nat,
{
    if s.len() == 0 {
        Seq::empty()
    } else {
        seq![expr_model(s[0])] + exprs_model(s.drop_first())
    }
}

/// The models of a list of key/value pairs.
pub open spec fn pairs_model(s: Seq<(Expression, Expression)>) -> Seq<(ExprModel, ExprModel)>
    decreases s, 0nat,
{
    if s.len() == 0 {
        Seq::empty()
    } else {
        seq![(expr_model(s[0].0), expr_model(s[0].1))] + pairs_model(s.drop_first())
    }
}

/// The models of a list of named values.
pub open spec fn named_model(s: Seq<(String, Expression)>) -> Seq<(Seq<char>, ExprModel)>
    decreases s, 0nat,
{
    if s.len() == 0 {
        Seq::empty()
    } else {
        seq![(s[0].0@, expr_model(s[0].1))] + named_model(s.drop_first())
    }
}

/// The model of a statement.
pub open spec fn stmt_model(st: Statement) -> StmtModel
    decreases st, 0nat,
{
    match st {
        Statement::PackageDecl { name, name_span } => StmtModel::PackageDecl(name@, name_span),
        Statement::Let { name, value, ty, name_span } => StmtModel::Let(
            name@,
            expr_model(value),
            ty.model(),
            name_span,
        ),
        Statement::LetDestructured { names, value } => StmtModel::LetDestructured(
            param_models(names@),
            expr_model(value),
        ),
        Statement::Assign { name, value, name_span } => StmtModel::Assign(
            name@,
            expr_model(value),
            name_span,
        ),
        Statement::FieldAssign { object, field, value, name_span } => StmtModel::FieldAssign(
            object@,
            field@,
            expr_model(value),
            name_span,
        ),
        Statement::IndexAssign { object, index, value, name_span } => StmtModel::IndexAssign(
            expr_model(object),
            expr_model(index),
            expr_model(value),
            name_span,
        ),
        Statement::If { condition, consequence, alternative } => StmtModel::If(
            expr_model(condition),
            stmts_model(consequence.statements@),
            match alternative {
                Some(IfAlternative::ElseIf(inner)) => Some(
                    AltModel::ElseIf(Box::new(stmt_model(*inner))),
                ),
                Some(IfAlternative::Else(b)) => Some(AltModel::Else(stmts_model(b.statements@))),
                None => None,
            },
        ),
        Statement::While { condition, body } => StmtModel::While(
            expr_model(condition),
            stmts_model(body.statements@),
        ),
        Statement::Break => StmtModel::Break,
        Statement::Continue => StmtModel::Continue,
        Statement::Go { call } => StmtModel::Go(expr_model(call)),
        Statement::Defer { call } => StmtModel::Defer(expr_model(call)),
        Statement::TestDecl { name, body, name_span } => StmtModel::TestDecl(
            name@,
            stmts_model(body.statements@),
            name_span,
        ),
        Statement::ForIn { index, iterator, collection, body, name_span } => StmtModel::ForIn(
            match index {
                Some(i) => Some(i@),
                None => None,
            },
            iterator@,
            expr_model(collection),
            stmts_model(body.statements@),
            name_span,
        ),
        Statement::ForClassic { init, condition, post, body } => StmtModel::ForClassic(
            match init {
                Some(x) => Some(Box::new(stmt_model(*x))),
                None => None,
            },
            match condition {
                Some(c) => Some(expr_model(c)),
                None => None,
            },
            match post {
                Some(x) => Some(Box::new(stmt_model(*x))),
                None => None,
            },
            stmts_model(body.statements@),
        ),
        Statement::FunctionDecl { name, parameters, return_type, body, name_span } => StmtModel::FunctionDecl(
            name@,
            param_models(parameters@),
            return_type.model(),
            stmts_model(body.statements@),
            name_span,
        ),
        Statement::Return { value } => StmtModel::Return(expr_model(value)),
        Statement::Print { value } => StmtModel::Print(expr_model(value)),
        Statement::Import { module, name_span } => StmtModel::Import(module@, name_span),
        Statement::ExpressionStatement(e) => StmtModel::ExpressionStatement(expr_model(e)),
        Statement::StructDecl { name, fields, name_span } => StmtModel::StructDecl(
            name@,
            field_models(fields@),
            name_span,
        ),
        Statement::MethodDecl {
            receiver_type,
            receiver_name,
            name,
            parameters,
            return_type,
            body,
            name_span,
        } => StmtModel::MethodDecl(
            receiver_type@,
            receiver_name@,
            name@,
            param_models(parameters@),
            return_type.model(),
            stmts_model(body.statements@),
            name_span,
        ),
        Statement::InterfaceDecl { name, methods, name_span } => StmtModel::InterfaceDecl(
            name@,
            method_models(methods@),
            name_span,
        ),
        Statement::Export { statement, name_span } => StmtModel::Export(
            Box::new(stmt_model(*statement)),
            name_span,
        ),
    }
}

/// The models of a list of statements.
pub open spec fn stmts_model(s: Seq<Statement>) -> Seq<StmtModel>
    decreases s, 0nat,
{
    if s.len() == 0 {
        Seq::empty()
    } else {
        seq![stmt_model(s[0])] + stmts_model(s.drop_first())
    }
}

/// The models of `s` extended by one statement.
pub proof fn lemma_stmts_model_push(s: Seq<Statement>, x: Statement)
    ensures
        stmts_model(s.push(x)) == stmts_model(s).push(stmt_model(x)),
    decreases s.len(),
{
    if s.len() == 0 {
        assert(s.push(x).drop_first() =~= Seq::<Statement>::empty());
        assert(stmts_model(Seq::<Statement>::empty()) =~= Seq::<StmtModel>::empty());
    } else {
        assert(s.push(x).drop_first() =~= s.drop_first().push(x));
        lemma_stmts_model_push(s.drop_first(), x);
    }
}

/// The models of `s` extended by one expression.
pub proof fn lemma_exprs_model_push(s: Seq<Expression>, x: Expression)
    ensures
        exprs_model(s.push(x)) == exprs_model(s).push(expr_model(x)),
    decreases s.len(),
{
    if s.len() == 0 {
        assert(s.push(x).drop_first() =~= Seq::<Expression>::empty());
        assert(exprs_model(Seq::<Expression>::empty()) =~= Seq::<ExprModel>::empty());
    } else {
        assert(s.push(x).drop_first() =~= s.drop_first().push(x));
        lemma_exprs_model_push(s.drop_first(), x);
    }
}

/// The models of `s` extended by one pair.
pub proof fn lemma_pairs_model_push(s: Seq<(Expression, Expression)>, x: (Expression, Expression))
    ensures
        pairs_model(s.push(x)) == pairs_model(s).push((expr_model(x.0), expr_model(x.1))),
    decreases s.len(),
{
    if s.len() == 0 {
        assert(s.push(x).drop_first() =~= Seq::<(Expression, Expression)>::empty());
        assert(pairs_model(Seq::<(Expression, Expression)>::empty()) =~= Seq::<(ExprModel, ExprModel)>::empty());
    } else {
        assert(s.push(x).drop_first() =~= s.drop_first().push(x));
        lemma_pairs_model_push(s.drop_first(), x);
    }
}

/// The models of `s` extended by one named value.
pub proof fn lemma_named_model_push(s: Seq<(String, Expression)>, x: (String, Expression))
    ensures
        named_model(s.push(x)) == named_model(s).push((x.0@, expr_model(x.1))),
    decreases s.len(),
{
    if s.len() == 0 {
        assert(s.push(x).drop_first() =~= Seq::<(String, Expression)>::empty());
        assert(named_model(Seq::<(String, Expression)>::empty()) =~= Seq::<(Seq<char>, ExprModel)>::empty());
    } else {
        assert(s.push(x).drop_first() =~= s.drop_first().push(x));
        lemma_named_model_push(s.drop_first(), x);
    }
}

/// A copy of a list of types.
pub fn copy_types(ts: &Vec<Type>) -> (r: Vec<Type>)
    ensures
        models_of(r@) == models_of(ts@),
    decreases ts@, 0nat,
{
    let mut out: Vec<Type> = Vec::new();
    let mut i: usize = 0;
    while i < ts.len()
        invariant
            i <= ts.len(),
            out.len() == i,
            forall|k: int| 0 <= k < i ==> (#[trigger] out@[k]).model() == ts@[k].model(),
        decreases ts.len() - i,
    {
        let t = copy_type(&ts[i]);
        out.push(t);
        i = i + 1;
    }
    proof {
        lemma_models_of(out@);
        lemma_models_of(ts@);
        assert(models_of(out@) =~= models_of(ts@));
    }
    out
}

/// A copy of a type.
pub fn copy_type(t: &Type) -> (r: Type)
    ensures
        r.model() == t.model(),
    decreases t, 1nat,
{
    match t {
        Type::Kain => Type::Kain,
        Type::Sar => Type::Sar,
        Type::Sit => Type::Sit,
        Type::DaTha => Type::DaTha,
        Type::Baung => Type::Baung,
        Type::Nil => Type::Nil,
        Type::Error => Type::Error,
        Type::Array(inner) => Type::Array(Box::new(copy_type(inner))),
        Type::Channel(inner) => Type::Channel(Box::new(copy_type(inner))),
        Type::HashMap(k, v) => Type::HashMap(Box::new(copy_type(k)), Box::new(copy_type(v))),
        Type::Struct(n) => Type::Struct(n.clone()),
        Type::Interface(n) => Type::Interface(n.clone()),
        Type::Tuple(ts) => Type::Tuple(copy_types(ts)),
        Type::Function { params, return_type } => Type::Function {
            params: copy_types(params),
            return_type: Box::new(copy_type(return_type)),
        },
    }
}

impl Clone for Type {
    fn clone(&self) -> (r: Type)
        ensures
            r.model() == self.model(),
    {
        copy_type(self)
    }
}

fn copy_opt_expr(e: &Option<Box<Expression>>) -> (r: Option<Box<Expression>>)
    ensures
        match *e {
            Some(x) => r matches Some(y) && same_expr(*x, *y),
            None => r is None,
        },
    decreases e, 0nat,
{
    match e {
        Some(b) => Some(Box::new(copy_expr(b))),
        None => None,
    }
}

fn copy_exprs(es: &Vec<Expression>) -> (r: Vec<Expression>)
    ensures
        r.len() == es.len(),
        forall|i: int| 0 <= i < es.len() ==> same_expr(#[trigger] es@[i], r@[i]),
    decreases es@, 0nat,
{
    let mut out: Vec<Expression> = Vec::new();
    let mut i: usize = 0;
    while i < es.len()
        invariant
            i <= es.len(),
            out.len() == i,
            forall|k: int| 0 <= k < i ==> same_expr(#[trigger] es@[k], out@[k]),
        decreases es.len() - i,
    {
        out.push(copy_expr(&es[i]));
        i = i + 1;
    }
    out
}

fn copy_params(ps: &Vec<(String, Type, Span)>) -> (r: Vec<(String, Type, Span)>)
    ensures
        same_params(ps@, r@),
{
    let mut out: Vec<(String, Type, Span)> = Vec::new();
    let mut i: usize = 0;
    while i < ps.len()
        invariant
            i <= ps.len(),
            out.len() == i,
            forall|k: int|
                #![trigger ps@[k], out@[k]]
                0 <= k < i ==> ps@[k].0@ == out@[k].0@ && ps@[k].1.model() == out@[k].1.model()
                    && ps@[k].2 == out@[k].2,
        decreases ps.len() - i,
    {
        out.push((ps[i].0.clone(), copy_type(&ps[i].1), ps[i].2));
        i = i + 1;
    }
    out
}

fn copy_fields(ps: &Vec<(String, Type)>) -> (r: Vec<(String, Type)>)
    ensures
        same_fields(ps@, r@),
{
    let mut out: Vec<(String, Type)> = Vec::new();
    let mut i: usize = 0;
    while i < ps.len()
        invariant
            i <= ps.len(),
            out.len() == i,
            forall|k: int|
                #![trigger ps@[k], out@[k]]
                0 <= k < i ==> ps@[k].0@ == out@[k].0@ && ps@[k].1.model() == out@[k].1.model(),
        decreases ps.len() - i,
    {
        out.push((ps[i].0.clone(), copy_type(&ps[i].1)));
        i = i + 1;
    }
    out
}

fn copy_pairs(ps: &Vec<(Expression, Expression)>) -> (r: Vec<(Expression, Expression)>)
    ensures
        r.len() == ps.len(),
        forall|i: int|
            0 <= i < ps.len() ==> same_expr(#[trigger] ps@[i].0, r@[i].0) && same_expr(
                ps@[i].1,
                r@[i].1,
            ),
    decreases ps@, 0nat,
{
    let mut out: Vec<(Expression, Expression)> = Vec::new();
    let mut i: usize = 0;
    while i < ps.len()
        invariant
            i <= ps.len(),
            out.len() == i,
            forall|k: int|
                0 <= k < i ==> same_expr(#[trigger] ps@[k].0, out@[k].0) && same_expr(
                    ps@[k].1,
                    out@[k].1,
                ),
        decreases ps.len() - i,
    {
        let k = copy_expr(&ps[i].0);
        let v = copy_expr(&ps[i].1);
        out.push((k, v));
        i = i + 1;
    }
    out
}

fn copy_named(ps: &Vec<(String, Expression)>) -> (r: Vec<(String, Expression)>)
    ensures
        r.len() == ps.len(),
        forall|i: int|
            0 <= i < ps.len() ==> (#[trigger] ps@[i]).0@ == r@[i].0@ && same_expr(
                ps@[i].1,
                r@[i].1,
            ),
    decreases ps@, 0nat,
{
    let mut out: Vec<(String, Expression)> = Vec::new();
    let mut i: usize = 0;
    while i < ps.len()
        invariant
            i <= ps.len(),
            out.len() == i,
            forall|k: int|
                0 <= k < i ==> (#[trigger] ps@[k]).0@ == out@[k].0@ && same_expr(
                    ps@[k].1,
                    out@[k].1,
                ),
        decreases ps.len() - i,
    {
        let v = copy_expr(&ps[i].1);
        out.push((ps[i].0.clone(), v));
        i = i + 1;
    }
    out
}

fn copy_expr(e: &Expression) -> (r: Expression)
    ensures
        same_expr(*e, r),
    decreases e, 1nat,
{
    match e {
        Expression::IntegerLiteral(v) => Expression::IntegerLiteral(*v),
        Expression::FloatLiteral(d) => Expression::FloatLiteral(
            DecimalLiteral { whole: d.whole, fraction: d.fraction.clone() },
        ),
        Expression::StringLiteral(v) => Expression::StringLiteral(v.clone()),
        Expression::BooleanLiteral(b) => Expression::BooleanLiteral(*b),
        Expression::NilLiteral => Expression::NilLiteral,
        Expression::Identifier(n) => Expression::Identifier(n.clone()),
        Expression::Binary { left, operator, right } => Expression::Binary {
            left: Box::new(copy_expr(left)),
            operator: operator.clone(),
            right: Box::new(copy_expr(right)),
        },
        Expression::FunctionCall { function, arguments } => Expression::FunctionCall {
            function: function.clone(),
            arguments: copy_exprs(arguments),
        },
        Expression::ArrayLiteral { elements } => Expression::ArrayLiteral {
            elements: copy_exprs(elements),
        },
        Expression::HashLiteral { pairs } => Expression::HashLiteral { pairs: copy_pairs(pairs) },
        Expression::IndexExpression { left, index } => Expression::IndexExpression {
            left: Box::new(copy_expr(left)),
            index: Box::new(copy_expr(index)),
        },
        Expression::SliceExpression { left, low, high } => Expression::SliceExpression {
            left: Box::new(copy_expr(left)),
            low: copy_opt_expr(low),
            high: copy_opt_expr(high),
        },
        Expression::ReadInput { prompt } => Expression::ReadInput {
            prompt: Box::new(copy_expr(prompt)),
        },
        Expression::TypeConversion { target_type, argument } => Expression::TypeConversion {
            target_type: copy_type(target_type),
            argument: Box::new(copy_expr(argument)),
        },
        Expression::MethodCall { object, method, arguments } => Expression::MethodCall {
            object: Box::new(copy_expr(object)),
            method: method.clone(),
            arguments: copy_exprs(arguments),
        },
        Expression::FieldAccess { object, field } => Expression::FieldAccess {
            object: Box::new(copy_expr(object)),
            field: field.clone(),
        },
        Expression::StructLiteral { name, fields } => Expression::StructLiteral {
            name: name.clone(),
            fields: copy_named(fields),
        },
        Expression::ClosureLiteral { parameters, return_type, body } => {
            Expression::ClosureLiteral {
                parameters: copy_params(parameters),
                return_type: copy_type(return_type),
                body: copy_block(body),
            }
        },
        Expression::ErrorCreate { message } => Expression::ErrorCreate {
            message: Box::new(copy_expr(message)),
        },
        Expression::TupleLiteral { elements } => Expression::TupleLiteral {
            elements: copy_exprs(elements),
        },
        Expression::ChannelMake { value_type, capacity } => Expression::ChannelMake {
            value_type: Box::new(copy_type(value_type)),
            capacity: copy_opt_expr(capacity),
        },
        Expression::BaungCreate { timeout_ms } => Expression::BaungCreate {
            timeout_ms: Box::new(copy_expr(timeout_ms)),
        },
    }
}

fn copy_block(b: &BlockStatement) -> (r: BlockStatement)
    ensures
        same_block(*b, r),
    decreases b, 2nat,
{
    BlockStatement { statements: copy_stmts(&b.statements) }
}

fn copy_stmts(ss: &Vec<Statement>) -> (r: Vec<Statement>)
    ensures
        r.len() == ss.len(),
        forall|i: int| 0 <= i < ss.len() ==> same_stmt(#[trigger] ss@[i], r@[i]),
    decreases ss@, 0nat,
{
    let mut out: Vec<Statement> = Vec::new();
    let mut i: usize = 0;
    while i < ss.len()
        invariant
            i <= ss.len(),
            out.len() == i,
            forall|k: int| 0 <= k < i ==> same_stmt(#[trigger] ss@[k], out@[k]),
        decreases ss.len() - i,
    {
        out.push(copy_stmt(&ss[i]));
        i = i + 1;
    }
    out
}

fn copy_opt_stmt(s: &Option<Box<Statement>>) -> (r: Option<Box<Statement>>)
    ensures
        match *s {
            Some(x) => r matches Some(y) && same_stmt(*x, *y),
            None => r is None,
        },
    decreases s, 0nat,
{
    match s {
        Some(b) => Some(Box::new(copy_stmt(b))),
        None => None,
    }
}

fn copy_methods(ms: &Vec<(String, Vec<(String, Type)>, Type)>) -> (r: Vec<
    (String, Vec<(String, Type)>, Type),
>)
    ensures
        same_methods(ms@, r@),
{
    let mut out: Vec<(String, Vec<(String, Type)>, Type)> = Vec::new();
    let mut i: usize = 0;
    while i < ms.len()
        invariant
            i <= ms.len(),
            out.len() == i,
            forall|k: int|
                #![trigger ms@[k], out@[k]]
                0 <= k < i ==> ms@[k].0@ == out@[k].0@ && same_fields(ms@[k].1@, out@[k].1@)
                    && ms@[k].2.model() == out@[k].2.model(),
        decreases ms.len() - i,
    {
        out.push((ms[i].0.clone(), copy_fields(&ms[i].1), copy_type(&ms[i].2)));
        i = i + 1;
    }
    out
}

fn copy_stmt(s: &Statement) -> (r: Statement)
    ensures
        same_stmt(*s, r),
    decreases s, 1nat,
{
    match s {
        Statement::PackageDecl { name, name_span } => Statement::PackageDecl {
            name: name.clone(),
            name_span: *name_span,
        },
        Statement::Let { name, value, ty, name_span } => Statement::Let {
            name: name.clone(),
            value: copy_expr(value),
            ty: copy_type(ty),
            name_span: *name_span,
        },
        Statement::LetDestructured { names, value } => Statement::LetDestructured {
            names: copy_params(names),
            value: copy_expr(value),
        },
        Statement::Assign { name, value, name_span } => Statement::Assign {
            name: name.clone(),
            value: copy_expr(value),
            name_span: *name_span,
        },
        Statement::FieldAssign { object, field, value, name_span } => Statement::FieldAssign {
            object: object.clone(),
            field: field.clone(),
            value: copy_expr(value),
            name_span: *name_span,
        },
        Statement::IndexAssign { object, index, value, name_span } => Statement::IndexAssign {
            object: copy_expr(object),
            index: copy_expr(index),
            value: copy_expr(value),
            name_span: *name_span,
        },
        Statement::If { condition, consequence, alternative } => Statement::If {
            condition: copy_expr(condition),
            consequence: copy_block(consequence),
            alternative: match alternative {
                Some(IfAlternative::ElseIf(inner)) => Some(
                    IfAlternative::ElseIf(Box::new(copy_stmt(inner))),
                ),
                Some(IfAlternative::Else(block)) => Some(IfAlternative::Else(copy_block(block))),
                None => None,
            },
        },
        Statement::While { condition, body } => Statement::While {
            condition: copy_expr(condition),
            body: copy_block(body),
        },
        Statement::Break => Statement::Break,
        Statement::Continue => Statement::Continue,
        Statement::Go { call } => Statement::Go { call: copy_expr(call) },
        Statement::Defer { call } => Statement::Defer { call: copy_expr(call) },
        Statement::TestDecl { name, body, name_span } => Statement::TestDecl {
            name: name.clone(),
            body: copy_block(body),
            name_span: *name_span,
        },
        Statement::ForIn { index, iterator, collection, body, name_span } => Statement::ForIn {
            index: match index {
                Some(i) => Some(i.clone()),
                None => None,
            },
            iterator: iterator.clone(),
            collection: copy_expr(collection),
            body: copy_block(body),
            name_span: *name_span,
        },
        Statement::ForClassic { init, condition, post, body } => Statement::ForClassic {
            init: copy_opt_stmt(init),
            condition: match condition {
                Some(c) => Some(copy_expr(c)),
                None => None,
            },
            post: copy_opt_stmt(post),
            body: copy_block(body),
        },
        Statement::FunctionDecl { name, parameters, return_type, body, name_span } => {
            Statement::FunctionDecl {
                name: name.clone(),
                parameters: copy_params(parameters),
                return_type: copy_type(return_type),
                body: copy_block(body),
                name_span: *name_span,
            }
        },
        Statement::Return { value } => Statement::Return { value: copy_expr(value) },
        Statement::Print { value } => Statement::Print { value: copy_expr(value) },
        Statement::Import { module, name_span } => Statement::Import {
            module: module.clone(),
            name_span: *name_span,
        },
        Statement::ExpressionStatement(e) => Statement::ExpressionStatement(copy_expr(e)),
        Statement::StructDecl { name, fields, name_span } => Statement::StructDecl {
            name: name.clone(),
            fields: copy_fields(fields),
            name_span: *name_span,
        },
        Statement::MethodDecl {
            receiver_type,
            receiver_name,
            name,
            parameters,
            return_type,
            body,
            name_span,
        } => Statement::MethodDecl {
            receiver_type: receiver_type.clone(),
            receiver_name: receiver_name.clone(),
            name: name.clone(),
            parameters: copy_params(parameters),
            return_type: copy_type(return_type),
            body: copy_block(body),
            name_span: *name_span,
        },
        Statement::InterfaceDecl { name, methods, name_span } => Statement::InterfaceDecl {
            name: name.clone(),
            methods: copy_methods(methods),
            name_span: *name_span,
        },
        Statement::Export { statement, name_span } => Statement::Export {
            statement: Box::new(copy_stmt(statement)),
            name_span: *name_span,
        },
    }
}

impl Clone for Expression {
    fn clone(&self) -> (r: Expression)
        ensures
            same_expr(*self, r),
    {
        copy_expr(self)
    }
}

impl Clone for Statement {
    fn clone(&self) -> (r: Statement)
        ensures
            same_stmt(*self, r),
    {
        copy_stmt(self)
    }
}

impl Clone for IfAlternative {
    fn clone(&self) -> (r: IfAlternative)
        ensures
            match *self {
                IfAlternative::ElseIf(x) => r matches IfAlternative::ElseIf(y) && same_stmt(*x, *y),
                IfAlternative::Else(b) => r matches IfAlternative::Else(c) && same_block(b, c),
            },
    {
        match self {
            IfAlternative::ElseIf(inner) => IfAlternative::ElseIf(Box::new(copy_stmt(inner))),
            IfAlternative::Else(block) => IfAlternative::Else(copy_block(block)),
        }
    }
}

impl Clone for BlockStatement {
    fn clone(&self) -> (r: BlockStatement)
        ensures
            same_block(*self, r),
    {
        copy_block(self)
    }
}

impl Clone for Program {
    fn clone(&self) -> (r: Program)
        ensures
            r.statements.len() == self.statements.len(),
            forall|i: int|
                0 <= i < self.statements.len() ==> same_stmt(
                    #[trigger] self.statements@[i],
                    r.statements@[i],
                ),
    {
        Program { statements: copy_stmts(&self.statements) }
    }
}
} // verus!
