//! Static type checker for M-Lang programs.
use vstd::prelude::*;

use crate::ast::{BlockStatement, Expression, IfAlternative, Program, Span, Statement, models_of, Type, TypeModel};
use crate::render::{nat_digits, push_quoted, push_usize, quoted};
use crate::stdlib::{field_models, resolve_stdlib_module, stdlib_module};
use crate::text::{push_str, push_string, string_of};

verus! {

// ----------------------------------------------------------------------
// Symbols and environments

/// A name in scope: its type, whether it names a function, and the
/// function's parameter types.
#[derive(Debug)]
pub struct Symbol {
    pub ty: Type,
    pub is_function: bool,
    pub parameters: Vec<Type>,
}

/// A symbol as plain values.
pub struct SymbolModel {
    pub ty: TypeModel,
    pub is_function: bool,
    pub parameters: Seq<TypeModel>,
}

impl Symbol {
    pub open spec fn model(self) -> SymbolModel {
        SymbolModel { ty: self.ty.model(), is_function: self.is_function, parameters: models_of(self.parameters@) }
    }

    /// A copy of the symbol.
    pub fn duplicate(&self) -> (r: Symbol)
        ensures
            r.model() == self.model(),
    {
        Symbol {
            ty: self.ty.clone(),
            is_function: self.is_function,
            parameters: crate::ast::copy_types(&self.parameters),
        }
    }
}

impl Clone for Symbol {
    fn clone(&self) -> (r: Symbol)
        ensures
            r.model() == self.model(),
    {
        self.duplicate()
    }
}

/// The bindings of one scope, in the order they were made; a later binding
/// of a name hides an earlier one.
pub open spec fn scope_map(v: Seq<(String, Symbol)>) -> Map<Seq<char>, SymbolModel>
    decreases v.len(),
{
    if v.len() == 0 {
        Map::empty()
    } else {
        scope_map(v.drop_last()).insert(v.last().0@, v.last().1.model())
    }
}

/// Nested scopes: the names declared in each, innermost last.
#[derive(Debug)]
pub struct Environment {
    pub store: Vec<(String, Symbol)>,
    pub outer: Option<Box<Environment>>,
}

/// What a name means in nested scopes (innermost last): its binding in the
/// innermost scope that has one.
pub open spec fn scopes_lookup(scopes: Seq<Map<Seq<char>, SymbolModel>>, name: Seq<char>) -> Option<
    SymbolModel,
>
    decreases scopes.len(),
{
    if scopes.len() == 0 {
        None
    } else if scopes.last().contains_key(name) {
        Some(scopes.last()[name])
    } else {
        scopes_lookup(scopes.drop_last(), name)
    }
}

/// The scopes after binding `name` in the innermost one.
pub open spec fn scopes_set(scopes: Seq<Map<Seq<char>, SymbolModel>>, name: Seq<char>, s: SymbolModel) -> Seq<
    Map<Seq<char>, SymbolModel>,
> {
    if scopes.len() == 0 {
        seq![Map::empty().insert(name, s)]
    } else {
        scopes.update(scopes.len() - 1, scopes.last().insert(name, s))
    }
}

impl Environment {
    /// The scopes of the environment, outermost first.
    pub open spec fn scopes(self) -> Seq<Map<Seq<char>, SymbolModel>>
        decreases self,
    {
        match self.outer {
            Some(o) => o.scopes().push(scope_map(self.store@)),
            None => seq![scope_map(self.store@)],
        }
    }

    /// What a name means here.
    pub open spec fn lookup(self, name: Seq<char>) -> Option<SymbolModel> {
        scopes_lookup(self.scopes(), name)
    }

    /// An empty environment.
    pub fn new() -> (e: Environment)
        ensures
            e.scopes() == seq![Map::<Seq<char>, SymbolModel>::empty()],
    {
        Environment { store: Vec::new(), outer: None }
    }

    /// A new innermost scope around `outer`.
    pub fn new_enclosed(outer: Environment) -> (e: Environment)
        ensures
            e.scopes() == outer.scopes().push(Map::empty()),
    {
        Environment { store: Vec::new(), outer: Some(Box::new(outer)) }
    }

    /// What a name means here: the symbol of its innermost binding.
    #[verifier::spinoff_prover]
    pub fn get(&self, name: &str) -> (r: Option<Symbol>)
        ensures
            match r {
                Some(s) => self.lookup(name@) == Some(s.model()),
                None => self.lookup(name@) is None,
            },
        decreases self,
    {
        let mut i = self.store.len();
        assert(self.store@.subrange(0, i as int) =~= self.store@);
        while i > 0
            invariant
                i <= self.store.len(),
                scope_map(self.store@.subrange(0, i as int)).contains_key(name@) == scope_map(
                    self.store@,
                ).contains_key(name@),
                scope_map(self.store@.subrange(0, i as int)).contains_key(name@) ==> scope_map(
                    self.store@.subrange(0, i as int),
                )[name@] == scope_map(self.store@)[name@],
            decreases i,
        {
            let ghost pre = self.store@.subrange(0, i as int);
            assert(pre.drop_last() =~= self.store@.subrange(0, i - 1));
            if crate::text::str_eq(self.store[i - 1].0.as_str(), name) {
                assert(pre.last() == self.store@[i - 1]);
                return Some(self.store[i - 1].1.duplicate());
            }
            i = i - 1;
        }
        assert(scope_map(self.store@.subrange(0, 0)) =~= Map::<Seq<char>, SymbolModel>::empty());
        match &self.outer {
            Some(o) => {
                assert(self.scopes() == o.scopes().push(scope_map(self.store@)));
                assert(!scope_map(self.store@).contains_key(name@));
                assert(o.scopes().push(scope_map(self.store@)).drop_last() =~= o.scopes());
                assert(self.lookup(name@) == o.lookup(name@));
                let r = o.get(name);
                assert(r is None ==> self.lookup(name@) is None);
                r
            },
            None => {
                assert(self.scopes() == seq![scope_map(self.store@)]);
                assert(!scope_map(self.store@).contains_key(name@));
                assert(self.scopes().drop_last() =~= Seq::<Map<Seq<char>, SymbolModel>>::empty());
                assert(scopes_lookup(Seq::<Map<Seq<char>, SymbolModel>>::empty(), name@) is None);
                assert(self.lookup(name@) is None);
                None
            },
        }
    }

    /// Binds `name` to `symbol` in the innermost scope.
    pub fn set(&mut self, name: String, symbol: Symbol)
        ensures
            final(self).scopes() == scopes_set(old(self).scopes(), name@, symbol.model()),
    {
        let ghost n = name@;
        let ghost m = symbol.model();
        self.store.push((name, symbol));
        proof {
            let os = old(self).scopes();
            assert(self.store@.drop_last() =~= old(self).store@);
            assert(self.scopes() =~= os.update(os.len() - 1, os.last().insert(n, m)));
        }
    }
}

/// After binding a name, looking it up gives the new symbol, and every other
/// name means what it meant before.
pub proof fn law_lookup_after_set(
    scopes: Seq<Map<Seq<char>, SymbolModel>>,
    name: Seq<char>,
    s: SymbolModel,
    other: Seq<char>,
)
    ensures
        scopes_lookup(scopes_set(scopes, name, s), name) == Some(s),
        other != name ==> scopes_lookup(scopes_set(scopes, name, s), other) == scopes_lookup(
            scopes,
            other,
        ),
{
    let t = scopes_set(scopes, name, s);
    if scopes.len() > 0 {
        assert(t.drop_last() =~= scopes.drop_last());
        assert(t.last() == scopes.last().insert(name, s));
        if other != name {
            assert(t.last().contains_key(other) == scopes.last().contains_key(other));
            if scopes.last().contains_key(other) {
                assert(t.last()[other] == scopes.last()[other]);
                assert(scopes_lookup(t, other) == Some(scopes.last()[other]));
            } else {
                assert(scopes_lookup(t, other) == scopes_lookup(t.drop_last(), other));
                assert(scopes_lookup(scopes, other) == scopes_lookup(scopes.drop_last(), other));
            }
        }
    } else {
        assert(t.drop_last() =~= Seq::<Map<Seq<char>, SymbolModel>>::empty());
        if other != name {
            assert(!t.last().contains_key(other));
        }
    }
}

/// A new scope hides nothing: every name means what it meant outside.
pub proof fn law_enclosed_scope_sees_outer(scopes: Seq<Map<Seq<char>, SymbolModel>>, name: Seq<char>)
    ensures
        scopes_lookup(scopes.push(Map::empty()), name) == scopes_lookup(scopes, name),
{
    assert(scopes.push(Map::empty()).drop_last() =~= scopes);
}

// ----------------------------------------------------------------------
// Type compatibility

/// Whether a value of type `actual` can be used where `expected` is wanted:
/// nil fits everything, tuples and function types compare part by part,
/// other types must be equal.
pub open spec fn assignable(expected: TypeModel, actual: TypeModel) -> bool
    decreases expected, 1nat,
{
    if actual == TypeModel::Nil {
        true
    } else {
        match (expected, actual) {
            (TypeModel::Tuple(es), TypeModel::Tuple(acts)) => es.len() == acts.len()
                && all_assignable(es, acts),
            (TypeModel::Function(ep, er), TypeModel::Function(ap, ar)) => ep.len() == ap.len()
                && all_assignable(ep, ap) && assignable(*er, *ar),
            _ => expected == actual,
        }
    }
}

pub open spec fn all_assignable(es: Seq<TypeModel>, acts: Seq<TypeModel>) -> bool
    decreases es, 0nat,
{
    if es.len() == 0 {
        true
    } else {
        acts.len() > 0 && assignable(es[0], acts[0]) && all_assignable(es.drop_first(), acts.drop_first())
    }
}

/// Element lists of the same length accept each other exactly when each
/// element accepts its counterpart.
proof fn lemma_all_assignable_pairwise(es: Seq<TypeModel>, acts: Seq<TypeModel>)
    requires
        es.len() == acts.len(),
    ensures
        all_assignable(es, acts) <==> forall|i: int| 0 <= i < es.len() ==> #[trigger] assignable(es[i], acts[i]),
    decreases es.len(),
{
    if es.len() > 0 {
        lemma_all_assignable_pairwise(es.drop_first(), acts.drop_first());
        if forall|i: int| 0 <= i < es.len() ==> #[trigger] assignable(es[i], acts[i]) {
            assert forall|i: int| 0 <= i < es.drop_first().len() implies #[trigger] assignable(
                es.drop_first()[i],
                acts.drop_first()[i],
            ) by {
                assert(assignable(es[i + 1], acts[i + 1]));
            }
            assert(assignable(es[0], acts[0]));
        }
        if all_assignable(es, acts) {
            assert forall|i: int| 0 <= i < es.len() implies #[trigger] assignable(es[i], acts[i]) by {
                if i > 0 {
                    assert(assignable(es.drop_first()[i - 1], acts.drop_first()[i - 1]));
                }
            }
        }
    }
}

/// A tuple type accepts a tuple exactly when both have as many elements and
/// each element type accepts the matching element; a function type accepts
/// a function exactly when both take as many parameters, each parameter
/// type accepts the matching one and the return type accepts the other's.
pub proof fn law_assignable_pairwise(es: Seq<TypeModel>, acts: Seq<TypeModel>, er: TypeModel, ar: TypeModel)
    ensures
        assignable(TypeModel::Tuple(es), TypeModel::Tuple(acts)) <==> (es.len() == acts.len()
            && forall|i: int| 0 <= i < es.len() ==> #[trigger] assignable(es[i], acts[i])),
        assignable(TypeModel::Function(es, Box::new(er)), TypeModel::Function(acts, Box::new(ar)))
            <==> (es.len() == acts.len() && (forall|i: int|
            0 <= i < es.len() ==> #[trigger] assignable(es[i], acts[i])) && assignable(er, ar)),
{
    if es.len() == acts.len() {
        lemma_all_assignable_pairwise(es, acts);
    }
}

/// Every type accepts a value of its own type.
pub proof fn law_assignable_reflexive(t: TypeModel)
    ensures
        assignable(t, t),
    decreases t, 1nat,
{
    match t {
        TypeModel::Tuple(ts) => {
            lemma_all_assignable_reflexive(ts);
        },
        TypeModel::Function(ps, r) => {
            lemma_all_assignable_reflexive(ps);
            law_assignable_reflexive(*r);
        },
        _ => {},
    }
}

proof fn lemma_all_assignable_reflexive(ts: Seq<TypeModel>)
    ensures
        all_assignable(ts, ts),
    decreases ts, 0nat,
{
    if ts.len() > 0 {
        law_assignable_reflexive(ts[0]);
        lemma_all_assignable_reflexive(ts.drop_first());
    }
}

/// Nil can be used wherever any type is expected.
pub proof fn law_nil_assignable(t: TypeModel)
    ensures
        assignable(t, TypeModel::Nil),
{
}

fn strings_equal(a: &String, b: &String) -> (r: bool)
    ensures
        r == (a@ == b@),
{
    crate::text::str_eq(a.as_str(), b.as_str())
}

/// Whether two types are the same.
pub fn type_eq(a: &Type, b: &Type) -> (r: bool)
    ensures
        r == (a.model() == b.model()),
    decreases a, 1nat,
{
    match (a, b) {
        (Type::Kain, Type::Kain) => true,
        (Type::Sar, Type::Sar) => true,
        (Type::Sit, Type::Sit) => true,
        (Type::DaTha, Type::DaTha) => true,
        (Type::Baung, Type::Baung) => true,
        (Type::Nil, Type::Nil) => true,
        (Type::Error, Type::Error) => true,
        (Type::Array(x), Type::Array(y)) => type_eq(x, y),
        (Type::Channel(x), Type::Channel(y)) => type_eq(x, y),
        (Type::HashMap(k1, v1), Type::HashMap(k2, v2)) => type_eq(k1, k2) && type_eq(v1, v2),
        (Type::Struct(x), Type::Struct(y)) => strings_equal(x, y),
        (Type::Interface(x), Type::Interface(y)) => strings_equal(x, y),
        (Type::Tuple(xs), Type::Tuple(ys)) => types_eq(xs, ys),
        (
            Type::Function { params: p1, return_type: r1 },
            Type::Function { params: p2, return_type: r2 },
        ) => types_eq(p1, p2) && type_eq(r1, r2),
        _ => false,
    }
}

proof fn lemma_models_len(ts: Seq<Type>)
    ensures
        models_of(ts).len() == ts.len(),
        forall|i: int| 0 <= i < ts.len() ==> #[trigger] models_of(ts)[i] == ts[i].model(),
    decreases ts.len(),
{
    if ts.len() > 0 {
        lemma_models_len(ts.drop_first());
        assert forall|i: int| 0 <= i < ts.len() implies #[trigger] models_of(ts)[i] == ts[i].model() by {
            if i > 0 {
                assert(ts.drop_first()[i - 1] == ts[i]);
            }
        }
    }
}

/// Whether two lists of types are the same.
pub fn types_eq(a: &Vec<Type>, b: &Vec<Type>) -> (r: bool)
    ensures
        r == (models_of(a@) == models_of(b@)),
    decreases a@, 0nat,
{
    proof {
        lemma_models_len(a@);
        lemma_models_len(b@);
    }
    if a.len() != b.len() {
        return false;
    }
    let mut i: usize = 0;
    while i < a.len()
        invariant
            i <= a.len(),
            a.len() == b.len(),
            models_of(a@).len() == a.len(),
            models_of(b@).len() == b.len(),
            forall|k: int| 0 <= k < a.len() ==> #[trigger] models_of(a@)[k] == a@[k].model(),
            forall|k: int| 0 <= k < b.len() ==> #[trigger] models_of(b@)[k] == b@[k].model(),
            forall|k: int| 0 <= k < i ==> a@[k].model() == b@[k].model(),
        decreases a.len() - i,
    {
        if !type_eq(&a[i], &b[i]) {
            assert(models_of(a@)[i as int] != models_of(b@)[i as int]);
            return false;
        }
        i = i + 1;
    }
    assert(models_of(a@) =~= models_of(b@));
    true
}

// ----------------------------------------------------------------------
// Debug renderings of types, as error messages show them

/// A type as its derived `Debug` output writes it, e.g. `Array(Kain)`.
pub open spec fn type_debug(t: TypeModel) -> Seq<char>
    decreases t, 1nat,
{
    match t {
        TypeModel::Kain => "Kain"@,
        TypeModel::Sar => "Sar"@,
        TypeModel::Sit => "Sit"@,
        TypeModel::DaTha => "DaTha"@,
        TypeModel::Baung => "Baung"@,
        TypeModel::Nil => "Nil"@,
        TypeModel::Error => "Error"@,
        TypeModel::Array(inner) => "Array("@ + type_debug(*inner) + ")"@,
        TypeModel::Channel(inner) => "Channel("@ + type_debug(*inner) + ")"@,
        TypeModel::Dict(k, v) => "Map("@ + type_debug(*k) + ", "@ + type_debug(*v) + ")"@,
        TypeModel::Struct(n) => "Struct("@ + quoted(n) + ")"@,
        TypeModel::Interface(n) => "Interface("@ + quoted(n) + ")"@,
        TypeModel::Tuple(ts) => "Tuple(["@ + types_debug(ts) + "])"@,
        TypeModel::Function(ps, r) => "Function { params: ["@ + types_debug(ps) + "], return_type: "@
            + type_debug(*r) + " }"@,
    }
}

/// A list of types in debug form, separated by `, `.
pub open spec fn types_debug(ts: Seq<TypeModel>) -> Seq<char>
    decreases ts, 0nat,
{
    if ts.len() == 0 {
        Seq::empty()
    } else if ts.len() == 1 {
        type_debug(ts[0])
    } else {
        type_debug(ts[0]) + ", "@ + types_debug(ts.drop_first())
    }
}

/// An optional type in debug form: `Some(..)` or `None`.
pub open spec fn opt_type_debug(t: Option<TypeModel>) -> Seq<char> {
    match t {
        Some(x) => "Some("@ + type_debug(x) + ")"@,
        None => "None"@,
    }
}

/// Appends the debug form of a type.
pub fn push_type_debug(out: &mut Vec<char>, t: &Type)
    ensures
        final(out)@ == old(out)@ + type_debug(t.model()),
    decreases t, 1nat,
{
    match t {
        Type::Kain => push_str(out, "Kain"),
        Type::Sar => push_str(out, "Sar"),
        Type::Sit => push_str(out, "Sit"),
        Type::DaTha => push_str(out, "DaTha"),
        Type::Baung => push_str(out, "Baung"),
        Type::Nil => push_str(out, "Nil"),
        Type::Error => push_str(out, "Error"),
        Type::Array(inner) => {
            push_str(out, "Array(");
            push_type_debug(out, inner);
            push_str(out, ")");
        },
        Type::Channel(inner) => {
            push_str(out, "Channel(");
            push_type_debug(out, inner);
            push_str(out, ")");
        },
        Type::HashMap(k, v) => {
            push_str(out, "Map(");
            push_type_debug(out, k);
            push_str(out, ", ");
            push_type_debug(out, v);
            push_str(out, ")");
        },
        Type::Struct(n) => {
            push_str(out, "Struct(");
            push_quoted(out, n);
            push_str(out, ")");
        },
        Type::Interface(n) => {
            push_str(out, "Interface(");
            push_quoted(out, n);
            push_str(out, ")");
        },
        Type::Tuple(ts) => {
            push_str(out, "Tuple([");
            push_types_debug(out, ts);
            push_str(out, "])");
        },
        Type::Function { params, return_type } => {
            push_str(out, "Function { params: [");
            push_types_debug(out, params);
            push_str(out, "], return_type: ");
            push_type_debug(out, return_type);
            push_str(out, " }");
        },
    }
    assert(final(out)@ =~= old(out)@ + type_debug(t.model()));
}

/// Appends the debug forms of a list of types, separated by `, `.
pub fn push_types_debug(out: &mut Vec<char>, ts: &Vec<Type>)
    ensures
        final(out)@ == old(out)@ + types_debug(models_of(ts@)),
    decreases ts@, 0nat,
{
    let ghost m = models_of(ts@);
    proof {
        lemma_models_len(ts@);
    }
    let mut i: usize = 0;
    assert(m.subrange(0, ts.len() as int) =~= m);
    while i < ts.len()
        invariant
            i <= ts.len(),
            m == models_of(ts@),
            m.len() == ts.len(),
            forall|k: int| 0 <= k < ts.len() ==> #[trigger] m[k] == ts@[k].model(),
            out@ + (if i > 0 && i < ts.len() {
                ", "@
            } else {
                Seq::empty()
            }) + types_debug(m.subrange(i as int, ts.len() as int)) == old(out)@ + types_debug(m),
        decreases ts.len() - i,
    {
        let ghost sub = m.subrange(i as int, ts.len() as int);
        let ghost o1 = out@;
        assert(sub.drop_first() =~= m.subrange(i + 1, ts.len() as int));
        assert(sub[0] == m[i as int]);
        if i > 0 {
            push_str(out, ", ");
        }
        push_type_debug(out, &ts[i]);
        proof {
            if sub.len() == 1 {
                assert(m.subrange(i + 1, ts.len() as int) =~= Seq::<TypeModel>::empty());
            }
        }
        i = i + 1;
        assert(out@ + (if i > 0 && i < ts.len() {
            ", "@
        } else {
            Seq::empty()
        }) + types_debug(m.subrange(i as int, ts.len() as int)) =~= old(out)@ + types_debug(m));
    }
    assert(m.subrange(ts.len() as int, ts.len() as int) =~= Seq::<TypeModel>::empty());
    assert(out@ =~= old(out)@ + types_debug(m));
}

// ----------------------------------------------------------------------
// The checker's state and what checking does to it

/// The checker's state as plain values: the messages of the errors found
/// so far, the struct, method and interface declarations it knows, and how
/// deep in loops it is.
#[verifier::ext_equal]
pub struct TcModel {
    pub errors: Seq<Seq<char>>,
    pub structs: Map<Seq<char>, Seq<(Seq<char>, TypeModel)>>,
    pub methods: Map<(Seq<char>, Seq<char>), (Seq<TypeModel>, TypeModel)>,
    pub interfaces: Map<Seq<char>, Seq<(Seq<char>, Seq<TypeModel>, TypeModel)>>,
    pub loop_depth: usize,
}

/// The state with one more error.
pub open spec fn with_error(st: TcModel, msg: Seq<char>) -> TcModel {
    TcModel { errors: st.errors.push(msg), ..st }
}

/// The first field of that name among a struct's fields.
pub open spec fn find_field(fs: Seq<(Seq<char>, TypeModel)>, name: Seq<char>) -> Option<TypeModel>
    decreases fs.len(),
{
    if fs.len() == 0 {
        None
    } else if fs[0].0 == name {
        Some(fs[0].1)
    } else {
        find_field(fs.drop_first(), name)
    }
}

/// The types of a parameter list.
pub open spec fn param_types(ps: Seq<(String, Type, Span)>) -> Seq<TypeModel> {
    Seq::new(ps.len(), |i: int| ps[i].1.model())
}

/// The symbol of a variable of type `t`.
pub open spec fn var_symbol(t: TypeModel) -> SymbolModel {
    SymbolModel { ty: t, is_function: false, parameters: Seq::empty() }
}

/// Binds each parameter to a variable of its type.
pub open spec fn bind_params(env: Seq<Map<Seq<char>, SymbolModel>>, ps: Seq<(String, Type, Span)>) -> Seq<
    Map<Seq<char>, SymbolModel>,
>
    decreases ps.len(),
{
    if ps.len() == 0 {
        env
    } else {
        scopes_set(bind_params(env, ps.drop_last()), ps.last().0@, var_symbol(ps.last().1.model()))
    }
}

/// Checks an expression: the state afterwards and the expression's type,
/// when it has one.
pub open spec fn tc_expr(st: TcModel, env: Seq<Map<Seq<char>, SymbolModel>>, e: Expression) -> (
    TcModel,
    Option<TypeModel>,
)
    decreases e, 3nat,
{
    match e {
        Expression::IntegerLiteral(_) => (st, Some(TypeModel::Kain)),
        Expression::FloatLiteral(_) => (st, Some(TypeModel::DaTha)),
        Expression::StringLiteral(_) => (st, Some(TypeModel::Sar)),
        Expression::BooleanLiteral(_) => (st, Some(TypeModel::Sit)),
        Expression::NilLiteral => (st, Some(TypeModel::Nil)),
        Expression::Identifier(name) => match scopes_lookup(env, name@) {
            Some(sym) => (st, Some(sym.ty)),
            None => (with_error(st, "Undeclared identifier `"@ + name@ + "`"@), None),
        },
        Expression::ArrayLiteral { .. } => tc_array(st, env, e),
        Expression::HashLiteral { .. } => tc_hash(st, env, e),
        Expression::IndexExpression { .. } => tc_index(st, env, e),
        Expression::SliceExpression { .. } => tc_slice(st, env, e),
        Expression::ReadInput { prompt } => {
            let (s1, t) = tc_expr(st, env, *prompt);
            match t {
                None => (s1, None),
                Some(pt) => (
                    if pt != TypeModel::Sar {
                        with_error(s1, "Prompt must be a string (sar)"@)
                    } else {
                        s1
                    },
                    Some(TypeModel::Sar),
                ),
            }
        },
        Expression::TypeConversion { target_type, argument } => {
            let (s1, t) = tc_expr(st, env, *argument);
            match t {
                None => (s1, None),
                Some(_) => (s1, Some(target_type.model())),
            }
        },
        Expression::Binary { .. } => tc_binary(st, env, e),
        Expression::FunctionCall { .. } => tc_call(st, env, e),
        Expression::MethodCall { .. } => tc_method_call(st, env, e),
        Expression::FieldAccess { .. } => tc_field_access(st, env, e),
        Expression::StructLiteral { .. } => tc_struct_literal(st, env, e),
        Expression::ClosureLiteral { parameters, return_type, body } => {
            let inner = bind_params(env.push(Map::empty()), parameters@);
            let (s1, _) = tc_block(st, inner, body, Some(return_type.model()));
            (s1, Some(TypeModel::Function(param_types(parameters@), Box::new(return_type.model()))))
        },
        Expression::ErrorCreate { message } => (tc_expr(st, env, *message).0, Some(TypeModel::Error)),
        Expression::TupleLiteral { elements } => {
            let (s1, ts) = tc_tuple_items(st, env, elements@);
            (s1, Some(TypeModel::Tuple(ts)))
        },
        Expression::ChannelMake { value_type, capacity } => (
            match capacity {
                Some(c) => tc_expr(st, env, *c).0,
                None => st,
            },
            Some(TypeModel::Channel(Box::new(value_type.model()))),
        ),
        Expression::BaungCreate { timeout_ms } => (tc_expr(st, env, *timeout_ms).0, Some(TypeModel::Baung)),
    }
}

/// The types of the items of a tuple, skipping those without one.
pub open spec fn tc_tuple_items(st: TcModel, env: Seq<Map<Seq<char>, SymbolModel>>, es: Seq<Expression>) -> (
    TcModel,
    Seq<TypeModel>,
)
    decreases es, 1nat,
{
    if es.len() == 0 {
        (st, Seq::empty())
    } else {
        let (s1, t) = tc_expr(st, env, es[0]);
        let (s2, rest) = tc_tuple_items(s1, env, es.drop_first());
        (
            s2,
            match t {
                Some(x) => seq![x] + rest,
                None => rest,
            },
        )
    }
}

/// Checks the elements after the first of an array literal against the
/// first one's type `ft`; `false` when one of them has no type.
pub open spec fn tc_array_rest(
    st: TcModel,
    env: Seq<Map<Seq<char>, SymbolModel>>,
    es: Seq<Expression>,
    ft: TypeModel,
) -> (TcModel, bool)
    decreases es, 1nat,
{
    if es.len() == 0 {
        (st, true)
    } else {
        let (s1, t) = tc_expr(st, env, es[0]);
        match t {
            None => (s1, false),
            Some(x) => tc_array_rest(
                if x != ft {
                    with_error(
                        s1,
                        "Array elements must have the same type. Expected "@ + type_debug(ft)
                            + ", got "@ + type_debug(x),
                    )
                } else {
                    s1
                },
                env,
                es.drop_first(),
                ft,
            ),
        }
    }
}

pub open spec fn tc_array(st: TcModel, env: Seq<Map<Seq<char>, SymbolModel>>, e: Expression) -> (
    TcModel,
    Option<TypeModel>,
)
    decreases e, 2nat,
{
    match e {
        Expression::ArrayLiteral { elements } => if elements@.len() == 0 {
            (st, None)
        } else {
            let (s1, t) = tc_expr(st, env, elements@[0]);
            match t {
                None => (s1, None),
                Some(ft) => {
                    let (s2, ok) = tc_array_rest(s1, env, elements@.drop_first(), ft);
                    (s2, if ok { Some(TypeModel::Array(Box::new(ft))) } else { None })
                },
            }
        },
        _ => (st, None),
    }
}

/// Checks the pairs after the first of a map literal against the first
/// pair's key and value types; `false` when a key or value has no type.
pub open spec fn tc_hash_rest(
    st: TcModel,
    env: Seq<Map<Seq<char>, SymbolModel>>,
    ps: Seq<(Expression, Expression)>,
    kt: TypeModel,
    vt: TypeModel,
) -> (TcModel, bool)
    decreases ps, 1nat,
{
    if ps.len() == 0 {
        (st, true)
    } else {
        let (s1, k) = tc_expr(st, env, ps[0].0);
        match k {
            None => (s1, false),
            Some(kx) => {
                let (s2, v) = tc_expr(s1, env, ps[0].1);
                match v {
                    None => (s2, false),
                    Some(vx) => tc_hash_rest(
                        if kx != kt || vx != vt {
                            with_error(s2, "HashMap elements must have consistent types."@)
                        } else {
                            s2
                        },
                        env,
                        ps.drop_first(),
                        kt,
                        vt,
                    ),
                }
            },
        }
    }
}

pub open spec fn tc_hash(st: TcModel, env: Seq<Map<Seq<char>, SymbolModel>>, e: Expression) -> (
    TcModel,
    Option<TypeModel>,
)
    decreases e, 2nat,
{
    match e {
        Expression::HashLiteral { pairs } => if pairs@.len() == 0 {
            (st, None)
        } else {
            let (s1, k) = tc_expr(st, env, pairs@[0].0);
            match k {
                None => (s1, None),
                Some(kt) => {
                    let (s2, v) = tc_expr(s1, env, pairs@[0].1);
                    match v {
                        None => (s2, None),
                        Some(vt) => {
                            let (s3, ok) = tc_hash_rest(s2, env, pairs@.drop_first(), kt, vt);
                            (
                                s3,
                                if ok {
                                    Some(TypeModel::Dict(Box::new(kt), Box::new(vt)))
                                } else {
                                    None
                                },
                            )
                        },
                    }
                },
            }
        },
        _ => (st, None),
    }
}

pub open spec fn tc_index(st: TcModel, env: Seq<Map<Seq<char>, SymbolModel>>, e: Expression) -> (
    TcModel,
    Option<TypeModel>,
)
    decreases e, 2nat,
{
    match e {
        Expression::IndexExpression { left, index } => {
            let (s1, l) = tc_expr(st, env, *left);
            match l {
                None => (s1, None),
                Some(lt) => {
                    let (s2, i) = tc_expr(s1, env, *index);
                    match i {
                        None => (s2, None),
                        Some(it) => match lt {
                            TypeModel::Array(inner) => (
                                if it != TypeModel::Kain {
                                    with_error(s2, "Array index must be an integer (kain)"@)
                                } else {
                                    s2
                                },
                                Some(*inner),
                            ),
                            TypeModel::Dict(k, v) => (
                                if it != *k {
                                    with_error(
                                        s2,
                                        "Map key type mismatch. Expected "@ + type_debug(*k),
                                    )
                                } else {
                                    s2
                                },
                                Some(*v),
                            ),
                            _ => (
                                with_error(
                                    s2,
                                    "Cannot index into non-collection type "@ + type_debug(lt),
                                ),
                                None,
                            ),
                        },
                    }
                },
            }
        },
        _ => (st, None),
    }
}

/// Checks an optional bound of a slice: `false` when it has no type.
pub open spec fn tc_slice_bound(
    st: TcModel,
    env: Seq<Map<Seq<char>, SymbolModel>>,
    b: Option<Box<Expression>>,
    msg: Seq<char>,
) -> (TcModel, bool)
    decreases b, 1nat,
{
    match b {
        None => (st, true),
        Some(x) => {
            let (s1, t) = tc_expr(st, env, *x);
            match t {
                None => (s1, false),
                Some(bt) => (if bt != TypeModel::Kain { with_error(s1, msg) } else { s1 }, true),
            }
        },
    }
}

pub open spec fn tc_slice(st: TcModel, env: Seq<Map<Seq<char>, SymbolModel>>, e: Expression) -> (
    TcModel,
    Option<TypeModel>,
)
    decreases e, 2nat,
{
    match e {
        Expression::SliceExpression { left, low, high } => {
            let (s1, l) = tc_expr(st, env, *left);
            match l {
                None => (s1, None),
                Some(lt) => match lt {
                    TypeModel::Array(inner) => {
                        let (s2, ok1) = tc_slice_bound(s1, env, low, "Slice low index must be kain"@);
                        if !ok1 {
                            (s2, None)
                        } else {
                            let (s3, ok2) = tc_slice_bound(
                                s2,
                                env,
                                high,
                                "Slice high index must be kain"@,
                            );
                            (s3, if ok2 { Some(TypeModel::Array(inner)) } else { None })
                        }
                    },
                    _ => (with_error(s1, "Cannot slice non-array type "@ + type_debug(lt)), None),
                },
            }
        },
        _ => (st, None),
    }
}

/// The type a binary operator gives its operands' types, or the error it
/// reports.
pub open spec fn binary_result(op: Seq<char>, l: TypeModel, r: TypeModel) -> Result<
    Option<TypeModel>,
    Seq<char>,
> {
    if op == "+"@ || op == "-"@ || op == "*"@ || op == "/"@ {
        if l == TypeModel::Kain && r == TypeModel::Kain {
            Ok(Some(TypeModel::Kain))
        } else if l == TypeModel::DaTha && r == TypeModel::DaTha {
            Ok(Some(TypeModel::DaTha))
        } else if op == "+"@ && l == TypeModel::Sar && r == TypeModel::Sar {
            Ok(Some(TypeModel::Sar))
        } else {
            Err("Operator `"@ + op + "` requires matching numeric types or strings"@)
        }
    } else if op == "=="@ || op == "!="@ {
        if l == TypeModel::Nil || r == TypeModel::Nil || l == r {
            Ok(Some(TypeModel::Sit))
        } else {
            Err("Cannot compare differing types "@ + type_debug(l) + " and "@ + type_debug(r))
        }
    } else if op == ">"@ || op == "<"@ || op == ">="@ || op == "<="@ {
        if (l == TypeModel::Kain && r == TypeModel::Kain) || (l == TypeModel::DaTha && r
            == TypeModel::DaTha) {
            Ok(Some(TypeModel::Sit))
        } else {
            Err("Operator `"@ + op + "` requires two integers (kain) or two floats (da_tha)"@)
        }
    } else {
        Ok(None)
    }
}

/// The type of each literal, and of a name: an integer literal is `kain`, a
/// float `da_tha`, a text `sar`, `hman`/`hmar` `sit` and `bhala` nil, none
/// of them reporting anything; a declared name has the type it was declared
/// with, and an undeclared one is reported once and has no type.
pub proof fn law_literal_and_name_types(st: TcModel, env: Seq<Map<Seq<char>, SymbolModel>>, e: Expression)
    ensures
        e is IntegerLiteral ==> tc_expr(st, env, e) == (st, Some(TypeModel::Kain)),
        e is FloatLiteral ==> tc_expr(st, env, e) == (st, Some(TypeModel::DaTha)),
        e is StringLiteral ==> tc_expr(st, env, e) == (st, Some(TypeModel::Sar)),
        e is BooleanLiteral ==> tc_expr(st, env, e) == (st, Some(TypeModel::Sit)),
        e is NilLiteral ==> tc_expr(st, env, e) == (st, Some(TypeModel::Nil)),
        (e matches Expression::Identifier(n) && scopes_lookup(env, n@) is Some) ==> tc_expr(st, env, e) == (
            st,
            Some(scopes_lookup(env, e->Identifier_0@)->0.ty),
        ),
        (e matches Expression::Identifier(n) && scopes_lookup(env, n@) is None) ==> {
            &&& tc_expr(st, env, e).1 is None
            &&& tc_expr(st, env, e).0.errors.len() == st.errors.len() + 1
            &&& tc_expr(st, env, e).0.errors.subrange(0, st.errors.len() as int) == st.errors
        },
{
    if e is Identifier {
        let r = tc_expr(st, env, e).0;
        assert(r.errors.subrange(0, st.errors.len() as int) =~= st.errors || scopes_lookup(env, e->Identifier_0@) is Some);
    }
}

/// What each binary operator accepts and gives. The arithmetic operators
/// `+ - * /` give `kain` on two `kain` and `da_tha` on two `da_tha`, and `+`
/// also joins two `sar`; the comparisons `< > <= >=` give `sit` on two
/// `kain` or two `da_tha`; `==` and `!=` give `sit` on equal types or when
/// either side is `bhala`. Any other pairing of these operators is an
/// error, and an operator outside them gives no type.
pub proof fn law_binary_types(op: Seq<char>, l: TypeModel, r: TypeModel)
    ensures
        ({
            let arith = op == "+"@ || op == "-"@ || op == "*"@ || op == "/"@;
            let cmp = op == "<"@ || op == ">"@ || op == "<="@ || op == ">="@;
            let eq = op == "=="@ || op == "!="@;
            let numeric = l == r && (l == TypeModel::Kain || l == TypeModel::DaTha);
            &&& arith && numeric ==> binary_result(op, l, r) == Ok::<Option<TypeModel>, Seq<char>>(Some(l))
            &&& arith && op == "+"@ && l == TypeModel::Sar && r == TypeModel::Sar ==> binary_result(op, l, r)
                == Ok::<Option<TypeModel>, Seq<char>>(Some(TypeModel::Sar))
            &&& arith && !numeric && !(op == "+"@ && l == TypeModel::Sar && r == TypeModel::Sar)
                ==> binary_result(op, l, r) is Err
            &&& cmp && numeric ==> binary_result(op, l, r) == Ok::<Option<TypeModel>, Seq<char>>(
                Some(TypeModel::Sit),
            )
            &&& cmp && !numeric ==> binary_result(op, l, r) is Err
            &&& eq && (l == r || l == TypeModel::Nil || r == TypeModel::Nil) ==> binary_result(op, l, r)
                == Ok::<Option<TypeModel>, Seq<char>>(Some(TypeModel::Sit))
            &&& eq && !(l == r || l == TypeModel::Nil || r == TypeModel::Nil) ==> binary_result(op, l, r) is Err
            &&& !arith && !cmp && !eq ==> binary_result(op, l, r) == Ok::<Option<TypeModel>, Seq<char>>(None)
        }),
{
    crate::parser::lemma_operator_texts_distinct();
}

pub open spec fn tc_binary(st: TcModel, env: Seq<Map<Seq<char>, SymbolModel>>, e: Expression) -> (
    TcModel,
    Option<TypeModel>,
)
    decreases e, 2nat,
{
    match e {
        Expression::Binary { left, operator, right } => {
            let (s1, l) = tc_expr(st, env, *left);
            match l {
                None => (s1, None),
                Some(lt) => {
                    let (s2, r) = tc_expr(s1, env, *right);
                    match r {
                        None => (s2, None),
                        Some(rt) => match binary_result(operator@, lt, rt) {
                            Ok(t) => (s2, t),
                            Err(m) => (with_error(s2, m), None),
                        },
                    }
                },
            }
        },
        _ => (st, None),
    }
}

/// Checks call arguments against the expected parameter types, in order;
/// `false` when an argument has no type (the check stops there).
pub open spec fn tc_call_args(
    st: TcModel,
    env: Seq<Map<Seq<char>, SymbolModel>>,
    args: Seq<Expression>,
    expected: Seq<TypeModel>,
    fname: Seq<char>,
    i: nat,
) -> (TcModel, bool)
    decreases args, 1nat,
{
    if args.len() == 0 {
        (st, true)
    } else {
        let (s1, t) = tc_expr(st, env, args[0]);
        match t {
            None => (s1, false),
            Some(at) => tc_call_args(
                if !assignable(expected[i as int], at) {
                    with_error(
                        s1,
                        "Argument "@ + nat_digits(i) + " to `"@ + fname + "` expected type "@
                            + type_debug(expected[i as int]) + ", got "@ + type_debug(at),
                    )
                } else {
                    s1
                },
                env,
                args.drop_first(),
                expected,
                fname,
                i + 1,
            ),
        }
    }
}

pub open spec fn tc_call(st: TcModel, env: Seq<Map<Seq<char>, SymbolModel>>, e: Expression) -> (
    TcModel,
    Option<TypeModel>,
)
    decreases e, 2nat,
{
    match e {
        Expression::FunctionCall { function, arguments } => {
            let args = arguments@;
            if function@ == "htae"@ {
                if args.len() != 2 {
                    (with_error(st, "htae() expects 2 arguments"@), None)
                } else {
                    let (s1, a) = tc_expr(st, env, args[0]);
                    match a {
                        None => (s1, None),
                        Some(at) => {
                            let (s2, el) = tc_expr(s1, env, args[1]);
                            match el {
                                None => (s2, None),
                                Some(et) => match at {
                                    TypeModel::Array(inner) => (
                                        if !assignable(*inner, et) {
                                            with_error(
                                                s2,
                                                "htae element type mismatch: expected "@
                                                    + type_debug(*inner) + ", got "@ + type_debug(et),
                                            )
                                        } else {
                                            s2
                                        },
                                        Some(at),
                                    ),
                                    _ => (
                                        with_error(s2, "htae() first argument must be an array"@),
                                        None,
                                    ),
                                },
                            }
                        },
                    }
                }
            } else if function@ == "ashay"@ {
                if args.len() != 1 {
                    (with_error(st, "ashay() expects 1 argument"@), None)
                } else {
                    let (s1, a) = tc_expr(st, env, args[0]);
                    match a {
                        None => (s1, None),
                        Some(at) => match at {
                            TypeModel::Array(_) | TypeModel::Sar | TypeModel::Dict(_, _) => (
                                s1,
                                Some(TypeModel::Kain),
                            ),
                            _ => (
                                with_error(
                                    s1,
                                    "ashay() argument must be array, string, or map, got "@
                                        + type_debug(at),
                                ),
                                None,
                            ),
                        },
                    }
                }
            } else {
                match scopes_lookup(env, function@) {
                    None => (with_error(st, "Undeclared function `"@ + function@ + "`"@), None),
                    Some(sym) => {
                        let sig: Option<(Seq<TypeModel>, TypeModel)> = match sym.ty {
                            TypeModel::Function(ps, r) => Some((ps, *r)),
                            _ => if sym.is_function {
                                Some((sym.parameters, sym.ty))
                            } else {
                                None
                            },
                        };
                        match sig {
                            None => (with_error(st, "`"@ + function@ + "` is not a function"@), None),
                            Some((ps, ret)) => if ps.len() != args.len() {
                                (
                                    with_error(
                                        st,
                                        "Function `"@ + function@ + "` expects "@ + nat_digits(
                                            ps.len(),
                                        ) + " arguments, got "@ + nat_digits(args.len()),
                                    ),
                                    Some(ret),
                                )
                            } else {
                                let (s1, ok) = tc_call_args(st, env, args, ps, function@, 0);
                                (s1, if ok { Some(ret) } else { None })
                            },
                        }
                    },
                }
            }
        },
        _ => (st, None),
    }
}

/// Checks the arguments of a call of a struct's method; an argument without
/// a type is skipped.
pub open spec fn tc_method_args(
    st: TcModel,
    env: Seq<Map<Seq<char>, SymbolModel>>,
    args: Seq<Expression>,
    expected: Seq<TypeModel>,
    mname: Seq<char>,
    i: nat,
) -> TcModel
    decreases args, 1nat,
{
    if args.len() == 0 {
        st
    } else {
        let (s1, t) = tc_expr(st, env, args[0]);
        let s2 = match t {
            None => s1,
            Some(at) => if i < expected.len() && !assignable(expected[i as int], at) {
                with_error(
                    s1,
                    "Method `"@ + mname + "` argument "@ + nat_digits(i) + " expected `"@
                        + type_debug(expected[i as int]) + "`, got `"@ + type_debug(at) + "`"@,
                )
            } else {
                s1
            },
        };
        tc_method_args(s2, env, args.drop_first(), expected, mname, i + 1)
    }
}

/// Calling a method declared for a struct type; any other call is an
/// unknown method.
pub open spec fn tc_method_struct(
    st: TcModel,
    env: Seq<Map<Seq<char>, SymbolModel>>,
    ot: TypeModel,
    m: Seq<char>,
    args: Seq<Expression>,
) -> (TcModel, Option<TypeModel>)
    decreases args, 2nat,
{
    let unknown = (with_error(st, "Unknown method `"@ + m + "` on type "@ + type_debug(ot)), None);
    match ot {
        TypeModel::Struct(tn) => if st.methods.contains_key((tn, m)) {
            let (ps, ret) = st.methods[(tn, m)];
            let s1 = if ps.len() != args.len() {
                with_error(
                    st,
                    "Method `"@ + m + "` expects "@ + nat_digits(ps.len()) + " arguments, got "@
                        + nat_digits(args.len()),
                )
            } else {
                st
            };
            (tc_method_args(s1, env, args, ps, m, 0), Some(ret))
        } else {
            unknown
        },
        _ => unknown,
    }
}

/// What calling method `m` on a value of type `ot` gives, after the object
/// has been checked.
pub open spec fn tc_method_on(
    st: TcModel,
    env: Seq<Map<Seq<char>, SymbolModel>>,
    ot: TypeModel,
    m: Seq<char>,
    args: Seq<Expression>,
) -> (TcModel, Option<TypeModel>)
    decreases args, 3nat,
{
    let on_struct = tc_method_struct(st, env, ot, m, args);
    if ot == TypeModel::Sar && m == "khwae"@ {
        if args.len() != 1 {
            (with_error(st, "khwae() expects 1 argument"@), None)
        } else {
            (tc_expr(st, env, args[0]).0, Some(TypeModel::Array(Box::new(TypeModel::Sar))))
        }
    } else if ot == TypeModel::Sar && m == "swal"@ {
        if args.len() != 1 {
            (with_error(st, "swal() expects 1 argument"@), None)
        } else {
            (tc_expr(st, env, args[0]).0, Some(TypeModel::Sit))
        }
    } else if ot == TypeModel::Sar && m == "ashay"@ {
        (st, Some(TypeModel::Kain))
    } else {
        match ot {
            TypeModel::Array(inner) => if m == "push"@ {
                if args.len() != 1 {
                    (with_error(st, "push() expects 1 argument"@), None)
                } else {
                    let (s1, t) = tc_expr(st, env, args[0]);
                    match t {
                        None => (s1, None),
                        Some(at) => (
                            if !assignable(*inner, at) {
                                with_error(
                                    s1,
                                    "push() type mismatch: expected `"@ + type_debug(*inner)
                                        + "`, got `"@ + type_debug(at) + "`"@,
                                )
                            } else {
                                s1
                            },
                            Some(TypeModel::Array(inner)),
                        ),
                    }
                }
            } else if m == "remove"@ {
                if args.len() != 1 {
                    (with_error(st, "remove() expects 1 argument"@), None)
                } else {
                    let (s1, t) = tc_expr(st, env, args[0]);
                    match t {
                        None => (s1, None),
                        Some(at) => (
                            if at != TypeModel::Kain {
                                with_error(s1, "remove() index must be kain"@)
                            } else {
                                s1
                            },
                            Some(TypeModel::Array(inner)),
                        ),
                    }
                }
            } else if m == "len"@ {
                (
                    if args.len() != 0 {
                        with_error(st, "len() expects no arguments"@)
                    } else {
                        st
                    },
                    Some(TypeModel::Kain),
                )
            } else {
                on_struct
            },
            TypeModel::Dict(_, _) => if m == "len"@ {
                (
                    if args.len() != 0 {
                        with_error(st, "len() expects no arguments"@)
                    } else {
                        st
                    },
                    Some(TypeModel::Kain),
                )
            } else {
                on_struct
            },
            _ => on_struct,
        }
    }
}

pub open spec fn tc_method_call(st: TcModel, env: Seq<Map<Seq<char>, SymbolModel>>, e: Expression) -> (
    TcModel,
    Option<TypeModel>,
)
    decreases e, 2nat,
{
    match e {
        Expression::MethodCall { object, method, arguments } => {
            let (s1, o) = tc_expr(st, env, *object);
            match o {
                None => (s1, None),
                Some(ot) => tc_method_on(s1, env, ot, method@, arguments@),
            }
        },
        _ => (st, None),
    }
}

pub open spec fn tc_field_access(st: TcModel, env: Seq<Map<Seq<char>, SymbolModel>>, e: Expression) -> (
    TcModel,
    Option<TypeModel>,
)
    decreases e, 2nat,
{
    match e {
        Expression::FieldAccess { object, field } => {
            let (s1, o) = tc_expr(st, env, *object);
            match o {
                None => (s1, None),
                Some(ot) => match ot {
                    TypeModel::Struct(tn) => if s1.structs.contains_key(tn) {
                        match find_field(s1.structs[tn], field@) {
                            Some(ft) => (s1, Some(ft)),
                            None => (
                                with_error(
                                    s1,
                                    "Struct `"@ + tn + "` has no field `"@ + field@ + "`"@,
                                ),
                                None,
                            ),
                        }
                    } else {
                        (with_error(s1, "Unknown struct type `"@ + tn + "`"@), None)
                    },
                    _ => (
                        with_error(s1, "Cannot access field on non-struct type "@ + type_debug(ot)),
                        None,
                    ),
                },
            }
        },
        _ => (st, None),
    }
}

/// Checks the field values of a struct literal of struct `name` with the
/// declared fields `decl`.
pub open spec fn tc_struct_fields(
    st: TcModel,
    env: Seq<Map<Seq<char>, SymbolModel>>,
    fs: Seq<(String, Expression)>,
    name: Seq<char>,
    decl: Seq<(Seq<char>, TypeModel)>,
) -> TcModel
    decreases fs, 1nat,
{
    if fs.len() == 0 {
        st
    } else {
        let s1 = tc_expr(st, env, fs[0].1).0;
        let s2 = if find_field(decl, fs[0].0@) is None {
            with_error(s1, "Struct `"@ + name + "` has no field `"@ + fs[0].0@ + "`"@)
        } else {
            s1
        };
        tc_struct_fields(s2, env, fs.drop_first(), name, decl)
    }
}

pub open spec fn tc_struct_literal(st: TcModel, env: Seq<Map<Seq<char>, SymbolModel>>, e: Expression) -> (
    TcModel,
    Option<TypeModel>,
)
    decreases e, 2nat,
{
    match e {
        Expression::StructLiteral { name, fields } => if st.structs.contains_key(name@) {
            (
                tc_struct_fields(st, env, fields@, name@, st.structs[name@]),
                Some(TypeModel::Struct(name@)),
            )
        } else {
            (with_error(st, "Unknown struct `"@ + name@ + "`"@), None)
        },
        _ => (st, None),
    }
}


/// `yut` and `shar` are errors outside loops and nothing inside them: at
/// loop depth 0 each adds exactly its message, deeper each leaves the state
/// and the scopes as they are. A loop body is checked one loop deeper, so at
/// a depth above 0, and leaving it restores the depth it had.
pub proof fn law_loop_control(st: TcModel, env: Seq<Map<Seq<char>, SymbolModel>>, d: usize)
    ensures
        st.loop_depth == 0 ==> tc_stmt(st, env, Statement::Break) == (
            with_error(st, "`yut` can only be used inside loops"@),
            env,
        ),
        st.loop_depth == 0 ==> tc_stmt(st, env, Statement::Continue) == (
            with_error(st, "`shar` can only be used inside loops"@),
            env,
        ),
        st.loop_depth > 0 ==> tc_stmt(st, env, Statement::Break) == (st, env),
        st.loop_depth > 0 ==> tc_stmt(st, env, Statement::Continue) == (st, env),
        loop_in(st).loop_depth > 0,
        loop_in(st).errors == st.errors,
        loop_out(st, d).loop_depth == d,
        loop_out(st, d).errors == st.errors,
{
}

/// The state on entering a loop body: one loop deeper.
pub open spec fn loop_in(st: TcModel) -> TcModel {
    TcModel { loop_depth: if st.loop_depth < usize::MAX { (st.loop_depth + 1) as usize } else { st.loop_depth }, ..st }
}

/// The state on leaving a loop body: the depth it had before.
pub open spec fn loop_out(st: TcModel, depth: usize) -> TcModel {
    TcModel { loop_depth: depth, ..st }
}

/// The method signatures of an interface declaration.
pub open spec fn method_sigs(ms: Seq<(String, Vec<(String, Type)>, Type)>) -> Seq<(Seq<char>, Seq<TypeModel>, TypeModel)> {
    Seq::new(ms.len(), |i: int| (ms[i].0@, field_types(ms[i].1@), ms[i].2.model()))
}

/// The types of named fields or parameters.
pub open spec fn field_types(fs: Seq<(String, Type)>) -> Seq<TypeModel> {
    Seq::new(fs.len(), |i: int| fs[i].1.model())
}

/// The symbol of a function with these parameter and return types.
pub open spec fn fn_symbol(ps: Seq<TypeModel>, ret: TypeModel) -> SymbolModel {
    SymbolModel { ty: TypeModel::Function(ps, Box::new(ret)), is_function: true, parameters: ps }
}

/// The structs of a module added to the struct declarations, in order.
pub open spec fn add_structs(
    m: Map<Seq<char>, Seq<(Seq<char>, TypeModel)>>,
    ss: Seq<(Seq<char>, Seq<(Seq<char>, TypeModel)>)>,
) -> Map<Seq<char>, Seq<(Seq<char>, TypeModel)>>
    decreases ss.len(),
{
    if ss.len() == 0 {
        m
    } else {
        add_structs(m, ss.drop_last()).insert(ss.last().0, ss.last().1)
    }
}

/// The functions of a module added as methods of the module's type `tn`.
pub open spec fn add_module_functions(
    m: Map<(Seq<char>, Seq<char>), (Seq<TypeModel>, TypeModel)>,
    tn: Seq<char>,
    fs: Seq<(Seq<char>, Seq<TypeModel>, TypeModel)>,
) -> Map<(Seq<char>, Seq<char>), (Seq<TypeModel>, TypeModel)>
    decreases fs.len(),
{
    if fs.len() == 0 {
        m
    } else {
        add_module_functions(m, tn, fs.drop_last()).insert((tn, fs.last().0), (fs.last().1, fs.last().2))
    }
}

/// Importing a standard library module binds its alias to the module's own
/// type `__module::alias`, and declares its structs and, as methods of that
/// type, its functions. Other imports change nothing.
pub open spec fn register_import(
    st: TcModel,
    env: Seq<Map<Seq<char>, SymbolModel>>,
    module: Seq<char>,
) -> (TcModel, Seq<Map<Seq<char>, SymbolModel>>) {
    match stdlib_module(module) {
        None => (st, env),
        Some(m) => {
            let tn = "__module::"@ + m.alias;
            (
                TcModel {
                    structs: add_structs(st.structs, m.structs),
                    methods: add_module_functions(st.methods, tn, m.functions),
                    ..st
                },
                scopes_set(env, m.alias, var_symbol(TypeModel::Struct(tn))),
            )
        },
    }
}

/// Checks the names of a destructuring against the value's tuple types,
/// binding each name to its declared type.
pub open spec fn tc_destructure(
    st: TcModel,
    env: Seq<Map<Seq<char>, SymbolModel>>,
    names: Seq<(String, Type, Span)>,
    ts: Seq<TypeModel>,
) -> (TcModel, Seq<Map<Seq<char>, SymbolModel>>)
    decreases names.len(),
{
    if names.len() == 0 || ts.len() == 0 {
        (st, env)
    } else {
        let n = names[0];
        let s1 = if !assignable(n.1.model(), ts[0]) {
            with_error(
                st,
                "Type mismatch in destructuring: expected "@ + type_debug(n.1.model()) + " for `"@
                    + n.0@ + "`, got "@ + type_debug(ts[0]),
            )
        } else {
            st
        };
        tc_destructure(
            s1,
            scopes_set(env, n.0@, var_symbol(n.1.model())),
            names.drop_first(),
            ts.drop_first(),
        )
    }
}

/// Checks a statement: the state and the scopes afterwards.
pub open spec fn tc_stmt(st: TcModel, env: Seq<Map<Seq<char>, SymbolModel>>, s: Statement) -> (
    TcModel,
    Seq<Map<Seq<char>, SymbolModel>>,
)
    decreases s, 3nat,
{
    match s {
        Statement::Let { name, value, ty, .. } => {
            let (s1, v) = tc_expr(st, env, value);
            match v {
                None => (s1, env),
                Some(vt) => if !assignable(ty.model(), vt) {
                    (
                        with_error(
                            s1,
                            "Type mismatch: cannot assign `"@ + type_debug(vt) + "` to variable `"@
                                + name@ + "` of type `"@ + type_debug(ty.model()) + "`"@,
                        ),
                        env,
                    )
                } else {
                    (s1, scopes_set(env, name@, var_symbol(ty.model())))
                },
            }
        },
        Statement::LetDestructured { names, value } => {
            let (s1, v) = tc_expr(st, env, value);
            match v {
                Some(TypeModel::Tuple(ts)) => if ts.len() != names@.len() {
                    (
                        with_error(
                            s1,
                            "Destructuring mismatch: expected "@ + nat_digits(names@.len())
                                + " values, got "@ + nat_digits(ts.len()),
                        ),
                        env,
                    )
                } else {
                    tc_destructure(s1, env, names@, ts)
                },
                _ => (s1, env),
            }
        },
        Statement::Assign { name, value, .. } => match scopes_lookup(env, name@) {
            None => (with_error(st, "Undeclared variable `"@ + name@ + "`"@), env),
            Some(sym) => {
                let (s1, v) = tc_expr(st, env, value);
                match v {
                    Some(vt) => if !assignable(sym.ty, vt) {
                        (
                            with_error(
                                s1,
                                "Type mismatch: cannot assign `"@ + type_debug(vt)
                                    + "` to variable `"@ + name@ + "` of type `"@ + type_debug(
                                    sym.ty,
                                ) + "`"@,
                            ),
                            env,
                        )
                    } else {
                        (s1, env)
                    },
                    None => (s1, env),
                }
            },
        },
        Statement::FieldAssign { .. } => (tc_field_assign(st, env, s), env),
        Statement::IndexAssign { .. } => (tc_index_assign(st, env, s), env),
        Statement::FunctionDecl { name, parameters, return_type, body, .. } => {
            let env1 = scopes_set(
                env,
                name@,
                fn_symbol(param_types(parameters@), return_type.model()),
            );
            let inner = bind_params(env1.push(Map::empty()), parameters@);
            (tc_block(st, inner, body, Some(return_type.model())).0, env1)
        },
        Statement::Return { value } => (tc_expr(st, env, value).0, env),
        Statement::Print { value } => (tc_expr(st, env, value).0, env),
        Statement::If { condition, consequence, alternative } => {
            let (s1, c) = tc_expr(st, env, condition);
            let s2 = if c != Some(TypeModel::Sit) {
                with_error(s1, "If condition must be a boolean (sit), got "@ + opt_type_debug(c))
            } else {
                s1
            };
            let (s3, e3) = tc_block(s2, env, consequence, None);
            tc_alt(s3, e3, alternative)
        },
        Statement::While { condition, body } => {
            let (s1, c) = tc_expr(st, env, condition);
            let s2 = if c != Some(TypeModel::Sit) {
                with_error(s1, "While condition must be a boolean (sit), got "@ + opt_type_debug(c))
            } else {
                s1
            };
            let (s3, e3) = tc_block(loop_in(s2), env, body, None);
            (loop_out(s3, s2.loop_depth), e3)
        },
        Statement::Break => if st.loop_depth == 0 {
            (with_error(st, "`yut` can only be used inside loops"@), env)
        } else {
            (st, env)
        },
        Statement::Continue => if st.loop_depth == 0 {
            (with_error(st, "`shar` can only be used inside loops"@), env)
        } else {
            (st, env)
        },
        Statement::ForIn { index, iterator, collection, body, .. } => {
            let (s1, c) = tc_expr(st, env, collection);
            match c {
                None => (s1, env),
                Some(ct) => match ct {
                    TypeModel::Array(inner) => {
                        let e1 = match index {
                            Some(ix) => scopes_set(env, ix@, var_symbol(TypeModel::Kain)),
                            None => env,
                        };
                        let e2 = scopes_set(e1, iterator@, var_symbol(*inner));
                        let (s2, e3) = tc_block(loop_in(s1), e2, body, None);
                        (loop_out(s2, s1.loop_depth), e3)
                    },
                    _ => (
                        with_error(
                            s1,
                            "For-in collection must be an array (su<...>), got "@ + type_debug(ct),
                        ),
                        env,
                    ),
                },
            }
        },
        Statement::ExpressionStatement(e) => (tc_expr(st, env, e).0, env),
        Statement::Import { module, .. } => register_import(st, env, module@),
        Statement::StructDecl { name, fields, .. } => (
            TcModel { structs: st.structs.insert(name@, field_models(fields@)), ..st },
            env,
        ),
        Statement::MethodDecl {
            receiver_type,
            receiver_name,
            name,
            parameters,
            return_type,
            body,
            ..
        } => {
            let st1 = TcModel {
                methods: st.methods.insert(
                    (receiver_type@, name@),
                    (param_types(parameters@), return_type.model()),
                ),
                ..st
            };
            let inner = bind_params(
                scopes_set(
                    env.push(Map::empty()),
                    receiver_name@,
                    var_symbol(TypeModel::Struct(receiver_type@)),
                ),
                parameters@,
            );
            (tc_block(st1, inner, body, Some(return_type.model())).0, env)
        },
        Statement::InterfaceDecl { name, methods, .. } => (
            TcModel { interfaces: st.interfaces.insert(name@, method_sigs(methods@)), ..st },
            env,
        ),
        Statement::PackageDecl { .. } => (st, env),
        Statement::Go { call } => (tc_expr(st, env, call).0, env),
        Statement::Defer { call } => (tc_expr(st, env, call).0, env),
        Statement::TestDecl { body, .. } => (tc_block(st, env.push(Map::empty()), body, None).0, env),
        Statement::ForClassic { init, condition, post, body } => {
            let (s1, e1) = tc_opt_stmt(st, env, init);
            let s2 = match condition {
                Some(c) => tc_expr(s1, e1, c).0,
                None => s1,
            };
            let (s3, e3) = tc_opt_stmt(s2, e1, post);
            let (s4, e4) = tc_block(loop_in(s3), e3, body, None);
            (loop_out(s4, s3.loop_depth), e4)
        },
        Statement::Export { statement, .. } => tc_stmt(st, env, *statement),
    }
}

pub open spec fn tc_opt_stmt(
    st: TcModel,
    env: Seq<Map<Seq<char>, SymbolModel>>,
    o: Option<Box<Statement>>,
) -> (TcModel, Seq<Map<Seq<char>, SymbolModel>>)
    decreases o, 2nat,
{
    match o {
        Some(x) => tc_stmt(st, env, *x),
        None => (st, env),
    }
}

pub open spec fn tc_alt(st: TcModel, env: Seq<Map<Seq<char>, SymbolModel>>, alt: Option<IfAlternative>) -> (
    TcModel,
    Seq<Map<Seq<char>, SymbolModel>>,
)
    decreases alt, 2nat,
{
    match alt {
        None => (st, env),
        Some(IfAlternative::Else(b)) => tc_block(st, env, b, None),
        Some(IfAlternative::ElseIf(x)) => tc_stmt(st, env, *x),
    }
}

pub open spec fn tc_field_assign(st: TcModel, env: Seq<Map<Seq<char>, SymbolModel>>, s: Statement) -> TcModel
    decreases s, 2nat,
{
    match s {
        Statement::FieldAssign { object, field, value, .. } => match scopes_lookup(env, object@) {
            None => with_error(st, "Undeclared variable `"@ + object@ + "`"@),
            Some(sym) => match sym.ty {
                TypeModel::Struct(sn) => if !st.structs.contains_key(sn) {
                    with_error(st, "Unknown struct type `"@ + sn + "`"@)
                } else {
                    match find_field(st.structs[sn], field@) {
                        None => with_error(st, "Struct `"@ + sn + "` has no field `"@ + field@ + "`"@),
                        Some(ft) => {
                            let (s1, v) = tc_expr(st, env, value);
                            match v {
                                Some(vt) => if !assignable(ft, vt) {
                                    with_error(
                                        s1,
                                        "Type mismatch: cannot assign `"@ + type_debug(vt)
                                            + "` to field `"@ + object@ + "."@ + field@
                                            + "` of type `"@ + type_debug(ft) + "`"@,
                                    )
                                } else {
                                    s1
                                },
                                None => s1,
                            }
                        },
                    }
                },
                _ => with_error(
                    st,
                    "Cannot assign field `"@ + field@ + "` on non-struct variable `"@ + object@
                        + "`"@,
                ),
            },
        },
        _ => st,
    }
}

pub open spec fn tc_index_assign(st: TcModel, env: Seq<Map<Seq<char>, SymbolModel>>, s: Statement) -> TcModel
    decreases s, 2nat,
{
    match s {
        Statement::IndexAssign { object, index, value, .. } => {
            let (s1, o) = tc_expr(st, env, object);
            match o {
                None => s1,
                Some(ot) => {
                    let (s2, i) = tc_expr(s1, env, index);
                    match i {
                        None => s2,
                        Some(it) => {
                            let (s3, v) = tc_expr(s2, env, value);
                            match v {
                                None => s3,
                                Some(vt) => index_assign_result(s3, ot, it, vt),
                            }
                        },
                    }
                },
            }
        },
        _ => st,
    }
}

/// The errors an index assignment reports once the target, index and value
/// types are known.
pub open spec fn index_assign_result(st: TcModel, ot: TypeModel, it: TypeModel, vt: TypeModel) -> TcModel {
    match ot {
        TypeModel::Array(inner) => {
            let s4 = if it != TypeModel::Kain {
                with_error(st, "Array index assignment requires kain index"@)
            } else {
                st
            };
            if !assignable(*inner, vt) {
                with_error(
                    s4,
                    "Array assignment type mismatch: expected `"@ + type_debug(*inner) + "`, got `"@
                        + type_debug(vt) + "`"@,
                )
            } else {
                s4
            }
        },
        TypeModel::Dict(k, val) => {
            let s4 = if it != *k {
                with_error(
                    st,
                    "Map assignment key type mismatch: expected `"@ + type_debug(*k) + "`, got `"@
                        + type_debug(it) + "`"@,
                )
            } else {
                st
            };
            if !assignable(*val, vt) {
                with_error(
                    s4,
                    "Map assignment value type mismatch: expected `"@ + type_debug(*val) + "`, got `"@
                        + type_debug(vt) + "`"@,
                )
            } else {
                s4
            }
        },
        _ => with_error(
            st,
            "Index assignment requires array or map target, got `"@ + type_debug(ot) + "`"@,
        ),
    }
}

/// Checks a block's statements in order; with an expected return type,
/// each `pyan` value is checked once more against it.
pub open spec fn tc_block(
    st: TcModel,
    env: Seq<Map<Seq<char>, SymbolModel>>,
    b: BlockStatement,
    expected: Option<TypeModel>,
) -> (TcModel, Seq<Map<Seq<char>, SymbolModel>>)
    decreases b, 2nat,
{
    tc_stmts(st, env, b.statements@, expected)
}

pub open spec fn tc_stmts(
    st: TcModel,
    env: Seq<Map<Seq<char>, SymbolModel>>,
    ss: Seq<Statement>,
    expected: Option<TypeModel>,
) -> (TcModel, Seq<Map<Seq<char>, SymbolModel>>)
    decreases ss, 1nat,
{
    if ss.len() == 0 {
        (st, env)
    } else {
        let (s1, e1) = tc_block_item(st, env, ss[0], expected);
        tc_stmts(s1, e1, ss.drop_first(), expected)
    }
}

pub open spec fn tc_block_item(
    st: TcModel,
    env: Seq<Map<Seq<char>, SymbolModel>>,
    s: Statement,
    expected: Option<TypeModel>,
) -> (TcModel, Seq<Map<Seq<char>, SymbolModel>>)
    decreases s, 4nat,
{
    let (s1, e1) = tc_stmt(st, env, s);
    match (s, expected) {
        (Statement::Return { value }, Some(rt)) => {
            let (s2, a) = tc_expr(s1, e1, value);
            (
                match a {
                    Some(at) => if !assignable(rt, at) {
                        with_error(
                            s2,
                            "Return type mismatch: expected "@ + type_debug(rt) + ", got "@
                                + type_debug(at),
                        )
                    } else {
                        s2
                    },
                    None => s2,
                },
                e1,
            )
        },
        _ => (s1, e1),
    }
}

/// The declarations a program's first pass registers, in order: structs,
/// methods, interfaces, top-level functions and standard library imports.
pub open spec fn first_pass(st: TcModel, env: Seq<Map<Seq<char>, SymbolModel>>, ss: Seq<Statement>) -> (
    TcModel,
    Seq<Map<Seq<char>, SymbolModel>>,
)
    decreases ss.len(),
{
    if ss.len() == 0 {
        (st, env)
    } else {
        let (s0, e0) = first_pass(st, env, ss.drop_last());
        match ss.last() {
            Statement::StructDecl { name, fields, .. } => (
                TcModel { structs: s0.structs.insert(name@, field_models(fields@)), ..s0 },
                e0,
            ),
            Statement::MethodDecl { receiver_type, name, parameters, return_type, .. } => (
                TcModel {
                    methods: s0.methods.insert(
                        (receiver_type@, name@),
                        (param_types(parameters@), return_type.model()),
                    ),
                    ..s0
                },
                e0,
            ),
            Statement::InterfaceDecl { name, methods, .. } => (
                TcModel { interfaces: s0.interfaces.insert(name@, method_sigs(methods@)), ..s0 },
                e0,
            ),
            Statement::FunctionDecl { name, parameters, return_type, .. } => (
                s0,
                scopes_set(e0, name@, fn_symbol(param_types(parameters@), return_type.model())),
            ),
            Statement::Import { module, .. } => register_import(s0, e0, module@),
            _ => (s0, e0),
        }
    }
}

/// Checking a program: the first pass registers the declarations, the
/// second checks every top-level statement.
pub open spec fn tc_program(st: TcModel, env: Seq<Map<Seq<char>, SymbolModel>>, p: Program) -> (
    TcModel,
    Seq<Map<Seq<char>, SymbolModel>>,
) {
    let (s1, e1) = first_pass(st, env, p.statements@);
    tc_stmts(s1, e1, p.statements@, None)
}

// ----------------------------------------------------------------------
// The checker

/// A type error: its message and position (the checker reports 0:0).
#[derive(Debug, Clone)]
pub struct TypeCheckError {
    pub message: String,
    pub line: usize,
    pub column: usize,
}

impl TypeCheckError {
    /// The error as text: `[line:column] message`.
    pub fn to_text(&self) -> (r: String)
        ensures
            r@ == crate::parser::error_text(self.line, self.column, self.message@),
    {
        let mut buf: Vec<char> = Vec::new();
        buf.push('[');
        push_usize(&mut buf, self.line);
        buf.push(':');
        push_usize(&mut buf, self.column);
        buf.push(']');
        buf.push(' ');
        push_string(&mut buf, &self.message);
        string_of(buf.as_slice())
    }
}

pub open spec fn struct_map(v: Seq<(String, Vec<(String, Type)>)>) -> Map<Seq<char>, Seq<(Seq<char>, TypeModel)>>
    decreases v.len(),
{
    if v.len() == 0 {
        Map::empty()
    } else {
        struct_map(v.drop_last()).insert(v.last().0@, field_models(v.last().1@))
    }
}

pub open spec fn method_map(v: Seq<((String, String), (Vec<Type>, Type))>) -> Map<
    (Seq<char>, Seq<char>),
    (Seq<TypeModel>, TypeModel),
>
    decreases v.len(),
{
    if v.len() == 0 {
        Map::empty()
    } else {
        method_map(v.drop_last()).insert(
            (v.last().0.0@, v.last().0.1@),
            (models_of(v.last().1.0@), v.last().1.1.model()),
        )
    }
}

pub open spec fn sig_models(v: Seq<(String, Vec<Type>, Type)>) -> Seq<(Seq<char>, Seq<TypeModel>, TypeModel)> {
    Seq::new(v.len(), |i: int| (v[i].0@, models_of(v[i].1@), v[i].2.model()))
}

pub open spec fn interface_map(v: Seq<(String, Vec<(String, Vec<Type>, Type)>)>) -> Map<
    Seq<char>,
    Seq<(Seq<char>, Seq<TypeModel>, TypeModel)>,
>
    decreases v.len(),
{
    if v.len() == 0 {
        Map::empty()
    } else {
        interface_map(v.drop_last()).insert(v.last().0@, sig_models(v.last().1@))
    }
}

pub open spec fn opt_model(t: Option<Type>) -> Option<TypeModel> {
    match t {
        Some(x) => Some(x.model()),
        None => None,
    }
}

/// Checks the types of a program, collecting the errors it finds.
pub struct TypeChecker {
    pub errors: Vec<TypeCheckError>,
    /// The declared structs and their fields; a later declaration of a name
    /// replaces an earlier one.
    pub struct_registry: Vec<(String, Vec<(String, Type)>)>,
    /// The declared methods, keyed by type and method name, with their
    /// parameter and return types.
    pub method_registry: Vec<((String, String), (Vec<Type>, Type))>,
    /// The declared interfaces and their method signatures.
    pub interface_registry: Vec<(String, Vec<(String, Vec<Type>, Type)>)>,
    loop_depth: usize,
}

impl TypeChecker {
    /// The checker's state as plain values.
    pub closed spec fn model(&self) -> TcModel {
        TcModel {
            errors: Seq::new(self.errors@.len(), |i: int| self.errors@[i].message@),
            structs: struct_map(self.struct_registry@),
            methods: method_map(self.method_registry@),
            interfaces: interface_map(self.interface_registry@),
            loop_depth: self.loop_depth,
        }
    }

    /// Every error the checker reports is at line 0, column 0: the checker
    /// records no source position.
    pub closed spec fn wf(&self) -> bool {
        forall|i: int| 0 <= i < self.errors@.len() ==> (#[trigger] self.errors@[i]).line == 0
            && self.errors@[i].column == 0
    }

    /// The errors as they are listed.
    pub closed spec fn error_list(&self) -> Seq<TypeCheckError> {
        self.errors@
    }

    /// The errors the model lists are the messages of the listed errors.
    pub proof fn lemma_model_errors(&self)
        ensures
            self.model().errors.len() == self.error_list().len(),
            forall|i: int| 0 <= i < self.error_list().len() ==> #[trigger] self.model().errors[i]
                == self.error_list()[i].message@,
    {
    }

    /// The checker's errors, taken out of it.
    pub fn into_errors(self) -> (r: Vec<TypeCheckError>)
        ensures
            r@ == self.error_list(),
    {
        self.errors
    }

    /// A checker that has seen nothing.
    pub fn new() -> (c: TypeChecker)
        ensures
            c.wf(),
            c.model() == (TcModel {
                errors: Seq::empty(),
                structs: Map::empty(),
                methods: Map::empty(),
                interfaces: Map::empty(),
                loop_depth: 0,
            }),
    {
        let c = TypeChecker {
            errors: Vec::new(),
            struct_registry: Vec::new(),
            method_registry: Vec::new(),
            interface_registry: Vec::new(),
            loop_depth: 0,
        };
        assert(c.model() =~= (TcModel {
            errors: Seq::empty(),
            structs: Map::empty(),
            methods: Map::empty(),
            interfaces: Map::empty(),
            loop_depth: 0,
        }));
        c
    }

    /// Records an error at position 0:0.
    fn push_error(&mut self, message: String)
        requires
            old(self).wf(),
        ensures
            final(self).wf(),
            final(self).model() == with_error(old(self).model(), message@),
    {
        let ghost m = message@;
        self.errors.push(TypeCheckError { message, line: 0, column: 0 });
        assert(self.model() =~= with_error(old(self).model(), m));
    }

    /// Records an error with the given text.
    fn error_from(&mut self, text: &Vec<char>)
        requires
            old(self).wf(),
        ensures
            final(self).wf(),
            final(self).model() == with_error(old(self).model(), text@),
    {
        self.push_error(string_of(text.as_slice()));
    }

    fn insert_struct(&mut self, name: String, fields: Vec<(String, Type)>)
        requires
            old(self).wf(),
        ensures
            final(self).wf(),
            final(self).model() == (TcModel {
                structs: old(self).model().structs.insert(name@, field_models(fields@)),
                ..old(self).model()
            }),
    {
        let ghost n = name@;
        let ghost f = field_models(fields@);
        self.struct_registry.push((name, fields));
        assert(self.struct_registry@.drop_last() =~= old(self).struct_registry@);
        assert(self.model() =~= (TcModel { structs: old(self).model().structs.insert(n, f), ..old(self).model() }));
    }

    fn insert_method(&mut self, tname: String, name: String, params: Vec<Type>, ret: Type)
        requires
            old(self).wf(),
        ensures
            final(self).wf(),
            final(self).model() == (TcModel {
                methods: old(self).model().methods.insert(
                    (tname@, name@),
                    (models_of(params@), ret.model()),
                ),
                ..old(self).model()
            }),
    {
        let ghost k = (tname@, name@);
        let ghost v = (models_of(params@), ret.model());
        self.method_registry.push(((tname, name), (params, ret)));
        assert(self.method_registry@.drop_last() =~= old(self).method_registry@);
        assert(self.model() =~= (TcModel { methods: old(self).model().methods.insert(k, v), ..old(self).model() }));
    }

    fn insert_interface(&mut self, name: String, sigs: Vec<(String, Vec<Type>, Type)>)
        requires
            old(self).wf(),
        ensures
            final(self).wf(),
            final(self).model() == (TcModel {
                interfaces: old(self).model().interfaces.insert(name@, sig_models(sigs@)),
                ..old(self).model()
            }),
    {
        let ghost n = name@;
        let ghost g = sig_models(sigs@);
        self.interface_registry.push((name, sigs));
        assert(self.interface_registry@.drop_last() =~= old(self).interface_registry@);
        assert(self.model() =~= (TcModel {
            interfaces: old(self).model().interfaces.insert(n, g),
            ..old(self).model()
        }));
    }

    /// The declared fields of a struct, if it is known.
    fn lookup_struct(&self, name: &String) -> (r: Option<Vec<(String, Type)>>)
        ensures
            match r {
                Some(fs) => self.model().structs.contains_key(name@) && field_models(fs@)
                    == self.model().structs[name@],
                None => !self.model().structs.contains_key(name@),
            },
    {
        let v = &self.struct_registry;
        let mut i = v.len();
        assert(v@.subrange(0, i as int) =~= v@);
        while i > 0
            invariant
                i <= v.len(),
                v@ == self.struct_registry@,
                struct_map(v@.subrange(0, i as int)).contains_key(name@) == struct_map(v@).contains_key(name@),
                struct_map(v@.subrange(0, i as int)).contains_key(name@) ==> struct_map(v@.subrange(0, i as int))[name@]
                    == struct_map(v@)[name@],
            decreases i,
        {
            let ghost pre = v@.subrange(0, i as int);
            assert(pre.drop_last() =~= v@.subrange(0, i - 1));
            if strings_equal(&v[i - 1].0, name) {
                assert(pre.last() == v@[i - 1]);
                return Some(copy_fields(&v[i - 1].1));
            }
            i = i - 1;
        }
        assert(struct_map(v@.subrange(0, 0)) =~= Map::<Seq<char>, Seq<(Seq<char>, TypeModel)>>::empty());
        None
    }

    /// The parameter and return types of a method, if it is known.
    fn lookup_method(&self, tname: &String, name: &String) -> (r: Option<(Vec<Type>, Type)>)
        ensures
            match r {
                Some((ps, ret)) => self.model().methods.contains_key((tname@, name@))
                    && (models_of(ps@), ret.model()) == self.model().methods[(tname@, name@)],
                None => !self.model().methods.contains_key((tname@, name@)),
            },
    {
        let v = &self.method_registry;
        let ghost key = (tname@, name@);
        let mut i = v.len();
        assert(v@.subrange(0, i as int) =~= v@);
        while i > 0
            invariant
                i <= v.len(),
                v@ == self.method_registry@,
                key == (tname@, name@),
                method_map(v@.subrange(0, i as int)).contains_key(key) == method_map(v@).contains_key(key),
                method_map(v@.subrange(0, i as int)).contains_key(key) ==> method_map(v@.subrange(0, i as int))[key]
                    == method_map(v@)[key],
            decreases i,
        {
            let ghost pre = v@.subrange(0, i as int);
            assert(pre.drop_last() =~= v@.subrange(0, i - 1));
            if strings_equal(&v[i - 1].0.0, tname) && strings_equal(&v[i - 1].0.1, name) {
                assert(pre.last() == v@[i - 1]);
                return Some((crate::ast::copy_types(&v[i - 1].1.0), v[i - 1].1.1.clone()));
            }
            i = i - 1;
        }
        assert(method_map(v@.subrange(0, 0)) =~= Map::<(Seq<char>, Seq<char>), (Seq<TypeModel>, TypeModel)>::empty());
        None
    }
}

/// A copy of a list of named types.
pub fn copy_fields(fs: &Vec<(String, Type)>) -> (r: Vec<(String, Type)>)
    ensures
        field_models(r@) == field_models(fs@),
{
    let mut out: Vec<(String, Type)> = Vec::new();
    let mut i: usize = 0;
    while i < fs.len()
        invariant
            i <= fs.len(),
            out.len() == i,
            forall|k: int| 0 <= k < i ==> (#[trigger] out@[k]).0@ == fs@[k].0@ && out@[k].1.model() == fs@[k].1.model(),
        decreases fs.len() - i,
    {
        out.push((fs[i].0.clone(), fs[i].1.clone()));
        i = i + 1;
    }
    assert(field_models(out@) =~= field_models(fs@));
    out
}

pub open spec fn ref_model(t: Option<&Type>) -> Option<TypeModel> {
    match t {
        Some(x) => Some(x.model()),
        None => None,
    }
}

/// Binds each parameter to a variable of its type in the innermost scope.
fn bind_params_exec(env: &mut Environment, ps: &Vec<(String, Type, Span)>)
    ensures
        final(env).scopes() == bind_params(old(env).scopes(), ps@),
{
    let mut i: usize = 0;
    assert(ps@.subrange(0, 0) =~= Seq::<(String, Type, Span)>::empty());
    while i < ps.len()
        invariant
            i <= ps.len(),
            env.scopes() == bind_params(old(env).scopes(), ps@.subrange(0, i as int)),
        decreases ps.len() - i,
    {
        env.set(ps[i].0.clone(), Symbol { ty: ps[i].1.clone(), is_function: false, parameters: Vec::new() });
        proof {
            let pre = ps@.subrange(0, i + 1);
            assert(pre.drop_last() =~= ps@.subrange(0, i as int));
            assert(models_of(Seq::<Type>::empty()) =~= Seq::<TypeModel>::empty());
        }
        i = i + 1;
    }
    assert(ps@.subrange(0, ps.len() as int) =~= ps@);
}

/// The types of a parameter list.
fn param_type_list(ps: &Vec<(String, Type, Span)>) -> (r: Vec<Type>)
    ensures
        models_of(r@) == param_types(ps@),
{
    let mut out: Vec<Type> = Vec::new();
    let mut i: usize = 0;
    while i < ps.len()
        invariant
            i <= ps.len(),
            out.len() == i,
            forall|k: int| 0 <= k < i ==> (#[trigger] out@[k]).model() == ps@[k].1.model(),
        decreases ps.len() - i,
    {
        out.push(ps[i].1.clone());
        i = i + 1;
    }
    proof {
        lemma_models_len(out@);
    }
    assert(models_of(out@) =~= param_types(ps@));
    out
}

impl Environment {
    /// A copy of the environment.
    pub fn duplicate(&self) -> (r: Environment)
        ensures
            r.scopes() == self.scopes(),
        decreases self,
    {
        let mut store: Vec<(String, Symbol)> = Vec::new();
        let mut i: usize = 0;
        while i < self.store.len()
            invariant
                i <= self.store.len(),
                store.len() == i,
                forall|k: int| 0 <= k < i ==> (#[trigger] store@[k]).0@ == self.store@[k].0@
                    && store@[k].1.model() == self.store@[k].1.model(),
            decreases self.store.len() - i,
        {
            store.push((self.store[i].0.clone(), self.store[i].1.duplicate()));
            i = i + 1;
        }
        proof {
            lemma_scope_map_same(store@, self.store@);
        }
        let outer = match &self.outer {
            Some(o) => Some(Box::new(o.duplicate())),
            None => None,
        };
        Environment { store, outer }
    }
}

proof fn lemma_models_push(v: Seq<Type>, x: Type)
    ensures
        models_of(v.push(x)) == models_of(v).push(x.model()),
    decreases v.len(),
{
    if v.len() > 0 {
        lemma_models_push(v.drop_first(), x);
        assert(v.push(x).drop_first() =~= v.drop_first().push(x));
        assert(v.push(x)[0] == v[0]);
        assert(models_of(v.push(x)) == seq![v[0].model()] + models_of(v.drop_first().push(x)));
        assert(models_of(v) == seq![v[0].model()] + models_of(v.drop_first()));
        assert(models_of(v.push(x)) =~= models_of(v).push(x.model()));
    } else {
        assert(v.push(x).drop_first() =~= Seq::<Type>::empty());
        assert(models_of(v.push(x)) == seq![x.model()] + models_of(Seq::<Type>::empty()));
        assert(models_of(v.push(x)) =~= models_of(v).push(x.model()));
    }
}

proof fn lemma_scope_map_same(a: Seq<(String, Symbol)>, b: Seq<(String, Symbol)>)
    requires
        a.len() == b.len(),
        forall|k: int| 0 <= k < a.len() ==> (#[trigger] a[k]).0@ == b[k].0@ && a[k].1.model() == b[k].1.model(),
    ensures
        scope_map(a) == scope_map(b),
    decreases a.len(),
{
    if a.len() > 0 {
        lemma_scope_map_same(a.drop_last(), b.drop_last());
        assert(a.last().0@ == b.last().0@);
    }
}

impl TypeChecker {
    /// Checks an expression in the given scopes and gives its type, if it
    /// has one.
    pub fn check_expression(&mut self, e: &Expression, env: &Environment) -> (r: Option<Type>)
        requires
            old(self).wf(),
        ensures
            final(self).wf(),
            final(self).model() == tc_expr(old(self).model(), env.scopes(), *e).0,
            opt_model(r) == tc_expr(old(self).model(), env.scopes(), *e).1,
        decreases e, 3nat,
    {
        match e {
            Expression::IntegerLiteral(_) => Some(Type::Kain),
            Expression::FloatLiteral(_) => Some(Type::DaTha),
            Expression::StringLiteral(_) => Some(Type::Sar),
            Expression::BooleanLiteral(_) => Some(Type::Sit),
            Expression::NilLiteral => Some(Type::Nil),
            Expression::Identifier(name) => match env.get(name.as_str()) {
                Some(sym) => Some(sym.ty),
                None => {
                    let mut m: Vec<char> = Vec::new();
                    push_str(&mut m, "Undeclared identifier `");
                    push_string(&mut m, name);
                    push_str(&mut m, "`");
                    self.error_from(&m);
                    None
                },
            },
            Expression::ArrayLiteral { .. } => self.check_array(e, env),
            Expression::HashLiteral { .. } => self.check_hash(e, env),
            Expression::IndexExpression { .. } => self.check_index(e, env),
            Expression::SliceExpression { .. } => self.check_slice(e, env),
            Expression::ReadInput { prompt } => {
                let t = self.check_expression(prompt, env);
                match t {
                    None => None,
                    Some(pt) => {
                        match pt {
                            Type::Sar => {},
                            _ => {
                                self.push_error("Prompt must be a string (sar)".to_owned());
                            },
                        }
                        Some(Type::Sar)
                    },
                }
            },
            Expression::TypeConversion { target_type, argument } => {
                let t = self.check_expression(argument, env);
                match t {
                    None => None,
                    Some(_) => Some(target_type.clone()),
                }
            },
            Expression::Binary { .. } => self.check_binary(e, env),
            Expression::FunctionCall { .. } => self.check_call(e, env),
            Expression::MethodCall { .. } => self.check_method_call(e, env),
            Expression::FieldAccess { .. } => self.check_field_access(e, env),
            Expression::StructLiteral { .. } => self.check_struct_literal(e, env),
            Expression::ClosureLiteral { .. } => self.check_closure(e, env),
            Expression::ErrorCreate { message } => {
                self.check_expression(message, env);
                Some(Type::Error)
            },
            Expression::TupleLiteral { elements } => {
                let ts = self.check_tuple_items(elements, env);
                Some(Type::Tuple(ts))
            },
            Expression::ChannelMake { value_type, capacity } => {
                match capacity {
                    Some(c) => {
                        self.check_expression(c, env);
                    },
                    None => {},
                }
                Some(Type::Channel(Box::new((**value_type).clone())))
            },
            Expression::BaungCreate { timeout_ms } => {
                self.check_expression(timeout_ms, env);
                Some(Type::Baung)
            },
        }
    }

    fn check_tuple_items(&mut self, es: &Vec<Expression>, env: &Environment) -> (r: Vec<Type>)
        requires
            old(self).wf(),
        ensures
            final(self).wf(),
            final(self).model() == tc_tuple_items(old(self).model(), env.scopes(), es@).0,
            models_of(r@) == tc_tuple_items(old(self).model(), env.scopes(), es@).1,
        decreases es@, 1nat,
    {
        let ghost sc = env.scopes();
        let ghost full = tc_tuple_items(self.model(), sc, es@);
        let mut out: Vec<Type> = Vec::new();
        let mut i: usize = 0;
        assert(es@.subrange(0, es.len() as int) =~= es@);
        assert(models_of(out@) =~= Seq::<TypeModel>::empty());
        while i < es.len()
            invariant
                i <= es.len(),
                self.wf(),
                sc == env.scopes(),
                tc_tuple_items(self.model(), sc, es@.subrange(i as int, es.len() as int)).0 == full.0,
                models_of(out@) + tc_tuple_items(self.model(), sc, es@.subrange(i as int, es.len() as int)).1
                    == full.1,
            decreases es.len() - i,
        {
            let ghost sub = es@.subrange(i as int, es.len() as int);
            assert(sub.drop_first() =~= es@.subrange(i + 1, es.len() as int));
            assert(sub[0] == es@[i as int]);
            let ghost st0 = self.model();
            let ghost before = out@;
            let t = self.check_expression(&es[i], env);
            let ghost rest = tc_tuple_items(self.model(), sc, sub.drop_first());
            match t {
                Some(x) => {
                    out.push(x);
                    proof {
                        lemma_models_push(before, out@.last());
                        assert(out@ == before.push(out@.last()));
                        assert(models_of(out@) + rest.1 =~= models_of(before) + (seq![out@.last().model()]
                            + rest.1));
                    }
                },
                None => {},
            }
            i = i + 1;
        }
        assert(es@.subrange(es.len() as int, es.len() as int) =~= Seq::<Expression>::empty());
        assert(models_of(out@) + Seq::<TypeModel>::empty() =~= models_of(out@));
        out
    }
}

impl TypeChecker {
    fn check_array(&mut self, e: &Expression, env: &Environment) -> (r: Option<Type>)
        requires
            old(self).wf(),
            *e is ArrayLiteral,
        ensures
            final(self).wf(),
            final(self).model() == tc_array(old(self).model(), env.scopes(), *e).0,
            opt_model(r) == tc_array(old(self).model(), env.scopes(), *e).1,
        decreases e, 2nat,
    {
        match e {
            Expression::ArrayLiteral { elements } => {
                if elements.len() == 0 {
                    return None;
                }
                let t = self.check_expression(&elements[0], env);
                match t {
                    None => None,
                    Some(ft) => {
                        let ok = self.check_array_rest(elements, &ft, env);
                        if ok {
                            Some(Type::Array(Box::new(ft)))
                        } else {
                            None
                        }
                    },
                }
            },
            _ => None,
        }
    }

    fn check_array_rest(&mut self, es: &Vec<Expression>, ft: &Type, env: &Environment) -> (ok: bool)
        requires
            old(self).wf(),
            es.len() >= 1,
        ensures
            final(self).wf(),
            (final(self).model(), ok) == tc_array_rest(old(self).model(), env.scopes(), es@.drop_first(), ft.model()),
        decreases es@, 1nat,
    {
        let ghost sc = env.scopes();
        let ghost full = tc_array_rest(self.model(), sc, es@.drop_first(), ft.model());
        let mut i: usize = 1;
        assert(es@.subrange(1, es.len() as int) =~= es@.drop_first());
        while i < es.len()
            invariant
                1 <= i <= es.len(),
                self.wf(),
                sc == env.scopes(),
                tc_array_rest(self.model(), sc, es@.subrange(i as int, es.len() as int), ft.model()) == full,
                full == tc_array_rest(old(self).model(), env.scopes(), es@.drop_first(), ft.model()),
            decreases es.len() - i,
        {
            let ghost sub = es@.subrange(i as int, es.len() as int);
            assert(sub.drop_first() =~= es@.subrange(i + 1, es.len() as int));
            assert(sub[0] == es@[i as int]);
            let t = self.check_expression(&es[i], env);
            match t {
                None => {
                    return false;
                },
                Some(x) => {
                    if !type_eq(&x, ft) {
                        let mut m: Vec<char> = Vec::new();
                        push_str(&mut m, "Array elements must have the same type. Expected ");
                        push_type_debug(&mut m, ft);
                        push_str(&mut m, ", got ");
                        push_type_debug(&mut m, &x);
                        self.error_from(&m);
                    }
                },
            }
            i = i + 1;
        }
        assert(es@.subrange(es.len() as int, es.len() as int) =~= Seq::<Expression>::empty());
        true
    }

    fn check_hash(&mut self, e: &Expression, env: &Environment) -> (r: Option<Type>)
        requires
            old(self).wf(),
            *e is HashLiteral,
        ensures
            final(self).wf(),
            final(self).model() == tc_hash(old(self).model(), env.scopes(), *e).0,
            opt_model(r) == tc_hash(old(self).model(), env.scopes(), *e).1,
        decreases e, 2nat,
    {
        match e {
            Expression::HashLiteral { pairs } => {
                if pairs.len() == 0 {
                    return None;
                }
                let k = self.check_expression(&pairs[0].0, env);
                let kt = match k {
                    None => {
                        return None;
                    },
                    Some(x) => x,
                };
                let v = self.check_expression(&pairs[0].1, env);
                let vt = match v {
                    None => {
                        return None;
                    },
                    Some(x) => x,
                };
                let ok = self.check_hash_rest(pairs, &kt, &vt, env);
                if ok {
                    Some(Type::HashMap(Box::new(kt), Box::new(vt)))
                } else {
                    None
                }
            },
            _ => None,
        }
    }

    fn check_hash_rest(
        &mut self,
        ps: &Vec<(Expression, Expression)>,
        kt: &Type,
        vt: &Type,
        env: &Environment,
    ) -> (ok: bool)
        requires
            old(self).wf(),
            ps.len() >= 1,
        ensures
            final(self).wf(),
            (final(self).model(), ok) == tc_hash_rest(
                old(self).model(),
                env.scopes(),
                ps@.drop_first(),
                kt.model(),
                vt.model(),
            ),
        decreases ps@, 1nat,
    {
        let ghost sc = env.scopes();
        let ghost full = tc_hash_rest(self.model(), sc, ps@.drop_first(), kt.model(), vt.model());
        let mut i: usize = 1;
        assert(ps@.subrange(1, ps.len() as int) =~= ps@.drop_first());
        while i < ps.len()
            invariant
                1 <= i <= ps.len(),
                self.wf(),
                sc == env.scopes(),
                tc_hash_rest(self.model(), sc, ps@.subrange(i as int, ps.len() as int), kt.model(), vt.model())
                    == full,
                full == tc_hash_rest(old(self).model(), env.scopes(), ps@.drop_first(), kt.model(), vt.model()),
            decreases ps.len() - i,
        {
            let ghost sub = ps@.subrange(i as int, ps.len() as int);
            assert(sub.drop_first() =~= ps@.subrange(i + 1, ps.len() as int));
            assert(sub[0] == ps@[i as int]);
            let k = self.check_expression(&ps[i].0, env);
            let kx = match k {
                None => {
                    return false;
                },
                Some(x) => x,
            };
            let v = self.check_expression(&ps[i].1, env);
            let vx = match v {
                None => {
                    return false;
                },
                Some(x) => x,
            };
            if !type_eq(&kx, kt) || !type_eq(&vx, vt) {
                self.push_error("HashMap elements must have consistent types.".to_owned());
            }
            i = i + 1;
        }
        assert(ps@.subrange(ps.len() as int, ps.len() as int) =~= Seq::<(Expression, Expression)>::empty());
        true
    }

    fn check_index(&mut self, e: &Expression, env: &Environment) -> (r: Option<Type>)
        requires
            old(self).wf(),
            *e is IndexExpression,
        ensures
            final(self).wf(),
            final(self).model() == tc_index(old(self).model(), env.scopes(), *e).0,
            opt_model(r) == tc_index(old(self).model(), env.scopes(), *e).1,
        decreases e, 2nat,
    {
        match e {
            Expression::IndexExpression { left, index } => {
                let l = self.check_expression(left, env);
                let lt = match l {
                    None => {
                        return None;
                    },
                    Some(x) => x,
                };
                let i = self.check_expression(index, env);
                let it = match i {
                    None => {
                        return None;
                    },
                    Some(x) => x,
                };
                match lt {
                    Type::Array(inner) => {
                        match it {
                            Type::Kain => {},
                            _ => {
                                self.push_error("Array index must be an integer (kain)".to_owned());
                            },
                        }
                        Some(*inner)
                    },
                    Type::HashMap(k, v) => {
                        if !type_eq(&it, &k) {
                            let mut m: Vec<char> = Vec::new();
                            push_str(&mut m, "Map key type mismatch. Expected ");
                            push_type_debug(&mut m, &k);
                            self.error_from(&m);
                        }
                        Some(*v)
                    },
                    _ => {
                        let mut m: Vec<char> = Vec::new();
                        push_str(&mut m, "Cannot index into non-collection type ");
                        push_type_debug(&mut m, &lt);
                        self.error_from(&m);
                        None
                    },
                }
            },
            _ => None,
        }
    }

    fn check_slice_bound(&mut self, b: &Option<Box<Expression>>, msg: &str, env: &Environment) -> (ok: bool)
        requires
            old(self).wf(),
        ensures
            final(self).wf(),
            (final(self).model(), ok) == tc_slice_bound(old(self).model(), env.scopes(), *b, msg@),
        decreases b, 1nat,
    {
        match b {
            None => true,
            Some(x) => {
                let t = self.check_expression(x, env);
                match t {
                    None => false,
                    Some(bt) => {
                        match bt {
                            Type::Kain => {},
                            _ => {
                                self.push_error(msg.to_owned());
                            },
                        }
                        true
                    },
                }
            },
        }
    }

    fn check_slice(&mut self, e: &Expression, env: &Environment) -> (r: Option<Type>)
        requires
            old(self).wf(),
            *e is SliceExpression,
        ensures
            final(self).wf(),
            final(self).model() == tc_slice(old(self).model(), env.scopes(), *e).0,
            opt_model(r) == tc_slice(old(self).model(), env.scopes(), *e).1,
        decreases e, 2nat,
    {
        match e {
            Expression::SliceExpression { left, low, high } => {
                let l = self.check_expression(left, env);
                let lt = match l {
                    None => {
                        return None;
                    },
                    Some(x) => x,
                };
                match lt {
                    Type::Array(inner) => {
                        let ok1 = self.check_slice_bound(low, "Slice low index must be kain", env);
                        if !ok1 {
                            return None;
                        }
                        let ok2 = self.check_slice_bound(high, "Slice high index must be kain", env);
                        if !ok2 {
                            return None;
                        }
                        Some(Type::Array(inner))
                    },
                    _ => {
                        let mut m: Vec<char> = Vec::new();
                        push_str(&mut m, "Cannot slice non-array type ");
                        push_type_debug(&mut m, &lt);
                        self.error_from(&m);
                        None
                    },
                }
            },
            _ => None,
        }
    }

    fn check_binary(&mut self, e: &Expression, env: &Environment) -> (r: Option<Type>)
        requires
            old(self).wf(),
            *e is Binary,
        ensures
            final(self).wf(),
            final(self).model() == tc_binary(old(self).model(), env.scopes(), *e).0,
            opt_model(r) == tc_binary(old(self).model(), env.scopes(), *e).1,
        decreases e, 2nat,
    {
        match e {
            Expression::Binary { left, operator, right } => {
                let l = self.check_expression(left, env);
                let lt = match l {
                    None => {
                        return None;
                    },
                    Some(x) => x,
                };
                let r = self.check_expression(right, env);
                let rt = match r {
                    None => {
                        return None;
                    },
                    Some(x) => x,
                };
                match binary_exec(operator, &lt, &rt) {
                    Ok(t) => t,
                    Err(m) => {
                        self.error_from(&m);
                        None
                    },
                }
            },
            _ => None,
        }
    }
}

fn is_kain(t: &Type) -> (r: bool)
    ensures
        r == (t.model() == TypeModel::Kain),
{
    match t {
        Type::Kain => true,
        _ => false,
    }
}

fn is_datha(t: &Type) -> (r: bool)
    ensures
        r == (t.model() == TypeModel::DaTha),
{
    match t {
        Type::DaTha => true,
        _ => false,
    }
}

fn is_sar(t: &Type) -> (r: bool)
    ensures
        r == (t.model() == TypeModel::Sar),
{
    match t {
        Type::Sar => true,
        _ => false,
    }
}

fn is_nil(t: &Type) -> (r: bool)
    ensures
        r == (t.model() == TypeModel::Nil),
{
    match t {
        Type::Nil => true,
        _ => false,
    }
}

/// What a binary operator gives its operands' types: a type, none, or an
/// error message.
fn binary_exec(op: &String, l: &Type, r: &Type) -> (res: Result<Option<Type>, Vec<char>>)
    ensures
        match res {
            Ok(t) => binary_result(op@, l.model(), r.model()) == Ok::<Option<TypeModel>, Seq<char>>(opt_model(t)),
            Err(m) => binary_result(op@, l.model(), r.model()) == Err::<Option<TypeModel>, Seq<char>>(m@),
        },
{
    let o = op.as_str();
    if crate::text::str_eq(o, "+") || crate::text::str_eq(o, "-") || crate::text::str_eq(o, "*")
        || crate::text::str_eq(o, "/") {
        if is_kain(l) && is_kain(r) {
            Ok(Some(Type::Kain))
        } else if is_datha(l) && is_datha(r) {
            Ok(Some(Type::DaTha))
        } else if crate::text::str_eq(o, "+") && is_sar(l) && is_sar(r) {
            Ok(Some(Type::Sar))
        } else {
            let mut m: Vec<char> = Vec::new();
            push_str(&mut m, "Operator `");
            push_string(&mut m, op);
            push_str(&mut m, "` requires matching numeric types or strings");
            Err(m)
        }
    } else if crate::text::str_eq(o, "==") || crate::text::str_eq(o, "!=") {
        if is_nil(l) || is_nil(r) || type_eq(l, r) {
            Ok(Some(Type::Sit))
        } else {
            let mut m: Vec<char> = Vec::new();
            push_str(&mut m, "Cannot compare differing types ");
            push_type_debug(&mut m, l);
            push_str(&mut m, " and ");
            push_type_debug(&mut m, r);
            Err(m)
        }
    } else if crate::text::str_eq(o, ">") || crate::text::str_eq(o, "<") || crate::text::str_eq(o, ">=")
        || crate::text::str_eq(o, "<=") {
        if (is_kain(l) && is_kain(r)) || (is_datha(l) && is_datha(r)) {
            Ok(Some(Type::Sit))
        } else {
            let mut m: Vec<char> = Vec::new();
            push_str(&mut m, "Operator `");
            push_string(&mut m, op);
            push_str(&mut m, "` requires two integers (kain) or two floats (da_tha)");
            Err(m)
        }
    } else {
        Ok(None)
    }
}

/// The type of the first field of that name.
fn find_field_exec(fs: &Vec<(String, Type)>, name: &String) -> (r: Option<Type>)
    ensures
        opt_model(r) == find_field(field_models(fs@), name@),
{
    let ghost fm = field_models(fs@);
    let mut i: usize = 0;
    assert(fm.subrange(0, fs.len() as int) =~= fm);
    while i < fs.len()
        invariant
            i <= fs.len(),
            fm == field_models(fs@),
            find_field(fm.subrange(i as int, fs.len() as int), name@) == find_field(fm, name@),
        decreases fs.len() - i,
    {
        let ghost sub = fm.subrange(i as int, fs.len() as int);
        assert(sub.drop_first() =~= fm.subrange(i + 1, fs.len() as int));
        assert(sub[0] == fm[i as int]);
        if strings_equal(&fs[i].0, name) {
            return Some(fs[i].1.clone());
        }
        i = i + 1;
    }
    None
}

impl TypeChecker {
    fn check_call_args(
        &mut self,
        args: &Vec<Expression>,
        expected: &Vec<Type>,
        fname: &String,
        env: &Environment,
    ) -> (ok: bool)
        requires
            old(self).wf(),
            expected.len() == args.len(),
        ensures
            final(self).wf(),
            (final(self).model(), ok) == tc_call_args(
                old(self).model(),
                env.scopes(),
                args@,
                models_of(expected@),
                fname@,
                0,
            ),
        decreases args@, 1nat,
    {
        let ghost sc = env.scopes();
        let ghost em = models_of(expected@);
        let ghost full = tc_call_args(self.model(), sc, args@, em, fname@, 0);
        proof {
            lemma_models_len(expected@);
        }
        let mut i: usize = 0;
        assert(args@.subrange(0, args.len() as int) =~= args@);
        while i < args.len()
            invariant
                i <= args.len(),
                expected.len() == args.len(),
                self.wf(),
                sc == env.scopes(),
                em == models_of(expected@),
                em.len() == expected.len(),
                forall|k: int| 0 <= k < expected.len() ==> #[trigger] em[k] == expected@[k].model(),
                tc_call_args(self.model(), sc, args@.subrange(i as int, args.len() as int), em, fname@, i as nat)
                    == full,
                full == tc_call_args(old(self).model(), env.scopes(), args@, models_of(expected@), fname@, 0),
            decreases args.len() - i,
        {
            let ghost sub = args@.subrange(i as int, args.len() as int);
            assert(sub.drop_first() =~= args@.subrange(i + 1, args.len() as int));
            assert(sub[0] == args@[i as int]);
            let t = self.check_expression(&args[i], env);
            let at = match t {
                None => {
                    return false;
                },
                Some(x) => x,
            };
            if !is_assignable_exec(&expected[i], &at) {
                let mut m: Vec<char> = Vec::new();
                push_str(&mut m, "Argument ");
                push_usize(&mut m, i);
                push_str(&mut m, " to `");
                push_string(&mut m, fname);
                push_str(&mut m, "` expected type ");
                push_type_debug(&mut m, &expected[i]);
                push_str(&mut m, ", got ");
                push_type_debug(&mut m, &at);
                self.error_from(&m);
            }
            i = i + 1;
        }
        assert(args@.subrange(args.len() as int, args.len() as int) =~= Seq::<Expression>::empty());
        true
    }

    fn check_call(&mut self, e: &Expression, env: &Environment) -> (r: Option<Type>)
        requires
            old(self).wf(),
            *e is FunctionCall,
        ensures
            final(self).wf(),
            final(self).model() == tc_call(old(self).model(), env.scopes(), *e).0,
            opt_model(r) == tc_call(old(self).model(), env.scopes(), *e).1,
        decreases e, 2nat,
    {
        match e {
            Expression::FunctionCall { function, arguments } => {
                let f = function.as_str();
                if crate::text::str_eq(f, "htae") {
                    if arguments.len() != 2 {
                        self.push_error("htae() expects 2 arguments".to_owned());
                        return None;
                    }
                    let a = self.check_expression(&arguments[0], env);
                    let at = match a {
                        None => {
                            return None;
                        },
                        Some(x) => x,
                    };
                    let el = self.check_expression(&arguments[1], env);
                    let et = match el {
                        None => {
                            return None;
                        },
                        Some(x) => x,
                    };
                    match &at {
                        Type::Array(inner) => {
                            if !is_assignable_exec(inner, &et) {
                                let mut m: Vec<char> = Vec::new();
                                push_str(&mut m, "htae element type mismatch: expected ");
                                push_type_debug(&mut m, inner);
                                push_str(&mut m, ", got ");
                                push_type_debug(&mut m, &et);
                                self.error_from(&m);
                            }
                        },
                        _ => {
                            self.push_error("htae() first argument must be an array".to_owned());
                            return None;
                        },
                    }
                    Some(at)
                } else if crate::text::str_eq(f, "ashay") {
                    if arguments.len() != 1 {
                        self.push_error("ashay() expects 1 argument".to_owned());
                        return None;
                    }
                    let a = self.check_expression(&arguments[0], env);
                    let at = match a {
                        None => {
                            return None;
                        },
                        Some(x) => x,
                    };
                    match at {
                        Type::Array(_) | Type::Sar | Type::HashMap(_, _) => Some(Type::Kain),
                        _ => {
                            let mut m: Vec<char> = Vec::new();
                            push_str(&mut m, "ashay() argument must be array, string, or map, got ");
                            push_type_debug(&mut m, &at);
                            self.error_from(&m);
                            None
                        },
                    }
                } else {
                    match env.get(f) {
                        None => {
                            let mut m: Vec<char> = Vec::new();
                            push_str(&mut m, "Undeclared function `");
                            push_string(&mut m, function);
                            push_str(&mut m, "`");
                            self.error_from(&m);
                            None
                        },
                        Some(sym) => {
                            let sig: Option<(Vec<Type>, Type)> = match &sym.ty {
                                Type::Function { params, return_type } => Some(
                                    (crate::ast::copy_types(params), (**return_type).clone()),
                                ),
                                _ => if sym.is_function {
                                    Some((crate::ast::copy_types(&sym.parameters), sym.ty.clone()))
                                } else {
                                    None
                                },
                            };
                            match sig {
                                None => {
                                    let mut m: Vec<char> = Vec::new();
                                    push_str(&mut m, "`");
                                    push_string(&mut m, function);
                                    push_str(&mut m, "` is not a function");
                                    self.error_from(&m);
                                    None
                                },
                                Some((ps, ret)) => {
                                    proof {
                                        lemma_models_len(ps@);
                                    }
                                    if ps.len() != arguments.len() {
                                        let mut m: Vec<char> = Vec::new();
                                        push_str(&mut m, "Function `");
                                        push_string(&mut m, function);
                                        push_str(&mut m, "` expects ");
                                        push_usize(&mut m, ps.len());
                                        push_str(&mut m, " arguments, got ");
                                        push_usize(&mut m, arguments.len());
                                        self.error_from(&m);
                                        Some(ret)
                                    } else {
                                        let ok = self.check_call_args(arguments, &ps, function, env);
                                        if ok {
                                            Some(ret)
                                        } else {
                                            None
                                        }
                                    }
                                },
                            }
                        },
                    }
                }
            },
            _ => None,
        }
    }

    fn check_method_args(
        &mut self,
        args: &Vec<Expression>,
        expected: &Vec<Type>,
        mname: &String,
        env: &Environment,
    )
        requires
            old(self).wf(),
        ensures
            final(self).wf(),
            final(self).model() == tc_method_args(old(self).model(), env.scopes(), args@, models_of(expected@), mname@, 0),
        decreases args@, 1nat,
    {
        let ghost sc = env.scopes();
        let ghost em = models_of(expected@);
        let ghost full = tc_method_args(self.model(), sc, args@, em, mname@, 0);
        proof {
            lemma_models_len(expected@);
        }
        let mut i: usize = 0;
        assert(args@.subrange(0, args.len() as int) =~= args@);
        while i < args.len()
            invariant
                i <= args.len(),
                self.wf(),
                sc == env.scopes(),
                em == models_of(expected@),
                em.len() == expected.len(),
                forall|k: int| 0 <= k < expected.len() ==> #[trigger] em[k] == expected@[k].model(),
                tc_method_args(self.model(), sc, args@.subrange(i as int, args.len() as int), em, mname@, i as nat)
                    == full,
            decreases args.len() - i,
        {
            let ghost sub = args@.subrange(i as int, args.len() as int);
            assert(sub.drop_first() =~= args@.subrange(i + 1, args.len() as int));
            assert(sub[0] == args@[i as int]);
            let t = self.check_expression(&args[i], env);
            match t {
                None => {},
                Some(at) => {
                    if i < expected.len() && !is_assignable_exec(&expected[i], &at) {
                        let mut m: Vec<char> = Vec::new();
                        push_str(&mut m, "Method `");
                        push_string(&mut m, mname);
                        push_str(&mut m, "` argument ");
                        push_usize(&mut m, i);
                        push_str(&mut m, " expected `");
                        push_type_debug(&mut m, &expected[i]);
                        push_str(&mut m, "`, got `");
                        push_type_debug(&mut m, &at);
                        push_str(&mut m, "`");
                        self.error_from(&m);
                    }
                },
            }
            i = i + 1;
        }
        assert(args@.subrange(args.len() as int, args.len() as int) =~= Seq::<Expression>::empty());
    }

    fn check_method_struct(&mut self, ot: &Type, m: &String, args: &Vec<Expression>, env: &Environment) -> (r:
        Option<Type>)
        requires
            old(self).wf(),
        ensures
            final(self).wf(),
            final(self).model() == tc_method_struct(old(self).model(), env.scopes(), ot.model(), m@, args@).0,
            opt_model(r) == tc_method_struct(old(self).model(), env.scopes(), ot.model(), m@, args@).1,
        decreases args@, 2nat,
    {
        match ot {
            Type::Struct(tn) => {
                match self.lookup_method(tn, m) {
                    Some((ps, ret)) => {
                        proof {
                            lemma_models_len(ps@);
                        }
                        if ps.len() != args.len() {
                            let mut msg: Vec<char> = Vec::new();
                            push_str(&mut msg, "Method `");
                            push_string(&mut msg, m);
                            push_str(&mut msg, "` expects ");
                            push_usize(&mut msg, ps.len());
                            push_str(&mut msg, " arguments, got ");
                            push_usize(&mut msg, args.len());
                            self.error_from(&msg);
                        }
                        self.check_method_args(args, &ps, m, env);
                        return Some(ret);
                    },
                    None => {},
                }
            },
            _ => {},
        }
        let mut msg: Vec<char> = Vec::new();
        push_str(&mut msg, "Unknown method `");
        push_string(&mut msg, m);
        push_str(&mut msg, "` on type ");
        push_type_debug(&mut msg, ot);
        self.error_from(&msg);
        None
    }

    fn check_method_on(&mut self, ot: &Type, m: &String, args: &Vec<Expression>, env: &Environment) -> (r:
        Option<Type>)
        requires
            old(self).wf(),
        ensures
            final(self).wf(),
            final(self).model() == tc_method_on(old(self).model(), env.scopes(), ot.model(), m@, args@).0,
            opt_model(r) == tc_method_on(old(self).model(), env.scopes(), ot.model(), m@, args@).1,
        decreases args@, 3nat,
    {
        let mm = m.as_str();
        let sar = is_sar(ot);
        if sar && crate::text::str_eq(mm, "khwae") {
            if args.len() != 1 {
                self.push_error("khwae() expects 1 argument".to_owned());
                return None;
            }
            self.check_expression(&args[0], env);
            return Some(Type::Array(Box::new(Type::Sar)));
        }
        if sar && crate::text::str_eq(mm, "swal") {
            if args.len() != 1 {
                self.push_error("swal() expects 1 argument".to_owned());
                return None;
            }
            self.check_expression(&args[0], env);
            return Some(Type::Sit);
        }
        if sar && crate::text::str_eq(mm, "ashay") {
            return Some(Type::Kain);
        }
        match ot {
            Type::Array(inner) => {
                if crate::text::str_eq(mm, "push") {
                    if args.len() != 1 {
                        self.push_error("push() expects 1 argument".to_owned());
                        return None;
                    }
                    let t = self.check_expression(&args[0], env);
                    let at = match t {
                        None => {
                            return None;
                        },
                        Some(x) => x,
                    };
                    if !is_assignable_exec(inner, &at) {
                        let mut msg: Vec<char> = Vec::new();
                        push_str(&mut msg, "push() type mismatch: expected `");
                        push_type_debug(&mut msg, inner);
                        push_str(&mut msg, "`, got `");
                        push_type_debug(&mut msg, &at);
                        push_str(&mut msg, "`");
                        self.error_from(&msg);
                    }
                    return Some(Type::Array(Box::new((**inner).clone())));
                }
                if crate::text::str_eq(mm, "remove") {
                    if args.len() != 1 {
                        self.push_error("remove() expects 1 argument".to_owned());
                        return None;
                    }
                    let t = self.check_expression(&args[0], env);
                    let at = match t {
                        None => {
                            return None;
                        },
                        Some(x) => x,
                    };
                    if !is_kain(&at) {
                        self.push_error("remove() index must be kain".to_owned());
                    }
                    return Some(Type::Array(Box::new((**inner).clone())));
                }
                if crate::text::str_eq(mm, "len") {
                    if args.len() != 0 {
                        self.push_error("len() expects no arguments".to_owned());
                    }
                    return Some(Type::Kain);
                }
                self.check_method_struct(ot, m, args, env)
            },
            Type::HashMap(_, _) => {
                if crate::text::str_eq(mm, "len") {
                    if args.len() != 0 {
                        self.push_error("len() expects no arguments".to_owned());
                    }
                    return Some(Type::Kain);
                }
                self.check_method_struct(ot, m, args, env)
            },
            _ => self.check_method_struct(ot, m, args, env),
        }
    }

    fn check_method_call(&mut self, e: &Expression, env: &Environment) -> (r: Option<Type>)
        requires
            old(self).wf(),
            *e is MethodCall,
        ensures
            final(self).wf(),
            final(self).model() == tc_method_call(old(self).model(), env.scopes(), *e).0,
            opt_model(r) == tc_method_call(old(self).model(), env.scopes(), *e).1,
        decreases e, 2nat,
    {
        match e {
            Expression::MethodCall { object, method, arguments } => {
                let o = self.check_expression(object, env);
                match o {
                    None => None,
                    Some(ot) => self.check_method_on(&ot, method, arguments, env),
                }
            },
            _ => None,
        }
    }

    fn check_field_access(&mut self, e: &Expression, env: &Environment) -> (r: Option<Type>)
        requires
            old(self).wf(),
            *e is FieldAccess,
        ensures
            final(self).wf(),
            final(self).model() == tc_field_access(old(self).model(), env.scopes(), *e).0,
            opt_model(r) == tc_field_access(old(self).model(), env.scopes(), *e).1,
        decreases e, 2nat,
    {
        match e {
            Expression::FieldAccess { object, field } => {
                let o = self.check_expression(object, env);
                let ot = match o {
                    None => {
                        return None;
                    },
                    Some(x) => x,
                };
                match &ot {
                    Type::Struct(tn) => {
                        match self.lookup_struct(tn) {
                            Some(fields) => {
                                match find_field_exec(&fields, field) {
                                    Some(ft) => Some(ft),
                                    None => {
                                        let mut m: Vec<char> = Vec::new();
                                        push_str(&mut m, "Struct `");
                                        push_string(&mut m, tn);
                                        push_str(&mut m, "` has no field `");
                                        push_string(&mut m, field);
                                        push_str(&mut m, "`");
                                        self.error_from(&m);
                                        None
                                    },
                                }
                            },
                            None => {
                                let mut m: Vec<char> = Vec::new();
                                push_str(&mut m, "Unknown struct type `");
                                push_string(&mut m, tn);
                                push_str(&mut m, "`");
                                self.error_from(&m);
                                None
                            },
                        }
                    },
                    _ => {
                        let mut m: Vec<char> = Vec::new();
                        push_str(&mut m, "Cannot access field on non-struct type ");
                        push_type_debug(&mut m, &ot);
                        self.error_from(&m);
                        None
                    },
                }
            },
            _ => None,
        }
    }

    fn check_struct_fields(
        &mut self,
        fs: &Vec<(String, Expression)>,
        name: &String,
        decl: &Vec<(String, Type)>,
        env: &Environment,
    )
        requires
            old(self).wf(),
        ensures
            final(self).wf(),
            final(self).model() == tc_struct_fields(old(self).model(), env.scopes(), fs@, name@, field_models(decl@)),
        decreases fs@, 1nat,
    {
        let ghost sc = env.scopes();
        let ghost dm = field_models(decl@);
        let ghost full = tc_struct_fields(self.model(), sc, fs@, name@, dm);
        let mut i: usize = 0;
        assert(fs@.subrange(0, fs.len() as int) =~= fs@);
        while i < fs.len()
            invariant
                i <= fs.len(),
                self.wf(),
                sc == env.scopes(),
                dm == field_models(decl@),
                tc_struct_fields(self.model(), sc, fs@.subrange(i as int, fs.len() as int), name@, dm) == full,
            decreases fs.len() - i,
        {
            let ghost sub = fs@.subrange(i as int, fs.len() as int);
            assert(sub.drop_first() =~= fs@.subrange(i + 1, fs.len() as int));
            assert(sub[0] == fs@[i as int]);
            self.check_expression(&fs[i].1, env);
            if find_field_exec(decl, &fs[i].0).is_none() {
                let mut m: Vec<char> = Vec::new();
                push_str(&mut m, "Struct `");
                push_string(&mut m, name);
                push_str(&mut m, "` has no field `");
                push_string(&mut m, &fs[i].0);
                push_str(&mut m, "`");
                self.error_from(&m);
            }
            i = i + 1;
        }
        assert(fs@.subrange(fs.len() as int, fs.len() as int) =~= Seq::<(String, Expression)>::empty());
    }

    fn check_struct_literal(&mut self, e: &Expression, env: &Environment) -> (r: Option<Type>)
        requires
            old(self).wf(),
            *e is StructLiteral,
        ensures
            final(self).wf(),
            final(self).model() == tc_struct_literal(old(self).model(), env.scopes(), *e).0,
            opt_model(r) == tc_struct_literal(old(self).model(), env.scopes(), *e).1,
        decreases e, 2nat,
    {
        match e {
            Expression::StructLiteral { name, fields } => {
                match self.lookup_struct(name) {
                    Some(decl) => {
                        self.check_struct_fields(fields, name, &decl, env);
                        Some(Type::Struct(name.clone()))
                    },
                    None => {
                        let mut m: Vec<char> = Vec::new();
                        push_str(&mut m, "Unknown struct `");
                        push_string(&mut m, name);
                        push_str(&mut m, "`");
                        self.error_from(&m);
                        None
                    },
                }
            },
            _ => None,
        }
    }

    fn check_closure(&mut self, e: &Expression, env: &Environment) -> (r: Option<Type>)
        requires
            old(self).wf(),
            *e is ClosureLiteral,
        ensures
            final(self).wf(),
            final(self).model() == tc_expr(old(self).model(), env.scopes(), *e).0,
            opt_model(r) == tc_expr(old(self).model(), env.scopes(), *e).1,
        decreases e, 2nat,
    {
        match e {
            Expression::ClosureLiteral { parameters, return_type, body } => {
                let mut inner = Environment::new_enclosed(env.duplicate());
                bind_params_exec(&mut inner, parameters);
                self.check_block(body, &mut inner, Some(return_type));
                Some(Type::Function { params: param_type_list(parameters), return_type: Box::new(return_type.clone()) })
            },
            _ => None,
        }
    }
}

/// Whether a value of type `actual` can be used where `expected` is wanted.
pub fn is_assignable_exec(expected: &Type, actual: &Type) -> (r: bool)
    ensures
        r == assignable(expected.model(), actual.model()),
    decreases expected, 1nat,
{
    if is_nil(actual) {
        return true;
    }
    match (expected, actual) {
        (Type::Tuple(es), Type::Tuple(acts)) => {
            proof {
                lemma_models_len(es@);
                lemma_models_len(acts@);
            }
            es.len() == acts.len() && all_assignable_exec(es, acts)
        },
        (Type::Function { params: ep, return_type: er }, Type::Function { params: ap, return_type: ar }) => {
            proof {
                lemma_models_len(ep@);
                lemma_models_len(ap@);
            }
            ep.len() == ap.len() && all_assignable_exec(ep, ap) && is_assignable_exec(er, ar)
        },
        _ => type_eq(expected, actual),
    }
}

fn all_assignable_exec(es: &Vec<Type>, acts: &Vec<Type>) -> (r: bool)
    requires
        es.len() == acts.len(),
    ensures
        r == all_assignable(models_of(es@), models_of(acts@)),
    decreases es@, 0nat,
{
    let ghost em = models_of(es@);
    let ghost am = models_of(acts@);
    proof {
        lemma_models_len(es@);
        lemma_models_len(acts@);
    }
    let mut i: usize = 0;
    assert(em.subrange(0, es.len() as int) =~= em);
    assert(am.subrange(0, acts.len() as int) =~= am);
    while i < es.len()
        invariant
            i <= es.len(),
            es.len() == acts.len(),
            em == models_of(es@),
            am == models_of(acts@),
            em.len() == es.len(),
            am.len() == acts.len(),
            forall|k: int| 0 <= k < es.len() ==> #[trigger] em[k] == es@[k].model(),
            forall|k: int| 0 <= k < acts.len() ==> #[trigger] am[k] == acts@[k].model(),
            all_assignable(em.subrange(i as int, es.len() as int), am.subrange(i as int, acts.len() as int))
                == all_assignable(em, am),
        decreases es.len() - i,
    {
        let ghost se = em.subrange(i as int, es.len() as int);
        let ghost sa = am.subrange(i as int, acts.len() as int);
        assert(se.drop_first() =~= em.subrange(i + 1, es.len() as int));
        assert(sa.drop_first() =~= am.subrange(i + 1, acts.len() as int));
        assert(se[0] == em[i as int]);
        assert(sa[0] == am[i as int]);
        if !is_assignable_exec(&es[i], &acts[i]) {
            return false;
        }
        i = i + 1;
    }
    assert(em.subrange(es.len() as int, es.len() as int) =~= Seq::<TypeModel>::empty());
    true
}

impl TypeChecker {
    /// Whether a value of type `actual` can be used where `expected` is wanted.
    pub fn is_assignable(&self, expected: &Type, actual: &Type) -> (r: bool)
        ensures
            r == assignable(expected.model(), actual.model()),
    {
        is_assignable_exec(expected, actual)
    }

    fn set_loop_depth(&mut self, d: usize)
        requires
            old(self).wf(),
        ensures
            final(self).wf(),
            final(self).model() == loop_out(old(self).model(), d),
    {
        self.loop_depth = d;
        assert(self.model() =~= loop_out(old(self).model(), d));
    }

    fn enter_loop(&mut self) -> (saved: usize)
        requires
            old(self).wf(),
        ensures
            final(self).wf(),
            final(self).model() == loop_in(old(self).model()),
            saved == old(self).model().loop_depth,
    {
        let saved = self.loop_depth;
        if saved < usize::MAX {
            self.loop_depth = saved + 1;
        }
        assert(self.model() =~= loop_in(old(self).model()));
        saved
    }

    /// Checks the statements of a block in order; with an expected return
    /// type, the value of each `pyan` is checked against it.
    pub fn check_block(&mut self, b: &BlockStatement, env: &mut Environment, expected: Option<&Type>)
        requires
            old(self).wf(),
        ensures
            final(self).wf(),
            (final(self).model(), final(env).scopes()) == tc_block(
                old(self).model(),
                old(env).scopes(),
                *b,
                ref_model(expected),
            ),
        decreases b, 2nat,
    {
        self.check_stmts(&b.statements, env, expected);
    }

    fn check_stmts(&mut self, ss: &Vec<Statement>, env: &mut Environment, expected: Option<&Type>)
        requires
            old(self).wf(),
        ensures
            final(self).wf(),
            (final(self).model(), final(env).scopes()) == tc_stmts(
                old(self).model(),
                old(env).scopes(),
                ss@,
                ref_model(expected),
            ),
        decreases ss@, 1nat,
    {
        let ghost full = tc_stmts(self.model(), env.scopes(), ss@, ref_model(expected));
        let mut i: usize = 0;
        assert(ss@.subrange(0, ss.len() as int) =~= ss@);
        while i < ss.len()
            invariant
                i <= ss.len(),
                self.wf(),
                tc_stmts(self.model(), env.scopes(), ss@.subrange(i as int, ss.len() as int), ref_model(expected))
                    == full,
            decreases ss.len() - i,
        {
            let ghost sub = ss@.subrange(i as int, ss.len() as int);
            assert(sub.drop_first() =~= ss@.subrange(i + 1, ss.len() as int));
            assert(sub[0] == ss@[i as int]);
            self.check_block_item(&ss[i], env, expected);
            i = i + 1;
        }
        assert(ss@.subrange(ss.len() as int, ss.len() as int) =~= Seq::<Statement>::empty());
    }

    fn check_block_item(&mut self, s: &Statement, env: &mut Environment, expected: Option<&Type>)
        requires
            old(self).wf(),
        ensures
            final(self).wf(),
            (final(self).model(), final(env).scopes()) == tc_block_item(
                old(self).model(),
                old(env).scopes(),
                *s,
                ref_model(expected),
            ),
        decreases s, 4nat,
    {
        self.check_statement(s, env);
        match s {
            Statement::Return { value } => {
                match expected {
                    Some(rt) => {
                        let a = self.check_expression(value, env);
                        match a {
                            Some(at) => {
                                if !is_assignable_exec(rt, &at) {
                                    let mut m: Vec<char> = Vec::new();
                                    push_str(&mut m, "Return type mismatch: expected ");
                                    push_type_debug(&mut m, rt);
                                    push_str(&mut m, ", got ");
                                    push_type_debug(&mut m, &at);
                                    self.error_from(&m);
                                }
                            },
                            None => {},
                        }
                    },
                    None => {},
                }
            },
            _ => {},
        }
    }

    /// Checks a statement, declaring what it declares in the innermost scope.
    pub fn check_statement(&mut self, s: &Statement, env: &mut Environment)
        requires
            old(self).wf(),
        ensures
            final(self).wf(),
            (final(self).model(), final(env).scopes()) == tc_stmt(old(self).model(), old(env).scopes(), *s),
        decreases s, 3nat,
    {
        match s {
            Statement::Let { .. } => self.check_let(s, env),
            Statement::LetDestructured { .. } => self.check_let_destructured(s, env),
            Statement::Assign { .. } => self.check_assign(s, env),
            Statement::FieldAssign { .. } => self.check_field_assign(s, env),
            Statement::IndexAssign { .. } => self.check_index_assign(s, env),
            Statement::FunctionDecl { .. } => self.check_function_decl(s, env),
            Statement::Return { value } => {
                self.check_expression(value, env);
            },
            Statement::Print { value } => {
                self.check_expression(value, env);
            },
            Statement::If { .. } => self.check_if(s, env),
            Statement::While { .. } => self.check_while(s, env),
            Statement::Break => {
                if self.loop_depth == 0 {
                    self.push_error("`yut` can only be used inside loops".to_owned());
                }
            },
            Statement::Continue => {
                if self.loop_depth == 0 {
                    self.push_error("`shar` can only be used inside loops".to_owned());
                }
            },
            Statement::ForIn { .. } => self.check_for_in(s, env),
            Statement::ExpressionStatement(x) => {
                self.check_expression(x, env);
            },
            Statement::Import { module, .. } => {
                self.register_stdlib_import(module.as_str(), env);
            },
            Statement::StructDecl { name, fields, .. } => {
                self.insert_struct(name.clone(), copy_fields(fields));
            },
            Statement::MethodDecl { .. } => self.check_method_decl(s, env),
            Statement::InterfaceDecl { name, methods, .. } => {
                let sigs = method_sig_list(methods);
                self.insert_interface(name.clone(), sigs);
            },
            Statement::PackageDecl { .. } => {},
            Statement::Go { call } => {
                self.check_expression(call, env);
            },
            Statement::Defer { call } => {
                self.check_expression(call, env);
            },
            Statement::TestDecl { body, .. } => {
                let mut inner = Environment::new_enclosed(env.duplicate());
                self.check_block(body, &mut inner, None);
            },
            Statement::ForClassic { .. } => self.check_for_classic(s, env),
            Statement::Export { statement, .. } => self.check_statement(statement, env),
        }
    }

    fn check_let(&mut self, s: &Statement, env: &mut Environment)
        requires
            old(self).wf(),
            *s is Let,
        ensures
            final(self).wf(),
            (final(self).model(), final(env).scopes()) == tc_stmt(old(self).model(), old(env).scopes(), *s),
        decreases s, 2nat,
    {
        match s {
            Statement::Let { name, value, ty, .. } => {
                let v = self.check_expression(value, env);
                match v {
                    None => {},
                    Some(vt) => {
                        if !is_assignable_exec(ty, &vt) {
                            let mut m: Vec<char> = Vec::new();
                            push_str(&mut m, "Type mismatch: cannot assign `");
                            push_type_debug(&mut m, &vt);
                            push_str(&mut m, "` to variable `");
                            push_string(&mut m, name);
                            push_str(&mut m, "` of type `");
                            push_type_debug(&mut m, ty);
                            push_str(&mut m, "`");
                            self.error_from(&m);
                        } else {
                            env.set(name.clone(), Symbol { ty: ty.clone(), is_function: false, parameters: Vec::new() });
                            assert(models_of(Seq::<Type>::empty()) =~= Seq::<TypeModel>::empty());
                        }
                    },
                }
            },
            _ => {},
        }
    }

    fn check_destructure(&mut self, names: &Vec<(String, Type, Span)>, ts: &Vec<Type>, env: &mut Environment)
        requires
            old(self).wf(),
            names.len() == ts.len(),
        ensures
            final(self).wf(),
            (final(self).model(), final(env).scopes()) == tc_destructure(
                old(self).model(),
                old(env).scopes(),
                names@,
                models_of(ts@),
            ),
    {
        let ghost tm = models_of(ts@);
        let ghost full = tc_destructure(self.model(), env.scopes(), names@, tm);
        proof {
            lemma_models_len(ts@);
        }
        let mut i: usize = 0;
        assert(names@.subrange(0, names.len() as int) =~= names@);
        assert(tm.subrange(0, ts.len() as int) =~= tm);
        while i < names.len()
            invariant
                i <= names.len(),
                names.len() == ts.len(),
                self.wf(),
                tm == models_of(ts@),
                tm.len() == ts.len(),
                forall|k: int| 0 <= k < ts.len() ==> #[trigger] tm[k] == ts@[k].model(),
                tc_destructure(
                    self.model(),
                    env.scopes(),
                    names@.subrange(i as int, names.len() as int),
                    tm.subrange(i as int, ts.len() as int),
                ) == full,
            decreases names.len() - i,
        {
            let ghost sn = names@.subrange(i as int, names.len() as int);
            let ghost st = tm.subrange(i as int, ts.len() as int);
            assert(sn.drop_first() =~= names@.subrange(i + 1, names.len() as int));
            assert(st.drop_first() =~= tm.subrange(i + 1, ts.len() as int));
            assert(sn[0] == names@[i as int]);
            assert(st[0] == tm[i as int]);
            if !is_assignable_exec(&names[i].1, &ts[i]) {
                let mut m: Vec<char> = Vec::new();
                push_str(&mut m, "Type mismatch in destructuring: expected ");
                push_type_debug(&mut m, &names[i].1);
                push_str(&mut m, " for `");
                push_string(&mut m, &names[i].0);
                push_str(&mut m, "`, got ");
                push_type_debug(&mut m, &ts[i]);
                self.error_from(&m);
            }
            env.set(names[i].0.clone(), Symbol { ty: names[i].1.clone(), is_function: false, parameters: Vec::new() });
            assert(models_of(Seq::<Type>::empty()) =~= Seq::<TypeModel>::empty());
            i = i + 1;
        }
        assert(names@.subrange(names.len() as int, names.len() as int) =~= Seq::<(String, Type, Span)>::empty());
    }

    fn check_let_destructured(&mut self, s: &Statement, env: &mut Environment)
        requires
            old(self).wf(),
            *s is LetDestructured,
        ensures
            final(self).wf(),
            (final(self).model(), final(env).scopes()) == tc_stmt(old(self).model(), old(env).scopes(), *s),
        decreases s, 2nat,
    {
        match s {
            Statement::LetDestructured { names, value } => {
                let v = self.check_expression(value, env);
                match v {
                    Some(Type::Tuple(ts)) => {
                        proof {
                            lemma_models_len(ts@);
                        }
                        if ts.len() != names.len() {
                            let mut m: Vec<char> = Vec::new();
                            push_str(&mut m, "Destructuring mismatch: expected ");
                            push_usize(&mut m, names.len());
                            push_str(&mut m, " values, got ");
                            push_usize(&mut m, ts.len());
                            self.error_from(&m);
                        } else {
                            self.check_destructure(names, &ts, env);
                        }
                    },
                    _ => {},
                }
            },
            _ => {},
        }
    }

    fn check_assign(&mut self, s: &Statement, env: &mut Environment)
        requires
            old(self).wf(),
            *s is Assign,
        ensures
            final(self).wf(),
            (final(self).model(), final(env).scopes()) == tc_stmt(old(self).model(), old(env).scopes(), *s),
        decreases s, 2nat,
    {
        match s {
            Statement::Assign { name, value, .. } => {
                match env.get(name.as_str()) {
                    None => {
                        let mut m: Vec<char> = Vec::new();
                        push_str(&mut m, "Undeclared variable `");
                        push_string(&mut m, name);
                        push_str(&mut m, "`");
                        self.error_from(&m);
                    },
                    Some(sym) => {
                        let v = self.check_expression(value, env);
                        match v {
                            Some(vt) => {
                                if !is_assignable_exec(&sym.ty, &vt) {
                                    let mut m: Vec<char> = Vec::new();
                                    push_str(&mut m, "Type mismatch: cannot assign `");
                                    push_type_debug(&mut m, &vt);
                                    push_str(&mut m, "` to variable `");
                                    push_string(&mut m, name);
                                    push_str(&mut m, "` of type `");
                                    push_type_debug(&mut m, &sym.ty);
                                    push_str(&mut m, "`");
                                    self.error_from(&m);
                                }
                            },
                            None => {},
                        }
                    },
                }
            },
            _ => {},
        }
    }

    fn check_field_assign(&mut self, s: &Statement, env: &mut Environment)
        requires
            old(self).wf(),
            *s is FieldAssign,
        ensures
            final(self).wf(),
            final(self).model() == tc_field_assign(old(self).model(), old(env).scopes(), *s),
            final(env).scopes() == old(env).scopes(),
        decreases s, 2nat,
    {
        match s {
            Statement::FieldAssign { object, field, value, .. } => {
                let found = env.get(object.as_str());
                match found {
                    None => {
                        let mut m: Vec<char> = Vec::new();
                        push_str(&mut m, "Undeclared variable `");
                        push_string(&mut m, object);
                        push_str(&mut m, "`");
                        self.error_from(&m);
                    },
                    Some(sym) => {
                        match &sym.ty {
                            Type::Struct(sn) => {
                                let decl = self.lookup_struct(sn);
                                match decl {
                                    None => {
                                        let mut m: Vec<char> = Vec::new();
                                        push_str(&mut m, "Unknown struct type `");
                                        push_string(&mut m, sn);
                                        push_str(&mut m, "`");
                                        self.error_from(&m);
                                    },
                                    Some(fields) => {
                                        let fo = find_field_exec(&fields, field);
                                        match fo {
                                            None => {
                                                let mut m: Vec<char> = Vec::new();
                                                push_str(&mut m, "Struct `");
                                                push_string(&mut m, sn);
                                                push_str(&mut m, "` has no field `");
                                                push_string(&mut m, field);
                                                push_str(&mut m, "`");
                                                self.error_from(&m);
                                            },
                                            Some(ft) => {
                                                let v = self.check_expression(value, env);
                                                match v {
                                                    Some(vt) => {
                                                        if !is_assignable_exec(&ft, &vt) {
                                                            let mut m: Vec<char> = Vec::new();
                                                            push_str(&mut m, "Type mismatch: cannot assign `");
                                                            push_type_debug(&mut m, &vt);
                                                            push_str(&mut m, "` to field `");
                                                            push_string(&mut m, object);
                                                            push_str(&mut m, ".");
                                                            push_string(&mut m, field);
                                                            push_str(&mut m, "` of type `");
                                                            push_type_debug(&mut m, &ft);
                                                            push_str(&mut m, "`");
                                                            self.error_from(&m);
                                                        }
                                                    },
                                                    None => {},
                                                }
                                            },
                                        }
                                    },
                                }
                            },
                            _ => {
                                let mut m: Vec<char> = Vec::new();
                                push_str(&mut m, "Cannot assign field `");
                                push_string(&mut m, field);
                                push_str(&mut m, "` on non-struct variable `");
                                push_string(&mut m, object);
                                push_str(&mut m, "`");
                                self.error_from(&m);
                            },
                        }
                    },
                }
            },
            _ => {},
        }
    }
}

/// The method signatures of an interface declaration.
fn method_sig_list(ms: &Vec<(String, Vec<(String, Type)>, Type)>) -> (r: Vec<(String, Vec<Type>, Type)>)
    ensures
        sig_models(r@) == method_sigs(ms@),
{
    let mut out: Vec<(String, Vec<Type>, Type)> = Vec::new();
    let mut i: usize = 0;
    while i < ms.len()
        invariant
            i <= ms.len(),
            out.len() == i,
            forall|k: int| 0 <= k < i ==> (#[trigger] sig_models(out@)[k]) == method_sigs(ms@)[k],
            sig_models(out@).len() == i,
        decreases ms.len() - i,
    {
        let ts = field_type_list(&ms[i].1);
        let ghost before = out@;
        out.push((ms[i].0.clone(), ts, ms[i].2.clone()));
        proof {
            assert forall|k: int| 0 <= k < i + 1 implies (#[trigger] sig_models(out@)[k]) == method_sigs(ms@)[k] by {
                if k < i {
                    assert(out@[k] == before[k]);
                    assert(sig_models(before)[k] == method_sigs(ms@)[k]);
                }
            }
        }
        i = i + 1;
    }
    assert(sig_models(out@) =~= method_sigs(ms@));
    out
}

/// The types of named fields.
fn field_type_list(fs: &Vec<(String, Type)>) -> (r: Vec<Type>)
    ensures
        models_of(r@) == field_types(fs@),
{
    let mut out: Vec<Type> = Vec::new();
    let mut i: usize = 0;
    while i < fs.len()
        invariant
            i <= fs.len(),
            out.len() == i,
            forall|k: int| 0 <= k < i ==> (#[trigger] out@[k]).model() == fs@[k].1.model(),
        decreases fs.len() - i,
    {
        out.push(fs[i].1.clone());
        i = i + 1;
    }
    proof {
        lemma_models_len(out@);
    }
    assert(models_of(out@) =~= field_types(fs@));
    out
}

impl TypeChecker {
    #[verifier::rlimit(40)]
    fn check_index_assign(&mut self, s: &Statement, env: &mut Environment)
        requires
            old(self).wf(),
            *s is IndexAssign,
        ensures
            final(self).wf(),
            final(self).model() == tc_index_assign(old(self).model(), old(env).scopes(), *s),
            final(env).scopes() == old(env).scopes(),
        decreases s, 2nat,
    {
        match s {
            Statement::IndexAssign { object, index, value, .. } => {
                let o = self.check_expression(object, env);
                if let Some(ot) = o {
                    let i = self.check_expression(index, env);
                    if let Some(it) = i {
                        let v0 = self.check_expression(value, env);
                        if let Some(vt) = v0 {
                            self.index_assign_tail(&ot, &it, &vt);
                        }
                    }
                }
            },
            _ => {},
        }
    }

    fn index_assign_tail(&mut self, ot: &Type, it: &Type, vt: &Type)
        requires
            old(self).wf(),
        ensures
            final(self).wf(),
            final(self).model() == index_assign_result(old(self).model(), ot.model(), it.model(), vt.model()),
    {
                match ot {
                    Type::Array(inner) => {
                        if !is_kain(&it) {
                            self.push_error("Array index assignment requires kain index".to_owned());
                        }
                        if !is_assignable_exec(inner, &vt) {
                            let mut m: Vec<char> = Vec::new();
                            push_str(&mut m, "Array assignment type mismatch: expected `");
                            push_type_debug(&mut m, inner);
                            push_str(&mut m, "`, got `");
                            push_type_debug(&mut m, &vt);
                            push_str(&mut m, "`");
                            self.error_from(&m);
                        }
                    },
                    Type::HashMap(k, val) => {
                        if !type_eq(&it, k) {
                            let mut m: Vec<char> = Vec::new();
                            push_str(&mut m, "Map assignment key type mismatch: expected `");
                            push_type_debug(&mut m, k);
                            push_str(&mut m, "`, got `");
                            push_type_debug(&mut m, &it);
                            push_str(&mut m, "`");
                            self.error_from(&m);
                        }
                        if !is_assignable_exec(val, &vt) {
                            let mut m: Vec<char> = Vec::new();
                            push_str(&mut m, "Map assignment value type mismatch: expected `");
                            push_type_debug(&mut m, val);
                            push_str(&mut m, "`, got `");
                            push_type_debug(&mut m, &vt);
                            push_str(&mut m, "`");
                            self.error_from(&m);
                        }
                    },
                    _ => {
                        let mut m: Vec<char> = Vec::new();
                        push_str(&mut m, "Index assignment requires array or map target, got `");
                        push_type_debug(&mut m, &ot);
                        push_str(&mut m, "`");
                        self.error_from(&m);
                    },
                }
    }

    fn check_function_decl(&mut self, s: &Statement, env: &mut Environment)
        requires
            old(self).wf(),
            *s is FunctionDecl,
        ensures
            final(self).wf(),
            (final(self).model(), final(env).scopes()) == tc_stmt(old(self).model(), old(env).scopes(), *s),
        decreases s, 2nat,
    {
        match s {
            Statement::FunctionDecl { name, parameters, return_type, body, .. } => {
                let ps = param_type_list(parameters);
                let ps2 = param_type_list(parameters);
                env.set(
                    name.clone(),
                    Symbol {
                        ty: Type::Function { params: ps, return_type: Box::new(return_type.clone()) },
                        is_function: true,
                        parameters: ps2,
                    },
                );
                let mut inner = Environment::new_enclosed(env.duplicate());
                bind_params_exec(&mut inner, parameters);
                self.check_block(body, &mut inner, Some(return_type));
            },
            _ => {},
        }
    }

    fn check_if(&mut self, s: &Statement, env: &mut Environment)
        requires
            old(self).wf(),
            *s is If,
        ensures
            final(self).wf(),
            (final(self).model(), final(env).scopes()) == tc_stmt(old(self).model(), old(env).scopes(), *s),
        decreases s, 2nat,
    {
        match s {
            Statement::If { condition, consequence, alternative } => {
                let c = self.check_expression(condition, env);
                let is_sit = match &c {
                    Some(Type::Sit) => true,
                    _ => false,
                };
                if !is_sit {
                    let mut m: Vec<char> = Vec::new();
                    push_str(&mut m, "If condition must be a boolean (sit), got ");
                    push_opt_type_debug(&mut m, &c);
                    self.error_from(&m);
                }
                self.check_block(consequence, env, None);
                self.check_alt(alternative, env);
            },
            _ => {},
        }
    }

    fn check_alt(&mut self, alt: &Option<IfAlternative>, env: &mut Environment)
        requires
            old(self).wf(),
        ensures
            final(self).wf(),
            (final(self).model(), final(env).scopes()) == tc_alt(old(self).model(), old(env).scopes(), *alt),
        decreases alt, 2nat,
    {
        match alt {
            None => {},
            Some(IfAlternative::Else(b)) => self.check_block(b, env, None),
            Some(IfAlternative::ElseIf(x)) => self.check_statement(x, env),
        }
    }

    fn check_while(&mut self, s: &Statement, env: &mut Environment)
        requires
            old(self).wf(),
            *s is While,
        ensures
            final(self).wf(),
            (final(self).model(), final(env).scopes()) == tc_stmt(old(self).model(), old(env).scopes(), *s),
        decreases s, 2nat,
    {
        match s {
            Statement::While { condition, body } => {
                let c = self.check_expression(condition, env);
                let is_sit = match &c {
                    Some(Type::Sit) => true,
                    _ => false,
                };
                if !is_sit {
                    let mut m: Vec<char> = Vec::new();
                    push_str(&mut m, "While condition must be a boolean (sit), got ");
                    push_opt_type_debug(&mut m, &c);
                    self.error_from(&m);
                }
                let saved = self.enter_loop();
                self.check_block(body, env, None);
                self.set_loop_depth(saved);
            },
            _ => {},
        }
    }

    fn check_for_in(&mut self, s: &Statement, env: &mut Environment)
        requires
            old(self).wf(),
            *s is ForIn,
        ensures
            final(self).wf(),
            (final(self).model(), final(env).scopes()) == tc_stmt(old(self).model(), old(env).scopes(), *s),
        decreases s, 2nat,
    {
        match s {
            Statement::ForIn { index, iterator, collection, body, .. } => {
                let c = self.check_expression(collection, env);
                match c {
                    None => {},
                    Some(ct) => {
                        match &ct {
                            Type::Array(inner) => {
                                match index {
                                    Some(ix) => {
                                        env.set(ix.clone(), Symbol { ty: Type::Kain, is_function: false, parameters: Vec::new() });
                                    },
                                    None => {},
                                }
                                env.set(iterator.clone(), Symbol { ty: (**inner).clone(), is_function: false, parameters: Vec::new() });
                                assert(models_of(Seq::<Type>::empty()) =~= Seq::<TypeModel>::empty());
                                let saved = self.enter_loop();
                                self.check_block(body, env, None);
                                self.set_loop_depth(saved);
                            },
                            _ => {
                                let mut m: Vec<char> = Vec::new();
                                push_str(&mut m, "For-in collection must be an array (su<...>), got ");
                                push_type_debug(&mut m, &ct);
                                self.error_from(&m);
                            },
                        }
                    },
                }
            },
            _ => {},
        }
    }

    fn check_method_decl(&mut self, s: &Statement, env: &mut Environment)
        requires
            old(self).wf(),
            *s is MethodDecl,
        ensures
            final(self).wf(),
            (final(self).model(), final(env).scopes()) == tc_stmt(old(self).model(), old(env).scopes(), *s),
        decreases s, 2nat,
    {
        match s {
            Statement::MethodDecl { receiver_type, receiver_name, name, parameters, return_type, body, .. } => {
                self.insert_method(receiver_type.clone(), name.clone(), param_type_list(parameters), return_type.clone());
                let mut inner = Environment::new_enclosed(env.duplicate());
                inner.set(
                    receiver_name.clone(),
                    Symbol { ty: Type::Struct(receiver_type.clone()), is_function: false, parameters: Vec::new() },
                );
                assert(models_of(Seq::<Type>::empty()) =~= Seq::<TypeModel>::empty());
                bind_params_exec(&mut inner, parameters);
                self.check_block(body, &mut inner, Some(return_type));
            },
            _ => {},
        }
    }

    fn check_opt_stmt(&mut self, o: &Option<Box<Statement>>, env: &mut Environment)
        requires
            old(self).wf(),
        ensures
            final(self).wf(),
            (final(self).model(), final(env).scopes()) == tc_opt_stmt(old(self).model(), old(env).scopes(), *o),
        decreases o, 2nat,
    {
        match o {
            Some(x) => self.check_statement(x, env),
            None => {},
        }
    }

    fn check_for_classic(&mut self, s: &Statement, env: &mut Environment)
        requires
            old(self).wf(),
            *s is ForClassic,
        ensures
            final(self).wf(),
            (final(self).model(), final(env).scopes()) == tc_stmt(old(self).model(), old(env).scopes(), *s),
        decreases s, 2nat,
    {
        match s {
            Statement::ForClassic { init, condition, post, body } => {
                self.check_opt_stmt(init, env);
                match condition {
                    Some(c) => {
                        self.check_expression(c, env);
                    },
                    None => {},
                }
                self.check_opt_stmt(post, env);
                let saved = self.enter_loop();
                self.check_block(body, env, None);
                self.set_loop_depth(saved);
            },
            _ => {},
        }
    }

    /// Declares what an import of a standard library module brings: the
    /// module's alias, its structs, and its functions as methods of the
    /// module's type.
    pub fn register_stdlib_import(&mut self, module_name: &str, env: &mut Environment)
        requires
            old(self).wf(),
        ensures
            final(self).wf(),
            (final(self).model(), final(env).scopes()) == register_import(
                old(self).model(),
                old(env).scopes(),
                module_name@,
            ),
    {
        let module = match resolve_stdlib_module(module_name) {
            None => {
                return;
            },
            Some(m) => m,
        };
        let ghost mm = module.model();
        let mut tn_chars: Vec<char> = Vec::new();
        push_str(&mut tn_chars, "__module::");
        push_str(&mut tn_chars, module.alias);
        let tn = string_of(tn_chars.as_slice());
        env.set(
            module.alias.to_owned(),
            Symbol { ty: Type::Struct(tn.clone()), is_function: false, parameters: Vec::new() },
        );
        assert(models_of(Seq::<Type>::empty()) =~= Seq::<TypeModel>::empty());
        let ghost st0 = self.model();
        let mut i: usize = 0;
        assert(mm.structs.subrange(0, 0) =~= Seq::<(Seq<char>, Seq<(Seq<char>, TypeModel)>)>::empty());
        while i < module.structs.len()
            invariant
                i <= module.structs.len(),
                self.wf(),
                mm == module.model(),
                self.model() == (TcModel { structs: add_structs(st0.structs, mm.structs.subrange(0, i as int)), ..st0 }),
            decreases module.structs.len() - i,
        {
            let ghost pre = mm.structs.subrange(0, i + 1);
            assert(pre.drop_last() =~= mm.structs.subrange(0, i as int));
            self.insert_struct(module.structs[i].name.to_owned(), copy_fields(&module.structs[i].fields));
            i = i + 1;
        }
        assert(mm.structs.subrange(0, module.structs.len() as int) =~= mm.structs);
        let ghost st1 = self.model();
        let mut j: usize = 0;
        assert(mm.functions.subrange(0, 0) =~= Seq::<(Seq<char>, Seq<TypeModel>, TypeModel)>::empty());
        while j < module.functions.len()
            invariant
                j <= module.functions.len(),
                self.wf(),
                mm == module.model(),
                tn@ == "__module::"@ + mm.alias,
                self.model() == (TcModel {
                    methods: add_module_functions(st1.methods, tn@, mm.functions.subrange(0, j as int)),
                    ..st1
                }),
            decreases module.functions.len() - j,
        {
            let ghost pre = mm.functions.subrange(0, j + 1);
            assert(pre.drop_last() =~= mm.functions.subrange(0, j as int));
            let f = &module.functions[j];
            self.insert_method(tn.clone(), f.name.to_owned(), crate::ast::copy_types(&f.params), f.return_type.clone());
            j = j + 1;
        }
        assert(mm.functions.subrange(0, module.functions.len() as int) =~= mm.functions);
    }

    /// Checks a program: first registers its structs, methods, interfaces,
    /// top-level functions and imports, then checks every statement.
    pub fn check_program(&mut self, program: &Program, env: &mut Environment)
        requires
            old(self).wf(),
        ensures
            final(self).wf(),
            (final(self).model(), final(env).scopes()) == tc_program(old(self).model(), old(env).scopes(), *program),
            forall|i: int|
                0 <= i < final(self).error_list().len() ==> #[trigger] final(self).error_list()[i].line == 0
                    && final(self).error_list()[i].column == 0,
    {
        let ss = &program.statements;
        let ghost st0 = self.model();
        let ghost e0 = env.scopes();
        let mut i: usize = 0;
        assert(ss@.subrange(0, 0) =~= Seq::<Statement>::empty());
        while i < ss.len()
            invariant
                i <= ss.len(),
                self.wf(),
                ss@ == program.statements@,
                (self.model(), env.scopes()) == first_pass(st0, e0, ss@.subrange(0, i as int)),
            decreases ss.len() - i,
        {
            let ghost pre = ss@.subrange(0, i + 1);
            assert(pre.drop_last() =~= ss@.subrange(0, i as int));
            assert(pre.last() == ss@[i as int]);
            match &ss[i] {
                Statement::StructDecl { name, fields, .. } => {
                    self.insert_struct(name.clone(), copy_fields(fields));
                },
                Statement::MethodDecl { receiver_type, name, parameters, return_type, .. } => {
                    self.insert_method(receiver_type.clone(), name.clone(), param_type_list(parameters), return_type.clone());
                },
                Statement::InterfaceDecl { name, methods, .. } => {
                    let sigs = method_sig_list(methods);
                    self.insert_interface(name.clone(), sigs);
                },
                Statement::FunctionDecl { name, parameters, return_type, .. } => {
                    let ps = param_type_list(parameters);
                    let ps2 = param_type_list(parameters);
                    env.set(
                        name.clone(),
                        Symbol {
                            ty: Type::Function { params: ps, return_type: Box::new(return_type.clone()) },
                            is_function: true,
                            parameters: ps2,
                        },
                    );
                },
                Statement::Import { module, .. } => {
                    self.register_stdlib_import(module.as_str(), env);
                },
                _ => {},
            }
            i = i + 1;
        }
        assert(ss@.subrange(0, ss.len() as int) =~= ss@);
        self.check_stmts(ss, env, None);
    }
}

/// Appends the debug form of an optional type: `Some(..)` or `None`.
fn push_opt_type_debug(out: &mut Vec<char>, t: &Option<Type>)
    ensures
        final(out)@ == old(out)@ + opt_type_debug(opt_model(*t)),
{
    match t {
        Some(x) => {
            push_str(out, "Some(");
            push_type_debug(out, x);
            push_str(out, ")");
        },
        None => push_str(out, "None"),
    }
}

} // verus!
