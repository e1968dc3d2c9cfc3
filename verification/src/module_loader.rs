//! Linking modules into one program: the names that each module declares,
//! and the rewriting of a module's statements so that its top-level names
//! and the names it uses from imported packages become globally unique.
use vstd::prelude::*;

use crate::ast::{BlockStatement, Expression, IfAlternative, Program, Span, Statement, Type, TypeModel};
use crate::text::{chars_of, push_str, push_string, str_eq, string_of};

verus! {

// ----------------------------------------------------------------------
// Errors

/// An error found while loading modules, with the file it concerns.
#[derive(Debug)]
pub struct ModuleLoadError {
    pub message: String,
    pub path: Option<String>,
}

/// An error as plain values: its message and its file.
pub type ErrModel = (Seq<char>, Option<Seq<char>>);

impl ModuleLoadError {
    pub open spec fn model(&self) -> ErrModel {
        (
            self.message@,
            match self.path {
                Some(p) => Some(p@),
                None => None,
            },
        )
    }

    /// The error as text: `path: message`, or the message alone.
    pub fn to_text(&self) -> (r: String)
        ensures
            r@ == match self.path {
                Some(p) => p@ + ": "@ + self.message@,
                None => self.message@,
            },
    {
        let mut out: Vec<char> = Vec::new();
        match &self.path {
            Some(p) => {
                push_string(&mut out, p);
                push_str(&mut out, ": ");
            },
            None => {},
        }
        push_string(&mut out, &self.message);
        string_of(out.as_slice())
    }

    pub fn duplicate(&self) -> (r: ModuleLoadError)
        ensures
            r.model() == self.model(),
    {
        ModuleLoadError {
            message: self.message.clone(),
            path: match &self.path {
                Some(p) => Some(p.clone()),
                None => None,
            },
        }
    }
}

pub open spec fn errs_model(v: Seq<ModuleLoadError>) -> Seq<ErrModel> {
    Seq::new(v.len(), |i: int| v[i].model())
}

proof fn lemma_errs_push(v: Seq<ModuleLoadError>, e: ModuleLoadError)
    ensures
        errs_model(v.push(e)) =~= errs_model(v).push(e.model()),
{
}

// ----------------------------------------------------------------------
// Symbols

/// What a top-level name declares.
#[derive(Debug, Clone, Copy, PartialEq, Eq, Structural)]
pub enum SymbolKind {
    Function,
    Struct,
    Interface,
    Variable,
}

/// A top-level name: whether it is exported and what it declares.
#[derive(Debug, Clone, Copy, PartialEq, Eq, Structural)]
pub struct SymbolMeta {
    pub exported: bool,
    pub kind: SymbolKind,
}

/// What each name of a symbol table means: the latest entry wins.
pub open spec fn meta_map(v: Seq<(String, SymbolMeta)>) -> Map<Seq<char>, SymbolMeta>
    decreases v.len(),
{
    if v.len() == 0 {
        Map::empty()
    } else {
        meta_map(v.drop_last()).insert(v.last().0@, v.last().1)
    }
}

// ----------------------------------------------------------------------
// What rewriting a module knows

/// The names a module rewrites: its own top-level names and their global
/// names, the packages it imports, the exported symbols of every package,
/// and the global name of every package's symbol.
pub struct RewriteContext {
    pub path: String,
    pub local_mangles: Vec<(String, String)>,
    pub import_aliases: Vec<(String, String)>,
    pub exports: Vec<(String, Vec<(String, SymbolMeta)>)>,
    pub mangles: Vec<(String, String, String)>,
}

/// The same as maps of plain values.
#[verifier::ext_equal]
pub struct RwModel {
    pub path: Seq<char>,
    pub local_mangles: Map<Seq<char>, Seq<char>>,
    pub aliases: Map<Seq<char>, Seq<char>>,
    pub exports: Map<Seq<char>, Map<Seq<char>, SymbolMeta>>,
    pub mangles: Map<(Seq<char>, Seq<char>), Seq<char>>,
}

pub open spec fn pair_map(v: Seq<(String, String)>) -> Map<Seq<char>, Seq<char>>
    decreases v.len(),
{
    if v.len() == 0 {
        Map::empty()
    } else {
        pair_map(v.drop_last()).insert(v.last().0@, v.last().1@)
    }
}

pub open spec fn export_map(v: Seq<(String, Vec<(String, SymbolMeta)>)>) -> Map<
    Seq<char>,
    Map<Seq<char>, SymbolMeta>,
>
    decreases v.len(),
{
    if v.len() == 0 {
        Map::empty()
    } else {
        export_map(v.drop_last()).insert(v.last().0@, meta_map(v.last().1@))
    }
}

pub open spec fn mangle_map(v: Seq<(String, String, String)>) -> Map<(Seq<char>, Seq<char>), Seq<char>>
    decreases v.len(),
{
    if v.len() == 0 {
        Map::empty()
    } else {
        mangle_map(v.drop_last()).insert((v.last().0@, v.last().1@), v.last().2@)
    }
}

impl RewriteContext {
    pub open spec fn model(&self) -> RwModel {
        RwModel {
            path: self.path@,
            local_mangles: pair_map(self.local_mangles@),
            aliases: pair_map(self.import_aliases@),
            exports: export_map(self.exports@),
            mangles: mangle_map(self.mangles@),
        }
    }
}

/// Nested scopes of local names, innermost last.
pub open spec fn scopes_model(v: Seq<Vec<String>>) -> Seq<Seq<Seq<char>>> {
    Seq::new(v.len(), |i: int| names_model(v[i]@))
}

pub open spec fn names_model(v: Seq<String>) -> Seq<Seq<char>> {
    Seq::new(v.len(), |i: int| v[i]@)
}

/// Whether a name is bound in one of the scopes.
pub open spec fn in_scopes(l: Seq<Seq<Seq<char>>>, name: Seq<char>) -> bool {
    exists|i: int, j: int| 0 <= i < l.len() && 0 <= j < l[i].len() && l[i][j] == name
}

/// A module's own name as it is known globally.
pub open spec fn mangled_or(c: RwModel, name: Seq<char>) -> Seq<char> {
    if c.local_mangles.contains_key(name) {
        c.local_mangles[name]
    } else {
        name
    }
}

/// A name as used in code: a local binding keeps it, a top-level name of
/// the module is made global.
pub open spec fn local_name(c: RwModel, l: Seq<Seq<Seq<char>>>, name: Seq<char>) -> Seq<char> {
    if in_scopes(l, name) {
        name
    } else {
        mangled_or(c, name)
    }
}

pub open spec fn err_at(c: RwModel, msg: Seq<char>) -> ErrModel {
    (msg, Some(c.path))
}

/// The global name of `sym` in package `pkg`, or why it cannot be used.
pub open spec fn resolve_spec(c: RwModel, pkg: Seq<char>, sym: Seq<char>) -> (Option<Seq<char>>, Seq<ErrModel>) {
    if !c.exports.contains_key(pkg) {
        (None, seq![err_at(c, "Unknown imported package `"@ + pkg + "`"@)])
    } else if !c.exports[pkg].contains_key(sym) {
        (None, seq![err_at(c, "Package `"@ + pkg + "` has no symbol `"@ + sym + "`"@)])
    } else if !c.exports[pkg][sym].exported {
        (None, seq![err_at(c, "Symbol `"@ + sym + "` is not exported from package `"@ + pkg + "`"@)])
    } else if c.mangles.contains_key((pkg, sym)) {
        (Some(c.mangles[(pkg, sym)]), Seq::empty())
    } else {
        (None, Seq::empty())
    }
}

/// Whether `i` is the position of the first `.` in `s`.
pub open spec fn first_dot_at(s: Seq<char>, i: int) -> bool {
    0 <= i < s.len() && s[i] == '.' && forall|j: int| 0 <= j < i ==> s[j] != '.'
}

/// A name split at its first `.`.
pub open spec fn split_dot(s: Seq<char>) -> Option<(Seq<char>, Seq<char>)> {
    if exists|i: int| 0 <= i < s.len() && s[i] == '.' {
        let i = choose|i: int| first_dot_at(s, i);
        Some((s.subrange(0, i), s.subrange(i + 1, s.len() as int)))
    } else {
        None
    }
}

/// A type name: `alias.Name` of an imported package becomes the global
/// name of that symbol; a name of the module becomes its global name.
pub open spec fn type_name_spec(c: RwModel, name: Seq<char>) -> (Seq<char>, Seq<ErrModel>) {
    match split_dot(name) {
        Some((alias, sym)) => if c.aliases.contains_key(alias) {
            let (r, errs) = resolve_spec(c, c.aliases[alias], sym);
            match r {
                Some(m) => (m, errs),
                None => (mangled_or(c, name), errs),
            }
        } else {
            (mangled_or(c, name), Seq::empty())
        },
        None => (mangled_or(c, name), Seq::empty()),
    }
}

/// A type with its struct names made global.
pub open spec fn rw_type(c: RwModel, t: TypeModel) -> (TypeModel, Seq<ErrModel>)
    decreases t, 1nat,
{
    match t {
        TypeModel::Struct(n) => (TypeModel::Struct(type_name_spec(c, n).0), type_name_spec(c, n).1),
        TypeModel::Array(inner) => (TypeModel::Array(Box::new(rw_type(c, *inner).0)), rw_type(c, *inner).1),
        TypeModel::Dict(k, v) => (
            TypeModel::Dict(Box::new(rw_type(c, *k).0), Box::new(rw_type(c, *v).0)),
            rw_type(c, *k).1 + rw_type(c, *v).1,
        ),
        TypeModel::Tuple(items) => (TypeModel::Tuple(rw_types(c, items).0), rw_types(c, items).1),
        TypeModel::Function(params, ret) => (
            TypeModel::Function(rw_types(c, params).0, Box::new(rw_type(c, *ret).0)),
            rw_types(c, params).1 + rw_type(c, *ret).1,
        ),
        TypeModel::Channel(inner) => (
            TypeModel::Channel(Box::new(rw_type(c, *inner).0)),
            rw_type(c, *inner).1,
        ),
        _ => (t, Seq::empty()),
    }
}

pub open spec fn rw_types(c: RwModel, ts: Seq<TypeModel>) -> (Seq<TypeModel>, Seq<ErrModel>)
    decreases ts, 0nat,
{
    if ts.len() == 0 {
        (Seq::empty(), Seq::empty())
    } else {
        let (a, ea) = rw_types(c, ts.drop_last());
        let (b, eb) = rw_type(c, ts.last());
        (a.push(b), ea + eb)
    }
}

// ----------------------------------------------------------------------
// Looking names up

fn pair_get<'a>(v: &'a Vec<(String, String)>, key: &str) -> (r: Option<&'a String>)
    ensures
        match r {
            Some(x) => pair_map(v@).contains_key(key@) && pair_map(v@)[key@] == x@,
            None => !pair_map(v@).contains_key(key@),
        },
{
    let mut i = v.len();
    assert(v@.subrange(0, i as int) =~= v@);
    while i > 0
        invariant
            i <= v.len(),
            pair_map(v@.subrange(0, i as int)).contains_key(key@) == pair_map(v@).contains_key(key@),
            pair_map(v@.subrange(0, i as int)).contains_key(key@) ==> pair_map(v@.subrange(0, i as int))[key@]
                == pair_map(v@)[key@],
        decreases i,
    {
        let ghost pre = v@.subrange(0, i as int);
        assert(pre.drop_last() =~= v@.subrange(0, i - 1));
        if str_eq(v[i - 1].0.as_str(), key) {
            assert(pre.last() == v@[i - 1]);
            return Some(&v[i - 1].1);
        }
        i = i - 1;
    }
    assert(pair_map(v@.subrange(0, 0)) =~= Map::<Seq<char>, Seq<char>>::empty());
    None
}

fn meta_get(v: &Vec<(String, SymbolMeta)>, key: &str) -> (r: Option<SymbolMeta>)
    ensures
        match r {
            Some(x) => meta_map(v@).contains_key(key@) && meta_map(v@)[key@] == x,
            None => !meta_map(v@).contains_key(key@),
        },
{
    let mut i = v.len();
    assert(v@.subrange(0, i as int) =~= v@);
    while i > 0
        invariant
            i <= v.len(),
            meta_map(v@.subrange(0, i as int)).contains_key(key@) == meta_map(v@).contains_key(key@),
            meta_map(v@.subrange(0, i as int)).contains_key(key@) ==> meta_map(v@.subrange(0, i as int))[key@]
                == meta_map(v@)[key@],
        decreases i,
    {
        let ghost pre = v@.subrange(0, i as int);
        assert(pre.drop_last() =~= v@.subrange(0, i - 1));
        if str_eq(v[i - 1].0.as_str(), key) {
            assert(pre.last() == v@[i - 1]);
            return Some(v[i - 1].1);
        }
        i = i - 1;
    }
    assert(meta_map(v@.subrange(0, 0)) =~= Map::<Seq<char>, SymbolMeta>::empty());
    None
}

fn export_get<'a>(v: &'a Vec<(String, Vec<(String, SymbolMeta)>)>, key: &str) -> (r: Option<
    &'a Vec<(String, SymbolMeta)>,
>)
    ensures
        match r {
            Some(x) => export_map(v@).contains_key(key@) && export_map(v@)[key@] == meta_map(x@),
            None => !export_map(v@).contains_key(key@),
        },
{
    let mut i = v.len();
    assert(v@.subrange(0, i as int) =~= v@);
    while i > 0
        invariant
            i <= v.len(),
            export_map(v@.subrange(0, i as int)).contains_key(key@) == export_map(v@).contains_key(key@),
            export_map(v@.subrange(0, i as int)).contains_key(key@) ==> export_map(
                v@.subrange(0, i as int),
            )[key@] == export_map(v@)[key@],
        decreases i,
    {
        let ghost pre = v@.subrange(0, i as int);
        assert(pre.drop_last() =~= v@.subrange(0, i - 1));
        if str_eq(v[i - 1].0.as_str(), key) {
            assert(pre.last() == v@[i - 1]);
            return Some(&v[i - 1].1);
        }
        i = i - 1;
    }
    assert(export_map(v@.subrange(0, 0)) =~= Map::<Seq<char>, Map<Seq<char>, SymbolMeta>>::empty());
    None
}

fn mangle_get<'a>(v: &'a Vec<(String, String, String)>, pkg: &str, sym: &str) -> (r: Option<&'a String>)
    ensures
        match r {
            Some(x) => mangle_map(v@).contains_key((pkg@, sym@)) && mangle_map(v@)[(pkg@, sym@)] == x@,
            None => !mangle_map(v@).contains_key((pkg@, sym@)),
        },
{
    let ghost key = (pkg@, sym@);
    let mut i = v.len();
    assert(v@.subrange(0, i as int) =~= v@);
    while i > 0
        invariant
            i <= v.len(),
            key == (pkg@, sym@),
            mangle_map(v@.subrange(0, i as int)).contains_key(key) == mangle_map(v@).contains_key(key),
            mangle_map(v@.subrange(0, i as int)).contains_key(key) ==> mangle_map(v@.subrange(0, i as int))[key]
                == mangle_map(v@)[key],
        decreases i,
    {
        let ghost pre = v@.subrange(0, i as int);
        assert(pre.drop_last() =~= v@.subrange(0, i - 1));
        if str_eq(v[i - 1].0.as_str(), pkg) && str_eq(v[i - 1].1.as_str(), sym) {
            assert(pre.last() == v@[i - 1]);
            return Some(&v[i - 1].2);
        }
        i = i - 1;
    }
    assert(mangle_map(v@.subrange(0, 0)) =~= Map::<(Seq<char>, Seq<char>), Seq<char>>::empty());
    None
}

/// Whether a name is bound in one of the scopes.
pub fn is_local(scopes: &Vec<Vec<String>>, name: &str) -> (r: bool)
    ensures
        r == in_scopes(scopes_model(scopes@), name@),
{
    let ghost l = scopes_model(scopes@);
    let mut i = scopes.len();
    while i > 0
        invariant
            i <= scopes.len(),
            l == scopes_model(scopes@),
            forall|a: int, b: int| i <= a < l.len() && 0 <= b < l[a].len() ==> l[a][b] != name@,
        decreases i,
    {
        let scope = &scopes[i - 1];
        let mut j: usize = 0;
        while j < scope.len()
            invariant
                0 < i <= scopes.len(),
                l == scopes_model(scopes@),
                scope@ == scopes@[i - 1]@,
                j <= scope.len(),
                forall|b: int| 0 <= b < j ==> (#[trigger] scope@[b])@ != name@,
            decreases scope.len() - j,
        {
            if str_eq(scope[j].as_str(), name) {
                assert(l[i - 1][j as int] == name@);
                return true;
            }
            j = j + 1;
        }
        assert forall|b: int| 0 <= b < l[i - 1].len() implies #[trigger] l[i - 1][b] != name@ by {
            assert(l[i - 1][b] == scope@[b]@);
        }
        i = i - 1;
    }
    false
}

/// A module's own name as it is known globally.
fn mangled_name(ctx: &RewriteContext, name: &String) -> (r: String)
    ensures
        r@ == mangled_or(ctx.model(), name@),
{
    match pair_get(&ctx.local_mangles, name.as_str()) {
        Some(m) => m.clone(),
        None => name.clone(),
    }
}

/// A name as used in code.
fn local_name_exec(ctx: &RewriteContext, locals: &Vec<Vec<String>>, name: &String) -> (r: String)
    ensures
        r@ == local_name(ctx.model(), scopes_model(locals@), name@),
{
    if is_local(locals, name.as_str()) {
        name.clone()
    } else {
        mangled_name(ctx, name)
    }
}

fn push_error(errors: &mut Vec<ModuleLoadError>, ctx: &RewriteContext, msg: Vec<char>)
    ensures
        errs_model(final(errors)@) == errs_model(old(errors)@).push(err_at(ctx.model(), msg@)),
{
    let e = ModuleLoadError { message: string_of(msg.as_slice()), path: Some(ctx.path.clone()) };
    proof {
        lemma_errs_push(errors@, e);
    }
    errors.push(e);
}

/// The global name of `symbol` in package `pkg`; when the package or the
/// symbol is unknown, or the symbol is not exported, an error says so.
pub fn resolve_imported_symbol(
    pkg: &str,
    symbol: &str,
    ctx: &RewriteContext,
    errors: &mut Vec<ModuleLoadError>,
) -> (r: Option<String>)
    ensures
        match r {
            Some(m) => resolve_spec(ctx.model(), pkg@, symbol@).0 == Some(m@),
            None => resolve_spec(ctx.model(), pkg@, symbol@).0 is None,
        },
        errs_model(final(errors)@) == errs_model(old(errors)@) + resolve_spec(ctx.model(), pkg@, symbol@).1,
{
    let ghost c = ctx.model();
    match export_get(&ctx.exports, pkg) {
        None => {
            let mut msg: Vec<char> = Vec::new();
            push_str(&mut msg, "Unknown imported package `");
            push_str(&mut msg, pkg);
            push_str(&mut msg, "`");
            push_error(errors, ctx, msg);
            assert(errs_model(errors@) =~= errs_model(old(errors)@) + resolve_spec(c, pkg@, symbol@).1);
            None
        },
        Some(syms) => match meta_get(syms, symbol) {
            None => {
                let mut msg: Vec<char> = Vec::new();
                push_str(&mut msg, "Package `");
                push_str(&mut msg, pkg);
                push_str(&mut msg, "` has no symbol `");
                push_str(&mut msg, symbol);
                push_str(&mut msg, "`");
                push_error(errors, ctx, msg);
                assert(errs_model(errors@) =~= errs_model(old(errors)@) + resolve_spec(c, pkg@, symbol@).1);
                None
            },
            Some(meta) => {
                if !meta.exported {
                    let mut msg: Vec<char> = Vec::new();
                    push_str(&mut msg, "Symbol `");
                    push_str(&mut msg, symbol);
                    push_str(&mut msg, "` is not exported from package `");
                    push_str(&mut msg, pkg);
                    push_str(&mut msg, "`");
                    push_error(errors, ctx, msg);
                    assert(errs_model(errors@) =~= errs_model(old(errors)@) + resolve_spec(c, pkg@, symbol@).1);
                    None
                } else {
                    assert(errs_model(errors@) =~= errs_model(old(errors)@) + resolve_spec(c, pkg@, symbol@).1);
                    match mangle_get(&ctx.mangles, pkg, symbol) {
                        Some(m) => Some(m.clone()),
                        None => None,
                    }
                }
            },
        },
    }
}

/// The name split at its first `.`.
fn split_dot_exec(name: &str) -> (r: Option<(Vec<char>, Vec<char>)>)
    ensures
        match r {
            Some((a, b)) => split_dot(name@) == Some((a@, b@)),
            None => split_dot(name@) is None,
        },
{
    let cs = chars_of(name);
    let mut i: usize = 0;
    while i < cs.len()
        invariant
            cs@ == name@,
            i <= cs.len(),
            forall|j: int| 0 <= j < i ==> cs@[j] != '.',
        decreases cs.len() - i,
    {
        if cs[i] == '.' {
            let ghost k = choose|k: int| first_dot_at(name@, k);
            assert(first_dot_at(name@, i as int));
            assert(k == i) by {
                if k < i {
                    assert(cs@[k] != '.');
                } else if k > i {
                } 
            }
            let mut a: Vec<char> = Vec::new();
            let mut j: usize = 0;
            while j < i
                invariant
                    j <= i < cs.len(),
                    a@ == cs@.subrange(0, j as int),
                decreases i - j,
            {
                a.push(cs[j]);
                j = j + 1;
                assert(a@ =~= cs@.subrange(0, j as int));
            }
            let mut b: Vec<char> = Vec::new();
            let mut j: usize = i + 1;
            while j < cs.len()
                invariant
                    i < j <= cs.len(),
                    b@ == cs@.subrange(i + 1, j as int),
                decreases cs.len() - j,
            {
                b.push(cs[j]);
                j = j + 1;
                assert(b@ =~= cs@.subrange(i + 1, j as int));
            }
            return Some((a, b));
        }
        i = i + 1;
    }
    None
}

/// A type name: `alias.Name` of an imported package becomes the global
/// name of that symbol; a name of the module becomes its global name.
pub fn rewrite_type_name(name: &String, ctx: &RewriteContext, errors: &mut Vec<ModuleLoadError>) -> (r:
    String)
    ensures
        r@ == type_name_spec(ctx.model(), name@).0,
        errs_model(final(errors)@) == errs_model(old(errors)@) + type_name_spec(ctx.model(), name@).1,
{
    let ghost c = ctx.model();
    match split_dot_exec(name.as_str()) {
        Some((alias, sym)) => {
            let alias_s = string_of(alias.as_slice());
            let sym_s = string_of(sym.as_slice());
            match pair_get(&ctx.import_aliases, alias_s.as_str()) {
                Some(pkg) => {
                    let r = resolve_imported_symbol(pkg.as_str(), sym_s.as_str(), ctx, errors);
                    match r {
                        Some(m) => m,
                        None => mangled_name(ctx, name),
                    }
                },
                None => {
                    assert(errs_model(errors@) =~= errs_model(old(errors)@) + type_name_spec(c, name@).1);
                    mangled_name(ctx, name)
                },
            }
        },
        None => {
            assert(errs_model(errors@) =~= errs_model(old(errors)@) + type_name_spec(c, name@).1);
            mangled_name(ctx, name)
        },
    }
}

/// A type with its struct names made global.
pub fn rewrite_type(t: &Type, ctx: &RewriteContext, errors: &mut Vec<ModuleLoadError>) -> (r: Type)
    ensures
        r.model() == rw_type(ctx.model(), t.model()).0,
        errs_model(final(errors)@) == errs_model(old(errors)@) + rw_type(ctx.model(), t.model()).1,
    decreases t, 1nat,
{
    let ghost c = ctx.model();
    let r = match t {
        Type::Struct(n) => Type::Struct(rewrite_type_name(n, ctx, errors)),
        Type::Array(inner) => Type::Array(Box::new(rewrite_type(inner, ctx, errors))),
        Type::HashMap(k, v) => {
            let k2 = rewrite_type(k, ctx, errors);
            let v2 = rewrite_type(v, ctx, errors);
            Type::HashMap(Box::new(k2), Box::new(v2))
        },
        Type::Tuple(items) => Type::Tuple(rewrite_types(items, ctx, errors)),
        Type::Function { params, return_type } => {
            let ps = rewrite_types(params, ctx, errors);
            let rt = rewrite_type(return_type, ctx, errors);
            Type::Function { params: ps, return_type: Box::new(rt) }
        },
        Type::Channel(inner) => Type::Channel(Box::new(rewrite_type(inner, ctx, errors))),
        _ => crate::ast::copy_type(t),
    };
    assert(errs_model(errors@) =~= errs_model(old(errors)@) + rw_type(c, t.model()).1);
    r
}

fn rewrite_types(ts: &Vec<Type>, ctx: &RewriteContext, errors: &mut Vec<ModuleLoadError>) -> (r: Vec<
    Type,
>)
    ensures
        crate::ast::models_of(r@) == rw_types(ctx.model(), crate::ast::models_of(ts@)).0,
        errs_model(final(errors)@) == errs_model(old(errors)@) + rw_types(
            ctx.model(),
            crate::ast::models_of(ts@),
        ).1,
    decreases ts@, 0nat,
{
    let ghost c = ctx.model();
    let mut out: Vec<Type> = Vec::new();
    let mut i: usize = 0;
    proof {
        crate::ast::lemma_models_of(ts@);
    }
    while i < ts.len()
        invariant
            i <= ts.len(),
            c == ctx.model(),
            crate::ast::models_of(ts@).len() == ts.len(),
            forall|k: int| 0 <= k < ts.len() ==> #[trigger] crate::ast::models_of(ts@)[k] == ts@[k].model(),
            crate::ast::models_of(out@) == rw_types(c, crate::ast::models_of(ts@).subrange(0, i as int)).0,
            errs_model(errors@) == errs_model(old(errors)@) + rw_types(
                c,
                crate::ast::models_of(ts@).subrange(0, i as int),
            ).1,
        decreases ts.len() - i,
    {
        let ghost ms = crate::ast::models_of(ts@);
        let ghost before = errors@;
        let t2 = rewrite_type(&ts[i], ctx, errors);
        proof {
            assert(ms.subrange(0, i + 1).drop_last() =~= ms.subrange(0, i as int));
            assert(ms.subrange(0, i + 1).last() == ts@[i as int].model());
            crate::ast::lemma_models_of(out@);
            crate::ast::lemma_models_of(out@.push(t2));
            assert(crate::ast::models_of(out@.push(t2)) =~= crate::ast::models_of(out@).push(t2.model()));
        }
        out.push(t2);
        i = i + 1;
        assert(errs_model(errors@) =~= errs_model(old(errors)@) + rw_types(c, ms.subrange(0, i as int)).1);
    }
    assert(crate::ast::models_of(ts@).subrange(0, ts.len() as int) =~= crate::ast::models_of(ts@));
    out
}

// ----------------------------------------------------------------------
// What rewriting does to expressions and statements

pub type Scopes = Seq<Seq<Seq<char>>>;

/// A top-level declaration takes its global name; a nested one keeps its
/// name.
pub open spec fn top_name(c: RwModel, top: bool, name: Seq<char>) -> Seq<char> {
    if top {
        mangled_or(c, name)
    } else {
        name
    }
}

/// `alias.member` where `alias` is an imported package that no local
/// binding hides: what resolving the member gives.
pub open spec fn alias_member(c: RwModel, l: Scopes, object: Expression, member: Seq<char>) -> Option<
    (Option<Seq<char>>, Seq<ErrModel>),
> {
    match object {
        Expression::Identifier(a) => if !in_scopes(l, a@) && c.aliases.contains_key(a@) {
            Some(resolve_spec(c, c.aliases[a@], member))
        } else {
            None
        },
        _ => None,
    }
}

/// The global name that `alias.member` stands for, when it resolves.
pub open spec fn alias_target(c: RwModel, l: Scopes, object: Expression, member: Seq<char>) -> Option<
    Seq<char>,
> {
    match alias_member(c, l, object, member) {
        Some((Some(m), _)) => Some(m),
        _ => None,
    }
}

pub open spec fn alias_errs(c: RwModel, l: Scopes, object: Expression, member: Seq<char>) -> Seq<ErrModel> {
    match alias_member(c, l, object, member) {
        Some((_, errs)) => errs,
        None => Seq::empty(),
    }
}

pub open spec fn param_names(ps: Seq<(String, Type, Span)>) -> Seq<Seq<char>> {
    Seq::new(ps.len(), |i: int| ps[i].0@)
}

/// Parameters with their types rewritten.
pub open spec fn params_rel(c: RwModel, ps: Seq<(String, Type, Span)>, outs: Seq<(String, Type, Span)>) -> bool {
    &&& outs.len() == ps.len()
    &&& forall|i: int|
        0 <= i < ps.len() ==> (#[trigger] outs[i]).0@ == ps[i].0@ && outs[i].1.model() == rw_type(
            c,
            ps[i].1.model(),
        ).0 && outs[i].2 == ps[i].2
}

pub open spec fn params_errs(c: RwModel, ps: Seq<(String, Type, Span)>) -> Seq<ErrModel>
    decreases ps.len(),
{
    if ps.len() == 0 {
        Seq::empty()
    } else {
        params_errs(c, ps.drop_last()) + rw_type(c, ps.last().1.model()).1
    }
}

/// Fields with their types rewritten.
pub open spec fn fields_rel(c: RwModel, fs: Seq<(String, Type)>, outs: Seq<(String, Type)>) -> bool {
    &&& outs.len() == fs.len()
    &&& forall|i: int|
        0 <= i < fs.len() ==> (#[trigger] outs[i]).0@ == fs[i].0@ && outs[i].1.model() == rw_type(
            c,
            fs[i].1.model(),
        ).0
}

pub open spec fn fields_errs(c: RwModel, fs: Seq<(String, Type)>) -> Seq<ErrModel>
    decreases fs.len(),
{
    if fs.len() == 0 {
        Seq::empty()
    } else {
        fields_errs(c, fs.drop_last()) + rw_type(c, fs.last().1.model()).1
    }
}

/// Interface methods with their parameter and result types rewritten.
pub open spec fn methods_rel(
    c: RwModel,
    ms: Seq<(String, Vec<(String, Type)>, Type)>,
    outs: Seq<(String, Vec<(String, Type)>, Type)>,
) -> bool {
    &&& outs.len() == ms.len()
    &&& forall|i: int|
        0 <= i < ms.len() ==> (#[trigger] outs[i]).0@ == ms[i].0@ && fields_rel(c, ms[i].1@, outs[i].1@)
            && outs[i].2.model() == rw_type(c, ms[i].2.model()).0
}

pub open spec fn methods_errs(c: RwModel, ms: Seq<(String, Vec<(String, Type)>, Type)>) -> Seq<ErrModel>
    decreases ms.len(),
{
    if ms.len() == 0 {
        Seq::empty()
    } else {
        methods_errs(c, ms.drop_last()) + fields_errs(c, ms.last().1@) + rw_type(c, ms.last().2.model()).1
    }
}

/// The names of a destructuring binding.
pub open spec fn destr_rel(c: RwModel, top: bool, ns: Seq<(String, Type, Span)>, outs: Seq<(String, Type, Span)>) -> bool {
    &&& outs.len() == ns.len()
    &&& forall|i: int|
        0 <= i < ns.len() ==> (#[trigger] outs[i]).0@ == top_name(c, top, ns[i].0@) && outs[i].1.model()
            == rw_type(c, ns[i].1.model()).0 && outs[i].2 == ns[i].2
}

/// The scopes with at least one scope.
pub open spec fn ensure_scope(l: Scopes) -> Scopes {
    if l.len() == 0 {
        seq![Seq::empty()]
    } else {
        l
    }
}

/// The scopes with a name bound in the innermost one.
pub open spec fn add_local(l: Scopes, name: Seq<char>) -> Scopes {
    let l1 = ensure_scope(l);
    l1.update(l1.len() - 1, l1.last().push(name))
}

pub open spec fn add_locals(l: Scopes, ns: Seq<Seq<char>>) -> Scopes
    decreases ns.len(),
{
    if ns.len() == 0 {
        l
    } else {
        add_local(add_locals(l, ns.drop_last()), ns.last())
    }
}

/// The scopes after a statement: a nested binding binds its names.
pub open spec fn stmt_locals(l: Scopes, top: bool, s: Statement) -> Scopes
    decreases s,
{
    match s {
        Statement::Let { name, .. } => if top {
            l
        } else {
            add_local(l, name@)
        },
        Statement::LetDestructured { names, .. } => if top {
            ensure_scope(l)
        } else {
            add_locals(ensure_scope(l), param_names(names@))
        },
        Statement::Export { statement, .. } => stmt_locals(l, top, *statement),
        _ => l,
    }
}

/// Whether rewriting drops the statement (a package declaration).
pub open spec fn drops(s: Statement) -> bool
    decreases s,
{
    match s {
        Statement::PackageDecl { .. } => true,
        Statement::Export { statement, .. } => drops(*statement),
        _ => false,
    }
}

pub open spec fn stmts_locals(l: Scopes, ss: Seq<Statement>) -> Scopes
    decreases ss.len(),
{
    if ss.len() == 0 {
        l
    } else {
        stmt_locals(stmts_locals(l, ss.drop_last()), false, ss.last())
    }
}

pub open spec fn unbox_stmt(o: Option<Box<Statement>>) -> Option<Statement> {
    match o {
        Some(b) => Some(*b),
        None => None,
    }
}

pub open spec fn opt_stmt_locals(l: Scopes, o: Option<Box<Statement>>) -> Scopes {
    match o {
        Some(st) => stmt_locals(l, false, *st),
        None => l,
    }
}

pub open spec fn loop_names(index: Option<String>, iterator: String) -> Seq<Seq<char>> {
    match index {
        Some(i) => seq![i@, iterator@],
        None => seq![iterator@],
    }
}

pub open spec fn same_opt_string(a: Option<String>, b: Option<String>) -> bool {
    match (a, b) {
        (Some(x), Some(y)) => x@ == y@,
        (None, None) => true,
        _ => false,
    }
}

/// An expression with every name made global as the module's rules say.
pub open spec fn ex_rel(c: RwModel, l: Scopes, e: Expression, out: Expression) -> bool
    decreases e, 1nat,
{
    match e {
        Expression::Identifier(n) => out matches Expression::Identifier(n2) && n2@ == local_name(c, l, n@),
        Expression::FunctionCall { function, arguments } => out matches Expression::FunctionCall {
            function: f2,
            arguments: a2,
        } && f2@ == local_name(c, l, function@) && exs_rel(c, l, arguments@, a2@),
        Expression::MethodCall { object, method, arguments } => match alias_target(c, l, *object, method@) {
            Some(m) => out matches Expression::FunctionCall { function: f2, arguments: a2 } && f2@ == m
                && exs_rel(c, l, arguments@, a2@),
            None => out matches Expression::MethodCall { object: o2, method: m2, arguments: a2 } && ex_rel(
                c,
                l,
                *object,
                *o2,
            ) && m2@ == method@ && exs_rel(c, l, arguments@, a2@),
        },
        Expression::FieldAccess { object, field } => match alias_target(c, l, *object, field@) {
            Some(m) => out matches Expression::Identifier(n2) && n2@ == m,
            None => out matches Expression::FieldAccess { object: o2, field: f2 } && ex_rel(c, l, *object, *o2)
                && f2@ == field@,
        },
        Expression::Binary { left, operator, right } => out matches Expression::Binary {
            left: l2,
            operator: op2,
            right: r2,
        } && ex_rel(c, l, *left, *l2) && op2@ == operator@ && ex_rel(c, l, *right, *r2),
        Expression::ArrayLiteral { elements } => out matches Expression::ArrayLiteral { elements: e2 }
            && exs_rel(c, l, elements@, e2@),
        Expression::HashLiteral { pairs } => out matches Expression::HashLiteral { pairs: p2 } && pairs_rel(
            c,
            l,
            pairs@,
            p2@,
        ),
        Expression::IndexExpression { left, index } => out matches Expression::IndexExpression {
            left: l2,
            index: i2,
        } && ex_rel(c, l, *left, *l2) && ex_rel(c, l, *index, *i2),
        Expression::SliceExpression { left, low, high } => out matches Expression::SliceExpression {
            left: l2,
            low: lo2,
            high: hi2,
        } && ex_rel(c, l, *left, *l2) && opt_rel(c, l, low, lo2) && opt_rel(c, l, high, hi2),
        Expression::TypeConversion { target_type, argument } => out matches Expression::TypeConversion {
            target_type: t2,
            argument: a2,
        } && t2.model() == rw_type(c, target_type.model()).0 && ex_rel(c, l, *argument, *a2),
        Expression::StructLiteral { name, fields } => out matches Expression::StructLiteral {
            name: n2,
            fields: f2,
        } && n2@ == mangled_or(c, name@) && named_rel(c, l, fields@, f2@),
        Expression::ClosureLiteral { parameters, return_type, body } => out matches Expression::ClosureLiteral {
            parameters: p2,
            return_type: r2,
            body: b2,
        } && params_rel(c, parameters@, p2@) && r2.model() == rw_type(c, return_type.model()).0 && blk_rel(
            c,
            l.push(param_names(parameters@)),
            body,
            b2,
        ),
        Expression::ReadInput { prompt } => out matches Expression::ReadInput { prompt: p2 } && ex_rel(
            c,
            l,
            *prompt,
            *p2,
        ),
        Expression::ErrorCreate { message } => out matches Expression::ErrorCreate { message: m2 } && ex_rel(
            c,
            l,
            *message,
            *m2,
        ),
        Expression::TupleLiteral { elements } => out matches Expression::TupleLiteral { elements: e2 }
            && exs_rel(c, l, elements@, e2@),
        Expression::ChannelMake { value_type, capacity } => out matches Expression::ChannelMake {
            value_type: v2,
            capacity: c2,
        } && v2.model() == rw_type(c, value_type.model()).0 && opt_rel(c, l, capacity, c2),
        Expression::BaungCreate { timeout_ms } => out matches Expression::BaungCreate { timeout_ms: t2 }
            && ex_rel(c, l, *timeout_ms, *t2),
        Expression::IntegerLiteral(v) => out == Expression::IntegerLiteral(v),
        Expression::FloatLiteral(d) => out matches Expression::FloatLiteral(d2) && d2.whole == d.whole
            && d2.fraction@ == d.fraction@,
        Expression::StringLiteral(v) => out matches Expression::StringLiteral(v2) && v2@ == v@,
        Expression::BooleanLiteral(b) => out == Expression::BooleanLiteral(b),
        Expression::NilLiteral => out == Expression::NilLiteral,
    }
}

/// The errors that rewriting an expression reports, in order.
pub open spec fn ex_errs(c: RwModel, l: Scopes, e: Expression) -> Seq<ErrModel>
    decreases e, 1nat,
{
    match e {
        Expression::FunctionCall { arguments, .. } => exs_errs(c, l, arguments@),
        Expression::MethodCall { object, method, arguments } => alias_errs(c, l, *object, method@) + match alias_target(
            c,
            l,
            *object,
            method@,
        ) {
            Some(_) => exs_errs(c, l, arguments@),
            None => ex_errs(c, l, *object) + exs_errs(c, l, arguments@),
        },
        Expression::FieldAccess { object, field } => alias_errs(c, l, *object, field@) + match alias_target(
            c,
            l,
            *object,
            field@,
        ) {
            Some(_) => Seq::empty(),
            None => ex_errs(c, l, *object),
        },
        Expression::Binary { left, right, .. } => ex_errs(c, l, *left) + ex_errs(c, l, *right),
        Expression::ArrayLiteral { elements } => exs_errs(c, l, elements@),
        Expression::HashLiteral { pairs } => pairs_errs(c, l, pairs@),
        Expression::IndexExpression { left, index } => ex_errs(c, l, *left) + ex_errs(c, l, *index),
        Expression::SliceExpression { left, low, high } => ex_errs(c, l, *left) + opt_errs(c, l, low)
            + opt_errs(c, l, high),
        Expression::TypeConversion { target_type, argument } => rw_type(c, target_type.model()).1 + ex_errs(
            c,
            l,
            *argument,
        ),
        Expression::StructLiteral { fields, .. } => named_errs(c, l, fields@),
        Expression::ClosureLiteral { parameters, return_type, body } => params_errs(c, parameters@) + rw_type(
            c,
            return_type.model(),
        ).1 + blk_errs(c, l.push(param_names(parameters@)), body),
        Expression::ReadInput { prompt } => ex_errs(c, l, *prompt),
        Expression::ErrorCreate { message } => ex_errs(c, l, *message),
        Expression::TupleLiteral { elements } => exs_errs(c, l, elements@),
        Expression::ChannelMake { value_type, capacity } => rw_type(c, value_type.model()).1 + opt_errs(
            c,
            l,
            capacity,
        ),
        Expression::BaungCreate { timeout_ms } => ex_errs(c, l, *timeout_ms),
        _ => Seq::empty(),
    }
}

pub open spec fn exs_rel(c: RwModel, l: Scopes, es: Seq<Expression>, outs: Seq<Expression>) -> bool
    decreases es, 0nat,
{
    &&& outs.len() == es.len()
    &&& forall|i: int| 0 <= i < es.len() ==> ex_rel(c, l, es[i], #[trigger] outs[i])
}

pub open spec fn exs_errs(c: RwModel, l: Scopes, es: Seq<Expression>) -> Seq<ErrModel>
    decreases es, 0nat,
{
    if es.len() == 0 {
        Seq::empty()
    } else {
        exs_errs(c, l, es.drop_last()) + ex_errs(c, l, es.last())
    }
}

pub open spec fn pairs_rel(
    c: RwModel,
    l: Scopes,
    ps: Seq<(Expression, Expression)>,
    outs: Seq<(Expression, Expression)>,
) -> bool
    decreases ps, 0nat,
{
    &&& outs.len() == ps.len()
    &&& forall|i: int|
        0 <= i < ps.len() ==> ex_rel(c, l, ps[i].0, (#[trigger] outs[i]).0) && ex_rel(c, l, ps[i].1, outs[i].1)
}

pub open spec fn pairs_errs(c: RwModel, l: Scopes, ps: Seq<(Expression, Expression)>) -> Seq<ErrModel>
    decreases ps, 0nat,
{
    if ps.len() == 0 {
        Seq::empty()
    } else {
        pairs_errs(c, l, ps.drop_last()) + ex_errs(c, l, ps.last().0) + ex_errs(c, l, ps.last().1)
    }
}

pub open spec fn named_rel(c: RwModel, l: Scopes, fs: Seq<(String, Expression)>, outs: Seq<(String, Expression)>) -> bool
    decreases fs, 0nat,
{
    &&& outs.len() == fs.len()
    &&& forall|i: int|
        0 <= i < fs.len() ==> (#[trigger] outs[i]).0@ == fs[i].0@ && ex_rel(c, l, fs[i].1, outs[i].1)
}

pub open spec fn named_errs(c: RwModel, l: Scopes, fs: Seq<(String, Expression)>) -> Seq<ErrModel>
    decreases fs, 0nat,
{
    if fs.len() == 0 {
        Seq::empty()
    } else {
        named_errs(c, l, fs.drop_last()) + ex_errs(c, l, fs.last().1)
    }
}

pub open spec fn opt_rel(c: RwModel, l: Scopes, o: Option<Box<Expression>>, out: Option<Box<Expression>>) -> bool
    decreases o, 0nat,
{
    match (o, out) {
        (Some(a), Some(b)) => ex_rel(c, l, *a, *b),
        (None, None) => true,
        _ => false,
    }
}

pub open spec fn opt_errs(c: RwModel, l: Scopes, o: Option<Box<Expression>>) -> Seq<ErrModel>
    decreases o, 0nat,
{
    match o {
        Some(a) => ex_errs(c, l, *a),
        None => Seq::empty(),
    }
}

pub open spec fn opt_expr_rel(c: RwModel, l: Scopes, o: Option<Expression>, out: Option<Expression>) -> bool
    decreases o, 0nat,
{
    match (o, out) {
        (Some(a), Some(b)) => ex_rel(c, l, a, b),
        (None, None) => true,
        _ => false,
    }
}

pub open spec fn opt_expr_errs(c: RwModel, l: Scopes, o: Option<Expression>) -> Seq<ErrModel>
    decreases o, 0nat,
{
    match o {
        Some(a) => ex_errs(c, l, a),
        None => Seq::empty(),
    }
}

/// A block rewritten in a new innermost scope.
pub open spec fn blk_rel(c: RwModel, l: Scopes, b: BlockStatement, out: BlockStatement) -> bool
    decreases b, 2nat,
{
    stmts_rel(c, l.push(Seq::empty()), b.statements@, out.statements@)
}

pub open spec fn blk_errs(c: RwModel, l: Scopes, b: BlockStatement) -> Seq<ErrModel>
    decreases b, 2nat,
{
    stmts_errs(c, l.push(Seq::empty()), b.statements@)
}

/// Nested statements, each in the scopes the ones before it leave, with
/// package declarations left out.
pub open spec fn stmts_rel(c: RwModel, l: Scopes, ss: Seq<Statement>, outs: Seq<Statement>) -> bool
    decreases ss, 0nat,
{
    if ss.len() == 0 {
        outs.len() == 0
    } else if drops(ss.last()) {
        stmts_rel(c, l, ss.drop_last(), outs)
    } else {
        &&& outs.len() > 0
        &&& stmts_rel(c, l, ss.drop_last(), outs.drop_last())
        &&& stmt_rel(c, stmts_locals(l, ss.drop_last()), false, ss.last(), Some(outs.last()))
    }
}

pub open spec fn stmts_errs(c: RwModel, l: Scopes, ss: Seq<Statement>) -> Seq<ErrModel>
    decreases ss, 0nat,
{
    if ss.len() == 0 {
        Seq::empty()
    } else {
        stmts_errs(c, l, ss.drop_last()) + stmt_errs(c, stmts_locals(l, ss.drop_last()), false, ss.last())
    }
}

pub open spec fn opt_stmt_rel(c: RwModel, l: Scopes, o: Option<Box<Statement>>, out: Option<Box<Statement>>) -> bool
    decreases o, 0nat,
{
    match o {
        Some(st) => stmt_rel(c, l, false, *st, unbox_stmt(out)),
        None => out is None,
    }
}

pub open spec fn opt_stmt_errs(c: RwModel, l: Scopes, o: Option<Box<Statement>>) -> Seq<ErrModel>
    decreases o, 0nat,
{
    match o {
        Some(st) => stmt_errs(c, l, false, *st),
        None => Seq::empty(),
    }
}

pub open spec fn alt_rel(c: RwModel, l: Scopes, a: Option<IfAlternative>, out: Option<IfAlternative>) -> bool
    decreases a, 0nat,
{
    match a {
        None => out is None,
        Some(IfAlternative::Else(b)) => out matches Some(IfAlternative::Else(b2)) && blk_rel(c, l, b, b2),
        Some(IfAlternative::ElseIf(st)) => out matches Some(IfAlternative::ElseIf(s2)) && if drops(*st) {
            *s2 == Statement::ExpressionStatement(Expression::NilLiteral)
        } else {
            stmt_rel(c, l, false, *st, Some(*s2))
        },
    }
}

pub open spec fn alt_errs(c: RwModel, l: Scopes, a: Option<IfAlternative>) -> Seq<ErrModel>
    decreases a, 0nat,
{
    match a {
        Some(IfAlternative::Else(b)) => blk_errs(c, l, b),
        Some(IfAlternative::ElseIf(st)) => stmt_errs(c, l, false, *st),
        None => Seq::empty(),
    }
}

/// A statement with every name made global as the module's rules say;
/// `None` for a package declaration.
pub open spec fn stmt_rel(c: RwModel, l: Scopes, top: bool, s: Statement, out: Option<Statement>) -> bool
    decreases s, 1nat,
{
    match s {
        Statement::FunctionDecl { name, parameters, return_type, body, name_span } => out matches Some(
            Statement::FunctionDecl {
                name: n2,
                parameters: p2,
                return_type: r2,
                body: b2,
                name_span: sp2,
            },
        ) && n2@ == top_name(c, top, name@) && params_rel(c, parameters@, p2@) && r2.model() == rw_type(
            c,
            return_type.model(),
        ).0 && blk_rel(c, l.push(param_names(parameters@)), body, b2) && sp2 == name_span,
        Statement::TestDecl { name, body, name_span } => out matches Some(
            Statement::TestDecl { name: n2, body: b2, name_span: sp2 },
        ) && n2@ == top_name(c, top, name@) && blk_rel(c, l, body, b2) && sp2 == name_span,
        Statement::StructDecl { name, fields, name_span } => out matches Some(
            Statement::StructDecl { name: n2, fields: f2, name_span: sp2 },
        ) && n2@ == top_name(c, top, name@) && fields_rel(c, fields@, f2@) && sp2 == name_span,
        Statement::InterfaceDecl { name, methods, name_span } => out matches Some(
            Statement::InterfaceDecl { name: n2, methods: m2, name_span: sp2 },
        ) && n2@ == top_name(c, top, name@) && methods_rel(c, methods@, m2@) && sp2 == name_span,
        Statement::Let { name, value, ty, name_span } => out matches Some(
            Statement::Let { name: n2, value: v2, ty: t2, name_span: sp2 },
        ) && n2@ == top_name(c, top, name@) && ex_rel(c, stmt_locals(l, top, s), value, v2) && t2.model()
            == rw_type(c, ty.model()).0 && sp2 == name_span,
        Statement::LetDestructured { names, value } => out matches Some(
            Statement::LetDestructured { names: n2, value: v2 },
        ) && destr_rel(c, top, names@, n2@) && ex_rel(c, stmt_locals(l, top, s), value, v2),
        Statement::ForClassic { init, condition, post, body } => {
            let l0 = l.push(Seq::empty());
            let l1 = opt_stmt_locals(l0, init);
            let l2 = opt_stmt_locals(l1, post);
            out matches Some(Statement::ForClassic { init: i2, condition: c2, post: p2, body: b2 })
                && opt_stmt_rel(c, l0, init, i2) && opt_expr_rel(c, l1, condition, c2) && opt_stmt_rel(
                c,
                l1,
                post,
                p2,
            ) && blk_rel(c, l2, body, b2)
        },
        Statement::ForIn { index, iterator, collection, body, name_span } => out matches Some(
            Statement::ForIn { index: i2, iterator: it2, collection: c2, body: b2, name_span: sp2 },
        ) && same_opt_string(i2, index) && it2@ == iterator@ && ex_rel(c, l, collection, c2) && blk_rel(
            c,
            l.push(loop_names(index, iterator)),
            body,
            b2,
        ) && sp2 == name_span,
        Statement::While { condition, body } => out matches Some(
            Statement::While { condition: c2, body: b2 },
        ) && ex_rel(c, l, condition, c2) && blk_rel(c, l, body, b2),
        Statement::If { condition, consequence, alternative } => out matches Some(
            Statement::If { condition: c2, consequence: b2, alternative: a2 },
        ) && ex_rel(c, l, condition, c2) && blk_rel(c, l, consequence, b2) && alt_rel(c, l, alternative, a2),
        Statement::Return { value } => out matches Some(Statement::Return { value: v2 }) && ex_rel(
            c,
            l,
            value,
            v2,
        ),
        Statement::Print { value } => out matches Some(Statement::Print { value: v2 }) && ex_rel(
            c,
            l,
            value,
            v2,
        ),
        Statement::Assign { name, value, name_span } => out matches Some(
            Statement::Assign { name: n2, value: v2, name_span: sp2 },
        ) && n2@ == local_name(c, l, name@) && ex_rel(c, l, value, v2) && sp2 == name_span,
        Statement::ExpressionStatement(e) => out matches Some(Statement::ExpressionStatement(e2)) && ex_rel(
            c,
            l,
            e,
            e2,
        ),
        Statement::Go { call } => out matches Some(Statement::Go { call: e2 }) && ex_rel(c, l, call, e2),
        Statement::Defer { call } => out matches Some(Statement::Defer { call: e2 }) && ex_rel(c, l, call, e2),
        Statement::FieldAssign { object, field, value, name_span } => out matches Some(
            Statement::FieldAssign { object: o2, field: f2, value: v2, name_span: sp2 },
        ) && o2@ == local_name(c, l, object@) && f2@ == field@ && ex_rel(c, l, value, v2) && sp2 == name_span,
        Statement::IndexAssign { object, index, value, name_span } => out matches Some(
            Statement::IndexAssign { object: o2, index: i2, value: v2, name_span: sp2 },
        ) && ex_rel(c, l, object, o2) && ex_rel(c, l, index, i2) && ex_rel(c, l, value, v2) && sp2
            == name_span,
        Statement::MethodDecl {
            receiver_type,
            receiver_name,
            name,
            parameters,
            return_type,
            body,
            name_span,
        } => out matches Some(
            Statement::MethodDecl {
                receiver_type: rt2,
                receiver_name: rn2,
                name: n2,
                parameters: p2,
                return_type: r2,
                body: b2,
                name_span: sp2,
            },
        ) && rt2@ == type_name_spec(c, receiver_type@).0 && rn2@ == receiver_name@ && n2@ == name@
            && params_rel(c, parameters@, p2@) && r2.model() == rw_type(c, return_type.model()).0 && blk_rel(
            c,
            l.push(seq![receiver_name@] + param_names(parameters@)),
            body,
            b2,
        ) && sp2 == name_span,
        Statement::Break => out == Some(Statement::Break),
        Statement::Continue => out == Some(Statement::Continue),
        Statement::PackageDecl { .. } => out is None,
        Statement::Import { module, name_span } => out matches Some(
            Statement::Import { module: m2, name_span: sp2 },
        ) && m2@ == module@ && sp2 == name_span,
        Statement::Export { statement, .. } => stmt_rel(c, l, top, *statement, out),
    }
}

/// The errors that rewriting a statement reports, in order.
pub open spec fn stmt_errs(c: RwModel, l: Scopes, top: bool, s: Statement) -> Seq<ErrModel>
    decreases s, 1nat,
{
    match s {
        Statement::FunctionDecl { parameters, return_type, body, .. } => params_errs(c, parameters@) + rw_type(
            c,
            return_type.model(),
        ).1 + blk_errs(c, l.push(param_names(parameters@)), body),
        Statement::TestDecl { body, .. } => blk_errs(c, l, body),
        Statement::StructDecl { fields, .. } => fields_errs(c, fields@),
        Statement::InterfaceDecl { methods, .. } => methods_errs(c, methods@),
        Statement::Let { value, ty, .. } => ex_errs(c, stmt_locals(l, top, s), value) + rw_type(
            c,
            ty.model(),
        ).1,
        Statement::LetDestructured { names, value } => params_errs(c, names@) + ex_errs(
            c,
            stmt_locals(l, top, s),
            value,
        ),
        Statement::ForClassic { init, condition, post, body } => {
            let l0 = l.push(Seq::empty());
            let l1 = opt_stmt_locals(l0, init);
            let l2 = opt_stmt_locals(l1, post);
            opt_stmt_errs(c, l0, init) + opt_expr_errs(c, l1, condition) + opt_stmt_errs(c, l1, post)
                + blk_errs(c, l2, body)
        },
        Statement::ForIn { index, iterator, collection, body, .. } => ex_errs(c, l, collection) + blk_errs(
            c,
            l.push(loop_names(index, iterator)),
            body,
        ),
        Statement::While { condition, body } => ex_errs(c, l, condition) + blk_errs(c, l, body),
        Statement::If { condition, consequence, alternative } => ex_errs(c, l, condition) + blk_errs(
            c,
            l,
            consequence,
        ) + alt_errs(c, l, alternative),
        Statement::Return { value } => ex_errs(c, l, value),
        Statement::Print { value } => ex_errs(c, l, value),
        Statement::Assign { value, .. } => ex_errs(c, l, value),
        Statement::ExpressionStatement(e) => ex_errs(c, l, e),
        Statement::Go { call } => ex_errs(c, l, call),
        Statement::Defer { call } => ex_errs(c, l, call),
        Statement::FieldAssign { value, .. } => ex_errs(c, l, value),
        Statement::IndexAssign { object, index, value, .. } => ex_errs(c, l, object) + ex_errs(c, l, index)
            + ex_errs(c, l, value),
        Statement::MethodDecl { receiver_type, receiver_name, parameters, return_type, body, .. } =>
            type_name_spec(c, receiver_type@).1 + params_errs(c, parameters@) + rw_type(
            c,
            return_type.model(),
        ).1 + blk_errs(c, l.push(seq![receiver_name@] + param_names(parameters@)), body),
        Statement::Export { statement, .. } => stmt_errs(c, l, top, *statement),
        _ => Seq::empty(),
    }
}

// ----------------------------------------------------------------------
// Scopes

fn copy_names(v: &Vec<String>) -> (r: Vec<String>)
    ensures
        names_model(r@) == names_model(v@),
{
    let mut out: Vec<String> = Vec::new();
    let mut i: usize = 0;
    while i < v.len()
        invariant
            i <= v.len(),
            out.len() == i,
            forall|k: int| 0 <= k < i ==> (#[trigger] out@[k])@ == v@[k]@,
        decreases v.len() - i,
    {
        out.push(v[i].clone());
        i = i + 1;
    }
    assert(names_model(out@) =~= names_model(v@));
    out
}

fn copy_scopes(v: &Vec<Vec<String>>) -> (r: Vec<Vec<String>>)
    ensures
        scopes_model(r@) == scopes_model(v@),
{
    let mut out: Vec<Vec<String>> = Vec::new();
    let mut i: usize = 0;
    while i < v.len()
        invariant
            i <= v.len(),
            out.len() == i,
            forall|k: int| 0 <= k < i ==> names_model((#[trigger] out@[k])@) == names_model(v@[k]@),
        decreases v.len() - i,
    {
        out.push(copy_names(&v[i]));
        i = i + 1;
    }
    assert(scopes_model(out@) =~= scopes_model(v@));
    out
}

/// The scopes with one more innermost scope holding the given names.
fn scopes_with(v: &Vec<Vec<String>>, names: Vec<String>) -> (r: Vec<Vec<String>>)
    ensures
        scopes_model(r@) == scopes_model(v@).push(names_model(names@)),
{
    let mut out = copy_scopes(v);
    let ghost before = out@;
    out.push(names);
    assert(scopes_model(out@) =~= scopes_model(before).push(names_model(names@)));
    out
}

fn ensure_scope_exec(locals: &mut Vec<Vec<String>>)
    ensures
        scopes_model(final(locals)@) == ensure_scope(scopes_model(old(locals)@)),
{
    if locals.len() == 0 {
        locals.push(Vec::new());
        assert(names_model(locals@[0]@) =~= Seq::<Seq<char>>::empty());
        assert(scopes_model(locals@) =~= seq![Seq::<Seq<char>>::empty()]);
    }
}

pub(crate) fn add_local_exec(locals: &mut Vec<Vec<String>>, name: &String)
    ensures
        scopes_model(final(locals)@) == add_local(scopes_model(old(locals)@), name@),
{
    ensure_scope_exec(locals);
    let ghost l1 = scopes_model(locals@);
    let last = locals.len() - 1;
    let mut scope = copy_names(&locals[last]);
    let ghost sc = scope@;
    scope.push(name.clone());
    assert(names_model(scope@) =~= names_model(sc).push(name@));
    locals.set(last, scope);
    assert(scopes_model(locals@) =~= l1.update(l1.len() - 1, l1.last().push(name@)));
}

pub(crate) fn param_name_list(ps: &Vec<(String, Type, Span)>) -> (r: Vec<String>)
    ensures
        names_model(r@) == param_names(ps@),
{
    let mut out: Vec<String> = Vec::new();
    let mut i: usize = 0;
    while i < ps.len()
        invariant
            i <= ps.len(),
            out.len() == i,
            forall|k: int| 0 <= k < i ==> (#[trigger] out@[k])@ == ps@[k].0@,
        decreases ps.len() - i,
    {
        out.push(ps[i].0.clone());
        i = i + 1;
    }
    assert(names_model(out@) =~= param_names(ps@));
    out
}

// ----------------------------------------------------------------------
// Rewriting types in declarations

fn rewrite_params(ps: &Vec<(String, Type, Span)>, ctx: &RewriteContext, errors: &mut Vec<ModuleLoadError>) -> (r:
    Vec<(String, Type, Span)>)
    ensures
        params_rel(ctx.model(), ps@, r@),
        errs_model(final(errors)@) == errs_model(old(errors)@) + params_errs(ctx.model(), ps@),
{
    let ghost c = ctx.model();
    let mut out: Vec<(String, Type, Span)> = Vec::new();
    let mut i: usize = 0;
    while i < ps.len()
        invariant
            i <= ps.len(),
            c == ctx.model(),
            out.len() == i,
            forall|k: int|
                0 <= k < i ==> (#[trigger] out@[k]).0@ == ps@[k].0@ && out@[k].1.model() == rw_type(
                    c,
                    ps@[k].1.model(),
                ).0 && out@[k].2 == ps@[k].2,
            errs_model(errors@) == errs_model(old(errors)@) + params_errs(c, ps@.subrange(0, i as int)),
        decreases ps.len() - i,
    {
        let t = rewrite_type(&ps[i].1, ctx, errors);
        out.push((ps[i].0.clone(), t, ps[i].2));
        assert(ps@.subrange(0, i + 1).drop_last() =~= ps@.subrange(0, i as int));
        i = i + 1;
        assert(errs_model(errors@) =~= errs_model(old(errors)@) + params_errs(c, ps@.subrange(0, i as int)));
    }
    assert(ps@.subrange(0, ps.len() as int) =~= ps@);
    out
}

fn rewrite_fields(fs: &Vec<(String, Type)>, ctx: &RewriteContext, errors: &mut Vec<ModuleLoadError>) -> (r: Vec<
    (String, Type),
>)
    ensures
        fields_rel(ctx.model(), fs@, r@),
        errs_model(final(errors)@) == errs_model(old(errors)@) + fields_errs(ctx.model(), fs@),
{
    let ghost c = ctx.model();
    let mut out: Vec<(String, Type)> = Vec::new();
    let mut i: usize = 0;
    while i < fs.len()
        invariant
            i <= fs.len(),
            c == ctx.model(),
            out.len() == i,
            forall|k: int|
                0 <= k < i ==> (#[trigger] out@[k]).0@ == fs@[k].0@ && out@[k].1.model() == rw_type(
                    c,
                    fs@[k].1.model(),
                ).0,
            errs_model(errors@) == errs_model(old(errors)@) + fields_errs(c, fs@.subrange(0, i as int)),
        decreases fs.len() - i,
    {
        let t = rewrite_type(&fs[i].1, ctx, errors);
        out.push((fs[i].0.clone(), t));
        assert(fs@.subrange(0, i + 1).drop_last() =~= fs@.subrange(0, i as int));
        i = i + 1;
        assert(errs_model(errors@) =~= errs_model(old(errors)@) + fields_errs(c, fs@.subrange(0, i as int)));
    }
    assert(fs@.subrange(0, fs.len() as int) =~= fs@);
    out
}

fn rewrite_methods(
    ms: &Vec<(String, Vec<(String, Type)>, Type)>,
    ctx: &RewriteContext,
    errors: &mut Vec<ModuleLoadError>,
) -> (r: Vec<(String, Vec<(String, Type)>, Type)>)
    ensures
        methods_rel(ctx.model(), ms@, r@),
        errs_model(final(errors)@) == errs_model(old(errors)@) + methods_errs(ctx.model(), ms@),
{
    let ghost c = ctx.model();
    let mut out: Vec<(String, Vec<(String, Type)>, Type)> = Vec::new();
    let mut i: usize = 0;
    while i < ms.len()
        invariant
            i <= ms.len(),
            c == ctx.model(),
            out.len() == i,
            forall|k: int|
                0 <= k < i ==> (#[trigger] out@[k]).0@ == ms@[k].0@ && fields_rel(c, ms@[k].1@, out@[k].1@)
                    && out@[k].2.model() == rw_type(c, ms@[k].2.model()).0,
            errs_model(errors@) == errs_model(old(errors)@) + methods_errs(c, ms@.subrange(0, i as int)),
        decreases ms.len() - i,
    {
        let ps = rewrite_fields(&ms[i].1, ctx, errors);
        let t = rewrite_type(&ms[i].2, ctx, errors);
        out.push((ms[i].0.clone(), ps, t));
        assert(ms@.subrange(0, i + 1).drop_last() =~= ms@.subrange(0, i as int));
        i = i + 1;
        assert(errs_model(errors@) =~= errs_model(old(errors)@) + methods_errs(c, ms@.subrange(0, i as int)));
    }
    assert(ms@.subrange(0, ms.len() as int) =~= ms@);
    out
}

fn rewrite_destructured(
    ns: &Vec<(String, Type, Span)>,
    top: bool,
    ctx: &RewriteContext,
    errors: &mut Vec<ModuleLoadError>,
) -> (r: Vec<(String, Type, Span)>)
    ensures
        destr_rel(ctx.model(), top, ns@, r@),
        errs_model(final(errors)@) == errs_model(old(errors)@) + params_errs(ctx.model(), ns@),
{
    let ghost c = ctx.model();
    let mut out: Vec<(String, Type, Span)> = Vec::new();
    let mut i: usize = 0;
    while i < ns.len()
        invariant
            i <= ns.len(),
            c == ctx.model(),
            out.len() == i,
            forall|k: int|
                0 <= k < i ==> (#[trigger] out@[k]).0@ == top_name(c, top, ns@[k].0@) && out@[k].1.model()
                    == rw_type(c, ns@[k].1.model()).0 && out@[k].2 == ns@[k].2,
            errs_model(errors@) == errs_model(old(errors)@) + params_errs(c, ns@.subrange(0, i as int)),
        decreases ns.len() - i,
    {
        let n = if top {
            mangled_name(ctx, &ns[i].0)
        } else {
            ns[i].0.clone()
        };
        let t = rewrite_type(&ns[i].1, ctx, errors);
        out.push((n, t, ns[i].2));
        assert(ns@.subrange(0, i + 1).drop_last() =~= ns@.subrange(0, i as int));
        i = i + 1;
        assert(errs_model(errors@) =~= errs_model(old(errors)@) + params_errs(c, ns@.subrange(0, i as int)));
    }
    assert(ns@.subrange(0, ns.len() as int) =~= ns@);
    out
}

// ----------------------------------------------------------------------
// Rewriting expressions

/// An expression with every name made global as the module's rules say:
/// local bindings keep their names, the module's own top-level names and
/// `alias.member` of imported packages become global names.
pub fn rewrite_expr(
    e: &Expression,
    ctx: &RewriteContext,
    locals: &Vec<Vec<String>>,
    errors: &mut Vec<ModuleLoadError>,
) -> (r: Expression)
    ensures
        ex_rel(ctx.model(), scopes_model(locals@), *e, r),
        errs_model(final(errors)@) == errs_model(old(errors)@) + ex_errs(ctx.model(), scopes_model(locals@), *e),
    decreases e, 2nat,
{
    match e {
        Expression::Identifier(n) => Expression::Identifier(local_name_exec(ctx, locals, n)),
        Expression::MethodCall { .. } | Expression::FieldAccess { .. } => rewrite_member(e, ctx, locals, errors),
        Expression::FunctionCall { .. } | Expression::ArrayLiteral { .. } | Expression::HashLiteral { .. } | Expression::StructLiteral { .. } | Expression::TupleLiteral { .. } => rewrite_collection(e, ctx, locals, errors),
        Expression::ClosureLiteral { parameters, return_type, body } => {
            let ghost c = ctx.model();
            let ghost l = scopes_model(locals@);
            let ps = rewrite_params(parameters, ctx, errors);
            let rt = rewrite_type(return_type, ctx, errors);
            let inner = scopes_with(locals, param_name_list(parameters));
            let b = rewrite_block(body, ctx, &inner, errors);
            assert(errs_model(errors@) =~= errs_model(old(errors)@) + ex_errs(c, l, *e));
            Expression::ClosureLiteral { parameters: ps, return_type: rt, body: b }
        },
        Expression::IntegerLiteral(v) => Expression::IntegerLiteral(*v),
        Expression::FloatLiteral(d) => Expression::FloatLiteral(
            crate::token::DecimalLiteral { whole: d.whole, fraction: copy_bytes(&d.fraction) },
        ),
        Expression::StringLiteral(v) => Expression::StringLiteral(v.clone()),
        Expression::BooleanLiteral(b) => Expression::BooleanLiteral(*b),
        Expression::NilLiteral => Expression::NilLiteral,
        _ => rewrite_compound(e, ctx, locals, errors),
    }
}

pub(crate) fn copy_bytes(v: &Vec<u8>) -> (r: Vec<u8>)
    ensures
        r@ == v@,
{
    let mut out: Vec<u8> = Vec::new();
    let mut i: usize = 0;
    while i < v.len()
        invariant
            i <= v.len(),
            out@ == v@.subrange(0, i as int),
        decreases v.len() - i,
    {
        out.push(v[i]);
        i = i + 1;
        assert(out@ =~= v@.subrange(0, i as int));
    }
    assert(v@.subrange(0, v.len() as int) =~= v@);
    out
}

/// `object.method(..)` and `object.field`: on an imported package, the
/// member's global name.
fn rewrite_member(
    e: &Expression,
    ctx: &RewriteContext,
    locals: &Vec<Vec<String>>,
    errors: &mut Vec<ModuleLoadError>,
) -> (r: Expression)
    requires
        *e is MethodCall || *e is FieldAccess,
    ensures
        ex_rel(ctx.model(), scopes_model(locals@), *e, r),
        errs_model(final(errors)@) == errs_model(old(errors)@) + ex_errs(ctx.model(), scopes_model(locals@), *e),
    decreases e, 1nat,
{
    let ghost c = ctx.model();
    let ghost l = scopes_model(locals@);
    match e {
        Expression::MethodCall { object, method, arguments } => {
            let target = resolve_member(object, method, ctx, locals, errors);
            let ghost mid = errors@;
            match target {
                Some(m) => {
                    let args = rewrite_exprs(arguments, ctx, locals, errors);
                    assert(errs_model(errors@) =~= errs_model(old(errors)@) + ex_errs(c, l, *e));
                    Expression::FunctionCall { function: m, arguments: args }
                },
                None => {
                    let o = rewrite_expr(object, ctx, locals, errors);
                    let args = rewrite_exprs(arguments, ctx, locals, errors);
                    assert(errs_model(errors@) =~= errs_model(old(errors)@) + ex_errs(c, l, *e));
                    Expression::MethodCall { object: Box::new(o), method: method.clone(), arguments: args }
                },
            }
        },
        Expression::FieldAccess { object, field } => {
            let target = resolve_member(object, field, ctx, locals, errors);
            match target {
                Some(m) => {
                    assert(errs_model(errors@) =~= errs_model(old(errors)@) + ex_errs(c, l, *e));
                    Expression::Identifier(m)
                },
                None => {
                    let o = rewrite_expr(object, ctx, locals, errors);
                    assert(errs_model(errors@) =~= errs_model(old(errors)@) + ex_errs(c, l, *e));
                    Expression::FieldAccess { object: Box::new(o), field: field.clone() }
                },
            }
        },
        _ => {
            assert(false);
            Expression::NilLiteral
        },
    }
}

/// The global name of `alias.member` when `alias` is an imported package
/// that no local binding hides.
fn resolve_member(
    object: &Expression,
    member: &String,
    ctx: &RewriteContext,
    locals: &Vec<Vec<String>>,
    errors: &mut Vec<ModuleLoadError>,
) -> (r: Option<String>)
    ensures
        match r {
            Some(m) => alias_target(ctx.model(), scopes_model(locals@), *object, member@) == Some(m@),
            None => alias_target(ctx.model(), scopes_model(locals@), *object, member@) is None,
        },
        errs_model(final(errors)@) == errs_model(old(errors)@) + alias_errs(
            ctx.model(),
            scopes_model(locals@),
            *object,
            member@,
        ),
{
    match object {
        Expression::Identifier(alias) => {
            if !is_local(locals, alias.as_str()) {
                match pair_get(&ctx.import_aliases, alias.as_str()) {
                    Some(pkg) => resolve_imported_symbol(pkg.as_str(), member.as_str(), ctx, errors),
                    None => {
                        assert(errs_model(errors@) =~= errs_model(old(errors)@) + Seq::<ErrModel>::empty());
                        None
                    },
                }
            } else {
                assert(errs_model(errors@) =~= errs_model(old(errors)@) + Seq::<ErrModel>::empty());
                None
            }
        },
        _ => {
            assert(errs_model(errors@) =~= errs_model(old(errors)@) + Seq::<ErrModel>::empty());
            None
        },
    }
}

/// Calls and literals of several parts.
fn rewrite_collection(
    e: &Expression,
    ctx: &RewriteContext,
    locals: &Vec<Vec<String>>,
    errors: &mut Vec<ModuleLoadError>,
) -> (r: Expression)
    requires
        *e is FunctionCall || *e is ArrayLiteral || *e is HashLiteral || *e is StructLiteral || *e is TupleLiteral,
    ensures
        ex_rel(ctx.model(), scopes_model(locals@), *e, r),
        errs_model(final(errors)@) == errs_model(old(errors)@) + ex_errs(ctx.model(), scopes_model(locals@), *e),
    decreases e, 1nat,
{
    match e {
        Expression::FunctionCall { function, arguments } => {
            let f = local_name_exec(ctx, locals, function);
            Expression::FunctionCall { function: f, arguments: rewrite_exprs(arguments, ctx, locals, errors) }
        },
        Expression::ArrayLiteral { elements } => Expression::ArrayLiteral {
            elements: rewrite_exprs(elements, ctx, locals, errors),
        },
        Expression::TupleLiteral { elements } => Expression::TupleLiteral {
            elements: rewrite_exprs(elements, ctx, locals, errors),
        },
        Expression::HashLiteral { pairs } => Expression::HashLiteral {
            pairs: rewrite_pairs(pairs, ctx, locals, errors),
        },
        Expression::StructLiteral { name, fields } => {
            let n = mangled_name(ctx, name);
            Expression::StructLiteral { name: n, fields: rewrite_named(fields, ctx, locals, errors) }
        },
        _ => {
            assert(false);
            Expression::NilLiteral
        },
    }
}

/// Expressions with one, two or three parts.
fn rewrite_compound(
    e: &Expression,
    ctx: &RewriteContext,
    locals: &Vec<Vec<String>>,
    errors: &mut Vec<ModuleLoadError>,
) -> (r: Expression)
    requires
        *e is Binary || *e is IndexExpression || *e is SliceExpression || *e is TypeConversion
            || *e is ReadInput || *e is ErrorCreate || *e is ChannelMake || *e is BaungCreate,
    ensures
        ex_rel(ctx.model(), scopes_model(locals@), *e, r),
        errs_model(final(errors)@) == errs_model(old(errors)@) + ex_errs(ctx.model(), scopes_model(locals@), *e),
    decreases e, 1nat,
{
    let ghost c = ctx.model();
    let ghost l = scopes_model(locals@);
    let r = match e {
        Expression::Binary { left, operator, right } => {
            let a = rewrite_expr(left, ctx, locals, errors);
            let b = rewrite_expr(right, ctx, locals, errors);
            Expression::Binary { left: Box::new(a), operator: operator.clone(), right: Box::new(b) }
        },
        Expression::IndexExpression { left, index } => {
            let a = rewrite_expr(left, ctx, locals, errors);
            let b = rewrite_expr(index, ctx, locals, errors);
            Expression::IndexExpression { left: Box::new(a), index: Box::new(b) }
        },
        Expression::SliceExpression { left, low, high } => {
            let a = rewrite_expr(left, ctx, locals, errors);
            let lo = rewrite_opt(low, ctx, locals, errors);
            let hi = rewrite_opt(high, ctx, locals, errors);
            Expression::SliceExpression { left: Box::new(a), low: lo, high: hi }
        },
        Expression::TypeConversion { target_type, argument } => {
            let t = rewrite_type(target_type, ctx, errors);
            let a = rewrite_expr(argument, ctx, locals, errors);
            Expression::TypeConversion { target_type: t, argument: Box::new(a) }
        },
        Expression::ReadInput { prompt } => Expression::ReadInput {
            prompt: Box::new(rewrite_expr(prompt, ctx, locals, errors)),
        },
        Expression::ErrorCreate { message } => Expression::ErrorCreate {
            message: Box::new(rewrite_expr(message, ctx, locals, errors)),
        },
        Expression::ChannelMake { value_type, capacity } => {
            let t = rewrite_type(value_type, ctx, errors);
            let cap = rewrite_opt(capacity, ctx, locals, errors);
            Expression::ChannelMake { value_type: Box::new(t), capacity: cap }
        },
        Expression::BaungCreate { timeout_ms } => Expression::BaungCreate {
            timeout_ms: Box::new(rewrite_expr(timeout_ms, ctx, locals, errors)),
        },
        _ => {
            assert(false);
            Expression::NilLiteral
        },
    };
    assert(errs_model(errors@) =~= errs_model(old(errors)@) + ex_errs(c, l, *e));
    r
}

fn rewrite_opt(
    o: &Option<Box<Expression>>,
    ctx: &RewriteContext,
    locals: &Vec<Vec<String>>,
    errors: &mut Vec<ModuleLoadError>,
) -> (r: Option<Box<Expression>>)
    ensures
        opt_rel(ctx.model(), scopes_model(locals@), *o, r),
        errs_model(final(errors)@) == errs_model(old(errors)@) + opt_errs(ctx.model(), scopes_model(locals@), *o),
    decreases o, 0nat,
{
    match o {
        Some(x) => Some(Box::new(rewrite_expr(x, ctx, locals, errors))),
        None => {
            assert(errs_model(errors@) =~= errs_model(old(errors)@) + Seq::<ErrModel>::empty());
            None
        },
    }
}

fn rewrite_exprs(
    es: &Vec<Expression>,
    ctx: &RewriteContext,
    locals: &Vec<Vec<String>>,
    errors: &mut Vec<ModuleLoadError>,
) -> (r: Vec<Expression>)
    ensures
        exs_rel(ctx.model(), scopes_model(locals@), es@, r@),
        errs_model(final(errors)@) == errs_model(old(errors)@) + exs_errs(ctx.model(), scopes_model(locals@), es@),
    decreases es@, 0nat,
{
    let ghost c = ctx.model();
    let ghost l = scopes_model(locals@);
    let mut out: Vec<Expression> = Vec::new();
    let mut i: usize = 0;
    while i < es.len()
        invariant
            i <= es.len(),
            c == ctx.model(),
            l == scopes_model(locals@),
            out.len() == i,
            forall|k: int| 0 <= k < i ==> ex_rel(c, l, es@[k], #[trigger] out@[k]),
            errs_model(errors@) == errs_model(old(errors)@) + exs_errs(c, l, es@.subrange(0, i as int)),
        decreases es.len() - i,
    {
        let x = rewrite_expr(&es[i], ctx, locals, errors);
        out.push(x);
        assert(es@.subrange(0, i + 1).drop_last() =~= es@.subrange(0, i as int));
        i = i + 1;
        assert(errs_model(errors@) =~= errs_model(old(errors)@) + exs_errs(c, l, es@.subrange(0, i as int)));
    }
    assert(es@.subrange(0, es.len() as int) =~= es@);
    out
}

fn rewrite_pairs(
    ps: &Vec<(Expression, Expression)>,
    ctx: &RewriteContext,
    locals: &Vec<Vec<String>>,
    errors: &mut Vec<ModuleLoadError>,
) -> (r: Vec<(Expression, Expression)>)
    ensures
        pairs_rel(ctx.model(), scopes_model(locals@), ps@, r@),
        errs_model(final(errors)@) == errs_model(old(errors)@) + pairs_errs(ctx.model(), scopes_model(locals@), ps@),
    decreases ps@, 0nat,
{
    let ghost c = ctx.model();
    let ghost l = scopes_model(locals@);
    let mut out: Vec<(Expression, Expression)> = Vec::new();
    let mut i: usize = 0;
    while i < ps.len()
        invariant
            i <= ps.len(),
            c == ctx.model(),
            l == scopes_model(locals@),
            out.len() == i,
            forall|k: int|
                0 <= k < i ==> ex_rel(c, l, ps@[k].0, (#[trigger] out@[k]).0) && ex_rel(c, l, ps@[k].1, out@[k].1),
            errs_model(errors@) == errs_model(old(errors)@) + pairs_errs(c, l, ps@.subrange(0, i as int)),
        decreases ps.len() - i,
    {
        let k = rewrite_expr(&ps[i].0, ctx, locals, errors);
        let v = rewrite_expr(&ps[i].1, ctx, locals, errors);
        out.push((k, v));
        assert(ps@.subrange(0, i + 1).drop_last() =~= ps@.subrange(0, i as int));
        i = i + 1;
        assert(errs_model(errors@) =~= errs_model(old(errors)@) + pairs_errs(c, l, ps@.subrange(0, i as int)));
    }
    assert(ps@.subrange(0, ps.len() as int) =~= ps@);
    out
}

fn rewrite_named(
    fs: &Vec<(String, Expression)>,
    ctx: &RewriteContext,
    locals: &Vec<Vec<String>>,
    errors: &mut Vec<ModuleLoadError>,
) -> (r: Vec<(String, Expression)>)
    ensures
        named_rel(ctx.model(), scopes_model(locals@), fs@, r@),
        errs_model(final(errors)@) == errs_model(old(errors)@) + named_errs(ctx.model(), scopes_model(locals@), fs@),
    decreases fs@, 0nat,
{
    let ghost c = ctx.model();
    let ghost l = scopes_model(locals@);
    let mut out: Vec<(String, Expression)> = Vec::new();
    let mut i: usize = 0;
    while i < fs.len()
        invariant
            i <= fs.len(),
            c == ctx.model(),
            l == scopes_model(locals@),
            out.len() == i,
            forall|k: int| 0 <= k < i ==> (#[trigger] out@[k]).0@ == fs@[k].0@ && ex_rel(c, l, fs@[k].1, out@[k].1),
            errs_model(errors@) == errs_model(old(errors)@) + named_errs(c, l, fs@.subrange(0, i as int)),
        decreases fs.len() - i,
    {
        let v = rewrite_expr(&fs[i].1, ctx, locals, errors);
        out.push((fs[i].0.clone(), v));
        assert(fs@.subrange(0, i + 1).drop_last() =~= fs@.subrange(0, i as int));
        i = i + 1;
        assert(errs_model(errors@) =~= errs_model(old(errors)@) + named_errs(c, l, fs@.subrange(0, i as int)));
    }
    assert(fs@.subrange(0, fs.len() as int) =~= fs@);
    out
}

/// A block rewritten in a new innermost scope; the scopes around it stay as
/// they are.
fn rewrite_block(
    b: &BlockStatement,
    ctx: &RewriteContext,
    locals: &Vec<Vec<String>>,
    errors: &mut Vec<ModuleLoadError>,
) -> (r: BlockStatement)
    ensures
        blk_rel(ctx.model(), scopes_model(locals@), *b, r),
        errs_model(final(errors)@) == errs_model(old(errors)@) + blk_errs(ctx.model(), scopes_model(locals@), *b),
    decreases b, 2nat,
{
    let empty: Vec<String> = Vec::new();
    assert(names_model(empty@) =~= Seq::<Seq<char>>::empty());
    let mut inner = scopes_with(locals, empty);
    let ss = rewrite_statements(&b.statements, ctx, &mut inner, errors);
    BlockStatement { statements: ss }
}

// ----------------------------------------------------------------------
// Rewriting statements

proof fn lemma_rel_none(c: RwModel, l: Scopes, top: bool, s: Statement, out: Option<Statement>)
    requires
        stmt_rel(c, l, top, s, out),
    ensures
        out is None <==> drops(s),
    decreases s,
{
    match s {
        Statement::Export { statement, .. } => lemma_rel_none(c, l, top, *statement, out),
        _ => {},
    }
}

fn rewrite_statements(
    ss: &Vec<Statement>,
    ctx: &RewriteContext,
    locals: &mut Vec<Vec<String>>,
    errors: &mut Vec<ModuleLoadError>,
) -> (r: Vec<Statement>)
    ensures
        stmts_rel(ctx.model(), scopes_model(old(locals)@), ss@, r@),
        errs_model(final(errors)@) == errs_model(old(errors)@) + stmts_errs(
            ctx.model(),
            scopes_model(old(locals)@),
            ss@,
        ),
        scopes_model(final(locals)@) == stmts_locals(scopes_model(old(locals)@), ss@),
    decreases ss@, 0nat,
{
    let ghost c = ctx.model();
    let ghost l0 = scopes_model(locals@);
    let mut out: Vec<Statement> = Vec::new();
    let mut i: usize = 0;
    assert(stmts_rel(c, l0, ss@.subrange(0, 0), out@));
    while i < ss.len()
        invariant
            i <= ss.len(),
            c == ctx.model(),
            stmts_rel(c, l0, ss@.subrange(0, i as int), out@),
            scopes_model(locals@) == stmts_locals(l0, ss@.subrange(0, i as int)),
            errs_model(errors@) == errs_model(old(errors)@) + stmts_errs(c, l0, ss@.subrange(0, i as int)),
        decreases ss.len() - i,
    {
        let ghost pre = ss@.subrange(0, i + 1);
        assert(pre.drop_last() =~= ss@.subrange(0, i as int));
        assert(pre.last() == ss@[i as int]);
        let ghost before = out@;
        let r = rewrite_statement(&ss[i], false, ctx, locals, errors);
        proof {
            lemma_rel_none(c, stmts_locals(l0, ss@.subrange(0, i as int)), false, ss@[i as int], r);
        }
        match r {
            Some(st) => {
                out.push(st);
                assert(out@.drop_last() =~= before);
            },
            None => {},
        }
        i = i + 1;
        assert(errs_model(errors@) =~= errs_model(old(errors)@) + stmts_errs(c, l0, ss@.subrange(0, i as int)));
    }
    assert(ss@.subrange(0, ss.len() as int) =~= ss@);
    out
}

/// A statement with every name made global as the module's rules say;
/// `top` says whether it stands at the top of the module. A package
/// declaration gives `None`. A nested binding binds its names in the
/// innermost scope.
pub fn rewrite_statement(
    s: &Statement,
    top: bool,
    ctx: &RewriteContext,
    locals: &mut Vec<Vec<String>>,
    errors: &mut Vec<ModuleLoadError>,
) -> (r: Option<Statement>)
    ensures
        stmt_rel(ctx.model(), scopes_model(old(locals)@), top, *s, r),
        errs_model(final(errors)@) == errs_model(old(errors)@) + stmt_errs(
            ctx.model(),
            scopes_model(old(locals)@),
            top,
            *s,
        ),
        scopes_model(final(locals)@) == stmt_locals(scopes_model(old(locals)@), top, *s),
    decreases s, 2nat,
{
    match s {
        Statement::FunctionDecl { .. } | Statement::TestDecl { .. } | Statement::StructDecl { .. } | Statement::InterfaceDecl { .. } | Statement::MethodDecl { .. } => rewrite_decl(s, top, ctx, locals, errors),
        Statement::Let { .. } | Statement::LetDestructured { .. } => rewrite_binding(s, top, ctx, locals, errors),
        Statement::ForClassic { .. } | Statement::ForIn { .. } | Statement::While { .. } | Statement::If { .. } => rewrite_control(s, top, ctx, locals, errors),
        Statement::Break => {
            assert(errs_model(errors@) =~= errs_model(old(errors)@) + Seq::<ErrModel>::empty());
            Some(Statement::Break)
        },
        Statement::Continue => {
            assert(errs_model(errors@) =~= errs_model(old(errors)@) + Seq::<ErrModel>::empty());
            Some(Statement::Continue)
        },
        Statement::PackageDecl { .. } => {
            assert(errs_model(errors@) =~= errs_model(old(errors)@) + Seq::<ErrModel>::empty());
            None
        },
        Statement::Import { module, name_span } => {
            assert(errs_model(errors@) =~= errs_model(old(errors)@) + Seq::<ErrModel>::empty());
            Some(Statement::Import { module: module.clone(), name_span: *name_span })
        },
        Statement::Export { statement, .. } => rewrite_statement(statement, top, ctx, locals, errors),
        _ => rewrite_simple(s, top, ctx, locals, errors),
    }
}

/// Statements made of expressions and names in use.
fn rewrite_simple(
    s: &Statement,
    top: bool,
    ctx: &RewriteContext,
    locals: &Vec<Vec<String>>,
    errors: &mut Vec<ModuleLoadError>,
) -> (r: Option<Statement>)
    requires
        *s is Return || *s is Print || *s is Assign || *s is ExpressionStatement || *s is Go || *s is Defer
            || *s is FieldAssign || *s is IndexAssign,
    ensures
        stmt_rel(ctx.model(), scopes_model(locals@), top, *s, r),
        errs_model(final(errors)@) == errs_model(old(errors)@) + stmt_errs(ctx.model(), scopes_model(locals@), top, *s),
        stmt_locals(scopes_model(locals@), top, *s) == scopes_model(locals@),
    decreases s, 1nat,
{
    let ghost c = ctx.model();
    let ghost l = scopes_model(locals@);
    let r = match s {
        Statement::Return { value } => Statement::Return { value: rewrite_expr(value, ctx, locals, errors) },
        Statement::Print { value } => Statement::Print { value: rewrite_expr(value, ctx, locals, errors) },
        Statement::ExpressionStatement(e) => Statement::ExpressionStatement(rewrite_expr(e, ctx, locals, errors)),
        Statement::Go { call } => Statement::Go { call: rewrite_expr(call, ctx, locals, errors) },
        Statement::Defer { call } => Statement::Defer { call: rewrite_expr(call, ctx, locals, errors) },
        Statement::Assign { name, value, name_span } => {
            let n = local_name_exec(ctx, locals, name);
            let v = rewrite_expr(value, ctx, locals, errors);
            Statement::Assign { name: n, value: v, name_span: *name_span }
        },
        Statement::FieldAssign { object, field, value, name_span } => {
            let o = local_name_exec(ctx, locals, object);
            let v = rewrite_expr(value, ctx, locals, errors);
            Statement::FieldAssign { object: o, field: field.clone(), value: v, name_span: *name_span }
        },
        Statement::IndexAssign { object, index, value, name_span } => {
            let o = rewrite_expr(object, ctx, locals, errors);
            let i = rewrite_expr(index, ctx, locals, errors);
            let v = rewrite_expr(value, ctx, locals, errors);
            Statement::IndexAssign { object: o, index: i, value: v, name_span: *name_span }
        },
        _ => {
            assert(false);
            Statement::Break
        },
    };
    assert(errs_model(errors@) =~= errs_model(old(errors)@) + stmt_errs(c, l, top, *s));
    Some(r)
}

/// Declarations: functions, tests, structs, interfaces and methods.
fn rewrite_decl(
    s: &Statement,
    top: bool,
    ctx: &RewriteContext,
    locals: &Vec<Vec<String>>,
    errors: &mut Vec<ModuleLoadError>,
) -> (r: Option<Statement>)
    requires
        *s is FunctionDecl || *s is TestDecl || *s is StructDecl || *s is InterfaceDecl || *s is MethodDecl,
    ensures
        stmt_rel(ctx.model(), scopes_model(locals@), top, *s, r),
        errs_model(final(errors)@) == errs_model(old(errors)@) + stmt_errs(ctx.model(), scopes_model(locals@), top, *s),
        stmt_locals(scopes_model(locals@), top, *s) == scopes_model(locals@),
    decreases s, 1nat,
{
    let ghost c = ctx.model();
    let ghost l = scopes_model(locals@);
    let r = match s {
        Statement::FunctionDecl { name, parameters, return_type, body, name_span } => {
            let n = if top {
                mangled_name(ctx, name)
            } else {
                name.clone()
            };
            let ps = rewrite_params(parameters, ctx, errors);
            let rt = rewrite_type(return_type, ctx, errors);
            let inner = scopes_with(locals, param_name_list(parameters));
            let b = rewrite_block(body, ctx, &inner, errors);
            Statement::FunctionDecl { name: n, parameters: ps, return_type: rt, body: b, name_span: *name_span }
        },
        Statement::TestDecl { name, body, name_span } => {
            let n = if top {
                mangled_name(ctx, name)
            } else {
                name.clone()
            };
            let b = rewrite_block(body, ctx, locals, errors);
            Statement::TestDecl { name: n, body: b, name_span: *name_span }
        },
        Statement::StructDecl { name, fields, name_span } => {
            let n = if top {
                mangled_name(ctx, name)
            } else {
                name.clone()
            };
            let fs = rewrite_fields(fields, ctx, errors);
            Statement::StructDecl { name: n, fields: fs, name_span: *name_span }
        },
        Statement::InterfaceDecl { name, methods, name_span } => {
            let n = if top {
                mangled_name(ctx, name)
            } else {
                name.clone()
            };
            let ms = rewrite_methods(methods, ctx, errors);
            Statement::InterfaceDecl { name: n, methods: ms, name_span: *name_span }
        },
        Statement::MethodDecl {
            receiver_type,
            receiver_name,
            name,
            parameters,
            return_type,
            body,
            name_span,
        } => {
            let rt = rewrite_type_name(receiver_type, ctx, errors);
            let ps = rewrite_params(parameters, ctx, errors);
            let ret = rewrite_type(return_type, ctx, errors);
            let mut names: Vec<String> = Vec::new();
            names.push(receiver_name.clone());
            let pn = param_name_list(parameters);
            let mut k: usize = 0;
            while k < pn.len()
                invariant
                    k <= pn.len(),
                    names_model(names@) == seq![receiver_name@] + names_model(pn@).subrange(0, k as int),
                decreases pn.len() - k,
            {
                let ghost before = names@;
                names.push(pn[k].clone());
                assert(names_model(names@) =~= names_model(before).push(pn@[k as int]@));
                k = k + 1;
                assert(names_model(names@) =~= seq![receiver_name@] + names_model(pn@).subrange(0, k as int));
            }
            assert(names_model(pn@).subrange(0, pn.len() as int) =~= names_model(pn@));
            let inner = scopes_with(locals, names);
            let b = rewrite_block(body, ctx, &inner, errors);
            Statement::MethodDecl {
                receiver_type: rt,
                receiver_name: receiver_name.clone(),
                name: name.clone(),
                parameters: ps,
                return_type: ret,
                body: b,
                name_span: *name_span,
            }
        },
        _ => {
            assert(false);
            Statement::Break
        },
    };
    assert(errs_model(errors@) =~= errs_model(old(errors)@) + stmt_errs(c, l, top, *s));
    Some(r)
}

/// Bindings: a nested binding binds its names before its value is
/// rewritten.
fn rewrite_binding(
    s: &Statement,
    top: bool,
    ctx: &RewriteContext,
    locals: &mut Vec<Vec<String>>,
    errors: &mut Vec<ModuleLoadError>,
) -> (r: Option<Statement>)
    requires
        *s is Let || *s is LetDestructured,
    ensures
        stmt_rel(ctx.model(), scopes_model(old(locals)@), top, *s, r),
        errs_model(final(errors)@) == errs_model(old(errors)@) + stmt_errs(
            ctx.model(),
            scopes_model(old(locals)@),
            top,
            *s,
        ),
        scopes_model(final(locals)@) == stmt_locals(scopes_model(old(locals)@), top, *s),
    decreases s, 1nat,
{
    let ghost c = ctx.model();
    let ghost l = scopes_model(locals@);
    let r = match s {
        Statement::Let { name, value, ty, name_span } => {
            if !top {
                add_local_exec(locals, name);
            }
            let n = if top {
                mangled_name(ctx, name)
            } else {
                name.clone()
            };
            let v = rewrite_expr(value, ctx, locals, errors);
            let t = rewrite_type(ty, ctx, errors);
            Statement::Let { name: n, value: v, ty: t, name_span: *name_span }
        },
        Statement::LetDestructured { names, value } => {
            ensure_scope_exec(locals);
            let ns = rewrite_destructured(names, top, ctx, errors);
            if !top {
                let pn = param_name_list(names);
                let ghost l1 = scopes_model(locals@);
                let mut k: usize = 0;
                while k < pn.len()
                    invariant
                        k <= pn.len(),
                        scopes_model(locals@) == add_locals(l1, names_model(pn@).subrange(0, k as int)),
                    decreases pn.len() - k,
                {
                    add_local_exec(locals, &pn[k]);
                    assert(names_model(pn@).subrange(0, k + 1).drop_last() =~= names_model(pn@).subrange(
                        0,
                        k as int,
                    ));
                    k = k + 1;
                }
                assert(names_model(pn@).subrange(0, pn.len() as int) =~= names_model(pn@));
            }
            let v = rewrite_expr(value, ctx, locals, errors);
            Statement::LetDestructured { names: ns, value: v }
        },
        _ => {
            assert(false);
            Statement::Break
        },
    };
    assert(errs_model(errors@) =~= errs_model(old(errors)@) + stmt_errs(c, l, top, *s));
    Some(r)
}

/// Loops and branches: their blocks see copies of the scopes.
fn rewrite_control(
    s: &Statement,
    top: bool,
    ctx: &RewriteContext,
    locals: &Vec<Vec<String>>,
    errors: &mut Vec<ModuleLoadError>,
) -> (r: Option<Statement>)
    requires
        *s is ForClassic || *s is ForIn || *s is While || *s is If,
    ensures
        stmt_rel(ctx.model(), scopes_model(locals@), top, *s, r),
        errs_model(final(errors)@) == errs_model(old(errors)@) + stmt_errs(ctx.model(), scopes_model(locals@), top, *s),
        stmt_locals(scopes_model(locals@), top, *s) == scopes_model(locals@),
    decreases s, 1nat,
{
    match s {
        Statement::ForClassic { .. } => Some(rewrite_for_classic(s, top, ctx, locals, errors)),
        Statement::ForIn { .. } => Some(rewrite_for_in(s, top, ctx, locals, errors)),
        _ => Some(rewrite_branch(s, top, ctx, locals, errors)),
    }
}

#[verifier::rlimit(100)]
#[verifier::spinoff_prover]
fn rewrite_for_classic(
    s: &Statement,
    top: bool,
    ctx: &RewriteContext,
    locals: &Vec<Vec<String>>,
    errors: &mut Vec<ModuleLoadError>,
) -> (r: Statement)
    requires
        *s is ForClassic,
    ensures
        stmt_rel(ctx.model(), scopes_model(locals@), top, *s, Some(r)),
        errs_model(final(errors)@) == errs_model(old(errors)@) + stmt_errs(ctx.model(), scopes_model(locals@), top, *s),
    decreases s, 0nat,
{
    let ghost c = ctx.model();
    let ghost l = scopes_model(locals@);
    match s {
        Statement::ForClassic { init, condition, post, body } => {
            let empty: Vec<String> = Vec::new();
            assert(names_model(empty@) =~= Seq::<Seq<char>>::empty());
            let mut inner = scopes_with(locals, empty);
            let ghost l0 = scopes_model(inner@);
            let ghost e0 = errors@;
            let i2 = match init {
                Some(st) => match rewrite_statement(st, false, ctx, &mut inner, errors) {
                    Some(x) => Some(Box::new(x)),
                    None => None,
                },
                None => {
                    assert(errs_model(errors@) =~= errs_model(e0) + Seq::<ErrModel>::empty());
                    None
                },
            };
            assert(opt_stmt_rel(c, l0, *init, i2));
            assert(errs_model(errors@) == errs_model(e0) + opt_stmt_errs(c, l0, *init));
            let ghost l1 = scopes_model(inner@);
            assert(l1 == opt_stmt_locals(l0, *init));
            let ghost e1 = errors@;
            let c2 = match condition {
                Some(e) => Some(rewrite_expr(e, ctx, &inner, errors)),
                None => {
                    assert(errs_model(errors@) =~= errs_model(e1) + Seq::<ErrModel>::empty());
                    None
                },
            };
            assert(opt_expr_rel(c, l1, *condition, c2));
            assert(errs_model(errors@) == errs_model(e1) + opt_expr_errs(c, l1, *condition));
            let ghost e2 = errors@;
            let p2 = match post {
                Some(st) => match rewrite_statement(st, false, ctx, &mut inner, errors) {
                    Some(x) => Some(Box::new(x)),
                    None => None,
                },
                None => {
                    assert(errs_model(errors@) =~= errs_model(e2) + Seq::<ErrModel>::empty());
                    None
                },
            };
            assert(opt_stmt_rel(c, l1, *post, p2));
            assert(errs_model(errors@) == errs_model(e2) + opt_stmt_errs(c, l1, *post));
            let ghost l2 = scopes_model(inner@);
            assert(l2 == opt_stmt_locals(l1, *post));
            let ghost e3 = errors@;
            let b = rewrite_block(body, ctx, &inner, errors);
            assert(errs_model(errors@) == errs_model(e3) + blk_errs(c, l2, *body));
            assert(errs_model(e0) == errs_model(old(errors)@));
            assert(stmt_errs(c, l, top, *s) == opt_stmt_errs(c, l0, *init) + opt_expr_errs(c, l1, *condition)
                + opt_stmt_errs(c, l1, *post) + blk_errs(c, l2, *body));
            assert(errs_model(errors@) =~= errs_model(old(errors)@) + stmt_errs(c, l, top, *s));
            Statement::ForClassic { init: i2, condition: c2, post: p2, body: b }
        },
        _ => {
            assert(false);
            Statement::Break
        },
    }
}

fn rewrite_for_in(
    s: &Statement,
    top: bool,
    ctx: &RewriteContext,
    locals: &Vec<Vec<String>>,
    errors: &mut Vec<ModuleLoadError>,
) -> (r: Statement)
    requires
        *s is ForIn,
    ensures
        stmt_rel(ctx.model(), scopes_model(locals@), top, *s, Some(r)),
        errs_model(final(errors)@) == errs_model(old(errors)@) + stmt_errs(ctx.model(), scopes_model(locals@), top, *s),
    decreases s, 0nat,
{
    let ghost c = ctx.model();
    let ghost l = scopes_model(locals@);
    match s {
        Statement::ForIn { index, iterator, collection, body, name_span } => {
            let mut names: Vec<String> = Vec::new();
            let idx = match index {
                Some(i) => {
                    names.push(i.clone());
                    Some(i.clone())
                },
                None => None,
            };
            names.push(iterator.clone());
            assert(names_model(names@) =~= loop_names(*index, *iterator));
            let coll = rewrite_expr(collection, ctx, locals, errors);
            let inner = scopes_with(locals, names);
            let b = rewrite_block(body, ctx, &inner, errors);
            assert(errs_model(errors@) =~= errs_model(old(errors)@) + stmt_errs(c, l, top, *s));
            Statement::ForIn {
                index: idx,
                iterator: iterator.clone(),
                collection: coll,
                body: b,
                name_span: *name_span,
            }
        },
        _ => {
            assert(false);
            Statement::Break
        },
    }
}

fn rewrite_branch(
    s: &Statement,
    top: bool,
    ctx: &RewriteContext,
    locals: &Vec<Vec<String>>,
    errors: &mut Vec<ModuleLoadError>,
) -> (r: Statement)
    requires
        *s is While || *s is If,
    ensures
        stmt_rel(ctx.model(), scopes_model(locals@), top, *s, Some(r)),
        errs_model(final(errors)@) == errs_model(old(errors)@) + stmt_errs(ctx.model(), scopes_model(locals@), top, *s),
    decreases s, 0nat,
{
    let ghost c = ctx.model();
    let ghost l = scopes_model(locals@);
    match s {
        Statement::While { condition, body } => {
            let cond = rewrite_expr(condition, ctx, locals, errors);
            let b = rewrite_block(body, ctx, locals, errors);
            assert(errs_model(errors@) =~= errs_model(old(errors)@) + stmt_errs(c, l, top, *s));
            Statement::While { condition: cond, body: b }
        },
        Statement::If { condition, consequence, alternative } => {
            let cond = rewrite_expr(condition, ctx, locals, errors);
            let b = rewrite_block(consequence, ctx, locals, errors);
            let ghost e1 = errors@;
            assert(errs_model(e1) =~= errs_model(old(errors)@) + ex_errs(c, l, *condition) + blk_errs(c, l, *consequence));
            let a = match alternative {
                Some(IfAlternative::Else(block)) => Some(
                    IfAlternative::Else(rewrite_block(block, ctx, locals, errors)),
                ),
                Some(IfAlternative::ElseIf(st)) => {
                    let mut copy = copy_scopes(locals);
                    let x = rewrite_statement(st, false, ctx, &mut copy, errors);
                    proof {
                        lemma_rel_none(c, l, false, **st, x);
                    }
                    match x {
                        Some(y) => Some(IfAlternative::ElseIf(Box::new(y))),
                        None => Some(
                            IfAlternative::ElseIf(Box::new(Statement::ExpressionStatement(Expression::NilLiteral))),
                        ),
                    }
                },
                None => {
                    assert(errs_model(errors@) =~= errs_model(e1) + Seq::<ErrModel>::empty());
                    None
                },
            };
            assert(alt_rel(c, l, *alternative, a));
            assert(errs_model(errors@) == errs_model(e1) + alt_errs(c, l, *alternative));
            assert(errs_model(errors@) =~= errs_model(old(errors)@) + stmt_errs(c, l, top, *s));
            Statement::If { condition: cond, consequence: b, alternative: a }
        },
        _ => {
            assert(false);
            Statement::Break
        },
    }
}

// ----------------------------------------------------------------------
// The names a module declares

/// The names a statement declares at the top of a module, added to
/// `syms`; a name declared twice is reported and keeps its first meaning.
pub open spec fn collect_spec(syms: Map<Seq<char>, SymbolMeta>, s: Statement, exported: bool, path: Seq<char>) -> (
    Map<Seq<char>, SymbolMeta>,
    Seq<ErrModel>,
)
    decreases s,
{
    match s {
        Statement::Export { statement, .. } => collect_spec(syms, *statement, true, path),
        Statement::FunctionDecl { name, .. } => declare(syms, name@, SymbolKind::Function, exported, path),
        Statement::StructDecl { name, .. } => declare(syms, name@, SymbolKind::Struct, exported, path),
        Statement::InterfaceDecl { name, .. } => declare(syms, name@, SymbolKind::Interface, exported, path),
        Statement::Let { name, .. } => declare(syms, name@, SymbolKind::Variable, exported, path),
        _ => (syms, Seq::empty()),
    }
}

pub open spec fn declare(
    syms: Map<Seq<char>, SymbolMeta>,
    name: Seq<char>,
    kind: SymbolKind,
    exported: bool,
    path: Seq<char>,
) -> (Map<Seq<char>, SymbolMeta>, Seq<ErrModel>) {
    if syms.contains_key(name) {
        (syms, seq![("Duplicate top-level symbol `"@ + name + "`"@, Some(path))])
    } else {
        (syms.insert(name, SymbolMeta { exported, kind }), Seq::empty())
    }
}

/// The names the statements of a module declare, in order.
pub open spec fn collect_all(ss: Seq<Statement>, path: Seq<char>) -> (Map<Seq<char>, SymbolMeta>, Seq<ErrModel>)
    decreases ss.len(),
{
    if ss.len() == 0 {
        (Map::empty(), Seq::empty())
    } else {
        let (m, e) = collect_all(ss.drop_last(), path);
        let (m2, e2) = collect_spec(m, ss.last(), false, path);
        (m2, e + e2)
    }
}

/// The names in a symbol table, each once.
pub open spec fn distinct_names(v: Seq<(String, SymbolMeta)>) -> bool {
    forall|i: int, j: int| 0 <= i < j < v.len() ==> v[i].0@ != v[j].0@
}

fn declare_exec(
    out: &mut Vec<(String, SymbolMeta)>,
    name: &String,
    kind: SymbolKind,
    exported: bool,
    path: &String,
    errors: &mut Vec<ModuleLoadError>,
)
    requires
        distinct_names(old(out)@),
    ensures
        distinct_names(final(out)@),
        meta_map(final(out)@) == declare(meta_map(old(out)@), name@, kind, exported, path@).0,
        errs_model(final(errors)@) == errs_model(old(errors)@) + declare(
            meta_map(old(out)@),
            name@,
            kind,
            exported,
            path@,
        ).1,
{
    match meta_get(out, name.as_str()) {
        Some(_) => {
            let mut msg: Vec<char> = Vec::new();
            push_str(&mut msg, "Duplicate top-level symbol `");
            push_string(&mut msg, name);
            push_str(&mut msg, "`");
            let e = ModuleLoadError { message: string_of(msg.as_slice()), path: Some(path.clone()) };
            proof {
                lemma_errs_push(errors@, e);
            }
            errors.push(e);
        },
        None => {
            proof {
                lemma_meta_map_keys(out@);
            }
            out.push((name.clone(), SymbolMeta { exported, kind }));
            assert(out@.drop_last() =~= old(out)@);
            assert(errs_model(errors@) =~= errs_model(old(errors)@) + Seq::<ErrModel>::empty());
        },
    }
}

proof fn lemma_meta_map_keys(v: Seq<(String, SymbolMeta)>)
    ensures
        forall|i: int| 0 <= i < v.len() ==> #[trigger] meta_map(v).contains_key(v[i].0@),
    decreases v.len(),
{
    if v.len() > 0 {
        lemma_meta_map_keys(v.drop_last());
        assert forall|i: int| 0 <= i < v.len() implies #[trigger] meta_map(v).contains_key(v[i].0@) by {
            if i < v.len() - 1 {
                assert(v.drop_last()[i] == v[i]);
                assert(meta_map(v.drop_last()).contains_key(v.drop_last()[i].0@));
            }
        }
    }
}

/// The names a statement declares at the top of a module.
pub fn collect_symbol(
    s: &Statement,
    exported: bool,
    path: &String,
    out: &mut Vec<(String, SymbolMeta)>,
    errors: &mut Vec<ModuleLoadError>,
)
    requires
        distinct_names(old(out)@),
    ensures
        distinct_names(final(out)@),
        meta_map(final(out)@) == collect_spec(meta_map(old(out)@), *s, exported, path@).0,
        errs_model(final(errors)@) == errs_model(old(errors)@) + collect_spec(
            meta_map(old(out)@),
            *s,
            exported,
            path@,
        ).1,
    decreases s,
{
    match s {
        Statement::Export { statement, .. } => collect_symbol(statement, true, path, out, errors),
        Statement::FunctionDecl { name, .. } => declare_exec(out, name, SymbolKind::Function, exported, path, errors),
        Statement::StructDecl { name, .. } => declare_exec(out, name, SymbolKind::Struct, exported, path, errors),
        Statement::InterfaceDecl { name, .. } => declare_exec(out, name, SymbolKind::Interface, exported, path, errors),
        Statement::Let { name, .. } => declare_exec(out, name, SymbolKind::Variable, exported, path, errors),
        _ => {
            assert(errs_model(errors@) =~= errs_model(old(errors)@) + Seq::<ErrModel>::empty());
        },
    }
}

/// The top-level names of a program, each once, with an error for each
/// name declared again.
pub fn collect_symbols(program: &Program, path: &String, errors: &mut Vec<ModuleLoadError>) -> (r: Vec<
    (String, SymbolMeta),
>)
    ensures
        distinct_names(r@),
        meta_map(r@) == collect_all(program.statements@, path@).0,
        errs_model(final(errors)@) == errs_model(old(errors)@) + collect_all(program.statements@, path@).1,
{
    let ss = &program.statements;
    let mut out: Vec<(String, SymbolMeta)> = Vec::new();
    let mut i: usize = 0;
    assert(meta_map(out@) =~= Map::<Seq<char>, SymbolMeta>::empty());
    while i < ss.len()
        invariant
            i <= ss.len(),
            ss@ == program.statements@,
            distinct_names(out@),
            meta_map(out@) == collect_all(ss@.subrange(0, i as int), path@).0,
            errs_model(errors@) == errs_model(old(errors)@) + collect_all(ss@.subrange(0, i as int), path@).1,
        decreases ss.len() - i,
    {
        let ghost pre = ss@.subrange(0, i + 1);
        assert(pre.drop_last() =~= ss@.subrange(0, i as int));
        collect_symbol(&ss[i], false, path, &mut out, errors);
        i = i + 1;
        assert(errs_model(errors@) =~= errs_model(old(errors)@) + collect_all(ss@.subrange(0, i as int), path@).1);
    }
    assert(ss@.subrange(0, ss.len() as int) =~= ss@);
    out
}

// ----------------------------------------------------------------------
// The package of a module

/// The names of the package declarations among the statements, in order.
pub open spec fn package_decls(ss: Seq<Statement>) -> Seq<Seq<char>>
    decreases ss.len(),
{
    if ss.len() == 0 {
        Seq::empty()
    } else {
        package_decls(ss.drop_last()) + match ss.last() {
            Statement::PackageDecl { name, .. } => seq![name@],
            _ => Seq::empty(),
        }
    }
}

pub open spec fn has_export(ss: Seq<Statement>) -> bool
    decreases ss.len(),
{
    ss.len() > 0 && (has_export(ss.drop_last()) || ss.last() is Export)
}

/// A module's package: the one it declares, `main` for the entry module
/// when it declares none; declaring two, or none in an imported module, is
/// an error. With it, whether the module declares a package and whether it
/// exports anything.
pub open spec fn package_spec(ss: Seq<Statement>, path: Seq<char>, is_entry: bool) -> Result<
    (Seq<char>, bool, bool),
    ErrModel,
> {
    let ds = package_decls(ss);
    if ds.len() > 1 {
        Err(("Multiple `atote` declarations"@, Some(path)))
    } else if ds.len() == 1 {
        Ok((ds[0], true, has_export(ss)))
    } else if is_entry {
        Ok(("main"@, false, has_export(ss)))
    } else {
        Err(("Imported module must declare `atote <name>;`"@, Some(path)))
    }
}

pub fn module_package(program: &Program, path: &String, is_entry: bool) -> (r: Result<
    (String, bool, bool),
    ModuleLoadError,
>)
    ensures
        match (r, package_spec(program.statements@, path@, is_entry)) {
            (Ok((p, d, e)), Ok((p2, d2, e2))) => p@ == p2 && d == d2 && e == e2,
            (Err(x), Err(y)) => x.model() == y,
            _ => false,
        },
{
    let ss = &program.statements;
    let mut package_name: Option<String> = None;
    let mut exports = false;
    let mut i: usize = 0;
    while i < ss.len()
        invariant
            i <= ss.len(),
            ss@ == program.statements@,
            package_decls(ss@.subrange(0, i as int)).len() <= 1,
            match package_name {
                Some(n) => package_decls(ss@.subrange(0, i as int)) == seq![n@],
                None => package_decls(ss@.subrange(0, i as int)).len() == 0,
            },
            exports == has_export(ss@.subrange(0, i as int)),
        decreases ss.len() - i,
    {
        let ghost pre = ss@.subrange(0, i + 1);
        assert(pre.drop_last() =~= ss@.subrange(0, i as int));
        assert(pre.last() == ss@[i as int]);
        match &ss[i] {
            Statement::PackageDecl { name, .. } => {
                if package_name.is_some() {
                    proof {
                        lemma_package_decls_prefix(ss@, i as int + 1);
                    }
                    return Err(
                        ModuleLoadError {
                            message: "Multiple `atote` declarations".to_string(),
                            path: Some(path.clone()),
                        },
                    );
                }
                package_name = Some(name.clone());
            },
            Statement::Export { .. } => {
                exports = true;
            },
            _ => {},
        }
        i = i + 1;
    }
    assert(ss@.subrange(0, ss.len() as int) =~= ss@);
    match package_name {
        Some(n) => Ok((n, true, exports)),
        None => {
            if is_entry {
                Ok(("main".to_string(), false, exports))
            } else {
                Err(
                    ModuleLoadError {
                        message: "Imported module must declare `atote <name>;`".to_string(),
                        path: Some(path.clone()),
                    },
                )
            }
        },
    }
}

/// Package declarations are never taken back: a prefix with two has a
/// whole with at least two.
proof fn lemma_package_decls_prefix(ss: Seq<Statement>, k: int)
    requires
        0 <= k <= ss.len(),
    ensures
        package_decls(ss.subrange(0, k)).len() <= package_decls(ss).len(),
    decreases ss.len() - k,
{
    if k < ss.len() {
        lemma_package_decls_prefix(ss, k + 1);
        assert(ss.subrange(0, k + 1).drop_last() =~= ss.subrange(0, k));
    } else {
        assert(ss.subrange(0, k) =~= ss);
    }
}

// ----------------------------------------------------------------------
// Linking modules

/// A module that was read and checked: its file, its package, its program,
/// the files of the modules it imports, its top-level names, and whether it
/// declares a package, exports anything and is the entry module.
pub struct ModuleInfo {
    pub path: String,
    pub package: String,
    pub program: Program,
    pub local_imports: Vec<String>,
    pub symbols: Vec<(String, SymbolMeta)>,
    pub has_package_decl: bool,
    pub has_export_decl: bool,
    pub is_entry: bool,
}

/// The linked program, and whether more than the entry module took part.
pub struct LoadedProgram {
    pub program: Program,
    pub uses_local_modules: bool,
}

/// The global name of a module's top-level name: `package__name`, but the
/// entry module's `main` function in package `main` stays `main`.
pub open spec fn global_name(package: Seq<char>, is_entry: bool, name: Seq<char>, kind: SymbolKind) -> Seq<char> {
    if is_entry && package == "main"@ && name == "main"@ && kind == SymbolKind::Function {
        "main"@
    } else {
        package + "__"@ + name
    }
}

pub open spec fn add_mangles(
    m: Map<(Seq<char>, Seq<char>), Seq<char>>,
    package: Seq<char>,
    is_entry: bool,
    syms: Seq<(String, SymbolMeta)>,
) -> Map<(Seq<char>, Seq<char>), Seq<char>>
    decreases syms.len(),
{
    if syms.len() == 0 {
        m
    } else {
        add_mangles(m, package, is_entry, syms.drop_last()).insert(
            (package, syms.last().0@),
            global_name(package, is_entry, syms.last().0@, syms.last().1.kind),
        )
    }
}

/// The global name of every top-level name of every module.
pub open spec fn all_mangles(ms: Seq<ModuleInfo>) -> Map<(Seq<char>, Seq<char>), Seq<char>>
    decreases ms.len(),
{
    if ms.len() == 0 {
        Map::empty()
    } else {
        add_mangles(all_mangles(ms.drop_last()), ms.last().package@, ms.last().is_entry, ms.last().symbols@)
    }
}

/// The top-level names of every package.
pub open spec fn all_exports(ms: Seq<ModuleInfo>) -> Map<Seq<char>, Map<Seq<char>, SymbolMeta>>
    decreases ms.len(),
{
    if ms.len() == 0 {
        Map::empty()
    } else {
        all_exports(ms.drop_last()).insert(ms.last().package@, meta_map(ms.last().symbols@))
    }
}

/// A module's own names and their global names.
pub open spec fn own_mangles(
    mangles: Map<(Seq<char>, Seq<char>), Seq<char>>,
    package: Seq<char>,
    syms: Seq<(String, SymbolMeta)>,
) -> Map<Seq<char>, Seq<char>>
    decreases syms.len(),
{
    if syms.len() == 0 {
        Map::empty()
    } else {
        let rest = own_mangles(mangles, package, syms.drop_last());
        if mangles.contains_key((package, syms.last().0@)) {
            rest.insert(syms.last().0@, mangles[(package, syms.last().0@)])
        } else {
            rest
        }
    }
}

/// The module read from a file, if any (the last one).
pub open spec fn module_at(ms: Seq<ModuleInfo>, path: Seq<char>) -> Option<ModuleInfo>
    decreases ms.len(),
{
    if ms.len() == 0 {
        None
    } else if ms.last().path@ == path {
        Some(ms.last())
    } else {
        module_at(ms.drop_last(), path)
    }
}

/// The packages a module imports, each known by its own name.
pub open spec fn import_aliases(ms: Seq<ModuleInfo>, imports: Seq<String>) -> Map<Seq<char>, Seq<char>>
    decreases imports.len(),
{
    if imports.len() == 0 {
        Map::empty()
    } else {
        let rest = import_aliases(ms, imports.drop_last());
        match module_at(ms, imports.last()@) {
            Some(q) => rest.insert(q.package@, q.package@),
            None => rest,
        }
    }
}

/// What rewriting module `m` of `ms` knows.
pub open spec fn module_ctx(ms: Seq<ModuleInfo>, m: ModuleInfo) -> RwModel {
    RwModel {
        path: m.path@,
        local_mangles: own_mangles(all_mangles(ms), m.package@, m.symbols@),
        aliases: import_aliases(ms, m.local_imports@),
        exports: all_exports(ms),
        mangles: all_mangles(ms),
    }
}

/// Whether a top-level statement stays in the linked program: package
/// declarations go, imports stay only when they name a standard module.
pub open spec fn top_keep(s: Statement) -> bool {
    match s {
        Statement::Import { module, .. } => crate::stdlib::stdlib_module(module@) is Some,
        _ => !drops(s),
    }
}

pub open spec fn top_stmt_rel(c: RwModel, s: Statement, out: Statement) -> bool {
    match s {
        Statement::Import { module, name_span } => out matches Statement::Import { module: m2, name_span: sp2 }
            && m2@ == module@ && sp2 == name_span,
        _ => stmt_rel(c, Seq::empty(), true, s, Some(out)),
    }
}

pub open spec fn top_rel(c: RwModel, ss: Seq<Statement>, outs: Seq<Statement>) -> bool
    decreases ss.len(),
{
    if ss.len() == 0 {
        outs.len() == 0
    } else if !top_keep(ss.last()) {
        top_rel(c, ss.drop_last(), outs)
    } else {
        &&& outs.len() > 0
        &&& top_rel(c, ss.drop_last(), outs.drop_last())
        &&& top_stmt_rel(c, ss.last(), outs.last())
    }
}

pub open spec fn top_errs(c: RwModel, ss: Seq<Statement>) -> Seq<ErrModel>
    decreases ss.len(),
{
    if ss.len() == 0 {
        Seq::empty()
    } else {
        top_errs(c, ss.drop_last()) + match ss.last() {
            Statement::Import { .. } => Seq::empty(),
            _ => stmt_errs(c, Seq::empty(), true, ss.last()),
        }
    }
}

/// The statements of the first modules of `all`, one module after the
/// other, each rewritten with what its module knows.
pub open spec fn linked_rel(all: Seq<ModuleInfo>, ms: Seq<ModuleInfo>, outs: Seq<Statement>) -> bool
    decreases ms.len(),
{
    if ms.len() == 0 {
        outs.len() == 0
    } else {
        exists|k: int|
            0 <= k <= outs.len() && linked_rel(all, ms.drop_last(), outs.subrange(0, k)) && top_rel(
                module_ctx(all, ms.last()),
                ms.last().program.statements@,
                outs.subrange(k, outs.len() as int),
            )
    }
}

pub open spec fn linked_errs(all: Seq<ModuleInfo>, ms: Seq<ModuleInfo>) -> Seq<ErrModel>
    decreases ms.len(),
{
    if ms.len() == 0 {
        Seq::empty()
    } else {
        linked_errs(all, ms.drop_last()) + top_errs(module_ctx(all, ms.last()), ms.last().program.statements@)
    }
}

/// Whether a module takes part in linking beyond a lone entry module.
pub open spec fn is_local_module(m: ModuleInfo) -> bool {
    m.has_package_decl || m.has_export_decl || m.local_imports.len() > 0
}

pub open spec fn any_local_module(ms: Seq<ModuleInfo>) -> bool {
    exists|i: int| 0 <= i < ms.len() && is_local_module(#[trigger] ms[i])
}

fn copy_symbols(v: &Vec<(String, SymbolMeta)>) -> (r: Vec<(String, SymbolMeta)>)
    ensures
        meta_map(r@) == meta_map(v@),
{
    let mut out: Vec<(String, SymbolMeta)> = Vec::new();
    let mut i: usize = 0;
    while i < v.len()
        invariant
            i <= v.len(),
            meta_map(out@) == meta_map(v@.subrange(0, i as int)),
        decreases v.len() - i,
    {
        let ghost before = out@;
        out.push((v[i].0.clone(), v[i].1));
        assert(out@.drop_last() =~= before);
        assert(v@.subrange(0, i + 1).drop_last() =~= v@.subrange(0, i as int));
        i = i + 1;
    }
    assert(v@.subrange(0, v.len() as int) =~= v@);
    out
}

fn build_tables(ms: &Vec<ModuleInfo>) -> (r: (Vec<(String, Vec<(String, SymbolMeta)>)>, Vec<(String, String, String)>))
    ensures
        export_map(r.0@) == all_exports(ms@),
        mangle_map(r.1@) == all_mangles(ms@),
{
    let mut exports: Vec<(String, Vec<(String, SymbolMeta)>)> = Vec::new();
    let mut mangles: Vec<(String, String, String)> = Vec::new();
    let mut i: usize = 0;
    while i < ms.len()
        invariant
            i <= ms.len(),
            export_map(exports@) == all_exports(ms@.subrange(0, i as int)),
            mangle_map(mangles@) == all_mangles(ms@.subrange(0, i as int)),
        decreases ms.len() - i,
    {
        let m = &ms[i];
        let ghost pre = ms@.subrange(0, i + 1);
        assert(pre.drop_last() =~= ms@.subrange(0, i as int));
        assert(pre.last() == ms@[i as int]);
        let ghost e0 = exports@;
        exports.push((m.package.clone(), copy_symbols(&m.symbols)));
        assert(exports@.drop_last() =~= e0);
        let ghost base = all_mangles(ms@.subrange(0, i as int));
        let mut j: usize = 0;
        while j < m.symbols.len()
            invariant
                j <= m.symbols.len(),
                mangle_map(mangles@) == add_mangles(base, m.package@, m.is_entry, m.symbols@.subrange(0, j as int)),
            decreases m.symbols.len() - j,
        {
            let name = &m.symbols[j].0;
            let kind = m.symbols[j].1.kind;
            let keep_main = m.is_entry && str_eq(m.package.as_str(), "main") && str_eq(name.as_str(), "main")
                && kind == SymbolKind::Function;
            let g = if keep_main {
                "main".to_string()
            } else {
                let mut t: Vec<char> = Vec::new();
                push_string(&mut t, &m.package);
                push_str(&mut t, "__");
                push_string(&mut t, name);
                string_of(t.as_slice())
            };
            proof {
                reveal_strlit("main");
            }
            assert(g@ == global_name(m.package@, m.is_entry, name@, kind));
            let ghost m0 = mangles@;
            mangles.push((m.package.clone(), name.clone(), g));
            assert(mangles@.drop_last() =~= m0);
            assert(m.symbols@.subrange(0, j + 1).drop_last() =~= m.symbols@.subrange(0, j as int));
            j = j + 1;
        }
        assert(m.symbols@.subrange(0, m.symbols.len() as int) =~= m.symbols@);
        i = i + 1;
    }
    assert(ms@.subrange(0, ms.len() as int) =~= ms@);
    (exports, mangles)
}

fn own_mangle_list(mangles: &Vec<(String, String, String)>, m: &ModuleInfo) -> (r: Vec<(String, String)>)
    ensures
        pair_map(r@) == own_mangles(mangle_map(mangles@), m.package@, m.symbols@),
{
    let mut out: Vec<(String, String)> = Vec::new();
    let mut j: usize = 0;
    while j < m.symbols.len()
        invariant
            j <= m.symbols.len(),
            pair_map(out@) == own_mangles(mangle_map(mangles@), m.package@, m.symbols@.subrange(0, j as int)),
        decreases m.symbols.len() - j,
    {
        assert(m.symbols@.subrange(0, j + 1).drop_last() =~= m.symbols@.subrange(0, j as int));
        match mangle_get(mangles, m.package.as_str(), m.symbols[j].0.as_str()) {
            Some(g) => {
                let ghost o0 = out@;
                out.push((m.symbols[j].0.clone(), g.clone()));
                assert(out@.drop_last() =~= o0);
            },
            None => {},
        }
        j = j + 1;
    }
    assert(m.symbols@.subrange(0, m.symbols.len() as int) =~= m.symbols@);
    out
}

fn find_module<'a>(ms: &'a Vec<ModuleInfo>, path: &String) -> (r: Option<&'a ModuleInfo>)
    ensures
        match r {
            Some(q) => module_at(ms@, path@) == Some(*q),
            None => module_at(ms@, path@) is None,
        },
{
    let mut i = ms.len();
    assert(ms@.subrange(0, i as int) =~= ms@);
    while i > 0
        invariant
            i <= ms.len(),
            module_at(ms@.subrange(0, i as int), path@) == module_at(ms@, path@),
        decreases i,
    {
        let ghost pre = ms@.subrange(0, i as int);
        assert(pre.drop_last() =~= ms@.subrange(0, i - 1));
        assert(pre.last() == ms@[i - 1]);
        if str_eq(ms[i - 1].path.as_str(), path.as_str()) {
            return Some(&ms[i - 1]);
        }
        i = i - 1;
    }
    None
}

fn alias_list(ms: &Vec<ModuleInfo>, m: &ModuleInfo) -> (r: Vec<(String, String)>)
    ensures
        pair_map(r@) == import_aliases(ms@, m.local_imports@),
{
    let mut out: Vec<(String, String)> = Vec::new();
    let mut j: usize = 0;
    while j < m.local_imports.len()
        invariant
            j <= m.local_imports.len(),
            pair_map(out@) == import_aliases(ms@, m.local_imports@.subrange(0, j as int)),
        decreases m.local_imports.len() - j,
    {
        assert(m.local_imports@.subrange(0, j + 1).drop_last() =~= m.local_imports@.subrange(0, j as int));
        match find_module(ms, &m.local_imports[j]) {
            Some(q) => {
                let ghost o0 = out@;
                out.push((q.package.clone(), q.package.clone()));
                assert(out@.drop_last() =~= o0);
            },
            None => {},
        }
        j = j + 1;
    }
    assert(m.local_imports@.subrange(0, m.local_imports.len() as int) =~= m.local_imports@);
    out
}

/// The top-level statements of one module, rewritten.
fn link_module(
    m: &ModuleInfo,
    ctx: &RewriteContext,
    out: &mut Vec<Statement>,
    errors: &mut Vec<ModuleLoadError>,
)
    ensures
        exists|k: int|
            0 <= k <= final(out)@.len() && final(out)@.subrange(0, k) == old(out)@ && top_rel(
                ctx.model(),
                m.program.statements@,
                final(out)@.subrange(k, final(out)@.len() as int),
            ),
        final(out)@.subrange(0, old(out)@.len() as int) == old(out)@,
        errs_model(final(errors)@) == errs_model(old(errors)@) + top_errs(ctx.model(), m.program.statements@),
{
    let ghost c = ctx.model();
    let ss = &m.program.statements;
    let ghost k = out@.len() as int;
    let mut i: usize = 0;
    assert(out@.subrange(k, out@.len() as int) =~= Seq::<Statement>::empty());
    assert(out@.subrange(0, k) =~= old(out)@);
    while i < ss.len()
        invariant
            i <= ss.len(),
            ss@ == m.program.statements@,
            c == ctx.model(),
            k == old(out)@.len(),
            k <= out@.len(),
            out@.subrange(0, k) == old(out)@,
            top_rel(c, ss@.subrange(0, i as int), out@.subrange(k, out@.len() as int)),
            errs_model(errors@) == errs_model(old(errors)@) + top_errs(c, ss@.subrange(0, i as int)),
        decreases ss.len() - i,
    {
        let ghost pre = ss@.subrange(0, i + 1);
        assert(pre.drop_last() =~= ss@.subrange(0, i as int));
        assert(pre.last() == ss@[i as int]);
        let ghost o0 = out@;
        match &ss[i] {
            Statement::PackageDecl { .. } => {
                assert(errs_model(errors@) =~= errs_model(old(errors)@) + top_errs(c, pre));
            },
            Statement::Import { module, name_span } => {
                if crate::stdlib::resolve_stdlib_module(module.as_str()).is_some() {
                    out.push(Statement::Import { module: module.clone(), name_span: *name_span });
                    assert(out@.subrange(k, out@.len() as int).drop_last() =~= o0.subrange(k, o0.len() as int));
                }
                assert(errs_model(errors@) =~= errs_model(old(errors)@) + top_errs(c, pre));
            },
            _ => {
                let mut locals: Vec<Vec<String>> = Vec::new();
                assert(scopes_model(locals@) =~= Seq::<Seq<Seq<char>>>::empty());
                let r = rewrite_statement(&ss[i], true, ctx, &mut locals, errors);
                proof {
                    lemma_rel_none(c, Seq::empty(), true, ss@[i as int], r);
                }
                match r {
                    Some(st) => {
                        out.push(st);
                        assert(out@.subrange(k, out@.len() as int).drop_last() =~= o0.subrange(
                            k,
                            o0.len() as int,
                        ));
                    },
                    None => {},
                }
                assert(errs_model(errors@) =~= errs_model(old(errors)@) + top_errs(c, pre));
            },
        }
        assert(out@.subrange(0, k) =~= o0.subrange(0, k));
        i = i + 1;
    }
    assert(ss@.subrange(0, ss.len() as int) =~= ss@);
}

/// Links modules, given in the order they were loaded (each after the
/// modules it imports), into one program: every module's statements, its
/// names made global, package declarations and imports of local modules
/// left out. The errors that rewriting reports, if any, instead.
pub fn link_modules(ms: &Vec<ModuleInfo>) -> (r: Result<LoadedProgram, Vec<ModuleLoadError>>)
    ensures
        match r {
            Ok(lp) => linked_errs(ms@, ms@).len() == 0 && linked_rel(ms@, ms@, lp.program.statements@)
                && lp.uses_local_modules == (ms.len() > 1 || any_local_module(ms@)),
            Err(es) => linked_errs(ms@, ms@).len() > 0 && errs_model(es@) == linked_errs(ms@, ms@),
        },
{
    let (exports, mangles) = build_tables(ms);
    let mut ctx = RewriteContext {
        path: String::new(),
        local_mangles: Vec::new(),
        import_aliases: Vec::new(),
        exports,
        mangles,
    };
    let mut out: Vec<Statement> = Vec::new();
    let mut errors: Vec<ModuleLoadError> = Vec::new();
    let mut uses_local = ms.len() > 1;
    let mut i: usize = 0;
    assert(errs_model(errors@) =~= Seq::<ErrModel>::empty());
    while i < ms.len()
        invariant
            i <= ms.len(),
            export_map(ctx.exports@) == all_exports(ms@),
            mangle_map(ctx.mangles@) == all_mangles(ms@),
            linked_rel(ms@, ms@.subrange(0, i as int), out@),
            errs_model(errors@) == linked_errs(ms@, ms@.subrange(0, i as int)),
            uses_local == (ms.len() > 1 || any_local_module(ms@.subrange(0, i as int))),
        decreases ms.len() - i,
    {
        let m = &ms[i];
        let ghost pre = ms@.subrange(0, i + 1);
        assert(pre.drop_last() =~= ms@.subrange(0, i as int));
        assert(pre.last() == ms@[i as int]);
        if m.has_package_decl || m.has_export_decl || m.local_imports.len() > 0 {
            uses_local = true;
        }
        proof {
            if any_local_module(pre) && !any_local_module(ms@.subrange(0, i as int)) {
                let j = choose|j: int| 0 <= j < pre.len() && is_local_module(#[trigger] pre[j]);
                if j < i {
                    assert(ms@.subrange(0, i as int)[j] == pre[j]);
                }
            }
            if any_local_module(ms@.subrange(0, i as int)) {
                let j = choose|j: int| 0 <= j < i && is_local_module(#[trigger] ms@.subrange(0, i as int)[j]);
                assert(pre[j] == ms@.subrange(0, i as int)[j]);
            }
            if is_local_module(*m) {
                assert(pre[i as int] == ms@[i as int]);
            }
        }
        ctx.path = m.path.clone();
        ctx.local_mangles = own_mangle_list(&ctx.mangles, m);
        ctx.import_aliases = alias_list(ms, m);
        assert(ctx.model() == module_ctx(ms@, ms@[i as int]));
        let ghost o0 = out@;
        link_module(m, &ctx, &mut out, &mut errors);
        proof {
            let k = choose|k: int|
                0 <= k <= out@.len() && out@.subrange(0, k) == o0 && top_rel(
                    ctx.model(),
                    m.program.statements@,
                    out@.subrange(k, out@.len() as int),
                );
            assert(linked_rel(ms@, pre.drop_last(), out@.subrange(0, k)));
        }
        i = i + 1;
    }
    assert(ms@.subrange(0, ms.len() as int) =~= ms@);
    if errors.len() > 0 {
        Err(errors)
    } else {
        Ok(LoadedProgram { program: Program { statements: out }, uses_local_modules: uses_local })
    }
}

} // verus!
