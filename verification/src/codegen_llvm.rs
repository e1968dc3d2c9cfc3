//! Pieces of the LLVM backend: how names, string constants and types are
//! written in LLVM IR, and which variables a closure captures.
use vstd::prelude::*;

use crate::ast::{BlockStatement, Expression, IfAlternative, Span, Statement, Type, TypeModel};
use crate::formatter::{items_model, join, push_join};
use crate::module_loader::{
    add_local, add_local_exec, add_locals, in_scopes, is_local, names_model, param_name_list, param_names,
    scopes_model,
    Scopes,
};
use crate::text::{chars_of, push_str, push_string, str_eq, string_of};
use crate::typecheck::{push_type_debug, type_debug};
use vstd::utf8::encode_utf8;

verus! {

// ----------------------------------------------------------------------
// String constants

/// An uppercase hexadecimal digit.
pub open spec fn hex_upper(d: nat) -> char {
    if d < 10 {
        ((d + 48) as u32) as char
    } else {
        ((d + 55) as u32) as char
    }
}

/// How one byte is written inside an LLVM string constant: a backslash and a
/// double quote as `\5C` and `\22`, other printable ASCII as itself, every
/// other byte as `\` and two uppercase hexadecimal digits.
pub open spec fn llvm_byte(b: u8) -> Seq<char> {
    if b == 92 {
        "\\5C"@
    } else if b == 34 {
        "\\22"@
    } else if 32 <= b <= 126 {
        seq![(b as u32) as char]
    } else {
        seq!['\\', hex_upper((b / 16) as nat), hex_upper((b % 16) as nat)]
    }
}

/// The bytes of a string constant as LLVM writes them.
pub open spec fn llvm_escaped(bs: Seq<u8>) -> Seq<char>
    decreases bs.len(),
{
    if bs.len() == 0 {
        Seq::empty()
    } else {
        llvm_escaped(bs.drop_last()) + llvm_byte(bs.last())
    }
}

fn hex_upper_exec(d: u8) -> (c: char)
    requires
        d < 16,
    ensures
        c == hex_upper(d as nat),
{
    if d < 10 {
        (d + 48) as char
    } else {
        (d + 55) as char
    }
}

/// The UTF-8 bytes of a string as they stand inside an LLVM string
/// constant.
pub fn escape_llvm_bytes(s: &str) -> (r: String)
    ensures
        r@ == llvm_escaped(encode_utf8(s@)),
{
    let bytes = s.as_bytes();
    let mut out: Vec<char> = Vec::new();
    let mut i: usize = 0;
    while i < bytes.len()
        invariant
            i <= bytes.len(),
            bytes@ == encode_utf8(s@),
            out@ == llvm_escaped(bytes@.subrange(0, i as int)),
        decreases bytes.len() - i,
    {
        let b = bytes[i];
        let ghost before = out@;
        if b == 92 {
            push_str(&mut out, "\\5C");
        } else if b == 34 {
            push_str(&mut out, "\\22");
        } else if 32 <= b && b <= 126 {
            out.push(b as char);
        } else {
            out.push('\\');
            out.push(hex_upper_exec(b / 16));
            out.push(hex_upper_exec(b % 16));
        }
        assert(out@ =~= before + llvm_byte(b));
        assert(bytes@.subrange(0, i + 1).drop_last() =~= bytes@.subrange(0, i as int));
        i = i + 1;
    }
    assert(bytes@.subrange(0, bytes.len() as int) =~= bytes@);
    string_of(out.as_slice())
}

// ----------------------------------------------------------------------
// Identifiers

/// Whether a character may stand at position `i` of an LLVM identifier:
/// an ASCII letter or `_` first, then also ASCII digits.
pub open spec fn ident_char_ok(i: int, c: char) -> bool {
    ||| ('a' <= c <= 'z') || ('A' <= c <= 'Z') || c == '_'
    ||| i > 0 && '0' <= c <= '9'
}

/// A name with every character that may not stand where it stands
/// replaced by `_`; `unnamed` for the empty name.
pub open spec fn sanitized(raw: Seq<char>) -> Seq<char> {
    if raw.len() == 0 {
        "unnamed"@
    } else {
        Seq::new(raw.len(), |i: int| if ident_char_ok(i, raw[i]) { raw[i] } else { '_' })
    }
}

/// A name as an LLVM identifier.
pub fn sanitize_ident(raw: &str) -> (r: String)
    ensures
        r@ == sanitized(raw@),
{
    let cs = chars_of(raw);
    if cs.len() == 0 {
        return "unnamed".to_owned();
    }
    let mut out: Vec<char> = Vec::new();
    let mut i: usize = 0;
    while i < cs.len()
        invariant
            i <= cs.len(),
            cs@ == raw@,
            out@.len() == i,
            forall|k: int| 0 <= k < i ==> out@[k] == (if ident_char_ok(k, cs@[k]) { cs@[k] } else { '_' }),
        decreases cs.len() - i,
    {
        let c = cs[i];
        let ok = ('a' <= c && c <= 'z') || ('A' <= c && c <= 'Z') || c == '_' || (i > 0 && '0' <= c
            && c <= '9');
        if ok {
            out.push(c);
        } else {
            out.push('_');
        }
        i = i + 1;
    }
    assert(out@ =~= sanitized(raw@));
    string_of(out.as_slice())
}

// ----------------------------------------------------------------------
// Type tags and sizes

/// How one character of an LLVM type is written in a runtime function's
/// name: `%`, braces and spaces are dropped, `*` becomes `ptr`, and `,` and
/// `.` become `_`.
pub open spec fn tag_char(c: char) -> Seq<char> {
    if c == '%' || c == '{' || c == '}' || c == ' ' {
        Seq::empty()
    } else if c == '*' {
        "ptr"@
    } else if c == ',' || c == '.' {
        seq!['_']
    } else {
        seq![c]
    }
}

/// An LLVM type as it is written in runtime function names.
pub open spec fn type_tag_text(t: Seq<char>) -> Seq<char>
    decreases t.len(),
{
    if t.len() == 0 {
        Seq::empty()
    } else {
        type_tag_text(t.drop_last()) + tag_char(t.last())
    }
}

/// An LLVM type as it is written in runtime function names.
pub fn type_tag(llvm_ty: &str) -> (r: String)
    ensures
        r@ == type_tag_text(llvm_ty@),
{
    let cs = chars_of(llvm_ty);
    let mut out: Vec<char> = Vec::new();
    let mut i: usize = 0;
    while i < cs.len()
        invariant
            i <= cs.len(),
            cs@ == llvm_ty@,
            out@ == type_tag_text(cs@.subrange(0, i as int)),
        decreases cs.len() - i,
    {
        let c = cs[i];
        let ghost before = out@;
        if c == '%' || c == '{' || c == '}' || c == ' ' {
        } else if c == '*' {
            push_str(&mut out, "ptr");
        } else if c == ',' || c == '.' {
            out.push('_');
        } else {
            out.push(c);
        }
        assert(out@ =~= before + tag_char(c));
        assert(cs@.subrange(0, i + 1).drop_last() =~= cs@.subrange(0, i as int));
        i = i + 1;
    }
    assert(cs@.subrange(0, cs.len() as int) =~= cs@);
    string_of(out.as_slice())
}

/// The suffix of the runtime functions of a map type.
pub open spec fn map_suffix_text(key_ty: Seq<char>, value_ty: Seq<char>) -> Seq<char> {
    type_tag_text(key_ty) + seq!['_'] + type_tag_text(value_ty)
}

/// The suffix of the runtime functions of a map with the given LLVM key and
/// value types.
pub fn map_suffix(key_ty: &str, value_ty: &str) -> (r: String)
    ensures
        r@ == map_suffix_text(key_ty@, value_ty@),
{
    let k = type_tag(key_ty);
    let v = type_tag(value_ty);
    let mut out: Vec<char> = Vec::new();
    push_string(&mut out, &k);
    out.push('_');
    push_string(&mut out, &v);
    assert(out@ =~= map_suffix_text(key_ty@, value_ty@));
    string_of(out.as_slice())
}

/// The size in bytes of an array element of an LLVM type, if the backend
/// knows it: 1 for `i1`, 8 for `i64`, `double` and every pointer type.
pub open spec fn type_size(t: Seq<char>) -> Option<u64> {
    if t == "i1"@ {
        Some(1)
    } else if t == "i64"@ || t == "double"@ || t == "i8*"@ {
        Some(8)
    } else if t.len() > 0 && t.last() == '*' {
        Some(8)
    } else {
        None
    }
}

/// The size in bytes of an array element of an LLVM type, or why it is not
/// known.
pub fn llvm_type_size(llvm_ty: &str) -> (r: Result<u64, String>)
    ensures
        match (r, type_size(llvm_ty@)) {
            (Ok(n), Some(m)) => n == m,
            (Err(e), None) => e@ == "LLVM backend does not yet know array element size for "@
                + llvm_ty@,
            _ => false,
        },
{
    if str_eq(llvm_ty, "i1") {
        return Ok(1);
    }
    if str_eq(llvm_ty, "i64") || str_eq(llvm_ty, "double") || str_eq(llvm_ty, "i8*") {
        return Ok(8);
    }
    let cs = chars_of(llvm_ty);
    if cs.len() > 0 && cs[cs.len() - 1] == '*' {
        return Ok(8);
    }
    let mut out: Vec<char> = Vec::new();
    push_str(&mut out, "LLVM backend does not yet know array element size for ");
    push_str(&mut out, llvm_ty);
    Err(string_of(out.as_slice()))
}

// ----------------------------------------------------------------------
// Function types

/// The LLVM type of a pointer to a function with the given return and
/// parameter types: `ret (p1, p2)*`.
pub open spec fn fn_ptr_text(ret_ty: Seq<char>, param_tys: Seq<Seq<char>>) -> Seq<char> {
    ret_ty + " ("@ + join(param_tys, ", "@) + ")*"@
}

/// The LLVM type of a pointer to a function with the given return and
/// parameter types.
pub fn fn_ptr_type(ret_ty: &Vec<char>, param_tys: &Vec<Vec<char>>) -> (r: String)
    ensures
        r@ == fn_ptr_text(ret_ty@, items_model(param_tys@)),
{
    let mut out: Vec<char> = Vec::new();
    let mut i: usize = 0;
    while i < ret_ty.len()
        invariant
            i <= ret_ty.len(),
            out@ == ret_ty@.subrange(0, i as int),
        decreases ret_ty.len() - i,
    {
        out.push(ret_ty[i]);
        i = i + 1;
        assert(out@ =~= ret_ty@.subrange(0, i as int));
    }
    assert(ret_ty@.subrange(0, ret_ty.len() as int) =~= ret_ty@);
    push_str(&mut out, " (");
    push_join(&mut out, param_tys, ", ");
    push_str(&mut out, ")*");
    assert(out@ =~= fn_ptr_text(ret_ty@, items_model(param_tys@)));
    string_of(out.as_slice())
}

// ----------------------------------------------------------------------
// Types

/// A declared struct as the backend knows it: its LLVM type name and the
/// LLVM type of each field.
pub struct StructMeta {
    pub llvm_name: String,
    pub fields: Vec<(String, String)>,
}

/// The declared structs, each name with its LLVM type name; a later entry
/// for a name stands for it.
pub open spec fn registry_model(reg: Seq<(String, StructMeta)>) -> Seq<(Seq<char>, Seq<char>)> {
    Seq::new(reg.len(), |i: int| (reg[i].0@, reg[i].1.llvm_name@))
}

/// The LLVM type name of the struct with the given name, the latest entry
/// first.
pub open spec fn struct_by_name(reg: Seq<(Seq<char>, Seq<char>)>, name: Seq<char>) -> Option<Seq<char>>
    decreases reg.len(),
{
    if reg.len() == 0 {
        None
    } else if reg.last().0 == name {
        Some(reg.last().1)
    } else {
        struct_by_name(reg.drop_last(), name)
    }
}

/// Whether some struct has the given LLVM type name.
pub open spec fn has_llvm_name(reg: Seq<(Seq<char>, Seq<char>)>, name: Seq<char>) -> bool {
    exists|i: int| 0 <= i < reg.len() && (#[trigger] reg[i]).1 == name
}

/// The LLVM type of a struct named either by its own name or by its LLVM
/// type name.
pub open spec fn struct_llvm(reg: Seq<(Seq<char>, Seq<char>)>, name: Seq<char>) -> Option<Seq<char>> {
    match struct_by_name(reg, name) {
        Some(l) => Some(l),
        None => if has_llvm_name(reg, name) {
            Some(name)
        } else {
            None
        },
    }
}

/// The LLVM type of a language type, or why the backend cannot lower it.
pub open spec fn llvm_type(t: TypeModel, reg: Seq<(Seq<char>, Seq<char>)>) -> Result<Seq<char>, Seq<char>>
    decreases t, 1nat,
{
    match t {
        TypeModel::Kain => Ok("i64"@),
        TypeModel::Sit => Ok("i1"@),
        TypeModel::DaTha => Ok("double"@),
        TypeModel::Sar | TypeModel::Error => Ok("i8*"@),
        TypeModel::Nil => Ok("void"@),
        TypeModel::Array(inner) => match llvm_type(*inner, reg) {
            Ok(x) => Ok(x + "*"@),
            Err(e) => Err(e),
        },
        TypeModel::Dict(k, v) => match llvm_type(*k, reg) {
            Err(e) => Err(e),
            Ok(ks) => match llvm_type(*v, reg) {
                Err(e) => Err(e),
                Ok(vs) => Ok("%map."@ + map_suffix_text(ks, vs) + "*"@),
            },
        },
        TypeModel::Struct(n) => match struct_llvm(reg, n) {
            Some(l) => Ok(l),
            None => Err("Unknown struct type in type lowering: "@ + n),
        },
        TypeModel::Tuple(ts) => if ts.len() == 0 {
            Err("Empty tuple type is not supported"@)
        } else {
            match llvm_types(ts, reg) {
                Ok(xs) => Ok("{ "@ + join(xs, ", "@) + " }"@),
                Err(e) => Err(e),
            }
        },
        TypeModel::Function(ps, r) => match llvm_types(ps, reg) {
            Err(e) => Err(e),
            Ok(xs) => match llvm_type(*r, reg) {
                Err(e) => Err(e),
                Ok(rs) => Ok(fn_ptr_text(rs, xs)),
            },
        },
        _ => Err("LLVM Phase1 type not supported yet: "@ + type_debug(t)),
    }
}

/// The LLVM types of a list of types, or the first reason one cannot be
/// lowered.
pub open spec fn llvm_types(ts: Seq<TypeModel>, reg: Seq<(Seq<char>, Seq<char>)>) -> Result<Seq<Seq<char>>, Seq<char>>
    decreases ts, 0nat,
{
    if ts.len() == 0 {
        Ok(Seq::empty())
    } else {
        match llvm_types(ts.drop_last(), reg) {
            Err(e) => Err(e),
            Ok(xs) => match llvm_type(ts.last(), reg) {
                Err(e) => Err(e),
                Ok(x) => Ok(xs.push(x)),
            },
        }
    }
}

/// The LLVM type name of a declared struct, looked up by its name or by its
/// LLVM type name.
pub fn lookup_struct(reg: &Vec<(String, StructMeta)>, name: &str) -> (r: Option<String>)
    ensures
        match r {
            Some(l) => struct_llvm(registry_model(reg@), name@) == Some(l@),
            None => struct_llvm(registry_model(reg@), name@) is None,
        },
{
    let ghost m = registry_model(reg@);
    let mut i: usize = reg.len();
    assert(m.subrange(0, i as int) =~= m);
    while i > 0
        invariant
            i <= reg.len(),
            m == registry_model(reg@),
            struct_by_name(m, name@) == struct_by_name(m.subrange(0, i as int), name@),
        decreases i,
    {
        assert(m.subrange(0, i as int).drop_last() =~= m.subrange(0, i - 1));
        if str_eq(reg[i - 1].0.as_str(), name) {
            return Some(reg[i - 1].1.llvm_name.clone());
        }
        i = i - 1;
    }
    let mut j: usize = 0;
    while j < reg.len()
        invariant
            j <= reg.len(),
            m == registry_model(reg@),
            struct_by_name(m, name@) is None,
            forall|k: int| 0 <= k < j ==> (#[trigger] m[k]).1 != name@,
        decreases reg.len() - j,
    {
        if str_eq(reg[j].1.llvm_name.as_str(), name) {
            assert(m[j as int].1 == name@);
            return Some(name.to_owned());
        }
        j = j + 1;
    }
    None
}

/// The LLVM type of a language type, or why the backend cannot lower it.
pub fn type_to_llvm(t: &Type, reg: &Vec<(String, StructMeta)>) -> (r: Result<String, String>)
    ensures
        match (r, llvm_type(t.model(), registry_model(reg@))) {
            (Ok(a), Ok(b)) => a@ == b,
            (Err(a), Err(b)) => a@ == b,
            _ => false,
        },
    decreases t, 1nat,
{
    let ghost m = registry_model(reg@);
    match t {
        Type::Kain => Ok("i64".to_owned()),
        Type::Sit => Ok("i1".to_owned()),
        Type::DaTha => Ok("double".to_owned()),
        Type::Sar | Type::Error => Ok("i8*".to_owned()),
        Type::Nil => Ok("void".to_owned()),
        Type::Array(inner) => match type_to_llvm(inner, reg) {
            Ok(x) => {
                let mut out: Vec<char> = Vec::new();
                push_string(&mut out, &x);
                push_str(&mut out, "*");
                Ok(string_of(out.as_slice()))
            },
            Err(e) => Err(e),
        },
        Type::HashMap(k, v) => {
            let ks = match type_to_llvm(k, reg) {
                Ok(x) => x,
                Err(e) => return Err(e),
            };
            let vs = match type_to_llvm(v, reg) {
                Ok(x) => x,
                Err(e) => return Err(e),
            };
            let suffix = map_suffix(ks.as_str(), vs.as_str());
            let mut out: Vec<char> = Vec::new();
            push_str(&mut out, "%map.");
            push_string(&mut out, &suffix);
            push_str(&mut out, "*");
            Ok(string_of(out.as_slice()))
        },
        Type::Struct(n) => match lookup_struct(reg, n.as_str()) {
            Some(l) => Ok(l),
            None => {
                let mut out: Vec<char> = Vec::new();
                push_str(&mut out, "Unknown struct type in type lowering: ");
                push_string(&mut out, n);
                Err(string_of(out.as_slice()))
            },
        },
        Type::Tuple(ts) => {
            if ts.len() == 0 {
                proof {
                    crate::ast::lemma_models_of(ts@);
                }
                return Err("Empty tuple type is not supported".to_owned());
            }
            proof {
                crate::ast::lemma_models_of(ts@);
            }
            match types_to_llvm(ts, reg) {
                Ok(xs) => {
                    let mut out: Vec<char> = Vec::new();
                    push_str(&mut out, "{ ");
                    push_join(&mut out, &xs, ", ");
                    push_str(&mut out, " }");
                    Ok(string_of(out.as_slice()))
                },
                Err(e) => Err(e),
            }
        },
        Type::Function { params, return_type } => {
            let xs = match types_to_llvm(params, reg) {
                Ok(x) => x,
                Err(e) => return Err(e),
            };
            let rs = match type_to_llvm(return_type, reg) {
                Ok(x) => x,
                Err(e) => return Err(e),
            };
            let rv = chars_of(rs.as_str());
            Ok(fn_ptr_type(&rv, &xs))
        },
        _ => {
            let mut out: Vec<char> = Vec::new();
            push_str(&mut out, "LLVM Phase1 type not supported yet: ");
            push_type_debug(&mut out, t);
            Err(string_of(out.as_slice()))
        },
    }
}

/// The LLVM types of a list of types, or the first reason one cannot be
/// lowered.
pub fn types_to_llvm(ts: &Vec<Type>, reg: &Vec<(String, StructMeta)>) -> (r: Result<Vec<Vec<char>>, String>)
    ensures
        match (r, llvm_types(crate::ast::models_of(ts@), registry_model(reg@))) {
            (Ok(a), Ok(b)) => items_model(a@) == b,
            (Err(a), Err(b)) => a@ == b,
            _ => false,
        },
    decreases ts@, 0nat,
{
    let ghost ms = crate::ast::models_of(ts@);
    let ghost m = registry_model(reg@);
    proof {
        crate::ast::lemma_models_of(ts@);
    }
    let mut out: Vec<Vec<char>> = Vec::new();
    let mut i: usize = 0;
    assert(ms.subrange(0, 0) =~= Seq::<TypeModel>::empty());
    assert(items_model(out@) =~= Seq::<Seq<char>>::empty());
    while i < ts.len()
        invariant
            i <= ts.len(),
            ms == crate::ast::models_of(ts@),
            ms.len() == ts.len(),
            forall|k: int| 0 <= k < ts.len() ==> #[trigger] ms[k] == ts@[k].model(),
            m == registry_model(reg@),
            llvm_types(ms.subrange(0, i as int), m) == Ok::<Seq<Seq<char>>, Seq<char>>(items_model(out@)),
        decreases ts.len() - i,
    {
        assert(ms.subrange(0, i + 1).drop_last() =~= ms.subrange(0, i as int));
        assert(ms.subrange(0, i + 1).last() == ts@[i as int].model());
        match type_to_llvm(&ts[i], reg) {
            Ok(x) => {
                let v = chars_of(x.as_str());
                let ghost before = out@;
                out.push(v);
                assert(items_model(out@) =~= items_model(before).push(x@));
            },
            Err(e) => {
                proof {
                    lemma_types_err_extends(ms, i as int + 1, m);
                }
                return Err(e);
            },
        }
        i = i + 1;
    }
    assert(ms.subrange(0, ts.len() as int) =~= ms);
    Ok(out)
}

/// Once a prefix of a list of types cannot be lowered, the whole list
/// cannot, for the same reason.
proof fn lemma_types_err_extends(ts: Seq<TypeModel>, k: int, reg: Seq<(Seq<char>, Seq<char>)>)
    requires
        0 <= k <= ts.len(),
        llvm_types(ts.subrange(0, k), reg) is Err,
    ensures
        llvm_types(ts, reg) == llvm_types(ts.subrange(0, k), reg),
    decreases ts.len() - k,
{
    if k < ts.len() {
        assert(ts.subrange(0, k + 1).drop_last() =~= ts.subrange(0, k));
        lemma_types_err_extends(ts, k + 1, reg);
    } else {
        assert(ts.subrange(0, k) =~= ts);
    }
}

// ----------------------------------------------------------------------
// What a closure captures

/// A variable that a closure captures, with its LLVM type.
pub struct CapturedVar {
    pub name: String,
    pub llvm_ty: String,
}

/// What is visible where a closure is created: the declared functions, and
/// the variables with their LLVM types (a later entry for a name hides an
/// earlier one).
pub struct CaptureScope {
    pub functions: Vec<String>,
    pub variables: Vec<(String, String)>,
}

/// The same, as plain values.
pub struct CapEnv {
    pub funcs: Seq<Seq<char>>,
    pub vars: Seq<(Seq<char>, Seq<char>)>,
}

impl CaptureScope {
    pub open spec fn model(&self) -> CapEnv {
        CapEnv {
            funcs: Seq::new(self.functions@.len(), |i: int| self.functions@[i]@),
            vars: Seq::new(self.variables@.len(), |i: int| (self.variables@[i].0@, self.variables@[i].1@)),
        }
    }
}

/// Captured variables so far, in the order of their first use.
pub type Caps = Seq<(Seq<char>, Seq<char>)>;

pub open spec fn caps_model(v: Seq<CapturedVar>) -> Caps {
    Seq::new(v.len(), |i: int| (v[i].name@, v[i].llvm_ty@))
}

/// The LLVM type of the visible variable of the given name.
pub open spec fn var_type(vars: Seq<(Seq<char>, Seq<char>)>, name: Seq<char>) -> Option<Seq<char>>
    decreases vars.len(),
{
    if vars.len() == 0 {
        None
    } else if vars.last().0 == name {
        Some(vars.last().1)
    } else {
        var_type(vars.drop_last(), name)
    }
}

/// Whether a name is already captured.
pub open spec fn is_captured(caps: Caps, name: Seq<char>) -> bool {
    exists|i: int| 0 <= i < caps.len() && (#[trigger] caps[i]).0 == name
}

/// A use of a name: it is captured, once, when it is neither bound inside
/// the closure nor a function, and it is a visible variable.
pub open spec fn cap_name(env: CapEnv, l: Scopes, caps: Caps, name: Seq<char>) -> Caps {
    if in_scopes(l, name) || env.funcs.contains(name) {
        caps
    } else {
        match var_type(env.vars, name) {
            Some(t) => if is_captured(caps, name) {
                caps
            } else {
                caps.push((name, t))
            },
            None => caps,
        }
    }
}

/// The captures after the names an expression uses, left to right; a nested
/// closure is not looked into.
pub open spec fn cap_expr(env: CapEnv, l: Scopes, caps: Caps, e: Expression) -> Caps
    decreases e, 1nat,
{
    match e {
        Expression::Identifier(n) => cap_name(env, l, caps, n@),
        Expression::Binary { left, right, .. } => cap_expr(env, l, cap_expr(env, l, caps, *left), *right),
        Expression::FunctionCall { function, arguments } => cap_exprs(
            env,
            l,
            cap_name(env, l, caps, function@),
            arguments@,
        ),
        Expression::ArrayLiteral { elements } => cap_exprs(env, l, caps, elements@),
        Expression::HashLiteral { pairs } => cap_pairs(env, l, caps, pairs@),
        Expression::IndexExpression { left, index } => cap_expr(env, l, cap_expr(env, l, caps, *left), *index),
        Expression::SliceExpression { left, low, high } => cap_opt(
            env,
            l,
            cap_opt(env, l, cap_expr(env, l, caps, *left), low),
            high,
        ),
        Expression::ReadInput { prompt } => cap_expr(env, l, caps, *prompt),
        Expression::TypeConversion { argument, .. } => cap_expr(env, l, caps, *argument),
        Expression::MethodCall { object, arguments, .. } => cap_exprs(
            env,
            l,
            cap_expr(env, l, caps, *object),
            arguments@,
        ),
        Expression::FieldAccess { object, .. } => cap_expr(env, l, caps, *object),
        Expression::StructLiteral { fields, .. } => cap_named(env, l, caps, fields@),
        Expression::ErrorCreate { message } => cap_expr(env, l, caps, *message),
        Expression::TupleLiteral { elements } => cap_exprs(env, l, caps, elements@),
        _ => caps,
    }
}

pub open spec fn cap_exprs(env: CapEnv, l: Scopes, caps: Caps, es: Seq<Expression>) -> Caps
    decreases es, 0nat,
{
    if es.len() == 0 {
        caps
    } else {
        cap_expr(env, l, cap_exprs(env, l, caps, es.drop_last()), es.last())
    }
}

pub open spec fn cap_pairs(env: CapEnv, l: Scopes, caps: Caps, ps: Seq<(Expression, Expression)>) -> Caps
    decreases ps, 0nat,
{
    if ps.len() == 0 {
        caps
    } else {
        cap_expr(env, l, cap_expr(env, l, cap_pairs(env, l, caps, ps.drop_last()), ps.last().0), ps.last().1)
    }
}

pub open spec fn cap_named(env: CapEnv, l: Scopes, caps: Caps, fs: Seq<(String, Expression)>) -> Caps
    decreases fs, 0nat,
{
    if fs.len() == 0 {
        caps
    } else {
        cap_expr(env, l, cap_named(env, l, caps, fs.drop_last()), fs.last().1)
    }
}

pub open spec fn cap_opt(env: CapEnv, l: Scopes, caps: Caps, o: Option<Box<Expression>>) -> Caps
    decreases o, 0nat,
{
    match o {
        Some(e) => cap_expr(env, l, caps, *e),
        None => caps,
    }
}

fn var_type_exec(vars: &Vec<(String, String)>, name: &str) -> (r: Option<String>)
    ensures
        match r {
            Some(t) => var_type(
                Seq::new(vars@.len(), |i: int| (vars@[i].0@, vars@[i].1@)),
                name@,
            ) == Some(t@),
            None => var_type(Seq::new(vars@.len(), |i: int| (vars@[i].0@, vars@[i].1@)), name@) is None,
        },
{
    let ghost m = Seq::new(vars@.len(), |i: int| (vars@[i].0@, vars@[i].1@));
    let mut i: usize = vars.len();
    assert(m.subrange(0, i as int) =~= m);
    while i > 0
        invariant
            i <= vars.len(),
            m == Seq::new(vars@.len(), |i: int| (vars@[i].0@, vars@[i].1@)),
            var_type(m, name@) == var_type(m.subrange(0, i as int), name@),
        decreases i,
    {
        assert(m.subrange(0, i as int).drop_last() =~= m.subrange(0, i - 1));
        if str_eq(vars[i - 1].0.as_str(), name) {
            return Some(vars[i - 1].1.clone());
        }
        i = i - 1;
    }
    None
}

fn is_captured_exec(caps: &Vec<CapturedVar>, name: &str) -> (r: bool)
    ensures
        r == is_captured(caps_model(caps@), name@),
{
    let ghost m = caps_model(caps@);
    let mut i: usize = 0;
    while i < caps.len()
        invariant
            i <= caps.len(),
            m == caps_model(caps@),
            forall|k: int| 0 <= k < i ==> (#[trigger] m[k]).0 != name@,
        decreases caps.len() - i,
    {
        if str_eq(caps[i].name.as_str(), name) {
            assert(m[i as int].0 == name@);
            return true;
        }
        i = i + 1;
    }
    false
}

fn names_contain(v: &Vec<String>, name: &str) -> (r: bool)
    ensures
        r == Seq::new(v@.len(), |i: int| v@[i]@).contains(name@),
{
    let ghost m = Seq::new(v@.len(), |i: int| v@[i]@);
    let mut i: usize = 0;
    while i < v.len()
        invariant
            i <= v.len(),
            m == Seq::new(v@.len(), |i: int| v@[i]@),
            forall|k: int| 0 <= k < i ==> m[k] != name@,
        decreases v.len() - i,
    {
        if str_eq(v[i].as_str(), name) {
            assert(m[i as int] == name@);
            return true;
        }
        i = i + 1;
    }
    false
}

fn cap_name_exec(env: &CaptureScope, locals: &Vec<Vec<String>>, caps: &mut Vec<CapturedVar>, name: &str)
    ensures
        caps_model(final(caps)@) == cap_name(env.model(), scopes_model(locals@), caps_model(old(caps)@), name@),
{
    if is_local(locals, name) || names_contain(&env.functions, name) {
        return;
    }
    match var_type_exec(&env.variables, name) {
        Some(t) => {
            if !is_captured_exec(caps, name) {
                let ghost before = caps@;
                caps.push(CapturedVar { name: name.to_owned(), llvm_ty: t });
                assert(caps_model(caps@) =~= caps_model(before).push((name@, t@)));
            }
        },
        None => {},
    }
}

fn cap_expr_exec(env: &CaptureScope, locals: &Vec<Vec<String>>, caps: &mut Vec<CapturedVar>, e: &Expression)
    ensures
        caps_model(final(caps)@) == cap_expr(env.model(), scopes_model(locals@), caps_model(old(caps)@), *e),
    decreases e, 1nat,
{
    match e {
        Expression::Identifier(n) => cap_name_exec(env, locals, caps, n.as_str()),
        Expression::Binary { left, right, .. } => {
            cap_expr_exec(env, locals, caps, left);
            cap_expr_exec(env, locals, caps, right);
        },
        Expression::FunctionCall { function, arguments } => {
            cap_name_exec(env, locals, caps, function.as_str());
            cap_exprs_exec(env, locals, caps, arguments);
        },
        Expression::ArrayLiteral { elements } => cap_exprs_exec(env, locals, caps, elements),
        Expression::HashLiteral { pairs } => cap_pairs_exec(env, locals, caps, pairs),
        Expression::IndexExpression { left, index } => {
            cap_expr_exec(env, locals, caps, left);
            cap_expr_exec(env, locals, caps, index);
        },
        Expression::SliceExpression { left, low, high } => {
            cap_expr_exec(env, locals, caps, left);
            cap_opt_exec(env, locals, caps, low);
            cap_opt_exec(env, locals, caps, high);
        },
        Expression::ReadInput { prompt } => cap_expr_exec(env, locals, caps, prompt),
        Expression::TypeConversion { argument, .. } => cap_expr_exec(env, locals, caps, argument),
        Expression::MethodCall { object, arguments, .. } => {
            cap_expr_exec(env, locals, caps, object);
            cap_exprs_exec(env, locals, caps, arguments);
        },
        Expression::FieldAccess { object, .. } => cap_expr_exec(env, locals, caps, object),
        Expression::StructLiteral { fields, .. } => cap_named_exec(env, locals, caps, fields),
        Expression::ErrorCreate { message } => cap_expr_exec(env, locals, caps, message),
        Expression::TupleLiteral { elements } => cap_exprs_exec(env, locals, caps, elements),
        _ => {},
    }
}

fn cap_exprs_exec(env: &CaptureScope, locals: &Vec<Vec<String>>, caps: &mut Vec<CapturedVar>, es: &Vec<Expression>)
    ensures
        caps_model(final(caps)@) == cap_exprs(env.model(), scopes_model(locals@), caps_model(old(caps)@), es@),
    decreases es@, 0nat,
{
    let ghost c0 = caps_model(caps@);
    let ghost l = scopes_model(locals@);
    let mut i: usize = 0;
    while i < es.len()
        invariant
            i <= es.len(),
            l == scopes_model(locals@),
            caps_model(caps@) == cap_exprs(env.model(), l, c0, es@.subrange(0, i as int)),
        decreases es.len() - i,
    {
        assert(es@.subrange(0, i + 1).drop_last() =~= es@.subrange(0, i as int));
        cap_expr_exec(env, locals, caps, &es[i]);
        i = i + 1;
    }
    assert(es@.subrange(0, es.len() as int) =~= es@);
}

fn cap_pairs_exec(
    env: &CaptureScope,
    locals: &Vec<Vec<String>>,
    caps: &mut Vec<CapturedVar>,
    ps: &Vec<(Expression, Expression)>,
)
    ensures
        caps_model(final(caps)@) == cap_pairs(env.model(), scopes_model(locals@), caps_model(old(caps)@), ps@),
    decreases ps@, 0nat,
{
    let ghost c0 = caps_model(caps@);
    let ghost l = scopes_model(locals@);
    let mut i: usize = 0;
    while i < ps.len()
        invariant
            i <= ps.len(),
            l == scopes_model(locals@),
            caps_model(caps@) == cap_pairs(env.model(), l, c0, ps@.subrange(0, i as int)),
        decreases ps.len() - i,
    {
        assert(ps@.subrange(0, i + 1).drop_last() =~= ps@.subrange(0, i as int));
        cap_expr_exec(env, locals, caps, &ps[i].0);
        cap_expr_exec(env, locals, caps, &ps[i].1);
        i = i + 1;
    }
    assert(ps@.subrange(0, ps.len() as int) =~= ps@);
}

fn cap_named_exec(
    env: &CaptureScope,
    locals: &Vec<Vec<String>>,
    caps: &mut Vec<CapturedVar>,
    fs: &Vec<(String, Expression)>,
)
    ensures
        caps_model(final(caps)@) == cap_named(env.model(), scopes_model(locals@), caps_model(old(caps)@), fs@),
    decreases fs@, 0nat,
{
    let ghost c0 = caps_model(caps@);
    let ghost l = scopes_model(locals@);
    let mut i: usize = 0;
    while i < fs.len()
        invariant
            i <= fs.len(),
            l == scopes_model(locals@),
            caps_model(caps@) == cap_named(env.model(), l, c0, fs@.subrange(0, i as int)),
        decreases fs.len() - i,
    {
        assert(fs@.subrange(0, i + 1).drop_last() =~= fs@.subrange(0, i as int));
        cap_expr_exec(env, locals, caps, &fs[i].1);
        i = i + 1;
    }
    assert(fs@.subrange(0, fs.len() as int) =~= fs@);
}

fn cap_opt_exec(env: &CaptureScope, locals: &Vec<Vec<String>>, caps: &mut Vec<CapturedVar>, o: &Option<Box<Expression>>)
    ensures
        caps_model(final(caps)@) == cap_opt(env.model(), scopes_model(locals@), caps_model(old(caps)@), *o),
    decreases o, 0nat,
{
    match o {
        Some(e) => cap_expr_exec(env, locals, caps, e),
        None => {},
    }
}

/// The names a `for .. in` loop binds: the item, and the index if there is
/// one.
pub open spec fn loop_names(index: Option<String>, iterator: String) -> Seq<Seq<char>> {
    match index {
        Some(i) => seq![iterator@, i@],
        None => seq![iterator@],
    }
}

/// The scopes and captures after a statement: a binding binds its names in
/// the innermost scope after its value is looked at; blocks and loops look
/// at their parts in new scopes; declarations are not looked into.
pub open spec fn cap_stmt(env: CapEnv, l: Scopes, caps: Caps, s: Statement) -> (Scopes, Caps)
    decreases s, 1nat,
{
    match s {
        Statement::Let { name, value, .. } => (add_local(l, name@), cap_expr(env, l, caps, value)),
        Statement::LetDestructured { names, value } => (
            add_locals(l, param_names(names@)),
            cap_expr(env, l, caps, value),
        ),
        Statement::Assign { name, value, .. } => (l, cap_expr(env, l, cap_name(env, l, caps, name@), value)),
        Statement::FieldAssign { object, value, .. } => (
            l,
            cap_expr(env, l, cap_name(env, l, caps, object@), value),
        ),
        Statement::IndexAssign { object, index, value, .. } => (
            l,
            cap_expr(env, l, cap_expr(env, l, cap_expr(env, l, caps, object), index), value),
        ),
        Statement::If { condition, consequence, alternative } => cap_alt(
            env,
            l,
            cap_block(env, l, cap_expr(env, l, caps, condition), consequence),
            alternative,
        ),
        Statement::While { condition, body } => (l, cap_block(env, l, cap_expr(env, l, caps, condition), body)),
        Statement::ForClassic { init, condition, post, body } => {
            let a = cap_opt_stmt(env, l.push(Seq::empty()), caps, init);
            let c = match condition {
                Some(e) => cap_expr(env, a.0, a.1, e),
                None => a.1,
            };
            let b = cap_opt_stmt(env, a.0, c, post);
            (b.0.drop_last(), cap_block(env, b.0, b.1, body))
        },
        Statement::ForIn { index, iterator, collection, body, .. } => (
            l,
            cap_block(env, l.push(loop_names(index, iterator)), cap_expr(env, l, caps, collection), body),
        ),
        Statement::Return { value } => (l, cap_expr(env, l, caps, value)),
        Statement::Print { value } => (l, cap_expr(env, l, caps, value)),
        Statement::ExpressionStatement(value) => (l, cap_expr(env, l, caps, value)),
        _ => (l, caps),
    }
}

pub open spec fn cap_alt(env: CapEnv, l: Scopes, caps: Caps, a: Option<IfAlternative>) -> (Scopes, Caps)
    decreases a, 0nat,
{
    match a {
        Some(IfAlternative::Else(b)) => (l, cap_block(env, l, caps, b)),
        Some(IfAlternative::ElseIf(st)) => cap_stmt(env, l, caps, *st),
        None => (l, caps),
    }
}

pub open spec fn cap_opt_stmt(env: CapEnv, l: Scopes, caps: Caps, o: Option<Box<Statement>>) -> (Scopes, Caps)
    decreases o, 0nat,
{
    match o {
        Some(st) => cap_stmt(env, l, caps, *st),
        None => (l, caps),
    }
}

pub open spec fn cap_stmts(env: CapEnv, l: Scopes, caps: Caps, ss: Seq<Statement>) -> (Scopes, Caps)
    decreases ss, 0nat,
{
    if ss.len() == 0 {
        (l, caps)
    } else {
        let a = cap_stmts(env, l, caps, ss.drop_last());
        cap_stmt(env, a.0, a.1, ss.last())
    }
}

/// The captures after a block, looked at in a new innermost scope.
pub open spec fn cap_block(env: CapEnv, l: Scopes, caps: Caps, b: BlockStatement) -> Caps
    decreases b, 2nat,
{
    cap_stmts(env, l.push(Seq::empty()), caps, b.statements@).1
}

/// The variables a closure with the given parameters and body captures: the
/// visible variables that its body uses without binding them, each once, in
/// the order of their first use.
pub open spec fn closure_captures(env: CapEnv, ps: Seq<(String, Type, Span)>, body: BlockStatement) -> Caps {
    cap_block(env, seq![param_names(ps)], Seq::empty(), body)
}

fn cap_stmt_exec(env: &CaptureScope, locals: &mut Vec<Vec<String>>, caps: &mut Vec<CapturedVar>, s: &Statement)
    ensures
        (scopes_model(final(locals)@), caps_model(final(caps)@)) == cap_stmt(
            env.model(),
            scopes_model(old(locals)@),
            caps_model(old(caps)@),
            *s,
        ),
    decreases s, 1nat,
{
    match s {
        Statement::Let { name, value, .. } => {
            cap_expr_exec(env, locals, caps, value);
            add_local_exec(locals, name);
        },
        Statement::LetDestructured { names, value } => {
            cap_expr_exec(env, locals, caps, value);
            let ns = param_name_list(names);
            add_names_exec(locals, &ns);
        },
        Statement::Assign { name, value, .. } => {
            cap_name_exec(env, locals, caps, name.as_str());
            cap_expr_exec(env, locals, caps, value);
        },
        Statement::FieldAssign { object, value, .. } => {
            cap_name_exec(env, locals, caps, object.as_str());
            cap_expr_exec(env, locals, caps, value);
        },
        Statement::IndexAssign { object, index, value, .. } => {
            cap_expr_exec(env, locals, caps, object);
            cap_expr_exec(env, locals, caps, index);
            cap_expr_exec(env, locals, caps, value);
        },
        Statement::If { condition, consequence, alternative } => {
            cap_expr_exec(env, locals, caps, condition);
            cap_block_exec(env, locals, caps, consequence);
            match alternative {
                Some(IfAlternative::Else(b)) => cap_block_exec(env, locals, caps, b),
                Some(IfAlternative::ElseIf(st)) => cap_stmt_exec(env, locals, caps, st),
                None => {},
            }
        },
        Statement::While { condition, body } => {
            cap_expr_exec(env, locals, caps, condition);
            cap_block_exec(env, locals, caps, body);
        },
        Statement::ForClassic { init, condition, post, body } => {
            cap_for_classic_exec(env, locals, caps, s);
        },
        Statement::ForIn { index, iterator, collection, body, .. } => {
            cap_expr_exec(env, locals, caps, collection);
            let ghost l0 = scopes_model(locals@);
            let mut scope: Vec<String> = Vec::new();
            scope.push(iterator.clone());
            match index {
                Some(i) => scope.push(i.clone()),
                None => {},
            }
            assert(names_model(scope@) =~= loop_names(*index, *iterator));
            locals.push(scope);
            assert(scopes_model(locals@) =~= l0.push(loop_names(*index, *iterator)));
            cap_block_exec(env, locals, caps, body);
            pop_scope(locals);
            assert(scopes_model(locals@) =~= l0);
        },
        Statement::Return { value } => cap_expr_exec(env, locals, caps, value),
        Statement::Print { value } => cap_expr_exec(env, locals, caps, value),
        Statement::ExpressionStatement(value) => cap_expr_exec(env, locals, caps, value),
        _ => {},
    }
}

fn cap_for_classic_exec(env: &CaptureScope, locals: &mut Vec<Vec<String>>, caps: &mut Vec<CapturedVar>, s: &Statement)
    requires
        *s is ForClassic,
    ensures
        (scopes_model(final(locals)@), caps_model(final(caps)@)) == cap_stmt(
            env.model(),
            scopes_model(old(locals)@),
            caps_model(old(caps)@),
            *s,
        ),
    decreases s, 0nat,
{
    match s {
        Statement::ForClassic { init, condition, post, body } => {
            let ghost l0 = scopes_model(locals@);
            locals.push(Vec::new());
            assert(names_model(locals@.last()@) =~= Seq::<Seq<char>>::empty());
            assert(scopes_model(locals@) =~= l0.push(Seq::empty()));
            let ghost c0 = caps_model(caps@);
            cap_opt_stmt_exec(env, locals, caps, init);
            proof {
                lemma_cap_opt_frame(env.model(), l0.push(Seq::empty()), c0, *init);
            }
            match condition {
                Some(e) => cap_expr_exec(env, locals, caps, e),
                None => {},
            }
            let ghost la = scopes_model(locals@);
            let ghost c1 = caps_model(caps@);
            cap_opt_stmt_exec(env, locals, caps, post);
            proof {
                lemma_cap_opt_frame(env.model(), la, c1, *post);
            }
            let ghost lb = scopes_model(locals@);
            cap_block_exec(env, locals, caps, body);
            let ghost lc = scopes_model(locals@);
            assert(lc == lb);
            pop_scope(locals);
            assert(scopes_model(locals@) =~= lb.drop_last());
        },
        _ => {},
    }
}

fn add_names_exec(locals: &mut Vec<Vec<String>>, ns: &Vec<String>)
    ensures
        scopes_model(final(locals)@) == add_locals(
            scopes_model(old(locals)@),
            Seq::new(ns@.len(), |i: int| ns@[i]@),
        ),
{
    let ghost m = Seq::new(ns@.len(), |i: int| ns@[i]@);
    let ghost l0 = scopes_model(locals@);
    let mut i: usize = 0;
    while i < ns.len()
        invariant
            i <= ns.len(),
            m == Seq::new(ns@.len(), |i: int| ns@[i]@),
            scopes_model(locals@) == add_locals(l0, m.subrange(0, i as int)),
        decreases ns.len() - i,
    {
        assert(m.subrange(0, i + 1).drop_last() =~= m.subrange(0, i as int));
        add_local_exec(locals, &ns[i]);
        i = i + 1;
    }
    assert(m.subrange(0, ns.len() as int) =~= m);
}

fn cap_opt_stmt_exec(
    env: &CaptureScope,
    locals: &mut Vec<Vec<String>>,
    caps: &mut Vec<CapturedVar>,
    o: &Option<Box<Statement>>,
)
    ensures
        (scopes_model(final(locals)@), caps_model(final(caps)@)) == cap_opt_stmt(
            env.model(),
            scopes_model(old(locals)@),
            caps_model(old(caps)@),
            *o,
        ),
    decreases o, 0nat,
{
    match o {
        Some(st) => cap_stmt_exec(env, locals, caps, st),
        None => {},
    }
}

fn cap_block_exec(env: &CaptureScope, locals: &mut Vec<Vec<String>>, caps: &mut Vec<CapturedVar>, b: &BlockStatement)
    ensures
        scopes_model(final(locals)@) == scopes_model(old(locals)@),
        caps_model(final(caps)@) == cap_block(env.model(), scopes_model(old(locals)@), caps_model(old(caps)@), *b),
    decreases b, 2nat,
{
    let ghost l0 = scopes_model(locals@);
    locals.push(Vec::new());
    assert(names_model(locals@.last()@) =~= Seq::<Seq<char>>::empty());
    assert(scopes_model(locals@) =~= l0.push(Seq::empty()));
    let ghost c0 = caps_model(caps@);
    cap_stmts_exec(env, locals, caps, &b.statements);
    proof {
        lemma_cap_stmts_frame(env.model(), l0.push(Seq::empty()), c0, b.statements@);
    }
    pop_scope(locals);
    assert(scopes_model(locals@) =~= l0);
}

fn pop_scope(locals: &mut Vec<Vec<String>>)
    ensures
        scopes_model(final(locals)@) == if old(locals)@.len() > 0 {
            scopes_model(old(locals)@).drop_last()
        } else {
            scopes_model(old(locals)@)
        },
{
    let ghost before = locals@;
    let _ = locals.pop();
    proof {
        if before.len() > 0 {
            assert(locals@ =~= before.drop_last());
            assert(scopes_model(locals@) =~= scopes_model(before).drop_last());
        }
    }
}

fn cap_stmts_exec(env: &CaptureScope, locals: &mut Vec<Vec<String>>, caps: &mut Vec<CapturedVar>, ss: &Vec<Statement>)
    ensures
        (scopes_model(final(locals)@), caps_model(final(caps)@)) == cap_stmts(
            env.model(),
            scopes_model(old(locals)@),
            caps_model(old(caps)@),
            ss@,
        ),
    decreases ss@, 0nat,
{
    let ghost l0 = scopes_model(locals@);
    let ghost c0 = caps_model(caps@);
    let mut i: usize = 0;
    while i < ss.len()
        invariant
            i <= ss.len(),
            (scopes_model(locals@), caps_model(caps@)) == cap_stmts(env.model(), l0, c0, ss@.subrange(0, i as int)),
        decreases ss.len() - i,
    {
        assert(ss@.subrange(0, i + 1).drop_last() =~= ss@.subrange(0, i as int));
        cap_stmt_exec(env, locals, caps, &ss[i]);
        i = i + 1;
    }
    assert(ss@.subrange(0, ss.len() as int) =~= ss@);
}

proof fn lemma_add_locals_frame(l: Scopes, ns: Seq<Seq<char>>)
    requires
        l.len() > 0,
    ensures
        add_locals(l, ns).len() == l.len(),
        add_locals(l, ns).drop_last() =~= l.drop_last(),
    decreases ns.len(),
{
    if ns.len() > 0 {
        lemma_add_locals_frame(l, ns.drop_last());
    }
}

/// A statement changes at most the innermost of the scopes it starts with.
proof fn lemma_cap_stmt_frame(env: CapEnv, l: Scopes, caps: Caps, s: Statement)
    requires
        l.len() > 0,
    ensures
        cap_stmt(env, l, caps, s).0.len() == l.len(),
        cap_stmt(env, l, caps, s).0.drop_last() =~= l.drop_last(),
    decreases s, 1nat,
{
    match s {
        Statement::LetDestructured { names, .. } => lemma_add_locals_frame(l, param_names(names@)),
        Statement::If { condition, consequence, alternative } => {
            let c = cap_block(env, l, cap_expr(env, l, caps, condition), consequence);
            lemma_cap_alt_frame(env, l, c, alternative);
        },
        Statement::ForClassic { init, condition, post, body } => {
            let l1 = l.push(Seq::empty());
            lemma_cap_opt_frame(env, l1, caps, init);
            let a = cap_opt_stmt(env, l1, caps, init);
            let c = match condition {
                Some(e) => cap_expr(env, a.0, a.1, e),
                None => a.1,
            };
            lemma_cap_opt_frame(env, a.0, c, post);
            assert(l1.drop_last() =~= l);
        },
        _ => {},
    }
}

proof fn lemma_cap_alt_frame(env: CapEnv, l: Scopes, caps: Caps, a: Option<IfAlternative>)
    requires
        l.len() > 0,
    ensures
        cap_alt(env, l, caps, a).0.len() == l.len(),
        cap_alt(env, l, caps, a).0.drop_last() =~= l.drop_last(),
    decreases a, 0nat,
{
    match a {
        Some(IfAlternative::ElseIf(st)) => lemma_cap_stmt_frame(env, l, caps, *st),
        _ => {},
    }
}

proof fn lemma_cap_opt_frame(env: CapEnv, l: Scopes, caps: Caps, o: Option<Box<Statement>>)
    requires
        l.len() > 0,
    ensures
        cap_opt_stmt(env, l, caps, o).0.len() == l.len(),
        cap_opt_stmt(env, l, caps, o).0.drop_last() =~= l.drop_last(),
    decreases o, 0nat,
{
    match o {
        Some(st) => lemma_cap_stmt_frame(env, l, caps, *st),
        None => {},
    }
}

proof fn lemma_cap_stmts_frame(env: CapEnv, l: Scopes, caps: Caps, ss: Seq<Statement>)
    requires
        l.len() > 0,
    ensures
        cap_stmts(env, l, caps, ss).0.len() == l.len(),
        cap_stmts(env, l, caps, ss).0.drop_last() =~= l.drop_last(),
    decreases ss.len(),
{
    if ss.len() > 0 {
        lemma_cap_stmts_frame(env, l, caps, ss.drop_last());
        let a = cap_stmts(env, l, caps, ss.drop_last());
        lemma_cap_stmt_frame(env, a.0, a.1, ss.last());
    }
}

/// The variables that a closure with the given parameters and body
/// captures from what is visible where it is created.
pub fn collect_closure_captures(
    parameters: &Vec<(String, Type, Span)>,
    body: &BlockStatement,
    scope: &CaptureScope,
) -> (r: Vec<CapturedVar>)
    ensures
        caps_model(r@) == closure_captures(scope.model(), parameters@, *body),
{
    let ns = param_name_list(parameters);
    let mut locals: Vec<Vec<String>> = Vec::new();
    locals.push(ns);
    assert(scopes_model(locals@) =~= seq![param_names(parameters@)]);
    let mut caps: Vec<CapturedVar> = Vec::new();
    assert(caps_model(caps@) =~= Seq::<(Seq<char>, Seq<char>)>::empty());
    cap_block_exec(scope, &mut locals, &mut caps, body);
    caps
}

/// Captured variables are each named once, are visible variables with the
/// LLVM type they are captured with, and are no functions.
pub open spec fn caps_ok(env: CapEnv, caps: Caps) -> bool {
    &&& forall|i: int, j: int| 0 <= i < j < caps.len() ==> (#[trigger] caps[i]).0 != (#[trigger] caps[j]).0
    &&& forall|i: int|
        0 <= i < caps.len() ==> var_type(env.vars, (#[trigger] caps[i]).0) == Some(caps[i].1) && !env.funcs.contains(
            caps[i].0,
        )
}

proof fn lemma_name_ok(env: CapEnv, l: Scopes, caps: Caps, name: Seq<char>)
    requires
        caps_ok(env, caps),
    ensures
        caps_ok(env, cap_name(env, l, caps, name)),
{
    let r = cap_name(env, l, caps, name);
    if r != caps {
        assert forall|i: int, j: int| 0 <= i < j < r.len() implies (#[trigger] r[i]).0 != (#[trigger] r[j]).0 by {
            if j == caps.len() {
                assert(caps[i] == r[i]);
            }
        }
        assert forall|i: int| 0 <= i < r.len() implies var_type(env.vars, (#[trigger] r[i]).0) == Some(r[i].1)
            && !env.funcs.contains(r[i].0) by {
            if i < caps.len() {
                assert(caps[i] == r[i]);
            }
        }
    }
}

proof fn lemma_expr_ok(env: CapEnv, l: Scopes, caps: Caps, e: Expression)
    requires
        caps_ok(env, caps),
    ensures
        caps_ok(env, cap_expr(env, l, caps, e)),
    decreases e, 1nat,
{
    match e {
        Expression::Identifier(n) => lemma_name_ok(env, l, caps, n@),
        Expression::Binary { left, right, .. } => {
            lemma_expr_ok(env, l, caps, *left);
            lemma_expr_ok(env, l, cap_expr(env, l, caps, *left), *right);
        },
        Expression::FunctionCall { function, arguments } => {
            lemma_name_ok(env, l, caps, function@);
            lemma_exprs_ok(env, l, cap_name(env, l, caps, function@), arguments@);
        },
        Expression::ArrayLiteral { elements } => lemma_exprs_ok(env, l, caps, elements@),
        Expression::HashLiteral { pairs } => lemma_pairs_ok(env, l, caps, pairs@),
        Expression::IndexExpression { left, index } => {
            lemma_expr_ok(env, l, caps, *left);
            lemma_expr_ok(env, l, cap_expr(env, l, caps, *left), *index);
        },
        Expression::SliceExpression { left, low, high } => {
            lemma_expr_ok(env, l, caps, *left);
            let c1 = cap_expr(env, l, caps, *left);
            lemma_opt_ok(env, l, c1, low);
            lemma_opt_ok(env, l, cap_opt(env, l, c1, low), high);
        },
        Expression::ReadInput { prompt } => lemma_expr_ok(env, l, caps, *prompt),
        Expression::TypeConversion { argument, .. } => lemma_expr_ok(env, l, caps, *argument),
        Expression::MethodCall { object, arguments, .. } => {
            lemma_expr_ok(env, l, caps, *object);
            lemma_exprs_ok(env, l, cap_expr(env, l, caps, *object), arguments@);
        },
        Expression::FieldAccess { object, .. } => lemma_expr_ok(env, l, caps, *object),
        Expression::StructLiteral { fields, .. } => lemma_named_ok(env, l, caps, fields@),
        Expression::ErrorCreate { message } => lemma_expr_ok(env, l, caps, *message),
        Expression::TupleLiteral { elements } => lemma_exprs_ok(env, l, caps, elements@),
        _ => {},
    }
}

proof fn lemma_exprs_ok(env: CapEnv, l: Scopes, caps: Caps, es: Seq<Expression>)
    requires
        caps_ok(env, caps),
    ensures
        caps_ok(env, cap_exprs(env, l, caps, es)),
    decreases es, 0nat,
{
    if es.len() > 0 {
        lemma_exprs_ok(env, l, caps, es.drop_last());
        lemma_expr_ok(env, l, cap_exprs(env, l, caps, es.drop_last()), es.last());
    }
}

proof fn lemma_pairs_ok(env: CapEnv, l: Scopes, caps: Caps, ps: Seq<(Expression, Expression)>)
    requires
        caps_ok(env, caps),
    ensures
        caps_ok(env, cap_pairs(env, l, caps, ps)),
    decreases ps, 0nat,
{
    if ps.len() > 0 {
        lemma_pairs_ok(env, l, caps, ps.drop_last());
        let c1 = cap_pairs(env, l, caps, ps.drop_last());
        lemma_expr_ok(env, l, c1, ps.last().0);
        lemma_expr_ok(env, l, cap_expr(env, l, c1, ps.last().0), ps.last().1);
    }
}

proof fn lemma_named_ok(env: CapEnv, l: Scopes, caps: Caps, fs: Seq<(String, Expression)>)
    requires
        caps_ok(env, caps),
    ensures
        caps_ok(env, cap_named(env, l, caps, fs)),
    decreases fs, 0nat,
{
    if fs.len() > 0 {
        lemma_named_ok(env, l, caps, fs.drop_last());
        lemma_expr_ok(env, l, cap_named(env, l, caps, fs.drop_last()), fs.last().1);
    }
}

proof fn lemma_opt_ok(env: CapEnv, l: Scopes, caps: Caps, o: Option<Box<Expression>>)
    requires
        caps_ok(env, caps),
    ensures
        caps_ok(env, cap_opt(env, l, caps, o)),
    decreases o, 0nat,
{
    match o {
        Some(e) => lemma_expr_ok(env, l, caps, *e),
        None => {},
    }
}

proof fn lemma_stmt_ok(env: CapEnv, l: Scopes, caps: Caps, s: Statement)
    requires
        caps_ok(env, caps),
    ensures
        caps_ok(env, cap_stmt(env, l, caps, s).1),
    decreases s, 1nat,
{
    match s {
        Statement::Let { value, .. } => lemma_expr_ok(env, l, caps, value),
        Statement::LetDestructured { value, .. } => lemma_expr_ok(env, l, caps, value),
        Statement::Assign { name, value, .. } => {
            lemma_name_ok(env, l, caps, name@);
            lemma_expr_ok(env, l, cap_name(env, l, caps, name@), value);
        },
        Statement::FieldAssign { object, value, .. } => {
            lemma_name_ok(env, l, caps, object@);
            lemma_expr_ok(env, l, cap_name(env, l, caps, object@), value);
        },
        Statement::IndexAssign { object, index, value, .. } => {
            lemma_expr_ok(env, l, caps, object);
            let c1 = cap_expr(env, l, caps, object);
            lemma_expr_ok(env, l, c1, index);
            lemma_expr_ok(env, l, cap_expr(env, l, c1, index), value);
        },
        Statement::If { condition, consequence, alternative } => {
            lemma_expr_ok(env, l, caps, condition);
            let c1 = cap_expr(env, l, caps, condition);
            lemma_block_ok(env, l, c1, consequence);
            lemma_alt_ok(env, l, cap_block(env, l, c1, consequence), alternative);
        },
        Statement::While { condition, body } => {
            lemma_expr_ok(env, l, caps, condition);
            lemma_block_ok(env, l, cap_expr(env, l, caps, condition), body);
        },
        Statement::ForClassic { init, condition, post, body } => {
            let l1 = l.push(Seq::empty());
            lemma_opt_stmt_ok(env, l1, caps, init);
            let a = cap_opt_stmt(env, l1, caps, init);
            let c = match condition {
                Some(e) => cap_expr(env, a.0, a.1, e),
                None => a.1,
            };
            match condition {
                Some(e) => lemma_expr_ok(env, a.0, a.1, e),
                None => {},
            }
            lemma_opt_stmt_ok(env, a.0, c, post);
            let b = cap_opt_stmt(env, a.0, c, post);
            lemma_block_ok(env, b.0, b.1, body);
        },
        Statement::ForIn { index, iterator, collection, body, .. } => {
            lemma_expr_ok(env, l, caps, collection);
            lemma_block_ok(env, l.push(loop_names(index, iterator)), cap_expr(env, l, caps, collection), body);
        },
        Statement::Return { value } => lemma_expr_ok(env, l, caps, value),
        Statement::Print { value } => lemma_expr_ok(env, l, caps, value),
        Statement::ExpressionStatement(value) => lemma_expr_ok(env, l, caps, value),
        _ => {},
    }
}

proof fn lemma_alt_ok(env: CapEnv, l: Scopes, caps: Caps, a: Option<IfAlternative>)
    requires
        caps_ok(env, caps),
    ensures
        caps_ok(env, cap_alt(env, l, caps, a).1),
    decreases a, 0nat,
{
    match a {
        Some(IfAlternative::Else(b)) => lemma_block_ok(env, l, caps, b),
        Some(IfAlternative::ElseIf(st)) => lemma_stmt_ok(env, l, caps, *st),
        None => {},
    }
}

proof fn lemma_opt_stmt_ok(env: CapEnv, l: Scopes, caps: Caps, o: Option<Box<Statement>>)
    requires
        caps_ok(env, caps),
    ensures
        caps_ok(env, cap_opt_stmt(env, l, caps, o).1),
    decreases o, 0nat,
{
    match o {
        Some(st) => lemma_stmt_ok(env, l, caps, *st),
        None => {},
    }
}

proof fn lemma_stmts_ok(env: CapEnv, l: Scopes, caps: Caps, ss: Seq<Statement>)
    requires
        caps_ok(env, caps),
    ensures
        caps_ok(env, cap_stmts(env, l, caps, ss).1),
    decreases ss, 0nat,
{
    if ss.len() > 0 {
        lemma_stmts_ok(env, l, caps, ss.drop_last());
        let a = cap_stmts(env, l, caps, ss.drop_last());
        lemma_stmt_ok(env, a.0, a.1, ss.last());
    }
}

proof fn lemma_block_ok(env: CapEnv, l: Scopes, caps: Caps, b: BlockStatement)
    requires
        caps_ok(env, caps),
    ensures
        caps_ok(env, cap_block(env, l, caps, b)),
    decreases b, 2nat,
{
    lemma_stmts_ok(env, l.push(Seq::empty()), caps, b.statements@);
}

/// Whatever a closure's body, each variable it captures is captured once,
/// is a variable visible where the closure is created, keeps the LLVM type
/// it has there, and is not a function.
pub proof fn law_captures_are_distinct_visible_variables(
    env: CapEnv,
    ps: Seq<(String, Type, Span)>,
    body: BlockStatement,
)
    ensures
        caps_ok(env, closure_captures(env, ps, body)),
{
    lemma_block_ok(env, seq![param_names(ps)], Seq::empty(), body);
}

} // verus!
