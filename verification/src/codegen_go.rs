//! Go code generator: turns a program into Go source.
use vstd::prelude::*;

use crate::ast::{BlockStatement, Expression, IfAlternative, Program, Span, Statement, Type, TypeModel};
use crate::cli::{capitalized, clean_go_ident_text, go_test_name_text};
use crate::ast::{copy_type, models_of};
use crate::formatter::{deeper, items_model, join, push_join};
use crate::render::{decimal_text, int_text, push_decimal, push_i64};
use crate::text::{chars_of, push_chars, push_str, push_string, str_eq, string_of, trim_quotes};

verus! {

// ----------------------------------------------------------------------
// Types and names

/// `level` tabs.
pub open spec fn tabs(level: nat) -> Seq<char>
    decreases level,
{
    if level == 0 {
        Seq::empty()
    } else {
        tabs((level - 1) as nat) + seq!['\t']
    }
}

/// A name usable in Go.
pub open spec fn go_ident(n: Seq<char>) -> Seq<char> {
    clean_go_ident_text(n)
}

/// The Go name of a struct or interface type: the HTTP types of the
/// standard module become Go's own.
pub open spec fn named_go(n: Seq<char>) -> Seq<char> {
    if n == "http.Request"@ {
        "*http.Request"@
    } else if n == "http.ResponseWriter"@ {
        "http.ResponseWriter"@
    } else {
        go_ident(n)
    }
}

/// The Go type of a type.
pub open spec fn go_type(t: TypeModel) -> Seq<char>
    decreases t, 1nat,
{
    match t {
        TypeModel::Kain => "int64"@,
        TypeModel::Sar => "string"@,
        TypeModel::Sit => "bool"@,
        TypeModel::DaTha => "float64"@,
        TypeModel::Baung => "mlangBaung"@,
        TypeModel::Nil => "interface{}"@,
        TypeModel::Error => "error"@,
        TypeModel::Array(inner) => "[]"@ + go_type(*inner),
        TypeModel::Channel(inner) => "chan "@ + go_type(*inner),
        TypeModel::Dict(k, v) => "map["@ + go_type(*k) + "]"@ + go_type(*v),
        TypeModel::Struct(n) => named_go(n),
        TypeModel::Interface(n) => named_go(n),
        TypeModel::Tuple(ts) => "("@ + join(go_types(ts), ", "@) + ")"@,
        TypeModel::Function(ps, r) => "func("@ + join(go_types(ps), ", "@) + ") "@ + go_type(*r),
    }
}

pub open spec fn go_types(ts: Seq<TypeModel>) -> Seq<Seq<char>>
    decreases ts, 0nat,
{
    if ts.len() == 0 {
        Seq::empty()
    } else {
        go_types(ts.drop_last()).push(go_type(ts.last()))
    }
}

// ----------------------------------------------------------------------
// What the generator knows while it runs

/// The generator's state: indentation, the declared type of each variable,
/// the known length of array variables, whether it is inside `main`, and
/// the fields of each struct declared so far.
#[verifier::ext_equal]
pub struct GoModel {
    pub indent: usize,
    pub env: Map<Seq<char>, TypeModel>,
    pub lens: Map<Seq<char>, usize>,
    pub in_main: bool,
    pub structs: Map<Seq<char>, Seq<(Seq<char>, TypeModel)>>,
}

/// The state after a nested part that keeps only the structs it declared.
pub open spec fn keep_structs(m: GoModel, after: GoModel) -> GoModel {
    GoModel { structs: after.structs, ..m }
}

/// The type of the first field of that name.
pub open spec fn field_type(fs: Seq<(Seq<char>, TypeModel)>, name: Seq<char>) -> Option<TypeModel>
    decreases fs.len(),
{
    if fs.len() == 0 {
        None
    } else if fs[0].0 == name {
        Some(fs[0].1)
    } else {
        field_type(fs.drop_first(), name)
    }
}

pub open spec fn param_types(ps: Seq<(String, Type, Span)>) -> Seq<TypeModel> {
    Seq::new(ps.len(), |i: int| ps[i].1.model())
}

/// The type of an expression, as far as the generator can tell.
pub open spec fn go_infer(m: GoModel, e: Expression) -> Option<TypeModel>
    decreases e, 1nat,
{
    match e {
        Expression::IntegerLiteral(_) => Some(TypeModel::Kain),
        Expression::FloatLiteral(_) => Some(TypeModel::DaTha),
        Expression::StringLiteral(_) => Some(TypeModel::Sar),
        Expression::BooleanLiteral(_) => Some(TypeModel::Sit),
        Expression::NilLiteral => Some(TypeModel::Nil),
        Expression::Identifier(n) => if m.env.contains_key(n@) {
            Some(m.env[n@])
        } else {
            None
        },
        Expression::ArrayLiteral { elements } => if elements@.len() == 0 {
            None
        } else {
            match go_infer(m, elements@[0]) {
                Some(t) => Some(TypeModel::Array(Box::new(t))),
                None => None,
            }
        },
        Expression::ChannelMake { value_type, .. } => Some(TypeModel::Channel(Box::new(value_type.model()))),
        Expression::BaungCreate { .. } => Some(TypeModel::Baung),
        Expression::ReadInput { .. } => Some(TypeModel::Sar),
        Expression::FieldAccess { object, field } => match go_infer(m, *object) {
            Some(TypeModel::Struct(sn)) => if m.structs.contains_key(sn) {
                field_type(m.structs[sn], field@)
            } else {
                None
            },
            _ => None,
        },
        Expression::MethodCall { object, method, arguments } => match go_infer(m, *object) {
            Some(TypeModel::Channel(inner)) => if method@ == "recv"@ && arguments.len() == 0 {
                Some(*inner)
            } else if method@ == "send"@ || method@ == "close"@ {
                Some(TypeModel::Nil)
            } else {
                None
            },
            Some(TypeModel::Baung) => if method@ == "close"@ && arguments.len() == 0 {
                Some(TypeModel::Error)
            } else {
                None
            },
            Some(TypeModel::Sar) => if method@ == "khwae"@ && arguments.len() == 1 {
                Some(TypeModel::Array(Box::new(TypeModel::Sar)))
            } else if method@ == "swal"@ && arguments.len() == 1 {
                Some(TypeModel::Sit)
            } else {
                None
            },
            _ => None,
        },
        Expression::StructLiteral { name, .. } => Some(TypeModel::Struct(name@)),
        Expression::ClosureLiteral { parameters, return_type, .. } => Some(
            TypeModel::Function(param_types(parameters@), Box::new(return_type.model())),
        ),
        Expression::ErrorCreate { .. } => Some(TypeModel::Error),
        Expression::TupleLiteral { elements } => match go_infer_all(m, elements@) {
            Some(ts) => Some(TypeModel::Tuple(ts)),
            None => None,
        },
        Expression::Binary { left, operator, right } => match (go_infer(m, *left), go_infer(m, *right)) {
            (Some(l), Some(r)) => {
                let op = operator@;
                if op == "+"@ || op == "-"@ || op == "*"@ || op == "/"@ {
                    if l == TypeModel::Kain && r == TypeModel::Kain {
                        Some(TypeModel::Kain)
                    } else if l == TypeModel::DaTha && r == TypeModel::DaTha {
                        Some(TypeModel::DaTha)
                    } else if op == "+"@ && l == TypeModel::Sar && r == TypeModel::Sar {
                        Some(TypeModel::Sar)
                    } else {
                        None
                    }
                } else if op == "=="@ || op == "!="@ || op == ">"@ || op == "<"@ || op == ">="@ || op
                    == "<="@ {
                    Some(TypeModel::Sit)
                } else {
                    None
                }
            },
            _ => None,
        },
        _ => None,
    }
}

/// The types of all the expressions, when each is known.
pub open spec fn go_infer_all(m: GoModel, es: Seq<Expression>) -> Option<Seq<TypeModel>>
    decreases es, 0nat,
{
    if es.len() == 0 {
        Some(Seq::empty())
    } else {
        match (go_infer_all(m, es.drop_last()), go_infer(m, es.last())) {
            (Some(ts), Some(t)) => Some(ts.push(t)),
            _ => None,
        }
    }
}

/// The Go element type guessed from a collection's first item.
pub open spec fn infer_go_type(m: GoModel, e: Expression) -> Seq<char> {
    match e {
        Expression::IntegerLiteral(_) => "int64"@,
        Expression::FloatLiteral(_) => "float64"@,
        Expression::StringLiteral(_) => "string"@,
        Expression::BooleanLiteral(_) => "bool"@,
        Expression::NilLiteral => "interface{}"@,
        Expression::Identifier(n) => if m.env.contains_key(n@) {
            go_type(m.env[n@])
        } else {
            "int64"@
        },
        Expression::StructLiteral { name, .. } => go_ident(name@),
        Expression::ClosureLiteral { parameters, return_type, .. } => go_type(
            TypeModel::Function(param_types(parameters@), Box::new(return_type.model())),
        ),
        Expression::ErrorCreate { .. } => "error"@,
        Expression::ChannelMake { value_type, .. } => go_type(TypeModel::Channel(Box::new(value_type.model()))),
        Expression::BaungCreate { .. } => "mlangBaung"@,
        _ => "int64"@,
    }
}

/// The length of an array expression, when the generator knows it.
pub open spec fn go_array_len(m: GoModel, e: Expression) -> Option<usize> {
    match e {
        Expression::ArrayLiteral { elements } => Some(elements.len()),
        Expression::Identifier(n) => if m.lens.contains_key(n@) {
            Some(m.lens[n@])
        } else {
            None
        },
        _ => None,
    }
}

// ----------------------------------------------------------------------
// Expressions

/// A channel send `object.send(value)`: `ch <- value`, or `nil` when no
/// value is given.
pub open spec fn channel_send(m: GoModel, e: Expression) -> (GoModel, Seq<char>)
    decreases e, 0nat,
{
    match e {
        Expression::MethodCall { object, arguments, .. } => {
            let (m1, o) = go_expr(m, *object);
            if arguments@.len() > 0 {
                let (m2, a) = go_expr(m1, arguments@[0]);
                (m2, o + " <- "@ + a)
            } else {
                (m1, o + " <- nil"@)
            }
        },
        _ => (m, Seq::empty()),
    }
}

/// `http.handle(..)` and `http.listen(..)` of the standard HTTP module.
pub open spec fn http_module_call(m: GoModel, e: Expression) -> Option<(GoModel, Seq<char>)>
    decreases e, 0nat,
{
    match e {
        Expression::MethodCall { method, arguments, .. } => {
            let args = arguments@;
            if method@ == "handle"@ && args.len() >= 2 {
                let (m1, a) = go_expr(m, args[0]);
                let (m2, b) = go_expr(m1, args[1]);
                Some(
                    (
                        m2,
                        "func() error { http.HandleFunc("@ + a
                            + ", func(w http.ResponseWriter, r *http.Request) { if err := "@ + b
                            + "(r, w); err != nil { http.Error(w, err.Error(), http.StatusInternalServerError) } }); return nil }()"@,
                    ),
                )
            } else if method@ == "listen"@ && args.len() > 0 {
                let (m1, a) = go_expr(m, args[0]);
                Some((m1, "http.ListenAndServe("@ + a + ", nil)"@))
            } else {
                None
            }
        },
        _ => None,
    }
}

/// Methods of an HTTP request: its headers and its query parameters.
pub open spec fn http_request_call(m: GoModel, e: Expression) -> Option<(GoModel, Seq<char>)>
    decreases e, 0nat,
{
    match e {
        Expression::MethodCall { object, method, arguments } => {
            let args = arguments@;
            if (method@ == "header"@ || method@ == "query"@) && args.len() > 0 {
                let (m1, o) = go_expr(m, *object);
                let (m2, a) = go_expr(m1, args[0]);
                Some(
                    (
                        m2,
                        o + (if method@ == "header"@ {
                            ".Header.Get("@
                        } else {
                            ".URL.Query().Get("@
                        }) + a + ")"@,
                    ),
                )
            } else {
                None
            }
        },
        _ => None,
    }
}

/// Methods of an HTTP response writer.
pub open spec fn http_writer_call(m: GoModel, e: Expression) -> Option<(GoModel, Seq<char>)>
    decreases e, 0nat,
{
    match e {
        Expression::MethodCall { object, method, arguments } => {
            let args = arguments@;
            if method@ == "write"@ && args.len() > 0 {
                let (m1, o) = go_expr(m, *object);
                let (m2, a) = go_expr(m1, args[0]);
                Some((m2, "func() error { _, err := "@ + o + ".Write([]byte("@ + a + ")); return err }()"@))
            } else if method@ == "status"@ && args.len() > 0 {
                let (m1, o) = go_expr(m, *object);
                let (m2, a) = go_expr(m1, args[0]);
                Some((m2, "func() error { "@ + o + ".WriteHeader(int("@ + a + ")); return nil }()"@))
            } else if method@ == "header"@ && args.len() >= 2 {
                let (m1, o) = go_expr(m, *object);
                let (m2, a) = go_expr(m1, args[0]);
                let (m3, b) = go_expr(m2, args[1]);
                Some((m3, "func() error { "@ + o + ".Header().Set("@ + a + ", "@ + b + "); return nil }()"@))
            } else if method@ == "json"@ && args.len() > 0 {
                let (m1, o) = go_expr(m, *object);
                let (m2, o2) = go_expr(m1, *object);
                let (m3, a) = go_expr(m2, args[0]);
                Some(
                    (
                        m3,
                        "func() error { "@ + o
                            + ".Header().Set(\"Content-Type\", \"application/json\"); return gojson.NewEncoder("@
                            + o2 + ").Encode("@ + a + ") }()"@,
                    ),
                )
            } else {
                None
            }
        },
        _ => None,
    }
}

/// Whether an expression is the identifier `name`.
pub open spec fn is_ident(e: Expression, name: Seq<char>) -> bool {
    e matches Expression::Identifier(n) && n@ == name
}

/// The type of the object of a method call.
pub open spec fn object_type(m: GoModel, e: Expression) -> Option<TypeModel> {
    match e {
        Expression::MethodCall { object, .. } => go_infer(m, *object),
        _ => None,
    }
}

/// A method call as Go.
pub open spec fn go_method_call(m: GoModel, e: Expression) -> (GoModel, Seq<char>)
    decreases e, 1nat,
{
    match e {
        Expression::MethodCall { object, method, arguments } => {
            let args = arguments@;
            let http = if is_ident(*object, "http"@) {
                http_module_call(m, e)
            } else {
                None
            };
            let t = go_infer(m, *object);
            let chan = t matches Some(TypeModel::Channel(_));
            let request = if t == Some(TypeModel::Struct("http.Request"@)) {
                http_request_call(m, e)
            } else {
                None
            };
            let writer = if t == Some(TypeModel::Struct("http.ResponseWriter"@)) {
                http_writer_call(m, e)
            } else {
                None
            };
            if http is Some {
                http.unwrap()
            } else if chan && method@ == "recv"@ {
                let (m1, o) = go_expr(m, *object);
                (m1, "<-"@ + o)
            } else if chan && method@ == "send"@ {
                let (m1, t1) = channel_send(m, e);
                (m1, "func() interface{} { "@ + t1 + "; return nil }()"@)
            } else if chan && method@ == "close"@ {
                let (m1, o) = go_expr(m, *object);
                (m1, "func() interface{} { close("@ + o + "); return nil }()"@)
            } else if request is Some {
                request.unwrap()
            } else if writer is Some {
                writer.unwrap()
            } else if t == Some(TypeModel::Sar) && (method@ == "khwae"@ || method@ == "swal"@) {
                let (m1, o) = go_expr(m, *object);
                let (m2, a) = if args.len() > 0 {
                    go_expr(m1, args[0])
                } else {
                    (m1, Seq::empty())
                };
                (
                    m2,
                    (if method@ == "khwae"@ {
                        "strings.Split("@
                    } else {
                        "strings.Contains("@
                    }) + o + ", "@ + a + ")"@,
                )
            } else {
                let (m1, o) = go_expr(m, *object);
                let (m2, items) = go_exprs(m1, args);
                (m2, o + seq!['.'] + capitalized(go_ident(method@)) + "("@ + join(items, ", "@) + ")"@)
            }
        },
        _ => (m, Seq::empty()),
    }
}

/// A conversion: the standard library's calls between strings and
/// numbers, a Go conversion otherwise.
pub open spec fn go_conversion(m: GoModel, e: Expression) -> (GoModel, Seq<char>)
    decreases e, 1nat,
{
    match e {
        Expression::TypeConversion { target_type, argument } => {
            let target = target_type.model();
            let src = go_infer(m, *argument);
            let (m1, a) = go_expr(m, *argument);
            (
                m1,
                if src == Some(TypeModel::Sar) && target == TypeModel::Kain {
                    "func() int64 { v, _ := strconv.Atoi("@ + a + "); return int64(v) }()"@
                } else if src == Some(TypeModel::Kain) && target == TypeModel::Sar {
                    "strconv.FormatInt("@ + a + ", 10)"@
                } else if src == Some(TypeModel::Kain) && target == TypeModel::DaTha {
                    "float64("@ + a + ")"@
                } else if src == Some(TypeModel::DaTha) && target == TypeModel::Kain {
                    "int64("@ + a + ")"@
                } else if src == Some(TypeModel::DaTha) && target == TypeModel::Sar {
                    "strconv.FormatFloat("@ + a + ", 'f', -1, 64)"@
                } else if src == Some(TypeModel::Sar) && target == TypeModel::DaTha {
                    "func() float64 { v, _ := strconv.ParseFloat("@ + a + ", 64); return v }()"@
                } else {
                    go_type(target) + "("@ + a + ")"@
                },
            )
        },
        _ => (m, Seq::empty()),
    }
}

/// Literals in Go: an integer is its decimal text, a text is itself in
/// double quotes, `hman`/`hmar` are `true`/`false` and `bhala` is `nil`; a
/// binary expression is its operands around the same operator, in
/// parentheses. None of them changes the generator's state.
pub proof fn law_go_literals(m: GoModel, e: Expression)
    ensures
        (e matches Expression::IntegerLiteral(v)) ==> go_expr(m, e) == (m, int_text(e->IntegerLiteral_0 as int)),
        (e matches Expression::StringLiteral(v)) ==> go_expr(m, e) == (m, seq!['"'] + e->StringLiteral_0@ + seq!['"']),
        e == Expression::BooleanLiteral(true) ==> go_expr(m, e) == (m, "true"@),
        e == Expression::BooleanLiteral(false) ==> go_expr(m, e) == (m, "false"@),
        e is NilLiteral ==> go_expr(m, e) == (m, "nil"@),
        (e matches Expression::Binary { left, operator, right }) ==> go_expr(m, e).1 == "("@ + go_expr(
            m,
            *e->Binary_left,
        ).1 + seq![' '] + e->Binary_operator@ + seq![' '] + go_expr(go_expr(m, *e->Binary_left).0, *e->Binary_right).1
            + ")"@,
{
}

/// How a conversion reads in Go, for an argument whose Go text is `a`: an
/// integer becomes its decimal text (`strconv.FormatInt` in base 10) and a
/// float its shortest `'f'` text; a text becomes an integer by
/// `strconv.Atoi` and a float by `strconv.ParseFloat` at 64 bits; between
/// integers and floats Go's own conversions are used; any other conversion
/// is Go's conversion to the target type. The base types are Go's `int64`,
/// `string`, `bool` and `float64`.
pub proof fn law_go_conversions(m: GoModel, target: Type, arg: Expression)
    ensures
        ({
            let e = Expression::TypeConversion { target_type: target, argument: Box::new(arg) };
            let src = go_infer(m, arg);
            let t = target.model();
            let a = go_expr(m, arg).1;
            let out = go_expr(m, e).1;
            &&& src == Some(TypeModel::Kain) && t == TypeModel::Sar ==> out == "strconv.FormatInt("@ + a
                + ", 10)"@
            &&& src == Some(TypeModel::DaTha) && t == TypeModel::Sar ==> out == "strconv.FormatFloat("@ + a
                + ", 'f', -1, 64)"@
            &&& src == Some(TypeModel::Sar) && t == TypeModel::Kain ==> out
                == "func() int64 { v, _ := strconv.Atoi("@ + a + "); return int64(v) }()"@
            &&& src == Some(TypeModel::Sar) && t == TypeModel::DaTha ==> out
                == "func() float64 { v, _ := strconv.ParseFloat("@ + a + ", 64); return v }()"@
            &&& src == Some(TypeModel::Kain) && t == TypeModel::DaTha ==> out == "float64("@ + a + ")"@
            &&& src == Some(TypeModel::DaTha) && t == TypeModel::Kain ==> out == "int64("@ + a + ")"@
            &&& !(src == Some(TypeModel::Kain) || src == Some(TypeModel::DaTha) || src == Some(TypeModel::Sar))
                ==> out == go_type(t) + "("@ + a + ")"@
            &&& go_expr(m, e).0 == go_expr(m, arg).0
        }),
        go_type(TypeModel::Kain) == "int64"@,
        go_type(TypeModel::Sar) == "string"@,
        go_type(TypeModel::Sit) == "bool"@,
        go_type(TypeModel::DaTha) == "float64"@,
{
    let e = Expression::TypeConversion { target_type: target, argument: Box::new(arg) };
    assert(go_expr(m, e) == go_conversion(m, e));
    let (m1, a) = go_expr(m, arg);
    assert(go_conversion(m, e).0 == m1);
}

/// An expression as Go, and the generator's state after it (a closure's
/// body may declare structs).
pub open spec fn go_expr(m: GoModel, e: Expression) -> (GoModel, Seq<char>)
    decreases e, 2nat,
{
    match e {
        Expression::IntegerLiteral(v) => (m, int_text(v as int)),
        Expression::FloatLiteral(d) => (m, decimal_text(d.whole, d.fraction@, true)),
        Expression::StringLiteral(v) => (m, seq!['"'] + v@ + seq!['"']),
        Expression::BooleanLiteral(b) => (m, if b {
            "true"@
        } else {
            "false"@
        }),
        Expression::NilLiteral => (m, "nil"@),
        Expression::Identifier(n) => (m, go_ident(n@)),
        Expression::Binary { left, operator, right } => {
            let (m1, a) = go_expr(m, *left);
            let (m2, b) = go_expr(m1, *right);
            (m2, "("@ + a + seq![' '] + operator@ + seq![' '] + b + ")"@)
        },
        Expression::FunctionCall { function, arguments } => {
            let (m1, items) = go_exprs(m, arguments@);
            let args = join(items, ", "@);
            (
                m1,
                if function@ == "htae"@ {
                    "append("@ + args + ")"@
                } else if function@ == "ashay"@ {
                    "int64(len("@ + args + "))"@
                } else {
                    go_ident(function@) + "("@ + args + ")"@
                },
            )
        },
        Expression::ArrayLiteral { elements } => {
            let t = if elements@.len() == 0 {
                "int64"@
            } else {
                infer_go_type(m, elements@[0])
            };
            let (m1, items) = go_exprs(m, elements@);
            (m1, "[]"@ + t + "{"@ + join(items, ", "@) + "}"@)
        },
        Expression::HashLiteral { pairs } => if pairs@.len() == 0 {
            (m, "map[string]int64{}"@)
        } else {
            let kt = infer_go_type(m, pairs@[0].0);
            let vt = infer_go_type(m, pairs@[0].1);
            let (m1, items) = go_pairs(m, pairs@);
            (m1, "map["@ + kt + "]"@ + vt + "{"@ + join(items, ", "@) + "}"@)
        },
        Expression::IndexExpression { left, index } => {
            let (m1, a) = go_expr(m, *left);
            let (m2, b) = go_expr(m1, *index);
            (m2, a + "["@ + b + "]"@)
        },
        Expression::SliceExpression { left, low, high } => {
            let (m1, a) = go_expr(m, *left);
            let (m2, lo) = go_opt(m1, low);
            let (m3, hi) = go_opt(m2, high);
            (m3, a + "["@ + lo + ":"@ + hi + "]"@)
        },
        Expression::ReadInput { prompt } => {
            let (m1, a) = go_expr(m, *prompt);
            (m1, "mlangReadInput("@ + a + ")"@)
        },
        Expression::TypeConversion { .. } => go_conversion(m, e),
        Expression::MethodCall { .. } => go_method_call(m, e),
        Expression::FieldAccess { object, field } => {
            let (m1, o) = go_expr(m, *object);
            (m1, o + seq!['.'] + capitalized(go_ident(field@)))
        },
        Expression::StructLiteral { name, fields } => {
            let (m1, items) = go_fields(m, fields@);
            (m1, go_ident(name@) + "{"@ + join(items, ", "@) + "}"@)
        },
        Expression::ClosureLiteral { parameters, return_type, body } => {
            let m1 = GoModel { env: bind_params(m.env, parameters@), ..m };
            let (m2, b) = go_block(m1, body);
            (
                keep_structs(m, m2),
                "func("@ + join(go_params(parameters@), ", "@) + ") "@ + go_type(return_type.model()) + " "@ + b,
            )
        },
        Expression::ErrorCreate { message } => {
            let (m1, a) = go_expr(m, *message);
            (m1, "errors.New("@ + a + ")"@)
        },
        Expression::TupleLiteral { elements } => {
            let (m1, items) = go_exprs(m, elements@);
            (m1, join(items, ", "@))
        },
        Expression::ChannelMake { value_type, capacity } => {
            let (m1, c) = match capacity {
                Some(x) => {
                    let (mx, t) = go_expr(m, *x);
                    (mx, ", "@ + t)
                },
                None => (m, Seq::empty()),
            };
            (m1, "make(chan "@ + go_type(value_type.model()) + c + ")"@)
        },
        Expression::BaungCreate { timeout_ms } => {
            let (m1, a) = go_expr(m, *timeout_ms);
            (m1, "mlangNewBaung("@ + a + ")"@)
        },
    }
}

pub open spec fn go_opt(m: GoModel, o: Option<Box<Expression>>) -> (GoModel, Seq<char>)
    decreases o, 0nat,
{
    match o {
        Some(x) => go_expr(m, *x),
        None => (m, Seq::empty()),
    }
}

pub open spec fn go_exprs(m: GoModel, es: Seq<Expression>) -> (GoModel, Seq<Seq<char>>)
    decreases es, 0nat,
{
    if es.len() == 0 {
        (m, Seq::empty())
    } else {
        let (m1, items) = go_exprs(m, es.drop_last());
        let (m2, t) = go_expr(m1, es.last());
        (m2, items.push(t))
    }
}

pub open spec fn go_pairs(m: GoModel, ps: Seq<(Expression, Expression)>) -> (GoModel, Seq<Seq<char>>)
    decreases ps, 0nat,
{
    if ps.len() == 0 {
        (m, Seq::empty())
    } else {
        let (m1, items) = go_pairs(m, ps.drop_last());
        let (m2, k) = go_expr(m1, ps.last().0);
        let (m3, v) = go_expr(m2, ps.last().1);
        (m3, items.push(k + ": "@ + v))
    }
}

pub open spec fn go_fields(m: GoModel, fs: Seq<(String, Expression)>) -> (GoModel, Seq<Seq<char>>)
    decreases fs, 0nat,
{
    if fs.len() == 0 {
        (m, Seq::empty())
    } else {
        let (m1, items) = go_fields(m, fs.drop_last());
        let (m2, v) = go_expr(m1, fs.last().1);
        (m2, items.push(capitalized(go_ident(fs.last().0@)) + ": "@ + v))
    }
}

/// The environment with each parameter bound to its type.
pub open spec fn bind_params(env: Map<Seq<char>, TypeModel>, ps: Seq<(String, Type, Span)>) -> Map<
    Seq<char>,
    TypeModel,
>
    decreases ps.len(),
{
    if ps.len() == 0 {
        env
    } else {
        bind_params(env, ps.drop_last()).insert(ps.last().0@, ps.last().1.model())
    }
}

/// `name type` items of a Go parameter list.
pub open spec fn go_params(ps: Seq<(String, Type, Span)>) -> Seq<Seq<char>> {
    Seq::new(ps.len(), |i: int| go_ident(ps[i].0@) + seq![' '] + go_type(ps[i].1.model()))
}

/// A block as Go: `{`, its statements one level deeper, and `}`.
pub open spec fn go_block(m: GoModel, b: BlockStatement) -> (GoModel, Seq<char>)
    decreases b, 3nat,
{
    let (m1, t) = go_stmts(GoModel { indent: deeper(m.indent), ..m }, b.statements@);
    (GoModel { indent: m.indent, ..m1 }, "{\n"@ + t + tabs(m.indent as nat) + "}"@)
}

pub open spec fn go_stmts(m: GoModel, ss: Seq<Statement>) -> (GoModel, Seq<char>)
    decreases ss, 0nat,
{
    if ss.len() == 0 {
        (m, Seq::empty())
    } else {
        let (m1, t1) = go_stmts(m, ss.drop_last());
        let (m2, t2) = go_stmt(m1, ss.last());
        (m2, t1 + t2)
    }
}

// ----------------------------------------------------------------------
// Statements

/// An expression used as a statement: sends and closes of channels become
/// Go's statements.
pub open spec fn go_stmt_expr(m: GoModel, e: Expression) -> (GoModel, Seq<char>)
    decreases e, 3nat,
{
    match e {
        Expression::MethodCall { object, method, .. } => if object_type(m, e) matches Some(
            TypeModel::Channel(_),
        ) && method@ == "send"@ {
            channel_send(m, e)
        } else if object_type(m, e) matches Some(TypeModel::Channel(_)) && method@ == "close"@ {
            let (m1, o) = go_expr(m, *object);
            (m1, "close("@ + o + ")"@)
        } else {
            go_expr(m, e)
        },
        _ => go_expr(m, e),
    }
}

/// A call run by `go` or `defer`.
pub open spec fn go_prefixed(m: GoModel, prefix: Seq<char>, e: Expression) -> (GoModel, Seq<char>)
    decreases e, 3nat,
{
    let (m1, t) = match e {
        Expression::MethodCall { object, method, .. } => if object_type(m, e) matches Some(
            TypeModel::Channel(_),
        ) && method@ == "send"@ {
            let (ms, ts) = channel_send(m, e);
            (ms, "func() { "@ + ts + " }()"@)
        } else if object_type(m, e) matches Some(TypeModel::Channel(_)) && method@ == "close"@ {
            let (mc, o) = go_expr(m, *object);
            (mc, "close("@ + o + ")"@)
        } else {
            go_expr(m, e)
        },
        _ => go_expr(m, e),
    };
    (m1, prefix + seq![' '] + t)
}

/// The environment with each name bound to its type.
pub open spec fn bind_names(env: Map<Seq<char>, TypeModel>, ns: Seq<(String, Type, Span)>) -> Map<
    Seq<char>,
    TypeModel,
> {
    bind_params(env, ns)
}

pub open spec fn go_names(ns: Seq<(String, Type, Span)>) -> Seq<Seq<char>> {
    Seq::new(ns.len(), |i: int| go_ident(ns[i].0@))
}

/// Lines `_ = name` that keep Go from rejecting unused names.
pub open spec fn unused_lines(ind: Seq<char>, names: Seq<Seq<char>>) -> Seq<char>
    decreases names.len(),
{
    if names.len() == 0 {
        Seq::empty()
    } else {
        unused_lines(ind, names.drop_last()) + ind + "_ = "@ + names.last() + "\n"@
    }
}

/// The part of a classic for loop's header that a statement makes.
pub open spec fn go_component(m: GoModel, s: Statement) -> (GoModel, Seq<char>)
    decreases s, 2nat,
{
    match s {
        Statement::Let { name, value, ty, .. } => {
            let m1 = GoModel { env: m.env.insert(name@, ty.model()), ..m };
            let m2 = match (ty, go_array_len(m1, value)) {
                (Type::Array(_), Some(len)) => GoModel { lens: m1.lens.insert(name@, len), ..m1 },
                _ => m1,
            };
            let (m3, v) = go_expr(m2, value);
            (m3, go_ident(name@) + " := "@ + v)
        },
        Statement::LetDestructured { names, value } => {
            let m1 = GoModel { env: bind_names(m.env, names@), ..m };
            let (m2, v) = go_expr(m1, value);
            (m2, join(go_names(names@), ", "@) + " := "@ + v)
        },
        Statement::Assign { name, value, .. } => {
            let (m1, v) = go_expr(m, value);
            (m1, go_ident(name@) + " = "@ + v)
        },
        Statement::FieldAssign { object, field, value, .. } => {
            let (m1, v) = go_expr(m, value);
            (m1, go_ident(object@) + seq!['.'] + capitalized(go_ident(field@)) + " = "@ + v)
        },
        Statement::IndexAssign { object, index, value, .. } => {
            let (m1, o) = go_expr(m, object);
            let (m2, i) = go_expr(m1, index);
            let (m3, v) = go_expr(m2, value);
            (m3, o + "["@ + i + "] = "@ + v)
        },
        Statement::ExpressionStatement(e) => go_stmt_expr(m, e),
        _ => (m, Seq::empty()),
    }
}

pub open spec fn go_opt_expr(m: GoModel, o: Option<Expression>) -> (GoModel, Seq<char>)
    decreases o, 0nat,
{
    match o {
        Some(x) => go_expr(m, x),
        None => (m, Seq::empty()),
    }
}

pub open spec fn go_opt_component(m: GoModel, o: Option<Box<Statement>>) -> (GoModel, Seq<char>)
    decreases o, 0nat,
{
    match o {
        Some(st) => go_component(m, *st),
        None => (m, Seq::empty()),
    }
}

/// The lines of a struct's fields.
pub open spec fn field_lines(ind: Seq<char>, fs: Seq<(String, Type)>) -> Seq<char>
    decreases fs.len(),
{
    if fs.len() == 0 {
        Seq::empty()
    } else {
        field_lines(ind, fs.drop_last()) + ind + capitalized(go_ident(fs.last().0@)) + seq![' '] + go_type(
            fs.last().1.model(),
        ) + "\n"@
    }
}

pub open spec fn field_params(fs: Seq<(String, Type)>) -> Seq<Seq<char>> {
    Seq::new(fs.len(), |i: int| go_ident(fs[i].0@) + seq![' '] + go_type(fs[i].1.model()))
}

/// The lines of an interface's methods.
pub open spec fn method_lines(ind: Seq<char>, ms: Seq<(String, Vec<(String, Type)>, Type)>) -> Seq<char>
    decreases ms.len(),
{
    if ms.len() == 0 {
        Seq::empty()
    } else {
        method_lines(ind, ms.drop_last()) + ind + capitalized(go_ident(ms.last().0@)) + "("@ + join(
            field_params(ms.last().1@),
            ", "@,
        ) + ") "@ + go_type(ms.last().2.model()) + "\n"@
    }
}

pub open spec fn field_models(fs: Seq<(String, Type)>) -> Seq<(Seq<char>, TypeModel)> {
    Seq::new(fs.len(), |i: int| (fs[i].0@, fs[i].1.model()))
}

/// The state after a part that restores the variables it bound: what it
/// keeps is the structs it declared.
pub open spec fn restore(m: GoModel, after: GoModel) -> GoModel {
    GoModel { structs: after.structs, ..m }
}

/// A statement as Go: the generator's state afterwards and the text.
pub open spec fn go_stmt(m: GoModel, s: Statement) -> (GoModel, Seq<char>)
    decreases s, 4nat,
{
    match s {
        Statement::Let { .. } | Statement::LetDestructured { .. } | Statement::Assign { .. } => go_binding(m, s),
        Statement::FunctionDecl { .. } | Statement::TestDecl { .. } | Statement::MethodDecl { .. } => go_callable(m, s),
        Statement::StructDecl { .. } | Statement::InterfaceDecl { .. } | Statement::Import { .. } | Statement::PackageDecl { .. } => go_declaration(m, s),
        Statement::FieldAssign { .. } | Statement::IndexAssign { .. } | Statement::Return { .. } | Statement::Print { .. } | Statement::Break | Statement::Continue | Statement::Go { .. } | Statement::Defer { .. } | Statement::ExpressionStatement(..) => go_simple(m, s),
        Statement::If { .. } | Statement::While { .. } => go_branch(m, s),
        Statement::ForIn { .. } | Statement::ForClassic { .. } => go_loop(m, s),
        Statement::Export { statement, .. } => go_stmt(m, *statement),
    }
}

/// Bindings and assignments.
pub open spec fn go_binding(m: GoModel, s: Statement) -> (GoModel, Seq<char>)
    decreases s, 3nat,
{
    let ind = tabs(m.indent as nat);
    match s {
        Statement::Let { name, value, ty, .. } => {
            let m1 = GoModel { env: m.env.insert(name@, ty.model()), ..m };
            let m2 = match (ty, go_array_len(m1, value)) {
                (Type::Array(_), Some(len)) => GoModel { lens: m1.lens.insert(name@, len), ..m1 },
                _ => m1,
            };
            let n = go_ident(name@);
            let (m3, rest) = if value is NilLiteral {
                (m2, "\n"@)
            } else {
                let (mv, v) = go_expr(m2, value);
                (mv, " = "@ + v + "\n"@)
            };
            (m3, ind + "var "@ + n + seq![' '] + go_type(ty.model()) + rest + ind + "_ = "@ + n + "\n"@)
        },
        Statement::LetDestructured { names, value } => {
            let m1 = GoModel { env: bind_names(m.env, names@), ..m };
            let (m2, v) = go_expr(m1, value);
            (
                m2,
                ind + join(go_names(names@), ", "@) + " := "@ + v + "\n"@ + unused_lines(
                    ind,
                    go_names(names@),
                ),
            )
        },
        Statement::Assign { name, value, .. } => {
            let (m1, v) = go_expr(m, value);
            let is_array = m1.env.contains_key(name@) && m1.env[name@] is Array;
            let m2 = match go_array_len(m1, value) {
                Some(len) => if is_array {
                    GoModel { lens: m1.lens.insert(name@, len), ..m1 }
                } else {
                    m1
                },
                None => m1,
            };
            (m2, ind + go_ident(name@) + " = "@ + v + "\n"@)
        },
        _ => (m, Seq::empty()),
    }
}

/// Functions, tests and methods: the variables they bind are dropped after them.
pub open spec fn go_callable(m: GoModel, s: Statement) -> (GoModel, Seq<char>)
    decreases s, 3nat,
{
    let ind = tabs(m.indent as nat);
    match s {
        Statement::FunctionDecl { name, parameters, return_type, body, .. } => {
            let is_main = name@ == "main"@;
            let m1 = GoModel { env: bind_params(m.env, parameters@), in_main: is_main, ..m };
            let (m2, b) = go_block(m1, body);
            (
                restore(m, m2),
                ind + "func "@ + (if is_main {
                    "main"@
                } else {
                    go_ident(name@)
                }) + "("@ + join(go_params(parameters@), ", "@) + ")"@ + (if is_main {
                    Seq::empty()
                } else {
                    seq![' '] + go_type(return_type.model())
                }) + " "@ + b + "\n\n"@,
            )
        },
        Statement::TestDecl { name, body, .. } => {
            let (m1, b) = go_block(m, body);
            (restore(m, m1), ind + "func "@ + go_test_name_text(name@) + "() error "@ + b + "\n\n"@)
        },
        Statement::MethodDecl { receiver_type, receiver_name, name, parameters, return_type, body, .. } => {
            let env = bind_params(
                m.env.insert(receiver_name@, TypeModel::Struct(receiver_type@)),
                parameters@,
            );
            let m1 = GoModel { env, ..m };
            let (m2, b) = go_block(m1, body);
            (
                restore(m, m2),
                ind + "func ("@ + go_ident(receiver_name@) + seq![' '] + go_ident(receiver_type@) + ") "@
                    + capitalized(go_ident(name@)) + "("@ + join(go_params(parameters@), ", "@) + ") "@
                    + go_type(return_type.model()) + " "@ + b + "\n\n"@,
            )
        },
        _ => (m, Seq::empty()),
    }
}

/// Struct and interface declarations, imports and package declarations.
pub open spec fn go_declaration(m: GoModel, s: Statement) -> (GoModel, Seq<char>)
    decreases s, 3nat,
{
    let ind = tabs(m.indent as nat);
    match s {
        Statement::StructDecl { name, fields, .. } => (
            GoModel { structs: m.structs.insert(name@, field_models(fields@)), ..m },
            ind + "type "@ + go_ident(name@) + " struct {\n"@ + field_lines(tabs(deeper(m.indent) as nat), fields@)
                + ind + "}\n\n"@,
        ),
        Statement::InterfaceDecl { name, methods, .. } => (
            m,
            ind + "type "@ + go_ident(name@) + " interface {\n"@ + method_lines(
                tabs(deeper(m.indent) as nat),
                methods@,
            ) + ind + "}\n\n"@,
        ),
        Statement::Import { module, .. } => (m, "// import \""@ + module@ + "\"\n"@),
        Statement::PackageDecl { .. } => (m, Seq::empty()),
        _ => (m, Seq::empty()),
    }
}

/// Statements that bind nothing.
pub open spec fn go_simple(m: GoModel, s: Statement) -> (GoModel, Seq<char>)
    decreases s, 3nat,
{
    let ind = tabs(m.indent as nat);
    match s {
        Statement::FieldAssign { object, field, value, .. } => {
            let (m1, v) = go_expr(m, value);
            (m1, ind + go_ident(object@) + seq!['.'] + capitalized(go_ident(field@)) + " = "@ + v + "\n"@)
        },
        Statement::IndexAssign { object, index, value, .. } => {
            let (m1, o) = go_expr(m, object);
            let (m2, i) = go_expr(m1, index);
            let (m3, v) = go_expr(m2, value);
            (m3, ind + o + "["@ + i + "] = "@ + v + "\n"@)
        },
        Statement::Return { value } => if m.in_main {
            (m, Seq::empty())
        } else {
            let (m1, v) = go_expr(m, value);
            (m1, ind + "return "@ + v + "\n"@)
        },
        Statement::Print { value } => {
            let (m1, v) = go_expr(m, value);
            (m1, ind + "fmt.Println("@ + v + ")\n"@)
        },
        Statement::Break => (m, ind + "break\n"@),
        Statement::Continue => (m, ind + "continue\n"@),
        Statement::Go { call } => {
            let (m1, t) = go_prefixed(m, "go"@, call);
            (m1, ind + t + "\n"@)
        },
        Statement::Defer { call } => {
            let (m1, t) = go_prefixed(m, "defer"@, call);
            (m1, ind + t + "\n"@)
        },
        Statement::ExpressionStatement(e) => {
            let (m1, t) = go_stmt_expr(m, e);
            (m1, ind + t + "\n"@)
        },
        _ => (m, Seq::empty()),
    }
}

/// Branches and while loops.
pub open spec fn go_branch(m: GoModel, s: Statement) -> (GoModel, Seq<char>)
    decreases s, 3nat,
{
    let ind = tabs(m.indent as nat);
    match s {
        Statement::If { .. } => {
            let (m1, t) = go_if(m, s);
            (m1, ind + t + "\n"@)
        },
        Statement::While { condition, body } => {
            let (m1, c) = go_expr(m, condition);
            let (m2, b) = go_block(m1, body);
            (m2, ind + "for "@ + c + " "@ + b + "\n"@)
        },
        _ => (m, Seq::empty()),
    }
}

/// For loops: the variables they bind are dropped after them.
pub open spec fn go_loop(m: GoModel, s: Statement) -> (GoModel, Seq<char>)
    decreases s, 3nat,
{
    let ind = tabs(m.indent as nat);
    match s {
        Statement::ForIn { index, iterator, collection, body, .. } => {
            let e1 = match go_infer(m, collection) {
                Some(TypeModel::Array(inner)) => m.env.insert(iterator@, *inner),
                _ => m.env,
            };
            let e2 = match index {
                Some(i) => e1.insert(i@, TypeModel::Kain),
                None => e1,
            };
            let l1 = match collection {
                Expression::Identifier(n) => if m.lens.contains_key(n@) {
                    m.lens.insert(iterator@, m.lens[n@])
                } else {
                    m.lens
                },
                _ => m.lens,
            };
            let m1 = GoModel { env: e2, lens: l1, ..m };
            let idx = match index {
                Some(i) => go_ident(i@),
                None => "_"@,
            };
            let (m2, c) = go_expr(m1, collection);
            let (m3, b) = go_block(m2, body);
            (
                restore(m, m3),
                ind + "for "@ + idx + ", "@ + go_ident(iterator@) + " := range "@ + c + " "@ + b + "\n"@,
            )
        },
        Statement::ForClassic { init, condition, post, body } => {
            let (m1, a) = go_opt_component(m, init);
            let (m2, c) = go_opt_expr(m1, condition);
            let (m3, p) = go_opt_component(m2, post);
            let (m4, b) = go_block(m3, body);
            (restore(m, m4), ind + "for "@ + a + "; "@ + c + "; "@ + p + " "@ + b + "\n"@)
        },
        _ => (m, Seq::empty()),
    }
}

/// An if chain, from `if` to its last `}`.
pub open spec fn go_if(m: GoModel, s: Statement) -> (GoModel, Seq<char>)
    decreases s, 2nat,
{
    match s {
        Statement::If { condition, consequence, alternative } => {
            let (m1, c) = go_expr(m, condition);
            let (m2, b) = go_block(m1, consequence);
            let (m3, a) = match alternative {
                Some(IfAlternative::Else(block)) => {
                    let (mb, tb) = go_block(m2, block);
                    (mb, " else "@ + tb)
                },
                Some(IfAlternative::ElseIf(inner)) => {
                    let (me, te) = go_elif(m2, *inner);
                    (me, " else "@ + te)
                },
                None => (m2, Seq::empty()),
            };
            (m3, "if "@ + c + " "@ + b + a)
        },
        _ => (m, Seq::empty()),
    }
}

pub open spec fn go_elif(m: GoModel, s: Statement) -> (GoModel, Seq<char>)
    decreases s, 5nat,
{
    match s {
        Statement::If { .. } => go_if(m, s),
        _ => go_stmt(m, s),
    }
}

// ----------------------------------------------------------------------
// The generator

/// What the generated program needs besides `fmt`: helpers and imports.
#[derive(Debug, Clone, Copy, PartialEq, Eq, Structural)]
pub struct GoNeeds {
    pub read_input: bool,
    pub strconv: bool,
    pub strings: bool,
    pub errors: bool,
    pub context: bool,
    pub time: bool,
    pub baung_helper: bool,
    pub net_http: bool,
    pub gojson: bool,
}

pub open spec fn no_needs() -> GoNeeds {
    GoNeeds {
        read_input: false,
        strconv: false,
        strings: false,
        errors: false,
        context: false,
        time: false,
        baung_helper: false,
        net_http: false,
        gojson: false,
    }
}

/// The needs of both.
pub open spec fn both(a: GoNeeds, b: GoNeeds) -> GoNeeds {
    GoNeeds {
        read_input: a.read_input || b.read_input,
        strconv: a.strconv || b.strconv,
        strings: a.strings || b.strings,
        errors: a.errors || b.errors,
        context: a.context || b.context,
        time: a.time || b.time,
        baung_helper: a.baung_helper || b.baung_helper,
        net_http: a.net_http || b.net_http,
        gojson: a.gojson || b.gojson,
    }
}

/// The struct fields of each struct declared so far: the latest wins.
pub open spec fn struct_map(v: Seq<(String, Vec<(String, Type)>)>) -> Map<Seq<char>, Seq<(Seq<char>, TypeModel)>>
    decreases v.len(),
{
    if v.len() == 0 {
        Map::empty()
    } else {
        struct_map(v.drop_last()).insert(v.last().0@, field_models(v.last().1@))
    }
}

/// Generates Go source for a program.
pub struct GoCodeGenerator {
    pub output: String,
    indent_level: usize,
    environment: Vec<(String, Type)>,
    array_lengths: Vec<(String, usize)>,
    needs: GoNeeds,
    in_main: bool,
    struct_fields: Vec<(String, Vec<(String, Type)>)>,
}

impl GoCodeGenerator {
    /// What the generator knows.
    pub closed spec fn model(&self) -> GoModel {
        GoModel {
            indent: self.indent_level,
            env: crate::codegen::type_map(self.environment@),
            lens: crate::codegen::len_map(self.array_lengths@),
            in_main: self.in_main,
            structs: struct_map(self.struct_fields@),
        }
    }

    /// What the programs generated so far need.
    pub closed spec fn needs(&self) -> GoNeeds {
        self.needs
    }

    /// The text generated so far.
    pub closed spec fn text(&self) -> Seq<char> {
        self.output@
    }

    /// A generator with empty output that knows nothing yet.
    pub fn new() -> (g: GoCodeGenerator)
        ensures
            g.text() == Seq::<char>::empty(),
            g.needs() == no_needs(),
            g.model() == (GoModel {
                indent: 0,
                env: Map::empty(),
                lens: Map::empty(),
                in_main: false,
                structs: Map::empty(),
            }),
    {
        let g = GoCodeGenerator {
            output: String::new(),
            indent_level: 0,
            environment: Vec::new(),
            array_lengths: Vec::new(),
            needs: GoNeeds {
                read_input: false,
                strconv: false,
                strings: false,
                errors: false,
                context: false,
                time: false,
                baung_helper: false,
                net_http: false,
                gojson: false,
            },
            in_main: false,
            struct_fields: Vec::new(),
        };
        assert(g.model() =~= (GoModel {
            indent: 0,
            env: Map::empty(),
            lens: Map::empty(),
            in_main: false,
            structs: Map::empty(),
        }));
        g
    }
}

/// Appends `level` tabs.
pub fn push_tabs(out: &mut Vec<char>, level: usize)
    ensures
        final(out)@ == old(out)@ + tabs(level as nat),
{
    let mut i: usize = 0;
    while i < level
        invariant
            i <= level,
            out@ == old(out)@ + tabs(i as nat),
        decreases level - i,
    {
        out.push('\t');
        i = i + 1;
        assert(out@ =~= old(out)@ + tabs(i as nat));
    }
}

fn push_go_ident(out: &mut Vec<char>, name: &str)
    ensures
        final(out)@ == old(out)@ + go_ident(name@),
{
    let c = crate::cli::clean_go_identifier(name);
    push_string(out, &c);
}

fn push_named_go(out: &mut Vec<char>, name: &str)
    ensures
        final(out)@ == old(out)@ + named_go(name@),
{
    if str_eq(name, "http.Request") {
        push_str(out, "*http.Request");
    } else if str_eq(name, "http.ResponseWriter") {
        push_str(out, "http.ResponseWriter");
    } else {
        push_go_ident(out, name);
    }
}

/// Appends the Go type of a type.
pub fn push_go_type(out: &mut Vec<char>, t: &Type)
    ensures
        final(out)@ == old(out)@ + go_type(t.model()),
    decreases t, 1nat,
{
    match t {
        Type::Kain => push_str(out, "int64"),
        Type::Sar => push_str(out, "string"),
        Type::Sit => push_str(out, "bool"),
        Type::DaTha => push_str(out, "float64"),
        Type::Baung => push_str(out, "mlangBaung"),
        Type::Nil => push_str(out, "interface{}"),
        Type::Error => push_str(out, "error"),
        Type::Array(inner) => {
            push_str(out, "[]");
            push_go_type(out, inner);
        },
        Type::Channel(inner) => {
            push_str(out, "chan ");
            push_go_type(out, inner);
        },
        Type::HashMap(k, v) => {
            push_str(out, "map[");
            push_go_type(out, k);
            push_str(out, "]");
            push_go_type(out, v);
        },
        Type::Struct(n) => push_named_go(out, n.as_str()),
        Type::Interface(n) => push_named_go(out, n.as_str()),
        Type::Tuple(ts) => {
            let items = go_type_items(ts);
            push_str(out, "(");
            push_join(out, &items, ", ");
            push_str(out, ")");
        },
        Type::Function { params, return_type } => {
            let items = go_type_items(params);
            push_str(out, "func(");
            push_join(out, &items, ", ");
            push_str(out, ") ");
            push_go_type(out, return_type);
        },
    }
    assert(final(out)@ =~= old(out)@ + go_type(t.model()));
}

fn go_type_items(ts: &Vec<Type>) -> (r: Vec<Vec<char>>)
    ensures
        items_model(r@) == go_types(models_of(ts@)),
    decreases ts@, 0nat,
{
    let mut out: Vec<Vec<char>> = Vec::new();
    let mut i: usize = 0;
    proof {
        crate::ast::lemma_models_of(ts@);
    }
    while i < ts.len()
        invariant
            i <= ts.len(),
            models_of(ts@).len() == ts.len(),
            forall|k: int| 0 <= k < ts.len() ==> #[trigger] models_of(ts@)[k] == ts@[k].model(),
            items_model(out@) == go_types(models_of(ts@).subrange(0, i as int)),
        decreases ts.len() - i,
    {
        let mut b: Vec<char> = Vec::new();
        push_go_type(&mut b, &ts[i]);
        let ghost ms = models_of(ts@);
        assert(ms.subrange(0, i + 1).drop_last() =~= ms.subrange(0, i as int));
        assert(items_model(out@.push(b)) =~= items_model(out@).push(b@));
        out.push(b);
        i = i + 1;
    }
    assert(models_of(ts@).subrange(0, ts.len() as int) =~= models_of(ts@));
    out
}

fn param_type_list(ps: &Vec<(String, Type, Span)>) -> (r: Vec<Type>)
    ensures
        models_of(r@) == param_types(ps@),
{
    let mut out: Vec<Type> = Vec::new();
    let mut i: usize = 0;
    while i < ps.len()
        invariant
            i <= ps.len(),
            out.len() == i,
            forall|k: int| 0 <= k < i ==> (#[trigger] out@[k]).model() == ps@[k].1.model(),
        decreases ps.len() - i,
    {
        out.push(copy_type(&ps[i].1));
        i = i + 1;
    }
    proof {
        crate::ast::lemma_models_of(out@);
    }
    assert(models_of(out@) =~= param_types(ps@));
    out
}

fn copy_fields(fs: &Vec<(String, Type)>) -> (r: Vec<(String, Type)>)
    ensures
        field_models(r@) == field_models(fs@),
{
    let mut out: Vec<(String, Type)> = Vec::new();
    let mut i: usize = 0;
    while i < fs.len()
        invariant
            i <= fs.len(),
            out.len() == i,
            forall|k: int|
                0 <= k < i ==> (#[trigger] out@[k]).0@ == fs@[k].0@ && out@[k].1.model() == fs@[k].1.model(),
        decreases fs.len() - i,
    {
        out.push((fs[i].0.clone(), copy_type(&fs[i].1)));
        i = i + 1;
    }
    assert(field_models(out@) =~= field_models(fs@));
    out
}

fn field_type_exec(fs: &Vec<(String, Type)>, name: &String) -> (r: Option<Type>)
    ensures
        match r {
            Some(t) => field_type(field_models(fs@), name@) == Some(t.model()),
            None => field_type(field_models(fs@), name@) is None,
        },
{
    let ghost full = field_models(fs@);
    let mut i: usize = 0;
    assert(full.subrange(0, full.len() as int) =~= full);
    while i < fs.len()
        invariant
            i <= fs.len(),
            full == field_models(fs@),
            field_type(full.subrange(i as int, full.len() as int), name@) == field_type(full, name@),
        decreases fs.len() - i,
    {
        let ghost sub = full.subrange(i as int, full.len() as int);
        assert(sub.drop_first() =~= full.subrange(i + 1, full.len() as int));
        assert(sub[0] == (fs@[i as int].0@, fs@[i as int].1.model()));
        if str_eq(fs[i].0.as_str(), name.as_str()) {
            return Some(copy_type(&fs[i].1));
        }
        i = i + 1;
    }
    None
}

impl GoCodeGenerator {
    fn env_get(&self, name: &str) -> (r: Option<&Type>)
        ensures
            match r {
                Some(t) => self.model().env.contains_key(name@) && self.model().env[name@] == t.model(),
                None => !self.model().env.contains_key(name@),
            },
    {
        let v = &self.environment;
        let mut i = v.len();
        assert(v@.subrange(0, i as int) =~= v@);
        while i > 0
            invariant
                i <= v.len(),
                v@ == self.environment@,
                crate::codegen::type_map(v@.subrange(0, i as int)).contains_key(name@) == crate::codegen::type_map(
                    v@,
                ).contains_key(name@),
                crate::codegen::type_map(v@.subrange(0, i as int)).contains_key(name@) ==> crate::codegen::type_map(
                    v@.subrange(0, i as int),
                )[name@] == crate::codegen::type_map(v@)[name@],
            decreases i,
        {
            let ghost pre = v@.subrange(0, i as int);
            assert(pre.drop_last() =~= v@.subrange(0, i - 1));
            if str_eq(v[i - 1].0.as_str(), name) {
                assert(pre.last() == v@[i - 1]);
                return Some(&v[i - 1].1);
            }
            i = i - 1;
        }
        assert(crate::codegen::type_map(v@.subrange(0, 0)) =~= Map::<Seq<char>, TypeModel>::empty());
        None
    }

    fn len_get(&self, name: &str) -> (r: Option<usize>)
        ensures
            match r {
                Some(n) => self.model().lens.contains_key(name@) && self.model().lens[name@] == n,
                None => !self.model().lens.contains_key(name@),
            },
    {
        let v = &self.array_lengths;
        let mut i = v.len();
        assert(v@.subrange(0, i as int) =~= v@);
        while i > 0
            invariant
                i <= v.len(),
                v@ == self.array_lengths@,
                crate::codegen::len_map(v@.subrange(0, i as int)).contains_key(name@) == crate::codegen::len_map(
                    v@,
                ).contains_key(name@),
                crate::codegen::len_map(v@.subrange(0, i as int)).contains_key(name@) ==> crate::codegen::len_map(
                    v@.subrange(0, i as int),
                )[name@] == crate::codegen::len_map(v@)[name@],
            decreases i,
        {
            let ghost pre = v@.subrange(0, i as int);
            assert(pre.drop_last() =~= v@.subrange(0, i - 1));
            if str_eq(v[i - 1].0.as_str(), name) {
                assert(pre.last() == v@[i - 1]);
                return Some(v[i - 1].1);
            }
            i = i - 1;
        }
        assert(crate::codegen::len_map(v@.subrange(0, 0)) =~= Map::<Seq<char>, usize>::empty());
        None
    }

    fn struct_get(&self, name: &str) -> (r: Option<&Vec<(String, Type)>>)
        ensures
            match r {
                Some(fs) => self.model().structs.contains_key(name@) && self.model().structs[name@]
                    == field_models(fs@),
                None => !self.model().structs.contains_key(name@),
            },
    {
        let v = &self.struct_fields;
        let mut i = v.len();
        assert(v@.subrange(0, i as int) =~= v@);
        while i > 0
            invariant
                i <= v.len(),
                v@ == self.struct_fields@,
                struct_map(v@.subrange(0, i as int)).contains_key(name@) == struct_map(v@).contains_key(name@),
                struct_map(v@.subrange(0, i as int)).contains_key(name@) ==> struct_map(v@.subrange(0, i as int))[name@]
                    == struct_map(v@)[name@],
            decreases i,
        {
            let ghost pre = v@.subrange(0, i as int);
            assert(pre.drop_last() =~= v@.subrange(0, i - 1));
            if str_eq(v[i - 1].0.as_str(), name) {
                assert(pre.last() == v@[i - 1]);
                return Some(&v[i - 1].1);
            }
            i = i - 1;
        }
        assert(struct_map(v@.subrange(0, 0)) =~= Map::<Seq<char>, Seq<(Seq<char>, TypeModel)>>::empty());
        None
    }

    fn env_insert(&mut self, name: &String, ty: &Type)
        ensures
            final(self).model() == (GoModel { env: old(self).model().env.insert(name@, ty.model()), ..old(self).model() }),
            final(self).needs == old(self).needs,
            final(self).output == old(self).output,
    {
        self.environment.push((name.clone(), copy_type(ty)));
        assert(self.environment@.drop_last() =~= old(self).environment@);
        assert(self.model() =~= (GoModel { env: old(self).model().env.insert(name@, ty.model()), ..old(self).model() }));
    }

    fn len_insert(&mut self, name: &String, len: usize)
        ensures
            final(self).model() == (GoModel { lens: old(self).model().lens.insert(name@, len), ..old(self).model() }),
            final(self).needs == old(self).needs,
            final(self).output == old(self).output,
    {
        self.array_lengths.push((name.clone(), len));
        assert(self.array_lengths@.drop_last() =~= old(self).array_lengths@);
        assert(self.model() =~= (GoModel { lens: old(self).model().lens.insert(name@, len), ..old(self).model() }));
    }

    fn bind_params_exec(&mut self, ps: &Vec<(String, Type, Span)>)
        ensures
            final(self).model() == (GoModel { env: bind_params(old(self).model().env, ps@), ..old(self).model() }),
            final(self).needs == old(self).needs,
            final(self).output == old(self).output,
    {
        let mut i: usize = 0;
        while i < ps.len()
            invariant
                i <= ps.len(),
                self.model() == (GoModel {
                    env: bind_params(old(self).model().env, ps@.subrange(0, i as int)),
                    ..old(self).model()
                }),
                self.needs == old(self).needs,
                self.output == old(self).output,
            decreases ps.len() - i,
        {
            assert(ps@.subrange(0, i + 1).drop_last() =~= ps@.subrange(0, i as int));
            self.env_insert(&ps[i].0, &ps[i].1);
            i = i + 1;
        }
        assert(ps@.subrange(0, ps.len() as int) =~= ps@);
    }

    /// A copy of the variables' types and lengths, to restore later.
    fn save(&self) -> (r: (Vec<(String, Type)>, Vec<(String, usize)>))
        ensures
            crate::codegen::type_map(r.0@) == self.model().env,
            crate::codegen::len_map(r.1@) == self.model().lens,
    {
        let mut e: Vec<(String, Type)> = Vec::new();
        let mut i: usize = 0;
        while i < self.environment.len()
            invariant
                i <= self.environment.len(),
                crate::codegen::type_map(e@) == crate::codegen::type_map(self.environment@.subrange(0, i as int)),
            decreases self.environment.len() - i,
        {
            let ghost e0 = e@;
            e.push((self.environment[i].0.clone(), copy_type(&self.environment[i].1)));
            assert(e@.drop_last() =~= e0);
            assert(self.environment@.subrange(0, i + 1).drop_last() =~= self.environment@.subrange(0, i as int));
            i = i + 1;
        }
        assert(self.environment@.subrange(0, self.environment.len() as int) =~= self.environment@);
        let mut l: Vec<(String, usize)> = Vec::new();
        let mut j: usize = 0;
        while j < self.array_lengths.len()
            invariant
                j <= self.array_lengths.len(),
                crate::codegen::len_map(l@) == crate::codegen::len_map(self.array_lengths@.subrange(0, j as int)),
            decreases self.array_lengths.len() - j,
        {
            let ghost l0 = l@;
            l.push((self.array_lengths[j].0.clone(), self.array_lengths[j].1));
            assert(l@.drop_last() =~= l0);
            assert(self.array_lengths@.subrange(0, j + 1).drop_last() =~= self.array_lengths@.subrange(0, j as int));
            j = j + 1;
        }
        assert(self.array_lengths@.subrange(0, self.array_lengths.len() as int) =~= self.array_lengths@);
        (e, l)
    }

    fn go_array_len_exec(&self, e: &Expression) -> (r: Option<usize>)
        ensures
            r == go_array_len(self.model(), *e),
    {
        match e {
            Expression::ArrayLiteral { elements } => Some(elements.len()),
            Expression::Identifier(n) => self.len_get(n.as_str()),
            _ => None,
        }
    }

    fn infer(&self, e: &Expression) -> (r: Option<Type>)
        ensures
            match r {
                Some(t) => go_infer(self.model(), *e) == Some(t.model()),
                None => go_infer(self.model(), *e) is None,
            },
        decreases e, 1nat,
    {
        match e {
            Expression::IntegerLiteral(_) => Some(Type::Kain),
            Expression::FloatLiteral(_) => Some(Type::DaTha),
            Expression::StringLiteral(_) => Some(Type::Sar),
            Expression::BooleanLiteral(_) => Some(Type::Sit),
            Expression::NilLiteral => Some(Type::Nil),
            Expression::Identifier(n) => match self.env_get(n.as_str()) {
                Some(t) => Some(copy_type(t)),
                None => None,
            },
            Expression::ArrayLiteral { elements } => {
                if elements.len() == 0 {
                    None
                } else {
                    match self.infer(&elements[0]) {
                        Some(t) => Some(Type::Array(Box::new(t))),
                        None => None,
                    }
                }
            },
            Expression::ChannelMake { value_type, .. } => Some(Type::Channel(Box::new(copy_type(value_type)))),
            Expression::BaungCreate { .. } => Some(Type::Baung),
            Expression::ReadInput { .. } => Some(Type::Sar),
            Expression::FieldAccess { object, field } => match self.infer(object) {
                Some(Type::Struct(sn)) => match self.struct_get(sn.as_str()) {
                    Some(fs) => field_type_exec(fs, field),
                    None => None,
                },
                _ => None,
            },
            Expression::MethodCall { object, method, arguments } => match self.infer(object) {
                Some(Type::Channel(inner)) => {
                    if str_eq(method.as_str(), "recv") && arguments.len() == 0 {
                        Some(*inner)
                    } else if str_eq(method.as_str(), "send") || str_eq(method.as_str(), "close") {
                        Some(Type::Nil)
                    } else {
                        None
                    }
                },
                Some(Type::Baung) => {
                    if str_eq(method.as_str(), "close") && arguments.len() == 0 {
                        Some(Type::Error)
                    } else {
                        None
                    }
                },
                Some(Type::Sar) => {
                    if str_eq(method.as_str(), "khwae") && arguments.len() == 1 {
                        Some(Type::Array(Box::new(Type::Sar)))
                    } else if str_eq(method.as_str(), "swal") && arguments.len() == 1 {
                        Some(Type::Sit)
                    } else {
                        None
                    }
                },
                _ => None,
            },
            Expression::StructLiteral { name, .. } => Some(Type::Struct(name.clone())),
            Expression::ClosureLiteral { parameters, return_type, .. } => Some(
                Type::Function { params: param_type_list(parameters), return_type: Box::new(copy_type(return_type)) },
            ),
            Expression::ErrorCreate { .. } => Some(Type::Error),
            Expression::TupleLiteral { elements } => match self.infer_all(elements) {
                Some(ts) => Some(Type::Tuple(ts)),
                None => None,
            },
            Expression::Binary { left, operator, right } => {
                let l = self.infer(left);
                let r = self.infer(right);
                match (l, r) {
                    (Some(lt), Some(rt)) => {
                        let op = operator.as_str();
                        if str_eq(op, "+") || str_eq(op, "-") || str_eq(op, "*") || str_eq(op, "/") {
                            match (lt, rt) {
                                (Type::Kain, Type::Kain) => Some(Type::Kain),
                                (Type::DaTha, Type::DaTha) => Some(Type::DaTha),
                                (Type::Sar, Type::Sar) => if str_eq(op, "+") {
                                    Some(Type::Sar)
                                } else {
                                    None
                                },
                                _ => None,
                            }
                        } else if str_eq(op, "==") || str_eq(op, "!=") || str_eq(op, ">") || str_eq(op, "<")
                            || str_eq(op, ">=") || str_eq(op, "<=") {
                            Some(Type::Sit)
                        } else {
                            None
                        }
                    },
                    _ => None,
                }
            },
            _ => None,
        }
    }

    fn infer_all(&self, es: &Vec<Expression>) -> (r: Option<Vec<Type>>)
        ensures
            match r {
                Some(ts) => go_infer_all(self.model(), es@) == Some(models_of(ts@)),
                None => go_infer_all(self.model(), es@) is None,
            },
        decreases es@, 0nat,
    {
        let mut out: Vec<Type> = Vec::new();
        let mut i: usize = 0;
        assert(models_of(out@) =~= Seq::<TypeModel>::empty());
        while i < es.len()
            invariant
                i <= es.len(),
                go_infer_all(self.model(), es@.subrange(0, i as int)) == Some(models_of(out@)),
            decreases es.len() - i,
        {
            assert(es@.subrange(0, i + 1).drop_last() =~= es@.subrange(0, i as int));
            match self.infer(&es[i]) {
                Some(t) => {
                    proof {
                        crate::ast::lemma_models_of(out@);
                        crate::ast::lemma_models_of(out@.push(t));
                    }
                    assert(models_of(out@.push(t)) =~= models_of(out@).push(t.model()));
                    out.push(t);
                },
                None => {
                    proof {
                        lemma_infer_all_none(self.model(), es@, i as int + 1);
                    }
                    return None;
                },
            }
            i = i + 1;
        }
        assert(es@.subrange(0, es.len() as int) =~= es@);
        Some(out)
    }

    fn push_infer_go_type(&self, out: &mut Vec<char>, e: &Expression)
        ensures
            final(out)@ == old(out)@ + infer_go_type(self.model(), *e),
    {
        match e {
            Expression::IntegerLiteral(_) => push_str(out, "int64"),
            Expression::FloatLiteral(_) => push_str(out, "float64"),
            Expression::StringLiteral(_) => push_str(out, "string"),
            Expression::BooleanLiteral(_) => push_str(out, "bool"),
            Expression::NilLiteral => push_str(out, "interface{}"),
            Expression::Identifier(n) => match self.env_get(n.as_str()) {
                Some(t) => push_go_type(out, t),
                None => push_str(out, "int64"),
            },
            Expression::StructLiteral { name, .. } => push_go_ident(out, name.as_str()),
            Expression::ClosureLiteral { parameters, return_type, .. } => {
                let t = Type::Function {
                    params: param_type_list(parameters),
                    return_type: Box::new(copy_type(return_type)),
                };
                push_go_type(out, &t);
            },
            Expression::ErrorCreate { .. } => push_str(out, "error"),
            Expression::ChannelMake { value_type, .. } => {
                let t = Type::Channel(Box::new(copy_type(value_type)));
                push_go_type(out, &t);
            },
            Expression::BaungCreate { .. } => push_str(out, "mlangBaung"),
            _ => push_str(out, "int64"),
        }
    }
}

/// Once an element's type is unknown, the types of all are.
proof fn lemma_infer_all_none(m: GoModel, es: Seq<Expression>, k: int)
    requires
        0 < k <= es.len(),
        go_infer_all(m, es.subrange(0, k)) is None,
    ensures
        go_infer_all(m, es) is None,
    decreases es.len() - k,
{
    if k < es.len() {
        assert(es.subrange(0, k + 1).drop_last() =~= es.subrange(0, k));
        lemma_infer_all_none(m, es, k + 1);
    } else {
        assert(es.subrange(0, k) =~= es);
    }
}

fn push_capitalized_ident(out: &mut Vec<char>, name: &str)
    ensures
        final(out)@ == old(out)@ + capitalized(go_ident(name@)),
{
    let c = crate::cli::clean_go_identifier(name);
    let u = crate::cli::capitalize_first(c.as_str());
    push_string(out, &u);
}

impl GoCodeGenerator {
    fn gen_expr(&mut self, out: &mut Vec<char>, e: &Expression)
        ensures
            final(out)@ == old(out)@ + go_expr(old(self).model(), *e).1,
            final(self).model() == go_expr(old(self).model(), *e).0,
            final(self).needs == old(self).needs,
            final(self).output == old(self).output,
        decreases e, 2nat,
    {
        let ghost m = self.model();
        match e {
            Expression::IntegerLiteral(v) => push_i64(out, *v),
            Expression::FloatLiteral(d) => push_decimal(out, d.whole, &d.fraction, true),
            Expression::StringLiteral(v) => {
                out.push('"');
                push_string(out, v);
                out.push('"');
                assert(final(out)@ =~= old(out)@ + go_expr(m, *e).1);
            },
            Expression::BooleanLiteral(b) => {
                if *b {
                    push_str(out, "true");
                } else {
                    push_str(out, "false");
                }
            },
            Expression::NilLiteral => push_str(out, "nil"),
            Expression::Identifier(n) => push_go_ident(out, n.as_str()),
            Expression::TypeConversion { .. } => self.gen_conversion(out, e),
            Expression::MethodCall { .. } => self.gen_method_call(out, e),
            Expression::FunctionCall { .. } | Expression::ArrayLiteral { .. } | Expression::HashLiteral { .. } | Expression::StructLiteral { .. } | Expression::TupleLiteral { .. } => self.gen_collection(out, e),
            Expression::ClosureLiteral { .. } => self.gen_closure(out, e),
            _ => self.gen_compound(out, e),
        }
    }

    /// Calls and literals of several parts.
    #[verifier::rlimit(100)]
    #[verifier::spinoff_prover]
    fn gen_collection(&mut self, out: &mut Vec<char>, e: &Expression)
        requires
            *e is FunctionCall || *e is ArrayLiteral || *e is HashLiteral || *e is StructLiteral || *e is TupleLiteral,
        ensures
            final(out)@ == old(out)@ + go_expr(old(self).model(), *e).1,
            final(self).model() == go_expr(old(self).model(), *e).0,
            final(self).needs == old(self).needs,
            final(self).output == old(self).output,
        decreases e, 1nat,
    {
        let ghost m = self.model();
        match e {
            Expression::FunctionCall { function, arguments } => {
                let items = self.gen_exprs(arguments);
                if str_eq(function.as_str(), "htae") {
                    push_str(out, "append(");
                    push_join(out, &items, ", ");
                    push_str(out, ")");
                } else if str_eq(function.as_str(), "ashay") {
                    push_str(out, "int64(len(");
                    push_join(out, &items, ", ");
                    push_str(out, "))");
                } else {
                    push_go_ident(out, function.as_str());
                    push_str(out, "(");
                    push_join(out, &items, ", ");
                    push_str(out, ")");
                }
            },
            Expression::ArrayLiteral { elements } => {
                push_str(out, "[]");
                if elements.len() == 0 {
                    push_str(out, "int64");
                } else {
                    self.push_infer_go_type(out, &elements[0]);
                }
                push_str(out, "{");
                let items = self.gen_exprs(elements);
                push_join(out, &items, ", ");
                push_str(out, "}");
            },
            Expression::HashLiteral { pairs } => {
                if pairs.len() == 0 {
                    push_str(out, "map[string]int64{}");
                } else {
                    push_str(out, "map[");
                    self.push_infer_go_type(out, &pairs[0].0);
                    push_str(out, "]");
                    self.push_infer_go_type(out, &pairs[0].1);
                    push_str(out, "{");
                    let items = self.gen_pairs(pairs);
                    push_join(out, &items, ", ");
                    push_str(out, "}");
                }
            },
            Expression::StructLiteral { name, fields } => {
                let items = self.gen_fields(fields);
                push_go_ident(out, name.as_str());
                push_str(out, "{");
                push_join(out, &items, ", ");
                push_str(out, "}");
            },
            Expression::TupleLiteral { elements } => {
                let items = self.gen_exprs(elements);
                push_join(out, &items, ", ");
            },
            _ => {},
        }
        assert(final(out)@ =~= old(out)@ + go_expr(m, *e).1);
    }

    /// Expressions of one, two or three parts.
    #[verifier::rlimit(100)]
    #[verifier::spinoff_prover]
    fn gen_compound(&mut self, out: &mut Vec<char>, e: &Expression)
        requires
            *e is Binary || *e is IndexExpression || *e is SliceExpression || *e is ReadInput || *e is FieldAccess
                || *e is ErrorCreate || *e is ChannelMake || *e is BaungCreate,
        ensures
            final(out)@ == old(out)@ + go_expr(old(self).model(), *e).1,
            final(self).model() == go_expr(old(self).model(), *e).0,
            final(self).needs == old(self).needs,
            final(self).output == old(self).output,
        decreases e, 1nat,
    {
        let ghost m = self.model();
        match e {
            Expression::Binary { left, operator, right } => {
                push_str(out, "(");
                self.gen_expr(out, left);
                out.push(' ');
                push_string(out, operator);
                out.push(' ');
                self.gen_expr(out, right);
                push_str(out, ")");
            },
            Expression::IndexExpression { left, index } => {
                self.gen_expr(out, left);
                push_str(out, "[");
                self.gen_expr(out, index);
                push_str(out, "]");
            },
            Expression::SliceExpression { left, low, high } => {
                self.gen_expr(out, left);
                push_str(out, "[");
                self.gen_opt(out, low);
                push_str(out, ":");
                self.gen_opt(out, high);
                push_str(out, "]");
            },
            Expression::ReadInput { prompt } => {
                push_str(out, "mlangReadInput(");
                self.gen_expr(out, prompt);
                push_str(out, ")");
            },
            Expression::FieldAccess { object, field } => {
                self.gen_expr(out, object);
                out.push('.');
                push_capitalized_ident(out, field.as_str());
            },
            Expression::ErrorCreate { message } => {
                push_str(out, "errors.New(");
                self.gen_expr(out, message);
                push_str(out, ")");
            },
            Expression::ChannelMake { value_type, capacity } => {
                push_str(out, "make(chan ");
                push_go_type(out, value_type);
                match capacity {
                    Some(c) => {
                        push_str(out, ", ");
                        self.gen_expr(out, c);
                    },
                    None => {},
                }
                push_str(out, ")");
            },
            Expression::BaungCreate { timeout_ms } => {
                push_str(out, "mlangNewBaung(");
                self.gen_expr(out, timeout_ms);
                push_str(out, ")");
            },
            _ => {},
        }
        assert(final(out)@ =~= old(out)@ + go_expr(m, *e).1);
    }

    /// A closure: its parameters are dropped after it.
    fn gen_closure(&mut self, out: &mut Vec<char>, e: &Expression)
        requires
            *e is ClosureLiteral,
        ensures
            final(out)@ == old(out)@ + go_expr(old(self).model(), *e).1,
            final(self).model() == go_expr(old(self).model(), *e).0,
            final(self).needs == old(self).needs,
            final(self).output == old(self).output,
        decreases e, 1nat,
    {
        let ghost m = self.model();
        match e {
            Expression::ClosureLiteral { parameters, return_type, body } => {
                let level = self.indent_level;
                let saved = self.save();
                let saved_main = self.in_main;
                self.bind_params_exec(parameters);
                let items = go_param_items(parameters);
                push_str(out, "func(");
                push_join(out, &items, ", ");
                push_str(out, ") ");
                push_go_type(out, return_type);
                push_str(out, " ");
                self.gen_block(out, body);
                self.environment = saved.0;
                self.array_lengths = saved.1;
                self.in_main = saved_main;
                self.indent_level = level;
                assert(final(out)@ =~= old(out)@ + go_expr(m, *e).1);
            },
            _ => {},
        }
    }

    fn gen_opt(&mut self, out: &mut Vec<char>, o: &Option<Box<Expression>>)
        ensures
            final(out)@ == old(out)@ + go_opt(old(self).model(), *o).1,
            final(self).model() == go_opt(old(self).model(), *o).0,
            final(self).needs == old(self).needs,
            final(self).output == old(self).output,
        decreases o, 0nat,
    {
        match o {
            Some(x) => self.gen_expr(out, x),
            None => {
                assert(out@ =~= old(out)@ + Seq::<char>::empty());
            },
        }
    }

    fn gen_exprs(&mut self, es: &Vec<Expression>) -> (r: Vec<Vec<char>>)
        ensures
            items_model(r@) == go_exprs(old(self).model(), es@).1,
            final(self).model() == go_exprs(old(self).model(), es@).0,
            final(self).needs == old(self).needs,
            final(self).output == old(self).output,
        decreases es@, 0nat,
    {
        let ghost m0 = self.model();
        let mut items: Vec<Vec<char>> = Vec::new();
        let mut i: usize = 0;
        assert(items_model(items@) =~= Seq::<Seq<char>>::empty());
        while i < es.len()
            invariant
                i <= es.len(),
                go_exprs(m0, es@.subrange(0, i as int)) == (self.model(), items_model(items@)),
                self.needs == old(self).needs,
                self.output == old(self).output,
            decreases es.len() - i,
        {
            assert(es@.subrange(0, i + 1).drop_last() =~= es@.subrange(0, i as int));
            let mut b: Vec<char> = Vec::new();
            self.gen_expr(&mut b, &es[i]);
            assert(b@ =~= Seq::<char>::empty() + b@);
            assert(items_model(items@.push(b)) =~= items_model(items@).push(b@));
            items.push(b);
            i = i + 1;
        }
        assert(es@.subrange(0, es.len() as int) =~= es@);
        items
    }

    fn gen_pairs(&mut self, ps: &Vec<(Expression, Expression)>) -> (r: Vec<Vec<char>>)
        ensures
            items_model(r@) == go_pairs(old(self).model(), ps@).1,
            final(self).model() == go_pairs(old(self).model(), ps@).0,
            final(self).needs == old(self).needs,
            final(self).output == old(self).output,
        decreases ps@, 0nat,
    {
        let ghost m0 = self.model();
        let mut items: Vec<Vec<char>> = Vec::new();
        let mut i: usize = 0;
        assert(items_model(items@) =~= Seq::<Seq<char>>::empty());
        while i < ps.len()
            invariant
                i <= ps.len(),
                go_pairs(m0, ps@.subrange(0, i as int)) == (self.model(), items_model(items@)),
                self.needs == old(self).needs,
                self.output == old(self).output,
            decreases ps.len() - i,
        {
            assert(ps@.subrange(0, i + 1).drop_last() =~= ps@.subrange(0, i as int));
            let mut b: Vec<char> = Vec::new();
            self.gen_expr(&mut b, &ps[i].0);
            push_str(&mut b, ": ");
            self.gen_expr(&mut b, &ps[i].1);
            assert(items_model(items@.push(b)) =~= items_model(items@).push(b@));
            items.push(b);
            i = i + 1;
        }
        assert(ps@.subrange(0, ps.len() as int) =~= ps@);
        items
    }

    fn gen_fields(&mut self, fs: &Vec<(String, Expression)>) -> (r: Vec<Vec<char>>)
        ensures
            items_model(r@) == go_fields(old(self).model(), fs@).1,
            final(self).model() == go_fields(old(self).model(), fs@).0,
            final(self).needs == old(self).needs,
            final(self).output == old(self).output,
        decreases fs@, 0nat,
    {
        let ghost m0 = self.model();
        let mut items: Vec<Vec<char>> = Vec::new();
        let mut i: usize = 0;
        assert(items_model(items@) =~= Seq::<Seq<char>>::empty());
        while i < fs.len()
            invariant
                i <= fs.len(),
                go_fields(m0, fs@.subrange(0, i as int)) == (self.model(), items_model(items@)),
                self.needs == old(self).needs,
                self.output == old(self).output,
            decreases fs.len() - i,
        {
            assert(fs@.subrange(0, i + 1).drop_last() =~= fs@.subrange(0, i as int));
            let mut b: Vec<char> = Vec::new();
            push_capitalized_ident(&mut b, fs[i].0.as_str());
            push_str(&mut b, ": ");
            self.gen_expr(&mut b, &fs[i].1);
            assert(items_model(items@.push(b)) =~= items_model(items@).push(b@));
            items.push(b);
            i = i + 1;
        }
        assert(fs@.subrange(0, fs.len() as int) =~= fs@);
        items
    }
}

fn go_param_items(ps: &Vec<(String, Type, Span)>) -> (r: Vec<Vec<char>>)
    ensures
        items_model(r@) == go_params(ps@),
{
    let mut out: Vec<Vec<char>> = Vec::new();
    let mut i: usize = 0;
    while i < ps.len()
        invariant
            i <= ps.len(),
            out.len() == i,
            forall|k: int| 0 <= k < i ==> (#[trigger] out@[k])@ == go_ident(ps@[k].0@) + seq![' '] + go_type(ps@[k].1.model()),
        decreases ps.len() - i,
    {
        let mut b: Vec<char> = Vec::new();
        push_go_ident(&mut b, ps[i].0.as_str());
        b.push(' ');
        push_go_type(&mut b, &ps[i].1);
        out.push(b);
        i = i + 1;
    }
    assert(items_model(out@) =~= go_params(ps@));
    out
}

impl GoCodeGenerator {
    fn gen_conversion(&mut self, out: &mut Vec<char>, e: &Expression)
        requires
            *e is TypeConversion,
        ensures
            final(out)@ == old(out)@ + go_conversion(old(self).model(), *e).1,
            final(self).model() == go_conversion(old(self).model(), *e).0,
            final(self).needs == old(self).needs,
            final(self).output == old(self).output,
        decreases e, 1nat,
    {
        let ghost m = self.model();
        match e {
            Expression::TypeConversion { target_type, argument } => {
                let src = self.infer(argument);
                let src_sar = matches!(src, Some(Type::Sar));
                let src_kain = matches!(src, Some(Type::Kain));
                let src_datha = matches!(src, Some(Type::DaTha));
                let (t_kain, t_sar, t_datha) = match target_type {
                    Type::Kain => (true, false, false),
                    Type::Sar => (false, true, false),
                    Type::DaTha => (false, false, true),
                    _ => (false, false, false),
                };
                let mut a: Vec<char> = Vec::new();
                self.gen_expr(&mut a, argument);
                if src_sar && t_kain {
                    push_str(out, "func() int64 { v, _ := strconv.Atoi(");
                    push_chars(out, &a);
                    push_str(out, "); return int64(v) }()");
                } else if src_kain && t_sar {
                    push_str(out, "strconv.FormatInt(");
                    push_chars(out, &a);
                    push_str(out, ", 10)");
                } else if src_kain && t_datha {
                    push_str(out, "float64(");
                    push_chars(out, &a);
                    push_str(out, ")");
                } else if src_datha && t_kain {
                    push_str(out, "int64(");
                    push_chars(out, &a);
                    push_str(out, ")");
                } else if src_datha && t_sar {
                    push_str(out, "strconv.FormatFloat(");
                    push_chars(out, &a);
                    push_str(out, ", 'f', -1, 64)");
                } else if src_sar && t_datha {
                    push_str(out, "func() float64 { v, _ := strconv.ParseFloat(");
                    push_chars(out, &a);
                    push_str(out, ", 64); return v }()");
                } else {
                    push_go_type(out, target_type);
                    push_str(out, "(");
                    push_chars(out, &a);
                    push_str(out, ")");
                }
                assert(final(out)@ =~= old(out)@ + go_conversion(m, *e).1);
            },
            _ => {},
        }
    }

    fn gen_channel_send(&mut self, out: &mut Vec<char>, e: &Expression)
        requires
            *e is MethodCall,
        ensures
            final(out)@ == old(out)@ + channel_send(old(self).model(), *e).1,
            final(self).model() == channel_send(old(self).model(), *e).0,
            final(self).needs == old(self).needs,
            final(self).output == old(self).output,
        decreases e, 0nat,
    {
        let ghost m = self.model();
        match e {
            Expression::MethodCall { object, arguments, .. } => {
                self.gen_expr(out, object);
                if arguments.len() > 0 {
                    push_str(out, " <- ");
                    self.gen_expr(out, &arguments[0]);
                } else {
                    push_str(out, " <- nil");
                }
                assert(final(out)@ =~= old(out)@ + channel_send(m, *e).1);
            },
            _ => {},
        }
    }

    fn gen_http_module(&mut self, out: &mut Vec<char>, e: &Expression) -> (r: bool)
        requires
            *e is MethodCall,
        ensures
            r == (http_module_call(old(self).model(), *e) is Some),
            r ==> final(out)@ == old(out)@ + http_module_call(old(self).model(), *e).unwrap().1
                && final(self).model() == http_module_call(old(self).model(), *e).unwrap().0,
            !r ==> final(out)@ == old(out)@ && final(self).model() == old(self).model(),
            final(self).needs == old(self).needs,
            final(self).output == old(self).output,
        decreases e, 0nat,
    {
        let ghost m = self.model();
        match e {
            Expression::MethodCall { method, arguments, .. } => {
                if str_eq(method.as_str(), "handle") && arguments.len() >= 2 {
                    push_str(out, "func() error { http.HandleFunc(");
                    self.gen_expr(out, &arguments[0]);
                    push_str(out, ", func(w http.ResponseWriter, r *http.Request) { if err := ");
                    self.gen_expr(out, &arguments[1]);
                    push_str(
                        out,
                        "(r, w); err != nil { http.Error(w, err.Error(), http.StatusInternalServerError) } }); return nil }()",
                    );
                    assert(final(out)@ =~= old(out)@ + http_module_call(m, *e).unwrap().1);
                    true
                } else if str_eq(method.as_str(), "listen") && arguments.len() > 0 {
                    push_str(out, "http.ListenAndServe(");
                    self.gen_expr(out, &arguments[0]);
                    push_str(out, ", nil)");
                    assert(final(out)@ =~= old(out)@ + http_module_call(m, *e).unwrap().1);
                    true
                } else {
                    false
                }
            },
            _ => false,
        }
    }

    fn gen_http_request(&mut self, out: &mut Vec<char>, e: &Expression) -> (r: bool)
        requires
            *e is MethodCall,
        ensures
            r == (http_request_call(old(self).model(), *e) is Some),
            r ==> final(out)@ == old(out)@ + http_request_call(old(self).model(), *e).unwrap().1
                && final(self).model() == http_request_call(old(self).model(), *e).unwrap().0,
            !r ==> final(out)@ == old(out)@ && final(self).model() == old(self).model(),
            final(self).needs == old(self).needs,
            final(self).output == old(self).output,
        decreases e, 0nat,
    {
        let ghost m = self.model();
        match e {
            Expression::MethodCall { object, method, arguments } => {
                let header = str_eq(method.as_str(), "header");
                if (header || str_eq(method.as_str(), "query")) && arguments.len() > 0 {
                    self.gen_expr(out, object);
                    if header {
                        push_str(out, ".Header.Get(");
                    } else {
                        push_str(out, ".URL.Query().Get(");
                    }
                    self.gen_expr(out, &arguments[0]);
                    push_str(out, ")");
                    assert(final(out)@ =~= old(out)@ + http_request_call(m, *e).unwrap().1);
                    true
                } else {
                    false
                }
            },
            _ => false,
        }
    }

    #[verifier::rlimit(100)]
    #[verifier::spinoff_prover]
    fn gen_http_writer(&mut self, out: &mut Vec<char>, e: &Expression) -> (r: bool)
        requires
            *e is MethodCall,
        ensures
            r == (http_writer_call(old(self).model(), *e) is Some),
            r ==> final(out)@ == old(out)@ + http_writer_call(old(self).model(), *e).unwrap().1
                && final(self).model() == http_writer_call(old(self).model(), *e).unwrap().0,
            !r ==> final(out)@ == old(out)@ && final(self).model() == old(self).model(),
            final(self).needs == old(self).needs,
            final(self).output == old(self).output,
        decreases e, 0nat,
    {
        let ghost m = self.model();
        match e {
            Expression::MethodCall { object, method, arguments } => {
                if str_eq(method.as_str(), "write") && arguments.len() > 0 {
                    push_str(out, "func() error { _, err := ");
                    self.gen_expr(out, object);
                    push_str(out, ".Write([]byte(");
                    self.gen_expr(out, &arguments[0]);
                    push_str(out, ")); return err }()");
                    assert(final(out)@ =~= old(out)@ + http_writer_call(m, *e).unwrap().1);
                    true
                } else if str_eq(method.as_str(), "status") && arguments.len() > 0 {
                    push_str(out, "func() error { ");
                    self.gen_expr(out, object);
                    push_str(out, ".WriteHeader(int(");
                    self.gen_expr(out, &arguments[0]);
                    push_str(out, ")); return nil }()");
                    assert(final(out)@ =~= old(out)@ + http_writer_call(m, *e).unwrap().1);
                    true
                } else if str_eq(method.as_str(), "header") && arguments.len() >= 2 {
                    push_str(out, "func() error { ");
                    self.gen_expr(out, object);
                    push_str(out, ".Header().Set(");
                    self.gen_expr(out, &arguments[0]);
                    push_str(out, ", ");
                    self.gen_expr(out, &arguments[1]);
                    push_str(out, "); return nil }()");
                    assert(final(out)@ =~= old(out)@ + http_writer_call(m, *e).unwrap().1);
                    true
                } else if str_eq(method.as_str(), "json") && arguments.len() > 0 {
                    push_str(out, "func() error { ");
                    self.gen_expr(out, object);
                    push_str(
                        out,
                        ".Header().Set(\"Content-Type\", \"application/json\"); return gojson.NewEncoder(",
                    );
                    self.gen_expr(out, object);
                    push_str(out, ").Encode(");
                    self.gen_expr(out, &arguments[0]);
                    push_str(out, ") }()");
                    assert(final(out)@ =~= old(out)@ + http_writer_call(m, *e).unwrap().1);
                    true
                } else {
                    false
                }
            },
            _ => false,
        }
    }

    #[verifier::rlimit(100)]
    #[verifier::spinoff_prover]
    fn gen_method_call(&mut self, out: &mut Vec<char>, e: &Expression)
        requires
            *e is MethodCall,
        ensures
            final(out)@ == old(out)@ + go_method_call(old(self).model(), *e).1,
            final(self).model() == go_method_call(old(self).model(), *e).0,
            final(self).needs == old(self).needs,
            final(self).output == old(self).output,
        decreases e, 1nat,
    {
        let ghost m = self.model();
        match e {
            Expression::MethodCall { object, method, arguments } => {
                let is_http = match &**object {
                    Expression::Identifier(n) => str_eq(n.as_str(), "http"),
                    _ => false,
                };
                if is_http && self.gen_http_module(out, e) {
                    return;
                }
                let t = self.infer(object);
                let chan = matches!(t, Some(Type::Channel(_)));
                let is_request = match &t {
                    Some(Type::Struct(n)) => str_eq(n.as_str(), "http.Request"),
                    _ => false,
                };
                let is_writer = match &t {
                    Some(Type::Struct(n)) => str_eq(n.as_str(), "http.ResponseWriter"),
                    _ => false,
                };
                let is_sar = matches!(t, Some(Type::Sar));
                proof {
                    reveal_strlit("http.Request");
                    reveal_strlit("http.ResponseWriter");
                }
                assert(is_request == (go_infer(m, **object) == Some(TypeModel::Struct("http.Request"@))));
                assert(is_writer == (go_infer(m, **object) == Some(TypeModel::Struct("http.ResponseWriter"@))));
                let mname = method.as_str();
                if chan && str_eq(mname, "recv") {
                    push_str(out, "<-");
                    self.gen_expr(out, object);
                } else if chan && str_eq(mname, "send") {
                    push_str(out, "func() interface{} { ");
                    self.gen_channel_send(out, e);
                    push_str(out, "; return nil }()");
                } else if chan && str_eq(mname, "close") {
                    push_str(out, "func() interface{} { close(");
                    self.gen_expr(out, object);
                    push_str(out, "); return nil }()");
                } else if is_request && self.gen_http_request(out, e) {
                } else if is_writer && self.gen_http_writer(out, e) {
                } else if is_sar && (str_eq(mname, "khwae") || str_eq(mname, "swal")) {
                    if str_eq(mname, "khwae") {
                        push_str(out, "strings.Split(");
                    } else {
                        push_str(out, "strings.Contains(");
                    }
                    self.gen_expr(out, object);
                    push_str(out, ", ");
                    if arguments.len() > 0 {
                        self.gen_expr(out, &arguments[0]);
                    }
                    push_str(out, ")");
                } else {
                    self.gen_expr(out, object);
                    out.push('.');
                    push_capitalized_ident(out, mname);
                    push_str(out, "(");
                    let items = self.gen_exprs(arguments);
                    push_join(out, &items, ", ");
                    push_str(out, ")");
                }
                assert(final(out)@ =~= old(out)@ + go_method_call(m, *e).1);
            },
            _ => {},
        }
    }
}

fn go_name_items(ns: &Vec<(String, Type, Span)>) -> (r: Vec<Vec<char>>)
    ensures
        items_model(r@) == go_names(ns@),
{
    let mut out: Vec<Vec<char>> = Vec::new();
    let mut i: usize = 0;
    while i < ns.len()
        invariant
            i <= ns.len(),
            out.len() == i,
            forall|k: int| 0 <= k < i ==> (#[trigger] out@[k])@ == go_ident(ns@[k].0@),
        decreases ns.len() - i,
    {
        let mut b: Vec<char> = Vec::new();
        push_go_ident(&mut b, ns[i].0.as_str());
        out.push(b);
        i = i + 1;
    }
    assert(items_model(out@) =~= go_names(ns@));
    out
}

fn push_unused_lines(out: &mut Vec<char>, level: usize, names: &Vec<Vec<char>>)
    ensures
        final(out)@ == old(out)@ + unused_lines(tabs(level as nat), items_model(names@)),
{
    let ghost ind = tabs(level as nat);
    let mut i: usize = 0;
    while i < names.len()
        invariant
            i <= names.len(),
            ind == tabs(level as nat),
            out@ == old(out)@ + unused_lines(ind, items_model(names@).subrange(0, i as int)),
        decreases names.len() - i,
    {
        push_tabs(out, level);
        push_str(out, "_ = ");
        push_chars(out, &names[i]);
        push_str(out, "\n");
        let ghost ms = items_model(names@);
        assert(ms.subrange(0, i + 1).drop_last() =~= ms.subrange(0, i as int));
        i = i + 1;
        assert(out@ =~= old(out)@ + unused_lines(ind, ms.subrange(0, i as int)));
    }
    assert(items_model(names@).subrange(0, names.len() as int) =~= items_model(names@));
}

fn push_field_lines(out: &mut Vec<char>, level: usize, fs: &Vec<(String, Type)>)
    ensures
        final(out)@ == old(out)@ + field_lines(tabs(level as nat), fs@),
{
    let ghost ind = tabs(level as nat);
    let mut i: usize = 0;
    while i < fs.len()
        invariant
            i <= fs.len(),
            ind == tabs(level as nat),
            out@ == old(out)@ + field_lines(ind, fs@.subrange(0, i as int)),
        decreases fs.len() - i,
    {
        push_tabs(out, level);
        push_capitalized_ident(out, fs[i].0.as_str());
        out.push(' ');
        push_go_type(out, &fs[i].1);
        push_str(out, "\n");
        assert(fs@.subrange(0, i + 1).drop_last() =~= fs@.subrange(0, i as int));
        i = i + 1;
        assert(out@ =~= old(out)@ + field_lines(ind, fs@.subrange(0, i as int)));
    }
    assert(fs@.subrange(0, fs.len() as int) =~= fs@);
}

fn field_param_items(fs: &Vec<(String, Type)>) -> (r: Vec<Vec<char>>)
    ensures
        items_model(r@) == field_params(fs@),
{
    let mut out: Vec<Vec<char>> = Vec::new();
    let mut i: usize = 0;
    while i < fs.len()
        invariant
            i <= fs.len(),
            out.len() == i,
            forall|k: int| 0 <= k < i ==> (#[trigger] out@[k])@ == go_ident(fs@[k].0@) + seq![' '] + go_type(fs@[k].1.model()),
        decreases fs.len() - i,
    {
        let mut b: Vec<char> = Vec::new();
        push_go_ident(&mut b, fs[i].0.as_str());
        b.push(' ');
        push_go_type(&mut b, &fs[i].1);
        out.push(b);
        i = i + 1;
    }
    assert(items_model(out@) =~= field_params(fs@));
    out
}

fn push_method_lines(out: &mut Vec<char>, level: usize, ms: &Vec<(String, Vec<(String, Type)>, Type)>)
    ensures
        final(out)@ == old(out)@ + method_lines(tabs(level as nat), ms@),
{
    let ghost ind = tabs(level as nat);
    let mut i: usize = 0;
    while i < ms.len()
        invariant
            i <= ms.len(),
            ind == tabs(level as nat),
            out@ == old(out)@ + method_lines(ind, ms@.subrange(0, i as int)),
        decreases ms.len() - i,
    {
        push_tabs(out, level);
        push_capitalized_ident(out, ms[i].0.as_str());
        push_str(out, "(");
        let items = field_param_items(&ms[i].1);
        push_join(out, &items, ", ");
        push_str(out, ") ");
        push_go_type(out, &ms[i].2);
        push_str(out, "\n");
        assert(ms@.subrange(0, i + 1).drop_last() =~= ms@.subrange(0, i as int));
        i = i + 1;
        assert(out@ =~= old(out)@ + method_lines(ind, ms@.subrange(0, i as int)));
    }
    assert(ms@.subrange(0, ms.len() as int) =~= ms@);
}

impl GoCodeGenerator {
    fn gen_block(&mut self, out: &mut Vec<char>, b: &BlockStatement)
        ensures
            final(out)@ == old(out)@ + go_block(old(self).model(), *b).1,
            final(self).model() == go_block(old(self).model(), *b).0,
            final(self).needs == old(self).needs,
            final(self).output == old(self).output,
        decreases b, 3nat,
    {
        let ghost m = self.model();
        let level = self.indent_level;
        push_str(out, "{\n");
        self.indent_level = if level < usize::MAX {
            level + 1
        } else {
            level
        };
        assert(self.model() == (GoModel { indent: deeper(m.indent), ..m }));
        self.gen_stmts(out, &b.statements);
        self.indent_level = level;
        push_tabs(out, level);
        push_str(out, "}");
        assert(final(out)@ =~= old(out)@ + go_block(m, *b).1);
    }

    fn gen_stmts(&mut self, out: &mut Vec<char>, ss: &Vec<Statement>)
        ensures
            final(out)@ == old(out)@ + go_stmts(old(self).model(), ss@).1,
            final(self).model() == go_stmts(old(self).model(), ss@).0,
            final(self).needs == old(self).needs,
            final(self).output == old(self).output,
        decreases ss@, 0nat,
    {
        let ghost m0 = self.model();
        let mut i: usize = 0;
        while i < ss.len()
            invariant
                i <= ss.len(),
                go_stmts(m0, ss@.subrange(0, i as int)).0 == self.model(),
                out@ == old(out)@ + go_stmts(m0, ss@.subrange(0, i as int)).1,
                self.needs == old(self).needs,
                self.output == old(self).output,
            decreases ss.len() - i,
        {
            assert(ss@.subrange(0, i + 1).drop_last() =~= ss@.subrange(0, i as int));
            self.gen_stmt(out, &ss[i]);
            i = i + 1;
            assert(out@ =~= old(out)@ + go_stmts(m0, ss@.subrange(0, i as int)).1);
        }
        assert(ss@.subrange(0, ss.len() as int) =~= ss@);
    }

    fn gen_stmt(&mut self, out: &mut Vec<char>, s: &Statement)
        ensures
            final(out)@ == old(out)@ + go_stmt(old(self).model(), *s).1,
            final(self).model() == go_stmt(old(self).model(), *s).0,
            final(self).needs == old(self).needs,
            final(self).output == old(self).output,
        decreases s, 4nat,
    {
        match s {
            Statement::Let { .. } | Statement::LetDestructured { .. } | Statement::Assign { .. } => self.gen_binding(out, s),
            Statement::FunctionDecl { .. } | Statement::TestDecl { .. } | Statement::MethodDecl { .. } => self.gen_callable(out, s),
            Statement::StructDecl { .. } | Statement::InterfaceDecl { .. } | Statement::Import { .. } | Statement::PackageDecl { .. } => self.gen_declaration(out, s),
            Statement::If { .. } | Statement::While { .. } => self.gen_control(out, s),
            Statement::ForIn { .. } => self.gen_for_in(out, s),
            Statement::ForClassic { .. } => self.gen_for_classic(out, s),
            Statement::Export { statement, .. } => self.gen_stmt(out, statement),
            _ => self.gen_simple(out, s),
        }
    }

    /// Bindings and assignments.
    #[verifier::rlimit(100)]
    #[verifier::spinoff_prover]
    fn gen_binding(&mut self, out: &mut Vec<char>, s: &Statement)
        requires
            *s is Let || *s is LetDestructured || *s is Assign,
        ensures
            final(out)@ == old(out)@ + go_binding(old(self).model(), *s).1,
            final(self).model() == go_binding(old(self).model(), *s).0,
            final(self).needs == old(self).needs,
            final(self).output == old(self).output,
        decreases s, 3nat,
    {
        let ghost m = self.model();
        let level = self.indent_level;
        match s {
            Statement::Let { name, value, ty, .. } => {
                self.env_insert(name, ty);
                match ty {
                    Type::Array(_) => match self.go_array_len_exec(value) {
                        Some(len) => self.len_insert(name, len),
                        None => {},
                    },
                    _ => {},
                }
                let mut n: Vec<char> = Vec::new();
                push_go_ident(&mut n, name.as_str());
                push_tabs(out, level);
                push_str(out, "var ");
                push_chars(out, &n);
                out.push(' ');
                push_go_type(out, ty);
                match value {
                    Expression::NilLiteral => push_str(out, "\n"),
                    _ => {
                        push_str(out, " = ");
                        self.gen_expr(out, value);
                        push_str(out, "\n");
                    },
                }
                push_tabs(out, level);
                push_str(out, "_ = ");
                push_chars(out, &n);
                push_str(out, "\n");
                assert(final(out)@ =~= old(out)@ + go_binding(m, *s).1);
            },
            Statement::LetDestructured { names, value } => {
                let mut i: usize = 0;
                while i < names.len()
                    invariant
                        i <= names.len(),
                        self.model() == (GoModel { env: bind_params(m.env, names@.subrange(0, i as int)), ..m }),
                        self.needs == old(self).needs,
                        self.output == old(self).output,
                    decreases names.len() - i,
                {
                    assert(names@.subrange(0, i + 1).drop_last() =~= names@.subrange(0, i as int));
                    self.env_insert(&names[i].0, &names[i].1);
                    i = i + 1;
                }
                assert(names@.subrange(0, names.len() as int) =~= names@);
                let items = go_name_items(names);
                push_tabs(out, level);
                push_join(out, &items, ", ");
                push_str(out, " := ");
                self.gen_expr(out, value);
                push_str(out, "\n");
                push_unused_lines(out, level, &items);
                assert(final(out)@ =~= old(out)@ + go_binding(m, *s).1);
            },
            Statement::Assign { name, value, .. } => {
                push_tabs(out, level);
                push_go_ident(out, name.as_str());
                push_str(out, " = ");
                self.gen_expr(out, value);
                push_str(out, "\n");
                let is_array = match self.env_get(name.as_str()) {
                    Some(Type::Array(_)) => true,
                    _ => false,
                };
                if is_array {
                    match self.go_array_len_exec(value) {
                        Some(len) => self.len_insert(name, len),
                        None => {},
                    }
                }
                assert(final(out)@ =~= old(out)@ + go_binding(m, *s).1);
            },
            _ => {},
        }
    }

    /// Functions, tests and methods: the variables they bind are dropped
    /// after them.
    fn gen_callable(&mut self, out: &mut Vec<char>, s: &Statement)
        requires
            *s is FunctionDecl || *s is TestDecl || *s is MethodDecl,
        ensures
            final(out)@ == old(out)@ + go_callable(old(self).model(), *s).1,
            final(self).model() == go_callable(old(self).model(), *s).0,
            final(self).needs == old(self).needs,
            final(self).output == old(self).output,
        decreases s, 3nat,
    {
        let ghost m = self.model();
        let level = self.indent_level;
        let saved = self.save();
        let saved_main = self.in_main;
        match s {
            Statement::FunctionDecl { .. } => self.gen_function(out, s),
            Statement::TestDecl { name, body, .. } => {
                let tn = crate::cli::go_test_function_name(name.as_str());
                push_tabs(out, level);
                push_str(out, "func ");
                push_string(out, &tn);
                push_str(out, "() error ");
                self.gen_block(out, body);
                push_str(out, "\n\n");
                assert(out@ =~= old(out)@ + go_callable(m, *s).1);
            },
            _ => self.gen_method(out, s),
        }
        self.environment = saved.0;
        self.array_lengths = saved.1;
        self.in_main = saved_main;
        self.indent_level = level;
    }

    #[verifier::rlimit(100)]
    #[verifier::spinoff_prover]
    fn gen_function(&mut self, out: &mut Vec<char>, s: &Statement)
        requires
            *s is FunctionDecl,
        ensures
            final(out)@ == old(out)@ + go_callable(old(self).model(), *s).1,
            final(self).model().structs == go_callable(old(self).model(), *s).0.structs,
            final(self).needs == old(self).needs,
            final(self).output == old(self).output,
        decreases s, 2nat,
    {
        let ghost m = self.model();
        let level = self.indent_level;
        match s {
            Statement::FunctionDecl { name, parameters, return_type, body, .. } => {
                let is_main = str_eq(name.as_str(), "main");
                self.bind_params_exec(parameters);
                self.in_main = is_main;
                let items = go_param_items(parameters);
                push_tabs(out, level);
                push_str(out, "func ");
                if is_main {
                    push_str(out, "main");
                } else {
                    push_go_ident(out, name.as_str());
                }
                push_str(out, "(");
                push_join(out, &items, ", ");
                push_str(out, ")");
                if !is_main {
                    out.push(' ');
                    push_go_type(out, return_type);
                }
                push_str(out, " ");
                self.gen_block(out, body);
                push_str(out, "\n\n");
                assert(out@ =~= old(out)@ + go_callable(m, *s).1);
            },
            _ => {},
        }
    }

    #[verifier::rlimit(100)]
    #[verifier::spinoff_prover]
    fn gen_method(&mut self, out: &mut Vec<char>, s: &Statement)
        requires
            *s is MethodDecl,
        ensures
            final(out)@ == old(out)@ + go_callable(old(self).model(), *s).1,
            final(self).model().structs == go_callable(old(self).model(), *s).0.structs,
            final(self).needs == old(self).needs,
            final(self).output == old(self).output,
        decreases s, 2nat,
    {
        let ghost m = self.model();
        let level = self.indent_level;
        match s {
            Statement::MethodDecl { receiver_type, receiver_name, name, parameters, return_type, body, .. } => {
                let rt = Type::Struct(receiver_type.clone());
                self.env_insert(receiver_name, &rt);
                self.bind_params_exec(parameters);
                let items = go_param_items(parameters);
                push_tabs(out, level);
                push_str(out, "func (");
                push_go_ident(out, receiver_name.as_str());
                out.push(' ');
                push_go_ident(out, receiver_type.as_str());
                push_str(out, ") ");
                push_capitalized_ident(out, name.as_str());
                push_str(out, "(");
                push_join(out, &items, ", ");
                push_str(out, ") ");
                push_go_type(out, return_type);
                push_str(out, " ");
                self.gen_block(out, body);
                push_str(out, "\n\n");
                assert(out@ =~= old(out)@ + go_callable(m, *s).1);
            },
            _ => {},
        }
    }

    /// Struct and interface declarations, imports and package declarations.
    fn gen_declaration(&mut self, out: &mut Vec<char>, s: &Statement)
        requires
            *s is StructDecl || *s is InterfaceDecl || *s is Import || *s is PackageDecl,
        ensures
            final(out)@ == old(out)@ + go_declaration(old(self).model(), *s).1,
            final(self).model() == go_declaration(old(self).model(), *s).0,
            final(self).needs == old(self).needs,
            final(self).output == old(self).output,
        decreases s, 3nat,
    {
        let ghost m = self.model();
        let level = self.indent_level;
        let inner = if level < usize::MAX {
            level + 1
        } else {
            level
        };
        match s {
            Statement::StructDecl { name, fields, .. } => {
                let ghost sf = self.struct_fields@;
                self.struct_fields.push((name.clone(), copy_fields(fields)));
                assert(self.struct_fields@.drop_last() =~= sf);
                assert(self.model() =~= (GoModel { structs: m.structs.insert(name@, field_models(fields@)), ..m }));
                push_tabs(out, level);
                push_str(out, "type ");
                push_go_ident(out, name.as_str());
                push_str(out, " struct {\n");
                push_field_lines(out, inner, fields);
                push_tabs(out, level);
                push_str(out, "}\n\n");
            },
            Statement::InterfaceDecl { name, methods, .. } => {
                push_tabs(out, level);
                push_str(out, "type ");
                push_go_ident(out, name.as_str());
                push_str(out, " interface {\n");
                push_method_lines(out, inner, methods);
                push_tabs(out, level);
                push_str(out, "}\n\n");
            },
            Statement::Import { module, .. } => {
                push_str(out, "// import \"");
                push_string(out, module);
                push_str(out, "\"\n");
            },
            _ => {},
        }
        assert(final(out)@ =~= old(out)@ + go_declaration(m, *s).1);
    }

    /// Statements that bind nothing.
    #[verifier::rlimit(100)]
    #[verifier::spinoff_prover]
    fn gen_simple(&mut self, out: &mut Vec<char>, s: &Statement)
        requires
            *s is FieldAssign || *s is IndexAssign || *s is Return || *s is Print || *s is Break || *s is Continue
                || *s is Go || *s is Defer || *s is ExpressionStatement,
        ensures
            final(out)@ == old(out)@ + go_simple(old(self).model(), *s).1,
            final(self).model() == go_simple(old(self).model(), *s).0,
            final(self).needs == old(self).needs,
            final(self).output == old(self).output,
        decreases s, 3nat,
    {
        let ghost m = self.model();
        let level = self.indent_level;
        match s {
            Statement::FieldAssign { object, field, value, .. } => {
                push_tabs(out, level);
                push_go_ident(out, object.as_str());
                out.push('.');
                push_capitalized_ident(out, field.as_str());
                push_str(out, " = ");
                self.gen_expr(out, value);
                push_str(out, "\n");
            },
            Statement::IndexAssign { object, index, value, .. } => {
                push_tabs(out, level);
                self.gen_expr(out, object);
                push_str(out, "[");
                self.gen_expr(out, index);
                push_str(out, "] = ");
                self.gen_expr(out, value);
                push_str(out, "\n");
            },
            Statement::Return { value } => {
                if !self.in_main {
                    push_tabs(out, level);
                    push_str(out, "return ");
                    self.gen_expr(out, value);
                    push_str(out, "\n");
                }
            },
            Statement::Print { value } => {
                push_tabs(out, level);
                push_str(out, "fmt.Println(");
                self.gen_expr(out, value);
                push_str(out, ")\n");
            },
            Statement::Break => {
                push_tabs(out, level);
                push_str(out, "break\n");
            },
            Statement::Continue => {
                push_tabs(out, level);
                push_str(out, "continue\n");
            },
            Statement::Go { call } => {
                push_tabs(out, level);
                self.gen_prefixed(out, "go", call);
                push_str(out, "\n");
            },
            Statement::Defer { call } => {
                push_tabs(out, level);
                self.gen_prefixed(out, "defer", call);
                push_str(out, "\n");
            },
            Statement::ExpressionStatement(e) => {
                push_tabs(out, level);
                self.gen_stmt_expr(out, e);
                push_str(out, "\n");
            },
            _ => {},
        }
        assert(final(out)@ =~= old(out)@ + go_simple(m, *s).1);
    }

    fn gen_stmt_expr(&mut self, out: &mut Vec<char>, e: &Expression)
        ensures
            final(out)@ == old(out)@ + go_stmt_expr(old(self).model(), *e).1,
            final(self).model() == go_stmt_expr(old(self).model(), *e).0,
            final(self).needs == old(self).needs,
            final(self).output == old(self).output,
        decreases e, 3nat,
    {
        let ghost m = self.model();
        match e {
            Expression::MethodCall { object, method, .. } => {
                let chan = matches!(self.infer(object), Some(Type::Channel(_)));
                if chan && str_eq(method.as_str(), "send") {
                    self.gen_channel_send(out, e);
                } else if chan && str_eq(method.as_str(), "close") {
                    push_str(out, "close(");
                    self.gen_expr(out, object);
                    push_str(out, ")");
                    assert(final(out)@ =~= old(out)@ + go_stmt_expr(m, *e).1);
                } else {
                    self.gen_expr(out, e);
                }
            },
            _ => self.gen_expr(out, e),
        }
    }

    fn gen_prefixed(&mut self, out: &mut Vec<char>, prefix: &str, e: &Expression)
        ensures
            final(out)@ == old(out)@ + go_prefixed(old(self).model(), prefix@, *e).1,
            final(self).model() == go_prefixed(old(self).model(), prefix@, *e).0,
            final(self).needs == old(self).needs,
            final(self).output == old(self).output,
        decreases e, 3nat,
    {
        let ghost m = self.model();
        push_str(out, prefix);
        out.push(' ');
        match e {
            Expression::MethodCall { object, method, .. } => {
                let chan = matches!(self.infer(object), Some(Type::Channel(_)));
                if chan && str_eq(method.as_str(), "send") {
                    push_str(out, "func() { ");
                    self.gen_channel_send(out, e);
                    push_str(out, " }()");
                } else if chan && str_eq(method.as_str(), "close") {
                    push_str(out, "close(");
                    self.gen_expr(out, object);
                    push_str(out, ")");
                } else {
                    self.gen_expr(out, e);
                }
            },
            _ => self.gen_expr(out, e),
        }
        assert(final(out)@ =~= old(out)@ + go_prefixed(m, prefix@, *e).1);
    }
}

impl GoCodeGenerator {
    /// Branches and loops.
    #[verifier::rlimit(100)]
    #[verifier::spinoff_prover]
    fn gen_control(&mut self, out: &mut Vec<char>, s: &Statement)
        requires
            *s is If || *s is While,
        ensures
            final(out)@ == old(out)@ + go_branch(old(self).model(), *s).1,
            final(self).model() == go_branch(old(self).model(), *s).0,
            final(self).needs == old(self).needs,
            final(self).output == old(self).output,
        decreases s, 3nat,
    {
        let ghost m = self.model();
        let level = self.indent_level;
        match s {
            Statement::If { .. } => {
                push_tabs(out, level);
                self.gen_if(out, s);
                push_str(out, "\n");
                assert(final(out)@ =~= old(out)@ + go_branch(m, *s).1);
            },
            Statement::While { condition, body } => {
                push_tabs(out, level);
                push_str(out, "for ");
                self.gen_expr(out, condition);
                push_str(out, " ");
                self.gen_block(out, body);
                push_str(out, "\n");
                assert(final(out)@ =~= old(out)@ + go_branch(m, *s).1);
            },
            _ => {},
        }
    }

    #[verifier::rlimit(100)]
    #[verifier::spinoff_prover]
    fn gen_for_classic(&mut self, out: &mut Vec<char>, s: &Statement)
        requires
            *s is ForClassic,
        ensures
            final(out)@ == old(out)@ + go_loop(old(self).model(), *s).1,
            final(self).model() == go_loop(old(self).model(), *s).0,
            final(self).needs == old(self).needs,
            final(self).output == old(self).output,
        decreases s, 2nat,
    {
        let ghost m = self.model();
        let level = self.indent_level;
        match s {
            Statement::ForClassic { init, condition, post, body } => {
                let saved = self.save();
                let saved_main = self.in_main;
                push_tabs(out, level);
                push_str(out, "for ");
                let ghost o1 = out@;
                let ghost r1 = go_opt_component(m, *init);
                match init {
                    Some(st) => self.gen_component(out, st),
                    None => {},
                }
                assert(self.model() == r1.0);
                assert(out@ == o1 + r1.1);
                push_str(out, "; ");
                let ghost o2 = out@;
                let ghost r2 = go_opt_expr(r1.0, *condition);
                match condition {
                    Some(c) => self.gen_expr(out, c),
                    None => {},
                }
                assert(self.model() == r2.0);
                assert(out@ =~= o2 + r2.1);
                push_str(out, "; ");
                let ghost o3 = out@;
                let ghost r3 = go_opt_component(r2.0, *post);
                match post {
                    Some(st) => self.gen_component(out, st),
                    None => {},
                }
                assert(self.model() == r3.0);
                assert(out@ =~= o3 + r3.1);
                push_str(out, " ");
                self.gen_block(out, body);
                push_str(out, "\n");
                self.environment = saved.0;
                self.array_lengths = saved.1;
                self.in_main = saved_main;
                self.indent_level = level;
                assert(final(out)@ =~= old(out)@ + go_loop(m, *s).1);
            },
            _ => {},
        }
    }

    #[verifier::rlimit(100)]
    #[verifier::spinoff_prover]
    fn gen_for_in(&mut self, out: &mut Vec<char>, s: &Statement)
        requires
            *s is ForIn,
        ensures
            final(out)@ == old(out)@ + go_loop(old(self).model(), *s).1,
            final(self).model() == go_loop(old(self).model(), *s).0,
            final(self).needs == old(self).needs,
            final(self).output == old(self).output,
        decreases s, 2nat,
    {
        let ghost m = self.model();
        let level = self.indent_level;
        match s {
            Statement::ForIn { index, iterator, collection, body, .. } => {
                let saved = self.save();
                let saved_main = self.in_main;
                match self.infer(collection) {
                    Some(Type::Array(inner)) => self.env_insert(iterator, &inner),
                    _ => {},
                }
                match index {
                    Some(i) => self.env_insert(i, &Type::Kain),
                    None => {},
                }
                match collection {
                    Expression::Identifier(n) => match self.len_get(n.as_str()) {
                        Some(len) => self.len_insert(iterator, len),
                        None => {},
                    },
                    _ => {},
                }
                push_tabs(out, level);
                push_str(out, "for ");
                match index {
                    Some(i) => push_go_ident(out, i.as_str()),
                    None => push_str(out, "_"),
                }
                push_str(out, ", ");
                push_go_ident(out, iterator.as_str());
                push_str(out, " := range ");
                self.gen_expr(out, collection);
                push_str(out, " ");
                self.gen_block(out, body);
                push_str(out, "\n");
                self.environment = saved.0;
                self.array_lengths = saved.1;
                self.in_main = saved_main;
                self.indent_level = level;
                assert(final(out)@ =~= old(out)@ + go_loop(m, *s).1);
            },
            _ => {},
        }
    }

    fn gen_if(&mut self, out: &mut Vec<char>, s: &Statement)
        requires
            *s is If,
        ensures
            final(out)@ == old(out)@ + go_if(old(self).model(), *s).1,
            final(self).model() == go_if(old(self).model(), *s).0,
            final(self).needs == old(self).needs,
            final(self).output == old(self).output,
        decreases s, 2nat,
    {
        let ghost m = self.model();
        match s {
            Statement::If { condition, consequence, alternative } => {
                push_str(out, "if ");
                self.gen_expr(out, condition);
                push_str(out, " ");
                self.gen_block(out, consequence);
                match alternative {
                    Some(IfAlternative::Else(block)) => {
                        push_str(out, " else ");
                        self.gen_block(out, block);
                    },
                    Some(IfAlternative::ElseIf(inner)) => {
                        push_str(out, " else ");
                        self.gen_elif(out, inner);
                    },
                    None => {},
                }
                assert(final(out)@ =~= old(out)@ + go_if(m, *s).1);
            },
            _ => {},
        }
    }

    fn gen_elif(&mut self, out: &mut Vec<char>, s: &Statement)
        ensures
            final(out)@ == old(out)@ + go_elif(old(self).model(), *s).1,
            final(self).model() == go_elif(old(self).model(), *s).0,
            final(self).needs == old(self).needs,
            final(self).output == old(self).output,
        decreases s, 5nat,
    {
        match s {
            Statement::If { .. } => self.gen_if(out, s),
            _ => self.gen_stmt(out, s),
        }
    }

    /// The part of a classic for loop's header that a statement makes.
    #[verifier::rlimit(100)]
    #[verifier::spinoff_prover]
    fn gen_component(&mut self, out: &mut Vec<char>, s: &Statement)
        ensures
            final(out)@ == old(out)@ + go_component(old(self).model(), *s).1,
            final(self).model() == go_component(old(self).model(), *s).0,
            final(self).needs == old(self).needs,
            final(self).output == old(self).output,
        decreases s, 2nat,
    {
        let ghost m = self.model();
        match s {
            Statement::Let { name, value, ty, .. } => {
                self.env_insert(name, ty);
                match ty {
                    Type::Array(_) => match self.go_array_len_exec(value) {
                        Some(len) => self.len_insert(name, len),
                        None => {},
                    },
                    _ => {},
                }
                push_go_ident(out, name.as_str());
                push_str(out, " := ");
                self.gen_expr(out, value);
            },
            Statement::LetDestructured { names, value } => {
                let mut i: usize = 0;
                while i < names.len()
                    invariant
                        i <= names.len(),
                        self.model() == (GoModel { env: bind_params(m.env, names@.subrange(0, i as int)), ..m }),
                        self.needs == old(self).needs,
                        self.output == old(self).output,
                    decreases names.len() - i,
                {
                    assert(names@.subrange(0, i + 1).drop_last() =~= names@.subrange(0, i as int));
                    self.env_insert(&names[i].0, &names[i].1);
                    i = i + 1;
                }
                assert(names@.subrange(0, names.len() as int) =~= names@);
                let items = go_name_items(names);
                push_join(out, &items, ", ");
                push_str(out, " := ");
                self.gen_expr(out, value);
            },
            Statement::Assign { name, value, .. } => {
                push_go_ident(out, name.as_str());
                push_str(out, " = ");
                self.gen_expr(out, value);
            },
            Statement::FieldAssign { object, field, value, .. } => {
                push_go_ident(out, object.as_str());
                out.push('.');
                push_capitalized_ident(out, field.as_str());
                push_str(out, " = ");
                self.gen_expr(out, value);
            },
            Statement::IndexAssign { object, index, value, .. } => {
                self.gen_expr(out, object);
                push_str(out, "[");
                self.gen_expr(out, index);
                push_str(out, "] = ");
                self.gen_expr(out, value);
            },
            Statement::ExpressionStatement(e) => self.gen_stmt_expr(out, e),
            _ => {},
        }
        assert(final(out)@ =~= old(out)@ + go_component(m, *s).1);
    }
}

// ----------------------------------------------------------------------
// What a program needs

pub open spec fn baung_needs() -> GoNeeds {
    GoNeeds { baung_helper: true, context: true, time: true, ..no_needs() }
}

pub open spec fn http_needs() -> GoNeeds {
    GoNeeds { net_http: true, ..no_needs() }
}

pub open spec fn is_http_type_name(n: Seq<char>) -> bool {
    n == "http.Request"@ || n == "http.ResponseWriter"@ || n == "http.Response"@
}

/// What a type needs: the helper for contexts, or the HTTP package.
pub open spec fn type_needs(t: TypeModel) -> GoNeeds
    decreases t, 1nat,
{
    match t {
        TypeModel::Baung => baung_needs(),
        TypeModel::Array(inner) => type_needs(*inner),
        TypeModel::Channel(inner) => type_needs(*inner),
        TypeModel::Dict(k, v) => both(type_needs(*k), type_needs(*v)),
        TypeModel::Tuple(ts) => types_needs(ts),
        TypeModel::Function(ps, r) => both(types_needs(ps), type_needs(*r)),
        TypeModel::Struct(n) => if is_http_type_name(n) {
            http_needs()
        } else {
            no_needs()
        },
        TypeModel::Interface(n) => if is_http_type_name(n) {
            http_needs()
        } else {
            no_needs()
        },
        _ => no_needs(),
    }
}

pub open spec fn types_needs(ts: Seq<TypeModel>) -> GoNeeds
    decreases ts, 0nat,
{
    if ts.len() == 0 {
        no_needs()
    } else {
        both(types_needs(ts.drop_last()), type_needs(ts.last()))
    }
}

/// What an expression needs.
pub open spec fn expr_needs(e: Expression) -> GoNeeds
    decreases e, 1nat,
{
    match e {
        Expression::ReadInput { .. } => GoNeeds { read_input: true, ..no_needs() },
        Expression::TypeConversion { target_type, argument } => both(
            both(
                type_needs(target_type.model()),
                if target_type is Kain || target_type is Sar || target_type is DaTha {
                    GoNeeds { strconv: true, ..no_needs() }
                } else {
                    no_needs()
                },
            ),
            expr_needs(*argument),
        ),
        Expression::MethodCall { object, method, arguments } => both(
            both(
                expr_needs(*object),
                GoNeeds {
                    strings: method@ == "khwae"@ || method@ == "swal"@,
                    gojson: method@ == "json"@,
                    net_http: is_ident(*object, "http"@),
                    ..no_needs()
                },
            ),
            exprs_needs(arguments@),
        ),
        Expression::ErrorCreate { message } => both(GoNeeds { errors: true, ..no_needs() }, expr_needs(*message)),
        Expression::Binary { left, right, .. } => both(expr_needs(*left), expr_needs(*right)),
        Expression::FunctionCall { arguments, .. } => exprs_needs(arguments@),
        Expression::ArrayLiteral { elements } => exprs_needs(elements@),
        Expression::HashLiteral { pairs } => pairs_needs(pairs@),
        Expression::IndexExpression { left, index } => both(expr_needs(*left), expr_needs(*index)),
        Expression::SliceExpression { left, low, high } => both(
            both(expr_needs(*left), opt_needs(low)),
            opt_needs(high),
        ),
        Expression::FieldAccess { object, .. } => expr_needs(*object),
        Expression::StructLiteral { fields, .. } => fields_needs(fields@),
        Expression::ClosureLiteral { parameters, return_type, body } => both(
            both(types_needs(param_types(parameters@)), type_needs(return_type.model())),
            stmts_needs(body.statements@),
        ),
        Expression::TupleLiteral { elements } => exprs_needs(elements@),
        Expression::ChannelMake { value_type, capacity } => both(type_needs(value_type.model()), opt_needs(capacity)),
        Expression::BaungCreate { timeout_ms } => both(baung_needs(), expr_needs(*timeout_ms)),
        _ => no_needs(),
    }
}

pub open spec fn exprs_needs(es: Seq<Expression>) -> GoNeeds
    decreases es, 0nat,
{
    if es.len() == 0 {
        no_needs()
    } else {
        both(exprs_needs(es.drop_last()), expr_needs(es.last()))
    }
}

pub open spec fn pairs_needs(ps: Seq<(Expression, Expression)>) -> GoNeeds
    decreases ps, 0nat,
{
    if ps.len() == 0 {
        no_needs()
    } else {
        both(both(pairs_needs(ps.drop_last()), expr_needs(ps.last().0)), expr_needs(ps.last().1))
    }
}

pub open spec fn fields_needs(fs: Seq<(String, Expression)>) -> GoNeeds
    decreases fs, 0nat,
{
    if fs.len() == 0 {
        no_needs()
    } else {
        both(fields_needs(fs.drop_last()), expr_needs(fs.last().1))
    }
}

pub open spec fn opt_needs(o: Option<Box<Expression>>) -> GoNeeds
    decreases o, 0nat,
{
    match o {
        Some(x) => expr_needs(*x),
        None => no_needs(),
    }
}

pub open spec fn decl_types_needs(fs: Seq<(String, Type)>) -> GoNeeds
    decreases fs.len(),
{
    if fs.len() == 0 {
        no_needs()
    } else {
        both(decl_types_needs(fs.drop_last()), type_needs(fs.last().1.model()))
    }
}

pub open spec fn methods_needs(ms: Seq<(String, Vec<(String, Type)>, Type)>) -> GoNeeds
    decreases ms.len(),
{
    if ms.len() == 0 {
        no_needs()
    } else {
        both(both(methods_needs(ms.drop_last()), decl_types_needs(ms.last().1@)), type_needs(ms.last().2.model()))
    }
}

/// What a statement needs.
pub open spec fn stmt_needs(s: Statement) -> GoNeeds
    decreases s, 1nat,
{
    match s {
        Statement::Let { value, ty, .. } => both(type_needs(ty.model()), expr_needs(value)),
        Statement::LetDestructured { names, value } => both(types_needs(param_types(names@)), expr_needs(value)),
        Statement::Assign { value, .. } => expr_needs(value),
        Statement::FieldAssign { value, .. } => expr_needs(value),
        Statement::IndexAssign { object, index, value, .. } => both(
            both(expr_needs(object), expr_needs(index)),
            expr_needs(value),
        ),
        Statement::Print { value } => expr_needs(value),
        Statement::Return { value } => expr_needs(value),
        Statement::If { condition, consequence, alternative } => both(
            both(expr_needs(condition), stmts_needs(consequence.statements@)),
            match alternative {
                Some(IfAlternative::Else(b)) => stmts_needs(b.statements@),
                Some(IfAlternative::ElseIf(inner)) => stmt_needs(*inner),
                None => no_needs(),
            },
        ),
        Statement::While { condition, body } => both(expr_needs(condition), stmts_needs(body.statements@)),
        Statement::Go { call } => expr_needs(call),
        Statement::Defer { call } => expr_needs(call),
        Statement::TestDecl { body, .. } => stmts_needs(body.statements@),
        Statement::ForIn { collection, body, .. } => both(expr_needs(collection), stmts_needs(body.statements@)),
        Statement::ForClassic { init, condition, post, body } => both(
            both(
                both(
                    match init {
                        Some(st) => stmt_needs(*st),
                        None => no_needs(),
                    },
                    match condition {
                        Some(c) => expr_needs(c),
                        None => no_needs(),
                    },
                ),
                match post {
                    Some(st) => stmt_needs(*st),
                    None => no_needs(),
                },
            ),
            stmts_needs(body.statements@),
        ),
        Statement::FunctionDecl { parameters, return_type, body, .. } => both(
            both(types_needs(param_types(parameters@)), type_needs(return_type.model())),
            stmts_needs(body.statements@),
        ),
        Statement::MethodDecl { parameters, return_type, body, .. } => both(
            both(types_needs(param_types(parameters@)), type_needs(return_type.model())),
            stmts_needs(body.statements@),
        ),
        Statement::ExpressionStatement(e) => expr_needs(e),
        Statement::Import { module, .. } => if trim_quotes(module@) == "kainn/http"@ {
            http_needs()
        } else {
            no_needs()
        },
        Statement::StructDecl { fields, .. } => decl_types_needs(fields@),
        Statement::InterfaceDecl { methods, .. } => methods_needs(methods@),
        Statement::Export { statement, .. } => stmt_needs(*statement),
        _ => no_needs(),
    }
}

pub open spec fn stmts_needs(ss: Seq<Statement>) -> GoNeeds
    decreases ss, 0nat,
{
    if ss.len() == 0 {
        no_needs()
    } else {
        both(stmts_needs(ss.drop_last()), stmt_needs(ss.last()))
    }
}

impl GoCodeGenerator {
    fn add_needs(&mut self, n: GoNeeds)
        ensures
            final(self).needs == both(old(self).needs, n),
            final(self).model() == old(self).model(),
            final(self).output == old(self).output,
    {
        self.needs = GoNeeds {
            read_input: self.needs.read_input || n.read_input,
            strconv: self.needs.strconv || n.strconv,
            strings: self.needs.strings || n.strings,
            errors: self.needs.errors || n.errors,
            context: self.needs.context || n.context,
            time: self.needs.time || n.time,
            baung_helper: self.needs.baung_helper || n.baung_helper,
            net_http: self.needs.net_http || n.net_http,
            gojson: self.needs.gojson || n.gojson,
        };
    }

    fn scan_type(&mut self, t: &Type)
        ensures
            final(self).needs == both(old(self).needs, type_needs(t.model())),
            final(self).model() == old(self).model(),
            final(self).output == old(self).output,
        decreases t, 1nat,
    {
        match t {
            Type::Baung => self.add_needs(
                GoNeeds {
                    read_input: false,
                    strconv: false,
                    strings: false,
                    errors: false,
                    context: true,
                    time: true,
                    baung_helper: true,
                    net_http: false,
                    gojson: false,
                },
            ),
            Type::Array(inner) => self.scan_type(inner),
            Type::Channel(inner) => self.scan_type(inner),
            Type::HashMap(k, v) => {
                self.scan_type(k);
                self.scan_type(v);
            },
            Type::Tuple(ts) => self.scan_types(ts),
            Type::Function { params, return_type } => {
                self.scan_types(params);
                self.scan_type(return_type);
            },
            Type::Struct(n) | Type::Interface(n) => {
                if str_eq(n.as_str(), "http.Request") || str_eq(n.as_str(), "http.ResponseWriter") || str_eq(
                    n.as_str(),
                    "http.Response",
                ) {
                    self.add_needs(
                        GoNeeds {
                            read_input: false,
                            strconv: false,
                            strings: false,
                            errors: false,
                            context: false,
                            time: false,
                            baung_helper: false,
                            net_http: true,
                            gojson: false,
                        },
                    );
                }
            },
            _ => {},
        }
    }

    #[verifier::rlimit(100)]
    #[verifier::spinoff_prover]
    fn scan_types(&mut self, ts: &Vec<Type>)
        ensures
            final(self).needs == both(old(self).needs, types_needs(models_of(ts@))),
            final(self).model() == old(self).model(),
            final(self).output == old(self).output,
        decreases ts@, 0nat,
    {
        let mut i: usize = 0;
        proof {
            crate::ast::lemma_models_of(ts@);
        }
        while i < ts.len()
            invariant
                i <= ts.len(),
                models_of(ts@).len() == ts.len(),
                forall|k: int| 0 <= k < ts.len() ==> #[trigger] models_of(ts@)[k] == ts@[k].model(),
                self.needs == both(old(self).needs, types_needs(models_of(ts@).subrange(0, i as int))),
                self.model() == old(self).model(),
                self.output == old(self).output,
            decreases ts.len() - i,
        {
            let ghost ms = models_of(ts@);
            assert(ms.subrange(0, i + 1).drop_last() =~= ms.subrange(0, i as int));
            self.scan_type(&ts[i]);
            i = i + 1;
        }
        assert(models_of(ts@).subrange(0, ts.len() as int) =~= models_of(ts@));
    }

    #[verifier::rlimit(100)]
    #[verifier::spinoff_prover]
    fn scan_param_types(&mut self, ps: &Vec<(String, Type, Span)>)
        ensures
            final(self).needs == both(old(self).needs, types_needs(param_types(ps@))),
            final(self).model() == old(self).model(),
            final(self).output == old(self).output,
    {
        let mut i: usize = 0;
        while i < ps.len()
            invariant
                i <= ps.len(),
                self.needs == both(old(self).needs, types_needs(param_types(ps@).subrange(0, i as int))),
                self.model() == old(self).model(),
                self.output == old(self).output,
            decreases ps.len() - i,
        {
            let ghost ms = param_types(ps@);
            assert(ms.subrange(0, i + 1).drop_last() =~= ms.subrange(0, i as int));
            self.scan_type(&ps[i].1);
            i = i + 1;
        }
        assert(param_types(ps@).subrange(0, ps.len() as int) =~= param_types(ps@));
    }

    #[verifier::spinoff_prover]
    fn scan_decl_types(&mut self, fs: &Vec<(String, Type)>)
        ensures
            final(self).needs == both(old(self).needs, decl_types_needs(fs@)),
            final(self).model() == old(self).model(),
            final(self).output == old(self).output,
    {
        let mut i: usize = 0;
        while i < fs.len()
            invariant
                i <= fs.len(),
                self.needs == both(old(self).needs, decl_types_needs(fs@.subrange(0, i as int))),
                self.model() == old(self).model(),
                self.output == old(self).output,
            decreases fs.len() - i,
        {
            assert(fs@.subrange(0, i + 1).drop_last() =~= fs@.subrange(0, i as int));
            self.scan_type(&fs[i].1);
            i = i + 1;
        }
        assert(fs@.subrange(0, fs.len() as int) =~= fs@);
    }

    #[verifier::spinoff_prover]
    fn scan_methods(&mut self, ms: &Vec<(String, Vec<(String, Type)>, Type)>)
        ensures
            final(self).needs == both(old(self).needs, methods_needs(ms@)),
            final(self).model() == old(self).model(),
            final(self).output == old(self).output,
    {
        let mut i: usize = 0;
        while i < ms.len()
            invariant
                i <= ms.len(),
                self.needs == both(old(self).needs, methods_needs(ms@.subrange(0, i as int))),
                self.model() == old(self).model(),
                self.output == old(self).output,
            decreases ms.len() - i,
        {
            assert(ms@.subrange(0, i + 1).drop_last() =~= ms@.subrange(0, i as int));
            self.scan_decl_types(&ms[i].1);
            self.scan_type(&ms[i].2);
            i = i + 1;
        }
        assert(ms@.subrange(0, ms.len() as int) =~= ms@);
    }

    #[verifier::rlimit(100)]
    #[verifier::spinoff_prover]
    fn scan_expr(&mut self, e: &Expression)
        ensures
            final(self).needs == both(old(self).needs, expr_needs(*e)),
            final(self).model() == old(self).model(),
            final(self).output == old(self).output,
        decreases e, 1nat,
    {
        match e {
            Expression::ReadInput { .. } => {
                self.add_needs(
                    GoNeeds {
                        read_input: true,
                        strconv: false,
                        strings: false,
                        errors: false,
                        context: false,
                        time: false,
                        baung_helper: false,
                        net_http: false,
                        gojson: false,
                    },
                );
                assert(self.needs == both(old(self).needs, expr_needs(*e)));
            },
            Expression::TypeConversion { target_type, argument } => {
                self.scan_type(target_type);
                let conv = match target_type {
                    Type::Kain | Type::Sar | Type::DaTha => true,
                    _ => false,
                };
                self.add_needs(
                    GoNeeds {
                        read_input: false,
                        strconv: conv,
                        strings: false,
                        errors: false,
                        context: false,
                        time: false,
                        baung_helper: false,
                        net_http: false,
                        gojson: false,
                    },
                );
                self.scan_expr(argument);
                assert(self.needs == both(old(self).needs, expr_needs(*e)));
            },
            Expression::MethodCall { object, method, arguments } => {
                self.scan_expr(object);
                let m = method.as_str();
                let http = match &**object {
                    Expression::Identifier(n) => str_eq(n.as_str(), "http"),
                    _ => false,
                };
                self.add_needs(
                    GoNeeds {
                        read_input: false,
                        strconv: false,
                        strings: str_eq(m, "khwae") || str_eq(m, "swal"),
                        errors: false,
                        context: false,
                        time: false,
                        baung_helper: false,
                        net_http: http,
                        gojson: str_eq(m, "json"),
                    },
                );
                self.scan_exprs(arguments);
                assert(self.needs == both(old(self).needs, expr_needs(*e)));
            },
            Expression::ErrorCreate { message } => {
                self.add_needs(
                    GoNeeds {
                        read_input: false,
                        strconv: false,
                        strings: false,
                        errors: true,
                        context: false,
                        time: false,
                        baung_helper: false,
                        net_http: false,
                        gojson: false,
                    },
                );
                self.scan_expr(message);
                assert(self.needs == both(old(self).needs, expr_needs(*e)));
            },
            Expression::Binary { left, right, .. } => {
                self.scan_expr(left);
                self.scan_expr(right);
                assert(self.needs == both(old(self).needs, expr_needs(*e)));
            },
            Expression::FunctionCall { arguments, .. } => {
                self.scan_exprs(arguments);
                assert(self.needs == both(old(self).needs, expr_needs(*e)));
            },
            Expression::ArrayLiteral { elements } => {
                self.scan_exprs(elements);
                assert(self.needs == both(old(self).needs, expr_needs(*e)));
            },
            Expression::TupleLiteral { elements } => {
                self.scan_exprs(elements);
                assert(self.needs == both(old(self).needs, expr_needs(*e)));
            },
            Expression::HashLiteral { pairs } => {
                self.scan_pairs(pairs);
                assert(self.needs == both(old(self).needs, expr_needs(*e)));
            },
            Expression::IndexExpression { left, index } => {
                self.scan_expr(left);
                self.scan_expr(index);
                assert(self.needs == both(old(self).needs, expr_needs(*e)));
            },
            Expression::SliceExpression { left, low, high } => {
                self.scan_expr(left);
                self.scan_opt(low);
                self.scan_opt(high);
                assert(self.needs == both(old(self).needs, expr_needs(*e)));
            },
            Expression::FieldAccess { object, .. } => {
                self.scan_expr(object);
                assert(self.needs == both(old(self).needs, expr_needs(*e)));
            },
            Expression::StructLiteral { fields, .. } => {
                self.scan_named(fields);
                assert(self.needs == both(old(self).needs, expr_needs(*e)));
            },
            Expression::ClosureLiteral { parameters, return_type, body } => {
                self.scan_param_types(parameters);
                self.scan_type(return_type);
                self.scan_stmts(&body.statements);
                assert(self.needs == both(old(self).needs, expr_needs(*e)));
            },
            Expression::ChannelMake { value_type, capacity } => {
                self.scan_type(value_type);
                self.scan_opt(capacity);
                assert(self.needs == both(old(self).needs, expr_needs(*e)));
            },
            Expression::BaungCreate { timeout_ms } => {
                self.add_needs(
                    GoNeeds {
                        read_input: false,
                        strconv: false,
                        strings: false,
                        errors: false,
                        context: true,
                        time: true,
                        baung_helper: true,
                        net_http: false,
                        gojson: false,
                    },
                );
                self.scan_expr(timeout_ms);
                assert(self.needs == both(old(self).needs, expr_needs(*e)));
            },
            _ => {
                proof {
                    lemma_both_none(old(self).needs);
                }
                assert(self.needs == both(old(self).needs, expr_needs(*e)));
            },
        }
    }

    #[verifier::rlimit(100)]
    #[verifier::spinoff_prover]
    fn scan_opt(&mut self, o: &Option<Box<Expression>>)
        ensures
            final(self).needs == both(old(self).needs, opt_needs(*o)),
            final(self).model() == old(self).model(),
            final(self).output == old(self).output,
        decreases o, 0nat,
    {
        match o {
            Some(x) => self.scan_expr(x),
            None => {
                proof {
                    lemma_both_none(self.needs);
                }
            },
        }
    }

    #[verifier::rlimit(100)]
    #[verifier::spinoff_prover]
    fn scan_pairs(&mut self, pairs: &Vec<(Expression, Expression)>)
        ensures
            final(self).needs == both(old(self).needs, pairs_needs(pairs@)),
            final(self).model() == old(self).model(),
            final(self).output == old(self).output,
        decreases pairs@, 0nat,
    {
        let mut i: usize = 0;
        while i < pairs.len()
            invariant
                i <= pairs.len(),
                self.needs == both(old(self).needs, pairs_needs(pairs@.subrange(0, i as int))),
                self.model() == old(self).model(),
                self.output == old(self).output,
            decreases pairs.len() - i,
        {
            assert(pairs@.subrange(0, i + 1).drop_last() =~= pairs@.subrange(0, i as int));
            self.scan_expr(&pairs[i].0);
            self.scan_expr(&pairs[i].1);
            i = i + 1;
        }
        assert(pairs@.subrange(0, pairs.len() as int) =~= pairs@);
    }

    #[verifier::rlimit(100)]
    #[verifier::spinoff_prover]
    fn scan_named(&mut self, fields: &Vec<(String, Expression)>)
        ensures
            final(self).needs == both(old(self).needs, fields_needs(fields@)),
            final(self).model() == old(self).model(),
            final(self).output == old(self).output,
        decreases fields@, 0nat,
    {
        let mut i: usize = 0;
        while i < fields.len()
            invariant
                i <= fields.len(),
                self.needs == both(old(self).needs, fields_needs(fields@.subrange(0, i as int))),
                self.model() == old(self).model(),
                self.output == old(self).output,
            decreases fields.len() - i,
        {
            assert(fields@.subrange(0, i + 1).drop_last() =~= fields@.subrange(0, i as int));
            self.scan_expr(&fields[i].1);
            i = i + 1;
        }
        assert(fields@.subrange(0, fields.len() as int) =~= fields@);
    }

    #[verifier::rlimit(100)]
    #[verifier::spinoff_prover]
    fn scan_exprs(&mut self, es: &Vec<Expression>)
        ensures
            final(self).needs == both(old(self).needs, exprs_needs(es@)),
            final(self).model() == old(self).model(),
            final(self).output == old(self).output,
        decreases es@, 0nat,
    {
        let mut i: usize = 0;
        while i < es.len()
            invariant
                i <= es.len(),
                self.needs == both(old(self).needs, exprs_needs(es@.subrange(0, i as int))),
                self.model() == old(self).model(),
                self.output == old(self).output,
            decreases es.len() - i,
        {
            assert(es@.subrange(0, i + 1).drop_last() =~= es@.subrange(0, i as int));
            self.scan_expr(&es[i]);
            i = i + 1;
        }
        assert(es@.subrange(0, es.len() as int) =~= es@);
    }

    #[verifier::rlimit(100)]
    #[verifier::spinoff_prover]
    fn scan_stmt(&mut self, s: &Statement)
        ensures
            final(self).needs == both(old(self).needs, stmt_needs(*s)),
            final(self).model() == old(self).model(),
            final(self).output == old(self).output,
        decreases s, 1nat,
    {
        match s {
            Statement::Let { value, ty, .. } => {
                self.scan_type(ty);
                self.scan_expr(value);
            },
            Statement::LetDestructured { names, value } => {
                self.scan_param_types(names);
                self.scan_expr(value);
            },
            Statement::Assign { value, .. } | Statement::FieldAssign { value, .. } | Statement::Print { value } | Statement::Return { value } => self.scan_expr(value),
            Statement::IndexAssign { object, index, value, .. } => {
                self.scan_expr(object);
                self.scan_expr(index);
                self.scan_expr(value);
            },
            Statement::If { condition, consequence, alternative } => {
                self.scan_expr(condition);
                self.scan_stmts(&consequence.statements);
                match alternative {
                    Some(IfAlternative::Else(b)) => self.scan_stmts(&b.statements),
                    Some(IfAlternative::ElseIf(inner)) => self.scan_stmt(inner),
                    None => {},
                }
            },
            Statement::While { condition, body } => {
                self.scan_expr(condition);
                self.scan_stmts(&body.statements);
            },
            Statement::Go { call } | Statement::Defer { call } => self.scan_expr(call),
            Statement::TestDecl { body, .. } => self.scan_stmts(&body.statements),
            Statement::ForIn { collection, body, .. } => {
                self.scan_expr(collection);
                self.scan_stmts(&body.statements);
            },
            Statement::ForClassic { init, condition, post, body } => {
                match init {
                    Some(st) => self.scan_stmt(st),
                    None => {},
                }
                match condition {
                    Some(c) => self.scan_expr(c),
                    None => {},
                }
                match post {
                    Some(st) => self.scan_stmt(st),
                    None => {},
                }
                self.scan_stmts(&body.statements);
            },
            Statement::FunctionDecl { parameters, return_type, body, .. } | Statement::MethodDecl {
                parameters,
                return_type,
                body,
                ..
            } => {
                self.scan_param_types(parameters);
                self.scan_type(return_type);
                self.scan_stmts(&body.statements);
            },
            Statement::ExpressionStatement(e) => self.scan_expr(e),
            Statement::Import { module, .. } => {
                let t = crate::text::trim_quotes_exec(module.as_str());
                if crate::text::chars_are(&t, "kainn/http") {
                    self.add_needs(
                        GoNeeds {
                            read_input: false,
                            strconv: false,
                            strings: false,
                            errors: false,
                            context: false,
                            time: false,
                            baung_helper: false,
                            net_http: true,
                            gojson: false,
                        },
                    );
                }
            },
            Statement::StructDecl { fields, .. } => self.scan_decl_types(fields),
            Statement::InterfaceDecl { methods, .. } => self.scan_methods(methods),
            Statement::Export { statement, .. } => self.scan_stmt(statement),
            _ => {},
        }
    }

    #[verifier::rlimit(100)]
    #[verifier::spinoff_prover]
    fn scan_stmts(&mut self, ss: &Vec<Statement>)
        ensures
            final(self).needs == both(old(self).needs, stmts_needs(ss@)),
            final(self).model() == old(self).model(),
            final(self).output == old(self).output,
        decreases ss@, 0nat,
    {
        let mut i: usize = 0;
        while i < ss.len()
            invariant
                i <= ss.len(),
                self.needs == both(old(self).needs, stmts_needs(ss@.subrange(0, i as int))),
                self.model() == old(self).model(),
                self.output == old(self).output,
            decreases ss.len() - i,
        {
            assert(ss@.subrange(0, i + 1).drop_last() =~= ss@.subrange(0, i as int));
            self.scan_stmt(&ss[i]);
            i = i + 1;
        }
        assert(ss@.subrange(0, ss.len() as int) =~= ss@);
    }
}

proof fn lemma_both_none(a: GoNeeds)
    ensures
        both(a, no_needs()) == a,
{
}

// ----------------------------------------------------------------------
// The program

/// An import line, when the import is needed.
pub open spec fn import_line(present: bool, name: Seq<char>) -> Seq<char> {
    if present {
        seq!['\t'] + name + seq!['\n']
    } else {
        Seq::empty()
    }
}

/// The imports, in sorted order; `fmt` always.
pub open spec fn go_imports(n: GoNeeds) -> Seq<char> {
    "import (\n"@ + imports_first(n) + imports_rest(n) + ")\n\n"@
}

pub open spec fn imports_first(n: GoNeeds) -> Seq<char> {
    import_line(n.read_input, "\"bufio\""@) + import_line(n.context, "\"context\""@) + import_line(
        n.errors,
        "\"errors\""@,
    ) + import_line(true, "\"fmt\""@) + import_line(n.net_http, "\"net/http\""@)
}

pub open spec fn imports_rest(n: GoNeeds) -> Seq<char> {
    import_line(n.read_input, "\"os\""@) + import_line(n.strconv, "\"strconv\""@) + import_line(
        n.strings,
        "\"strings\""@,
    ) + import_line(n.time, "\"time\""@) + import_line(n.gojson, "gojson \"encoding/json\""@)
}

/// The context type that `baung` stands for.
pub open spec fn baung_helper_text() -> Seq<char> {
    "type mlangBaung struct {\n"@ + "\tctx context.Context\n"@ + "\tcancel context.CancelFunc\n"@ + "}\n\n"@ + "func mlangNewBaung(timeoutMs int64) mlangBaung {\n"@ + "\tctx, cancel := context.WithTimeout(context.Background(), time.Duration(timeoutMs)*time.Millisecond)\n"@ + "\treturn mlangBaung{ctx: ctx, cancel: cancel}\n"@ + "}\n\n"@ + "func (b mlangBaung) Close() error {\n"@ + "\tif b.cancel != nil {\n"@ + "\t\tb.cancel()\n"@ + "\t}\n"@ + "\treturn nil\n"@ + "}\n\n"@
}

/// The helper that reads a line of input.
pub open spec fn read_input_helper_text() -> Seq<char> {
    "func mlangReadInput(prompt string) string {\n"@ + "\tif prompt != \"\" {\n"@ + "\t\tfmt.Print(prompt)\n"@ + "\t}\n"@ + "\tscanner := bufio.NewScanner(os.Stdin)\n"@ + "\tscanner.Scan()\n"@ + "\treturn scanner.Text()\n"@ + "}\n\n"@
}

/// The start of every generated program: the package, the imports and the
/// helpers it needs.
pub open spec fn go_header(n: GoNeeds) -> Seq<char> {
    "package main\n\n"@ + go_imports(n) + (if n.baung_helper {
        baung_helper_text()
    } else {
        Seq::empty()
    }) + (if n.read_input {
        read_input_helper_text()
    } else {
        Seq::empty()
    })
}

fn push_import(out: &mut Vec<char>, name: &str)
    ensures
        final(out)@ == old(out)@ + import_line(true, name@),
{
    out.push('\t');
    push_str(out, name);
    out.push('\n');
    assert(final(out)@ =~= old(out)@ + import_line(true, name@));
}

fn push_import_if(out: &mut Vec<char>, present: bool, name: &str)
    ensures
        final(out)@ == old(out)@ + import_line(present, name@),
{
    if present {
        push_import(out, name);
    } else {
        assert(out@ =~= old(out)@ + import_line(present, name@));
    }
}

fn push_imports(out: &mut Vec<char>, n: GoNeeds)
    ensures
        final(out)@ == old(out)@ + go_imports(n),
{
    push_str(out, "import (\n");
    push_imports_first(out, n);
    push_imports_rest(out, n);
    push_str(out, ")\n\n");
    assert(final(out)@ =~= old(out)@ + go_imports(n));
}

fn push_imports_first(out: &mut Vec<char>, n: GoNeeds)
    ensures
        final(out)@ == old(out)@ + imports_first(n),
{
    push_import_if(out, n.read_input, "\"bufio\"");
    push_import_if(out, n.context, "\"context\"");
    push_import_if(out, n.errors, "\"errors\"");
    push_import_if(out, true, "\"fmt\"");
    push_import_if(out, n.net_http, "\"net/http\"");
    assert(final(out)@ =~= old(out)@ + imports_first(n));
}

fn push_imports_rest(out: &mut Vec<char>, n: GoNeeds)
    ensures
        final(out)@ == old(out)@ + imports_rest(n),
{
    push_import_if(out, n.read_input, "\"os\"");
    push_import_if(out, n.strconv, "\"strconv\"");
    push_import_if(out, n.strings, "\"strings\"");
    push_import_if(out, n.time, "\"time\"");
    push_import_if(out, n.gojson, "gojson \"encoding/json\"");
    assert(final(out)@ =~= old(out)@ + imports_rest(n));
}

fn push_baung_helper(out: &mut Vec<char>)
    ensures
        final(out)@ == old(out)@ + baung_helper_text(),
{
    push_str(out, "type mlangBaung struct {\n");
    push_str(out, "\tctx context.Context\n");
    push_str(out, "\tcancel context.CancelFunc\n");
    push_str(out, "}\n\n");
    push_str(out, "func mlangNewBaung(timeoutMs int64) mlangBaung {\n");
    push_str(out, "\tctx, cancel := context.WithTimeout(context.Background(), time.Duration(timeoutMs)*time.Millisecond)\n");
    push_str(out, "\treturn mlangBaung{ctx: ctx, cancel: cancel}\n");
    push_str(out, "}\n\n");
    push_str(out, "func (b mlangBaung) Close() error {\n");
    push_str(out, "\tif b.cancel != nil {\n");
    push_str(out, "\t\tb.cancel()\n");
    push_str(out, "\t}\n");
    push_str(out, "\treturn nil\n");
    push_str(out, "}\n\n");
    assert(final(out)@ =~= old(out)@ + baung_helper_text());
}

fn push_read_input_helper(out: &mut Vec<char>)
    ensures
        final(out)@ == old(out)@ + read_input_helper_text(),
{
    push_str(out, "func mlangReadInput(prompt string) string {\n");
    push_str(out, "\tif prompt != \"\" {\n");
    push_str(out, "\t\tfmt.Print(prompt)\n");
    push_str(out, "\t}\n");
    push_str(out, "\tscanner := bufio.NewScanner(os.Stdin)\n");
    push_str(out, "\tscanner.Scan()\n");
    push_str(out, "\treturn scanner.Text()\n");
    push_str(out, "}\n\n");
    assert(final(out)@ =~= old(out)@ + read_input_helper_text());
}

impl GoCodeGenerator {
    /// The Go program for `program`, after the text generated so far: the
    /// package, the imports and helpers that this and earlier programs
    /// need, and the statements.
    #[verifier::rlimit(100)]
    #[verifier::spinoff_prover]
    pub fn generate(&mut self, program: &Program) -> (r: String)
        ensures
            final(self).needs() == both(old(self).needs(), stmts_needs(program.statements@)),
            r@ == old(self).text() + go_header(final(self).needs()) + go_stmts(
                old(self).model(),
                program.statements@,
            ).1,
            final(self).text() == r@,
            final(self).model() == go_stmts(old(self).model(), program.statements@).0,
    {
        let ghost m = self.model();
        self.scan_stmts(&program.statements);
        let mut buf = chars_of(self.output.as_str());
        push_str(&mut buf, "package main\n\n");
        push_imports(&mut buf, self.needs);
        if self.needs.baung_helper {
            push_baung_helper(&mut buf);
        }
        if self.needs.read_input {
            push_read_input_helper(&mut buf);
        }
        let ghost head = buf@;
        assert(head =~= old(self).output@ + go_header(self.needs));
        self.gen_stmts(&mut buf, &program.statements);
        self.output = string_of(buf.as_slice());
        assert(buf@ =~= old(self).output@ + go_header(self.needs) + go_stmts(m, program.statements@).1);
        self.output.clone()
    }
}

/// The test runner calls, for each test, the very function that the Go
/// generator declares for that test: both are named `go_test_name_text` of
/// the test's name.
pub proof fn law_runner_calls_generated_tests(
    m: GoModel,
    name: String,
    body: BlockStatement,
    span: Span,
    names: Seq<Seq<char>>,
    quoted: Seq<Seq<char>>,
)
    requires
        names.len() > 0,
        names.last() == name@,
    ensures
        go_stmt(m, Statement::TestDecl { name, body, name_span: span }).1 == tabs(m.indent as nat) + "func "@
            + go_test_name_text(name@) + "() error "@ + go_block(m, body).1 + "\n\n"@,
        crate::cli::runner_cases(names, quoted) == crate::cli::runner_cases(names.drop_last(), quoted)
            + "\t\t{name: "@ + quoted[names.len() - 1] + ", run: "@ + go_test_name_text(name@) + "},\n"@,
{
    let s = Statement::TestDecl { name, body, name_span: span };
    assert(go_stmt(m, s) == go_callable(m, s));
}

} // verus!
