//! The loop depth of the type checker: checking a statement leaves it as
//! it was.
use vstd::prelude::*;

use crate::ast::{BlockStatement, Expression, IfAlternative, Span, Statement, Type, TypeModel};
use crate::render::nat_digits;
use crate::typecheck::{
    scopes_lookup, assignable, bind_params, find_field, fn_symbol, opt_type_debug, param_types, scopes_set, type_debug,
    var_symbol, with_error,
    tc_alt, tc_array, tc_array_rest, tc_binary, tc_block, tc_block_item, tc_call, tc_call_args,
    tc_destructure, tc_expr, tc_field_access, tc_field_assign, tc_hash, tc_hash_rest, tc_index,
    tc_index_assign, tc_method_args, tc_method_call, tc_method_on, tc_method_struct, tc_opt_stmt,
    tc_slice, tc_slice_bound, tc_stmt, tc_stmts, tc_struct_fields, tc_struct_literal, tc_tuple_items,
    SymbolModel, TcModel,
};

verus! {

// ----------------------------------------------------------------------
// The loop depth after checking

proof fn lemma_depth_expr(e: Expression)
    ensures
        forall|st: TcModel, env: Seq<Map<Seq<char>, SymbolModel>>| #![trigger tc_expr(st, env, e)] tc_expr(st, env, e).0.loop_depth
            == st.loop_depth,
    decreases e, 3nat,
{
    match e {
        Expression::ArrayLiteral { .. } => {
            lemma_depth_array(e);
            assert forall|st: TcModel, env: Seq<Map<Seq<char>, SymbolModel>>| #![trigger tc_expr(st, env, e)]
                tc_expr(st, env, e).0.loop_depth == st.loop_depth by {
                assert(tc_array(st, env, e).0.loop_depth == st.loop_depth);
            }
        },
        Expression::HashLiteral { .. } => {
            lemma_depth_hash(e);
            assert forall|st: TcModel, env: Seq<Map<Seq<char>, SymbolModel>>| #![trigger tc_expr(st, env, e)]
                tc_expr(st, env, e).0.loop_depth == st.loop_depth by {
                assert(tc_hash(st, env, e).0.loop_depth == st.loop_depth);
            }
        },
        Expression::IndexExpression { .. } => {
            lemma_depth_index(e);
            assert forall|st: TcModel, env: Seq<Map<Seq<char>, SymbolModel>>| #![trigger tc_expr(st, env, e)]
                tc_expr(st, env, e).0.loop_depth == st.loop_depth by {
                assert(tc_index(st, env, e).0.loop_depth == st.loop_depth);
            }
        },
        Expression::SliceExpression { .. } => {
            lemma_depth_slice(e);
            assert forall|st: TcModel, env: Seq<Map<Seq<char>, SymbolModel>>| #![trigger tc_expr(st, env, e)]
                tc_expr(st, env, e).0.loop_depth == st.loop_depth by {
                assert(tc_slice(st, env, e).0.loop_depth == st.loop_depth);
            }
        },
        Expression::ReadInput { prompt } => {
            lemma_depth_expr(*prompt);
            assert forall|st: TcModel, env: Seq<Map<Seq<char>, SymbolModel>>| #![trigger tc_expr(st, env, e)]
                tc_expr(st, env, e).0.loop_depth == st.loop_depth by {
                assert(tc_expr(st, env, *prompt).0.loop_depth == st.loop_depth);
            }
        },
        Expression::TypeConversion { argument, .. } => {
            lemma_depth_expr(*argument);
            assert forall|st: TcModel, env: Seq<Map<Seq<char>, SymbolModel>>| #![trigger tc_expr(st, env, e)]
                tc_expr(st, env, e).0.loop_depth == st.loop_depth by {
                assert(tc_expr(st, env, *argument).0.loop_depth == st.loop_depth);
            }
        },
        Expression::Binary { .. } => {
            lemma_depth_binary(e);
            assert forall|st: TcModel, env: Seq<Map<Seq<char>, SymbolModel>>| #![trigger tc_expr(st, env, e)]
                tc_expr(st, env, e).0.loop_depth == st.loop_depth by {
                assert(tc_binary(st, env, e).0.loop_depth == st.loop_depth);
            }
        },
        Expression::FunctionCall { .. } => {
            lemma_depth_call(e);
            assert forall|st: TcModel, env: Seq<Map<Seq<char>, SymbolModel>>| #![trigger tc_expr(st, env, e)]
                tc_expr(st, env, e).0.loop_depth == st.loop_depth by {
                assert(tc_call(st, env, e).0.loop_depth == st.loop_depth);
            }
        },
        Expression::MethodCall { .. } => {
            lemma_depth_method_call(e);
            assert forall|st: TcModel, env: Seq<Map<Seq<char>, SymbolModel>>| #![trigger tc_expr(st, env, e)]
                tc_expr(st, env, e).0.loop_depth == st.loop_depth by {
                assert(tc_method_call(st, env, e).0.loop_depth == st.loop_depth);
            }
        },
        Expression::FieldAccess { .. } => {
            lemma_depth_field_access(e);
            assert forall|st: TcModel, env: Seq<Map<Seq<char>, SymbolModel>>| #![trigger tc_expr(st, env, e)]
                tc_expr(st, env, e).0.loop_depth == st.loop_depth by {
                assert(tc_field_access(st, env, e).0.loop_depth == st.loop_depth);
            }
        },
        Expression::StructLiteral { .. } => {
            lemma_depth_struct_literal(e);
            assert forall|st: TcModel, env: Seq<Map<Seq<char>, SymbolModel>>| #![trigger tc_expr(st, env, e)]
                tc_expr(st, env, e).0.loop_depth == st.loop_depth by {
                assert(tc_struct_literal(st, env, e).0.loop_depth == st.loop_depth);
            }
        },
        Expression::ClosureLiteral { parameters, return_type, body } => {
            lemma_depth_block(body);
            assert forall|st: TcModel, env: Seq<Map<Seq<char>, SymbolModel>>| #![trigger tc_expr(st, env, e)]
                tc_expr(st, env, e).0.loop_depth == st.loop_depth by {
                let inner = bind_params(env.push(Map::empty()), parameters@);
                assert(tc_block(st, inner, body, Some(return_type.model())).0.loop_depth == st.loop_depth);
            }
        },
        Expression::ErrorCreate { message } => {
            lemma_depth_expr(*message);
            assert forall|st: TcModel, env: Seq<Map<Seq<char>, SymbolModel>>| #![trigger tc_expr(st, env, e)]
                tc_expr(st, env, e).0.loop_depth == st.loop_depth by {
                assert(tc_expr(st, env, *message).0.loop_depth == st.loop_depth);
            }
        },
        Expression::TupleLiteral { elements } => {
            lemma_depth_tuple_items(elements@);
            assert forall|st: TcModel, env: Seq<Map<Seq<char>, SymbolModel>>| #![trigger tc_expr(st, env, e)]
                tc_expr(st, env, e).0.loop_depth == st.loop_depth by {
                assert(tc_tuple_items(st, env, elements@).0.loop_depth == st.loop_depth);
            }
        },
        Expression::ChannelMake { capacity, .. } => match capacity {
            Some(c) => {
                lemma_depth_expr(*c);
                assert forall|st: TcModel, env: Seq<Map<Seq<char>, SymbolModel>>| #![trigger tc_expr(st, env, e)]
                    tc_expr(st, env, e).0.loop_depth == st.loop_depth by {
                    assert(tc_expr(st, env, *c).0.loop_depth == st.loop_depth);
                }
            },
            None => {},
        },
        Expression::BaungCreate { timeout_ms } => {
            lemma_depth_expr(*timeout_ms);
            assert forall|st: TcModel, env: Seq<Map<Seq<char>, SymbolModel>>| #![trigger tc_expr(st, env, e)]
                tc_expr(st, env, e).0.loop_depth == st.loop_depth by {
                assert(tc_expr(st, env, *timeout_ms).0.loop_depth == st.loop_depth);
            }
        },
        _ => {},
    }
}

proof fn lemma_depth_tuple_items(es: Seq<Expression>)
    ensures
        forall|st: TcModel, env: Seq<Map<Seq<char>, SymbolModel>>| #![trigger tc_tuple_items(st, env, es)] tc_tuple_items(st, env, es).0.loop_depth
            == st.loop_depth,
    decreases es, 1nat,
{
    if es.len() > 0 {
        lemma_depth_expr(es[0]);
        lemma_depth_tuple_items(es.drop_first());
        assert forall|st: TcModel, env: Seq<Map<Seq<char>, SymbolModel>>| #![trigger tc_tuple_items(st, env, es)]
            tc_tuple_items(st, env, es).0.loop_depth == st.loop_depth by {
            let s1 = tc_expr(st, env, es[0]).0;
            assert(s1.loop_depth == st.loop_depth);
            assert(tc_tuple_items(s1, env, es.drop_first()).0.loop_depth == s1.loop_depth);
            assert(tc_tuple_items(st, env, es).0 == tc_tuple_items(s1, env, es.drop_first()).0);
        }
    }
}

proof fn lemma_depth_array_rest(es: Seq<Expression>)
    ensures
        forall|st: TcModel, env: Seq<Map<Seq<char>, SymbolModel>>, ft: TypeModel|
            #![trigger tc_array_rest(st, env, es, ft)] tc_array_rest(st, env, es, ft).0.loop_depth == st.loop_depth,
    decreases es, 1nat,
{
    if es.len() > 0 {
        lemma_depth_expr(es[0]);
        lemma_depth_array_rest(es.drop_first());
        assert forall|st: TcModel, env: Seq<Map<Seq<char>, SymbolModel>>, ft: TypeModel|
            #![trigger tc_array_rest(st, env, es, ft)] tc_array_rest(st, env, es, ft).0.loop_depth == st.loop_depth by {
            let (s1, t) = tc_expr(st, env, es[0]);
            assert(s1.loop_depth == st.loop_depth);
            match t {
                Some(x) => {
                    let s2 = if x != ft {
                        with_error(
                            s1,
                            "Array elements must have the same type. Expected "@ + type_debug(ft) + ", got "@
                                + type_debug(x),
                        )
                    } else {
                        s1
                    };
                    assert(tc_array_rest(s2, env, es.drop_first(), ft).0.loop_depth == s2.loop_depth);
                },
                None => {},
            }
        }
    }
}

proof fn lemma_depth_array(e: Expression)
    ensures
        forall|st: TcModel, env: Seq<Map<Seq<char>, SymbolModel>>| #![trigger tc_array(st, env, e)] tc_array(st, env, e).0.loop_depth
            == st.loop_depth,
    decreases e, 2nat,
{
    match e {
        Expression::ArrayLiteral { elements } => if elements@.len() > 0 {
            lemma_depth_expr(elements@[0]);
            lemma_depth_array_rest(elements@.drop_first());
            assert forall|st: TcModel, env: Seq<Map<Seq<char>, SymbolModel>>| #![trigger tc_array(st, env, e)]
                tc_array(st, env, e).0.loop_depth == st.loop_depth by {
                let (s1, t) = tc_expr(st, env, elements@[0]);
                assert(s1.loop_depth == st.loop_depth);
                match t {
                    Some(ft) => {
                        assert(tc_array_rest(s1, env, elements@.drop_first(), ft).0.loop_depth == s1.loop_depth);
                    },
                    None => {},
                }
            }
        },
        _ => {},
    }
}

proof fn lemma_depth_hash_rest(ps: Seq<(Expression, Expression)>)
    ensures
        forall|st: TcModel, env: Seq<Map<Seq<char>, SymbolModel>>, kt: TypeModel, vt: TypeModel|
            #![trigger tc_hash_rest(st, env, ps, kt, vt)] tc_hash_rest(st, env, ps, kt, vt).0.loop_depth == st.loop_depth,
    decreases ps, 1nat,
{
    if ps.len() > 0 {
        lemma_depth_expr(ps[0].0);
        lemma_depth_expr(ps[0].1);
        lemma_depth_hash_rest(ps.drop_first());
        assert forall|st: TcModel, env: Seq<Map<Seq<char>, SymbolModel>>, kt: TypeModel, vt: TypeModel|
            #![trigger tc_hash_rest(st, env, ps, kt, vt)] tc_hash_rest(st, env, ps, kt, vt).0.loop_depth
            == st.loop_depth by {
            let (s1, k) = tc_expr(st, env, ps[0].0);
            assert(s1.loop_depth == st.loop_depth);
            match k {
                Some(kx) => {
                    let (s2, v) = tc_expr(s1, env, ps[0].1);
                    assert(s2.loop_depth == s1.loop_depth);
                    match v {
                        Some(vx) => {
                            let s3 = if kx != kt || vx != vt {
                                with_error(s2, "HashMap elements must have consistent types."@)
                            } else {
                                s2
                            };
                            assert(tc_hash_rest(s3, env, ps.drop_first(), kt, vt).0.loop_depth == s3.loop_depth);
                        },
                        None => {},
                    }
                },
                None => {},
            }
        }
    }
}

proof fn lemma_depth_hash(e: Expression)
    ensures
        forall|st: TcModel, env: Seq<Map<Seq<char>, SymbolModel>>| #![trigger tc_hash(st, env, e)] tc_hash(st, env, e).0.loop_depth
            == st.loop_depth,
    decreases e, 2nat,
{
    match e {
        Expression::HashLiteral { pairs } => if pairs@.len() > 0 {
            lemma_depth_expr(pairs@[0].0);
            lemma_depth_expr(pairs@[0].1);
            lemma_depth_hash_rest(pairs@.drop_first());
            assert forall|st: TcModel, env: Seq<Map<Seq<char>, SymbolModel>>| #![trigger tc_hash(st, env, e)]
                tc_hash(st, env, e).0.loop_depth == st.loop_depth by {
                let (s1, k) = tc_expr(st, env, pairs@[0].0);
                assert(s1.loop_depth == st.loop_depth);
                match k {
                    Some(kt) => {
                        let (s2, v) = tc_expr(s1, env, pairs@[0].1);
                        assert(s2.loop_depth == s1.loop_depth);
                        match v {
                            Some(vt) => {
                                assert(tc_hash_rest(s2, env, pairs@.drop_first(), kt, vt).0.loop_depth
                                    == s2.loop_depth);
                            },
                            None => {},
                        }
                    },
                    None => {},
                }
            }
        },
        _ => {},
    }
}

proof fn lemma_depth_index(e: Expression)
    ensures
        forall|st: TcModel, env: Seq<Map<Seq<char>, SymbolModel>>| #![trigger tc_index(st, env, e)] tc_index(st, env, e).0.loop_depth
            == st.loop_depth,
    decreases e, 2nat,
{
    match e {
        Expression::IndexExpression { left, index } => {
            lemma_depth_expr(*left);
            lemma_depth_expr(*index);
            assert forall|st: TcModel, env: Seq<Map<Seq<char>, SymbolModel>>| #![trigger tc_index(st, env, e)]
                tc_index(st, env, e).0.loop_depth == st.loop_depth by {
                let s1 = tc_expr(st, env, *left).0;
                assert(s1.loop_depth == st.loop_depth);
                assert(tc_expr(s1, env, *index).0.loop_depth == s1.loop_depth);
            }
        },
        _ => {},
    }
}

proof fn lemma_depth_slice_bound(b: Option<Box<Expression>>)
    ensures
        forall|st: TcModel, env: Seq<Map<Seq<char>, SymbolModel>>, msg: Seq<char>|
            #![trigger tc_slice_bound(st, env, b, msg)] tc_slice_bound(st, env, b, msg).0.loop_depth == st.loop_depth,
    decreases b, 1nat,
{
    match b {
        Some(x) => {
            lemma_depth_expr(*x);
            assert forall|st: TcModel, env: Seq<Map<Seq<char>, SymbolModel>>, msg: Seq<char>|
                #![trigger tc_slice_bound(st, env, b, msg)] tc_slice_bound(st, env, b, msg).0.loop_depth
                == st.loop_depth by {
                assert(tc_expr(st, env, *x).0.loop_depth == st.loop_depth);
            }
        },
        None => {},
    }
}

proof fn lemma_depth_slice(e: Expression)
    ensures
        forall|st: TcModel, env: Seq<Map<Seq<char>, SymbolModel>>| #![trigger tc_slice(st, env, e)] tc_slice(st, env, e).0.loop_depth
            == st.loop_depth,
    decreases e, 2nat,
{
    match e {
        Expression::SliceExpression { left, low, high } => {
            lemma_depth_expr(*left);
            lemma_depth_slice_bound(low);
            lemma_depth_slice_bound(high);
            assert forall|st: TcModel, env: Seq<Map<Seq<char>, SymbolModel>>| #![trigger tc_slice(st, env, e)]
                tc_slice(st, env, e).0.loop_depth == st.loop_depth by {
                let s1 = tc_expr(st, env, *left).0;
                assert(s1.loop_depth == st.loop_depth);
                let s2 = tc_slice_bound(s1, env, low, "Slice low index must be kain"@).0;
                assert(s2.loop_depth == s1.loop_depth);
                assert(tc_slice_bound(s2, env, high, "Slice high index must be kain"@).0.loop_depth
                    == s2.loop_depth);
            }
        },
        _ => {},
    }
}

proof fn lemma_depth_binary(e: Expression)
    ensures
        forall|st: TcModel, env: Seq<Map<Seq<char>, SymbolModel>>| #![trigger tc_binary(st, env, e)] tc_binary(st, env, e).0.loop_depth
            == st.loop_depth,
    decreases e, 2nat,
{
    match e {
        Expression::Binary { left, right, .. } => {
            lemma_depth_expr(*left);
            lemma_depth_expr(*right);
            assert forall|st: TcModel, env: Seq<Map<Seq<char>, SymbolModel>>| #![trigger tc_binary(st, env, e)]
                tc_binary(st, env, e).0.loop_depth == st.loop_depth by {
                let s1 = tc_expr(st, env, *left).0;
                assert(s1.loop_depth == st.loop_depth);
                assert(tc_expr(s1, env, *right).0.loop_depth == s1.loop_depth);
            }
        },
        _ => {},
    }
}

proof fn lemma_depth_call_args(args: Seq<Expression>)
    ensures
        forall|st: TcModel, env: Seq<Map<Seq<char>, SymbolModel>>, expected: Seq<TypeModel>, fname: Seq<char>, i: nat|
            #![trigger tc_call_args(st, env, args, expected, fname, i)] tc_call_args(st, env, args, expected, fname, i).0.loop_depth == st.loop_depth,
    decreases args, 1nat,
{
    if args.len() > 0 {
        lemma_depth_expr(args[0]);
        lemma_depth_call_args(args.drop_first());
        assert forall|st: TcModel, env: Seq<Map<Seq<char>, SymbolModel>>, expected: Seq<TypeModel>, fname: Seq<char>, i: nat|
            #![trigger tc_call_args(st, env, args, expected, fname, i)] tc_call_args(st, env, args, expected, fname, i).0.loop_depth
            == st.loop_depth by {
            let (s1, t) = tc_expr(st, env, args[0]);
            assert(s1.loop_depth == st.loop_depth);
            match t {
                Some(at) => {
                    let s2 = if !assignable(expected[i as int], at) {
                        with_error(
                            s1,
                            "Argument "@ + nat_digits(i) + " to `"@ + fname + "` expected type "@
                                + type_debug(expected[i as int]) + ", got "@ + type_debug(at),
                        )
                    } else {
                        s1
                    };
                    assert(tc_call_args(s2, env, args.drop_first(), expected, fname, i + 1).0.loop_depth
                        == s2.loop_depth);
                },
                None => {},
            }
        }
    }
}

proof fn lemma_depth_call(e: Expression)
    ensures
        forall|st: TcModel, env: Seq<Map<Seq<char>, SymbolModel>>| #![trigger tc_call(st, env, e)] tc_call(st, env, e).0.loop_depth
            == st.loop_depth,
    decreases e, 2nat,
{
    match e {
        Expression::FunctionCall { function, arguments } => {
            let args = arguments@;
            if args.len() > 0 {
                lemma_depth_expr(args[0]);
            }
            if args.len() > 1 {
                lemma_depth_expr(args[1]);
            }
            lemma_depth_call_args(args);
            assert forall|st: TcModel, env: Seq<Map<Seq<char>, SymbolModel>>| #![trigger tc_call(st, env, e)]
                tc_call(st, env, e).0.loop_depth == st.loop_depth by {
                if args.len() > 0 {
                    let s1 = tc_expr(st, env, args[0]).0;
                    assert(s1.loop_depth == st.loop_depth);
                    if args.len() > 1 {
                        assert(tc_expr(s1, env, args[1]).0.loop_depth == s1.loop_depth);
                    }
                }
                match scopes_lookup(env, function@) {
                    Some(sym) => {
                        let sig: Option<(Seq<TypeModel>, TypeModel)> = match sym.ty {
                            TypeModel::Function(ps, r) => Some((ps, *r)),
                            _ => if sym.is_function {
                                Some((sym.parameters, sym.ty))
                            } else {
                                None
                            },
                        };
                        match sig {
                            Some((ps, ret)) => {
                                assert(tc_call_args(st, env, args, ps, function@, 0).0.loop_depth == st.loop_depth);
                            },
                            None => {},
                        }
                    },
                    None => {},
                }
            }
        },
        _ => {},
    }
}

proof fn lemma_depth_method_args(args: Seq<Expression>)
    ensures
        forall|st: TcModel, env: Seq<Map<Seq<char>, SymbolModel>>, expected: Seq<TypeModel>, mname: Seq<char>, i: nat|
            #![trigger tc_method_args(st, env, args, expected, mname, i)] tc_method_args(st, env, args, expected, mname, i).loop_depth == st.loop_depth,
    decreases args, 1nat,
{
    if args.len() > 0 {
        lemma_depth_expr(args[0]);
        lemma_depth_method_args(args.drop_first());
        assert forall|st: TcModel, env: Seq<Map<Seq<char>, SymbolModel>>, expected: Seq<TypeModel>, mname: Seq<char>, i: nat|
            #![trigger tc_method_args(st, env, args, expected, mname, i)] tc_method_args(st, env, args, expected, mname, i).loop_depth
            == st.loop_depth by {
            let (s1, t) = tc_expr(st, env, args[0]);
            assert(s1.loop_depth == st.loop_depth);
            let s2 = match t {
                None => s1,
                Some(at) => if i < expected.len() && !assignable(expected[i as int], at) {
                    with_error(
                        s1,
                        "Method `"@ + mname + "` argument "@ + nat_digits(i) + " expected `"@
                            + type_debug(expected[i as int]) + "`, got `"@ + type_debug(at) + "`"@,
                    )
                } else {
                    s1
                },
            };
            assert(tc_method_args(s2, env, args.drop_first(), expected, mname, i + 1).loop_depth == s2.loop_depth);
        }
    }
}

proof fn lemma_depth_method_struct(args: Seq<Expression>)
    ensures
        forall|st: TcModel, env: Seq<Map<Seq<char>, SymbolModel>>, ot: TypeModel, m: Seq<char>|
            #![trigger tc_method_struct(st, env, ot, m, args)] tc_method_struct(st, env, ot, m, args).0.loop_depth == st.loop_depth,
    decreases args, 2nat,
{
    lemma_depth_method_args(args);
    assert forall|st: TcModel, env: Seq<Map<Seq<char>, SymbolModel>>, ot: TypeModel, m: Seq<char>|
        #![trigger tc_method_struct(st, env, ot, m, args)] tc_method_struct(st, env, ot, m, args).0.loop_depth
        == st.loop_depth by {
        match ot {
            TypeModel::Struct(tn) => if st.methods.contains_key((tn, m)) {
                let (ps, ret) = st.methods[(tn, m)];
                let s1 = if ps.len() != args.len() {
                    with_error(
                        st,
                        "Method `"@ + m + "` expects "@ + nat_digits(ps.len()) + " arguments, got "@
                            + nat_digits(args.len()),
                    )
                } else {
                    st
                };
                assert(tc_method_args(s1, env, args, ps, m, 0).loop_depth == s1.loop_depth);
            },
            _ => {},
        }
    }
}

proof fn lemma_depth_method_on(args: Seq<Expression>)
    ensures
        forall|st: TcModel, env: Seq<Map<Seq<char>, SymbolModel>>, ot: TypeModel, m: Seq<char>|
            #![trigger tc_method_on(st, env, ot, m, args)] tc_method_on(st, env, ot, m, args).0.loop_depth == st.loop_depth,
    decreases args, 3nat,
{
    lemma_depth_method_struct(args);
    if args.len() > 0 {
        lemma_depth_expr(args[0]);
    }
    assert forall|st: TcModel, env: Seq<Map<Seq<char>, SymbolModel>>, ot: TypeModel, m: Seq<char>|
        #![trigger tc_method_on(st, env, ot, m, args)] tc_method_on(st, env, ot, m, args).0.loop_depth
        == st.loop_depth by {
        assert(tc_method_struct(st, env, ot, m, args).0.loop_depth == st.loop_depth);
        if args.len() > 0 {
            assert(tc_expr(st, env, args[0]).0.loop_depth == st.loop_depth);
        }
    }
}

proof fn lemma_depth_method_call(e: Expression)
    ensures
        forall|st: TcModel, env: Seq<Map<Seq<char>, SymbolModel>>| #![trigger tc_method_call(st, env, e)] tc_method_call(st, env, e).0.loop_depth
            == st.loop_depth,
    decreases e, 2nat,
{
    match e {
        Expression::MethodCall { object, method, arguments } => {
            lemma_depth_expr(*object);
            lemma_depth_method_on(arguments@);
            assert forall|st: TcModel, env: Seq<Map<Seq<char>, SymbolModel>>| #![trigger tc_method_call(st, env, e)]
                tc_method_call(st, env, e).0.loop_depth == st.loop_depth by {
                let (s1, o) = tc_expr(st, env, *object);
                assert(s1.loop_depth == st.loop_depth);
                match o {
                    Some(ot) => {
                        assert(tc_method_on(s1, env, ot, method@, arguments@).0.loop_depth == s1.loop_depth);
                    },
                    None => {},
                }
            }
        },
        _ => {},
    }
}

proof fn lemma_depth_field_access(e: Expression)
    ensures
        forall|st: TcModel, env: Seq<Map<Seq<char>, SymbolModel>>| #![trigger tc_field_access(st, env, e)] tc_field_access(st, env, e).0.loop_depth
            == st.loop_depth,
    decreases e, 2nat,
{
    match e {
        Expression::FieldAccess { object, .. } => {
            lemma_depth_expr(*object);
            assert forall|st: TcModel, env: Seq<Map<Seq<char>, SymbolModel>>| #![trigger tc_field_access(st, env, e)]
                tc_field_access(st, env, e).0.loop_depth == st.loop_depth by {
                assert(tc_expr(st, env, *object).0.loop_depth == st.loop_depth);
            }
        },
        _ => {},
    }
}

proof fn lemma_depth_struct_fields(fs: Seq<(String, Expression)>)
    ensures
        forall|st: TcModel, env: Seq<Map<Seq<char>, SymbolModel>>, name: Seq<char>, decl: Seq<(Seq<char>, TypeModel)>|
            #![trigger tc_struct_fields(st, env, fs, name, decl)] tc_struct_fields(st, env, fs, name, decl).loop_depth == st.loop_depth,
    decreases fs, 1nat,
{
    if fs.len() > 0 {
        lemma_depth_expr(fs[0].1);
        lemma_depth_struct_fields(fs.drop_first());
        assert forall|st: TcModel, env: Seq<Map<Seq<char>, SymbolModel>>, name: Seq<char>, decl: Seq<(Seq<char>, TypeModel)>|
            #![trigger tc_struct_fields(st, env, fs, name, decl)] tc_struct_fields(st, env, fs, name, decl).loop_depth
            == st.loop_depth by {
            let s1 = tc_expr(st, env, fs[0].1).0;
            assert(s1.loop_depth == st.loop_depth);
            let s2 = if find_field(decl, fs[0].0@) is None {
                with_error(s1, "Struct `"@ + name + "` has no field `"@ + fs[0].0@ + "`"@)
            } else {
                s1
            };
            assert(tc_struct_fields(s2, env, fs.drop_first(), name, decl).loop_depth == s2.loop_depth);
        }
    }
}

proof fn lemma_depth_struct_literal(e: Expression)
    ensures
        forall|st: TcModel, env: Seq<Map<Seq<char>, SymbolModel>>| #![trigger tc_struct_literal(st, env, e)] tc_struct_literal(st, env, e).0.loop_depth
            == st.loop_depth,
    decreases e, 2nat,
{
    match e {
        Expression::StructLiteral { name, fields } => {
            lemma_depth_struct_fields(fields@);
            assert forall|st: TcModel, env: Seq<Map<Seq<char>, SymbolModel>>| #![trigger tc_struct_literal(st, env, e)]
                tc_struct_literal(st, env, e).0.loop_depth == st.loop_depth by {
                if st.structs.contains_key(name@) {
                    assert(tc_struct_fields(st, env, fields@, name@, st.structs[name@]).loop_depth == st.loop_depth);
                }
            }
        },
        _ => {},
    }
}

proof fn lemma_depth_destructure(names: Seq<(String, Type, Span)>)
    ensures
        forall|st: TcModel, env: Seq<Map<Seq<char>, SymbolModel>>, ts: Seq<TypeModel>|
            #![trigger tc_destructure(st, env, names, ts)] tc_destructure(st, env, names, ts).0.loop_depth == st.loop_depth,
    decreases names.len(),
{
    if names.len() > 0 {
        lemma_depth_destructure(names.drop_first());
        assert forall|st: TcModel, env: Seq<Map<Seq<char>, SymbolModel>>, ts: Seq<TypeModel>|
            #![trigger tc_destructure(st, env, names, ts)] tc_destructure(st, env, names, ts).0.loop_depth
            == st.loop_depth by {
            if ts.len() > 0 {
                let n = names[0];
                let s1 = if !assignable(n.1.model(), ts[0]) {
                    with_error(
                        st,
                        "Type mismatch in destructuring: expected "@ + type_debug(n.1.model()) + " for `"@
                            + n.0@ + "`, got "@ + type_debug(ts[0]),
                    )
                } else {
                    st
                };
                let e1 = scopes_set(env, n.0@, var_symbol(n.1.model()));
                assert(tc_destructure(s1, e1, names.drop_first(), ts.drop_first()).0.loop_depth == s1.loop_depth);
            }
        }
    }
}

proof fn lemma_depth_opt_stmt(o: Option<Box<Statement>>)
    ensures
        forall|st: TcModel, env: Seq<Map<Seq<char>, SymbolModel>>| #![trigger tc_opt_stmt(st, env, o)] tc_opt_stmt(st, env, o).0.loop_depth
            == st.loop_depth,
    decreases o, 2nat,
{
    match o {
        Some(x) => {
            lemma_depth_stmt(*x);
            assert forall|st: TcModel, env: Seq<Map<Seq<char>, SymbolModel>>| #![trigger tc_opt_stmt(st, env, o)]
                tc_opt_stmt(st, env, o).0.loop_depth == st.loop_depth by {
                assert(tc_stmt(st, env, *x).0.loop_depth == st.loop_depth);
            }
        },
        None => {},
    }
}

proof fn lemma_depth_alt(alt: Option<IfAlternative>)
    ensures
        forall|st: TcModel, env: Seq<Map<Seq<char>, SymbolModel>>| #![trigger tc_alt(st, env, alt)] tc_alt(st, env, alt).0.loop_depth
            == st.loop_depth,
    decreases alt, 2nat,
{
    match alt {
        None => {},
        Some(IfAlternative::Else(b)) => {
            lemma_depth_block(b);
            assert forall|st: TcModel, env: Seq<Map<Seq<char>, SymbolModel>>| #![trigger tc_alt(st, env, alt)]
                tc_alt(st, env, alt).0.loop_depth == st.loop_depth by {
                assert(tc_block(st, env, b, None).0.loop_depth == st.loop_depth);
            }
        },
        Some(IfAlternative::ElseIf(x)) => {
            lemma_depth_stmt(*x);
            assert forall|st: TcModel, env: Seq<Map<Seq<char>, SymbolModel>>| #![trigger tc_alt(st, env, alt)]
                tc_alt(st, env, alt).0.loop_depth == st.loop_depth by {
                assert(tc_stmt(st, env, *x).0.loop_depth == st.loop_depth);
            }
        },
    }
}

proof fn lemma_depth_field_assign(s: Statement)
    ensures
        forall|st: TcModel, env: Seq<Map<Seq<char>, SymbolModel>>| #![trigger tc_field_assign(st, env, s)] tc_field_assign(st, env, s).loop_depth
            == st.loop_depth,
    decreases s, 2nat,
{
    match s {
        Statement::FieldAssign { value, .. } => {
            lemma_depth_expr(value);
            assert forall|st: TcModel, env: Seq<Map<Seq<char>, SymbolModel>>| #![trigger tc_field_assign(st, env, s)]
                tc_field_assign(st, env, s).loop_depth == st.loop_depth by {
                assert(tc_expr(st, env, value).0.loop_depth == st.loop_depth);
            }
        },
        _ => {},
    }
}

proof fn lemma_depth_index_assign(s: Statement)
    ensures
        forall|st: TcModel, env: Seq<Map<Seq<char>, SymbolModel>>| #![trigger tc_index_assign(st, env, s)] tc_index_assign(st, env, s).loop_depth
            == st.loop_depth,
    decreases s, 2nat,
{
    match s {
        Statement::IndexAssign { object, index, value, .. } => {
            lemma_depth_expr(object);
            lemma_depth_expr(index);
            lemma_depth_expr(value);
            assert forall|st: TcModel, env: Seq<Map<Seq<char>, SymbolModel>>| #![trigger tc_index_assign(st, env, s)]
                tc_index_assign(st, env, s).loop_depth == st.loop_depth by {
                let s1 = tc_expr(st, env, object).0;
                let s2 = tc_expr(s1, env, index).0;
                let s3 = tc_expr(s2, env, value).0;
                assert(s1.loop_depth == st.loop_depth);
                assert(s2.loop_depth == s1.loop_depth);
                assert(s3.loop_depth == s2.loop_depth);
            }
        },
        _ => {},
    }
}

proof fn lemma_depth_block(b: BlockStatement)
    ensures
        forall|st: TcModel, env: Seq<Map<Seq<char>, SymbolModel>>, expected: Option<TypeModel>|
            #![trigger tc_block(st, env, b, expected)] tc_block(st, env, b, expected).0.loop_depth == st.loop_depth,
    decreases b, 2nat,
{
    lemma_depth_stmts(b.statements@);
    assert forall|st: TcModel, env: Seq<Map<Seq<char>, SymbolModel>>, expected: Option<TypeModel>|
        #![trigger tc_block(st, env, b, expected)] tc_block(st, env, b, expected).0.loop_depth == st.loop_depth by {
        assert(tc_stmts(st, env, b.statements@, expected).0.loop_depth == st.loop_depth);
    }
}

proof fn lemma_depth_stmts(ss: Seq<Statement>)
    ensures
        forall|st: TcModel, env: Seq<Map<Seq<char>, SymbolModel>>, expected: Option<TypeModel>|
            #![trigger tc_stmts(st, env, ss, expected)] tc_stmts(st, env, ss, expected).0.loop_depth == st.loop_depth,
    decreases ss, 1nat,
{
    if ss.len() > 0 {
        lemma_depth_block_item(ss[0]);
        lemma_depth_stmts(ss.drop_first());
        assert forall|st: TcModel, env: Seq<Map<Seq<char>, SymbolModel>>, expected: Option<TypeModel>|
            #![trigger tc_stmts(st, env, ss, expected)] tc_stmts(st, env, ss, expected).0.loop_depth == st.loop_depth by {
            let (s1, e1) = tc_block_item(st, env, ss[0], expected);
            assert(s1.loop_depth == st.loop_depth);
            assert(tc_stmts(s1, e1, ss.drop_first(), expected).0.loop_depth == s1.loop_depth);
        }
    }
}

proof fn lemma_depth_block_item(s: Statement)
    ensures
        forall|st: TcModel, env: Seq<Map<Seq<char>, SymbolModel>>, expected: Option<TypeModel>|
            #![trigger tc_block_item(st, env, s, expected)] tc_block_item(st, env, s, expected).0.loop_depth == st.loop_depth,
    decreases s, 4nat,
{
    lemma_depth_stmt(s);
    match s {
        Statement::Return { value } => {
            lemma_depth_expr(value);
            assert forall|st: TcModel, env: Seq<Map<Seq<char>, SymbolModel>>, expected: Option<TypeModel>|
                #![trigger tc_block_item(st, env, s, expected)] tc_block_item(st, env, s, expected).0.loop_depth
                == st.loop_depth by {
                let (s1, e1) = tc_stmt(st, env, s);
                assert(s1.loop_depth == st.loop_depth);
                assert(tc_expr(s1, e1, value).0.loop_depth == s1.loop_depth);
            }
        },
        _ => {
            assert forall|st: TcModel, env: Seq<Map<Seq<char>, SymbolModel>>, expected: Option<TypeModel>|
                #![trigger tc_block_item(st, env, s, expected)] tc_block_item(st, env, s, expected).0.loop_depth
                == st.loop_depth by {
                assert(tc_stmt(st, env, s).0.loop_depth == st.loop_depth);
            }
        },
    }
}

proof fn lemma_depth_stmt(s: Statement)
    ensures
        forall|st: TcModel, env: Seq<Map<Seq<char>, SymbolModel>>| #![trigger tc_stmt(st, env, s)] tc_stmt(st, env, s).0.loop_depth
            == st.loop_depth,
    decreases s, 3nat,
{
    match s {
        Statement::Let { value, .. } => {
            lemma_depth_expr(value);
            assert forall|st: TcModel, env: Seq<Map<Seq<char>, SymbolModel>>| #![trigger tc_stmt(st, env, s)]
                tc_stmt(st, env, s).0.loop_depth == st.loop_depth by {
                assert(tc_expr(st, env, value).0.loop_depth == st.loop_depth);
            }
        },
        Statement::LetDestructured { names, value } => {
            lemma_depth_expr(value);
            lemma_depth_destructure(names@);
            assert forall|st: TcModel, env: Seq<Map<Seq<char>, SymbolModel>>| #![trigger tc_stmt(st, env, s)]
                tc_stmt(st, env, s).0.loop_depth == st.loop_depth by {
                let (s1, v) = tc_expr(st, env, value);
                assert(s1.loop_depth == st.loop_depth);
                match v {
                    Some(TypeModel::Tuple(ts)) => {
                        assert(tc_destructure(s1, env, names@, ts).0.loop_depth == s1.loop_depth);
                    },
                    _ => {},
                }
            }
        },
        Statement::Assign { value, .. } => {
            lemma_depth_expr(value);
            assert forall|st: TcModel, env: Seq<Map<Seq<char>, SymbolModel>>| #![trigger tc_stmt(st, env, s)]
                tc_stmt(st, env, s).0.loop_depth == st.loop_depth by {
                assert(tc_expr(st, env, value).0.loop_depth == st.loop_depth);
            }
        },
        Statement::FieldAssign { .. } => {
            lemma_depth_field_assign(s);
            assert forall|st: TcModel, env: Seq<Map<Seq<char>, SymbolModel>>| #![trigger tc_stmt(st, env, s)]
                tc_stmt(st, env, s).0.loop_depth == st.loop_depth by {
                assert(tc_field_assign(st, env, s).loop_depth == st.loop_depth);
            }
        },
        Statement::IndexAssign { .. } => {
            lemma_depth_index_assign(s);
            assert forall|st: TcModel, env: Seq<Map<Seq<char>, SymbolModel>>| #![trigger tc_stmt(st, env, s)]
                tc_stmt(st, env, s).0.loop_depth == st.loop_depth by {
                assert(tc_index_assign(st, env, s).loop_depth == st.loop_depth);
            }
        },
        Statement::FunctionDecl { name, parameters, return_type, body, .. } => {
            lemma_depth_block(body);
            assert forall|st: TcModel, env: Seq<Map<Seq<char>, SymbolModel>>| #![trigger tc_stmt(st, env, s)]
                tc_stmt(st, env, s).0.loop_depth == st.loop_depth by {
                let env1 = scopes_set(env, name@, fn_symbol(param_types(parameters@), return_type.model()));
                let inner = bind_params(env1.push(Map::empty()), parameters@);
                assert(tc_block(st, inner, body, Some(return_type.model())).0.loop_depth == st.loop_depth);
            }
        },
        Statement::Return { value } => {
            lemma_depth_expr(value);
            assert forall|st: TcModel, env: Seq<Map<Seq<char>, SymbolModel>>| #![trigger tc_stmt(st, env, s)]
                tc_stmt(st, env, s).0.loop_depth == st.loop_depth by {
                assert(tc_expr(st, env, value).0.loop_depth == st.loop_depth);
            }
        },
        Statement::Print { value } => {
            lemma_depth_expr(value);
            assert forall|st: TcModel, env: Seq<Map<Seq<char>, SymbolModel>>| #![trigger tc_stmt(st, env, s)]
                tc_stmt(st, env, s).0.loop_depth == st.loop_depth by {
                assert(tc_expr(st, env, value).0.loop_depth == st.loop_depth);
            }
        },
        Statement::If { condition, consequence, alternative } => {
            lemma_depth_expr(condition);
            lemma_depth_block(consequence);
            lemma_depth_alt(alternative);
            assert forall|st: TcModel, env: Seq<Map<Seq<char>, SymbolModel>>| #![trigger tc_stmt(st, env, s)]
                tc_stmt(st, env, s).0.loop_depth == st.loop_depth by {
                let (s1, c) = tc_expr(st, env, condition);
                assert(s1.loop_depth == st.loop_depth);
                let s2 = if c != Some(TypeModel::Sit) {
                    with_error(s1, "If condition must be a boolean (sit), got "@ + opt_type_debug(c))
                } else {
                    s1
                };
                let (s3, e3) = tc_block(s2, env, consequence, None);
                assert(s3.loop_depth == s2.loop_depth);
                assert(tc_alt(s3, e3, alternative).0.loop_depth == s3.loop_depth);
            }
        },
        Statement::While { condition, .. } => {
            lemma_depth_expr(condition);
            assert forall|st: TcModel, env: Seq<Map<Seq<char>, SymbolModel>>| #![trigger tc_stmt(st, env, s)]
                tc_stmt(st, env, s).0.loop_depth == st.loop_depth by {
                assert(tc_expr(st, env, condition).0.loop_depth == st.loop_depth);
            }
        },
        Statement::ForIn { collection, .. } => {
            lemma_depth_expr(collection);
            assert forall|st: TcModel, env: Seq<Map<Seq<char>, SymbolModel>>| #![trigger tc_stmt(st, env, s)]
                tc_stmt(st, env, s).0.loop_depth == st.loop_depth by {
                assert(tc_expr(st, env, collection).0.loop_depth == st.loop_depth);
            }
        },
        Statement::ExpressionStatement(e) => {
            lemma_depth_expr(e);
            assert forall|st: TcModel, env: Seq<Map<Seq<char>, SymbolModel>>| #![trigger tc_stmt(st, env, s)]
                tc_stmt(st, env, s).0.loop_depth == st.loop_depth by {
                assert(tc_expr(st, env, e).0.loop_depth == st.loop_depth);
            }
        },
        Statement::MethodDecl { receiver_type, receiver_name, name, parameters, return_type, body, .. } => {
            lemma_depth_block(body);
            assert forall|st: TcModel, env: Seq<Map<Seq<char>, SymbolModel>>| #![trigger tc_stmt(st, env, s)]
                tc_stmt(st, env, s).0.loop_depth == st.loop_depth by {
                let st1 = TcModel {
                    methods: st.methods.insert(
                        (receiver_type@, name@),
                        (param_types(parameters@), return_type.model()),
                    ),
                    ..st
                };
                let inner = bind_params(
                    scopes_set(
                        env.push(Map::empty()),
                        receiver_name@,
                        var_symbol(TypeModel::Struct(receiver_type@)),
                    ),
                    parameters@,
                );
                assert(tc_block(st1, inner, body, Some(return_type.model())).0.loop_depth == st1.loop_depth);
            }
        },
        Statement::Go { call } => {
            lemma_depth_expr(call);
            assert forall|st: TcModel, env: Seq<Map<Seq<char>, SymbolModel>>| #![trigger tc_stmt(st, env, s)]
                tc_stmt(st, env, s).0.loop_depth == st.loop_depth by {
                assert(tc_expr(st, env, call).0.loop_depth == st.loop_depth);
            }
        },
        Statement::Defer { call } => {
            lemma_depth_expr(call);
            assert forall|st: TcModel, env: Seq<Map<Seq<char>, SymbolModel>>| #![trigger tc_stmt(st, env, s)]
                tc_stmt(st, env, s).0.loop_depth == st.loop_depth by {
                assert(tc_expr(st, env, call).0.loop_depth == st.loop_depth);
            }
        },
        Statement::TestDecl { body, .. } => {
            lemma_depth_block(body);
            assert forall|st: TcModel, env: Seq<Map<Seq<char>, SymbolModel>>| #![trigger tc_stmt(st, env, s)]
                tc_stmt(st, env, s).0.loop_depth == st.loop_depth by {
                assert(tc_block(st, env.push(Map::empty()), body, None).0.loop_depth == st.loop_depth);
            }
        },
        Statement::ForClassic { init, condition, post, .. } => {
            lemma_depth_opt_stmt(init);
            lemma_depth_opt_stmt(post);
            match condition {
                Some(c) => lemma_depth_expr(c),
                None => {},
            }
            assert forall|st: TcModel, env: Seq<Map<Seq<char>, SymbolModel>>| #![trigger tc_stmt(st, env, s)]
                tc_stmt(st, env, s).0.loop_depth == st.loop_depth by {
                let (s1, e1) = tc_opt_stmt(st, env, init);
                assert(s1.loop_depth == st.loop_depth);
                let s2 = match condition {
                    Some(c) => tc_expr(s1, e1, c).0,
                    None => s1,
                };
                assert(s2.loop_depth == s1.loop_depth);
                assert(tc_opt_stmt(s2, e1, post).0.loop_depth == s2.loop_depth);
            }
        },
        Statement::Export { statement, .. } => {
            lemma_depth_stmt(*statement);
            assert forall|st: TcModel, env: Seq<Map<Seq<char>, SymbolModel>>| #![trigger tc_stmt(st, env, s)]
                tc_stmt(st, env, s).0.loop_depth == st.loop_depth by {
                assert(tc_stmt(st, env, *statement).0.loop_depth == st.loop_depth);
            }
        },
        _ => {},
    }
}

/// Checking any statement leaves the loop depth as it was: a loop checks its
/// body one loop deeper and restores the depth afterwards, and nothing else
/// changes it.
pub proof fn law_loop_depth_restored(st: TcModel, env: Seq<Map<Seq<char>, SymbolModel>>, s: Statement)
    ensures
        tc_stmt(st, env, s).0.loop_depth == st.loop_depth,
{
    lemma_depth_stmt(s);
}

} // verus!
