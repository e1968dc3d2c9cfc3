//! C code generator: turns a program into C source.
use vstd::prelude::*;

use crate::ast::{BlockStatement, Expression, IfAlternative, Program, Statement, Type, TypeModel};
use crate::formatter::{deeper, indent_text, items_model, join, push_indent, push_join};
use crate::render::{int_text, nat_digits, push_i64, push_usize};
use crate::text::{chars_of, push_chars, push_str, push_string, str_eq, string_of};
use vstd::utf8::encode_utf8;

verus! {

// ----------------------------------------------------------------------
// Names

/// A lowercase hexadecimal digit.
pub open spec fn hex_digit(d: nat) -> char {
    if d < 10 {
        ((d + 48) as u32) as char
    } else {
        ((d + 87) as u32) as char
    }
}

/// Each byte as two lowercase hexadecimal digits.
pub open spec fn hex_bytes(bs: Seq<u8>) -> Seq<char>
    decreases bs.len(),
{
    if bs.len() == 0 {
        Seq::empty()
    } else {
        hex_bytes(bs.drop_last()) + seq![hex_digit((bs.last() / 16) as nat), hex_digit((bs.last() % 16) as nat)]
    }
}

/// A C identifier for a name: `mlang_` and the hexadecimal UTF-8 bytes of
/// the name.
pub open spec fn c_ident(name: Seq<char>) -> Seq<char> {
    "mlang_"@ + hex_bytes(encode_utf8(name))
}

/// A hexadecimal digit is an ASCII character, and different digits are
/// different characters.
proof fn lemma_hex_digit(d: nat, e: nat)
    requires
        d < 16,
        e < 16,
    ensures
        (hex_digit(d) as u32) < 128,
        hex_digit(d) == hex_digit(e) ==> d == e,
{
    if d < 10 {
        assert((hex_digit(d) as u32) == d + 48);
    } else {
        assert((hex_digit(d) as u32) == d + 87);
    }
    if e < 10 {
        assert((hex_digit(e) as u32) == e + 48);
    } else {
        assert((hex_digit(e) as u32) == e + 87);
    }
}

/// `hex_bytes` writes byte `j` as the digits at `2j` and `2j + 1`.
proof fn lemma_hex_bytes(bs: Seq<u8>)
    ensures
        hex_bytes(bs).len() == 2 * bs.len(),
        forall|j: int|
            0 <= j < bs.len() ==> #[trigger] hex_bytes(bs)[2 * j] == hex_digit((bs[j] / 16) as nat)
                && hex_bytes(bs)[2 * j + 1] == hex_digit((bs[j] % 16) as nat),
        forall|i: int| 0 <= i < hex_bytes(bs).len() ==> (#[trigger] hex_bytes(bs)[i] as u32) < 128,
    decreases bs.len(),
{
    if bs.len() > 0 {
        let init = bs.drop_last();
        lemma_hex_bytes(init);
        let b = bs.last();
        lemma_hex_digit((b / 16) as nat, 0);
        lemma_hex_digit((b % 16) as nat, 0);
        assert forall|j: int| 0 <= j < bs.len() implies #[trigger] hex_bytes(bs)[2 * j] == hex_digit(
            (bs[j] / 16) as nat,
        ) && hex_bytes(bs)[2 * j + 1] == hex_digit((bs[j] % 16) as nat) by {
            if j < init.len() {
                assert(init[j] == bs[j]);
                assert(hex_bytes(init)[2 * j] == hex_digit((init[j] / 16) as nat));
            }
        }
        assert forall|i: int| 0 <= i < hex_bytes(bs).len() implies (#[trigger] hex_bytes(bs)[i] as u32) < 128 by {
            if i < hex_bytes(init).len() {
                assert(hex_bytes(bs)[i] == hex_bytes(init)[i]);
            }
        }
    }
}

/// The C name of a name is ASCII, is `mlang_` followed by two hexadecimal
/// digits for each byte of the name's UTF-8 encoding, and two different
/// names never get the same C name.
pub proof fn lemma_c_ident_shape(a: Seq<char>, b: Seq<char>)
    ensures
        c_ident(a).len() == 6 + 2 * encode_utf8(a).len(),
        c_ident(a).subrange(0, 6) == "mlang_"@,
        forall|i: int| 0 <= i < c_ident(a).len() ==> (#[trigger] c_ident(a)[i] as u32) < 128,
        c_ident(a) == c_ident(b) ==> a == b,
{
    reveal_strlit("mlang_");
    let x = encode_utf8(a);
    let y = encode_utf8(b);
    lemma_hex_bytes(x);
    lemma_hex_bytes(y);
    assert(c_ident(a).subrange(0, 6) =~= "mlang_"@);
    assert forall|i: int| 0 <= i < c_ident(a).len() implies (#[trigger] c_ident(a)[i] as u32) < 128 by {
        if i >= 6 {
            assert(c_ident(a)[i] == hex_bytes(x)[i - 6]);
        }
    }
    if c_ident(a) == c_ident(b) {
        assert(hex_bytes(x) =~= c_ident(a).subrange(6, c_ident(a).len() as int));
        assert(hex_bytes(y) =~= c_ident(b).subrange(6, c_ident(b).len() as int));
        assert forall|j: int| 0 <= j < x.len() implies x[j] == y[j] by {
            assert(hex_bytes(x)[2 * j] == hex_bytes(y)[2 * j]);
            assert(hex_bytes(x)[2 * j + 1] == hex_bytes(y)[2 * j + 1]);
            lemma_hex_digit((x[j] / 16) as nat, (y[j] / 16) as nat);
            lemma_hex_digit((x[j] % 16) as nat, (y[j] % 16) as nat);
        }
        assert(x =~= y);
        vstd::utf8::encode_utf8_decode_utf8(a);
        vstd::utf8::encode_utf8_decode_utf8(b);
    }
}

fn hex_digit_exec(d: u8) -> (c: char)
    requires
        d < 16,
    ensures
        c == hex_digit(d as nat),
{
    if d < 10 {
        (d + 48) as char
    } else {
        (d + 87) as char
    }
}

/// Appends the C identifier for a name.
pub fn push_c_ident(out: &mut Vec<char>, name: &str)
    ensures
        final(out)@ == old(out)@ + c_ident(name@),
{
    push_str(out, "mlang_");
    let ghost start = out@;
    let bytes = name.as_bytes();
    let mut i: usize = 0;
    while i < bytes.len()
        invariant
            i <= bytes.len(),
            bytes@ == encode_utf8(name@),
            out@ == start + hex_bytes(bytes@.subrange(0, i as int)),
        decreases bytes.len() - i,
    {
        let b = bytes[i];
        out.push(hex_digit_exec(b / 16));
        out.push(hex_digit_exec(b % 16));
        assert(bytes@.subrange(0, i + 1).drop_last() =~= bytes@.subrange(0, i as int));
        i = i + 1;
        assert(out@ =~= start + hex_bytes(bytes@.subrange(0, i as int)));
    }
    assert(bytes@.subrange(0, bytes.len() as int) =~= bytes@);
    assert(out@ =~= old(out)@ + c_ident(name@));
}

// ----------------------------------------------------------------------
// What the generator knows while it runs

/// The generator's state: indentation, the declared type of each variable,
/// the known length of array variables, and the number of for-in loops so
/// far.
#[verifier::ext_equal]
pub struct CgModel {
    pub indent: usize,
    pub env: Map<Seq<char>, TypeModel>,
    pub lens: Map<Seq<char>, usize>,
    pub counter: usize,
}

/// One level deeper, and back.
pub open spec fn cg_in(m: CgModel) -> CgModel {
    CgModel { indent: deeper(m.indent), ..m }
}

pub open spec fn cg_out(m: CgModel, level: usize) -> CgModel {
    CgModel { indent: level, ..m }
}

/// The C type of a type.
pub open spec fn c_type(t: TypeModel) -> Seq<char>
    decreases t,
{
    match t {
        TypeModel::Kain => "long long"@,
        TypeModel::Sar => "char*"@,
        TypeModel::Sit => "bool"@,
        TypeModel::Array(inner) => c_type(*inner) + "*"@,
        TypeModel::Dict(_, _) => "void* /* HashMap */"@,
        _ => "void*"@,
    }
}

/// Whether an expression is a string, as far as the generator can tell.
pub open spec fn is_string_expr(m: CgModel, e: Expression) -> bool
    decreases e,
{
    match e {
        Expression::StringLiteral(_) => true,
        Expression::Identifier(n) => m.env.contains_key(n@) && m.env[n@] == TypeModel::Sar,
        Expression::ReadInput { .. } => true,
        Expression::Binary { left, operator, .. } => operator@ == "+"@ && is_string_expr(m, *left),
        _ => false,
    }
}

/// The length of an array expression, when the generator knows it.
pub open spec fn array_len(m: CgModel, e: Expression) -> Option<usize> {
    match e {
        Expression::ArrayLiteral { elements } => Some(elements.len()),
        Expression::Identifier(n) => if m.lens.contains_key(n@) {
            Some(m.lens[n@])
        } else {
            None
        },
        _ => None,
    }
}

/// The type of an expression, as far as the generator can tell.
pub open spec fn infer_type(m: CgModel, e: Expression) -> Option<TypeModel>
    decreases e,
{
    match e {
        Expression::IntegerLiteral(_) => Some(TypeModel::Kain),
        Expression::StringLiteral(_) => Some(TypeModel::Sar),
        Expression::BooleanLiteral(_) => Some(TypeModel::Sit),
        Expression::Identifier(n) => if m.env.contains_key(n@) {
            Some(m.env[n@])
        } else {
            None
        },
        Expression::ArrayLiteral { elements } => if elements@.len() == 0 {
            None
        } else {
            match infer_type(m, elements@[0]) {
                Some(t) => Some(TypeModel::Array(Box::new(t))),
                None => None,
            }
        },
        Expression::ReadInput { .. } => Some(TypeModel::Sar),
        Expression::Binary { left, operator, right } => match (infer_type(m, *left), infer_type(m, *right)) {
            (Some(l), Some(r)) => {
                let op = operator@;
                if op == "+"@ || op == "-"@ || op == "*"@ || op == "/"@ {
                    if l == TypeModel::Kain && r == TypeModel::Kain {
                        Some(TypeModel::Kain)
                    } else if op == "+"@ && l == TypeModel::Sar && r == TypeModel::Sar {
                        Some(TypeModel::Sar)
                    } else {
                        None
                    }
                } else if op == "=="@ || op == "!="@ || op == ">"@ || op == "<"@ || op == ">="@ || op
                    == "<="@ {
                    Some(TypeModel::Sit)
                } else {
                    None
                }
            },
            _ => None,
        },
        _ => None,
    }
}

/// A simple expression as C text; anything else is `0`.
pub open spec fn simple_c(e: Expression) -> Seq<char> {
    match e {
        Expression::IntegerLiteral(v) => int_text(v as int),
        Expression::StringLiteral(v) => seq!['"'] + v@ + seq!['"'],
        Expression::BooleanLiteral(b) => if b {
            "true"@
        } else {
            "false"@
        },
        Expression::Identifier(n) => c_ident(n@),
        _ => "0"@,
    }
}

/// The C element type guessed from an array's first element.
pub open spec fn guess_c_type(m: CgModel, e: Expression) -> Seq<char> {
    match e {
        Expression::IntegerLiteral(_) => "long long"@,
        Expression::StringLiteral(_) => "char*"@,
        Expression::BooleanLiteral(_) => "bool"@,
        Expression::Identifier(n) => if m.env.contains_key(n@) {
            match m.env[n@] {
                TypeModel::Kain => "long long"@,
                TypeModel::Sar => "char*"@,
                TypeModel::Sit => "bool"@,
                _ => "void*"@,
            }
        } else {
            "long long"@
        },
        _ => "long long"@,
    }
}

/// The element type of an array literal.
pub open spec fn elements_c_type(m: CgModel, es: Seq<Expression>) -> Seq<char> {
    if es.len() == 0 {
        "long long"@
    } else {
        guess_c_type(m, es[0])
    }
}

/// The `printf` format for printing an expression.
pub open spec fn print_format(m: CgModel, e: Expression) -> Seq<char> {
    let int_fmt = "\"%lld\\n\""@;
    match e {
        Expression::StringLiteral(_) => "\"%s\\n\""@,
        Expression::BooleanLiteral(_) => "\"%d\\n\""@,
        Expression::Identifier(n) => if m.env.contains_key(n@) {
            match m.env[n@] {
                TypeModel::Kain => int_fmt,
                TypeModel::Sar => "\"%s\\n\""@,
                TypeModel::Sit => "\"%d\\n\""@,
                TypeModel::Array(_) => "\"[Array]\\n\""@,
                TypeModel::Dict(_, _) => "\"[HashMap]\\n\""@,
                _ => int_fmt,
            }
        } else {
            int_fmt
        },
        _ => int_fmt,
    }
}

/// `pya` prints with the `printf` format of the value's type: a text with
/// `%s`, a truth value with `%d`, an integer with `%lld`, each followed by a
/// line break; a declared variable is printed by its declared type.
pub proof fn law_print_formats(m: CgModel, e: Expression)
    ensures
        e is StringLiteral ==> print_format(m, e) == "\"%s\\n\""@,
        e is BooleanLiteral ==> print_format(m, e) == "\"%d\\n\""@,
        e is IntegerLiteral ==> print_format(m, e) == "\"%lld\\n\""@,
        (e matches Expression::Identifier(n) && m.env.contains_key(n@) && m.env[n@] == TypeModel::Kain)
            ==> print_format(m, e) == "\"%lld\\n\""@,
        (e matches Expression::Identifier(n) && m.env.contains_key(n@) && m.env[n@] == TypeModel::Sar)
            ==> print_format(m, e) == "\"%s\\n\""@,
        (e matches Expression::Identifier(n) && m.env.contains_key(n@) && m.env[n@] == TypeModel::Sit)
            ==> print_format(m, e) == "\"%d\\n\""@,
{
}

/// Literals and names in C: an integer is its decimal text, a text is
/// itself in double quotes, `hman`/`hmar` are `true`/`false`, a name is its
/// C identifier; joining two texts with `+` calls `mlang_concat`, and any
/// other binary expression is its operands around the same operator, in
/// parentheses.
pub proof fn law_c_expressions(m: CgModel, e: Expression)
    ensures
        e is IntegerLiteral ==> cg_expr(m, e) == int_text(e->IntegerLiteral_0 as int),
        e is StringLiteral ==> cg_expr(m, e) == seq!['"'] + e->StringLiteral_0@ + seq!['"'],
        e == Expression::BooleanLiteral(true) ==> cg_expr(m, e) == "true"@,
        e == Expression::BooleanLiteral(false) ==> cg_expr(m, e) == "false"@,
        e is Identifier ==> cg_expr(m, e) == c_ident(e->Identifier_0@),
        (e is Binary && e->Binary_operator@ == "+"@ && is_string_expr(m, *e->Binary_left)) ==> cg_expr(m, e)
            == "mlang_concat("@ + cg_expr(m, *e->Binary_left) + ", "@ + cg_expr(m, *e->Binary_right) + ")"@,
        (e is Binary && !(e->Binary_operator@ == "+"@ && is_string_expr(m, *e->Binary_left))) ==> cg_expr(m, e)
            == "("@ + cg_expr(m, *e->Binary_left) + seq![' '] + e->Binary_operator@ + seq![' '] + cg_expr(
            m,
            *e->Binary_right,
        ) + ")"@,
{
}

/// An expression as C.
pub open spec fn cg_expr(m: CgModel, e: Expression) -> Seq<char>
    decreases e, 1nat,
{
    match e {
        Expression::IntegerLiteral(v) => int_text(v as int),
        Expression::StringLiteral(v) => seq!['"'] + v@ + seq!['"'],
        Expression::BooleanLiteral(b) => if b {
            "true"@
        } else {
            "false"@
        },
        Expression::Identifier(n) => c_ident(n@),
        Expression::Binary { left, operator, right } => if operator@ == "+"@ && is_string_expr(m, *left) {
            "mlang_concat("@ + cg_expr(m, *left) + ", "@ + cg_expr(m, *right) + ")"@
        } else {
            "("@ + cg_expr(m, *left) + seq![' '] + operator@ + seq![' '] + cg_expr(m, *right) + ")"@
        },
        Expression::FunctionCall { function, arguments } => c_ident(function@) + "("@ + join(
            cg_exprs(m, arguments@),
            ", "@,
        ) + ")"@,
        Expression::ArrayLiteral { elements } => "("@ + elements_c_type(m, elements@) + "[]){"@ + join(
            cg_exprs(m, elements@),
            ", "@,
        ) + "}"@,
        Expression::HashLiteral { .. } => "NULL /* true HashMap requires complex C runtime */"@,
        Expression::IndexExpression { left, index } => cg_expr(m, *left) + "["@ + cg_expr(m, *index)
            + "]"@,
        Expression::ReadInput { prompt } => "mlang_read_input("@ + cg_expr(m, *prompt) + ")"@,
        _ => Seq::empty(),
    }
}

pub open spec fn cg_exprs(m: CgModel, es: Seq<Expression>) -> Seq<Seq<char>>
    decreases es, 0nat,
{
    if es.len() == 0 {
        Seq::empty()
    } else {
        seq![cg_expr(m, es[0])] + cg_exprs(m, es.drop_first())
    }
}

/// The simple C texts of the elements of an array literal.
pub open spec fn simple_items(es: Seq<Expression>) -> Seq<Seq<char>> {
    Seq::new(es.len(), |i: int| simple_c(es[i]))
}

/// The text without any `"`.
pub open spec fn without_quotes(s: Seq<char>) -> Seq<char>
    decreases s.len(),
{
    if s.len() == 0 {
        Seq::empty()
    } else {
        without_quotes(s.drop_last()) + if s.last() == '"' {
            Seq::empty()
        } else {
            seq![s.last()]
        }
    }
}

/// `type name` items of a C parameter list.
pub open spec fn c_params(ps: Seq<(String, Type, crate::ast::Span)>) -> Seq<Seq<char>> {
    Seq::new(ps.len(), |i: int| c_type(ps[i].1.model()) + seq![' '] + c_ident(ps[i].0@))
}

/// A statement as C: the generator's state afterwards and the text.
pub open spec fn cg_stmt(m: CgModel, s: Statement) -> (CgModel, Seq<char>)
    decreases s, 2nat,
{
    let ind = indent_text(m.indent as nat);
    match s {
        Statement::Let { name, value, ty, .. } => {
            let m1 = CgModel { env: m.env.insert(name@, ty.model()), ..m };
            let t1 = ind + c_type(ty.model()) + seq![' '] + c_ident(name@) + " = "@ + cg_expr(m1, value)
                + ";\n"@;
            match (ty, array_len(m1, value)) {
                (Type::Array(_), Some(len)) => (
                    CgModel { lens: m1.lens.insert(name@, len), ..m1 },
                    t1 + ind + "long long "@ + c_ident(name@) + "_len = "@ + nat_digits(len as nat)
                        + ";\n"@,
                ),
                _ => (m1, t1),
            }
        },
        Statement::Assign { name, value, .. } => {
            let t1 = ind + c_ident(name@) + " = "@ + cg_expr(m, value) + ";\n"@;
            let is_array = m.env.contains_key(name@) && m.env[name@] is Array;
            match array_len(m, value) {
                Some(len) => if is_array {
                    (
                        CgModel { lens: m.lens.insert(name@, len), ..m },
                        t1 + ind + c_ident(name@) + "_len = "@ + nat_digits(len as nat) + ";\n"@,
                    )
                } else {
                    (m, t1)
                },
                None => (m, t1),
            }
        },
        Statement::FunctionDecl { name, parameters, return_type, body, .. } => {
            let head = if name@ == "main"@ {
                "int main("@
            } else {
                c_type(return_type.model()) + seq![' '] + c_ident(name@) + "("@
            };
            let (m1, b) = cg_block(m, body);
            (m1, ind + head + join(c_params(parameters@), ", "@) + ") "@ + b + "\n"@)
        },
        Statement::Return { value } => (m, ind + "return "@ + cg_expr(m, value) + ";\n"@),
        Statement::Print { value } => (
            m,
            ind + "printf("@ + print_format(m, value) + ", "@ + cg_expr(m, value) + ");\n"@,
        ),
        Statement::If { .. } => {
            let (m1, t) = cg_if(m, s);
            (m1, ind + t + "\n"@)
        },
        Statement::While { condition, body } => {
            let (m1, b) = cg_block(m, body);
            (m1, ind + "while ("@ + cg_expr(m, condition) + ") "@ + b + "\n"@)
        },
        Statement::ForIn { .. } => cg_for_in(m, s),
        Statement::ExpressionStatement(e) => (m, ind + cg_expr(m, e) + ";\n"@),
        Statement::Import { module, .. } => (m, "#include \""@ + without_quotes(module@) + ".c\"\n"@),
        _ => (m, Seq::empty()),
    }
}

/// An if statement as C, from `if` to its last `}` (no indentation before,
/// no line break after).
pub open spec fn cg_if(m: CgModel, s: Statement) -> (CgModel, Seq<char>)
    decreases s, 1nat,
{
    match s {
        Statement::If { condition, consequence, alternative } => {
            let c = cg_expr(m, condition);
            let (m1, b) = cg_block(m, consequence);
            let (m2, a) = match alternative {
                Some(IfAlternative::Else(block)) => {
                    let (mb, tb) = cg_block(m1, block);
                    (mb, " else "@ + tb)
                },
                Some(IfAlternative::ElseIf(inner)) => {
                    let (me, te) = cg_elif(m1, *inner);
                    (me, " else "@ + te)
                },
                None => (m1, Seq::empty()),
            };
            (m2, "if ("@ + c + ") "@ + b + a)
        },
        _ => (m, Seq::empty()),
    }
}

/// The statement after `else`: an if chain without indentation, or the
/// statement as usual.
pub open spec fn cg_elif(m: CgModel, s: Statement) -> (CgModel, Seq<char>)
    decreases s, 3nat,
{
    match s {
        Statement::If { .. } => cg_if(m, s),
        _ => cg_stmt(m, s),
    }
}

/// A block as C: `{`, its statements one level deeper, and `}`.
pub open spec fn cg_block(m: CgModel, b: BlockStatement) -> (CgModel, Seq<char>)
    decreases b, 1nat,
{
    let (m1, t) = cg_stmts(cg_in(m), b.statements@);
    (cg_out(m1, m.indent), "{\n"@ + t + indent_text(m.indent as nat) + "}"@)
}

pub open spec fn cg_stmts(m: CgModel, ss: Seq<Statement>) -> (CgModel, Seq<char>)
    decreases ss, 0nat,
{
    if ss.len() == 0 {
        (m, Seq::empty())
    } else {
        let (m1, t1) = cg_stmt(m, ss[0]);
        let (m2, t2) = cg_stmts(m1, ss.drop_first());
        (m2, t1 + t2)
    }
}

/// What a for-in loop iterates over in C, with its length: an array
/// variable of known length, or an array literal.
pub open spec fn for_target(m: CgModel, collection: Expression) -> Option<(Seq<char>, usize)> {
    match collection {
        Expression::Identifier(n) => if m.lens.contains_key(n@) {
            Some((c_ident(n@), m.lens[n@]))
        } else {
            None
        },
        Expression::ArrayLiteral { elements } => Some(
            (
                "("@ + elements_c_type(m, elements@) + "[]){"@ + join(simple_items(elements@), ", "@)
                    + "}"@,
                elements.len(),
            ),
        ),
        _ => None,
    }
}

/// The name of the index of the loop numbered `k`.
pub open spec fn loop_index(k: usize) -> Seq<char> {
    "__mlang_i"@ + nat_digits(k as nat)
}

/// A counting C loop that binds `iterator` to each item of `coll`, then
/// runs the body.
pub open spec fn cg_loop(
    m: CgModel,
    iterator: Seq<char>,
    item: TypeModel,
    coll: Seq<char>,
    len: usize,
    body: BlockStatement,
) -> (CgModel, Seq<char>)
    decreases body, 2nat,
{
    let idx = loop_index(m.counter);
    let m1 = CgModel {
        counter: if m.counter < usize::MAX {
            (m.counter + 1) as usize
        } else {
            m.counter
        },
        env: m.env.insert(iterator, item),
        ..m
    };
    let m2 = cg_in(m1);
    let head = loop_head(m.indent, idx, len, item, iterator, coll);
    let (m3, t) = cg_stmts(m2, body.statements@);
    (cg_out(m3, m.indent), head + t + indent_text(m.indent as nat) + "}\n"@)
}

/// The first lines of a counting loop: the `for` line, and the line one
/// level deeper that binds the iterator to the current item.
pub open spec fn loop_head(
    level: usize,
    idx: Seq<char>,
    len: usize,
    item: TypeModel,
    iterator: Seq<char>,
    coll: Seq<char>,
) -> Seq<char> {
    for_line(level, idx, len) + bind_line(deeper(level), item, iterator, coll, idx)
}

pub open spec fn for_line(level: usize, idx: Seq<char>, len: usize) -> Seq<char> {
    indent_text(level as nat) + "for (long long "@ + idx + " = 0; "@ + idx + " < "@ + nat_digits(
        len as nat,
    ) + "; "@ + idx + "++) "@ + "{\n"@
}

pub open spec fn bind_line(
    level: usize,
    item: TypeModel,
    iterator: Seq<char>,
    coll: Seq<char>,
    idx: Seq<char>,
) -> Seq<char> {
    indent_text(level as nat) + c_type(item) + seq![' '] + c_ident(iterator) + " = "@ + coll + "["@
        + idx + "];\n"@
}

/// A for-in loop over an array variable of known length or an array
/// literal, as a counting C loop; anything else becomes a comment.
pub open spec fn cg_for_in(m: CgModel, s: Statement) -> (CgModel, Seq<char>)
    decreases s, 1nat,
{
    let ind = indent_text(m.indent as nat);
    match s {
        Statement::ForIn { iterator, collection, body, .. } => match infer_type(m, collection) {
            Some(TypeModel::Array(item)) => match for_target(m, collection) {
                None => (
                    m,
                    ind + match collection {
                        Expression::Identifier(_) => "/* Cannot iterate: array length unknown */\n"@,
                        _ => "/* Unsupported for-in collection expression */\n"@,
                    },
                ),
                Some((coll, len)) => cg_loop(m, iterator@, *item, coll, len, body),
            },
            _ => (m, ind + "/* Unsupported for-in collection type */\n"@),
        },
        _ => (m, Seq::empty()),
    }
}

/// The C helpers every program starts with: the includes, string
/// concatenation and reading a line of input.
pub open spec fn c_prelude() -> Seq<char> {
    c_includes() + c_concat_helper() + c_read_input_helper()
}

pub open spec fn c_includes() -> Seq<char> {
    "#include <stdio.h>\n"@ + "#include <stdbool.h>\n"@ + "#include <string.h>\n"@
        + "#include <stdlib.h>\n\n"@
}

pub open spec fn c_concat_helper() -> Seq<char> {
    "char* mlang_concat(const char* s1, const char* s2) {\n"@
        + "    char* result = malloc(strlen(s1) + strlen(s2) + 1);\n"@ + "    strcpy(result, s1);\n"@
        + "    strcat(result, s2);\n"@ + "    return result;\n"@ + "}\n\n"@
}

pub open spec fn c_read_input_helper() -> Seq<char> {
    "char* mlang_read_input(const char* prompt) {\n"@ + "    if (prompt && strlen(prompt) > 0) {\n"@
        + "        printf(\"%s\", prompt);\n"@ + "    }\n"@ + "    char buffer[1024];\n"@
        + "    if (fgets(buffer, sizeof(buffer), stdin) != NULL) {\n"@
        + "        size_t len = strlen(buffer);\n"@
        + "        if (len > 0 && buffer[len-1] == '\\n') buffer[len-1] = '\\0';\n"@
        + "        char* result = malloc(strlen(buffer) + 1);\n"@ + "        strcpy(result, buffer);\n"@
        + "        return result;\n"@ + "    }\n"@
        + "    char* empty = malloc(1); empty[0] = '\\0'; return empty;\n"@ + "}\n\n"@
}

// ----------------------------------------------------------------------
// The generator

/// The declared type of each name: the latest binding wins.
pub open spec fn type_map(v: Seq<(String, Type)>) -> Map<Seq<char>, TypeModel>
    decreases v.len(),
{
    if v.len() == 0 {
        Map::empty()
    } else {
        type_map(v.drop_last()).insert(v.last().0@, v.last().1.model())
    }
}

/// The known length of each array name: the latest binding wins.
pub open spec fn len_map(v: Seq<(String, usize)>) -> Map<Seq<char>, usize>
    decreases v.len(),
{
    if v.len() == 0 {
        Map::empty()
    } else {
        len_map(v.drop_last()).insert(v.last().0@, v.last().1)
    }
}

/// Generates C source for a program.
pub struct CodeGenerator {
    pub output: String,
    indent_level: usize,
    environment: Vec<(String, Type)>,
    array_lengths: Vec<(String, usize)>,
    loop_counter: usize,
}

impl CodeGenerator {
    /// What the generator knows.
    pub closed spec fn model(&self) -> CgModel {
        CgModel {
            indent: self.indent_level,
            env: type_map(self.environment@),
            lens: len_map(self.array_lengths@),
            counter: self.loop_counter,
        }
    }

    /// The text generated so far.
    pub closed spec fn text(&self) -> Seq<char> {
        self.output@
    }

    /// A generator with empty output that knows nothing yet.
    pub fn new() -> (g: CodeGenerator)
        ensures
            g.text() == Seq::<char>::empty(),
            g.model() == (CgModel { indent: 0, env: Map::empty(), lens: Map::empty(), counter: 0 }),
    {
        let g = CodeGenerator {
            output: String::new(),
            indent_level: 0,
            environment: Vec::new(),
            array_lengths: Vec::new(),
            loop_counter: 0,
        };
        assert(g.model() =~= (CgModel { indent: 0, env: Map::empty(), lens: Map::empty(), counter: 0 }));
        g
    }

    fn env_get(&self, name: &str) -> (r: Option<&Type>)
        ensures
            match r {
                Some(t) => self.model().env.contains_key(name@) && self.model().env[name@] == t.model(),
                None => !self.model().env.contains_key(name@),
            },
    {
        let v = &self.environment;
        let mut i = v.len();
        assert(v@.subrange(0, i as int) =~= v@);
        while i > 0
            invariant
                i <= v.len(),
                v@ == self.environment@,
                type_map(v@.subrange(0, i as int)).contains_key(name@) == type_map(v@).contains_key(
                    name@,
                ),
                type_map(v@.subrange(0, i as int)).contains_key(name@) ==> type_map(
                    v@.subrange(0, i as int),
                )[name@] == type_map(v@)[name@],
            decreases i,
        {
            let ghost pre = v@.subrange(0, i as int);
            assert(pre.drop_last() =~= v@.subrange(0, i - 1));
            if str_eq(v[i - 1].0.as_str(), name) {
                assert(pre.last() == v@[i - 1]);
                return Some(&v[i - 1].1);
            }
            i = i - 1;
        }
        assert(type_map(v@.subrange(0, 0)) =~= Map::<Seq<char>, TypeModel>::empty());
        None
    }

    fn len_get(&self, name: &str) -> (r: Option<usize>)
        ensures
            match r {
                Some(n) => self.model().lens.contains_key(name@) && self.model().lens[name@] == n,
                None => !self.model().lens.contains_key(name@),
            },
    {
        let v = &self.array_lengths;
        let mut i = v.len();
        assert(v@.subrange(0, i as int) =~= v@);
        while i > 0
            invariant
                i <= v.len(),
                v@ == self.array_lengths@,
                len_map(v@.subrange(0, i as int)).contains_key(name@) == len_map(v@).contains_key(
                    name@,
                ),
                len_map(v@.subrange(0, i as int)).contains_key(name@) ==> len_map(
                    v@.subrange(0, i as int),
                )[name@] == len_map(v@)[name@],
            decreases i,
        {
            let ghost pre = v@.subrange(0, i as int);
            assert(pre.drop_last() =~= v@.subrange(0, i - 1));
            if str_eq(v[i - 1].0.as_str(), name) {
                assert(pre.last() == v@[i - 1]);
                return Some(v[i - 1].1);
            }
            i = i - 1;
        }
        assert(len_map(v@.subrange(0, 0)) =~= Map::<Seq<char>, usize>::empty());
        None
    }

    fn env_insert(&mut self, name: &String, ty: &Type)
        ensures
            final(self).model() == (CgModel {
                env: old(self).model().env.insert(name@, ty.model()),
                ..old(self).model()
            }),
            final(self).output == old(self).output,
    {
        let n = name.clone();
        let t = crate::ast::copy_type(ty);
        self.environment.push((n, t));
        assert(self.environment@.drop_last() =~= old(self).environment@);
        assert(self.model() =~= (CgModel {
            env: old(self).model().env.insert(name@, ty.model()),
            ..old(self).model()
        }));
    }

    fn len_insert(&mut self, name: &String, len: usize)
        ensures
            final(self).model() == (CgModel {
                lens: old(self).model().lens.insert(name@, len),
                ..old(self).model()
            }),
            final(self).output == old(self).output,
    {
        let n = name.clone();
        self.array_lengths.push((n, len));
        assert(self.array_lengths@.drop_last() =~= old(self).array_lengths@);
        assert(self.model() =~= (CgModel {
            lens: old(self).model().lens.insert(name@, len),
            ..old(self).model()
        }));
    }
}

/// Appends the C type of a type.
pub fn push_c_type(out: &mut Vec<char>, t: &Type)
    ensures
        final(out)@ == old(out)@ + c_type(t.model()),
    decreases t,
{
    match t {
        Type::Kain => push_str(out, "long long"),
        Type::Sar => push_str(out, "char*"),
        Type::Sit => push_str(out, "bool"),
        Type::Array(inner) => {
            push_c_type(out, inner);
            push_str(out, "*");
        },
        Type::HashMap(_, _) => push_str(out, "void* /* HashMap */"),
        _ => push_str(out, "void*"),
    }
}

/// Appends a simple expression as C text (`0` for anything else).
fn push_simple_c(out: &mut Vec<char>, e: &Expression)
    ensures
        final(out)@ == old(out)@ + simple_c(*e),
{
    match e {
        Expression::IntegerLiteral(v) => push_i64(out, *v),
        Expression::StringLiteral(v) => {
            out.push('"');
            push_string(out, v);
            out.push('"');
        },
        Expression::BooleanLiteral(b) => {
            if *b {
                push_str(out, "true");
            } else {
                push_str(out, "false");
            }
        },
        Expression::Identifier(n) => push_c_ident(out, n.as_str()),
        _ => push_str(out, "0"),
    }
    assert(final(out)@ =~= old(out)@ + simple_c(*e));
}

impl CodeGenerator {
    fn is_string_expression(&self, e: &Expression) -> (r: bool)
        ensures
            r == is_string_expr(self.model(), *e),
        decreases e,
    {
        match e {
            Expression::StringLiteral(_) => true,
            Expression::Identifier(n) => match self.env_get(n.as_str()) {
                Some(Type::Sar) => true,
                _ => false,
            },
            Expression::ReadInput { .. } => true,
            Expression::Binary { left, operator, .. } => {
                if str_eq(operator.as_str(), "+") {
                    self.is_string_expression(left)
                } else {
                    false
                }
            },
            _ => false,
        }
    }

    fn infer_array_length(&self, e: &Expression) -> (r: Option<usize>)
        ensures
            r == array_len(self.model(), *e),
    {
        match e {
            Expression::ArrayLiteral { elements } => Some(elements.len()),
            Expression::Identifier(n) => self.len_get(n.as_str()),
            _ => None,
        }
    }

    fn infer_expression_type(&self, e: &Expression) -> (r: Option<Type>)
        ensures
            match r {
                Some(t) => infer_type(self.model(), *e) == Some(t.model()),
                None => infer_type(self.model(), *e) is None,
            },
        decreases e,
    {
        match e {
            Expression::IntegerLiteral(_) => Some(Type::Kain),
            Expression::StringLiteral(_) => Some(Type::Sar),
            Expression::BooleanLiteral(_) => Some(Type::Sit),
            Expression::Identifier(n) => match self.env_get(n.as_str()) {
                Some(t) => Some(crate::ast::copy_type(t)),
                None => None,
            },
            Expression::ArrayLiteral { elements } => {
                if elements.len() == 0 {
                    None
                } else {
                    match self.infer_expression_type(&elements[0]) {
                        Some(t) => Some(Type::Array(Box::new(t))),
                        None => None,
                    }
                }
            },
            Expression::ReadInput { .. } => Some(Type::Sar),
            Expression::Binary { left, operator, right } => {
                let lt = match self.infer_expression_type(left) {
                    Some(t) => t,
                    None => {
                        return None;
                    },
                };
                let rt = match self.infer_expression_type(right) {
                    Some(t) => t,
                    None => {
                        return None;
                    },
                };
                let op = operator.as_str();
                if str_eq(op, "+") || str_eq(op, "-") || str_eq(op, "*") || str_eq(op, "/") {
                    match (lt, rt) {
                        (Type::Kain, Type::Kain) => Some(Type::Kain),
                        (Type::Sar, Type::Sar) => if str_eq(op, "+") {
                            Some(Type::Sar)
                        } else {
                            None
                        },
                        _ => None,
                    }
                } else if str_eq(op, "==") || str_eq(op, "!=") || str_eq(op, ">") || str_eq(op, "<")
                    || str_eq(op, ">=") || str_eq(op, "<=") {
                    Some(Type::Sit)
                } else {
                    None
                }
            },
            _ => None,
        }
    }

    fn guess_c_type(&self, e: &Expression) -> (r: &'static str)
        ensures
            r@ == guess_c_type(self.model(), *e),
    {
        match e {
            Expression::IntegerLiteral(_) => "long long",
            Expression::StringLiteral(_) => "char*",
            Expression::BooleanLiteral(_) => "bool",
            Expression::Identifier(n) => match self.env_get(n.as_str()) {
                Some(t) => match t {
                    Type::Kain => "long long",
                    Type::Sar => "char*",
                    Type::Sit => "bool",
                    _ => "void*",
                },
                None => "long long",
            },
            _ => "long long",
        }
    }

    fn elements_c_type(&self, es: &Vec<Expression>) -> (r: &'static str)
        ensures
            r@ == elements_c_type(self.model(), es@),
    {
        if es.len() == 0 {
            "long long"
        } else {
            self.guess_c_type(&es[0])
        }
    }

    fn generate_print_format(&self, out: &mut Vec<char>, e: &Expression)
        ensures
            final(out)@ == old(out)@ + print_format(self.model(), *e),
    {
        match e {
            Expression::StringLiteral(_) => push_str(out, "\"%s\\n\""),
            Expression::BooleanLiteral(_) => push_str(out, "\"%d\\n\""),
            Expression::Identifier(n) => match self.env_get(n.as_str()) {
                Some(t) => match t {
                    Type::Kain => push_str(out, "\"%lld\\n\""),
                    Type::Sar => push_str(out, "\"%s\\n\""),
                    Type::Sit => push_str(out, "\"%d\\n\""),
                    Type::Array(_) => push_str(out, "\"[Array]\\n\""),
                    Type::HashMap(_, _) => push_str(out, "\"[HashMap]\\n\""),
                    _ => push_str(out, "\"%lld\\n\""),
                },
                None => push_str(out, "\"%lld\\n\""),
            },
            _ => push_str(out, "\"%lld\\n\""),
        }
    }

    fn indent(&self, out: &mut Vec<char>)
        ensures
            final(out)@ == old(out)@ + indent_text(self.model().indent as nat),
    {
        push_indent(out, self.indent_level);
    }
}

impl CodeGenerator {
    fn generate_expression(&self, out: &mut Vec<char>, e: &Expression)
        ensures
            final(out)@ == old(out)@ + cg_expr(self.model(), *e),
        decreases e, 1nat,
    {
        let ghost m = self.model();
        match e {
            Expression::IntegerLiteral(v) => push_i64(out, *v),
            Expression::StringLiteral(v) => {
                out.push('"');
                push_string(out, v);
                out.push('"');
            },
            Expression::BooleanLiteral(b) => {
                if *b {
                    push_str(out, "true");
                } else {
                    push_str(out, "false");
                }
            },
            Expression::Identifier(n) => push_c_ident(out, n.as_str()),
            Expression::Binary { left, operator, right } => {
                if str_eq(operator.as_str(), "+") && self.is_string_expression(left) {
                    push_str(out, "mlang_concat(");
                    self.generate_expression(out, left);
                    push_str(out, ", ");
                    self.generate_expression(out, right);
                    push_str(out, ")");
                } else {
                    push_str(out, "(");
                    self.generate_expression(out, left);
                    out.push(' ');
                    push_string(out, operator);
                    out.push(' ');
                    self.generate_expression(out, right);
                    push_str(out, ")");
                }
            },
            Expression::FunctionCall { function, arguments } => {
                let items = self.expr_items(arguments);
                push_c_ident(out, function.as_str());
                push_str(out, "(");
                push_join(out, &items, ", ");
                push_str(out, ")");
            },
            Expression::ArrayLiteral { elements } => {
                let ct = self.elements_c_type(elements);
                let items = self.expr_items(elements);
                push_str(out, "(");
                push_str(out, ct);
                push_str(out, "[]){");
                push_join(out, &items, ", ");
                push_str(out, "}");
            },
            Expression::HashLiteral { .. } => {
                push_str(out, "NULL /* true HashMap requires complex C runtime */");
            },
            Expression::IndexExpression { left, index } => {
                self.generate_expression(out, left);
                push_str(out, "[");
                self.generate_expression(out, index);
                push_str(out, "]");
            },
            Expression::ReadInput { prompt } => {
                push_str(out, "mlang_read_input(");
                self.generate_expression(out, prompt);
                push_str(out, ")");
            },
            _ => {},
        }
        assert(final(out)@ =~= old(out)@ + cg_expr(m, *e));
    }

    fn expr_items(&self, es: &Vec<Expression>) -> (r: Vec<Vec<char>>)
        ensures
            items_model(r@) == cg_exprs(self.model(), es@),
        decreases es@, 0nat,
    {
        let ghost m = self.model();
        let mut out: Vec<Vec<char>> = Vec::new();
        let mut i: usize = 0;
        assert(es@.subrange(0, es.len() as int) =~= es@);
        assert(items_model(out@) =~= Seq::<Seq<char>>::empty());
        while i < es.len()
            invariant
                i <= es.len(),
                m == self.model(),
                items_model(out@) + cg_exprs(m, es@.subrange(i as int, es.len() as int)) == cg_exprs(
                    m,
                    es@,
                ),
            decreases es.len() - i,
        {
            let ghost sub = es@.subrange(i as int, es.len() as int);
            assert(sub.drop_first() =~= es@.subrange(i + 1, es.len() as int));
            assert(sub[0] == es@[i as int]);
            let mut b: Vec<char> = Vec::new();
            self.generate_expression(&mut b, &es[i]);
            assert(b@ =~= cg_expr(m, es@[i as int]));
            assert(items_model(out@.push(b)) =~= items_model(out@).push(b@));
            assert(items_model(out@).push(b@) + cg_exprs(m, sub.drop_first()) =~= items_model(out@) + cg_exprs(m, sub));
            out.push(b);
            i = i + 1;
        }
        assert(items_model(out@) + Seq::<Seq<char>>::empty() =~= items_model(out@));
        out
    }
}

/// Statements the C generator leaves out.
proof fn lemma_other_statement(m: CgModel, s: Statement)
    requires
        !(s is Let || s is Assign || s is FunctionDecl || s is If || s is While || s is ForIn
            || s is Return || s is Print || s is ExpressionStatement || s is Import),
    ensures
        cg_stmt(m, s) == (m, Seq::<char>::empty()),
{
}

/// Appends the text without any `"`.
fn push_without_quotes(out: &mut Vec<char>, s: &str)
    ensures
        final(out)@ == old(out)@ + without_quotes(s@),
{
    let cs = chars_of(s);
    let mut i: usize = 0;
    while i < cs.len()
        invariant
            i <= cs.len(),
            cs@ == s@,
            out@ == old(out)@ + without_quotes(cs@.subrange(0, i as int)),
        decreases cs.len() - i,
    {
        assert(cs@.subrange(0, i + 1).drop_last() =~= cs@.subrange(0, i as int));
        if cs[i] != '"' {
            out.push(cs[i]);
        }
        i = i + 1;
        assert(out@ =~= old(out)@ + without_quotes(cs@.subrange(0, i as int)));
    }
    assert(cs@.subrange(0, cs.len() as int) =~= s@);
}

fn simple_item_list(es: &Vec<Expression>) -> (r: Vec<Vec<char>>)
    ensures
        items_model(r@) == simple_items(es@),
{
    let mut out: Vec<Vec<char>> = Vec::new();
    let mut i: usize = 0;
    while i < es.len()
        invariant
            i <= es.len(),
            out.len() == i,
            forall|k: int| 0 <= k < i ==> (#[trigger] out@[k])@ == simple_c(es@[k]),
        decreases es.len() - i,
    {
        let mut b: Vec<char> = Vec::new();
        push_simple_c(&mut b, &es[i]);
        out.push(b);
        i = i + 1;
    }
    assert(items_model(out@) =~= simple_items(es@));
    out
}

fn c_param_list(ps: &Vec<(String, Type, crate::ast::Span)>) -> (r: Vec<Vec<char>>)
    ensures
        items_model(r@) == c_params(ps@),
{
    let mut out: Vec<Vec<char>> = Vec::new();
    let mut i: usize = 0;
    while i < ps.len()
        invariant
            i <= ps.len(),
            out.len() == i,
            forall|k: int| 0 <= k < i ==> (#[trigger] out@[k])@ == c_type(ps@[k].1.model()) + seq![' ']
                + c_ident(ps@[k].0@),
        decreases ps.len() - i,
    {
        let mut b: Vec<char> = Vec::new();
        push_c_type(&mut b, &ps[i].1);
        b.push(' ');
        push_c_ident(&mut b, ps[i].0.as_str());
        out.push(b);
        i = i + 1;
    }
    assert(items_model(out@) =~= c_params(ps@));
    out
}

impl CodeGenerator {
    fn generate_statement(&mut self, out: &mut Vec<char>, s: &Statement)
        ensures
            final(out)@ == old(out)@ + cg_stmt(old(self).model(), *s).1,
            final(self).model() == cg_stmt(old(self).model(), *s).0,
            final(self).output == old(self).output,
        decreases s, 2nat,
    {
        match s {
            Statement::Let { .. } | Statement::Assign { .. } => self.generate_binding(out, s),
            Statement::FunctionDecl { .. } => self.generate_function(out, s),
            Statement::If { .. } | Statement::While { .. } => self.generate_branching(out, s),
            Statement::ForIn { .. } => self.generate_for_in(out, s),
            Statement::Return { .. } | Statement::Print { .. } | Statement::ExpressionStatement(_) | Statement::Import { .. } => self.generate_simple(out, s),
            _ => {
                proof {
                    lemma_other_statement(self.model(), *s);
                }
                assert(out@ =~= old(out)@ + Seq::<char>::empty());
            },
        }
    }

    /// An if chain or a while loop.
    fn generate_branching(&mut self, out: &mut Vec<char>, s: &Statement)
        requires
            *s is If || *s is While,
        ensures
            final(out)@ == old(out)@ + cg_stmt(old(self).model(), *s).1,
            final(self).model() == cg_stmt(old(self).model(), *s).0,
            final(self).output == old(self).output,
        decreases s, 1nat,
    {
        let ghost m = self.model();
        match s {
            Statement::If { .. } => {
                self.indent(out);
                self.generate_if(out, s);
                push_str(out, "\n");
                assert(final(out)@ =~= old(out)@ + cg_stmt(m, *s).1);
            },
            Statement::While { condition, body } => {
                self.indent(out);
                push_str(out, "while (");
                self.generate_expression(out, condition);
                push_str(out, ") ");
                self.generate_block(out, body);
                push_str(out, "\n");
                assert(final(out)@ =~= old(out)@ + cg_stmt(m, *s).1);
            },
            _ => {},
        }
    }

    /// Statements that change nothing the generator knows.
    fn generate_simple(&mut self, out: &mut Vec<char>, s: &Statement)
        requires
            *s is Return || *s is Print || *s is ExpressionStatement || *s is Import,
        ensures
            final(out)@ == old(out)@ + cg_stmt(old(self).model(), *s).1,
            final(self).model() == cg_stmt(old(self).model(), *s).0,
            final(self).output == old(self).output,
    {
        let ghost m = self.model();
        match s {
            Statement::Return { value } => {
                self.indent(out);
                push_str(out, "return ");
                self.generate_expression(out, value);
                push_str(out, ";\n");
            },
            Statement::Print { value } => {
                self.indent(out);
                push_str(out, "printf(");
                self.generate_print_format(out, value);
                push_str(out, ", ");
                self.generate_expression(out, value);
                push_str(out, ");\n");
            },
            Statement::ExpressionStatement(e) => {
                self.indent(out);
                self.generate_expression(out, e);
                push_str(out, ";\n");
            },
            Statement::Import { module, .. } => {
                push_str(out, "#include \"");
                push_without_quotes(out, module.as_str());
                push_str(out, ".c\"\n");
            },
            _ => {},
        }
        assert(final(out)@ =~= old(out)@ + cg_stmt(m, *s).1);
    }

    /// A binding or an assignment, with the length of an array when it is
    /// known.
    #[verifier::rlimit(100)]
    #[verifier::spinoff_prover]
    fn generate_binding(&mut self, out: &mut Vec<char>, s: &Statement)
        requires
            *s is Let || *s is Assign,
        ensures
            final(out)@ == old(out)@ + cg_stmt(old(self).model(), *s).1,
            final(self).model() == cg_stmt(old(self).model(), *s).0,
            final(self).output == old(self).output,
        decreases s, 1nat,
    {
        let ghost m = self.model();
        match s {
            Statement::Let { name, value, ty, .. } => {
                self.env_insert(name, ty);
                let ghost m1 = self.model();
                self.indent(out);
                push_c_type(out, ty);
                out.push(' ');
                push_c_ident(out, name.as_str());
                push_str(out, " = ");
                self.generate_expression(out, value);
                push_str(out, ";\n");
                let ghost t1 = out@;
                match ty {
                    Type::Array(_) => match self.infer_array_length(value) {
                        Some(len) => {
                            self.len_insert(name, len);
                            self.indent(out);
                            push_str(out, "long long ");
                            push_c_ident(out, name.as_str());
                            push_str(out, "_len = ");
                            push_usize(out, len);
                            push_str(out, ";\n");
                        },
                        None => {},
                    },
                    _ => {},
                }
                assert(final(out)@ =~= old(out)@ + cg_stmt(m, *s).1);
            },
            Statement::Assign { name, value, .. } => {
                self.indent(out);
                push_c_ident(out, name.as_str());
                push_str(out, " = ");
                self.generate_expression(out, value);
                push_str(out, ";\n");
                let is_array = match self.env_get(name.as_str()) {
                    Some(Type::Array(_)) => true,
                    _ => false,
                };
                if is_array {
                    match self.infer_array_length(value) {
                        Some(len) => {
                            self.len_insert(name, len);
                            self.indent(out);
                            push_c_ident(out, name.as_str());
                            push_str(out, "_len = ");
                            push_usize(out, len);
                            push_str(out, ";\n");
                        },
                        None => {},
                    }
                }
                assert(final(out)@ =~= old(out)@ + cg_stmt(m, *s).1);
            },
            _ => {},
        }
    }

    /// A function definition; `main` becomes C's `int main`.
    fn generate_function(&mut self, out: &mut Vec<char>, s: &Statement)
        requires
            *s is FunctionDecl,
        ensures
            final(out)@ == old(out)@ + cg_stmt(old(self).model(), *s).1,
            final(self).model() == cg_stmt(old(self).model(), *s).0,
            final(self).output == old(self).output,
        decreases s, 1nat,
    {
        let ghost m = self.model();
        match s {
            Statement::FunctionDecl { name, parameters, return_type, body, .. } => {
                self.indent(out);
                if str_eq(name.as_str(), "main") {
                    push_str(out, "int main(");
                } else {
                    push_c_type(out, return_type);
                    out.push(' ');
                    push_c_ident(out, name.as_str());
                    push_str(out, "(");
                }
                let items = c_param_list(parameters);
                push_join(out, &items, ", ");
                push_str(out, ") ");
                self.generate_block(out, body);
                push_str(out, "\n");
                assert(final(out)@ =~= old(out)@ + cg_stmt(m, *s).1);
            },
            _ => {},
        }
    }

    /// An if chain, from `if` to its last `}`.
    fn generate_if(&mut self, out: &mut Vec<char>, s: &Statement)
        requires
            *s is If,
        ensures
            final(out)@ == old(out)@ + cg_if(old(self).model(), *s).1,
            final(self).model() == cg_if(old(self).model(), *s).0,
            final(self).output == old(self).output,
        decreases s, 0nat,
    {
        let ghost m = self.model();
        match s {
            Statement::If { condition, consequence, alternative } => {
                push_str(out, "if (");
                self.generate_expression(out, condition);
                push_str(out, ") ");
                self.generate_block(out, consequence);
                match alternative {
                    Some(IfAlternative::Else(block)) => {
                        push_str(out, " else ");
                        self.generate_block(out, block);
                    },
                    Some(IfAlternative::ElseIf(inner)) => {
                        push_str(out, " else ");
                        self.generate_elif(out, inner);
                    },
                    None => {},
                }
                assert(final(out)@ =~= old(out)@ + cg_if(m, *s).1);
            },
            _ => {},
        }
    }

    fn generate_elif(&mut self, out: &mut Vec<char>, s: &Statement)
        ensures
            final(out)@ == old(out)@ + cg_elif(old(self).model(), *s).1,
            final(self).model() == cg_elif(old(self).model(), *s).0,
            final(self).output == old(self).output,
        decreases s, 3nat,
    {
        match s {
            Statement::If { .. } => self.generate_if(out, s),
            _ => self.generate_statement(out, s),
        }
    }

    fn generate_block(&mut self, out: &mut Vec<char>, b: &BlockStatement)
        ensures
            final(out)@ == old(out)@ + cg_block(old(self).model(), *b).1,
            final(self).model() == cg_block(old(self).model(), *b).0,
            final(self).output == old(self).output,
        decreases b, 1nat,
    {
        let ghost m = self.model();
        let level = self.indent_level;
        push_str(out, "{\n");
        self.indent_level = if level < usize::MAX {
            level + 1
        } else {
            level
        };
        assert(self.model() == cg_in(m));
        self.generate_statements(out, &b.statements);
        self.indent_level = level;
        push_indent(out, level);
        push_str(out, "}");
        assert(final(out)@ =~= old(out)@ + cg_block(m, *b).1);
    }

    fn generate_statements(&mut self, out: &mut Vec<char>, ss: &Vec<Statement>)
        ensures
            final(out)@ == old(out)@ + cg_stmts(old(self).model(), ss@).1,
            final(self).model() == cg_stmts(old(self).model(), ss@).0,
            final(self).output == old(self).output,
        decreases ss@, 0nat,
    {
        let ghost full = cg_stmts(self.model(), ss@);
        let mut i: usize = 0;
        assert(ss@.subrange(0, ss.len() as int) =~= ss@);
        while i < ss.len()
            invariant
                i <= ss.len(),
                self.output == old(self).output,
                cg_stmts(self.model(), ss@.subrange(i as int, ss.len() as int)).0 == full.0,
                out@ + cg_stmts(self.model(), ss@.subrange(i as int, ss.len() as int)).1 == old(out)@
                    + full.1,
            decreases ss.len() - i,
        {
            let ghost sub = ss@.subrange(i as int, ss.len() as int);
            assert(sub.drop_first() =~= ss@.subrange(i + 1, ss.len() as int));
            assert(sub[0] == ss@[i as int]);
            let ghost before = out@;
            let ghost mb = self.model();
            self.generate_statement(out, &ss[i]);
            assert(out@ + cg_stmts(self.model(), sub.drop_first()).1 =~= before + cg_stmts(mb, sub).1);
            i = i + 1;
        }
        assert(out@ + Seq::<char>::empty() =~= out@);
    }
}

fn push_for_line(out: &mut Vec<char>, level: usize, idx: &Vec<char>, len: usize)
    ensures
        final(out)@ == old(out)@ + for_line(level, idx@, len),
{
    push_indent(out, level);
    push_str(out, "for (long long ");
    push_chars(out, idx);
    push_str(out, " = 0; ");
    push_chars(out, idx);
    push_str(out, " < ");
    push_usize(out, len);
    push_str(out, "; ");
    push_chars(out, idx);
    push_str(out, "++) ");
    push_str(out, "{\n");
    assert(final(out)@ =~= old(out)@ + for_line(level, idx@, len));
}

fn push_bind_line(
    out: &mut Vec<char>,
    level: usize,
    item: &Type,
    iterator: &String,
    coll: &Vec<char>,
    idx: &Vec<char>,
)
    ensures
        final(out)@ == old(out)@ + bind_line(level, item.model(), iterator@, coll@, idx@),
{
    push_indent(out, level);
    push_c_type(out, item);
    out.push(' ');
    push_c_ident(out, iterator.as_str());
    push_str(out, " = ");
    push_chars(out, coll);
    push_str(out, "[");
    push_chars(out, idx);
    push_str(out, "];\n");
    assert(final(out)@ =~= old(out)@ + bind_line(level, item.model(), iterator@, coll@, idx@));
}

fn push_loop_head(
    out: &mut Vec<char>,
    level: usize,
    idx: &Vec<char>,
    len: usize,
    item: &Type,
    iterator: &String,
    coll: &Vec<char>,
)
    ensures
        final(out)@ == old(out)@ + loop_head(level, idx@, len, item.model(), iterator@, coll@),
{
    push_for_line(out, level, idx, len);
    let inner = if level < usize::MAX {
        level + 1
    } else {
        level
    };
    push_bind_line(out, inner, item, iterator, coll, idx);
    assert(final(out)@ =~= old(out)@ + loop_head(level, idx@, len, item.model(), iterator@, coll@));
}

impl CodeGenerator {
    fn for_in_target(&self, collection: &Expression) -> (r: Option<(Vec<char>, usize)>)
        ensures
            match r {
                Some((c, l)) => for_target(self.model(), *collection) == Some((c@, l)),
                None => for_target(self.model(), *collection) is None,
            },
    {
        match collection {
            Expression::Identifier(n) => match self.len_get(n.as_str()) {
                Some(l) => {
                    let mut coll: Vec<char> = Vec::new();
                    push_c_ident(&mut coll, n.as_str());
                    assert(coll@ =~= c_ident(n@));
                    Some((coll, l))
                },
                None => None,
            },
            Expression::ArrayLiteral { elements } => {
                let mut coll: Vec<char> = Vec::new();
                let ct = self.elements_c_type(elements);
                let items = simple_item_list(elements);
                push_str(&mut coll, "(");
                push_str(&mut coll, ct);
                push_str(&mut coll, "[]){");
                push_join(&mut coll, &items, ", ");
                push_str(&mut coll, "}");
                assert(coll@ =~= for_target(self.model(), *collection).unwrap().0);
                Some((coll, elements.len()))
            },
            _ => None,
        }
    }

    /// The counting loop of a for-in loop.
    #[verifier::rlimit(100)]
    #[verifier::spinoff_prover]
    fn generate_loop(
        &mut self,
        out: &mut Vec<char>,
        iterator: &String,
        item: &Type,
        coll: &Vec<char>,
        len: usize,
        body: &BlockStatement,
    )
        ensures
            final(out)@ == old(out)@ + cg_loop(old(self).model(), iterator@, item.model(), coll@, len, *body).1,
            final(self).model() == cg_loop(old(self).model(), iterator@, item.model(), coll@, len, *body).0,
            final(self).output == old(self).output,
        decreases body, 2nat,
    {
        let ghost m = self.model();
        let level = self.indent_level;
        let mut idx: Vec<char> = Vec::new();
        push_str(&mut idx, "__mlang_i");
        push_usize(&mut idx, self.loop_counter);
        assert(idx@ =~= loop_index(m.counter));
        if self.loop_counter < usize::MAX {
            self.loop_counter = self.loop_counter + 1;
        }
        self.env_insert(iterator, item);
        push_loop_head(out, level, &idx, len, item, iterator, coll);
        self.indent_level = if level < usize::MAX {
            level + 1
        } else {
            level
        };
        let ghost m2 = self.model();
        let ghost before = out@;
        self.generate_statements(out, &body.statements);
        let ghost m3 = self.model();
        self.indent_level = level;
        assert(self.model() == cg_out(m3, m.indent));
        push_indent(out, level);
        push_str(out, "}\n");
        assert(final(out)@ =~= old(out)@ + cg_loop(m, iterator@, item.model(), coll@, len, *body).1);
    }

    /// A for-in loop over an array variable of known length or an array
    /// literal, as a counting C loop.
    #[verifier::rlimit(100)]
    #[verifier::spinoff_prover]
    fn generate_for_in(&mut self, out: &mut Vec<char>, s: &Statement)
        requires
            *s is ForIn,
        ensures
            final(out)@ == old(out)@ + cg_stmt(old(self).model(), *s).1,
            final(self).model() == cg_stmt(old(self).model(), *s).0,
            final(self).output == old(self).output,
        decreases s, 1nat,
    {
        let ghost m = self.model();
        match s {
            Statement::ForIn { iterator, collection, body, .. } => {
                match self.infer_expression_type(collection) {
                    Some(Type::Array(inner)) => {
                        match self.for_in_target(collection) {
                            None => {
                                self.indent(out);
                                match collection {
                                    Expression::Identifier(_) => push_str(
                                        out,
                                        "/* Cannot iterate: array length unknown */\n",
                                    ),
                                    _ => push_str(out, "/* Unsupported for-in collection expression */\n"),
                                }
                                assert(final(out)@ =~= old(out)@ + cg_stmt(m, *s).1);
                            },
                            Some((coll, len)) => {
                                self.generate_loop(out, iterator, &inner, &coll, len, body);
                            },
                        }
                    },
                    _ => {
                        self.indent(out);
                        push_str(out, "/* Unsupported for-in collection type */\n");
                        assert(final(out)@ =~= old(out)@ + cg_stmt(m, *s).1);
                    },
                }
            },
            _ => {},
        }
    }
}

fn push_includes(out: &mut Vec<char>)
    ensures
        final(out)@ == old(out)@ + c_includes(),
{
    push_str(out, "#include <stdio.h>\n");
    push_str(out, "#include <stdbool.h>\n");
    push_str(out, "#include <string.h>\n");
    push_str(out, "#include <stdlib.h>\n\n");
    assert(final(out)@ =~= old(out)@ + c_includes());
}

fn push_concat_helper(out: &mut Vec<char>)
    ensures
        final(out)@ == old(out)@ + c_concat_helper(),
{
    push_str(out, "char* mlang_concat(const char* s1, const char* s2) {\n");
    push_str(out, "    char* result = malloc(strlen(s1) + strlen(s2) + 1);\n");
    push_str(out, "    strcpy(result, s1);\n");
    push_str(out, "    strcat(result, s2);\n");
    push_str(out, "    return result;\n");
    push_str(out, "}\n\n");
    assert(final(out)@ =~= old(out)@ + c_concat_helper());
}

fn push_read_input_helper(out: &mut Vec<char>)
    ensures
        final(out)@ == old(out)@ + c_read_input_helper(),
{
    let ghost start = out@;
    push_str(out, "char* mlang_read_input(const char* prompt) {\n");
    push_str(out, "    if (prompt && strlen(prompt) > 0) {\n");
    push_str(out, "        printf(\"%s\", prompt);\n");
    push_str(out, "    }\n");
    push_str(out, "    char buffer[1024];\n");
    push_str(out, "    if (fgets(buffer, sizeof(buffer), stdin) != NULL) {\n");
    push_str(out, "        size_t len = strlen(buffer);\n");
    assert(out@ =~= start + "char* mlang_read_input(const char* prompt) {\n"@
        + "    if (prompt && strlen(prompt) > 0) {\n"@ + "        printf(\"%s\", prompt);\n"@ + "    }\n"@
        + "    char buffer[1024];\n"@ + "    if (fgets(buffer, sizeof(buffer), stdin) != NULL) {\n"@
        + "        size_t len = strlen(buffer);\n"@);
    push_str(out, "        if (len > 0 && buffer[len-1] == '\\n') buffer[len-1] = '\\0';\n");
    push_str(out, "        char* result = malloc(strlen(buffer) + 1);\n");
    push_str(out, "        strcpy(result, buffer);\n");
    push_str(out, "        return result;\n");
    push_str(out, "    }\n");
    push_str(out, "    char* empty = malloc(1); empty[0] = '\\0'; return empty;\n");
    push_str(out, "}\n\n");
    assert(final(out)@ =~= old(out)@ + c_read_input_helper());
}

impl CodeGenerator {
    /// The C program for `program`, after the text generated so far; the
    /// generator keeps what it learned about names and array lengths.
    pub fn generate(&mut self, program: &Program) -> (r: String)
        ensures
            r@ == old(self).text() + c_prelude() + cg_stmts(old(self).model(), program.statements@).1,
            final(self).text() == r@,
            final(self).model() == cg_stmts(old(self).model(), program.statements@).0,
    {
        let ghost m = self.model();
        let mut buf = chars_of(self.output.as_str());
        push_includes(&mut buf);
        push_concat_helper(&mut buf);
        push_read_input_helper(&mut buf);
        self.generate_statements(&mut buf, &program.statements);
        self.output = string_of(buf.as_slice());
        assert(self.model() == cg_stmts(m, program.statements@).0);
        assert(buf@ =~= old(self).text() + c_prelude() + cg_stmts(m, program.statements@).1);
        self.output.clone()
    }
}

impl Expression {
    /// Leaves the output as it is: printing needs nothing more than its
    /// format and its value.
    pub fn dummy_print_format(out: &mut String, expr: &Expression)
        ensures
            *final(out) == *old(out),
    {
    }
}

} // verus!
