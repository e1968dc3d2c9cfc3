//! What an editor shows when the cursor rests on a word: the documentation
//! of a keyword, or what the analysis knows of a declared name.
use vstd::prelude::*;

use crate::analysis::{
    format_type, get_word_at_position, opt_type_model, symbols_model, type_display, word_at, AnalysisResult,
    SymbolInfo, SymbolKindInfo, SymbolModel,
};
use crate::ast::{Type, TypeModel};
use crate::document::rope_text;
use crate::formatter::{items_model, join, push_join};
use crate::text::{push_str, push_string, str_eq, string_of};
use ropey::Rope;

verus! {

/// The documentation shown for a keyword, if the word is one.
pub open spec fn keyword_doc(word: Seq<char>) -> Option<Seq<char>> {
    if word == "kain"@ {
        Some("**kain** — Integer type declaration\n\nDeclares a variable of type `int`.\n\n```\nkain age = 20;\n```"@)
    } else if word == "sar"@ {
        Some("**sar** — String type declaration\n\nDeclares a variable of type `string`.\n\n```\nsar name = \"Aung\";\n```"@)
    } else if word == "sit"@ {
        Some("**sit** — Boolean type declaration\n\nDeclares a variable of type `bool`.\n\n```\nsit flag = hman;\n```"@)
    } else if word == "hman"@ {
        Some("**hman** — Boolean literal `true`"@)
    } else if word == "hmar"@ {
        Some("**hmar** — Boolean literal `false`"@)
    } else if word == "hlyin"@ {
        Some("**hlyin** — If statement\n\nConditional branching.\n\n```\nhlyin (condition) {\n    // ...\n} mo {\n    // ...\n}\n```"@)
    } else if word == "mo"@ {
        Some("**mo** — Else clause\n\nUsed after `hlyin` for the else branch.\n\n```\n} mo {\n    // ...\n}\n```"@)
    } else if word == "pat"@ {
        Some("**pat** — Loop statement\n\nSupports both while and for-in styles.\n\n```\npat (condition) {\n    // ...\n}\n\npat item htae numbers {\n    // ...\n}\n```"@)
    } else if word == "kyoe"@ {
        Some("**kyoe** — Concurrent call\n\nRuns a function or method call concurrently.\n\n```\nkyoe worker(ch);\n```"@)
    } else if word == "naut_sone"@ {
        Some("**naut_sone** — Defer cleanup\n\nSchedules a call to run when the current callable returns.\n\n```\nnaut_sone conn.close();\n```"@)
    } else if word == "set_sae"@ {
        Some("**set_sae** — Test declaration\n\nDeclares a top-level test case.\n\n```\nset_sae smoke_test {\n    pyan bhala;\n}\n```"@)
    } else if word == "htae"@ {
        Some("**htae** — For-in connector\n\nUsed with `pat` to iterate arrays.\n\n```\npat item htae numbers {\n    pya(item);\n}\n```"@)
    } else if word == "loke"@ {
        Some("**loke** — Function declaration\n\nDefine a new function.\n\n```\nloke name(params) -> return_type {\n    // ...\n}\n```"@)
    } else if word == "pyan"@ {
        Some("**pyan** — Return statement\n\nReturn a value from a function.\n\n```\npyan 0;\n```"@)
    } else if word == "pya"@ {
        Some("**pya** — Print statement\n\nPrint a value to stdout.\n\n```\npya(\"Hello\");\npya(variable);\n```"@)
    } else if word == "phat"@ {
        Some("**phat** — Read input\n\nRead a string from stdin.\n\n```\nsar input = phat(\"prompt\");\n```"@)
    } else if word == "su"@ {
        Some("**su** — Array type\n\nDeclare an array.\n\n```\nsu<kain> numbers = [1, 2, 3];\n```"@)
    } else if word == "laung"@ {
        Some("**laung** — Channel type/make\n\nDeclare or construct a channel.\n\n```\nlaung<kain> ch = laung<kain>(10);\n```"@)
    } else if word == "baung"@ {
        Some("**baung** — Context type/make\n\nCreate a timeout-bound context value.\n\n```\nbaung ctx = baung(5000);\n```"@)
    } else if word == "yu"@ {
        Some("**yu** — Import statement\n\nImport a module.\n\n```\nyu module_name;\n```"@)
    } else if word == "atote"@ {
        Some("**atote** — Package declaration\n\nDeclare file package.\n\n```\natote main;\n```"@)
    } else if word == "pay"@ {
        Some("**pay** — Export declaration\n\nExport a top-level declaration from a package.\n\n```\npay loke add(kain a, kain b) -> kain { pyan a + b; }\n```"@)
    } else if word == "twe"@ {
        Some("**twe** — HashMap type\n\nDeclare a hash map.\n\n```\ntwe<sar, kain> dict = {\"key\": 1};\n```"@)
    } else if word == "da_tha"@ {
        Some("**da_tha** — Float type declaration\n\nDeclares a variable of type `float64`.\n\n```\nda_tha pi = 3.14;\n```"@)
    } else if word == "bhala"@ {
        Some("**bhala** — Nil / null value\n\nRepresents the absence of a value.\n\n```\nhlyin (x == bhala) { ... }\n```"@)
    } else if word == "pone"@ {
        Some("**pone** — Struct declaration\n\nDefine a new struct type.\n\n```\npone Person {\n    sar name;\n    kain age;\n}\n```"@)
    } else if word == "nee"@ {
        Some("**nee** — Method declaration\n\nDefine a method on a struct.\n\n```\nnee (Person p) greet() -> sar {\n    pyan p.name;\n}\n```"@)
    } else if word == "myat"@ {
        Some("**myat** — Interface declaration\n\nDefine an interface (trait).\n\n```\nmyat Greeter {\n    loke greet() -> sar;\n}\n```"@)
    } else if word == "amhar"@ {
        Some("**amhar** — Error type / create error\n\nCreate an error value.\n\n```\namhar err = amhar(\"something went wrong\");\n```"@)
    } else if word == "pyaung_kain"@ {
        Some("**pyaung_kain** — Convert to integer\n\nCast a value to `kain` (int).\n\n```\nkain n = pyaung_kain(\"42\");\n```"@)
    } else if word == "pyaung_sar"@ {
        Some("**pyaung_sar** — Convert to string\n\nCast a value to `sar` (string).\n\n```\nsar s = pyaung_sar(42);\n```"@)
    } else if word == "pyaung_da_tha"@ {
        Some("**pyaung_da_tha** — Convert to float\n\nCast a value to `da_tha` (float64).\n\n```\nda_tha f = pyaung_da_tha(\"3.14\");\n```"@)
    } else if word == "ashay"@ {
        Some("**ashay** — Get length\n\nReturns the length of an array or string.\n\n```\nkain len = ashay(my_array);\n```"@)
    } else if word == "khwae"@ {
        Some("**khwae** — String split method\n\nSplit a string by delimiter.\n\n```\nsu<sar> parts = text.khwae(\",\");\n```"@)
    } else if word == "swal"@ {
        Some("**swal** — String contains method\n\nCheck if a string contains a substring.\n\n```\nsit has = text.swal(\"hello\");\n```"@)
    } else if word == "ayaik"@ {
        Some("**ayaik** — String lowercase method\n\nLowercase a string.\n\n```\nsar lower = text.ayaik();\n```"@)
    } else {
        None
    }
}

/// The documentation shown for a keyword, if the word is one.
pub fn keyword_docs(word: &str) -> (r: Option<&'static str>)
    ensures
        match r {
            Some(d) => keyword_doc(word@) == Some(d@),
            None => keyword_doc(word@) is None,
        },
{
    if str_eq(word, "kain") {
        return Some("**kain** — Integer type declaration\n\nDeclares a variable of type `int`.\n\n```\nkain age = 20;\n```");
    }
    if str_eq(word, "sar") {
        return Some("**sar** — String type declaration\n\nDeclares a variable of type `string`.\n\n```\nsar name = \"Aung\";\n```");
    }
    if str_eq(word, "sit") {
        return Some("**sit** — Boolean type declaration\n\nDeclares a variable of type `bool`.\n\n```\nsit flag = hman;\n```");
    }
    if str_eq(word, "hman") {
        return Some("**hman** — Boolean literal `true`");
    }
    if str_eq(word, "hmar") {
        return Some("**hmar** — Boolean literal `false`");
    }
    if str_eq(word, "hlyin") {
        return Some("**hlyin** — If statement\n\nConditional branching.\n\n```\nhlyin (condition) {\n    // ...\n} mo {\n    // ...\n}\n```");
    }
    if str_eq(word, "mo") {
        return Some("**mo** — Else clause\n\nUsed after `hlyin` for the else branch.\n\n```\n} mo {\n    // ...\n}\n```");
    }
    if str_eq(word, "pat") {
        return Some("**pat** — Loop statement\n\nSupports both while and for-in styles.\n\n```\npat (condition) {\n    // ...\n}\n\npat item htae numbers {\n    // ...\n}\n```");
    }
    if str_eq(word, "kyoe") {
        return Some("**kyoe** — Concurrent call\n\nRuns a function or method call concurrently.\n\n```\nkyoe worker(ch);\n```");
    }
    if str_eq(word, "naut_sone") {
        return Some("**naut_sone** — Defer cleanup\n\nSchedules a call to run when the current callable returns.\n\n```\nnaut_sone conn.close();\n```");
    }
    if str_eq(word, "set_sae") {
        return Some("**set_sae** — Test declaration\n\nDeclares a top-level test case.\n\n```\nset_sae smoke_test {\n    pyan bhala;\n}\n```");
    }
    if str_eq(word, "htae") {
        return Some("**htae** — For-in connector\n\nUsed with `pat` to iterate arrays.\n\n```\npat item htae numbers {\n    pya(item);\n}\n```");
    }
    if str_eq(word, "loke") {
        return Some("**loke** — Function declaration\n\nDefine a new function.\n\n```\nloke name(params) -> return_type {\n    // ...\n}\n```");
    }
    if str_eq(word, "pyan") {
        return Some("**pyan** — Return statement\n\nReturn a value from a function.\n\n```\npyan 0;\n```");
    }
    if str_eq(word, "pya") {
        return Some("**pya** — Print statement\n\nPrint a value to stdout.\n\n```\npya(\"Hello\");\npya(variable);\n```");
    }
    if str_eq(word, "phat") {
        return Some("**phat** — Read input\n\nRead a string from stdin.\n\n```\nsar input = phat(\"prompt\");\n```");
    }
    if str_eq(word, "su") {
        return Some("**su** — Array type\n\nDeclare an array.\n\n```\nsu<kain> numbers = [1, 2, 3];\n```");
    }
    if str_eq(word, "laung") {
        return Some("**laung** — Channel type/make\n\nDeclare or construct a channel.\n\n```\nlaung<kain> ch = laung<kain>(10);\n```");
    }
    if str_eq(word, "baung") {
        return Some("**baung** — Context type/make\n\nCreate a timeout-bound context value.\n\n```\nbaung ctx = baung(5000);\n```");
    }
    if str_eq(word, "yu") {
        return Some("**yu** — Import statement\n\nImport a module.\n\n```\nyu module_name;\n```");
    }
    if str_eq(word, "atote") {
        return Some("**atote** — Package declaration\n\nDeclare file package.\n\n```\natote main;\n```");
    }
    if str_eq(word, "pay") {
        return Some("**pay** — Export declaration\n\nExport a top-level declaration from a package.\n\n```\npay loke add(kain a, kain b) -> kain { pyan a + b; }\n```");
    }
    if str_eq(word, "twe") {
        return Some("**twe** — HashMap type\n\nDeclare a hash map.\n\n```\ntwe<sar, kain> dict = {\"key\": 1};\n```");
    }
    if str_eq(word, "da_tha") {
        return Some("**da_tha** — Float type declaration\n\nDeclares a variable of type `float64`.\n\n```\nda_tha pi = 3.14;\n```");
    }
    if str_eq(word, "bhala") {
        return Some("**bhala** — Nil / null value\n\nRepresents the absence of a value.\n\n```\nhlyin (x == bhala) { ... }\n```");
    }
    if str_eq(word, "pone") {
        return Some("**pone** — Struct declaration\n\nDefine a new struct type.\n\n```\npone Person {\n    sar name;\n    kain age;\n}\n```");
    }
    if str_eq(word, "nee") {
        return Some("**nee** — Method declaration\n\nDefine a method on a struct.\n\n```\nnee (Person p) greet() -> sar {\n    pyan p.name;\n}\n```");
    }
    if str_eq(word, "myat") {
        return Some("**myat** — Interface declaration\n\nDefine an interface (trait).\n\n```\nmyat Greeter {\n    loke greet() -> sar;\n}\n```");
    }
    if str_eq(word, "amhar") {
        return Some("**amhar** — Error type / create error\n\nCreate an error value.\n\n```\namhar err = amhar(\"something went wrong\");\n```");
    }
    if str_eq(word, "pyaung_kain") {
        return Some("**pyaung_kain** — Convert to integer\n\nCast a value to `kain` (int).\n\n```\nkain n = pyaung_kain(\"42\");\n```");
    }
    if str_eq(word, "pyaung_sar") {
        return Some("**pyaung_sar** — Convert to string\n\nCast a value to `sar` (string).\n\n```\nsar s = pyaung_sar(42);\n```");
    }
    if str_eq(word, "pyaung_da_tha") {
        return Some("**pyaung_da_tha** — Convert to float\n\nCast a value to `da_tha` (float64).\n\n```\nda_tha f = pyaung_da_tha(\"3.14\");\n```");
    }
    if str_eq(word, "ashay") {
        return Some("**ashay** — Get length\n\nReturns the length of an array or string.\n\n```\nkain len = ashay(my_array);\n```");
    }
    if str_eq(word, "khwae") {
        return Some("**khwae** — String split method\n\nSplit a string by delimiter.\n\n```\nsu<sar> parts = text.khwae(\",\");\n```");
    }
    if str_eq(word, "swal") {
        return Some("**swal** — String contains method\n\nCheck if a string contains a substring.\n\n```\nsit has = text.swal(\"hello\");\n```");
    }
    if str_eq(word, "ayaik") {
        return Some("**ayaik** — String lowercase method\n\nLowercase a string.\n\n```\nsar lower = text.ayaik();\n```");
    }
    None
}

/// A symbol's type as hover text shows it, or `unknown`.
pub open spec fn type_or_unknown(t: Option<TypeModel>) -> Seq<char> {
    match t {
        Some(x) => type_display(x),
        None => "unknown"@,
    }
}

/// Parameters as `type name`.
pub open spec fn param_texts(ps: Seq<(Seq<char>, TypeModel)>) -> Seq<Seq<char>> {
    Seq::new(ps.len(), |i: int| type_display(ps[i].1) + " "@ + ps[i].0)
}

/// Struct fields as indented `type name;` lines.
pub open spec fn field_lines(ps: Seq<(Seq<char>, TypeModel)>) -> Seq<Seq<char>> {
    Seq::new(ps.len(), |i: int| "  "@ + type_display(ps[i].1) + " "@ + ps[i].0 + ";"@)
}

/// The hover text of a declared name, by its kind.
pub open spec fn symbol_detail(sym: SymbolModel) -> Seq<char> {
    let n = sym.name;
    let t = type_or_unknown(sym.ty);
    match sym.kind {
        SymbolKindInfo::Variable => "**variable** `"@ + n + "`\n\nType: `"@ + t + "`"@,
        SymbolKindInfo::Function => "**function** `"@ + n + "`\n\n```\nloke "@ + n + "("@ + join(
            param_texts(sym.parameters),
            ", "@,
        ) + ") -> "@ + t + "\n```"@,
        SymbolKindInfo::Parameter => "**parameter** `"@ + n + "`\n\nType: `"@ + t + "`"@,
        SymbolKindInfo::Struct => "**struct** `"@ + n + "`\n\n```\npone "@ + n + " {\n"@ + join(
            field_lines(sym.parameters),
            "\n"@,
        ) + "\n}\n```"@,
        SymbolKindInfo::Method => "**method** `"@ + n + "`\n\n```\nnee "@ + n + "("@ + join(
            param_texts(sym.parameters),
            ", "@,
        ) + ") -> "@ + t + "\n```"@,
        SymbolKindInfo::Interface => "**interface** `"@ + n + "`\n\n```\nmyat "@ + n + " { ... }\n```"@,
    }
}

/// The hover text of the first declared name that is the word.
pub open spec fn symbol_hover(ss: Seq<SymbolModel>, word: Seq<char>) -> Option<Seq<char>>
    decreases ss.len(),
{
    if ss.len() == 0 {
        None
    } else if ss[0].name == word {
        Some(symbol_detail(ss[0]))
    } else {
        symbol_hover(ss.drop_first(), word)
    }
}

/// The hover text at a position of a document: the documentation of the
/// keyword under the cursor, else that of the first declared name it is.
pub open spec fn hover_text(text: Seq<char>, line: u32, character: u32, syms: Option<Seq<SymbolModel>>) -> Option<
    Seq<char>,
> {
    match word_at(text, line, character) {
        None => None,
        Some(w) => match keyword_doc(w) {
            Some(d) => Some(d),
            None => match syms {
                Some(ss) => symbol_hover(ss, w),
                None => None,
            },
        },
    }
}

fn push_type_or_unknown(out: &mut Vec<char>, t: &Option<Type>)
    ensures
        final(out)@ == old(out)@ + type_or_unknown(opt_type_model(*t)),
{
    match t {
        Some(x) => {
            let s = format_type(x);
            push_string(out, &s);
        },
        None => push_str(out, "unknown"),
    }
}

fn param_text_list(ps: &Vec<(String, Type)>) -> (r: Vec<Vec<char>>)
    ensures
        items_model(r@) == param_texts(crate::analysis::pairs_model(ps@)),
{
    let ghost m = crate::analysis::pairs_model(ps@);
    let mut out: Vec<Vec<char>> = Vec::new();
    let mut i: usize = 0;
    while i < ps.len()
        invariant
            i <= ps.len(),
            m == crate::analysis::pairs_model(ps@),
            out@.len() == i,
            forall|k: int| 0 <= k < i ==> (#[trigger] out@[k])@ == param_texts(m)[k],
        decreases ps.len() - i,
    {
        let mut v: Vec<char> = Vec::new();
        let t = format_type(&ps[i].1);
        push_string(&mut v, &t);
        push_str(&mut v, " ");
        push_string(&mut v, &ps[i].0);
        assert(v@ =~= param_texts(m)[i as int]);
        out.push(v);
        i = i + 1;
    }
    assert(items_model(out@) =~= param_texts(m));
    out
}

fn field_line_list(ps: &Vec<(String, Type)>) -> (r: Vec<Vec<char>>)
    ensures
        items_model(r@) == field_lines(crate::analysis::pairs_model(ps@)),
{
    let ghost m = crate::analysis::pairs_model(ps@);
    let mut out: Vec<Vec<char>> = Vec::new();
    let mut i: usize = 0;
    while i < ps.len()
        invariant
            i <= ps.len(),
            m == crate::analysis::pairs_model(ps@),
            out@.len() == i,
            forall|k: int| 0 <= k < i ==> (#[trigger] out@[k])@ == field_lines(m)[k],
        decreases ps.len() - i,
    {
        let mut v: Vec<char> = Vec::new();
        push_str(&mut v, "  ");
        let t = format_type(&ps[i].1);
        push_string(&mut v, &t);
        push_str(&mut v, " ");
        push_string(&mut v, &ps[i].0);
        push_str(&mut v, ";");
        assert(v@ =~= field_lines(m)[i as int]);
        out.push(v);
        i = i + 1;
    }
    assert(items_model(out@) =~= field_lines(m));
    out
}

/// The hover text of a declared name.
pub fn symbol_detail_text(sym: &SymbolInfo) -> (r: String)
    ensures
        r@ == symbol_detail(sym.model()),
{
    let mut out: Vec<char> = Vec::new();
    let n = &sym.name;
    match sym.kind {
        SymbolKindInfo::Variable => {
            push_str(&mut out, "**variable** `");
            push_string(&mut out, n);
            push_str(&mut out, "`\n\nType: `");
            push_type_or_unknown(&mut out, &sym.ty);
            push_str(&mut out, "`");
        },
        SymbolKindInfo::Function => {
            push_str(&mut out, "**function** `");
            push_string(&mut out, n);
            push_str(&mut out, "`\n\n```\nloke ");
            push_string(&mut out, n);
            push_str(&mut out, "(");
            let ps = param_text_list(&sym.parameters);
            push_join(&mut out, &ps, ", ");
            push_str(&mut out, ") -> ");
            push_type_or_unknown(&mut out, &sym.ty);
            push_str(&mut out, "\n```");
        },
        SymbolKindInfo::Parameter => {
            push_str(&mut out, "**parameter** `");
            push_string(&mut out, n);
            push_str(&mut out, "`\n\nType: `");
            push_type_or_unknown(&mut out, &sym.ty);
            push_str(&mut out, "`");
        },
        SymbolKindInfo::Struct => {
            push_str(&mut out, "**struct** `");
            push_string(&mut out, n);
            push_str(&mut out, "`\n\n```\npone ");
            push_string(&mut out, n);
            push_str(&mut out, " {\n");
            let fs = field_line_list(&sym.parameters);
            push_join(&mut out, &fs, "\n");
            push_str(&mut out, "\n}\n```");
        },
        SymbolKindInfo::Method => {
            push_str(&mut out, "**method** `");
            push_string(&mut out, n);
            push_str(&mut out, "`\n\n```\nnee ");
            push_string(&mut out, n);
            push_str(&mut out, "(");
            let ps = param_text_list(&sym.parameters);
            push_join(&mut out, &ps, ", ");
            push_str(&mut out, ") -> ");
            push_type_or_unknown(&mut out, &sym.ty);
            push_str(&mut out, "\n```");
        },
        SymbolKindInfo::Interface => {
            push_str(&mut out, "**interface** `");
            push_string(&mut out, n);
            push_str(&mut out, "`\n\n```\nmyat ");
            push_string(&mut out, n);
            push_str(&mut out, " { ... }\n```");
        },
    }
    assert(out@ =~= symbol_detail(sym.model()));
    string_of(out.as_slice())
}

/// The hover text at the cursor: the 0-based line and character of the
/// rope, with the analysis of the document when there is one.
pub fn get_hover(rope: &Rope, line: u32, character: u32, analysis: Option<&AnalysisResult>) -> (r: Option<String>)
    ensures
        match r {
            Some(h) => hover_text(
                rope_text(*rope),
                line,
                character,
                match analysis {
                    Some(a) => Some(symbols_model(a.symbols@)),
                    None => None,
                },
            ) == Some(h@),
            None => hover_text(
                rope_text(*rope),
                line,
                character,
                match analysis {
                    Some(a) => Some(symbols_model(a.symbols@)),
                    None => None,
                },
            ) is None,
        },
{
    let word = match get_word_at_position(rope, line, character) {
        Some(w) => w,
        None => return None,
    };
    match keyword_docs(word.as_str()) {
        Some(d) => return Some(d.to_owned()),
        None => {},
    }
    let a = match analysis {
        Some(a) => a,
        None => return None,
    };
    let syms = &a.symbols;
    let ghost m = symbols_model(syms@);
    let mut i: usize = 0;
    assert(m.subrange(0, m.len() as int) =~= m);
    while i < syms.len()
        invariant
            i <= syms.len(),
            analysis == Some(a),
            syms@ == a.symbols@,
            m == symbols_model(syms@),
            word_at(rope_text(*rope), line, character) == Some(word@),
            keyword_doc(word@) is None,
            symbol_hover(m, word@) == symbol_hover(m.subrange(i as int, m.len() as int), word@),
        decreases syms.len() - i,
    {
        let ghost sub = m.subrange(i as int, m.len() as int);
        assert(sub.drop_first() =~= m.subrange(i + 1, m.len() as int));
        assert(sub[0] == syms@[i as int].model());
        if str_eq(syms[i].name.as_str(), word.as_str()) {
            return Some(symbol_detail_text(&syms[i]));
        }
        i = i + 1;
    }
    None
}

} // verus!
