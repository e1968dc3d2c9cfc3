//! What an editor offers to complete: the keywords with their templates,
//! and the names the analysis found.
use vstd::prelude::*;

use crate::analysis::{format_type, opt_type_model, symbols_model, AnalysisResult, SymbolInfo, SymbolKindInfo, SymbolModel};
use crate::formatter::{items_model, join, push_join};
use crate::hover::{param_texts, type_or_unknown};
use crate::text::{push_str, push_string, string_of};
use ropey::Rope;

verus! {

/// What kind of thing a completion is.
#[derive(Debug, Clone, Copy, PartialEq, Eq, Structural)]
pub enum CompletionKind {
    Keyword,
    Snippet,
    Variable,
    Function,
    Struct,
    Method,
    Interface,
}

/// A completion: its label, kind and detail, and the template it inserts,
/// written in the editor's snippet syntax when `snippet` is set.
pub struct CompletionEntry {
    pub label: String,
    pub kind: CompletionKind,
    pub detail: Option<String>,
    pub insert_text: Option<String>,
    pub snippet: bool,
}

/// A completion as plain values.
pub type CompletionModel = (Seq<char>, CompletionKind, Option<Seq<char>>, Option<Seq<char>>, bool);

pub open spec fn opt_text(o: Option<String>) -> Option<Seq<char>> {
    match o {
        Some(s) => Some(s@),
        None => None,
    }
}

impl CompletionEntry {
    pub open spec fn model(&self) -> CompletionModel {
        (self.label@, self.kind, opt_text(self.detail), opt_text(self.insert_text), self.snippet)
    }
}

pub open spec fn completions_model(v: Seq<CompletionEntry>) -> Seq<CompletionModel> {
    Seq::new(v.len(), |i: int| v[i].model())
}

/// The keyword and template completions, in the order they are offered.
pub open spec fn keyword_items() -> Seq<CompletionModel> {
    seq![
        ("kain"@, CompletionKind::Keyword, Some("Integer type (int)"@), Some("kain ${1:name} = ${2:0};"@), true),
        ("sar"@, CompletionKind::Keyword, Some("String type (string)"@), Some("sar ${1:name} = \"${2}\";"@), true),
        ("sit"@, CompletionKind::Keyword, Some("Boolean type (bool)"@), Some("sit ${1:name} = ${2:hman};"@), true),
        ("hman"@, CompletionKind::Keyword, Some("Boolean true"@), Some("hman"@), true),
        ("hmar"@, CompletionKind::Keyword, Some("Boolean false"@), Some("hmar"@), true),
        ("hlyin"@, CompletionKind::Keyword, Some("If statement"@), Some("hlyin (${1:condition}) {\n\t${2}\n}"@), true),
        ("mo"@, CompletionKind::Keyword, Some("Else clause"@), Some("mo {\n\t${1}\n}"@), true),
        ("pat"@, CompletionKind::Keyword, Some("Loop statement (while / for-in)"@), Some("pat (${1:condition}) {\n\t${2}\n}"@), true),
        ("kyoe"@, CompletionKind::Keyword, Some("Spawn concurrent call"@), Some("kyoe ${1:fn_call}();"@), true),
        ("naut_sone"@, CompletionKind::Keyword, Some("Defer cleanup call"@), Some("naut_sone ${1:fn_call}();"@), true),
        ("set_sae"@, CompletionKind::Keyword, Some("Test declaration"@), Some("set_sae ${1:test_name} {\n\t${2:pyan bhala;}\n}"@), true),
        ("htae"@, CompletionKind::Keyword, Some("For-in connector"@), Some("htae"@), true),
        ("pat htae (for-in loop)"@, CompletionKind::Snippet, Some("For-in loop template"@), Some("pat ${1:item} htae ${2:numbers} {\n\tpya(${1:item});\n}"@), true),
        ("loke"@, CompletionKind::Keyword, Some("Function declaration"@), Some("loke ${1:name}(${2}) -> ${3:kain} {\n\t${4}\n}"@), true),
        ("pyan"@, CompletionKind::Keyword, Some("Return statement"@), Some("pyan ${1:0};"@), true),
        ("pya"@, CompletionKind::Keyword, Some("Print statement"@), Some("pya(${1});"@), true),
        ("phat"@, CompletionKind::Keyword, Some("Read input"@), Some("phat(\"${1:prompt}\")"@), true),
        ("su"@, CompletionKind::Keyword, Some("Array type"@), Some("su<${1:kain}> ${2:name} = [${3}];"@), true),
        ("laung"@, CompletionKind::Keyword, Some("Channel type/make"@), Some("laung<${1:kain}> ${2:ch} = laung<${1:kain}>();"@), true),
        ("baung"@, CompletionKind::Keyword, Some("Context type/make"@), Some("baung ${1:ctx} = baung(${2:5000});"@), true),
        ("yu"@, CompletionKind::Keyword, Some("Import module"@), Some("yu \"${1:module}\";"@), true),
        ("atote"@, CompletionKind::Keyword, Some("Package declaration"@), Some("atote ${1:main};"@), true),
        ("pay"@, CompletionKind::Keyword, Some("Export declaration"@), Some("pay ${1:declaration}"@), true),
        ("twe"@, CompletionKind::Keyword, Some("HashMap type"@), Some("twe<${1:sar}, ${2:kain}> ${3:name} = {${4}};"@), true),
        ("main (main function)"@, CompletionKind::Snippet, Some("Main function template"@), Some("loke main() -> kain {\n\t${1}\n\tpyan 0;\n}"@), true),
    ]
}

fn template_entry(label: &str, kind: CompletionKind, detail: &str, snippet: &str) -> (r: CompletionEntry)
    ensures
        r.model() == (label@, kind, Some(detail@), Some(snippet@), true),
{
    CompletionEntry {
        label: label.to_owned(),
        kind,
        detail: Some(detail.to_owned()),
        insert_text: Some(snippet.to_owned()),
        snippet: true,
    }
}

/// The keyword and template completions.
pub fn keyword_completions() -> (r: Vec<CompletionEntry>)
    ensures
        completions_model(r@) == keyword_items(),
{
    let mut out: Vec<CompletionEntry> = Vec::new();
    out.push(template_entry("kain", CompletionKind::Keyword, "Integer type (int)", "kain ${1:name} = ${2:0};"));
    out.push(template_entry("sar", CompletionKind::Keyword, "String type (string)", "sar ${1:name} = \"${2}\";"));
    out.push(template_entry("sit", CompletionKind::Keyword, "Boolean type (bool)", "sit ${1:name} = ${2:hman};"));
    out.push(template_entry("hman", CompletionKind::Keyword, "Boolean true", "hman"));
    out.push(template_entry("hmar", CompletionKind::Keyword, "Boolean false", "hmar"));
    out.push(template_entry("hlyin", CompletionKind::Keyword, "If statement", "hlyin (${1:condition}) {\n\t${2}\n}"));
    out.push(template_entry("mo", CompletionKind::Keyword, "Else clause", "mo {\n\t${1}\n}"));
    out.push(template_entry("pat", CompletionKind::Keyword, "Loop statement (while / for-in)", "pat (${1:condition}) {\n\t${2}\n}"));
    out.push(template_entry("kyoe", CompletionKind::Keyword, "Spawn concurrent call", "kyoe ${1:fn_call}();"));
    out.push(template_entry("naut_sone", CompletionKind::Keyword, "Defer cleanup call", "naut_sone ${1:fn_call}();"));
    out.push(template_entry("set_sae", CompletionKind::Keyword, "Test declaration", "set_sae ${1:test_name} {\n\t${2:pyan bhala;}\n}"));
    out.push(template_entry("htae", CompletionKind::Keyword, "For-in connector", "htae"));
    out.push(template_entry("pat htae (for-in loop)", CompletionKind::Snippet, "For-in loop template", "pat ${1:item} htae ${2:numbers} {\n\tpya(${1:item});\n}"));
    out.push(template_entry("loke", CompletionKind::Keyword, "Function declaration", "loke ${1:name}(${2}) -> ${3:kain} {\n\t${4}\n}"));
    out.push(template_entry("pyan", CompletionKind::Keyword, "Return statement", "pyan ${1:0};"));
    out.push(template_entry("pya", CompletionKind::Keyword, "Print statement", "pya(${1});"));
    out.push(template_entry("phat", CompletionKind::Keyword, "Read input", "phat(\"${1:prompt}\")"));
    out.push(template_entry("su", CompletionKind::Keyword, "Array type", "su<${1:kain}> ${2:name} = [${3}];"));
    out.push(template_entry("laung", CompletionKind::Keyword, "Channel type/make", "laung<${1:kain}> ${2:ch} = laung<${1:kain}>();"));
    out.push(template_entry("baung", CompletionKind::Keyword, "Context type/make", "baung ${1:ctx} = baung(${2:5000});"));
    out.push(template_entry("yu", CompletionKind::Keyword, "Import module", "yu \"${1:module}\";"));
    out.push(template_entry("atote", CompletionKind::Keyword, "Package declaration", "atote ${1:main};"));
    out.push(template_entry("pay", CompletionKind::Keyword, "Export declaration", "pay ${1:declaration}"));
    out.push(template_entry("twe", CompletionKind::Keyword, "HashMap type", "twe<${1:sar}, ${2:kain}> ${3:name} = {${4}};"));
    out.push(template_entry("main (main function)", CompletionKind::Snippet, "Main function template", "loke main() -> kain {\n\t${1}\n\tpyan 0;\n}"));
    assert(completions_model(out@) =~= keyword_items());
    out
}

/// The completion of a declared name: its name, a kind and a detail by the
/// kind of name it is.
pub open spec fn symbol_item(sym: SymbolModel) -> CompletionModel {
    let t = type_or_unknown(sym.ty);
    let ps = join(param_texts(sym.parameters), ", "@);
    let (kind, detail) = match sym.kind {
        SymbolKindInfo::Variable => (CompletionKind::Variable, "variable: "@ + t),
        SymbolKindInfo::Function => (CompletionKind::Function, "fn("@ + ps + ") -> "@ + t),
        SymbolKindInfo::Parameter => (CompletionKind::Variable, "param: "@ + t),
        SymbolKindInfo::Struct => (CompletionKind::Struct, "struct { "@ + ps + " }"@),
        SymbolKindInfo::Method => (CompletionKind::Method, "method("@ + ps + ") -> "@ + t),
        SymbolKindInfo::Interface => (CompletionKind::Interface, "interface"@),
    };
    (sym.name, kind, Some(detail), None, false)
}

/// All completions: the keywords and templates, then one per declared name
/// of the analysis, in order.
pub open spec fn completion_items(syms: Option<Seq<SymbolModel>>) -> Seq<CompletionModel> {
    keyword_items() + match syms {
        Some(ss) => Seq::new(ss.len(), |i: int| symbol_item(ss[i])),
        None => Seq::empty(),
    }
}

fn push_type_or_unknown(out: &mut Vec<char>, t: &Option<crate::ast::Type>)
    ensures
        final(out)@ == old(out)@ + type_or_unknown(opt_type_model(*t)),
{
    match t {
        Some(x) => {
            let s = format_type(x);
            push_string(out, &s);
        },
        None => push_str(out, "unknown"),
    }
}

fn push_params(out: &mut Vec<char>, ps: &Vec<(String, crate::ast::Type)>)
    ensures
        final(out)@ == old(out)@ + join(param_texts(crate::analysis::pairs_model(ps@)), ", "@),
{
    let ghost m = crate::analysis::pairs_model(ps@);
    let mut items: Vec<Vec<char>> = Vec::new();
    let mut i: usize = 0;
    while i < ps.len()
        invariant
            i <= ps.len(),
            m == crate::analysis::pairs_model(ps@),
            items@.len() == i,
            forall|k: int| 0 <= k < i ==> (#[trigger] items@[k])@ == param_texts(m)[k],
        decreases ps.len() - i,
    {
        let mut v: Vec<char> = Vec::new();
        let t = format_type(&ps[i].1);
        push_string(&mut v, &t);
        push_str(&mut v, " ");
        push_string(&mut v, &ps[i].0);
        assert(v@ =~= param_texts(m)[i as int]);
        items.push(v);
        i = i + 1;
    }
    assert(items_model(items@) =~= param_texts(m));
    push_join(out, &items, ", ");
}

/// The completion of a declared name.
pub fn symbol_completion(sym: &SymbolInfo) -> (r: CompletionEntry)
    ensures
        r.model() == symbol_item(sym.model()),
{
    let mut d: Vec<char> = Vec::new();
    let kind = match sym.kind {
        SymbolKindInfo::Variable => {
            push_str(&mut d, "variable: ");
            push_type_or_unknown(&mut d, &sym.ty);
            CompletionKind::Variable
        },
        SymbolKindInfo::Function => {
            push_str(&mut d, "fn(");
            push_params(&mut d, &sym.parameters);
            push_str(&mut d, ") -> ");
            push_type_or_unknown(&mut d, &sym.ty);
            CompletionKind::Function
        },
        SymbolKindInfo::Parameter => {
            push_str(&mut d, "param: ");
            push_type_or_unknown(&mut d, &sym.ty);
            CompletionKind::Variable
        },
        SymbolKindInfo::Struct => {
            push_str(&mut d, "struct { ");
            push_params(&mut d, &sym.parameters);
            push_str(&mut d, " }");
            CompletionKind::Struct
        },
        SymbolKindInfo::Method => {
            push_str(&mut d, "method(");
            push_params(&mut d, &sym.parameters);
            push_str(&mut d, ") -> ");
            push_type_or_unknown(&mut d, &sym.ty);
            CompletionKind::Method
        },
        SymbolKindInfo::Interface => {
            push_str(&mut d, "interface");
            CompletionKind::Interface
        },
    };
    assert(d@ =~= symbol_item(sym.model()).2->0);
    CompletionEntry {
        label: sym.name.clone(),
        kind,
        detail: Some(string_of(d.as_slice())),
        insert_text: None,
        snippet: false,
    }
}

/// The completions offered at the cursor: the keywords and templates, then
/// the declared names of the analysis of the document, when there is one.
/// Neither the document nor the position narrows them.
pub fn get_completions(_rope: Option<&Rope>, _line: u32, _character: u32, analysis: Option<&AnalysisResult>) -> (r: Vec<
    CompletionEntry,
>)
    ensures
        completions_model(r@) == completion_items(
            match analysis {
                Some(a) => Some(symbols_model(a.symbols@)),
                None => None,
            },
        ),
{
    let mut items = keyword_completions();
    let ghost base = completions_model(items@);
    let ghost n0 = items@.len();
    match analysis {
        Some(a) => {
            let syms = &a.symbols;
            let ghost m = symbols_model(syms@);
            let mut i: usize = 0;
            while i < syms.len()
                invariant
                    i <= syms.len(),
                    m == symbols_model(syms@),
                    base == keyword_items(),
                    n0 == base.len(),
                    items@.len() == n0 + i,
                    forall|k: int| 0 <= k < n0 ==> #[trigger] completions_model(items@)[k] == base[k],
                    forall|k: int| 0 <= k < i ==> #[trigger] completions_model(items@)[n0 + k] == symbol_item(m[k]),
                decreases syms.len() - i,
            {
                let e = symbol_completion(&syms[i]);
                let ghost before = items@;
                items.push(e);
                assert forall|k: int| 0 <= k < n0 implies #[trigger] completions_model(items@)[k] == base[k] by {
                    assert(completions_model(before)[k] == base[k]);
                    assert(items@[k] == before[k]);
                }
                assert forall|k: int| 0 <= k < i + 1 implies #[trigger] completions_model(items@)[n0 + k]
                    == symbol_item(m[k]) by {
                    if k < i {
                        assert(completions_model(before)[n0 + k] == symbol_item(m[k]));
                        assert(items@[n0 + k] == before[n0 + k]);
                    } else {
                        assert(syms@[i as int].model() == m[i as int]);
                    }
                }
                i = i + 1;
            }
            let ghost want = completion_items(Some(m));
            assert forall|j: int| 0 <= j < want.len() implies #[trigger] completions_model(items@)[j] == want[j] by {
                if j >= n0 {
                    assert(completions_model(items@)[n0 + (j - n0)] == symbol_item(m[j - n0]));
                }
            }
            assert(completions_model(items@) =~= want);
        },
        None => {
            assert(completions_model(items@) =~= completion_items(None));
        },
    }
    items
}

/// Whatever the document and its analysis, the keywords and templates are
/// offered first, in their fixed order, and every declared name follows.
pub proof fn law_keywords_come_first(syms: Option<Seq<SymbolModel>>)
    ensures
        completion_items(syms).subrange(0, keyword_items().len() as int) == keyword_items(),
        completion_items(syms).len() == keyword_items().len() + match syms {
            Some(ss) => ss.len(),
            None => 0,
        },
{
    assert(completion_items(syms).subrange(0, keyword_items().len() as int) =~= keyword_items());
}

} // verus!
