//! The standard library modules that M-Lang programs can import.
use vstd::prelude::*;

use crate::ast::{models_of, Type, TypeModel};
use crate::text::{chars_are, trim_quotes, trim_quotes_exec};

verus! {

/// A struct type of a standard library module and its fields.
#[derive(Debug)]
pub struct StdlibStruct {
    pub name: &'static str,
    pub fields: Vec<(String, Type)>,
}

/// A function of a standard library module.
#[derive(Debug)]
pub struct StdlibFunction {
    pub name: &'static str,
    pub params: Vec<Type>,
    pub return_type: Type,
}

/// A method that a standard library module defines on one of its types.
#[derive(Debug)]
pub struct StdlibMethod {
    pub receiver: &'static str,
    pub name: &'static str,
    pub params: Vec<Type>,
    pub return_type: Type,
}

/// A standard library module: its import name, the name programs use for
/// it, the Go packages it needs, and its types, functions and methods.
#[derive(Debug)]
pub struct StdlibModule {
    pub mlang_name: &'static str,
    pub alias: &'static str,
    pub go_imports: Vec<&'static str>,
    pub structs: Vec<StdlibStruct>,
    pub functions: Vec<StdlibFunction>,
    pub methods: Vec<StdlibMethod>,
}

/// A module as plain values: names as characters, types as type models.
#[verifier::ext_equal]
pub struct ModuleModel {
    pub mlang_name: Seq<char>,
    pub alias: Seq<char>,
    pub go_imports: Seq<Seq<char>>,
    pub structs: Seq<(Seq<char>, Seq<(Seq<char>, TypeModel)>)>,
    pub functions: Seq<(Seq<char>, Seq<TypeModel>, TypeModel)>,
    pub methods: Seq<(Seq<char>, Seq<char>, Seq<TypeModel>, TypeModel)>,
}

/// Named fields as plain values.
pub open spec fn field_models(fs: Seq<(String, Type)>) -> Seq<(Seq<char>, TypeModel)> {
    Seq::new(fs.len(), |i: int| (fs[i].0@, fs[i].1.model()))
}

impl StdlibStruct {
    pub open spec fn model(self) -> (Seq<char>, Seq<(Seq<char>, TypeModel)>) {
        (self.name@, field_models(self.fields@))
    }
}

impl StdlibFunction {
    pub open spec fn model(self) -> (Seq<char>, Seq<TypeModel>, TypeModel) {
        (self.name@, models_of(self.params@), self.return_type.model())
    }
}

impl StdlibMethod {
    pub open spec fn model(self) -> (Seq<char>, Seq<char>, Seq<TypeModel>, TypeModel) {
        (self.receiver@, self.name@, models_of(self.params@), self.return_type.model())
    }
}

impl StdlibModule {
    pub open spec fn model(self) -> ModuleModel {
        ModuleModel {
            mlang_name: self.mlang_name@,
            alias: self.alias@,
            go_imports: Seq::new(self.go_imports@.len(), |i: int| self.go_imports@[i]@),
            structs: Seq::new(self.structs@.len(), |i: int| self.structs@[i].model()),
            functions: Seq::new(self.functions@.len(), |i: int| self.functions@[i].model()),
            methods: Seq::new(self.methods@.len(), |i: int| self.methods@[i].model()),
        }
    }
}

// ----------------------------------------------------------------------
// Type builders

fn struct_type(name: &str) -> (t: Type)
    ensures
        t.model() == TypeModel::Struct(name@),
{
    Type::Struct(name.to_owned())
}

fn dict_type(k: Type, v: Type) -> (t: Type)
    ensures
        t.model() == TypeModel::Dict(Box::new(k.model()), Box::new(v.model())),
{
    Type::HashMap(Box::new(k), Box::new(v))
}

fn array_type(inner: Type) -> (t: Type)
    ensures
        t.model() == TypeModel::Array(Box::new(inner.model())),
{
    Type::Array(Box::new(inner))
}

fn tuple_type(ts: Vec<Type>) -> (t: Type)
    ensures
        t.model() == TypeModel::Tuple(models_of(ts@)),
{
    Type::Tuple(ts)
}

fn function_type(params: Vec<Type>, ret: Type) -> (t: Type)
    ensures
        t.model() == TypeModel::Function(models_of(params@), Box::new(ret.model())),
{
    Type::Function { params, return_type: Box::new(ret) }
}

fn types1(a: Type) -> (v: Vec<Type>)
    ensures
        models_of(v@) == seq![a.model()],
{
    let mut v: Vec<Type> = Vec::new();
    v.push(a);
    proof {
        reveal_with_fuel(models_of, 2);
    }
    v
}

fn types2(a: Type, b: Type) -> (v: Vec<Type>)
    ensures
        models_of(v@) == seq![a.model(), b.model()],
{
    let mut v: Vec<Type> = Vec::new();
    v.push(a);
    v.push(b);
    proof {
        reveal_with_fuel(models_of, 3);
        assert(v@.drop_first().drop_first() =~= Seq::<Type>::empty());
    }
    v
}

fn types3(a: Type, b: Type, c: Type) -> (v: Vec<Type>)
    ensures
        models_of(v@) == seq![a.model(), b.model(), c.model()],
{
    let mut v: Vec<Type> = Vec::new();
    v.push(a);
    v.push(b);
    v.push(c);
    proof {
        reveal_with_fuel(models_of, 4);
        assert(v@.drop_first().drop_first().drop_first() =~= Seq::<Type>::empty());
    }
    v
}

// ----------------------------------------------------------------------
// The modules

/// The `kainn/http` module.
pub open spec fn http_module_model() -> ModuleModel {
    ModuleModel {
        mlang_name: "kainn/http"@,
        alias: "http"@,
        go_imports: seq!["net/http"@, "io"@, "strings"@, "encoding/json"@, "net/url"@, "context"@, "time"@],
        structs: seq![("http.Response"@, seq![("status"@, TypeModel::Kain), ("body"@, TypeModel::Sar), ("headers"@, TypeModel::Dict(Box::new(TypeModel::Sar), Box::new(TypeModel::Sar)))]), ("http.Request"@, seq![("method"@, TypeModel::Sar), ("path"@, TypeModel::Sar), ("body"@, TypeModel::Sar), ("headers"@, TypeModel::Dict(Box::new(TypeModel::Sar), Box::new(TypeModel::Sar)))]), ("http.ResponseWriter"@, Seq::empty())],
        functions: seq![("get"@, seq![TypeModel::Sar], TypeModel::Tuple(seq![TypeModel::Struct("http.Response"@), TypeModel::Error])), ("post"@, seq![TypeModel::Sar, TypeModel::Sar], TypeModel::Tuple(seq![TypeModel::Struct("http.Response"@), TypeModel::Error])), ("handle"@, seq![TypeModel::Sar, TypeModel::Function(seq![TypeModel::Struct("http.Request"@), TypeModel::Struct("http.ResponseWriter"@)], Box::new(TypeModel::Error))], TypeModel::Error), ("handle_ctx"@, seq![TypeModel::Sar, TypeModel::Baung, TypeModel::Function(seq![TypeModel::Struct("http.Request"@), TypeModel::Struct("http.ResponseWriter"@), TypeModel::Baung], Box::new(TypeModel::Error))], TypeModel::Error), ("handle_timeout"@, seq![TypeModel::Sar, TypeModel::Kain, TypeModel::Function(seq![TypeModel::Struct("http.Request"@), TypeModel::Struct("http.ResponseWriter"@), TypeModel::Baung], Box::new(TypeModel::Error))], TypeModel::Error), ("listen"@, seq![TypeModel::Sar], TypeModel::Error)],
        methods: seq![("http.Request"@, "header"@, seq![TypeModel::Sar], TypeModel::Sar), ("http.Request"@, "query"@, seq![TypeModel::Sar], TypeModel::Sar), ("http.ResponseWriter"@, "write"@, seq![TypeModel::Sar], TypeModel::Error), ("http.ResponseWriter"@, "status"@, seq![TypeModel::Kain], TypeModel::Error), ("http.ResponseWriter"@, "header"@, seq![TypeModel::Sar, TypeModel::Sar], TypeModel::Error), ("http.ResponseWriter"@, "json"@, seq![TypeModel::Dict(Box::new(TypeModel::Sar), Box::new(TypeModel::Kain))], TypeModel::Error)],
    }
}

/// The `kainn` module.
pub open spec fn kainn_module_model() -> ModuleModel {
    ModuleModel {
        mlang_name: "kainn"@,
        alias: "kainn"@,
        go_imports: seq!["net"@, "bufio"@, "io"@, "strings"@],
        structs: seq![("kainn.TCPListener"@, Seq::empty()), ("kainn.TCPConn"@, Seq::empty()), ("kainn.UDPConn"@, Seq::empty())],
        functions: seq![("tcp_listen"@, seq![TypeModel::Sar], TypeModel::Tuple(seq![TypeModel::Struct("kainn.TCPListener"@), TypeModel::Error])), ("tcp_dial"@, seq![TypeModel::Sar], TypeModel::Tuple(seq![TypeModel::Struct("kainn.TCPConn"@), TypeModel::Error])), ("udp_bind"@, seq![TypeModel::Sar], TypeModel::Tuple(seq![TypeModel::Struct("kainn.UDPConn"@), TypeModel::Error]))],
        methods: seq![("kainn.TCPListener"@, "accept"@, Seq::empty(), TypeModel::Tuple(seq![TypeModel::Struct("kainn.TCPConn"@), TypeModel::Error])), ("kainn.TCPListener"@, "close"@, Seq::empty(), TypeModel::Error), ("kainn.TCPConn"@, "read"@, Seq::empty(), TypeModel::Tuple(seq![TypeModel::Sar, TypeModel::Error])), ("kainn.TCPConn"@, "write"@, seq![TypeModel::Sar], TypeModel::Error), ("kainn.TCPConn"@, "close"@, Seq::empty(), TypeModel::Error), ("kainn.UDPConn"@, "recv"@, Seq::empty(), TypeModel::Tuple(seq![TypeModel::Sar, TypeModel::Sar, TypeModel::Error])), ("kainn.UDPConn"@, "send_to"@, seq![TypeModel::Sar, TypeModel::Sar], TypeModel::Error), ("kainn.UDPConn"@, "close"@, Seq::empty(), TypeModel::Error)],
    }
}

/// The `json` module.
pub open spec fn json_module_model() -> ModuleModel {
    ModuleModel {
        mlang_name: "json"@,
        alias: "json"@,
        go_imports: seq!["encoding/json"@, "fmt"@],
        structs: Seq::empty(),
        functions: seq![("encode"@, seq![TypeModel::Dict(Box::new(TypeModel::Sar), Box::new(TypeModel::Kain))], TypeModel::Tuple(seq![TypeModel::Sar, TypeModel::Error])), ("decode"@, seq![TypeModel::Sar], TypeModel::Tuple(seq![TypeModel::Dict(Box::new(TypeModel::Sar), Box::new(TypeModel::Kain)), TypeModel::Error]))],
        methods: Seq::empty(),
    }
}

/// The `file` module.
pub open spec fn file_module_model() -> ModuleModel {
    ModuleModel {
        mlang_name: "file"@,
        alias: "file"@,
        go_imports: seq!["os"@],
        structs: Seq::empty(),
        functions: seq![("read"@, seq![TypeModel::Sar], TypeModel::Tuple(seq![TypeModel::Sar, TypeModel::Error])), ("write"@, seq![TypeModel::Sar, TypeModel::Sar], TypeModel::Error)],
        methods: Seq::empty(),
    }
}

/// The `su_nit` module.
pub open spec fn su_nit_module_model() -> ModuleModel {
    ModuleModel {
        mlang_name: "su_nit"@,
        alias: "su_nit"@,
        go_imports: seq!["os"@],
        structs: Seq::empty(),
        functions: seq![("env"@, seq![TypeModel::Sar], TypeModel::Sar), ("args"@, Seq::empty(), TypeModel::Array(Box::new(TypeModel::Sar)))],
        methods: Seq::empty(),
    }
}

/// The `pone_set` module.
pub open spec fn pone_set_module_model() -> ModuleModel {
    ModuleModel {
        mlang_name: "pone_set"@,
        alias: "pone_set"@,
        go_imports: seq!["fmt"@],
        structs: Seq::empty(),
        functions: seq![("pon_san"@, seq![TypeModel::Sar, TypeModel::Sar], TypeModel::Sar)],
        methods: Seq::empty(),
    }
}

/// The `in_ote` module.
pub open spec fn in_ote_module_model() -> ModuleModel {
    ModuleModel {
        mlang_name: "in_ote"@,
        alias: "in_ote"@,
        go_imports: seq!["bufio"@, "os"@, "io"@],
        structs: Seq::empty(),
        functions: seq![("twin_phat"@, Seq::empty(), TypeModel::Tuple(seq![TypeModel::Sar, TypeModel::Error])), ("htote_yay"@, seq![TypeModel::Sar], TypeModel::Error)],
        methods: Seq::empty(),
    }
}

/// The `hmat` module.
pub open spec fn hmat_module_model() -> ModuleModel {
    ModuleModel {
        mlang_name: "hmat"@,
        alias: "hmat"@,
        go_imports: seq!["log"@],
        structs: Seq::empty(),
        functions: seq![("mhat_chet"@, seq![TypeModel::Sar], TypeModel::Error), ("mhat_thati"@, seq![TypeModel::Sar], TypeModel::Error), ("mhat_amhar"@, seq![TypeModel::Sar], TypeModel::Error)],
        methods: Seq::empty(),
    }
}

/// The `database` module.
pub open spec fn database_module_model() -> ModuleModel {
    ModuleModel {
        mlang_name: "database"@,
        alias: "database"@,
        go_imports: seq!["database/sql"@, "github.com/lib/pq"@, "fmt"@, "context"@, "time"@],
        structs: seq![("database.Conn"@, Seq::empty())],
        functions: seq![("open"@, seq![TypeModel::Sar], TypeModel::Tuple(seq![TypeModel::Struct("database.Conn"@), TypeModel::Error]))],
        methods: seq![("database.Conn"@, "exec"@, seq![TypeModel::Baung, TypeModel::Sar], TypeModel::Error), ("database.Conn"@, "query_one"@, seq![TypeModel::Baung, TypeModel::Sar], TypeModel::Tuple(seq![TypeModel::Dict(Box::new(TypeModel::Sar), Box::new(TypeModel::Sar)), TypeModel::Error])), ("database.Conn"@, "query_all"@, seq![TypeModel::Baung, TypeModel::Sar], TypeModel::Tuple(seq![TypeModel::Array(Box::new(TypeModel::Dict(Box::new(TypeModel::Sar), Box::new(TypeModel::Sar)))), TypeModel::Error])), ("database.Conn"@, "close"@, Seq::empty(), TypeModel::Error)],
    }
}

fn http_module() -> (m: StdlibModule)
    ensures
        m.model() == http_module_model(),
{
    let mut go_imports: Vec<&'static str> = Vec::new();
    go_imports.push("net/http");
    go_imports.push("io");
    go_imports.push("strings");
    go_imports.push("encoding/json");
    go_imports.push("net/url");
    go_imports.push("context");
    go_imports.push("time");
    let mut structs: Vec<StdlibStruct> = Vec::new();
    let mut fields: Vec<(String, Type)> = Vec::new();
    fields.push(("status".to_owned(), Type::Kain));
    fields.push(("body".to_owned(), Type::Sar));
    fields.push(("headers".to_owned(), dict_type(Type::Sar, Type::Sar)));
    structs.push(StdlibStruct { name: "http.Response", fields });
    let mut fields: Vec<(String, Type)> = Vec::new();
    fields.push(("method".to_owned(), Type::Sar));
    fields.push(("path".to_owned(), Type::Sar));
    fields.push(("body".to_owned(), Type::Sar));
    fields.push(("headers".to_owned(), dict_type(Type::Sar, Type::Sar)));
    structs.push(StdlibStruct { name: "http.Request", fields });
    let mut fields: Vec<(String, Type)> = Vec::new();
    structs.push(StdlibStruct { name: "http.ResponseWriter", fields });
    let mut functions: Vec<StdlibFunction> = Vec::new();
    functions.push(StdlibFunction { name: "get", params: types1(Type::Sar), return_type: tuple_type(types2(struct_type("http.Response"), Type::Error)) });
    functions.push(StdlibFunction { name: "post", params: types2(Type::Sar, Type::Sar), return_type: tuple_type(types2(struct_type("http.Response"), Type::Error)) });
    functions.push(StdlibFunction { name: "handle", params: types2(Type::Sar, function_type(types2(struct_type("http.Request"), struct_type("http.ResponseWriter")), Type::Error)), return_type: Type::Error });
    functions.push(StdlibFunction { name: "handle_ctx", params: types3(Type::Sar, Type::Baung, function_type(types3(struct_type("http.Request"), struct_type("http.ResponseWriter"), Type::Baung), Type::Error)), return_type: Type::Error });
    functions.push(StdlibFunction { name: "handle_timeout", params: types3(Type::Sar, Type::Kain, function_type(types3(struct_type("http.Request"), struct_type("http.ResponseWriter"), Type::Baung), Type::Error)), return_type: Type::Error });
    functions.push(StdlibFunction { name: "listen", params: types1(Type::Sar), return_type: Type::Error });
    let mut methods: Vec<StdlibMethod> = Vec::new();
    methods.push(StdlibMethod { receiver: "http.Request", name: "header", params: types1(Type::Sar), return_type: Type::Sar });
    methods.push(StdlibMethod { receiver: "http.Request", name: "query", params: types1(Type::Sar), return_type: Type::Sar });
    methods.push(StdlibMethod { receiver: "http.ResponseWriter", name: "write", params: types1(Type::Sar), return_type: Type::Error });
    methods.push(StdlibMethod { receiver: "http.ResponseWriter", name: "status", params: types1(Type::Kain), return_type: Type::Error });
    methods.push(StdlibMethod { receiver: "http.ResponseWriter", name: "header", params: types2(Type::Sar, Type::Sar), return_type: Type::Error });
    methods.push(StdlibMethod { receiver: "http.ResponseWriter", name: "json", params: types1(dict_type(Type::Sar, Type::Kain)), return_type: Type::Error });
    let m = StdlibModule { mlang_name: "kainn/http", alias: "http", go_imports, structs, functions, methods };
    assert(m.model() =~~= http_module_model());
    m
}

fn kainn_module() -> (m: StdlibModule)
    ensures
        m.model() == kainn_module_model(),
{
    let mut go_imports: Vec<&'static str> = Vec::new();
    go_imports.push("net");
    go_imports.push("bufio");
    go_imports.push("io");
    go_imports.push("strings");
    let mut structs: Vec<StdlibStruct> = Vec::new();
    let mut fields: Vec<(String, Type)> = Vec::new();
    structs.push(StdlibStruct { name: "kainn.TCPListener", fields });
    let mut fields: Vec<(String, Type)> = Vec::new();
    structs.push(StdlibStruct { name: "kainn.TCPConn", fields });
    let mut fields: Vec<(String, Type)> = Vec::new();
    structs.push(StdlibStruct { name: "kainn.UDPConn", fields });
    let mut functions: Vec<StdlibFunction> = Vec::new();
    functions.push(StdlibFunction { name: "tcp_listen", params: types1(Type::Sar), return_type: tuple_type(types2(struct_type("kainn.TCPListener"), Type::Error)) });
    functions.push(StdlibFunction { name: "tcp_dial", params: types1(Type::Sar), return_type: tuple_type(types2(struct_type("kainn.TCPConn"), Type::Error)) });
    functions.push(StdlibFunction { name: "udp_bind", params: types1(Type::Sar), return_type: tuple_type(types2(struct_type("kainn.UDPConn"), Type::Error)) });
    let mut methods: Vec<StdlibMethod> = Vec::new();
    methods.push(StdlibMethod { receiver: "kainn.TCPListener", name: "accept", params: Vec::new(), return_type: tuple_type(types2(struct_type("kainn.TCPConn"), Type::Error)) });
    methods.push(StdlibMethod { receiver: "kainn.TCPListener", name: "close", params: Vec::new(), return_type: Type::Error });
    methods.push(StdlibMethod { receiver: "kainn.TCPConn", name: "read", params: Vec::new(), return_type: tuple_type(types2(Type::Sar, Type::Error)) });
    methods.push(StdlibMethod { receiver: "kainn.TCPConn", name: "write", params: types1(Type::Sar), return_type: Type::Error });
    methods.push(StdlibMethod { receiver: "kainn.TCPConn", name: "close", params: Vec::new(), return_type: Type::Error });
    methods.push(StdlibMethod { receiver: "kainn.UDPConn", name: "recv", params: Vec::new(), return_type: tuple_type(types3(Type::Sar, Type::Sar, Type::Error)) });
    methods.push(StdlibMethod { receiver: "kainn.UDPConn", name: "send_to", params: types2(Type::Sar, Type::Sar), return_type: Type::Error });
    methods.push(StdlibMethod { receiver: "kainn.UDPConn", name: "close", params: Vec::new(), return_type: Type::Error });
    let m = StdlibModule { mlang_name: "kainn", alias: "kainn", go_imports, structs, functions, methods };
    assert(m.model() =~~= kainn_module_model());
    m
}

fn json_module() -> (m: StdlibModule)
    ensures
        m.model() == json_module_model(),
{
    let mut go_imports: Vec<&'static str> = Vec::new();
    go_imports.push("encoding/json");
    go_imports.push("fmt");
    let mut structs: Vec<StdlibStruct> = Vec::new();
    let mut functions: Vec<StdlibFunction> = Vec::new();
    functions.push(StdlibFunction { name: "encode", params: types1(dict_type(Type::Sar, Type::Kain)), return_type: tuple_type(types2(Type::Sar, Type::Error)) });
    functions.push(StdlibFunction { name: "decode", params: types1(Type::Sar), return_type: tuple_type(types2(dict_type(Type::Sar, Type::Kain), Type::Error)) });
    let mut methods: Vec<StdlibMethod> = Vec::new();
    let m = StdlibModule { mlang_name: "json", alias: "json", go_imports, structs, functions, methods };
    assert(m.model() =~~= json_module_model());
    m
}

fn file_module() -> (m: StdlibModule)
    ensures
        m.model() == file_module_model(),
{
    let mut go_imports: Vec<&'static str> = Vec::new();
    go_imports.push("os");
    let mut structs: Vec<StdlibStruct> = Vec::new();
    let mut functions: Vec<StdlibFunction> = Vec::new();
    functions.push(StdlibFunction { name: "read", params: types1(Type::Sar), return_type: tuple_type(types2(Type::Sar, Type::Error)) });
    functions.push(StdlibFunction { name: "write", params: types2(Type::Sar, Type::Sar), return_type: Type::Error });
    let mut methods: Vec<StdlibMethod> = Vec::new();
    let m = StdlibModule { mlang_name: "file", alias: "file", go_imports, structs, functions, methods };
    assert(m.model() =~~= file_module_model());
    m
}

fn su_nit_module() -> (m: StdlibModule)
    ensures
        m.model() == su_nit_module_model(),
{
    let mut go_imports: Vec<&'static str> = Vec::new();
    go_imports.push("os");
    let mut structs: Vec<StdlibStruct> = Vec::new();
    let mut functions: Vec<StdlibFunction> = Vec::new();
    functions.push(StdlibFunction { name: "env", params: types1(Type::Sar), return_type: Type::Sar });
    functions.push(StdlibFunction { name: "args", params: Vec::new(), return_type: array_type(Type::Sar) });
    let mut methods: Vec<StdlibMethod> = Vec::new();
    let m = StdlibModule { mlang_name: "su_nit", alias: "su_nit", go_imports, structs, functions, methods };
    assert(m.model() =~~= su_nit_module_model());
    m
}

fn pone_set_module() -> (m: StdlibModule)
    ensures
        m.model() == pone_set_module_model(),
{
    let mut go_imports: Vec<&'static str> = Vec::new();
    go_imports.push("fmt");
    let mut structs: Vec<StdlibStruct> = Vec::new();
    let mut functions: Vec<StdlibFunction> = Vec::new();
    functions.push(StdlibFunction { name: "pon_san", params: types2(Type::Sar, Type::Sar), return_type: Type::Sar });
    let mut methods: Vec<StdlibMethod> = Vec::new();
    let m = StdlibModule { mlang_name: "pone_set", alias: "pone_set", go_imports, structs, functions, methods };
    assert(m.model() =~~= pone_set_module_model());
    m
}

fn in_ote_module() -> (m: StdlibModule)
    ensures
        m.model() == in_ote_module_model(),
{
    let mut go_imports: Vec<&'static str> = Vec::new();
    go_imports.push("bufio");
    go_imports.push("os");
    go_imports.push("io");
    let mut structs: Vec<StdlibStruct> = Vec::new();
    let mut functions: Vec<StdlibFunction> = Vec::new();
    functions.push(StdlibFunction { name: "twin_phat", params: Vec::new(), return_type: tuple_type(types2(Type::Sar, Type::Error)) });
    functions.push(StdlibFunction { name: "htote_yay", params: types1(Type::Sar), return_type: Type::Error });
    let mut methods: Vec<StdlibMethod> = Vec::new();
    let m = StdlibModule { mlang_name: "in_ote", alias: "in_ote", go_imports, structs, functions, methods };
    assert(m.model() =~~= in_ote_module_model());
    m
}

fn hmat_module() -> (m: StdlibModule)
    ensures
        m.model() == hmat_module_model(),
{
    let mut go_imports: Vec<&'static str> = Vec::new();
    go_imports.push("log");
    let mut structs: Vec<StdlibStruct> = Vec::new();
    let mut functions: Vec<StdlibFunction> = Vec::new();
    functions.push(StdlibFunction { name: "mhat_chet", params: types1(Type::Sar), return_type: Type::Error });
    functions.push(StdlibFunction { name: "mhat_thati", params: types1(Type::Sar), return_type: Type::Error });
    functions.push(StdlibFunction { name: "mhat_amhar", params: types1(Type::Sar), return_type: Type::Error });
    let mut methods: Vec<StdlibMethod> = Vec::new();
    let m = StdlibModule { mlang_name: "hmat", alias: "hmat", go_imports, structs, functions, methods };
    assert(m.model() =~~= hmat_module_model());
    m
}

fn database_module() -> (m: StdlibModule)
    ensures
        m.model() == database_module_model(),
{
    let mut go_imports: Vec<&'static str> = Vec::new();
    go_imports.push("database/sql");
    go_imports.push("github.com/lib/pq");
    go_imports.push("fmt");
    go_imports.push("context");
    go_imports.push("time");
    let mut structs: Vec<StdlibStruct> = Vec::new();
    let mut fields: Vec<(String, Type)> = Vec::new();
    structs.push(StdlibStruct { name: "database.Conn", fields });
    let mut functions: Vec<StdlibFunction> = Vec::new();
    functions.push(StdlibFunction { name: "open", params: types1(Type::Sar), return_type: tuple_type(types2(struct_type("database.Conn"), Type::Error)) });
    let mut methods: Vec<StdlibMethod> = Vec::new();
    methods.push(StdlibMethod { receiver: "database.Conn", name: "exec", params: types2(Type::Baung, Type::Sar), return_type: Type::Error });
    methods.push(StdlibMethod { receiver: "database.Conn", name: "query_one", params: types2(Type::Baung, Type::Sar), return_type: tuple_type(types2(dict_type(Type::Sar, Type::Sar), Type::Error)) });
    methods.push(StdlibMethod { receiver: "database.Conn", name: "query_all", params: types2(Type::Baung, Type::Sar), return_type: tuple_type(types2(array_type(dict_type(Type::Sar, Type::Sar)), Type::Error)) });
    methods.push(StdlibMethod { receiver: "database.Conn", name: "close", params: Vec::new(), return_type: Type::Error });
    let m = StdlibModule { mlang_name: "database", alias: "database", go_imports, structs, functions, methods };
    assert(m.model() =~~= database_module_model());
    m
}

/// The module that an import names (quotes around the name are ignored),
/// if it is one of the standard library's.
pub open spec fn stdlib_module(import_name: Seq<char>) -> Option<ModuleModel> {
    let n = trim_quotes(import_name);
    if n == "kainn/http"@ {
        Some(http_module_model())
    } else if n == "kainn"@ {
        Some(kainn_module_model())
    } else if n == "json"@ {
        Some(json_module_model())
    } else if n == "file"@ {
        Some(file_module_model())
    } else if n == "su_nit"@ {
        Some(su_nit_module_model())
    } else if n == "pone_set"@ {
        Some(pone_set_module_model())
    } else if n == "in_ote"@ {
        Some(in_ote_module_model())
    } else if n == "hmat"@ {
        Some(hmat_module_model())
    } else if n == "database"@ {
        Some(database_module_model())
    } else {
        None
    }
}

/// The standard library module an import names, if any.
pub fn resolve_stdlib_module(import_name: &str) -> (r: Option<StdlibModule>)
    ensures
        match (r, stdlib_module(import_name@)) {
            (Some(m), Some(mm)) => m.model() == mm,
            (None, None) => true,
            _ => false,
        },
{
    let n = trim_quotes_exec(import_name);
    if chars_are(&n, "kainn/http") {
        Some(http_module())
    } else if chars_are(&n, "kainn") {
        Some(kainn_module())
    } else if chars_are(&n, "json") {
        Some(json_module())
    } else if chars_are(&n, "file") {
        Some(file_module())
    } else if chars_are(&n, "su_nit") {
        Some(su_nit_module())
    } else if chars_are(&n, "pone_set") {
        Some(pone_set_module())
    } else if chars_are(&n, "in_ote") {
        Some(in_ote_module())
    } else if chars_are(&n, "hmat") {
        Some(hmat_module())
    } else if chars_are(&n, "database") {
        Some(database_module())
    } else {
        None
    }
}

} // verus!
