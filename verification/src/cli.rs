//! Command-line arguments of the `mlang` tool and the names it derives from
//! them.
use vstd::prelude::*;

use crate::ast::{Program, Statement};
use crate::lexer::{trim_end_chars, trim_start_chars};
use crate::text::{
    char_to_uppercase, char_upper, chars_of, is_hex_digit_spec, is_whitespace, is_whitespace_spec, lowercase,
    push_chars, push_str,
    push_string, str_eq, str_to_lowercase, string_of, trim_end_spec, trim_start_spec,
};

verus! {

/// Operating system and architecture asked for a Go build.
#[derive(Debug, Clone, PartialEq, Eq)]
pub struct GoTargetOptions {
    pub goos: Option<String>,
    pub goarch: Option<String>,
}

impl Default for GoTargetOptions {
    fn default() -> (r: Self)
        ensures
            r.goos is None,
            r.goarch is None,
    {
        GoTargetOptions { goos: None, goarch: None }
    }
}

/// The arguments of `mlang build`.
#[derive(Debug, Clone)]
pub struct BuildArgs {
    pub target: String,
    pub file_path: Option<String>,
    pub go_target: GoTargetOptions,
}

/// The arguments of `mlang get`.
#[derive(Debug, Clone)]
pub struct GetArgs {
    pub import_path: String,
    pub git_url: String,
    pub git_ref: String,
    pub entry: String,
}

/// The text of each argument.
pub open spec fn arg_texts(args: Seq<String>) -> Seq<Seq<char>> {
    Seq::new(args.len(), |i: int| args[i]@)
}

pub open spec fn opt_text(o: Option<String>) -> Option<Seq<char>> {
    match o {
        Some(s) => Some(s@),
        None => None,
    }
}

/// Whether an argument is written as a flag (starts with `--`).
pub open spec fn is_flag(a: Seq<char>) -> bool {
    a.len() >= 2 && a[0] == '-' && a[1] == '-'
}

fn starts_with_dashes(s: &String) -> (r: bool)
    ensures
        r == is_flag(s@),
{
    let cs = chars_of(s.as_str());
    cs.len() >= 2 && cs[0] == '-' && cs[1] == '-'
}

/// `before`, the text, then `after`.
fn framed(before: &str, text: &String, after: &str) -> (r: String)
    ensures
        r@ == before@ + text@ + after@,
{
    let mut out: Vec<char> = Vec::new();
    push_str(&mut out, before);
    push_string(&mut out, text);
    push_str(&mut out, after);
    string_of(out.as_slice())
}

// ----------------------------------------------------------------------
// mlang build

/// What `mlang build` has read so far: target, input file, Go OS and
/// architecture.
pub struct BuildModel {
    pub target: Seq<char>,
    pub file: Option<Seq<char>>,
    pub goos: Option<Seq<char>>,
    pub goarch: Option<Seq<char>>,
}

pub open spec fn build_model_of(b: BuildArgs) -> BuildModel {
    BuildModel {
        target: b.target@,
        file: opt_text(b.file_path),
        goos: opt_text(b.go_target.goos),
        goarch: opt_text(b.go_target.goarch),
    }
}

/// Reads the build arguments from position `i` on: `--target`, `--goos` and
/// `--goarch` take the next argument, lower-cased; any other flag is an
/// error; the one argument that is no flag is the input file.
pub open spec fn build_scan(args: Seq<Seq<char>>, i: int, m: BuildModel) -> Result<BuildModel, Seq<char>>
    decreases args.len() - i,
{
    if i < 0 || i >= args.len() {
        Ok(m)
    } else if args[i] == "--target"@ {
        if i + 1 >= args.len() {
            Err("--target requires a value ('c', 'go', or 'llvm')"@)
        } else {
            build_scan(args, i + 2, BuildModel { target: lowercase(args[i + 1]), ..m })
        }
    } else if args[i] == "--goos"@ {
        if i + 1 >= args.len() {
            Err("--goos requires a value"@)
        } else {
            build_scan(args, i + 2, BuildModel { goos: Some(lowercase(args[i + 1])), ..m })
        }
    } else if args[i] == "--goarch"@ {
        if i + 1 >= args.len() {
            Err("--goarch requires a value"@)
        } else {
            build_scan(args, i + 2, BuildModel { goarch: Some(lowercase(args[i + 1])), ..m })
        }
    } else if is_flag(args[i]) {
        Err("Unknown flag `"@ + args[i] + "`"@)
    } else if m.file is Some {
        Err("Multiple input files provided"@)
    } else {
        build_scan(args, i + 1, BuildModel { file: Some(args[i]), ..m })
    }
}

/// The outcome of `mlang build`'s argument parsing: the target must be
/// `c`, `go` or `llvm` (default `llvm`), and Go OS/architecture only go with
/// the Go target.
pub open spec fn build_args_result(args: Seq<Seq<char>>) -> Result<BuildModel, Seq<char>> {
    match build_scan(
        args,
        0,
        BuildModel { target: "llvm"@, file: None, goos: None, goarch: None },
    ) {
        Err(e) => Err(e),
        Ok(m) => if !(m.target == "c"@ || m.target == "go"@ || m.target == "llvm"@) {
            Err("Unknown target '"@ + m.target + "'. Use 'c', 'go', or 'llvm'."@)
        } else if m.target != "go"@ && (m.goos is Some || m.goarch is Some) {
            Err("--goos/--goarch are only supported with `--target go`"@)
        } else {
            Ok(m)
        },
    }
}

/// Parses the arguments of `mlang build`.
pub fn parse_build_args(args: &[String]) -> (r: Result<BuildArgs, String>)
    ensures
        match (r, build_args_result(arg_texts(args@))) {
            (Ok(b), Ok(m)) => build_model_of(b) == m,
            (Err(e), Err(s)) => e@ == s,
            _ => false,
        },
{
    let ghost a = arg_texts(args@);
    let mut out = BuildArgs {
        target: "llvm".to_owned(),
        file_path: None,
        go_target: GoTargetOptions { goos: None, goarch: None },
    };
    let mut i: usize = 0;
    while i < args.len()
        invariant
            i <= args.len(),
            a == arg_texts(args@),
            build_scan(a, i as int, build_model_of(out)) == build_scan(
                a,
                0,
                BuildModel { target: "llvm"@, file: None, goos: None, goarch: None },
            ),
        decreases args.len() - i,
    {
        let arg = &args[i];
        assert(a[i as int] == arg@);
        if str_eq(arg.as_str(), "--target") {
            if i + 1 >= args.len() {
                return Err("--target requires a value ('c', 'go', or 'llvm')".to_owned());
            }
            out.target = str_to_lowercase(args[i + 1].as_str());
            assert(a[i + 1] == args@[i + 1]@);
            i = i + 2;
        } else if str_eq(arg.as_str(), "--goos") {
            if i + 1 >= args.len() {
                return Err("--goos requires a value".to_owned());
            }
            out.go_target.goos = Some(str_to_lowercase(args[i + 1].as_str()));
            assert(a[i + 1] == args@[i + 1]@);
            i = i + 2;
        } else if str_eq(arg.as_str(), "--goarch") {
            if i + 1 >= args.len() {
                return Err("--goarch requires a value".to_owned());
            }
            out.go_target.goarch = Some(str_to_lowercase(args[i + 1].as_str()));
            assert(a[i + 1] == args@[i + 1]@);
            i = i + 2;
        } else if starts_with_dashes(arg) {
            return Err(framed("Unknown flag `", arg, "`"));
        } else {
            if out.file_path.is_some() {
                return Err("Multiple input files provided".to_owned());
            }
            out.file_path = Some(arg.clone());
            i = i + 1;
        }
    }
    let is_c = str_eq(out.target.as_str(), "c");
    let is_go = str_eq(out.target.as_str(), "go");
    let is_llvm = str_eq(out.target.as_str(), "llvm");
    if !(is_c || is_go || is_llvm) {
        return Err(framed("Unknown target '", &out.target, "'. Use 'c', 'go', or 'llvm'."));
    }
    if !is_go && (out.go_target.goos.is_some() || out.go_target.goarch.is_some()) {
        return Err("--goos/--goarch are only supported with `--target go`".to_owned());
    }
    Ok(out)
}

// ----------------------------------------------------------------------
// mlang fmt / test / get

/// `mlang fmt`'s arguments from position `i` on: `--check` turns on check
/// mode, any other flag is an error, and at most one file is given.
pub open spec fn fmt_scan(args: Seq<Seq<char>>, i: int, check: bool, file: Option<Seq<char>>) -> Result<
    (bool, Option<Seq<char>>),
    Seq<char>,
>
    decreases args.len() - i,
{
    if i < 0 || i >= args.len() {
        Ok((check, file))
    } else if args[i] == "--check"@ {
        fmt_scan(args, i + 1, true, file)
    } else if is_flag(args[i]) {
        Err("Unknown flag `"@ + args[i] + "`"@)
    } else if file is Some {
        Err("Multiple input files provided"@)
    } else {
        fmt_scan(args, i + 1, check, Some(args[i]))
    }
}

/// Parses the arguments of `mlang fmt`: whether to only check, and the file.
pub fn parse_fmt_args(args: &[String]) -> (r: Result<(bool, Option<String>), String>)
    ensures
        match (r, fmt_scan(arg_texts(args@), 0, false, None)) {
            (Ok((c, f)), Ok((mc, mf))) => c == mc && opt_text(f) == mf,
            (Err(e), Err(s)) => e@ == s,
            _ => false,
        },
{
    let ghost a = arg_texts(args@);
    let mut check = false;
    let mut file: Option<String> = None;
    let mut i: usize = 0;
    while i < args.len()
        invariant
            i <= args.len(),
            a == arg_texts(args@),
            fmt_scan(a, i as int, check, opt_text(file)) == fmt_scan(a, 0, false, None),
        decreases args.len() - i,
    {
        let arg = &args[i];
        assert(a[i as int] == arg@);
        if str_eq(arg.as_str(), "--check") {
            check = true;
        } else if starts_with_dashes(arg) {
            return Err(framed("Unknown flag `", arg, "`"));
        } else if file.is_some() {
            return Err("Multiple input files provided".to_owned());
        } else {
            file = Some(arg.clone());
        }
        i = i + 1;
    }
    Ok((check, file))
}

/// `mlang test`'s arguments from position `i` on: no flags, one file.
pub open spec fn test_scan(args: Seq<Seq<char>>, i: int, file: Option<Seq<char>>) -> Result<
    Seq<char>,
    Seq<char>,
>
    decreases args.len() - i,
{
    if i < 0 || i >= args.len() {
        match file {
            Some(f) => Ok(f),
            None => Err("No file specified."@),
        }
    } else if is_flag(args[i]) {
        Err("Unknown flag `"@ + args[i] + "`"@)
    } else if file is Some {
        Err("Multiple input files provided"@)
    } else {
        test_scan(args, i + 1, Some(args[i]))
    }
}

/// Parses the arguments of `mlang test`: the file to test.
pub fn parse_test_args(args: &[String]) -> (r: Result<String, String>)
    ensures
        match (r, test_scan(arg_texts(args@), 0, None)) {
            (Ok(f), Ok(m)) => f@ == m,
            (Err(e), Err(s)) => e@ == s,
            _ => false,
        },
{
    let ghost a = arg_texts(args@);
    let mut file: Option<String> = None;
    let mut i: usize = 0;
    while i < args.len()
        invariant
            i <= args.len(),
            a == arg_texts(args@),
            test_scan(a, i as int, opt_text(file)) == test_scan(a, 0, None),
        decreases args.len() - i,
    {
        let arg = &args[i];
        assert(a[i as int] == arg@);
        if starts_with_dashes(arg) {
            return Err(framed("Unknown flag `", arg, "`"));
        }
        if file.is_some() {
            return Err("Multiple input files provided".to_owned());
        }
        file = Some(arg.clone());
        i = i + 1;
    }
    match file {
        Some(f) => Ok(f),
        None => Err("No file specified.".to_owned()),
    }
}

/// What `mlang get` has read so far: import path, repository, ref, entry.
pub struct GetModel {
    pub import_path: Option<Seq<char>>,
    pub git_url: Option<Seq<char>>,
    pub git_ref: Option<Seq<char>>,
    pub entry: Option<Seq<char>>,
}

/// `mlang get`'s arguments from position `i` on: each of `--import`,
/// `--git`, `--ref`, `--entry` takes the next argument (a later one
/// replaces an earlier one); no other flag and no positional argument.
pub open spec fn get_scan(args: Seq<Seq<char>>, i: int, m: GetModel) -> Result<GetModel, Seq<char>>
    decreases args.len() - i,
{
    if i < 0 || i >= args.len() {
        Ok(m)
    } else if args[i] == "--import"@ {
        if i + 1 >= args.len() {
            Err("--import requires a value"@)
        } else {
            get_scan(args, i + 2, GetModel { import_path: Some(args[i + 1]), ..m })
        }
    } else if args[i] == "--git"@ {
        if i + 1 >= args.len() {
            Err("--git requires a value"@)
        } else {
            get_scan(args, i + 2, GetModel { git_url: Some(args[i + 1]), ..m })
        }
    } else if args[i] == "--ref"@ {
        if i + 1 >= args.len() {
            Err("--ref requires a value"@)
        } else {
            get_scan(args, i + 2, GetModel { git_ref: Some(args[i + 1]), ..m })
        }
    } else if args[i] == "--entry"@ {
        if i + 1 >= args.len() {
            Err("--entry requires a value"@)
        } else {
            get_scan(args, i + 2, GetModel { entry: Some(args[i + 1]), ..m })
        }
    } else if is_flag(args[i]) {
        Err("Unknown flag `"@ + args[i] + "`"@)
    } else {
        Err("Unexpected positional argument `"@ + args[i] + "`"@)
    }
}

/// The outcome of `mlang get`'s argument parsing: all four values are
/// required, checked in the order import, git, ref, entry.
pub open spec fn get_args_result(args: Seq<Seq<char>>) -> Result<GetModel, Seq<char>> {
    match get_scan(args, 0, GetModel { import_path: None, git_url: None, git_ref: None, entry: None }) {
        Err(e) => Err(e),
        Ok(m) => if m.import_path is None {
            Err("--import is required"@)
        } else if m.git_url is None {
            Err("--git is required"@)
        } else if m.git_ref is None {
            Err("--ref is required"@)
        } else if m.entry is None {
            Err("--entry is required"@)
        } else {
            Ok(m)
        },
    }
}

/// Parses the arguments of `mlang get`.
pub fn parse_get_args(args: &[String]) -> (r: Result<GetArgs, String>)
    ensures
        match (r, get_args_result(arg_texts(args@))) {
            (Ok(g), Ok(m)) => Some(g.import_path@) == m.import_path && Some(g.git_url@) == m.git_url
                && Some(g.git_ref@) == m.git_ref && Some(g.entry@) == m.entry,
            (Err(e), Err(s)) => e@ == s,
            _ => false,
        },
{
    let ghost a = arg_texts(args@);
    let mut import_path: Option<String> = None;
    let mut git_url: Option<String> = None;
    let mut git_ref: Option<String> = None;
    let mut entry: Option<String> = None;
    let mut i: usize = 0;
    while i < args.len()
        invariant
            i <= args.len(),
            a == arg_texts(args@),
            get_scan(
                a,
                i as int,
                GetModel {
                    import_path: opt_text(import_path),
                    git_url: opt_text(git_url),
                    git_ref: opt_text(git_ref),
                    entry: opt_text(entry),
                },
            ) == get_scan(a, 0, GetModel { import_path: None, git_url: None, git_ref: None, entry: None }),
        decreases args.len() - i,
    {
        let arg = &args[i];
        assert(a[i as int] == arg@);
        if str_eq(arg.as_str(), "--import") {
            if i + 1 >= args.len() {
                return Err("--import requires a value".to_owned());
            }
            import_path = Some(args[i + 1].clone());
            assert(a[i + 1] == args@[i + 1]@);
            i = i + 2;
        } else if str_eq(arg.as_str(), "--git") {
            if i + 1 >= args.len() {
                return Err("--git requires a value".to_owned());
            }
            git_url = Some(args[i + 1].clone());
            assert(a[i + 1] == args@[i + 1]@);
            i = i + 2;
        } else if str_eq(arg.as_str(), "--ref") {
            if i + 1 >= args.len() {
                return Err("--ref requires a value".to_owned());
            }
            git_ref = Some(args[i + 1].clone());
            assert(a[i + 1] == args@[i + 1]@);
            i = i + 2;
        } else if str_eq(arg.as_str(), "--entry") {
            if i + 1 >= args.len() {
                return Err("--entry requires a value".to_owned());
            }
            entry = Some(args[i + 1].clone());
            assert(a[i + 1] == args@[i + 1]@);
            i = i + 2;
        } else if starts_with_dashes(arg) {
            return Err(framed("Unknown flag `", arg, "`"));
        } else {
            return Err(framed("Unexpected positional argument `", arg, "`"));
        }
    }
    let import_path = match import_path {
        Some(v) => v,
        None => {
            return Err("--import is required".to_owned());
        },
    };
    let git_url = match git_url {
        Some(v) => v,
        None => {
            return Err("--git is required".to_owned());
        },
    };
    let git_ref = match git_ref {
        Some(v) => v,
        None => {
            return Err("--ref is required".to_owned());
        },
    };
    let entry = match entry {
        Some(v) => v,
        None => {
            return Err("--entry is required".to_owned());
        },
    };
    Ok(GetArgs { import_path, git_url, git_ref, entry })
}

// ----------------------------------------------------------------------
// Output names and Go targets

/// The executable suffix Go uses for an operating system.
pub open spec fn go_suffix_text(goos: Seq<char>) -> Seq<char> {
    if goos == "windows"@ {
        ".exe"@
    } else {
        Seq::empty()
    }
}

/// `.exe` for Windows, nothing otherwise.
pub fn go_binary_suffix(goos: &str) -> (r: &'static str)
    ensures
        r@ == go_suffix_text(goos@),
{
    if str_eq(goos, "windows") {
        ".exe"
    } else {
        proof {
            reveal_strlit("");
        }
        ""
    }
}

pub open spec fn or_text(o: Option<String>, d: Seq<char>) -> Seq<char> {
    match o {
        Some(s) => s@,
        None => d,
    }
}

/// The Go OS and architecture of a build: those asked for, the host's where
/// none was asked for.
pub fn resolved_go_target(opts: &GoTargetOptions, host_goos: &str, host_goarch: &str) -> (r: (
    String,
    String,
))
    ensures
        r.0@ == or_text(opts.goos, host_goos@),
        r.1@ == or_text(opts.goarch, host_goarch@),
{
    let goos = match &opts.goos {
        Some(g) => g.clone(),
        None => host_goos.to_owned(),
    };
    let goarch = match &opts.goarch {
        Some(a) => a.clone(),
        None => host_goarch.to_owned(),
    };
    (goos, goarch)
}

/// Whether a Go build is for another platform than the host.
pub open spec fn is_cross(opts: GoTargetOptions, host_goos: Seq<char>, host_goarch: Seq<char>) -> bool {
    or_text(opts.goos, host_goos) != host_goos || or_text(opts.goarch, host_goarch) != host_goarch
}

/// Whether a Go build is for another platform than the host.
pub fn is_cross_target(opts: &GoTargetOptions, host_goos: &str, host_goarch: &str) -> (r: bool)
    ensures
        r == is_cross(*opts, host_goos@, host_goarch@),
{
    let (goos, goarch) = resolved_go_target(opts, host_goos, host_goarch);
    !str_eq(goos.as_str(), host_goos) || !str_eq(goarch.as_str(), host_goarch)
}

/// The file name of a build's executable: for Go, the stem with the
/// target OS and architecture when cross-compiling and the Go suffix; for
/// the other targets, the stem and the host's executable suffix.
pub open spec fn output_name_text(
    stem: Seq<char>,
    target: Seq<char>,
    opts: GoTargetOptions,
    host_goos: Seq<char>,
    host_goarch: Seq<char>,
    native_suffix: Seq<char>,
) -> Seq<char> {
    if target == "go"@ {
        let goos = or_text(opts.goos, host_goos);
        let goarch = or_text(opts.goarch, host_goarch);
        if is_cross(opts, host_goos, host_goarch) {
            stem + seq!['_'] + goos + seq!['_'] + goarch + go_suffix_text(goos)
        } else {
            stem + go_suffix_text(goos)
        }
    } else {
        stem + native_suffix
    }
}

/// The file name of a build's executable.
pub fn output_file_name(
    file_stem: &str,
    target: &str,
    go_target: &GoTargetOptions,
    host_goos: &str,
    host_goarch: &str,
    native_suffix: &str,
) -> (r: String)
    ensures
        r@ == output_name_text(file_stem@, target@, *go_target, host_goos@, host_goarch@, native_suffix@),
{
    let mut out: Vec<char> = Vec::new();
    push_str(&mut out, file_stem);
    if str_eq(target, "go") {
        let (goos, goarch) = resolved_go_target(go_target, host_goos, host_goarch);
        if is_cross_target(go_target, host_goos, host_goarch) {
            out.push('_');
            push_string(&mut out, &goos);
            out.push('_');
            push_string(&mut out, &goarch);
        }
        push_str(&mut out, go_binary_suffix(goos.as_str()));
    } else {
        push_str(&mut out, native_suffix);
    }
    string_of(out.as_slice())
}

// ----------------------------------------------------------------------
// Go test names

/// Go's reserved words.
pub open spec fn is_go_keyword(s: Seq<char>) -> bool {
    s == "break"@ || s == "case"@ || s == "chan"@ || s == "const"@ || s == "continue"@ || s
        == "default"@ || s == "defer"@ || s == "else"@ || s == "fallthrough"@ || s == "for"@ || s
        == "func"@ || s == "go"@ || s == "goto"@ || s == "if"@ || s == "import"@ || s
        == "interface"@ || s == "map"@ || s == "package"@ || s == "range"@ || s == "return"@ || s
        == "select"@ || s == "struct"@ || s == "switch"@ || s == "type"@ || s == "var"@
}

/// A name usable as a Go identifier: Go's reserved words get `ml_` in front.
pub open spec fn clean_go_ident_text(s: Seq<char>) -> Seq<char> {
    if is_go_keyword(s) {
        "ml_"@ + s
    } else {
        s
    }
}

pub fn clean_go_identifier(name: &str) -> (r: String)
    ensures
        r@ == clean_go_ident_text(name@),
{
    let kw = str_eq(name, "break") || str_eq(name, "case") || str_eq(name, "chan") || str_eq(
        name,
        "const",
    ) || str_eq(name, "continue") || str_eq(name, "default") || str_eq(name, "defer") || str_eq(
        name,
        "else",
    ) || str_eq(name, "fallthrough") || str_eq(name, "for") || str_eq(name, "func") || str_eq(
        name,
        "go",
    ) || str_eq(name, "goto") || str_eq(name, "if") || str_eq(name, "import") || str_eq(
        name,
        "interface",
    ) || str_eq(name, "map") || str_eq(name, "package") || str_eq(name, "range") || str_eq(
        name,
        "return",
    ) || str_eq(name, "select") || str_eq(name, "struct") || str_eq(name, "switch") || str_eq(
        name,
        "type",
    ) || str_eq(name, "var");
    let mut out: Vec<char> = Vec::new();
    if kw {
        push_str(&mut out, "ml_");
    }
    push_str(&mut out, name);
    string_of(out.as_slice())
}

/// The first character upper-cased (`char::to_uppercase`), the rest as is.
pub open spec fn capitalized(s: Seq<char>) -> Seq<char> {
    if s.len() == 0 {
        Seq::empty()
    } else {
        char_upper(s[0]) + s.drop_first()
    }
}

pub fn capitalize_first(value: &str) -> (r: String)
    ensures
        r@ == capitalized(value@),
{
    let cs = chars_of(value);
    if cs.len() == 0 {
        return String::new();
    }
    let mut out = char_to_uppercase(cs[0]);
    let mut i: usize = 1;
    while i < cs.len()
        invariant
            1 <= i <= cs.len(),
            cs@ == value@,
            out@ == char_upper(cs@[0]) + cs@.subrange(1, i as int),
        decreases cs.len() - i,
    {
        out.push(cs[i]);
        i = i + 1;
        assert(out@ =~= char_upper(cs@[0]) + cs@.subrange(1, i as int));
    }
    assert(cs@.subrange(1, cs.len() as int) =~= cs@.drop_first());
    string_of(out.as_slice())
}

/// The Go exported form of an underscore-separated name: the underscores
/// dropped and each part capitalized (`a_b_c` gives `ABC`).
pub open spec fn exported_text(s: Seq<char>) -> Seq<char>
    decreases s.len(),
{
    if s.len() == 0 {
        Seq::empty()
    } else {
        let c = s.last();
        let starts_part = s.len() == 1 || s[s.len() - 2] == '_';
        exported_text(s.drop_last()) + if c == '_' {
            Seq::empty()
        } else if starts_part {
            char_upper(c)
        } else {
            seq![c]
        }
    }
}

pub fn go_exported_name(value: &str) -> (r: String)
    ensures
        r@ == exported_text(value@),
{
    let cs = chars_of(value);
    let mut out: Vec<char> = Vec::new();
    let mut i: usize = 0;
    while i < cs.len()
        invariant
            i <= cs.len(),
            cs@ == value@,
            out@ == exported_text(cs@.subrange(0, i as int)),
        decreases cs.len() - i,
    {
        let c = cs[i];
        let ghost pre = cs@.subrange(0, i + 1);
        assert(pre.drop_last() =~= cs@.subrange(0, i as int));
        if c == '_' {
        } else if i == 0 || cs[i - 1] == '_' {
            let up = char_to_uppercase(c);
            push_chars(&mut out, &up);
        } else {
            out.push(c);
            assert(out@ =~= exported_text(cs@.subrange(0, i as int)) + seq![c]);
        }
        i = i + 1;
    }
    assert(cs@.subrange(0, cs.len() as int) =~= cs@);
    string_of(out.as_slice())
}

/// The Go function that runs an M-Lang test: `MlangTest` and the test's
/// name in exported form.
pub open spec fn go_test_name_text(name: Seq<char>) -> Seq<char> {
    exported_text("mlang_test_"@ + clean_go_ident_text(name))
}

pub fn go_test_function_name(name: &str) -> (r: String)
    ensures
        r@ == go_test_name_text(name@),
{
    let ident = clean_go_identifier(name);
    let mut full: Vec<char> = Vec::new();
    push_str(&mut full, "mlang_test_");
    push_string(&mut full, &ident);
    let full = string_of(full.as_slice());
    go_exported_name(full.as_str())
}

// ----------------------------------------------------------------------
// Lock file values

/// A commit hash: 7 to 40 hexadecimal digits.
pub open spec fn is_hex_commit_text(s: Seq<char>) -> bool {
    7 <= s.len() <= 40 && forall|i: int| 0 <= i < s.len() ==> is_hex_digit_spec(#[trigger] s[i])
}

pub fn is_hex_commit(value: &str) -> (r: bool)
    ensures
        r == is_hex_commit_text(value@),
{
    let cs = chars_of(value);
    if cs.len() < 7 || cs.len() > 40 {
        return false;
    }
    let mut i: usize = 0;
    while i < cs.len()
        invariant
            i <= cs.len(),
            cs@ == value@,
            forall|k: int| 0 <= k < i ==> is_hex_digit_spec(#[trigger] cs@[k]),
        decreases cs.len() - i,
    {
        let c = cs[i];
        if !(('0' <= c && c <= '9') || ('a' <= c && c <= 'f') || ('A' <= c && c <= 'F')) {
            return false;
        }
        i = i + 1;
    }
    true
}

/// The text with every backslash turned into a slash.
pub open spec fn slashes(s: Seq<char>) -> Seq<char> {
    Seq::new(s.len(), |i: int| if s[i] == '\\' { '/' } else { s[i] })
}

/// Whether the path has a `..` component (between slashes or the ends).
pub open spec fn has_parent_component(s: Seq<char>) -> bool {
    exists|i: int|
        0 <= i && i + 2 <= s.len() && #[trigger] s[i] == '.' && s[i + 1] == '.' && (i == 0 || s[i
            - 1] == '/') && (i + 2 == s.len() || s[i + 2] == '/')
}

/// The entry path of a dependency, checked: trimmed, with slashes for
/// backslashes, not empty, relative, and without `..`.
pub open spec fn entry_path_result(entry: Seq<char>) -> Result<Seq<char>, Seq<char>> {
    let n = slashes(trim_start_spec(trim_end_spec(entry)));
    if n.len() == 0 {
        Err("`--entry` cannot be empty"@)
    } else if n[0] == '/' || crate::text::has_drive_prefix(n) {
        Err("`--entry` must be a relative path"@)
    } else if has_parent_component(n) {
        Err("`--entry` cannot contain `..` path traversal"@)
    } else {
        Ok(n)
    }
}

/// Checks and normalizes the entry path of a dependency (absolute means
/// starting with `/` or with a drive such as `C:/`).
pub fn normalize_entry_path(entry: &str) -> (r: Result<String, String>)
    ensures
        match (r, entry_path_result(entry@)) {
            (Ok(p), Ok(s)) => p@ == s,
            (Err(e), Err(s)) => e@ == s,
            _ => false,
        },
{
    let cs = chars_of(entry);
    let t = trim_start_chars(&trim_end_chars(&cs));
    let mut n: Vec<char> = Vec::new();
    let mut i: usize = 0;
    while i < t.len()
        invariant
            i <= t.len(),
            n@ == slashes(t@).subrange(0, i as int),
        decreases t.len() - i,
    {
        if t[i] == '\\' {
            n.push('/');
        } else {
            n.push(t[i]);
        }
        i = i + 1;
        assert(n@ =~= slashes(t@).subrange(0, i as int));
    }
    assert(n@ =~= slashes(t@));
    if n.len() == 0 {
        return Err("`--entry` cannot be empty".to_owned());
    }
    if n[0] == '/' || crate::text::has_drive_prefix_exec(&n) {
        return Err("`--entry` must be a relative path".to_owned());
    }
    let mut j: usize = 0;
    while n.len() >= 2 && j <= n.len() - 2
        invariant
            j <= n.len(),
            n@ == slashes(t@),
            t@ == trim_start_spec(trim_end_spec(entry@)),
            n@.len() > 0,
            n@[0] != '/',
            !crate::text::has_drive_prefix(n@),
            forall|k: int|
                0 <= k < j && k + 2 <= n@.len() ==> !(#[trigger] n@[k] == '.' && n@[k + 1] == '.' && (k
                    == 0 || n@[k - 1] == '/') && (k + 2 == n@.len() || n@[k + 2] == '/')),
        decreases n.len() - j,
    {
        if n[j] == '.' && n[j + 1] == '.' && (j == 0 || n[j - 1] == '/') && (j + 2 == n.len() || n[j
            + 2] == '/') {
            assert(n@[j as int] == '.');
            assert(has_parent_component(n@));
            return Err("`--entry` cannot contain `..` path traversal".to_owned());
        }
        j = j + 1;
    }
    Ok(string_of(n.as_slice()))
}

// ----------------------------------------------------------------------
// The test runner

/// How `serde_json` writes a character inside a JSON string.
pub open spec fn json_escape_char(c: char) -> Seq<char> {
    if c == '"' {
        seq!['\\', '"']
    } else if c == '\\' {
        seq!['\\', '\\']
    } else if c == '\u{8}' {
        seq!['\\', 'b']
    } else if c == '\t' {
        seq!['\\', 't']
    } else if c == '\n' {
        seq!['\\', 'n']
    } else if c == '\u{c}' {
        seq!['\\', 'f']
    } else if c == '\r' {
        seq!['\\', 'r']
    } else if (c as u32) < 0x20 {
        seq![
            '\\',
            'u',
            '0',
            '0',
            crate::codegen::hex_digit(((c as u32) / 16) as nat),
            crate::codegen::hex_digit(((c as u32) % 16) as nat),
        ]
    } else {
        seq![c]
    }
}

pub open spec fn json_escaped(s: Seq<char>) -> Seq<char>
    decreases s.len(),
{
    if s.len() == 0 {
        Seq::empty()
    } else {
        json_escaped(s.drop_last()) + json_escape_char(s.last())
    }
}

/// A string as a JSON string literal.
pub open spec fn json_quoted(s: Seq<char>) -> Seq<char> {
    seq!['"'] + json_escaped(s) + seq!['"']
}

#[verifier::external_type_specification]
#[verifier::external_body]
pub struct ExJsonError(serde_json::Error);

/// `serde_json::to_string` on a string: the string as a JSON string
/// literal, quotes, backslashes and control characters escaped as its
/// serializer writes them. A string serialises into an in-memory buffer,
/// which cannot fail, so the result is always `Ok`.
#[verifier::external_body]
fn json_string(s: &String) -> (r: Result<String, serde_json::Error>)
    ensures
        r is Ok,
        r->Ok_0@ == json_quoted(s@),
{
    serde_json::to_string(s)
}

/// The Go source of a test runner: a table of the tests, each by its name
/// as a Go string and the function that runs it, then a loop that runs them
/// all and reports.
pub open spec fn runner_source(names: Seq<Seq<char>>, quoted: Seq<Seq<char>>) -> Seq<char> {
    runner_head() + runner_cases(names, quoted) + runner_tail()
}

pub open spec fn runner_head() -> Seq<char> {
    "package main\n\n"@ + "import (\n"@ + "\t\"fmt\"\n"@ + "\t\"os\"\n"@ + ")\n\n"@ + "type mlangTestCase struct {\n"@ + "\tname string\n"@ + "\trun func() error\n"@ + "}\n\n"@ + "func main() {\n"@ + "\ttests := []mlangTestCase{\n"@
}

pub open spec fn runner_tail() -> Seq<char> {
    "\t}\n\n"@ + "\tfailed := 0\n"@ + "\tfor _, tc := range tests {\n"@ + "\t\tif err := tc.run(); err != nil {\n"@ + "\t\t\tfmt.Printf(\"[FAIL] %s: %v\\n\", tc.name, err)\n"@ + "\t\t\tfailed++\n"@ + "\t\t} else {\n"@ + "\t\t\tfmt.Printf(\"[PASS] %s\\n\", tc.name)\n"@ + "\t\t}\n"@ + "\t}\n\n"@ + "\tif failed > 0 {\n"@ + "\t\tfmt.Printf(\"Failed %d/%d tests\\n\", failed, len(tests))\n"@ + "\t\tos.Exit(1)\n"@ + "\t}\n"@ + "\tfmt.Printf(\"Passed %d/%d tests\\n\", len(tests), len(tests))\n"@ + "}\n"@
}

/// One line per test: its quoted name and its Go function.
pub open spec fn runner_cases(names: Seq<Seq<char>>, quoted: Seq<Seq<char>>) -> Seq<char>
    decreases names.len(),
{
    if names.len() == 0 {
        Seq::empty()
    } else {
        let k = names.len() - 1;
        runner_cases(names.drop_last(), quoted) + "\t\t{name: "@ + quoted[k] + ", run: "@ + go_test_name_text(names[k])
            + "},\n"@
    }
}

pub open spec fn names_model(v: Seq<String>) -> Seq<Seq<char>> {
    Seq::new(v.len(), |i: int| v[i]@)
}

fn push_runner_head(out: &mut Vec<char>)
    ensures
        final(out)@ == old(out)@ + runner_head(),
{
    push_str(out, "package main\n\n");
    push_str(out, "import (\n");
    push_str(out, "\t\"fmt\"\n");
    push_str(out, "\t\"os\"\n");
    push_str(out, ")\n\n");
    push_str(out, "type mlangTestCase struct {\n");
    push_str(out, "\tname string\n");
    push_str(out, "\trun func() error\n");
    push_str(out, "}\n\n");
    push_str(out, "func main() {\n");
    push_str(out, "\ttests := []mlangTestCase{\n");
    assert(final(out)@ =~= old(out)@ + runner_head());
}

fn push_runner_tail(out: &mut Vec<char>)
    ensures
        final(out)@ == old(out)@ + runner_tail(),
{
    let ghost start = out@;
    push_str(out, "\t}\n\n");
    push_str(out, "\tfailed := 0\n");
    push_str(out, "\tfor _, tc := range tests {\n");
    push_str(out, "\t\tif err := tc.run(); err != nil {\n");
    push_str(out, "\t\t\tfmt.Printf(\"[FAIL] %s: %v\\n\", tc.name, err)\n");
    push_str(out, "\t\t\tfailed++\n");
    push_str(out, "\t\t} else {\n");
    push_str(out, "\t\t\tfmt.Printf(\"[PASS] %s\\n\", tc.name)\n");
    let ghost mid = out@;
    assert(mid =~= start + "\t}\n\n"@ + "\tfailed := 0\n"@ + "\tfor _, tc := range tests {\n"@ + "\t\tif err := tc.run(); err != nil {\n"@ + "\t\t\tfmt.Printf(\"[FAIL] %s: %v\\n\", tc.name, err)\n"@ + "\t\t\tfailed++\n"@ + "\t\t} else {\n"@ + "\t\t\tfmt.Printf(\"[PASS] %s\\n\", tc.name)\n"@);
    push_str(out, "\t\t}\n");
    push_str(out, "\t}\n\n");
    push_str(out, "\tif failed > 0 {\n");
    push_str(out, "\t\tfmt.Printf(\"Failed %d/%d tests\\n\", failed, len(tests))\n");
    push_str(out, "\t\tos.Exit(1)\n");
    push_str(out, "\t}\n");
    push_str(out, "\tfmt.Printf(\"Passed %d/%d tests\\n\", len(tests), len(tests))\n");
    push_str(out, "}\n");
    assert(final(out)@ =~= old(out)@ + runner_tail());
}

/// The runner for the tests of the given names, each written as the given
/// Go string.
pub fn runner_source_with(test_names: &Vec<String>, quoted: &Vec<String>) -> (r: String)
    requires
        quoted.len() == test_names.len(),
    ensures
        r@ == runner_source(names_model(test_names@), names_model(quoted@)),
{
    let ghost names = names_model(test_names@);
    let ghost qs = names_model(quoted@);
    let mut out: Vec<char> = Vec::new();
    push_runner_head(&mut out);
    let mut i: usize = 0;
    while i < test_names.len()
        invariant
            i <= test_names.len() == quoted.len(),
            names == names_model(test_names@),
            qs == names_model(quoted@),
            out@ == runner_head() + runner_cases(names.subrange(0, i as int), qs),
        decreases test_names.len() - i,
    {
        push_str(&mut out, "\t\t{name: ");
        push_string(&mut out, &quoted[i]);
        push_str(&mut out, ", run: ");
        let f = go_test_function_name(test_names[i].as_str());
        push_string(&mut out, &f);
        push_str(&mut out, "},\n");
        assert(names.subrange(0, i + 1).drop_last() =~= names.subrange(0, i as int));
        i = i + 1;
        assert(out@ =~= runner_head() + runner_cases(names.subrange(0, i as int), qs));
    }
    assert(names.subrange(0, test_names.len() as int) =~= names);
    push_runner_tail(&mut out);
    string_of(out.as_slice())
}

/// Each name as a JSON string literal.
pub open spec fn json_names(names: Seq<Seq<char>>) -> Seq<Seq<char>> {
    Seq::new(names.len(), |i: int| json_quoted(names[i]))
}

/// The runner for the tests of the given names; each name is written as its
/// JSON string.
pub fn generate_test_runner_source(test_names: &Vec<String>) -> (r: String)
    ensures
        r@ == runner_source(names_model(test_names@), json_names(names_model(test_names@))),
{
    let mut quoted: Vec<String> = Vec::new();
    let mut i: usize = 0;
    while i < test_names.len()
        invariant
            i <= test_names.len(),
            quoted.len() == i,
            forall|k: int| 0 <= k < i ==> #[trigger] quoted@[k]@ == json_quoted(test_names@[k]@),
        decreases test_names.len() - i,
    {
        let q = match json_string(&test_names[i]) {
            Ok(t) => t,
            Err(_) => "\"<invalid>\"".to_string(),
        };
        quoted.push(q);
        i = i + 1;
    }
    let r = runner_source_with(test_names, &quoted);
    assert(names_model(quoted@) =~= json_names(names_model(test_names@)));
    r
}

// ----------------------------------------------------------------------
// Commits reported by `git ls-remote`

/// The first line of a text, without its line break (`str::lines`).
pub open spec fn first_line(s: Seq<char>) -> Option<Seq<char>> {
    if s.len() == 0 {
        None
    } else {
        let l = match first_index(s, '\n') {
            Some(i) => s.subrange(0, i),
            None => s,
        };
        Some(if l.len() > 0 && l.last() == '\r' {
            l.drop_last()
        } else {
            l
        })
    }
}

/// The position of the first `c` in `s`.
pub open spec fn first_index(s: Seq<char>, c: char) -> Option<int>
    decreases s.len(),
{
    if s.len() == 0 {
        None
    } else {
        match first_index(s.drop_last(), c) {
            Some(i) => Some(i),
            None => if s.last() == c {
                Some(s.len() - 1)
            } else {
                None
            },
        }
    }
}

/// The first word of a text (`split_whitespace().next()`).
pub open spec fn first_word(s: Seq<char>) -> Option<Seq<char>> {
    let t = trim_start_spec(s);
    if t.len() == 0 {
        None
    } else {
        Some(
            match first_space(t) {
                Some(i) => t.subrange(0, i),
                None => t,
            },
        )
    }
}

pub open spec fn first_space(s: Seq<char>) -> Option<int>
    decreases s.len(),
{
    if s.len() == 0 {
        None
    } else {
        match first_space(s.drop_last()) {
            Some(i) => Some(i),
            None => if is_whitespace_spec(s.last()) {
                Some(s.len() - 1)
            } else {
                None
            },
        }
    }
}

pub open spec fn ascii_lower(c: char) -> char {
    if 'A' <= c <= 'Z' {
        ((c as u32) + 32) as char
    } else {
        c
    }
}

/// The commit that `git ls-remote` printed first: the first word of its
/// first line, in lower case, when it is a commit hash.
pub open spec fn ls_remote_commit(text: Seq<char>) -> Option<Seq<char>> {
    match first_line(text) {
        Some(line) => match first_word(line) {
            Some(w) => if is_hex_commit_text(w) {
                Some(Seq::new(w.len(), |i: int| ascii_lower(w[i])))
            } else {
                None
            },
            None => None,
        },
        None => None,
    }
}

/// What a ref stands for when `git ls-remote` resolved none of its forms:
/// the ref itself in lower case when it is a commit hash, else the error to
/// report.
pub open spec fn unresolved_ref_result(git_url: Seq<char>, git_ref: Seq<char>) -> Result<
    Seq<char>,
    Seq<char>,
> {
    if is_hex_commit_text(git_ref) {
        Ok(Seq::new(git_ref.len(), |i: int| ascii_lower(git_ref[i])))
    } else {
        Err("Unable to resolve ref `"@ + git_ref + "` for repository `"@ + git_url + "`"@)
    }
}

pub fn unresolved_ref(git_url: &str, git_ref: &str) -> (r: Result<String, String>)
    ensures
        match (r, unresolved_ref_result(git_url@, git_ref@)) {
            (Ok(c), Ok(t)) => c@ == t,
            (Err(e), Err(m)) => e@ == m,
            _ => false,
        },
{
    if is_hex_commit(git_ref) {
        let low = str_to_lowercase(git_ref);
        proof {
            assert(crate::text::all_ascii(git_ref@)) by {
                assert forall|i: int| 0 <= i < git_ref@.len() implies (#[trigger] git_ref@[i] as u32) < 128 by {
                    assert(crate::text::is_hex_digit_spec(git_ref@[i]));
                }
            }
            assert(low@ =~= Seq::new(git_ref@.len(), |i: int| ascii_lower(git_ref@[i])));
        }
        return Ok(low);
    }
    let mut m: Vec<char> = Vec::new();
    push_str(&mut m, "Unable to resolve ref `");
    push_str(&mut m, git_ref);
    push_str(&mut m, "` for repository `");
    push_str(&mut m, git_url);
    push_str(&mut m, "`");
    Err(string_of(m.as_slice()))
}

/// What `String::from_utf8_lossy` makes of bytes.
pub uninterp spec fn lossy_text(bytes: Seq<u8>) -> Seq<char>;

/// `String::from_utf8_lossy`: the characters the bytes encode, with each
/// invalid sequence replaced; for valid UTF-8 exactly its decoding.
#[verifier::external_body]
fn utf8_lossy(bytes: &[u8]) -> (r: String)
    ensures
        r@ == lossy_text(bytes@),
        vstd::utf8::valid_utf8(bytes@) ==> r@ == vstd::utf8::decode_utf8(bytes@),
{
    String::from_utf8_lossy(bytes).into_owned()
}

fn first_index_exec(s: &Vec<char>, c: char) -> (r: Option<usize>)
    ensures
        match r {
            Some(i) => first_index(s@, c) == Some(i as int) && i < s.len(),
            None => first_index(s@, c) is None,
        },
{
    let mut i: usize = 0;
    while i < s.len()
        invariant
            i <= s.len(),
            first_index(s@.subrange(0, i as int), c) is None,
        decreases s.len() - i,
    {
        assert(s@.subrange(0, i + 1).drop_last() =~= s@.subrange(0, i as int));
        if s[i] == c {
            proof {
                lemma_first_index_prefix(s@, c, i as int + 1);
            }
            return Some(i);
        }
        i = i + 1;
    }
    assert(s@.subrange(0, s.len() as int) =~= s@);
    None
}

/// The first position found in a prefix stays the first one.
proof fn lemma_first_index_prefix(s: Seq<char>, c: char, k: int)
    requires
        0 <= k <= s.len(),
        first_index(s.subrange(0, k), c) is Some,
    ensures
        first_index(s, c) == first_index(s.subrange(0, k), c),
    decreases s.len() - k,
{
    if k < s.len() {
        assert(s.subrange(0, k + 1).drop_last() =~= s.subrange(0, k));
        lemma_first_index_prefix(s, c, k + 1);
    } else {
        assert(s.subrange(0, k) =~= s);
    }
}

/// The first position of whitespace found in a prefix stays the first one.
proof fn lemma_first_space_prefix(s: Seq<char>, k: int)
    requires
        0 <= k <= s.len(),
        first_space(s.subrange(0, k)) is Some,
    ensures
        first_space(s) == first_space(s.subrange(0, k)),
    decreases s.len() - k,
{
    if k < s.len() {
        assert(s.subrange(0, k + 1).drop_last() =~= s.subrange(0, k));
        lemma_first_space_prefix(s, k + 1);
    } else {
        assert(s.subrange(0, k) =~= s);
    }
}

/// The commit in the text `git ls-remote` printed.
#[verifier::spinoff_prover]
#[verifier::rlimit(30)]
pub fn parse_ls_remote_text(text: &str) -> (r: Option<String>)
    ensures
        match r {
            Some(c) => ls_remote_commit(text@) == Some(c@),
            None => ls_remote_commit(text@) is None,
        },
{
    let cs = chars_of(text);
    if cs.len() == 0 {
        return None;
    }
    let end = match first_index_exec(&cs, '\n') {
        Some(i) => i,
        None => cs.len(),
    };
    let mut line_end = end;
    if line_end > 0 && cs[line_end - 1] == '\r' {
        line_end = line_end - 1;
    }
    let ghost line = first_line(cs@).unwrap();
    assert(line =~= cs@.subrange(0, line_end as int));
    let mut start: usize = 0;
    while start < line_end && is_whitespace(cs[start])
        invariant
            start <= line_end <= cs.len(),
            trim_start_spec(cs@.subrange(start as int, line_end as int)) == trim_start_spec(line),
        decreases line_end - start,
    {
        assert(cs@.subrange(start as int, line_end as int).drop_first() =~= cs@.subrange(
            start + 1,
            line_end as int,
        ));
        start = start + 1;
    }
    let ghost t = cs@.subrange(start as int, line_end as int);
    assert(trim_start_spec(t) == t);
    if start == line_end {
        return None;
    }
    let mut stop = start;
    while stop < line_end && !is_whitespace(cs[stop])
        invariant
            start <= stop <= line_end <= cs.len(),
            first_space(cs@.subrange(start as int, stop as int)) is None,
        decreases line_end - stop,
    {
        assert(cs@.subrange(start as int, stop + 1).drop_last() =~= cs@.subrange(start as int, stop as int));
        stop = stop + 1;
    }
    proof {
        if stop < line_end {
            assert(t.subrange(0, stop - start + 1).drop_last() =~= t.subrange(0, stop - start));
            assert(t.subrange(0, stop - start) =~= cs@.subrange(start as int, stop as int));
            lemma_first_space_prefix(t, stop - start + 1);
        } else {
            assert(t =~= cs@.subrange(start as int, stop as int));
        }
    }
    let ghost w = cs@.subrange(start as int, stop as int);
    assert(first_word(line) == Some(w));
    let mut word: Vec<char> = Vec::new();
    let mut k: usize = start;
    while k < stop
        invariant
            start <= k <= stop <= cs.len(),
            word@ == cs@.subrange(start as int, k as int),
        decreases stop - k,
    {
        word.push(cs[k]);
        k = k + 1;
        assert(word@ =~= cs@.subrange(start as int, k as int));
    }
    let ws = string_of(word.as_slice());
    if !is_hex_commit(ws.as_str()) {
        return None;
    }
    let mut low: Vec<char> = Vec::new();
    let mut j: usize = 0;
    while j < word.len()
        invariant
            j <= word.len(),
            low@ == Seq::new(j as nat, |i: int| ascii_lower(word@[i])),
        decreases word.len() - j,
    {
        let c = word[j];
        let lc = if 'A' <= c && c <= 'Z' {
            ((c as u8) + 32) as char
        } else {
            c
        };
        low.push(lc);
        j = j + 1;
        assert(low@ =~= Seq::new(j as nat, |i: int| ascii_lower(word@[i])));
    }
    Some(string_of(low.as_slice()))
}

/// The commit in the output of `git ls-remote`: the first word of the
/// first line, in lower case, when it is a commit hash.
pub fn parse_ls_remote_commit(stdout: &[u8]) -> (r: Option<String>)
    ensures
        match r {
            Some(c) => ls_remote_commit(lossy_text(stdout@)) == Some(c@),
            None => ls_remote_commit(lossy_text(stdout@)) is None,
        },
{
    let text = utf8_lossy(stdout);
    parse_ls_remote_text(text.as_str())
}

/// The version a lock file has when it names none.
pub fn default_lock_version() -> (r: u32)
    ensures
        r == 1,
{
    1
}


// ----------------------------------------------------------------------
// The tests of a program

/// The names of the top-level `set_sae` tests among `ss`, in order.
pub open spec fn test_names_of(ss: Seq<Statement>) -> Seq<Seq<char>>
    decreases ss.len(),
{
    if ss.len() == 0 {
        Seq::empty()
    } else {
        let rest = test_names_of(ss.drop_last());
        match ss.last() {
            Statement::TestDecl { name, .. } => rest.push(name@),
            _ => rest,
        }
    }
}

/// Whether a top-level statement declares the function `main`.
pub open spec fn is_main_decl(s: Statement) -> bool {
    s matches Statement::FunctionDecl { name, .. } && name@ == "main"@
}

/// The statements of `ss` without the declarations of `main`, in order.
pub open spec fn without_main(ss: Seq<Statement>) -> Seq<Statement>
    decreases ss.len(),
{
    if ss.len() == 0 {
        Seq::empty()
    } else {
        let rest = without_main(ss.drop_last());
        if is_main_decl(ss.last()) {
            rest
        } else {
            rest.push(ss.last())
        }
    }
}

/// The names of the top-level tests of a program, in order.
pub fn test_names(program: &Program) -> (r: Vec<String>)
    ensures
        names_model(r@) == test_names_of(program.statements@),
{
    let ss = &program.statements;
    let mut out: Vec<String> = Vec::new();
    let mut i: usize = 0;
    while i < ss.len()
        invariant
            i <= ss.len(),
            names_model(out@) == test_names_of(ss@.subrange(0, i as int)),
        decreases ss.len() - i,
    {
        assert(ss@.subrange(0, i + 1).drop_last() =~= ss@.subrange(0, i as int));
        assert(ss@.subrange(0, i + 1).last() == ss@[i as int]);
        match &ss[i] {
            Statement::TestDecl { name, .. } => {
                let ghost before = out@;
                out.push(name.clone());
                assert(names_model(out@) =~= names_model(before).push(name@));
            },
            _ => {},
        }
        i = i + 1;
    }
    assert(ss@.subrange(0, ss.len() as int) =~= ss@);
    out
}

/// The program that the test runner builds: the given one without its
/// `main` functions.
pub fn program_without_main(program: Program) -> (r: Program)
    ensures
        r.statements@ == without_main(program.statements@),
{
    let ghost all = program.statements@;
    let mut rest = program.statements;
    let mut kept: Vec<Statement> = Vec::new();
    let mut i: usize = 0;
    let n = rest.len();
    while i < n
        invariant
            i <= n == all.len(),
            rest@ == all.subrange(i as int, n as int),
            kept@ == without_main(all.subrange(0, i as int)),
        decreases n - i,
    {
        assert(all.subrange(0, i + 1).drop_last() =~= all.subrange(0, i as int));
        let s = rest.remove(0);
        assert(s == all[i as int]);
        assert(rest@ =~= all.subrange(i + 1, n as int));
        let keep = match &s {
            Statement::FunctionDecl { name, .. } => !str_eq(name.as_str(), "main"),
            _ => true,
        };
        if keep {
            kept.push(s);
        }
        i = i + 1;
    }
    assert(all.subrange(0, n as int) =~= all);
    Program { statements: kept }
}

/// Leaving out the `main` functions keeps every test of a program, in order:
/// the test runner runs exactly the tests that the program declares.
pub proof fn law_tests_survive_without_main(ss: Seq<Statement>)
    ensures
        test_names_of(without_main(ss)) == test_names_of(ss),
    decreases ss.len(),
{
    if ss.len() > 0 {
        law_tests_survive_without_main(ss.drop_last());
        let rest = without_main(ss.drop_last());
        if !is_main_decl(ss.last()) {
            assert(rest.push(ss.last()).drop_last() =~= rest);
        }
    }
}

/// No statement that is left after leaving out the `main` functions declares
/// `main`.
pub proof fn law_no_main_left(ss: Seq<Statement>)
    ensures
        forall|i: int| 0 <= i < without_main(ss).len() ==> !is_main_decl(#[trigger] without_main(ss)[i]),
    decreases ss.len(),
{
    if ss.len() > 0 {
        law_no_main_left(ss.drop_last());
        let rest = without_main(ss.drop_last());
        assert forall|i: int| 0 <= i < without_main(ss).len() implies !is_main_decl(
            #[trigger] without_main(ss)[i],
        ) by {
            if i < rest.len() {
                assert(without_main(ss)[i] == rest[i]);
            }
        }
    }
}

/// Whatever arguments `mlang build` accepts, the target is `c`, `go` or
/// `llvm`, and a Go OS or architecture comes only with the Go target.
pub proof fn law_build_target_is_known(args: Seq<Seq<char>>)
    ensures
        build_args_result(args) matches Ok(m) ==> (m.target == "c"@ || m.target == "go"@ || m.target
            == "llvm"@) && (m.target != "go"@ ==> m.goos is None && m.goarch is None),
{
}

/// A Go build that names neither an OS nor an architecture is never a cross
/// build, on any host.
pub proof fn law_default_go_target_is_host(host_goos: Seq<char>, host_goarch: Seq<char>)
    ensures
        !is_cross((GoTargetOptions { goos: None, goarch: None }), host_goos, host_goarch),
{
}

// ----------------------------------------------------------------------
// Decisions of the commands

/// What `mlang fmt` does with a file once it is formatted.
#[derive(Debug, Clone, Copy, PartialEq, Eq, Structural)]
pub enum FormatOutcome {
    /// The file is formatted already.
    AlreadyFormatted,
    /// `--check` found a file that is not formatted: a failure.
    NeedsFormatting,
    /// The file is rewritten with its formatting.
    Rewrite,
}

/// What `mlang fmt` does: nothing when the text is formatted already, else
/// report it under `--check`, or rewrite the file.
pub open spec fn format_outcome_of(source: Seq<char>, formatted: Seq<char>, check_mode: bool) -> FormatOutcome {
    if source == formatted {
        FormatOutcome::AlreadyFormatted
    } else if check_mode {
        FormatOutcome::NeedsFormatting
    } else {
        FormatOutcome::Rewrite
    }
}

/// What `mlang fmt` does with a file whose formatting is known.
pub fn format_outcome(source: &str, formatted: &str, check_mode: bool) -> (r: FormatOutcome)
    ensures
        r == format_outcome_of(source@, formatted@, check_mode),
{
    if str_eq(source, formatted) {
        FormatOutcome::AlreadyFormatted
    } else if check_mode {
        FormatOutcome::NeedsFormatting
    } else {
        FormatOutcome::Rewrite
    }
}

/// Why `mlang run` refuses a build: a Go build for another platform than
/// the host cannot run here.
pub open spec fn run_refusal_text(target: Seq<char>, opts: GoTargetOptions, host_goos: Seq<char>, host_goarch: Seq<
    char,
>) -> Option<Seq<char>> {
    if target == "go"@ && is_cross(opts, host_goos, host_goarch) {
        Some(
            "`mlang run` does not support cross targets (requested "@ + or_text(opts.goos, host_goos) + " / "@
                + or_text(opts.goarch, host_goarch)
                + "). Use `mlang build --goos ... --goarch ...` instead."@,
        )
    } else {
        None
    }
}

/// Why `mlang run` refuses a build, if it does.
pub fn run_refusal(target: &str, opts: &GoTargetOptions, host_goos: &str, host_goarch: &str) -> (r: Option<String>)
    ensures
        match r {
            Some(m) => run_refusal_text(target@, *opts, host_goos@, host_goarch@) == Some(m@),
            None => run_refusal_text(target@, *opts, host_goos@, host_goarch@) is None,
        },
{
    if str_eq(target, "go") && is_cross_target(opts, host_goos, host_goarch) {
        let (goos, goarch) = resolved_go_target(opts, host_goos, host_goarch);
        let mut out: Vec<char> = Vec::new();
        push_str(&mut out, "`mlang run` does not support cross targets (requested ");
        push_string(&mut out, &goos);
        push_str(&mut out, " / ");
        push_string(&mut out, &goarch);
        push_str(&mut out, "). Use `mlang build --goos ... --goarch ...` instead.");
        Some(string_of(out.as_slice()))
    } else {
        None
    }
}

} // verus!
