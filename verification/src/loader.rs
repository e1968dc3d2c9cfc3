//! The decisions of loading a program's modules: which files are read,
//! import cycles, duplicate packages, the order in which modules are
//! finished, and the final linking. Finding and reading files is left to
//! the caller, which reports each step here.
use vstd::prelude::*;

use crate::ast::{Program, Statement};
use crate::lexer::Lexer;
use crate::module_loader::{
    any_local_module, collect_all, collect_symbols, distinct_names, errs_model, link_modules, linked_errs,
    linked_rel, meta_map, module_package, package_spec, ErrModel, LoadedProgram, ModuleInfo,
    ModuleLoadError, SymbolMeta,
};
use crate::parser::{error_text, Parser};
use crate::stdlib::{resolve_stdlib_module, stdlib_module};
use crate::text::{push_str, push_string, str_eq, string_of, trim_quotes, trim_quotes_exec};

verus! {

/// Where loading stands: the files seen (finished or still being visited),
/// the finished modules in the order they were finished, the file of each
/// package, and the errors so far.
pub struct LoadState {
    pub visits: Vec<(String, bool)>,
    pub modules: Vec<ModuleInfo>,
    pub packages: Vec<(String, String)>,
    pub errors: Vec<ModuleLoadError>,
}

/// The files that the resolved imports lead to, in order.
pub open spec fn resolved_files(rs: Seq<Result<String, String>>) -> Seq<Seq<char>>
    decreases rs.len(),
{
    if rs.len() == 0 {
        Seq::empty()
    } else {
        match rs.last() {
            Ok(p) => resolved_files(rs.drop_last()).push(p@),
            Err(_) => resolved_files(rs.drop_last()),
        }
    }
}

/// An error of the module at `path` for each import that led nowhere, in
/// order.
pub open spec fn resolve_errors(rs: Seq<Result<String, String>>, path: Seq<char>) -> Seq<ErrModel>
    decreases rs.len(),
{
    if rs.len() == 0 {
        Seq::empty()
    } else {
        match rs.last() {
            Ok(_) => resolve_errors(rs.drop_last(), path),
            Err(m) => resolve_errors(rs.drop_last(), path).push((m@, Some(path))),
        }
    }
}

/// What to do with a file that is to be visited.
#[derive(Debug, Clone, Copy, PartialEq, Eq, Structural)]
pub enum VisitStep {
    /// It was finished before: nothing to do.
    Skip,
    /// It is being visited: an import cycle, which is reported.
    Cycle,
    /// It is new: read it.
    Read,
}

/// A module read from its file and accepted: its package, program and
/// top-level names, whether it declares a package or exports, and the names
/// of the non-library modules it imports.
pub struct ParsedModule {
    pub package: String,
    pub program: Program,
    pub symbols: Vec<(String, SymbolMeta)>,
    pub has_package_decl: bool,
    pub has_export_decl: bool,
    pub imports: Vec<String>,
}

/// The files seen, each finished (`true`) or being visited (`false`); a
/// later entry for a file stands for it.
pub open spec fn visit_map(v: Seq<(String, bool)>) -> Map<Seq<char>, bool>
    decreases v.len(),
{
    if v.len() == 0 {
        Map::empty()
    } else {
        visit_map(v.drop_last()).insert(v.last().0@, v.last().1)
    }
}

/// The file of each package.
pub open spec fn package_map(v: Seq<(String, String)>) -> Map<Seq<char>, Seq<char>>
    decreases v.len(),
{
    if v.len() == 0 {
        Map::empty()
    } else {
        package_map(v.drop_last()).insert(v.last().0@, v.last().1@)
    }
}

pub open spec fn names_of(v: Seq<String>) -> Seq<Seq<char>> {
    Seq::new(v.len(), |i: int| v[i]@)
}

/// The names of the modules that top-level statements import, other than
/// the standard library's, in order.
pub open spec fn local_import_names(ss: Seq<Statement>) -> Seq<Seq<char>>
    decreases ss.len(),
{
    if ss.len() == 0 {
        Seq::empty()
    } else {
        let rest = local_import_names(ss.drop_last());
        match ss.last() {
            Statement::Import { module, .. } => if stdlib_module(module@) is None {
                rest.push(module@)
            } else {
                rest
            },
            _ => rest,
        }
    }
}

/// The error of each syntax error of a module: `Syntax error: ` and the
/// error's text, at the module's file.
pub open spec fn syntax_errors(es: Seq<crate::grammar::ErrM>, path: Seq<char>) -> Seq<ErrModel> {
    Seq::new(
        es.len(),
        |i: int| ("Syntax error: "@ + error_text(es[i].line, es[i].col, es[i].message), Some(path)),
    )
}

/// Parses the source of a module: its program, or one error per syntax
/// error, at the module's file.
pub fn parse_module_source(source: &str, path: &String) -> (r: Result<Program, Vec<ModuleLoadError>>)
    ensures
        match r {
            Ok(p) => crate::grammar::parse_errors(source@).len() == 0 && crate::ast::stmts_model(
                p.statements@,
            ) == crate::grammar::parsed_statements(source@),
            Err(es) => crate::grammar::parse_errors(source@).len() > 0 && errs_model(es@)
                == syntax_errors(crate::grammar::parse_errors(source@), path@),
        },
{
    let mut parser = Parser::new(Lexer::new(source));
    let program = parser.parse_program();
    let perrs = parser.errors();
    let ghost pe = crate::parser::errs_model(perrs@);
    assert(pe == crate::grammar::parse_errors(source@));
    if perrs.len() > 0 {
        let mut out: Vec<ModuleLoadError> = Vec::new();
        let mut i: usize = 0;
        while i < perrs.len()
            invariant
                i <= perrs.len(),
                out@.len() == i,
                pe == crate::parser::errs_model(perrs@),
                errs_model(out@) == syntax_errors(pe.subrange(0, i as int), path@),
            decreases perrs.len() - i,
        {
            let mut m: Vec<char> = Vec::new();
            push_str(&mut m, "Syntax error: ");
            let t = perrs[i].to_text();
            push_string(&mut m, &t);
            let ghost before = out@;
            let e = ModuleLoadError { message: string_of(m.as_slice()), path: Some(path.clone()) };
            assert(e.model() == syntax_errors(pe.subrange(0, i + 1), path@)[i as int]);
            out.push(e);
            assert forall|k: int| 0 <= k < i + 1 implies #[trigger] errs_model(out@)[k] == syntax_errors(
                pe.subrange(0, i + 1),
                path@,
            )[k] by {
                if k < i {
                    assert(errs_model(before)[k] == syntax_errors(pe.subrange(0, i as int), path@)[k]);
                    assert(out@[k] == before[k]);
                    assert(pe.subrange(0, i as int)[k] == pe.subrange(0, i + 1)[k]);
                }
            }
            i = i + 1;
            assert(errs_model(out@) =~= syntax_errors(pe.subrange(0, i as int), path@));
        }
        assert(pe.subrange(0, perrs.len() as int) =~= pe);
        return Err(out);
    }
    match program {
        Some(p) => Ok(p),
        None => {
            let mut out: Vec<ModuleLoadError> = Vec::new();
            out.push(ModuleLoadError { message: "Failed to parse module".to_owned(), path: Some(path.clone()) });
            Err(out)
        },
    }
}

fn import_names(program: &Program) -> (r: Vec<String>)
    ensures
        names_of(r@) == local_import_names(program.statements@),
{
    let ss = &program.statements;
    let mut out: Vec<String> = Vec::new();
    let mut i: usize = 0;
    while i < ss.len()
        invariant
            i <= ss.len(),
            names_of(out@) == local_import_names(ss@.subrange(0, i as int)),
        decreases ss.len() - i,
    {
        assert(ss@.subrange(0, i + 1).drop_last() =~= ss@.subrange(0, i as int));
        assert(ss@.subrange(0, i + 1).last() == ss@[i as int]);
        match &ss[i] {
            Statement::Import { module, .. } => {
                if resolve_stdlib_module(module.as_str()).is_none() {
                    let ghost before = out@;
                    out.push(module.clone());
                    assert(names_of(out@) =~= names_of(before).push(module@));
                }
            },
            _ => {},
        }
        i = i + 1;
    }
    assert(ss@.subrange(0, ss.len() as int) =~= ss@);
    out
}

/// The state of a file in the files seen: the latest entry for it.
pub open spec fn lookup_visit(v: Seq<(String, bool)>, p: Seq<char>) -> Option<bool>
    decreases v.len(),
{
    if v.len() == 0 {
        None
    } else if v.last().0@ == p {
        Some(v.last().1)
    } else {
        lookup_visit(v.drop_last(), p)
    }
}

/// The file of a package: the latest entry for it.
pub open spec fn lookup_package(v: Seq<(String, String)>, p: Seq<char>) -> Option<Seq<char>>
    decreases v.len(),
{
    if v.len() == 0 {
        None
    } else if v.last().0@ == p {
        Some(v.last().1@)
    } else {
        lookup_package(v.drop_last(), p)
    }
}

proof fn lemma_lookup_visit(v: Seq<(String, bool)>, p: Seq<char>)
    ensures
        match lookup_visit(v, p) {
            Some(d) => visit_map(v).contains_key(p) && visit_map(v)[p] == d,
            None => !visit_map(v).contains_key(p),
        },
    decreases v.len(),
{
    if v.len() > 0 {
        lemma_lookup_visit(v.drop_last(), p);
    }
}

proof fn lemma_lookup_package(v: Seq<(String, String)>, p: Seq<char>)
    ensures
        match lookup_package(v, p) {
            Some(d) => package_map(v).contains_key(p) && package_map(v)[p] == d,
            None => !package_map(v).contains_key(p),
        },
    decreases v.len(),
{
    if v.len() > 0 {
        lemma_lookup_package(v.drop_last(), p);
    }
}

impl LoadState {
    /// Nothing seen yet.
    pub fn new() -> (s: LoadState)
        ensures
            s.visits@.len() == 0,
            s.modules@.len() == 0,
            s.packages@.len() == 0,
            s.errors@.len() == 0,
    {
        LoadState { visits: Vec::new(), modules: Vec::new(), packages: Vec::new(), errors: Vec::new() }
    }

    /// Records an error at a file.
    pub fn push_error(&mut self, message: String, path: &String)
        ensures
            errs_model(final(self).errors@) == errs_model(old(self).errors@).push((message@, Some(path@))),
            final(self).visits@ == old(self).visits@,
            final(self).modules@ == old(self).modules@,
            final(self).packages@ == old(self).packages@,
    {
        let ghost before = self.errors@;
        self.errors.push(ModuleLoadError { message, path: Some(path.clone()) });
        assert(errs_model(self.errors@) =~= errs_model(before).push((message@, Some(path@))));
    }

    /// Takes the outcome of resolving each import of the module at `path`, in
    /// import order: the files to visit next, depth first in that order, and
    /// an error of the module for each import that led nowhere.
    pub fn take_resolved_imports(&mut self, path: &String, resolved: Vec<Result<String, String>>) -> (r: Vec<
        String,
    >)
        ensures
            final(self).visits@ == old(self).visits@,
            final(self).modules@ == old(self).modules@,
            final(self).packages@ == old(self).packages@,
            r@.map_values(|p: String| p@) == resolved_files(resolved@),
            errs_model(final(self).errors@) == errs_model(old(self).errors@) + resolve_errors(resolved@, path@),
    {
        let mut out: Vec<String> = Vec::new();
        let mut i: usize = 0;
        let ghost e0 = errs_model(self.errors@);
        while i < resolved.len()
            invariant
                i <= resolved.len(),
                self.visits@ == old(self).visits@,
                self.modules@ == old(self).modules@,
                self.packages@ == old(self).packages@,
                e0 == errs_model(old(self).errors@),
                out@.map_values(|p: String| p@) == resolved_files(resolved@.subrange(0, i as int)),
                errs_model(self.errors@) == e0 + resolve_errors(resolved@.subrange(0, i as int), path@),
            decreases resolved.len() - i,
        {
            assert(resolved@.subrange(0, i + 1).drop_last() =~= resolved@.subrange(0, i as int));
            match &resolved[i] {
                Ok(p) => {
                    out.push(p.clone());
                    assert(out@.map_values(|p: String| p@) =~= resolved_files(resolved@.subrange(0, i as int)).push(
                        p@,
                    ));
                },
                Err(m) => {
                    self.push_error(m.clone(), path);
                    assert(e0 + resolve_errors(resolved@.subrange(0, i as int), path@).push((m@, Some(path@)))
                        =~= e0 + resolve_errors(resolved@.subrange(0, i + 1), path@));
                },
            }
            i = i + 1;
        }
        assert(resolved@.subrange(0, resolved.len() as int) =~= resolved@);
        out
    }

    /// Records errors found elsewhere, in order.
    pub fn push_errors(&mut self, es: Vec<ModuleLoadError>)
        ensures
            errs_model(final(self).errors@) == errs_model(old(self).errors@) + errs_model(es@),
            final(self).visits@ == old(self).visits@,
            final(self).modules@ == old(self).modules@,
            final(self).packages@ == old(self).packages@,
    {
        let mut es = es;
        let ghost before = self.errors@;
        let ghost added = es@;
        self.errors.append(&mut es);
        assert(errs_model(self.errors@) =~= errs_model(before) + errs_model(added));
    }

    fn visit_of(&self, path: &String) -> (r: Option<bool>)
        ensures
            r == lookup_visit(self.visits@, path@),
    {
        let v = &self.visits;
        let mut i: usize = v.len();
        assert(v@.subrange(0, i as int) =~= v@);
        while i > 0
            invariant
                i <= v.len(),
                v@ == self.visits@,
                lookup_visit(v@, path@) == lookup_visit(v@.subrange(0, i as int), path@),
            decreases i,
        {
            assert(v@.subrange(0, i as int).drop_last() =~= v@.subrange(0, i - 1));
            if str_eq(v[i - 1].0.as_str(), path.as_str()) {
                return Some(v[i - 1].1);
            }
            i = i - 1;
        }
        None
    }

    fn set_visit(&mut self, path: &String, done: bool)
        ensures
            visit_map(final(self).visits@) == visit_map(old(self).visits@).insert(path@, done),
            final(self).errors@ == old(self).errors@,
            final(self).modules@ == old(self).modules@,
            final(self).packages@ == old(self).packages@,
    {
        let ghost before = self.visits@;
        self.visits.push((path.clone(), done));
        assert(self.visits@.drop_last() =~= before);
    }

    /// What to do with a file that an import (or the entry) leads to: skip
    /// it when it was finished, report a cycle when it is being visited, or
    /// mark it as being visited and read it.
    pub fn begin_visit(&mut self, path: &String) -> (r: VisitStep)
        ensures
            final(self).modules@ == old(self).modules@,
            final(self).packages@ == old(self).packages@,
            if visit_map(old(self).visits@).contains_key(path@) {
                if visit_map(old(self).visits@)[path@] {
                    &&& r == VisitStep::Skip
                    &&& final(self).visits@ == old(self).visits@
                    &&& final(self).errors@ == old(self).errors@
                } else {
                    &&& r == VisitStep::Cycle
                    &&& final(self).visits@ == old(self).visits@
                    &&& errs_model(final(self).errors@) == errs_model(old(self).errors@).push(
                        ("Import cycle detected"@, Some(path@)),
                    )
                }
            } else {
                &&& r == VisitStep::Read
                &&& visit_map(final(self).visits@) == visit_map(old(self).visits@).insert(path@, false)
                &&& final(self).errors@ == old(self).errors@
            },
    {
        proof {
            lemma_lookup_visit(self.visits@, path@);
        }
        match self.visit_of(path) {
            Some(true) => VisitStep::Skip,
            Some(false) => {
                self.push_error("Import cycle detected".to_owned(), path);
                VisitStep::Cycle
            },
            None => {
                self.set_visit(path, false);
                VisitStep::Read
            },
        }
    }

    fn package_of(&self, package: &String) -> (r: Option<String>)
        ensures
            match r {
                Some(p) => lookup_package(self.packages@, package@) == Some(p@),
                None => lookup_package(self.packages@, package@) is None,
            },
    {
        let v = &self.packages;
        let mut i: usize = v.len();
        assert(v@.subrange(0, i as int) =~= v@);
        while i > 0
            invariant
                i <= v.len(),
                v@ == self.packages@,
                lookup_package(v@, package@) == lookup_package(v@.subrange(0, i as int), package@),
            decreases i,
        {
            assert(v@.subrange(0, i as int).drop_last() =~= v@.subrange(0, i - 1));
            if str_eq(v[i - 1].0.as_str(), package.as_str()) {
                return Some(v[i - 1].1.clone());
            }
            i = i - 1;
        }
        None
    }

    /// Accepts the program of a module read from `path`: its package (an
    /// error when it has none or a second one, or when another file has the
    /// same package), its top-level names and the modules it imports.
    pub fn register_module(&mut self, path: &String, program: Program, is_entry: bool) -> (r: Option<
        ParsedModule,
    >)
        ensures
            final(self).visits@ == old(self).visits@,
            final(self).modules@ == old(self).modules@,
            match package_spec(program.statements@, path@, is_entry) {
                Err(e) => {
                    &&& r is None
                    &&& errs_model(final(self).errors@) == errs_model(old(self).errors@).push(e)
                    &&& final(self).packages@ == old(self).packages@
                },
                Ok((pkg, declared, exports)) => if package_map(old(self).packages@).contains_key(pkg)
                    && package_map(old(self).packages@)[pkg] != path@ {
                    &&& r is None
                    &&& errs_model(final(self).errors@) == errs_model(old(self).errors@).push(
                        ("Duplicate package `"@ + pkg + "`"@, Some(path@)),
                    )
                    &&& final(self).packages@ == old(self).packages@
                } else {
                    &&& r matches Some(pm) && pm.package@ == pkg && pm.has_package_decl == declared
                        && pm.has_export_decl == exports && pm.program == program && distinct_names(pm.symbols@)
                        && meta_map(pm.symbols@) == collect_all(program.statements@, path@).0 && names_of(
                        pm.imports@,
                    ) == local_import_names(program.statements@)
                    &&& errs_model(final(self).errors@) == errs_model(old(self).errors@) + collect_all(
                        program.statements@,
                        path@,
                    ).1
                    &&& package_map(final(self).packages@) == package_map(old(self).packages@).insert(pkg, path@)
                },
            },
    {
        let (package, declared, exports) = match module_package(&program, path, is_entry) {
            Ok(v) => v,
            Err(e) => {
                let ghost before = self.errors@;
                self.errors.push(e);
                assert(errs_model(self.errors@) =~= errs_model(before).push(e.model()));
                return None;
            },
        };
        proof {
            lemma_lookup_package(self.packages@, package@);
        }
        match self.package_of(&package) {
            Some(existing) => {
                if !str_eq(existing.as_str(), path.as_str()) {
                    let mut m: Vec<char> = Vec::new();
                    push_str(&mut m, "Duplicate package `");
                    push_string(&mut m, &package);
                    push_str(&mut m, "`");
                    self.push_error(string_of(m.as_slice()), path);
                    return None;
                }
                assert(package_map(self.packages@) =~= package_map(self.packages@).insert(package@, path@));
            },
            None => {
                let ghost before = self.packages@;
                self.packages.push((package.clone(), path.clone()));
                assert(self.packages@.drop_last() =~= before);
            },
        }
        let symbols = collect_symbols(&program, path, &mut self.errors);
        let imports = import_names(&program);
        Some(
            ParsedModule {
                package,
                program,
                symbols,
                has_package_decl: declared,
                has_export_decl: exports,
                imports,
            },
        )
    }

    /// Finishes the visit of a module once the modules it imports were
    /// visited: when no error was found so far, the module is added after
    /// the modules finished before it and its file is marked finished;
    /// otherwise nothing changes.
    pub fn finish_visit(&mut self, path: String, pm: ParsedModule, local_imports: Vec<String>, is_entry: bool) -> (r:
        bool)
        ensures
            r == (old(self).errors@.len() == 0),
            final(self).errors@ == old(self).errors@,
            final(self).packages@ == old(self).packages@,
            r ==> final(self).modules@ == old(self).modules@.push(
                ModuleInfo {
                    path,
                    package: pm.package,
                    program: pm.program,
                    local_imports,
                    symbols: pm.symbols,
                    has_package_decl: pm.has_package_decl,
                    has_export_decl: pm.has_export_decl,
                    is_entry,
                },
            ) && visit_map(final(self).visits@) == visit_map(old(self).visits@).insert(path@, true),
            !r ==> final(self).modules@ == old(self).modules@ && final(self).visits@ == old(self).visits@,
    {
        if self.errors.len() > 0 {
            return false;
        }
        self.set_visit(&path, true);
        self.modules.push(
            ModuleInfo {
                path,
                package: pm.package,
                program: pm.program,
                local_imports,
                symbols: pm.symbols,
                has_package_decl: pm.has_package_decl,
                has_export_decl: pm.has_export_decl,
                is_entry,
            },
        );
        true
    }

    /// The result of loading: the errors found, if any, or else the finished
    /// modules linked into one program.
    pub fn into_result(self) -> (r: Result<LoadedProgram, Vec<ModuleLoadError>>)
        ensures
            self.errors@.len() > 0 ==> (r matches Err(es) && errs_model(es@) == errs_model(self.errors@)),
            self.errors@.len() == 0 ==> match r {
                Ok(lp) => linked_errs(self.modules@, self.modules@).len() == 0 && linked_rel(
                    self.modules@,
                    self.modules@,
                    lp.program.statements@,
                ) && lp.uses_local_modules == (self.modules@.len() > 1 || any_local_module(self.modules@)),
                Err(es) => linked_errs(self.modules@, self.modules@).len() > 0 && errs_model(es@) == linked_errs(
                    self.modules@,
                    self.modules@,
                ),
            },
    {
        if self.errors.len() > 0 {
            return Err(self.errors);
        }
        link_modules(&self.modules)
    }
}

// ----------------------------------------------------------------------
// Where an import leads

/// Where the name of an imported module leads.
pub enum ImportRoute {
    /// A file path, relative (`./`, `../`) or absolute, still to be found.
    File(String),
    /// The entry file of a dependency in the lock file.
    Locked(String),
    /// Nowhere: the error to report.
    Missing(String),
}

/// Whether a name is a path relative to the importing file or absolute
/// (a leading `/`, or a drive as on Windows).
pub open spec fn is_path_like(raw: Seq<char>) -> bool {
    ||| raw.len() >= 2 && raw[0] == '.' && raw[1] == '/'
    ||| raw.len() >= 3 && raw[0] == '.' && raw[1] == '.' && raw[2] == '/'
    ||| raw.len() >= 1 && raw[0] == '/'
    ||| crate::text::has_drive_prefix(raw)
}

/// The entry file of the dependency of the given import name in the lock
/// file's list; the latest entry for a name stands for it.
pub open spec fn locked_entry(locks: Seq<(String, String)>, name: Seq<char>) -> Option<Seq<char>>
    decreases locks.len(),
{
    if locks.len() == 0 {
        None
    } else if locks.last().0@ == name {
        Some(locks.last().1@)
    } else {
        locked_entry(locks.drop_last(), name)
    }
}

/// Where an import leads: the name without its quotes as a file when it is
/// a path, else its dependency's entry file, else an error that suggests
/// `mlang get`.
pub open spec fn import_route_of(name: Seq<char>, locks: Seq<(String, String)>) -> (u8, Seq<char>) {
    let raw = trim_quotes(name);
    if is_path_like(raw) {
        (0, raw)
    } else {
        match locked_entry(locks, raw) {
            Some(p) => (1, p),
            None => (
                2,
                "Cannot resolve import `"@ + name
                    + "`. Use relative import (`./...`) or add dependency via `mlang get`."@,
            ),
        }
    }
}

pub open spec fn route_model(r: ImportRoute) -> (u8, Seq<char>) {
    match r {
        ImportRoute::File(p) => (0, p@),
        ImportRoute::Locked(p) => (1, p@),
        ImportRoute::Missing(m) => (2, m@),
    }
}

/// Where an import of a module leads, given the lock file's dependencies
/// (import name and entry file).
pub fn import_route(name: &str, locks: &Vec<(String, String)>) -> (r: ImportRoute)
    ensures
        route_model(r) == import_route_of(name@, locks@),
{
    let raw = trim_quotes_exec(name);
    let path_like = (raw.len() >= 2 && raw[0] == '.' && raw[1] == '/') || (raw.len() >= 3 && raw[0] == '.'
        && raw[1] == '.' && raw[2] == '/') || (raw.len() >= 1 && raw[0] == '/') || crate::text::has_drive_prefix_exec(&raw);
    let raw_s = string_of(raw.as_slice());
    if path_like {
        return ImportRoute::File(raw_s);
    }
    let mut i: usize = locks.len();
    assert(locks@.subrange(0, i as int) =~= locks@);
    while i > 0
        invariant
            i <= locks.len(),
            raw_s@ == trim_quotes(name@),
            !is_path_like(trim_quotes(name@)),
            locked_entry(locks@, raw_s@) == locked_entry(locks@.subrange(0, i as int), raw_s@),
        decreases i,
    {
        assert(locks@.subrange(0, i as int).drop_last() =~= locks@.subrange(0, i - 1));
        if str_eq(locks[i - 1].0.as_str(), raw_s.as_str()) {
            return ImportRoute::Locked(locks[i - 1].1.clone());
        }
        i = i - 1;
    }
    let mut m: Vec<char> = Vec::new();
    push_str(&mut m, "Cannot resolve import `");
    push_str(&mut m, name);
    push_str(&mut m, "`. Use relative import (`./...`) or add dependency via `mlang get`.");
    ImportRoute::Missing(string_of(m.as_slice()))
}

} // verus!
