# mlang

The M-Lang (Myanmar Language) toolchain as a verified library: lexer,
parser, formatter, type checker, module linker, code generators for Go and
C, pieces of the LLVM backend, and the command-line logic of the `mlang`
tool. Verus proves the functions in `src/` against their contracts; the
calls into std, `serde_json` and `ropey` go through small wrappers whose
contracts are trusted.

Layout:

- `src/token.rs`, `src/lexer.rs`: tokens and the lexer.
- `src/parser.rs`, `src/ast.rs`, `src/grammar.rs`: the syntax tree, the
  parser, and the grammar as spec functions over the token sequence, which
  the parser's contracts follow.
- `src/formatter.rs`, `src/render.rs`, `src/text.rs`: the source formatter
  and text helpers.
- `src/typecheck.rs`, `src/stdlib.rs`, `src/loop_depth.rs`: the type
  checker, the standard library modules it knows, and the proof that
  checking a statement leaves the loop depth as it was.
- `src/module_loader.rs`, `src/loader.rs`: packages, top-level names, the
  decisions of loading modules (cycles, duplicate packages, import routes)
  and the linking of modules into one program.
- `src/codegen_go.rs`, `src/codegen.rs`: the Go and C code generators.
- `src/codegen_llvm.rs`, `src/llvm_types.rs`: LLVM type lowering, string
  constants, identifiers and closure captures.
- `src/features.rs`: which language features each backend refuses.
- `src/analysis.rs`, `src/document.rs`, `src/hover.rs`, `src/completion.rs`,
  `src/semantic_tokens.rs`: what an editor is told about a document (symbols,
  diagnostics, definitions, hover texts, completions, highlighting and
  formatting edits).
- `src/cli.rs`, `src/deps.rs`: argument parsing, output names, the Go test
  runner, `git ls-remote` output, lock file entries and the decisions of
  the commands.
- `app/`: the `mlang` program itself (files, processes, git, the lock file).
