# goida

Front end and package tooling of the Гойда programming language, written in
Verus. The functions in `src/` carry contracts that Verus proves; the few
that call `std` or an outside crate (`regex`, `chrono`) are marked
`#[verifier::external_body]`, and their contracts are trusted, not proved.

## Layout

- `src/parser/scanner.rs`, `src/parser/lexer.rs`: the tokenizer and the
  passes that prepare the token stream (lambda and method-call markers,
  type-hint `=`, statement separators at line ends).
- `src/parser/syntax.rs`: the syntax tree.
- `src/parser/macro_expander.rs`: declarative macros — matching a call
  against the rules of a definition and instantiating the template of the
  first rule that consumes every token.
- `src/parser/expansion.rs`: expansion of a whole program, the expansion
  preview and the registration of built-in macros. The generated grammar is
  a parameter (`Grammar`): the contracts hold for every answer its parsers
  can give.
- `src/parser/printer.rs`: the source form of a syntax tree.
- `src/parser/program.rs`: the program tree of a module — statements and
  expressions in arenas, referred to by index, names interned in a table.
- `src/parser/validation.rs`: the scope-based name checks over that tree.
- `src/parser/utils.rs`, `src/parser/rules.rs`: diagnostics helpers.
- `src/formatter.rs`: the line-based source formatter.
- `src/builtins/`: the catalog and registry of built-in names, and the
  methods of the built-in string, date and regular expression classes.
- `src/package/`: manifest and lock file model, dependency resolution
  decisions, virtual-environment scripts.
- `src/shared.rs`, `src/ffi.rs`, `src/ast.rs`, `src/text.rs`: shared values,
  FFI value tags, source spans and diagnostics, text helpers.
- `app/`: the `goida` command line (project, dependency and environment
  management, formatting), which does the file, process and network work.
- `tests/`: tests of the library.
