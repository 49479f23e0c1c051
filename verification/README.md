# sqleibniz

A linter for SQLite's SQL dialect, verified with Verus: a tokenizer, a recursive-descent
parser that reports as many problems as it can find in one run, and a semantic analyser
that checks queries and changes against the tables the file creates.

## Layout

- `src/types.rs` – tokens, keywords, diagnostic rules, storage classes and SQLite's type
  affinity rules, case-insensitive text helpers.
- `src/lexer.rs` – source bytes to tokens.
- `src/parser/` – the parser: `mod.rs` (state and token handling), `program.rs`
  (statement lists and dispatch), `stmt.rs` (transaction and maintenance statements,
  ATTACH, PRAGMA, ALTER), `dml.rs` (CREATE TABLE, INSERT, UPDATE, DELETE), `column.rs`
  (column definitions and constraints), `query.rs` (SELECT and expressions).
- `src/nodes.rs` – the syntax tree.
- `src/analyzer.rs` – the symbol table and the semantic checks.
- `src/lev.rs` – Levenshtein distance and the choice of "did you mean" hints.
- `src/lsp.rs` – which quick fixes an editor is offered for a range.
- `src/error.rs` – diagnostics.
- `app/` – the command line and language server front end.
- `tests/` – tests of the tokenizer, parser, analyser and helpers.
