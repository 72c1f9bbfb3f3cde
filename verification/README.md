# carbide

A transpiler from Carbide, a C-flavoured dialect of Rust (postfix `T*`,
`T const*`, `T&` types, C type keywords, `proc` for unsafe procedures), to
plain FFI Rust, written in Verus and verified.

## Layout

- `src/text.rs`: character-level helpers and the calls into `char` and
  `str` of the standard library that the proofs rely on.
- `src/lexer.rs`: tokens, the lexing rules as spec functions (`lex`), and the
  lexer that is proved to follow them.
- `src/ast.rs`: the syntax tree and its mathematical view.
- `src/grammar.rs`: the grammar as spec functions over a token stream
  (`items_at`, `parse_type_at`, ...).
- `src/parser.rs`: the recursive-descent parser, proved to compute the
  grammar.
- `src/body.rs`: the text-level rewrites of function bodies (C type names,
  postfix pointer casts and annotations, `mut&` borrows).
- `src/transform.rs`: the AST transforms (type mapping, `#[repr(C)]`,
  `#[no_mangle]` and the `system` ABI).
- `src/emitter.rs`: the Rust text of a program (`program_text`) and the
  emitter that writes it.
- `src/pipeline.rs`: `transpile`, the whole pipeline, with its exact
  contract.
- `src/cli.rs`: the decisions of the command-line driver.
- `app/main.rs`: the command-line program (argument parsing, files,
  `rustc` and `cargo`).

The laws of the library are public proof functions named `law_*`.
