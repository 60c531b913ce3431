# rust_code_analyzer

A static analyzer for Rust projects: it reads a workspace's Cargo metadata and
sources and records every function (signature, location, modifiers,
parameters, callees resolved across the project and across crates) and every
type (its fields, variants or trait items, and its methods), together with the documentation
that doc comments and rustdoc's pages give. A semantic layer infers the types
of expressions and the calls between functions, expands macros, resolves
trait calls and follows async functions and their awaits.

The library is written in Verus: its functions carry `requires`/`ensures`
contracts over mathematical models (sequences, maps, spec functions), and
Verus proves them.

## Layout

- `src/` — the verified library.
  - `syntax.rs` holds the parts of a Rust syntax tree that the analyses read,
    as plain values; `text.rs` and `string_map.rs` the string operations and
    the insertion-ordered map the rest is built on.
  - `function_analyzer.rs`, `type_analyzer.rs`, `doc_analyzer.rs` read one
    source file each; `analyzer.rs` runs them over a project, resolves calls
    and merges cross-crate callees (`cross_crate_analyzer.rs`).
  - `cargo_integration.rs` models `cargo metadata` and workspace manifests;
    `cargo_doc_integration.rs` reads rustdoc's HTML pages; `doc_output.rs` and
    `output.rs` build the records that are written out.
  - `semantic_analyzer.rs` is the type inference, macro, trait and async layer.
  - `parser.rs` parses source text with `syn` and turns the tree into the
    library's records, function bodies as trees of syntax nodes;
    `syntax_tree.rs` walks those trees into the events the analyses read.
  - Calls into `syn`, `regex`, `scraper`, `toml` and `petgraph` go through
    small wrappers; their contracts name what those crates return, and the
    verified code around them is stated over those names.
- `app/` — the command-line program: argument parsing, file system and
  process work, and JSON output. It converts between the
  outside crates' values and the library's.
- `tests/` — tests of the library, run against the real outside crates.
