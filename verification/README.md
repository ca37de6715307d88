# ts_gen records

Generation of wasm-bindgen bindings for named TypeScript `Record<K, V>`
aliases, verified with Verus.

Given a record declaration, the library decides which accessors the generated
wrapper type receives and how they are named, renders the Rust source of the
bindings, and lexes it into a `proc_macro2::TokenStream`.

- `ir` — the declarations and types that generation reads.
- `context` — aliases, named string literal sets and renamed locals.
- `text`, `naming` — character classes, snake case, decimal numbers, and the
  de-duplication of method names.
- `typemap` — flavor names of types and the Rust types of signatures.
- `signatures` — expansion of union-typed parameters into alternatives.
- `render` — method declarations and concatenation of Rust source.
- `records` — key classification, accessor naming, the wrapper type, and the
  generation of indexed and string-literal records.
- `tokens` — string literal tokens and lexing of the rendered source
  (`proc_macro2`).
- `laws` — properties of every generated record: distinct method names, one
  getter pair and one setter per signature in key/literal order, base names
  kept when free, literal names never reading as type flavors, construction
  offered only for open key types, and what snake case keeps of its input.
