//! Generation of wasm-bindgen bindings for named TypeScript `Record<K, V>` aliases.
//!
//! The library decides which accessors a record alias receives, how they are
//! named, and renders the resulting Rust source, which is lexed into a token
//! stream.
pub mod ir;
pub mod text;
pub mod naming;
pub mod context;
pub mod typemap;
pub mod records;
pub mod signatures;
pub mod render;
pub mod tokens;
pub mod laws;
