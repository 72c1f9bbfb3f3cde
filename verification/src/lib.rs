//! Carbide: a transpiler from a C-flavoured Rust dialect to plain FFI Rust.
pub mod text;
pub mod lexer;
pub mod ast;
pub mod grammar;
pub mod parser;
pub mod body;
pub mod transform;
pub mod emitter;
pub mod pipeline;
pub mod cli;
