//! A small declarative configuration language: source text is split into
//! positioned tokens, parsed into a tree of statements, resolved into entries
//! with absolute dotted keys, and stored in (or read back from) a compact
//! binary artifact.
pub mod apply;
pub mod cli;
pub mod codec;
pub mod conff;
pub mod errors;
pub mod lexer;
pub mod nodes;
pub mod parxt;
pub mod position;
pub mod roundtrip;
pub mod text;
pub mod token;
pub mod views;
pub mod visitor;
