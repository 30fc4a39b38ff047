//! The syntax tree.
pub mod atom;
pub mod expr;
pub mod list;
pub mod node;
pub mod path;
pub mod progress;
pub mod source_file;
pub mod stmt;
pub mod table;
