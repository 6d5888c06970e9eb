//! Front end of a small class-based language.
//!
//! - [`ast`]: the syntax tree of one source file, with a mathematical model of
//!   every node, and the conversion from the matches of the grammar.
//! - [`parser`]: the matches of the grammar as plain values.
//! - [`ast_actions`]: the two ways of walking the tree, a visitor that is told
//!   of every node and a fold that rebuilds nodes, and the passes built on
//!   them: the validators of `abstract`, `interface` and `native`, and the
//!   flattening of attribute blocks.
//! - [`symbol_table`]: the tables of names, from the whole program down to the
//!   closures of a function, and the pass that builds them.
//! - [`errors`]: what the validators report.
//! - [`source_file`]: a file with its path, its text and its tree.
//!
//! Every function states what it computes over the models, and is proved to
//! compute it.

pub mod ast;
pub mod ast_actions;
pub mod errors;
pub mod parser;
pub mod source_file;
pub mod symbol_table;
pub mod text;
