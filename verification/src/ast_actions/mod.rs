//! The passes over the syntax tree.

pub mod ast_fold;
pub mod ast_visitor;
pub mod modifiers;
pub mod node_counter;
pub mod validators;
