//! Passes that rewrite the tree.

pub mod block_expander;
pub mod block_reducer;
