//! The mutating walk, node by node.
pub mod blocks;
pub mod expressions;
pub mod lists;
pub mod markup;
pub mod statements;
