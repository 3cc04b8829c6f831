//! The syntax tree and its mathematical model.
pub mod block;
pub mod expressions;
pub mod list;
pub mod local_assign;
pub mod lux;
pub mod model;
pub mod statements;
pub mod token;
pub mod tree;
pub mod unfold;
