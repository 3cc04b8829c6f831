//! A transformer of Lua syntax trees: the tree itself, the walkers that carry
//! a processor over every node of a block, and the rules built on them.
pub mod nodes;
pub mod process;
pub mod rules;
pub mod cli;
