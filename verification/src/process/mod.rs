//! The walkers and the processors that they carry over a block.
pub mod laws;
pub mod mutating;
pub mod node_counter;
pub mod node_processor;
pub mod reading;
pub mod trace;
pub mod visitors;
pub mod visitors_mut;
pub mod walk;
