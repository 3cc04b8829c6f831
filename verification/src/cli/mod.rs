//! What the command line needs of the library.
pub mod utils;
