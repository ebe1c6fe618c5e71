//! The grammar core of an interactive command shell: a tree of commands and
//! parameters, and the engine that matches, completes and accepts input lines
//! against it token by token.
pub mod nodes;
pub mod text;
pub mod grammar;
pub mod frontier;
pub mod laws;
