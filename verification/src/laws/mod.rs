//! What the driver promises of its functions, call by call.
//!
//! Each law speaks of a call: what was handed to a function and what came back.
//! It says in plain terms how the two relate, for every input.
pub mod words;
pub mod maps;
pub mod tool;
pub mod runs;
pub mod sandboxes;
pub mod watches;
pub mod creations;
pub mod deletions;
pub mod answers;
