//! A probabilistic process checkpoint: parse a small command-line grammar,
//! draw one uniform random value against a clamped success chance, and either
//! reject with a non-zero status or marshal the wrapped command for the
//! replacement call that hands the process over to it.
//!
//! `parse` recognises the grammar, `gate` makes the accept/reject decision,
//! `entry` selects the terminal action, and `launch` marshals the argument
//! vector; `text` holds the string and integer groundwork they share.

pub mod entry;
pub mod gate;
pub mod launch;
pub mod parse;
pub mod text;
