//! A command-line front end for printing Pokemon sprites in the terminal.
//!
//! The heart of the crate is a table-driven flag parser: a registry of flag
//! definitions, a name-to-flag lookup map, and a token-by-token argument
//! parser that drives a mutually-exclusive mode state machine.  Every
//! function here carries a contract relating it to a mathematical model of
//! the parse, and the contracts are checked by Verus.

pub mod args;
pub mod flags;
pub mod help;
pub mod laws;
pub mod parse;
pub mod pokemon;
pub mod util;
pub mod version;
