//! The core of a small Forth interpreter: a bounded stack of 16-bit
//! numbers, a dictionary of user-defined words, and an engine that runs
//! instructions against both.
//!
//! A line of source text is parted into tokens ([`tokens::tokenize`]), and
//! the tokens are read one by one ([`tokens::read_tokens`]): each is
//! resolved against the dictionary and then either run or, between `:` and
//! `;`, collected into the body of a new word.
//!
//! The library performs no input or output. Everything the interpreter
//! puts on the console is returned to the caller as a list of
//! [`effects::Effect`] values, in the order in which it arose.
//!
//! Every function states what it does over mathematical values: a stack
//! is a sequence of numbers, a dictionary a map from names to bodies, and
//! an instruction a value of [`forth_value::ValueModel`].

pub mod effects;
pub mod errors;
pub mod executions;
pub mod forth_value;
pub mod laws;
pub mod operations;
pub mod stack;
pub mod text;
pub mod tokens;
pub mod utils;
pub mod words;
