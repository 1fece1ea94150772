//! User-defined words: how they are written down and where they are kept.

pub mod dictionary;
pub mod word;
