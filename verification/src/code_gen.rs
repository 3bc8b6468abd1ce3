//! Emission of source text in target languages.
pub mod c;
