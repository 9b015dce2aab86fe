//! A phonetic transliteration engine: Latin keystrokes in, Bengali script out.
//!
//! The rules are stated as mathematical functions in `rules`, the engine in
//! `processor` computes them, and `laws` proves what holds of every line.

pub mod chars;
pub mod laws;
pub mod processor;
pub mod rules;
pub mod scheme;
pub mod table;
pub mod text;
pub mod types;
