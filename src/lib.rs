//! A Markdown linter core: source positions, violations, lint rules and the
//! merging of analysis passes into one issue list.

pub mod position;
pub mod violation;
pub mod ast;
pub mod document;
pub mod md003;
pub mod md019;
pub mod links;
pub mod checker;
pub mod format_check;
pub mod config;
pub mod review;
pub mod spelling;
pub mod engine;
