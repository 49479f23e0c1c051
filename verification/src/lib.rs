//! A linter for SQLite's SQL dialect: tokenizer, parser and semantic analyser.

pub mod types;
pub mod lev;
pub mod lexer;
pub mod lsp;
pub mod error;
pub mod analyzer;
pub mod nodes;
pub mod parser;
