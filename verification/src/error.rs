//! Diagnostics.

use vstd::prelude::*;

use crate::types::Rule;

verus! {

/// A replacement of a line's text, shown beside a diagnostic.
#[derive(Debug, Clone, Copy, PartialEq)]
pub struct ImprovedLine {
    pub snippet: &'static str,
    pub start: usize,
}

/// A fix for a diagnostic: replace the text between the two positions by `replacement`.
#[derive(Debug, PartialEq)]
pub struct Suggestion {
    pub message: String,
    pub replacement: String,
    pub start_line: usize,
    pub start_col: usize,
    pub end_line: usize,
    pub end_col: usize,
}

/// A diagnostic, found by the tokenizer, the parser or the analyser.
#[derive(Debug, PartialEq)]
pub struct Error {
    pub improved_line: Option<ImprovedLine>,
    pub file: String,
    pub line: usize,
    pub rule: Rule,
    pub note: String,
    pub msg: String,
    pub start: usize,
    pub end: usize,
    pub doc_url: Option<&'static str>,
    pub suggestion: Option<Suggestion>,
}

} // verus!
