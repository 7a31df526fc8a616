//! Lexical scanner for a small programming language.
//!
//! The scanner turns raw source text into a flat sequence of classified
//! tokens (keywords, identifiers, literals, operators, delimiters), each
//! carrying its lexeme, an optional decoded literal value, and a 1-based
//! line and column position.  Scanning is a single pass with
//! longest-match-first operator resolution; the first lexical error aborts
//! the scan and is reported as a formatted diagnostic.

pub mod laws;
pub mod model;
pub mod scanner;
pub mod text;
pub mod token;
