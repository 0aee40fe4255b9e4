//! A tokenizer for `nva` source text: variable declarations (`@`),
//! assignment (`=`), double-quoted strings, bare identifiers and
//! `/`-prefixed line comments.
//!
//! `grammar` defines, over sequences of characters, what the next token
//! at a position is. `lang_backend::lexer` holds the scanner, proved to
//! produce exactly that token. `laws` states theorems about the grammar.

pub mod grammar;
pub mod lang_backend;
pub mod laws;
