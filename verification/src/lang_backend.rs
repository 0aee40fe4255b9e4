//! The scanner and the loaded source it reads.

pub mod lexer;
pub mod read_file;
