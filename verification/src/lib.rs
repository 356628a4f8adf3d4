//! A GW-BASIC lexer, parser, program store and tokenized-file decoder.

pub mod text;
pub mod lexer;
pub mod tokens;
pub mod print_using;
pub mod extractor;
pub mod ast;
pub mod statements;
pub mod parse_model;
pub mod parser;
pub mod program;
pub mod console;
pub mod operations;
