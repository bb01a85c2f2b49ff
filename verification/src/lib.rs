//! A front end for the Lox language: a symbol table, a lexer and a parser.

mod text;

pub mod spans;
pub mod symbols;
pub mod lex;
pub mod tokens;
pub mod diagnostics;
pub mod log;
pub mod ast;
pub mod parse;
pub mod ast_dump;
