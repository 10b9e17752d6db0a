//! The front end of an interpreter for the Lox scripting language: the
//! scanner, which turns source text into classified tokens, the sink that
//! collects its error reports, and the writer of the syntax-tree declaration.
pub mod chars;
pub mod text;
pub mod token;
pub mod lox;
pub mod grammar;
pub mod scanner;
pub mod laws;
pub mod ast;
