//! A tokenizer for a small C-like scripting language, with the token model and
//! the skeleton of the syntax tree that a parser builds from the tokens.
pub mod ast;
pub mod lexer;
pub mod parser;
pub mod scan;
pub mod token;
