//! A small dynamically typed scripting language: a lexer, a recursive-descent
//! parser, and a tree-walking interpreter, each verified against a functional
//! model of its behaviour.

pub mod error;
pub mod token;
pub mod numbers;
pub mod scanner;
pub mod parser;
pub mod semantics;
pub mod interpreter;
pub mod laws;
