//! A small interpreted scripting language: a precedence-climbing parser, an
//! AST-to-bytecode compiler, and a stack-based virtual machine, each verified
//! against a mathematical model of the language.

pub mod ast;
pub mod compiler;
pub mod error;
pub mod parser;
pub mod traveler;
pub mod lexer;
pub mod token;
pub mod laws;
pub mod machine;
pub mod natives;
pub mod op;
pub mod render;
pub mod scope;
pub mod strutil;
pub mod value;

