//! A small compiler for a C-like language.
//!
//! Source text is split into tokens, parsed into a syntax tree, lowered to
//! three-address code and expanded into x86-64 instructions. Every stage is
//! a function of its input alone, and each is described by a mathematical
//! model that the executable code is proved to follow.

pub mod codegen;
pub mod driver;
pub mod errors;
pub mod parser;
pub mod tac;
pub mod text;
pub mod tokenizer;
pub mod types;
