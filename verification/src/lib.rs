//! A minimal compiler for a tiny C-like language: one function, one `return`
//! statement, integer constants and unary and binary arithmetic.
//!
//! The pipeline has three stages. [`lexer`] turns source text into tokens,
//! [`parser`] turns tokens into a syntax tree, and [`codegen`] turns the tree
//! into x86 assembly text.
//!
//! [`grammar`] holds the grammar as trees of what can be written; [`complete`]
//! and [`sound`] prove that the parser reads every program of that grammar
//! and nothing else. [`pattern`] holds what is taken on trust of the `regex`
//! crate, and [`text`] the string operations that the stages share.

pub mod codegen;
pub mod complete;
pub mod grammar;
pub mod lexer;
pub mod parser;
pub mod pattern;
pub mod sound;
pub mod text;
