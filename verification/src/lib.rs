//! A tree-walking interpreter for a small, dynamically typed,
//! expression-oriented language: integers, booleans, null, `let`
//! bindings, `if`/`else`, first-class functions with closures, and
//! `return`.
//!
//! The pipeline is: source text -> [`lexer::Lexer`] -> tokens ->
//! [`parser::Parser`] -> [`ast::Program`] -> [`evaluator::eval`] ->
//! [`object::Object`].
//!
//! Every stage is specified against a mathematical model: tokens,
//! statements, expressions and runtime values each have a ghost view,
//! and the executable lexer, parser and evaluator are proved equal to
//! spec-level functions over those views.

pub mod ast;
pub mod environment;
pub mod evaluator;
pub mod lexer;
pub mod object;
pub mod parser;
pub mod strutil;
