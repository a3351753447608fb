//! A small front end for the `tol` language: lexing, Pratt parsing, name
//! resolution and type checking, each stated against a functional model.

pub mod ast;
pub mod diagnostic;
pub mod lexer;
pub mod module;
pub mod parser;
pub mod prelude;
pub mod sema;
pub mod symbol;
pub mod text;
pub mod token;
pub mod toltype;
