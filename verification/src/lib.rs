//! Yugolang: a lexer and parser for a small superfunctional language,
//! together with the typing model and the evaluation-order rules of its interpreter.

pub mod lexer;
pub mod parser;
pub mod typing;
pub mod priorities;
pub mod state;
pub mod global;
pub mod interpreter;
