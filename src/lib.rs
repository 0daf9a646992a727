//! A small interpreter: lexing, parsing and evaluation of a line-oriented
//! expression language with numbers, strings and `let` bindings.
use vstd::prelude::*;

pub mod ast;
pub mod eval;
pub mod lexer;
pub mod parser;
pub mod scope;
pub mod text;
pub mod token;
pub mod value;

pub use ast::{Error, Expression, Statement, SyntaxError, Term};
pub use eval::eval;
pub use lexer::Lexer;
pub use parser::TokenStream;
pub use scope::Scope;
pub use token::Token;
pub use value::{Operation, RuntimeError, Value};

verus! {

} // verus!
