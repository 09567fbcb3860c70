//! A front end for a small Polish-notation arithmetic language.
//!
//! The language has integer literals and the operators `+ - * ^`. An
//! operator stands in front of its operands: bare, it takes exactly two;
//! inside parentheses, it takes one or more. Text is split into tokens by
//! [`lex`], tokens are turned into an expression tree by [`parse`], and a
//! tree is evaluated, rendered and checked for errors through the methods
//! of [`Exp`].
pub mod arith;
pub mod ast;
pub mod canonical;
pub mod decimal;
pub mod lexer;
pub mod parser;
pub mod text;

pub use ast::{ErrorExp, Exp, Expression, LitExp, MinusExp, MultExp, Op, PlusExp, PowExp};
pub use lexer::lex;
pub use parser::{expect, parse, peek};
