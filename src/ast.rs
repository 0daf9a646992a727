//! The shapes a parsed line can take, and the errors of the language.
use vstd::prelude::*;

use crate::value::{Operation, RuntimeError, RuntimeErrorModel, Value, ValueModel};

verus! {

/// A leaf of an expression.
#[derive(Debug, PartialEq, Eq)]
pub enum Term {
    /// A literal.
    Value(Value),
    /// A name, looked up when the term is evaluated.
    Variable { name: String },
}

/// A term, or one operator between two terms.
#[derive(Debug, PartialEq, Eq)]
pub enum Expression {
    Binary { left: Term, op: Operation, right: Term },
    Term(Term),
}

/// One line of a program.
#[derive(Debug, PartialEq, Eq)]
pub enum Statement {
    /// `let name = value`
    Assignment { name: String, value: Expression },
    /// An expression whose value is the line's result.
    Expression(Expression),
}

pub enum TermModel {
    Value(ValueModel),
    Variable(Seq<char>),
}

pub enum ExpressionModel {
    Binary(TermModel, Operation, TermModel),
    Term(TermModel),
}

pub enum StatementModel {
    Assignment(Seq<char>, ExpressionModel),
    Expression(ExpressionModel),
}

impl View for Term {
    type V = TermModel;

    open spec fn view(&self) -> TermModel {
        match self {
            Term::Value(v) => TermModel::Value(v@),
            Term::Variable { name } => TermModel::Variable(name@),
        }
    }
}

impl View for Expression {
    type V = ExpressionModel;

    open spec fn view(&self) -> ExpressionModel {
        match self {
            Expression::Binary { left, op, right } => ExpressionModel::Binary(left@, *op, right@),
            Expression::Term(t) => ExpressionModel::Term(t@),
        }
    }
}

impl View for Statement {
    type V = StatementModel;

    open spec fn view(&self) -> StatementModel {
        match self {
            Statement::Assignment { name, value } => StatementModel::Assignment(name@, value@),
            Statement::Expression(e) => StatementModel::Expression(e@),
        }
    }
}

/// Why a line could not be parsed.
#[derive(Debug, Clone, Copy, PartialEq, Eq, Structural)]
pub enum SyntaxError {
    /// The line ended where a token was needed.
    UnexpectedEnd,
    /// A number, string or name was expected.
    ExpectedTerm,
    /// `+` or `*` was expected.
    ExpectedOperation,
    /// A name was expected after `let`.
    ExpectedIdentifier,
    /// `=` was expected after the name of a `let`.
    ExpectedEquals,
}

/// Why a run stopped.
#[derive(Debug, PartialEq, Eq)]
pub enum Error {
    Syntax(SyntaxError),
    Runtime(RuntimeError),
}

pub enum ErrorModel {
    Syntax(SyntaxError),
    Runtime(RuntimeErrorModel),
}

impl View for Error {
    type V = ErrorModel;

    open spec fn view(&self) -> ErrorModel {
        match self {
            Error::Syntax(e) => ErrorModel::Syntax(*e),
            Error::Runtime(e) => ErrorModel::Runtime(e@),
        }
    }
}

} // verus!
