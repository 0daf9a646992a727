//! Parsing the tokens of one line into a statement, with one token of
//! lookahead.
use vstd::prelude::*;

use crate::ast::{Expression, ExpressionModel, Statement, StatementModel, SyntaxError, Term, TermModel};
use crate::token::{Token, TokenModel, tokens_view};
use crate::value::{Operation, Value, ValueModel};

verus! {

/// The term a token stands for, where it stands for one.
pub open spec fn term_of(t: TokenModel) -> Option<TermModel> {
    match t {
        TokenModel::Number(n) => Some(TermModel::Value(ValueModel::Number(n))),
        TokenModel::String(s) => Some(TermModel::Value(ValueModel::String(s))),
        TokenModel::Identifier(name) => Some(TermModel::Variable(name)),
        _ => None,
    }
}

/// The operator a token stands for, where it stands for one.
pub open spec fn operation_of(t: TokenModel) -> Option<Operation> {
    match t {
        TokenModel::Plus => Some(Operation::Addition),
        TokenModel::Star => Some(Operation::Multiplication),
        _ => None,
    }
}

/// The term at the front of `ts`.
pub open spec fn parse_term(ts: Seq<TokenModel>) -> Result<TermModel, SyntaxError> {
    if ts.len() == 0 {
        Err(SyntaxError::UnexpectedEnd)
    } else {
        match term_of(ts[0]) {
            Some(t) => Ok(t),
            None => Err(SyntaxError::ExpectedTerm),
        }
    }
}

/// The expression at the front of `ts`, with the number of tokens it takes:
/// a term, then, where a token follows, an operator and a second term. What
/// follows the second term is left unread.
pub open spec fn parse_expression(ts: Seq<TokenModel>) -> Result<(ExpressionModel, nat), SyntaxError> {
    match parse_term(ts) {
        Err(e) => Err(e),
        Ok(left) => if ts.len() == 1 {
            Ok((ExpressionModel::Term(left), 1))
        } else {
            match operation_of(ts[1]) {
                None => Err(SyntaxError::ExpectedOperation),
                Some(op) => match parse_term(ts.skip(2)) {
                    Err(e) => Err(e),
                    Ok(right) => Ok((ExpressionModel::Binary(left, op, right), 3)),
                },
            }
        },
    }
}

/// The statement at the front of `ts`, with the number of tokens it takes:
/// `let NAME = EXPRESSION` where the first token is `let`, else an
/// expression.
pub open spec fn parse_statement(ts: Seq<TokenModel>) -> Result<(StatementModel, nat), SyntaxError> {
    if ts.len() == 0 {
        Err(SyntaxError::UnexpectedEnd)
    } else if ts[0] == TokenModel::Let {
        match if ts.len() > 1 { ts[1] } else { TokenModel::Let } {
            TokenModel::Identifier(name) => if ts.len() > 2 && ts[2] == TokenModel::Equals {
                match parse_expression(ts.skip(3)) {
                    Err(e) => Err(e),
                    Ok((e, n)) => Ok((StatementModel::Assignment(name, e), n + 3)),
                }
            } else {
                Err(SyntaxError::ExpectedEquals)
            },
            _ => Err(SyntaxError::ExpectedIdentifier),
        }
    } else {
        match parse_expression(ts) {
            Err(e) => Err(e),
            Ok((e, n)) => Ok((StatementModel::Expression(e), n)),
        }
    }
}

/// The tokens of a line, read front to back.
pub struct TokenStream {
    tokens: Vec<Token>,
    pos: usize,
}

impl View for TokenStream {
    type V = Seq<TokenModel>;

    /// The tokens not yet read.
    closed spec fn view(&self) -> Seq<TokenModel> {
        tokens_view(self.tokens@).skip(self.pos as int)
    }
}

impl TokenStream {
    pub closed spec fn wf(&self) -> bool {
        self.pos <= self.tokens.len()
    }

    pub fn new(tokens: Vec<Token>) -> (r: TokenStream)
        ensures
            r.wf(),
            r@ == tokens_view(tokens@),
    {
        let r = TokenStream { tokens, pos: 0 };
        assert(r@ =~= tokens_view(r.tokens@));
        r
    }

    /// The next token, left unread.
    pub fn peek(&self) -> (r: Option<&Token>)
        requires
            self.wf(),
        ensures
            match r {
                Some(t) => self@.len() > 0 && t@ == self@[0],
                None => self@.len() == 0,
            },
    {
        if self.pos < self.tokens.len() {
            Some(&self.tokens[self.pos])
        } else {
            None
        }
    }

    /// Reads the next token.
    pub fn next(&mut self) -> (r: Option<Token>)
        requires
            old(self).wf(),
        ensures
            final(self).wf(),
            match r {
                Some(t) => old(self)@.len() > 0 && t@ == old(self)@[0] && final(self)@ == old(
                    self,
                )@.drop_first(),
                None => old(self)@.len() == 0 && final(self)@ == old(self)@,
            },
    {
        if self.pos < self.tokens.len() {
            let t = self.tokens[self.pos].clone();
            self.pos = self.pos + 1;
            assert(self@ =~= old(self)@.drop_first());
            Some(t)
        } else {
            None
        }
    }
}

impl Expression {
    /// Parses one expression from the front of `stream`. Tokens after the
    /// expression are left in the stream.
    pub fn parse(stream: &mut TokenStream) -> (r: Result<Expression, SyntaxError>)
        requires
            old(stream).wf(),
        ensures
            final(stream).wf(),
            match parse_expression(old(stream)@) {
                Ok((e, n)) => r is Ok && r->Ok_0@ == e && final(stream)@ == old(stream)@.skip(
                    n as int,
                ),
                Err(err) => r == Err::<Expression, SyntaxError>(err),
            },
    {
        let ghost ts = stream@;
        let left = match Self::term(stream) {
            Ok(t) => t,
            Err(e) => return Err(e),
        };
        assert(stream@ =~= ts.skip(1));
        match stream.next() {
            None => Ok(Expression::Term(left)),
            Some(token) => {
                let op = match token {
                    Token::Plus => Operation::Addition,
                    Token::Star => Operation::Multiplication,
                    _ => return Err(SyntaxError::ExpectedOperation),
                };
                assert(stream@ =~= ts.skip(2));
                let right = match Self::term(stream) {
                    Ok(t) => t,
                    Err(e) => return Err(e),
                };
                assert(stream@ =~= ts.skip(3));
                Ok(Expression::Binary { left, op, right })
            },
        }
    }

    /// Parses one term from the front of `stream`.
    fn term(stream: &mut TokenStream) -> (r: Result<Term, SyntaxError>)
        requires
            old(stream).wf(),
        ensures
            final(stream).wf(),
            match parse_term(old(stream)@) {
                Ok(t) => r is Ok && r->Ok_0@ == t && final(stream)@ == old(stream)@.drop_first(),
                Err(err) => r == Err::<Term, SyntaxError>(err),
            },
    {
        match stream.next() {
            None => Err(SyntaxError::UnexpectedEnd),
            Some(Token::Number(n)) => Ok(Term::Value(Value::Number(n))),
            Some(Token::String(s)) => Ok(Term::Value(Value::String(s))),
            Some(Token::Identifier(name)) => Ok(Term::Variable { name }),
            Some(_) => Err(SyntaxError::ExpectedTerm),
        }
    }
}

impl Statement {
    /// Parses one statement from the front of `stream`.
    pub fn parse(stream: &mut TokenStream) -> (r: Result<Statement, SyntaxError>)
        requires
            old(stream).wf(),
        ensures
            final(stream).wf(),
            match parse_statement(old(stream)@) {
                Ok((s, n)) => r is Ok && r->Ok_0@ == s && final(stream)@ == old(stream)@.skip(
                    n as int,
                ),
                Err(err) => r == Err::<Statement, SyntaxError>(err),
            },
    {
        let is_let = match stream.peek() {
            None => return Err(SyntaxError::UnexpectedEnd),
            Some(Token::Let) => true,
            Some(_) => false,
        };
        if is_let {
            Self::assignment(stream)
        } else {
            match Expression::parse(stream) {
                Ok(e) => Ok(Statement::Expression(e)),
                Err(e) => Err(e),
            }
        }
    }

    /// Parses `let NAME = EXPRESSION` from the front of `stream`, whose first
    /// token is `let`.
    fn assignment(stream: &mut TokenStream) -> (r: Result<Statement, SyntaxError>)
        requires
            old(stream).wf(),
            old(stream)@.len() > 0,
            old(stream)@[0] == TokenModel::Let,
        ensures
            final(stream).wf(),
            match parse_statement(old(stream)@) {
                Ok((s, n)) => r is Ok && r->Ok_0@ == s && final(stream)@ == old(stream)@.skip(
                    n as int,
                ),
                Err(err) => r == Err::<Statement, SyntaxError>(err),
            },
    {
        let ghost ts = stream@;
        let _ = stream.next();
        let name = match stream.next() {
            Some(Token::Identifier(name)) => name,
            _ => return Err(SyntaxError::ExpectedIdentifier),
        };
        match stream.next() {
            Some(Token::Equals) => {},
            _ => return Err(SyntaxError::ExpectedEquals),
        }
        assert(stream@ =~= ts.skip(3));
        let ghost rest = stream@;
        match Expression::parse(stream) {
            Ok(value) => {
                assert(stream@ =~= ts.skip(3 + parse_expression(rest)->Ok_0.1 as int));
                Ok(Statement::Assignment { name, value })
            },
            Err(e) => Err(e),
        }
    }
}

} // verus!
