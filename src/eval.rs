//! Evaluation of terms, expressions and statements against a scope, and the
//! runner that executes a whole program line by line.
use vstd::prelude::*;

use crate::ast::{Error, ErrorModel, Expression, ExpressionModel, Statement, StatementModel, Term, TermModel};
use crate::lexer::{lex, Lexer};
use crate::parser::{parse_expression, parse_statement, term_of, TokenStream};
use crate::token::TokenModel;
use crate::scope::Scope;
use crate::text::{chars_of, slice_chars, trim, trim_bounds};
use crate::value::{apply, value_outcome, Operation, RuntimeError, RuntimeErrorModel, Value, ValueModel};

verus! {

/// A model of a scope: each bound name and its value.
pub type Env = Map<Seq<char>, ValueModel>;

/// The value of a term: a literal is itself; a name is what `env` binds it
/// to, and an error where it binds nothing.
pub open spec fn eval_term(t: TermModel, env: Env) -> Result<ValueModel, RuntimeErrorModel> {
    match t {
        TermModel::Value(v) => Ok(v),
        TermModel::Variable(name) => if env.contains_key(name) {
            Ok(env[name])
        } else {
            Err(RuntimeErrorModel::VariableNotFound(name))
        },
    }
}

/// The value of an expression: the left term is evaluated, then the right,
/// then the operator is applied.
pub open spec fn eval_expression(e: ExpressionModel, env: Env) -> Result<ValueModel, RuntimeErrorModel> {
    match e {
        ExpressionModel::Term(t) => eval_term(t, env),
        ExpressionModel::Binary(left, op, right) => match eval_term(left, env) {
            Err(x) => Err(x),
            Ok(a) => match eval_term(right, env) {
                Err(x) => Err(x),
                Ok(b) => apply(op, a, b),
            },
        },
    }
}

/// Executing a statement: the scope afterwards, and the value it produces.
/// An assignment binds the name and produces nothing; an expression leaves
/// the scope alone and produces its value.
pub open spec fn execute(s: StatementModel, env: Env) -> Result<(Env, Option<ValueModel>), RuntimeErrorModel> {
    match s {
        StatementModel::Assignment(name, e) => match eval_expression(e, env) {
            Err(x) => Err(x),
            Ok(v) => Ok((env.insert(name, v), None)),
        },
        StatementModel::Expression(e) => match eval_expression(e, env) {
            Err(x) => Err(x),
            Ok(v) => Ok((env, Some(v))),
        },
    }
}

/// The model of an optional value.
pub open spec fn optional_view(v: Option<Value>) -> Option<ValueModel> {
    match v {
        Some(x) => Some(x@),
        None => None,
    }
}

impl Term {
    /// The value of the term in `scope`.
    pub fn evaluate(&self, scope: &Scope) -> (r: Result<Value, RuntimeError>)
        requires
            scope.wf(),
        ensures
            value_outcome(r) == eval_term(self@, scope@),
    {
        match self {
            Term::Value(value) => Ok(value.clone()),
            Term::Variable { name } => match scope.get(name.as_str()) {
                Some(value) => Ok(value),
                None => Err(RuntimeError::VariableNotFound(name.clone())),
            },
        }
    }
}

impl Expression {
    /// The value of the expression in `scope`.
    pub fn evaluate(&self, scope: &Scope) -> (r: Result<Value, RuntimeError>)
        requires
            scope.wf(),
        ensures
            value_outcome(r) == eval_expression(self@, scope@),
    {
        match self {
            Expression::Term(term) => term.evaluate(scope),
            Expression::Binary { left, op, right } => {
                let left = match left.evaluate(scope) {
                    Ok(v) => v,
                    Err(e) => return Err(e),
                };
                let right = match right.evaluate(scope) {
                    Ok(v) => v,
                    Err(e) => return Err(e),
                };
                match op {
                    Operation::Addition => left.add(right),
                    Operation::Multiplication => left.mul(right),
                }
            },
        }
    }
}

impl Statement {
    /// Executes the statement in `scope`. An assignment binds its name and
    /// gives `None`; an expression gives its value. On an error the scope is
    /// left as it was.
    pub fn evaluate(&self, scope: &mut Scope) -> (r: Result<Option<Value>, RuntimeError>)
        requires
            old(scope).wf(),
        ensures
            final(scope).wf(),
            match execute(self@, old(scope)@) {
                Ok((env, out)) => r is Ok && optional_view(r->Ok_0) == out && final(scope)@ == env,
                Err(x) => r is Err && r->Err_0@ == x && final(scope)@ == old(scope)@,
            },
    {
        match self {
            Statement::Assignment { name, value } => {
                let value = match value.evaluate(scope) {
                    Ok(v) => v,
                    Err(e) => return Err(e),
                };
                scope.set(name.as_str(), value);
                Ok(None)
            },
            Statement::Expression(expression) => match expression.evaluate(scope) {
                Ok(v) => Ok(Some(v)),
                Err(e) => Err(e),
            },
        }
    }
}

/// How many characters of `s` come before its first line break (all of them
/// where there is none).
pub open spec fn line_len(s: Seq<char>) -> nat
    decreases s.len(),
{
    if s.len() == 0 || s[0] == '\n' {
        0
    } else {
        1 + line_len(s.drop_first())
    }
}

/// Running one non-blank, trimmed line: lex it, parse one statement from its
/// tokens, execute that statement.
pub open spec fn run_line(line: Seq<char>, env: Env) -> Result<(Env, Option<ValueModel>), ErrorModel> {
    match parse_statement(lex(line)) {
        Err(e) => Err(ErrorModel::Syntax(e)),
        Ok((s, _)) => match execute(s, env) {
            Err(x) => Err(ErrorModel::Runtime(x)),
            Ok(next) => Ok(next),
        },
    }
}

/// Running the lines of `src` in order, from scope `env`, where `last` is the
/// latest value an expression line produced. Lines are split at `\n` and
/// trimmed; blank lines are skipped; the first error ends the run.
pub open spec fn run(src: Seq<char>, env: Env, last: Option<ValueModel>) -> Result<Option<ValueModel>, ErrorModel>
    decreases src.len(),
{
    if src.len() == 0 {
        Ok(last)
    } else {
        let k = line_len(src);
        let line = trim(src.take(k as int));
        let after = if k < src.len() {
            k + 1int
        } else {
            src.len() as int
        };
        let rest = src.skip(after);
        if line.len() == 0 {
            run(rest, env, last)
        } else {
            match run_line(line, env) {
                Err(e) => Err(e),
                Ok((next, out)) => run(rest, next, if out is Some { out } else { last }),
            }
        }
    }
}

/// The outcome of a whole program: the value of its latest expression line,
/// `None` where it has none, or the first error.
pub open spec fn program(src: Seq<char>) -> Result<Option<ValueModel>, ErrorModel> {
    run(src, Map::empty(), None)
}

/// The model of the outcome of a run.
pub open spec fn program_outcome(r: Result<Option<Value>, Error>) -> Result<Option<ValueModel>, ErrorModel> {
    match r {
        Ok(v) => Ok(optional_view(v)),
        Err(e) => Err(e@),
    }
}

/// Runs one non-blank line against `scope`.
fn run_one_line(line: Vec<char>, scope: &mut Scope) -> (r: Result<Option<Value>, Error>)
    requires
        old(scope).wf(),
    ensures
        final(scope).wf(),
        match run_line(line@, old(scope)@) {
            Ok((env, out)) => r is Ok && optional_view(r->Ok_0) == out && final(scope)@ == env,
            Err(e) => r is Err && r->Err_0@ == e,
        },
{
    let mut lexer = Lexer::from_chars(line);
    let tokens = lexer.tokens();
    let mut stream = TokenStream::new(tokens);
    let statement = match Statement::parse(&mut stream) {
        Ok(s) => s,
        Err(e) => return Err(Error::Syntax(e)),
    };
    match statement.evaluate(scope) {
        Ok(out) => Ok(out),
        Err(e) => Err(Error::Runtime(e)),
    }
}

/// Runs a program: each non-blank line, trimmed, is lexed, parsed into one
/// statement and executed against one scope shared by all lines. The result
/// is the value of the latest expression line, `None` where there is none;
/// the first error stops the run.
pub fn eval(source: &str) -> (r: Result<Option<Value>, Error>)
    ensures
        program_outcome(r) == program(source@),
{
    let chars = chars_of(source);
    let ghost src = chars@;
    let n = chars.len();
    let mut scope = Scope::new();
    let mut last: Option<Value> = None;
    let mut pos: usize = 0;
    assert(src.skip(0) =~= src);
    while pos < n
        invariant
            chars@ == src,
            src == source@,
            n == src.len(),
            pos <= n,
            scope.wf(),
            program(src) == run(src.skip(pos as int), scope@, optional_view(last)),
        decreases n - pos,
    {
        let ghost s = src.skip(pos as int);
        let mut end: usize = pos;
        while end < n && chars[end] != '\n'
            invariant
                chars@ == src,
                n == src.len(),
                pos <= end <= n,
                s == src.skip(pos as int),
                line_len(s) == (end - pos) + line_len(src.skip(end as int)),
            decreases n - end,
        {
            assert(src.skip(end as int).drop_first() =~= src.skip(end + 1));
            end = end + 1;
        }
        let ghost k = line_len(s);
        assert(k == end - pos);
        assert(s.take(k as int) =~= src.subrange(pos as int, end as int));
        let (a, b) = trim_bounds(&chars, pos, end);
        let next: usize = if end < n {
            end + 1
        } else {
            n
        };
        assert(s.skip(if k < s.len() { k + 1int } else { s.len() as int }) =~= src.skip(
            next as int,
        ));
        if a < b {
            let line = slice_chars(&chars, a, b);
            let ghost env = scope@;
            match run_one_line(line, &mut scope) {
                Ok(out) => {
                    if out.is_some() {
                        last = out;
                    }
                },
                Err(e) => {
                    assert(run(s, env, optional_view(last)) == Err::<Option<ValueModel>, ErrorModel>(e@));
                    return Err(e);
                },
            }
        }
        pos = next;
    }
    Ok(last)
}

} // verus!

verus! {

/// A line made of one term and no operator is that term alone, and its value
/// is the term's own value, with no coercion: a literal gives itself back and
/// a name gives what it is bound to.
pub proof fn lemma_lone_term(line: Seq<char>, t: TokenModel, env: Env)
    requires
        lex(line) == seq![t],
        term_of(t) is Some,
    ensures
        parse_expression(seq![t]) == Ok::<(ExpressionModel, nat), crate::ast::SyntaxError>(
            (ExpressionModel::Term(term_of(t)->0), 1nat),
        ),
        eval_expression(ExpressionModel::Term(term_of(t)->0), env) == eval_term(
            term_of(t)->0,
            env,
        ),
        match eval_term(term_of(t)->0, env) {
            Ok(v) => run_line(line, env) == Ok::<(Env, Option<ValueModel>), ErrorModel>(
                (env, Some(v)),
            ),
            Err(x) => run_line(line, env) == Err::<(Env, Option<ValueModel>), ErrorModel>(
                ErrorModel::Runtime(x),
            ),
        },
        term_of(t) matches Some(TermModel::Value(v)) ==> run_line(line, env) == Ok::<
            (Env, Option<ValueModel>),
            ErrorModel,
        >((env, Some(v))),
{
}

/// A name bound by `let` reads back, on any later line, as the value just
/// assigned to it, whatever it was bound to before.
pub proof fn lemma_let_then_read(name: Seq<char>, e: ExpressionModel, env: Env)
    requires
        eval_expression(e, env) is Ok,
    ensures
        ({
            let v = eval_expression(e, env)->Ok_0;
            let after = env.insert(name, v);
            &&& execute(StatementModel::Assignment(name, e), env) == Ok::<
                (Env, Option<ValueModel>),
                RuntimeErrorModel,
            >((after, None))
            &&& execute(
                StatementModel::Expression(ExpressionModel::Term(TermModel::Variable(name))),
                after,
            ) == Ok::<(Env, Option<ValueModel>), RuntimeErrorModel>((after, Some(v)))
        }),
{
}

} // verus!
