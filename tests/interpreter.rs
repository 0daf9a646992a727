use interpreter::{
    eval, Error, Expression, Lexer, Operation, RuntimeError, Scope, Statement, SyntaxError, Term,
    Token, TokenStream, Value,
};

fn string(s: &str) -> Value {
    Value::String(s.to_string())
}

fn lex(line: &str) -> Vec<Token> {
    Lexer::new(line).tokens()
}

#[test]
fn multiplies_numbers() {
    assert_eq!(eval("3 * 2"), Ok(Some(Value::Number(6))));
}

#[test]
fn bindings_carry_across_lines() {
    assert_eq!(
        eval("let x = 3 * 2\nlet y = x + 5\nx + y"),
        Ok(Some(Value::Number(17)))
    );
}

#[test]
fn indented_program_with_blank_lines() {
    let source = "
        let x = 3 * 2
        let y = x + 5
        x + y
    ";
    assert_eq!(eval(source), Ok(Some(Value::Number(17))));
}

#[test]
fn unbound_name_is_reported() {
    assert_eq!(
        eval("21 + x"),
        Err(Error::Runtime(RuntimeError::VariableNotFound("x".to_string())))
    );
}

#[test]
fn string_times_number_repeats() {
    assert_eq!(eval("\"ab\" * 3"), Ok(Some(string("ababab"))));
}

#[test]
fn number_times_string_repeats() {
    assert_eq!(eval("2 * \"xy\""), Ok(Some(string("xyxy"))));
}

#[test]
fn repeat_zero_times_is_empty() {
    assert_eq!(eval("\"ab\" * 0"), Ok(Some(string(""))));
}

#[test]
fn negative_repeat_is_rejected() {
    assert_eq!(
        eval("\"ab\" * -2"),
        Err(Error::Runtime(RuntimeError::NegativeRepeat(-2)))
    );
}

#[test]
fn number_plus_string_prefixes() {
    assert_eq!(eval("5 + \"!\""), Ok(Some(string("5!"))));
}

#[test]
fn string_plus_number_appends() {
    assert_eq!(eval("\"!\" + 5"), Ok(Some(string("!5"))));
}

#[test]
fn negative_and_extreme_numbers_in_text() {
    assert_eq!(eval("-12 + \"\""), Ok(Some(string("-12"))));
    assert_eq!(
        eval("\"\" + -9223372036854775808"),
        Ok(Some(string("-9223372036854775808")))
    );
    assert_eq!(
        eval("9223372036854775807 + \"\""),
        Ok(Some(string("9223372036854775807")))
    );
    assert_eq!(eval("0 + \"\""), Ok(Some(string("0"))));
}

#[test]
fn two_strings_cannot_be_combined() {
    assert_eq!(
        eval("\"a\" + \"b\""),
        Err(Error::Runtime(RuntimeError::UnsupportedOperands(Operation::Addition)))
    );
    assert_eq!(
        eval("\"a\" * \"b\""),
        Err(Error::Runtime(RuntimeError::UnsupportedOperands(
            Operation::Multiplication
        )))
    );
}

#[test]
fn overflow_is_reported() {
    assert_eq!(
        eval("9223372036854775807 + 1"),
        Err(Error::Runtime(RuntimeError::Overflow(Operation::Addition)))
    );
    assert_eq!(
        eval("4611686018427387904 * 2"),
        Err(Error::Runtime(RuntimeError::Overflow(Operation::Multiplication)))
    );
    assert_eq!(
        eval("-4611686018427387904 * 2"),
        Ok(Some(Value::Number(i64::MIN)))
    );
}

#[test]
fn lexing_twice_gives_the_same_tokens() {
    let line = "let greeting = \"hi there\" * 2";
    let mut lexer = Lexer::new(line);
    let first = lexer.tokens();
    let second = lexer.tokens();
    assert_eq!(first, second);
    assert_eq!(first, lex(line));
    assert_eq!(
        first,
        vec![
            Token::Let,
            Token::Identifier("greeting".to_string()),
            Token::Equals,
            Token::String("hi there".to_string()),
            Token::Star,
            Token::Number(2),
        ]
    );
}

#[test]
fn lexer_word_rules() {
    assert_eq!(lex("let"), vec![Token::Let]);
    assert_eq!(lex("lets"), vec![Token::Identifier("lets".to_string())]);
    assert_eq!(lex("-7"), vec![Token::Number(-7)]);
    assert_eq!(lex("-"), vec![Token::Identifier("-".to_string())]);
    assert_eq!(lex("x1"), vec![Token::Identifier("x1".to_string())]);
    assert_eq!(
        lex("9223372036854775808"),
        vec![Token::Identifier("9223372036854775808".to_string())]
    );
    assert_eq!(lex("-9223372036854775808"), vec![Token::Number(i64::MIN)]);
    assert_eq!(lex(""), vec![]);
    assert_eq!(lex("   "), vec![]);
}

#[test]
fn operators_do_not_end_a_word() {
    assert_eq!(
        lex("a+b"),
        vec![Token::Plus, Token::Identifier("ab".to_string())]
    );
    assert_eq!(
        lex("1*2 =3"),
        vec![Token::Star, Token::Number(12), Token::Equals, Token::Number(3)]
    );
}

#[test]
fn string_literals_are_verbatim() {
    assert_eq!(
        lex("\"a b\\n\" x"),
        vec![
            Token::String("a b\\n".to_string()),
            Token::Identifier("x".to_string())
        ]
    );
    assert_eq!(lex("\"open"), vec![Token::String("open".to_string())]);
    assert_eq!(lex("\"\""), vec![Token::String(String::new())]);
    assert_eq!(lex("\"é ü\""), vec![Token::String("é ü".to_string())]);
}

#[test]
fn lone_term_keeps_its_value() {
    assert_eq!(eval("42"), Ok(Some(Value::Number(42))));
    assert_eq!(eval("\"text\""), Ok(Some(string("text"))));
    assert_eq!(eval("let n = 7\nn"), Ok(Some(Value::Number(7))));
    let mut stream = TokenStream::new(lex("42"));
    assert_eq!(
        Expression::parse(&mut stream),
        Ok(Expression::Term(Term::Value(Value::Number(42))))
    );
}

#[test]
fn latest_binding_wins() {
    assert_eq!(
        eval("let x = 1\nlet x = \"two\"\nx"),
        Ok(Some(string("two")))
    );
    assert_eq!(eval("let x = 2\nlet x = x * x\nx"), Ok(Some(Value::Number(4))));
}

#[test]
fn assignment_last_keeps_earlier_result() {
    assert_eq!(eval("1 + 1\nlet y = 3"), Ok(Some(Value::Number(2))));
    assert_eq!(eval("let y = 3"), Ok(None));
    assert_eq!(eval(""), Ok(None));
    assert_eq!(eval("\n  \n\t\n"), Ok(None));
}

#[test]
fn crlf_lines_are_trimmed() {
    assert_eq!(eval("let a = 2\r\na * 5\r\n"), Ok(Some(Value::Number(10))));
}

#[test]
fn trailing_tokens_are_ignored() {
    assert_eq!(eval("1 + 2 + 3"), Ok(Some(Value::Number(3))));
    assert_eq!(eval("2 * 3 junk"), Ok(Some(Value::Number(6))));
}

#[test]
fn syntax_errors() {
    assert_eq!(eval("1 2"), Err(Error::Syntax(SyntaxError::ExpectedOperation)));
    assert_eq!(eval("1 +"), Err(Error::Syntax(SyntaxError::UnexpectedEnd)));
    assert_eq!(eval("+ 1"), Err(Error::Syntax(SyntaxError::ExpectedTerm)));
    assert_eq!(eval("let"), Err(Error::Syntax(SyntaxError::ExpectedIdentifier)));
    assert_eq!(eval("let 5 = 1"), Err(Error::Syntax(SyntaxError::ExpectedIdentifier)));
    assert_eq!(eval("let x"), Err(Error::Syntax(SyntaxError::ExpectedEquals)));
    assert_eq!(eval("let x 1"), Err(Error::Syntax(SyntaxError::ExpectedEquals)));
    assert_eq!(eval("let x ="), Err(Error::Syntax(SyntaxError::UnexpectedEnd)));
    let mut empty = TokenStream::new(vec![]);
    assert_eq!(Statement::parse(&mut empty), Err(SyntaxError::UnexpectedEnd));
}

#[test]
fn first_error_stops_the_run() {
    assert_eq!(
        eval("let a = 1\nb\nlet b = 2\nb"),
        Err(Error::Runtime(RuntimeError::VariableNotFound("b".to_string())))
    );
}

#[test]
fn statement_parse_and_evaluate() {
    let mut stream = TokenStream::new(lex("let x = 4 * y"));
    let statement = Statement::parse(&mut stream).unwrap();
    assert_eq!(
        statement,
        Statement::Assignment {
            name: "x".to_string(),
            value: Expression::Binary {
                left: Term::Value(Value::Number(4)),
                op: Operation::Multiplication,
                right: Term::Variable {
                    name: "y".to_string()
                },
            },
        }
    );
    let mut scope = Scope::new();
    assert_eq!(
        statement.evaluate(&mut scope),
        Err(RuntimeError::VariableNotFound("y".to_string()))
    );
    assert_eq!(scope.get("x"), None);
    scope.set("y", Value::Number(5));
    assert_eq!(statement.evaluate(&mut scope), Ok(None));
    assert_eq!(scope.get("x"), Some(Value::Number(20)));
}

#[test]
fn scope_last_write_wins() {
    let mut scope = Scope::new();
    assert_eq!(scope.get("a"), None);
    scope.set("a", Value::Number(1));
    scope.set("b", string("bee"));
    scope.set("a", string("again"));
    assert_eq!(scope.get("a"), Some(string("again")));
    assert_eq!(scope.get("b"), Some(string("bee")));
    assert_eq!(scope.get("c"), None);
}

#[test]
fn value_operators() {
    assert_eq!(Value::Number(3).add(Value::Number(4)), Ok(Value::Number(7)));
    assert_eq!(Value::Number(3).mul(Value::Number(-4)), Ok(Value::Number(-12)));
    assert_eq!(Value::Number(-3).add(string("x")), Ok(string("-3x")));
    assert_eq!(string("x").add(Value::Number(10)), Ok(string("x10")));
    assert_eq!(Value::Number(3).mul(string("ab")), Ok(string("ababab")));
}

#[test]
fn term_evaluation() {
    let mut scope = Scope::new();
    scope.set("k", Value::Number(9));
    let named = Term::Variable {
        name: "k".to_string(),
    };
    assert_eq!(named.evaluate(&scope), Ok(Value::Number(9)));
    let literal = Term::Value(string("lit"));
    assert_eq!(literal.evaluate(&scope), Ok(string("lit")));
}
