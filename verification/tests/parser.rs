use slang::expression::{BinaryOperator, Expression, UnaryOperator};
use slang::float::Float;
use slang::lexer::Lexer;
use slang::parser::{Parser, ParserError};
use slang::source::{GeneralLocation, Source};
use slang::statement::Statement;
use slang::token::TokenKind;
use slang::token_stream::TokenStream;
use slang::value::Value;

fn literal(text: String) -> Float {
    Float { bits: text.parse::<f64>().unwrap().to_bits() }
}

fn parse(text: &str) -> Result<Vec<Statement>, Vec<ParserError>> {
    let (tokens, errors) = Lexer::new(Source::new(text)).lex(literal);
    assert!(errors.is_empty(), "{:?}", errors);
    Parser::new(TokenStream::new(tokens)).parse()
}

fn program(text: &str) -> Vec<Statement> {
    match parse(text) {
        Ok(statements) => statements,
        Err(errors) => panic!("{:?}", errors),
    }
}

fn expression(text: &str) -> Expression {
    let mut statements = program(text);
    assert_eq!(statements.len(), 1);
    match statements.remove(0) {
        Statement::Expression(expression) => expression,
        _ => panic!("expected an expression statement"),
    }
}

fn errors(text: &str) -> Vec<ParserError> {
    match parse(text) {
        Ok(_) => panic!("expected the parse to fail"),
        Err(errors) => errors,
    }
}

/// Writes an expression with a pair of brackets around every operation.
fn show(expression: &Expression) -> String {
    match expression {
        Expression::Ternary { condition, left, right } => {
            format!("[{} ? {} : {}]", show(condition), show(left), show(right))
        },
        Expression::Binary { left, operator, right } => {
            format!("[{} {} {}]", show(left), operator.raw(), show(right))
        },
        Expression::Unary { operator, operand } => format!("[{}{}]", operator.raw(), show(operand)),
        Expression::Call { function, arguments } => {
            let arguments: Vec<String> = arguments.iter().map(|argument| show(argument)).collect();
            format!("{}({})", show(function), arguments.join(", "))
        },
        Expression::Assignment { identifier, value } => format!("[{} = {}]", identifier, show(value)),
        Expression::Grouping { contained } => format!("({})", show(contained)),
        Expression::Literal { value } => match value {
            Value::String(string) => format!("{:?}", string),
            Value::Float(float) => format!("{:?}", f64::from_bits(float.bits)),
            Value::Integer(integer) => format!("{}", integer),
            Value::Boolean(boolean) => format!("{}", boolean),
            _ => panic!("not a literal"),
        },
        Expression::Variable { identifier } => identifier.clone(),
        Expression::GetField { object, field } => format!("{}.{}", show(object), field),
        Expression::SetField { object, field, value } => {
            format!("[{}.{} = {}]", show(object), field, show(value))
        },
        Expression::Object(entries) => {
            let entries: Vec<String> =
                entries.iter().map(|(name, value)| format!("{}: {}", name, show(value))).collect();
            format!("{{{}}}", entries.join(", "))
        },
    }
}

fn shown(text: &str) -> String {
    show(&expression(text))
}

#[test]
fn operators_bind_by_precedence() {
    assert_eq!(shown("1 + 2 * 3;"), "[1 + [2 * 3]]");
    assert_eq!(shown("1 * 2 + 3;"), "[[1 * 2] + 3]");
    assert_eq!(shown("1 + 2 & 3 < 4 == true && b;"), "[[[[[1 + 2] & 3] < 4] == true] && b]");
    assert_eq!(shown("a || b && c;"), "[[a || b] && c]");
    assert_eq!(shown("a | b & c;"), "[[a | b] & c]");
    assert_eq!(shown("-a * b;"), "[[-a] * b]");
    assert_eq!(shown("!a == b;"), "[[!a] == b]");
    assert_eq!(shown("-a ^ b;"), "[-[a ^ b]]");
    assert_eq!(shown("a.b ^ c.d(e);"), "[a.b ^ c.d(e)]");
}

#[test]
fn operators_of_one_level_group_to_the_left() {
    assert_eq!(shown("1 - 2 - 3;"), "[[1 - 2] - 3]");
    assert_eq!(shown("8 / 4 / 2 * 3;"), "[[[8 / 4] / 2] * 3]");
    assert_eq!(shown("a < b >= c;"), "[[a < b] >= c]");
    assert_eq!(shown("a == b != c;"), "[[a == b] != c]");
}

#[test]
fn exponent_and_assignment_group_to_the_right() {
    assert_eq!(shown("2 ^ 3 ^ 4;"), "[2 ^ [3 ^ 4]]");
    assert_eq!(shown("a = b = 1 + 2;"), "[a = [b = [1 + 2]]]");
    assert_eq!(shown("a.b.c = d = 2;"), "[a.b.c = [d = 2]]");
}

#[test]
fn grouping_is_kept() {
    assert_eq!(shown("(1 + 2) * 3;"), "[([1 + 2]) * 3]");
    assert_eq!(shown("((a));"), "((a))");
    assert_eq!(shown("-(a + b);"), "[-([a + b])]");
}

#[test]
fn ternary_takes_logical_operands() {
    assert_eq!(shown("a && b ? 1 + 2 : c || d;"), "[[a && b] ? [1 + 2] : [c || d]]");
    assert_eq!(shown("x = a ? 1 : 2;"), "[x = [a ? 1 : 2]]");
}

#[test]
fn calls_and_field_reads_chain() {
    assert_eq!(shown("f();"), "f()");
    assert_eq!(shown("f(1, a + b, g(2));"), "f(1, [a + b], g(2))");
    assert_eq!(shown("a.b.c;"), "a.b.c");
    assert_eq!(shown("a.b(1).c(2)(3);"), "a.b(1).c(2)(3)");
    assert_eq!(shown("(f)(x = 1);"), "(f)([x = 1])");
}

#[test]
fn literals_keep_their_values() {
    assert_eq!(shown("\"text\";"), "\"text\"");
    assert_eq!(shown("1.5;"), "1.5");
    assert_eq!(shown("12;"), "12");
    assert_eq!(shown("true;"), "true");
    assert_eq!(shown("false;"), "false");
}

#[test]
fn record_literals_keep_their_fields_in_order() {
    assert_eq!(shown("x = {};"), "[x = {}]");
    assert_eq!(shown("x = { b: 1, a: { c: f(2) }, b: 3 };"), "[x = {b: 1, a: {c: f(2)}, b: 3}]");
    assert_eq!(shown("f({ a: 1 }).a;"), "f({a: 1}).a");
}

#[test]
fn statements_take_their_forms() {
    let statements = program(
        "let a; let b = 1; fu f(x, y) { return x; } fu g() { return; } if a { } else if b { } \
         else { a; } while a { b = 2; } { } a;",
    );
    assert_eq!(statements.len(), 8);
    match &statements[0] {
        Statement::VariableDeclaration { identifier, initialiser } => {
            assert_eq!(identifier, "a");
            assert!(initialiser.is_none());
        },
        _ => panic!("expected a declaration"),
    }
    match &statements[1] {
        Statement::VariableDeclaration { identifier, initialiser } => {
            assert_eq!(identifier, "b");
            assert_eq!(show(initialiser.as_ref().unwrap()), "1");
        },
        _ => panic!("expected a declaration"),
    }
    match &statements[2] {
        Statement::FunctionDefinition { identifier, parameters, block } => {
            assert_eq!(identifier, "f");
            assert_eq!(**parameters, vec!["x".to_string(), "y".to_string()]);
            match &**block {
                Statement::Block(body) => {
                    assert_eq!(body.len(), 1);
                    match &body[0] {
                        Statement::Return(Some(value)) => assert_eq!(show(value), "x"),
                        _ => panic!("expected a return"),
                    }
                },
                _ => panic!("expected a block"),
            }
        },
        _ => panic!("expected a definition"),
    }
    match &statements[3] {
        Statement::FunctionDefinition { parameters, block, .. } => {
            assert!(parameters.is_empty());
            match &**block {
                Statement::Block(body) => assert!(matches!(body[0], Statement::Return(None))),
                _ => panic!("expected a block"),
            }
        },
        _ => panic!("expected a definition"),
    }
    match &statements[4] {
        Statement::IfStatement { condition, execute_if_true, execute_if_false } => {
            assert_eq!(show(condition), "a");
            assert!(matches!(**execute_if_true, Statement::Block(_)));
            match execute_if_false.as_deref() {
                Some(Statement::IfStatement { condition, execute_if_false, .. }) => {
                    assert_eq!(show(condition), "b");
                    assert!(matches!(execute_if_false.as_deref(), Some(Statement::Block(_))));
                },
                _ => panic!("expected an else-if"),
            }
        },
        _ => panic!("expected an if-statement"),
    }
    match &statements[5] {
        Statement::WhileLoop { condition, block } => {
            assert_eq!(show(condition), "a");
            assert!(matches!(**block, Statement::Block(_)));
        },
        _ => panic!("expected a while-loop"),
    }
    assert!(matches!(&statements[6], Statement::Block(body) if body.is_empty()));
    assert!(matches!(&statements[7], Statement::Expression(_)));
}

#[test]
fn unary_operators_are_minus_and_not() {
    match expression("-a;") {
        Expression::Unary { operator, .. } => assert_eq!(operator, UnaryOperator::Minus),
        _ => panic!("expected a unary expression"),
    }
    match expression("!a;") {
        Expression::Unary { operator, .. } => assert_eq!(operator, UnaryOperator::NOT),
        _ => panic!("expected a unary expression"),
    }
    let found = errors("* a;");
    assert_eq!(found.len(), 1);
    match &found[0] {
        ParserError::UnsupportedUnaryExpression { operator, location } => {
            assert_eq!(*operator, BinaryOperator::Multiply);
            match location {
                GeneralLocation::Location(location) => assert_eq!(location.index, 0),
                GeneralLocation::EndOfFile => panic!("expected a location"),
            }
        },
        other => panic!("expected an unsupported operator, found {:?}", other),
    }
}

#[test]
fn missing_token_is_reported_where_it_is_missed() {
    let found = errors("let x = 1");
    assert_eq!(found.len(), 1);
    match &found[0] {
        ParserError::ExpectedToken { expected, location } => {
            assert_eq!(*expected, vec![TokenKind::Semicolon]);
            assert_eq!(*location, GeneralLocation::EndOfFile);
        },
        other => panic!("expected a missing token, found {:?}", other),
    }
    let found = errors("let = 1;");
    match &found[0] {
        ParserError::ExpectedToken { expected, location } => {
            assert_eq!(*expected, vec![TokenKind::Identifier]);
            match location {
                GeneralLocation::Location(location) => {
                    assert_eq!((location.index, location.line, location.column), (4, 1, 5));
                },
                GeneralLocation::EndOfFile => panic!("expected a location"),
            }
        },
        other => panic!("expected a missing token, found {:?}", other),
    }
    let found = errors("if a { } else 1;");
    match &found[0] {
        ParserError::ExpectedToken { expected, .. } => {
            assert_eq!(*expected, vec![TokenKind::If, TokenKind::LeftBrace]);
        },
        other => panic!("expected a missing token, found {:?}", other),
    }
    let found = errors("1 + ;");
    match &found[0] {
        ParserError::ExpectedToken { expected, .. } => {
            assert_eq!(
                *expected,
                vec![
                    TokenKind::LeftParenthesis,
                    TokenKind::String,
                    TokenKind::Float,
                    TokenKind::Integer,
                    TokenKind::Boolean,
                    TokenKind::Identifier,
                    TokenKind::LeftBrace,
                ]
            );
        },
        other => panic!("expected a missing token, found {:?}", other),
    }
}

#[test]
fn only_variables_and_fields_can_be_assigned_to() {
    let found = errors("1 = 2;");
    assert_eq!(found.len(), 1);
    match &found[0] {
        ParserError::InvalidAssignmentTarget(location) => assert_eq!(location.index, 2),
        other => panic!("expected an invalid target, found {:?}", other),
    }
    assert!(matches!(errors("f() = 2;")[0], ParserError::InvalidAssignmentTarget(_)));
    assert!(matches!(errors("(a) = 2;")[0], ParserError::InvalidAssignmentTarget(_)));
}

#[test]
fn parsing_goes_on_after_an_error() {
    let found = errors("let = 1; let b = ; let c = 3; return");
    assert_eq!(found.len(), 3);
    assert!(parse("let a = 1; let b = 2;").is_ok());
    assert!(parse("").unwrap().is_empty());
}
