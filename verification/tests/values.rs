use slang::expression::{BinaryOperator, EvaluationError, UnaryOperator};
use slang::float::Float;
use slang::host::Host;
use slang::operation::{binary_operation, integer_power, unary_operation};
use slang::render::render;
use slang::stats::Logger;
use slang::text::{decimal_text, integer_text};
use slang::token::{Token, TokenData, TokenKind};
use slang::source::Location;
use slang::value::{Function, NativeFunction, Pointer, Type, Value};
use std::rc::Rc;

fn arithmetic(operator: BinaryOperator, left: Float, right: Float) -> Float {
    let left = f64::from_bits(left.bits);
    let right = f64::from_bits(right.bits);
    let result = match operator {
        BinaryOperator::Add => left + right,
        BinaryOperator::Subtract => left - right,
        BinaryOperator::Multiply => left * right,
        BinaryOperator::Divide => left / right,
        _ => left.powf(right),
    };
    Float { bits: result.to_bits() }
}

fn display(float: Float) -> String {
    format!("{}", f64::from_bits(float.bits))
}

type Arithmetic = fn(BinaryOperator, Float, Float) -> Float;
type Display = fn(Float) -> String;

fn host() -> Host<Arithmetic, Display> {
    Host::new(arithmetic as Arithmetic, display as Display)
}

fn float(number: f64) -> Float {
    Float { bits: number.to_bits() }
}

#[test]
fn slang_type_names_the_kind_of_value() {
    assert_eq!(Value::String(String::new()).slang_type(), Type::String);
    assert_eq!(Value::Float(float(1.0)).slang_type(), Type::Float);
    assert_eq!(Value::Integer(1).slang_type(), Type::Integer);
    assert_eq!(Value::Boolean(true).slang_type(), Type::Boolean);
    assert_eq!(Value::Function(Function::Native(NativeFunction::Print)).slang_type(), Type::Function);
    assert_eq!(Value::ObjectReference(Pointer { slot: 0 }).slang_type(), Type::Object);
    assert_eq!(Value::Object(vec![]).slang_type(), Type::Object);
}

#[test]
fn clone_copies_values_and_shares_functions() {
    let record = Value::Object(vec![
        ("a".to_string(), Value::String("text".to_string())),
        ("b".to_string(), Value::Object(vec![("c".to_string(), Value::Integer(1))])),
    ]);
    match record.clone() {
        Value::Object(fields) => {
            assert_eq!(fields.len(), 2);
            assert_eq!(fields[0].0, "a");
            assert!(matches!(&fields[0].1, Value::String(text) if text == "text"));
            assert!(matches!(&fields[1].1, Value::Object(inner) if inner.len() == 1));
        },
        _ => panic!("expected a record"),
    }
    let parameters = Rc::new(vec!["x".to_string()]);
    let block = Rc::new(slang::statement::Statement::Block(vec![]));
    let function = Function::UserDefined { parameters: parameters.clone(), block };
    match function.clone() {
        Function::UserDefined { parameters: copied, .. } => {
            assert!(Rc::ptr_eq(&copied, &parameters));
            assert_eq!(Rc::strong_count(&parameters), 3);
        },
        _ => panic!("expected a user function"),
    }
}

#[test]
fn operators_are_written_as_in_source_code() {
    let binary = [
        (BinaryOperator::Add, "+"),
        (BinaryOperator::Subtract, "-"),
        (BinaryOperator::Multiply, "*"),
        (BinaryOperator::Divide, "/"),
        (BinaryOperator::Exponent, "^"),
        (BinaryOperator::EqualTo, "=="),
        (BinaryOperator::NotEqualTo, "!="),
        (BinaryOperator::GreaterThan, ">"),
        (BinaryOperator::GreaterThanOrEqualTo, ">="),
        (BinaryOperator::LessThan, "<"),
        (BinaryOperator::LessThanOrEqualTo, "<="),
        (BinaryOperator::AND, "&&"),
        (BinaryOperator::OR, "||"),
        (BinaryOperator::BitwiseAND, "&"),
        (BinaryOperator::BitwiseOR, "|"),
    ];
    for (operator, raw) in binary {
        assert_eq!(operator.raw(), raw);
    }
    assert_eq!(UnaryOperator::Minus.raw(), "-");
    assert_eq!(UnaryOperator::NOT.raw(), "!");
}

#[test]
fn token_kinds_stand_for_operators() {
    assert_eq!(TokenKind::Plus.binary_operator(), Some(BinaryOperator::Add));
    assert_eq!(TokenKind::Minus.binary_operator(), Some(BinaryOperator::Subtract));
    assert_eq!(TokenKind::Star.binary_operator(), Some(BinaryOperator::Multiply));
    assert_eq!(TokenKind::Slash.binary_operator(), Some(BinaryOperator::Divide));
    assert_eq!(TokenKind::DoubleEqual.binary_operator(), Some(BinaryOperator::EqualTo));
    assert_eq!(TokenKind::BangEqual.binary_operator(), Some(BinaryOperator::NotEqualTo));
    assert_eq!(TokenKind::Greater.binary_operator(), Some(BinaryOperator::GreaterThan));
    assert_eq!(
        TokenKind::GreaterEqual.binary_operator(),
        Some(BinaryOperator::GreaterThanOrEqualTo)
    );
    assert_eq!(TokenKind::Less.binary_operator(), Some(BinaryOperator::LessThan));
    assert_eq!(TokenKind::LessEqual.binary_operator(), Some(BinaryOperator::LessThanOrEqualTo));
    assert_eq!(TokenKind::Ampersand.binary_operator(), Some(BinaryOperator::BitwiseAND));
    assert_eq!(TokenKind::DoubleAmpersand.binary_operator(), Some(BinaryOperator::AND));
    assert_eq!(TokenKind::Pipe.binary_operator(), Some(BinaryOperator::BitwiseOR));
    assert_eq!(TokenKind::DoublePipe.binary_operator(), Some(BinaryOperator::OR));
    assert_eq!(TokenKind::Exponent.binary_operator(), None);
    assert_eq!(TokenKind::Bang.binary_operator(), None);
    assert_eq!(TokenKind::Identifier.binary_operator(), None);
    assert_eq!(TokenKind::Minus.unary_operator(), Some(UnaryOperator::Minus));
    assert_eq!(TokenKind::Bang.unary_operator(), Some(UnaryOperator::NOT));
    assert_eq!(TokenKind::Plus.unary_operator(), None);
}

#[test]
fn token_hands_out_its_parts() {
    let location = Location { index: 3, line: 2, column: 1 };
    let token = Token::new(TokenData::Integer(5), location);
    assert_eq!(token.kind(), TokenKind::Integer);
    assert_eq!(token.location(), location);
    assert!(matches!(token.data(), TokenData::Integer(5)));
    assert_eq!(TokenData::String("s".to_string()).kind(), TokenKind::String);
    assert_eq!(TokenData::Identifier("s".to_string()).kind(), TokenKind::Identifier);
    assert_eq!(TokenData::Float(float(1.0)).kind(), TokenKind::Float);
    assert_eq!(TokenData::Boolean(true).kind(), TokenKind::Boolean);
    assert_eq!(TokenData::DoublePipe.kind(), TokenKind::DoublePipe);
    assert_eq!(TokenData::Fu.kind(), TokenKind::Fu);
}

#[test]
fn numbers_are_written_in_decimal() {
    assert_eq!(decimal_text(0), "0");
    assert_eq!(decimal_text(7), "7");
    assert_eq!(decimal_text(10), "10");
    assert_eq!(decimal_text(1234567890), "1234567890");
    assert_eq!(decimal_text(u64::MAX), "18446744073709551615");
    assert_eq!(integer_text(0), "0");
    assert_eq!(integer_text(-1), "-1");
    assert_eq!(integer_text(i32::MAX), "2147483647");
    assert_eq!(integer_text(i32::MIN), "-2147483648");
}

#[test]
fn values_are_rendered_as_text() {
    let host = host();
    assert_eq!(render(&host, &Value::String("as it is".to_string())), "as it is");
    assert_eq!(render(&host, &Value::Integer(-40)), "-40");
    assert_eq!(render(&host, &Value::Float(float(0.1 + 0.2))), "0.30000000000000004");
    assert_eq!(render(&host, &Value::Boolean(false)), "false");
    assert_eq!(render(&host, &Value::Object(vec![])), "{  }");
    assert_eq!(
        render(&host, &Value::Object(vec![("only".to_string(), Value::Integer(1))])),
        "{ only }"
    );
    assert_eq!(render(&host, &Value::ObjectReference(Pointer { slot: 0 })), "<object reference>");
    let eleven: Vec<String> = (0..11).map(|i| format!("p{}", i)).collect();
    let function = Function::UserDefined {
        parameters: Rc::new(eleven),
        block: Rc::new(slang::statement::Statement::Block(vec![])),
    };
    assert_eq!(render(&host, &Value::Function(function)), "<function with 11 named parameters>");
}

#[test]
fn float_decisions_follow_the_number_and_not_the_bits() {
    let zero = float(0.0);
    let minus_zero = float(-0.0);
    let nan = float(f64::NAN);
    let numbers = [-f64::INFINITY, -2.5, -1.0e-300, -0.0, 0.0, 5e-324, 1.0, 2.5, f64::INFINITY];
    for a in numbers {
        for b in numbers {
            assert_eq!(float(a).equals(float(b)), a == b, "{} == {}", a, b);
            assert_eq!(float(a).less_than(float(b)), a < b, "{} < {}", a, b);
        }
        assert!(!float(a).equals(nan) && !nan.equals(float(a)));
        assert!(!float(a).less_than(nan) && !nan.less_than(float(a)));
        assert_eq!(float(a).negate().bits, (-a).to_bits());
        assert_eq!(float(a).is_zero(), a == 0.0);
        assert!(!float(a).is_nan());
    }
    assert!(zero.equals(minus_zero));
    assert!(nan.is_nan());
    assert!(!nan.equals(nan));
    assert!(float(-f64::NAN).is_nan());
    assert!(!zero.is_nan() && zero.is_zero() && minus_zero.is_zero());
}

#[test]
fn integer_power_multiplies_and_wraps() {
    assert_eq!(integer_power(2, 0), 1);
    assert_eq!(integer_power(0, 0), 1);
    assert_eq!(integer_power(2, 10), 1024);
    assert_eq!(integer_power(-3, 3), -27);
    assert_eq!(integer_power(2, 31), i32::MIN);
    assert_eq!(integer_power(2, 32), 0);
    assert_eq!(integer_power(3, 21), 3i32.wrapping_pow(21));
    assert_eq!(integer_power(7, 13), 7i32.wrapping_pow(13));
}

#[test]
fn binary_operation_applies_an_operator_to_two_values() {
    let host = host();
    assert!(matches!(
        binary_operation(&host, BinaryOperator::Add, Value::Integer(2), Value::Integer(3)),
        Ok(Value::Integer(5))
    ));
    match binary_operation(
        &host,
        BinaryOperator::Add,
        Value::String("ab".to_string()),
        Value::String("cd".to_string()),
    ) {
        Ok(Value::String(joined)) => assert_eq!(joined, "abcd"),
        _ => panic!("expected a string"),
    }
    assert!(matches!(
        binary_operation(&host, BinaryOperator::Divide, Value::Integer(i32::MIN), Value::Integer(-1)),
        Ok(Value::Integer(i32::MIN))
    ));
    assert!(matches!(
        binary_operation(&host, BinaryOperator::Divide, Value::Integer(-7), Value::Integer(2)),
        Ok(Value::Integer(-3))
    ));
    assert!(matches!(
        binary_operation(&host, BinaryOperator::Multiply, Value::Integer(65536), Value::Integer(65536)),
        Ok(Value::Integer(0))
    ));
    assert!(matches!(
        binary_operation(&host, BinaryOperator::Subtract, Value::Integer(i32::MIN), Value::Integer(1)),
        Ok(Value::Integer(i32::MAX))
    ));
    assert!(matches!(
        binary_operation(&host, BinaryOperator::AND, Value::Boolean(true), Value::Boolean(false)),
        Ok(Value::Boolean(false))
    ));
    assert!(matches!(
        binary_operation(&host, BinaryOperator::OR, Value::Boolean(true), Value::Integer(1)),
        Err(EvaluationError::InvalidBinaryTypes { left: Type::Boolean, right: Some(Type::Integer), .. })
    ));
    match binary_operation(
        &host,
        BinaryOperator::Multiply,
        Value::Float(float(1.5)),
        Value::Float(float(4.0)),
    ) {
        Ok(Value::Float(product)) => assert_eq!(f64::from_bits(product.bits), 6.0),
        _ => panic!("expected a float"),
    }
    assert!(matches!(
        binary_operation(&host, BinaryOperator::Add, Value::Integer(1), Value::Float(float(1.0))),
        Err(EvaluationError::InvalidBinaryTypes { left: Type::Integer, right: Some(Type::Float), .. })
    ));
    assert!(matches!(
        binary_operation(&host, BinaryOperator::EqualTo, Value::Object(vec![]), Value::Object(vec![])),
        Err(EvaluationError::InvalidBinaryTypes { left: Type::Object, .. })
    ));
}

#[test]
fn unary_operation_applies_an_operator_to_a_value() {
    assert!(matches!(unary_operation(UnaryOperator::Minus, Value::Integer(5)), Ok(Value::Integer(-5))));
    assert!(matches!(
        unary_operation(UnaryOperator::Minus, Value::Integer(i32::MIN)),
        Ok(Value::Integer(i32::MIN))
    ));
    assert!(matches!(unary_operation(UnaryOperator::NOT, Value::Integer(0)), Ok(Value::Integer(-1))));
    assert!(matches!(
        unary_operation(UnaryOperator::NOT, Value::Integer(i32::MAX)),
        Ok(Value::Integer(i32::MIN))
    ));
    assert!(matches!(
        unary_operation(UnaryOperator::NOT, Value::Boolean(true)),
        Ok(Value::Boolean(false))
    ));
    match unary_operation(UnaryOperator::Minus, Value::Float(float(2.5))) {
        Ok(Value::Float(negated)) => assert_eq!(f64::from_bits(negated.bits), -2.5),
        _ => panic!("expected a float"),
    }
    assert!(matches!(
        unary_operation(UnaryOperator::Minus, Value::Boolean(true)),
        Err(EvaluationError::InvalidUnaryType { operator: UnaryOperator::Minus, operand: Type::Boolean })
    ));
    assert!(matches!(
        unary_operation(UnaryOperator::NOT, Value::Float(float(1.0))),
        Err(EvaluationError::InvalidUnaryType { operator: UnaryOperator::NOT, operand: Type::Float })
    ));
}

#[test]
fn logger_stamps_samples_with_the_latest_reading() {
    let mut logger = Logger::new();
    assert!(logger.entries().is_empty());
    logger.new_entry(3, 1);
    logger.record_memory_usage(Some(1000));
    logger.new_entry(4, 2);
    logger.record_memory_usage(None);
    logger.new_entry(5, 3);
    let entries = logger.entries();
    assert_eq!(entries.len(), 3);
    assert_eq!(
        (entries[0].heap_objects_count, entries[0].stack_frames_count, entries[0].memory_usage),
        (3, 1, None)
    );
    assert_eq!(
        (entries[1].heap_objects_count, entries[1].stack_frames_count, entries[1].memory_usage),
        (4, 2, Some(1000))
    );
    assert_eq!(entries[2].memory_usage, None);
    assert!(entries[0].elapsed <= entries[2].elapsed);
}

#[test]
fn host_prints_lines_in_order() {
    let mut host = host();
    host.print("one".to_string());
    host.print(String::new());
    assert_eq!(host.output, vec!["one", ""]);
    assert_eq!(f64::from_bits(host.compute(BinaryOperator::Exponent, float(2.0), float(3.0)).bits), 8.0);
    assert_eq!(host.show(float(1.25)), "1.25");
}
