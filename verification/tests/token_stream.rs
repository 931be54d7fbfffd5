use slang::expression::{BinaryOperator, UnaryOperator};
use slang::float::Float;
use slang::lexer::Lexer;
use slang::parser::ParserError;
use slang::source::{GeneralLocation, Source};
use slang::token::{TokenData, TokenKind};
use slang::token_stream::TokenStream;

fn literal(text: String) -> Float {
    Float { bits: text.parse::<f64>().unwrap().to_bits() }
}

fn stream(text: &str) -> TokenStream {
    let (tokens, errors) = Lexer::new(Source::new(text)).lex(literal);
    assert!(errors.is_empty());
    TokenStream::new(tokens)
}

#[test]
fn peek_looks_and_advance_consumes() {
    let mut tokens = stream("a + 1");
    assert!(!tokens.at_end());
    assert_eq!(tokens.peek().unwrap().kind(), TokenKind::Identifier);
    assert_eq!(tokens.peek().unwrap().kind(), TokenKind::Identifier);
    match tokens.advance().unwrap().data() {
        TokenData::Identifier(identifier) => assert_eq!(identifier, "a"),
        other => panic!("expected an identifier, found {:?}", other),
    }
    assert_eq!(tokens.advance().unwrap().kind(), TokenKind::Plus);
    assert!(matches!(tokens.advance().unwrap().data(), TokenData::Integer(1)));
    assert!(tokens.at_end());
    assert!(tokens.peek().is_none());
    assert!(tokens.advance().is_none());
    assert_eq!(tokens.location(), GeneralLocation::EndOfFile);
}

#[test]
fn only_take_and_matches_consume_what_is_among_the_targets() {
    let mut tokens = stream("; , x");
    assert!(tokens.only_take(&[TokenKind::Comma, TokenKind::Dot]).is_none());
    assert!(!tokens.matches(&[]));
    let taken = tokens.only_take(&[TokenKind::Comma, TokenKind::Semicolon]).unwrap();
    assert_eq!(taken.kind(), TokenKind::Semicolon);
    assert_eq!(taken.location().index, 0);
    assert!(tokens.matches(&[TokenKind::Comma]));
    assert!(!tokens.matches(&[TokenKind::Comma]));
    assert!(tokens.matches(&[TokenKind::Identifier]));
    assert!(!tokens.matches(&[TokenKind::Identifier]));
    assert!(tokens.only_take(&[TokenKind::Identifier]).is_none());
}

#[test]
fn operators_are_taken_by_what_they_stand_for() {
    let mut tokens = stream("- * !");
    assert!(tokens.binary_operator(&[BinaryOperator::Add]).is_none());
    assert!(tokens.unary_operator(&[UnaryOperator::NOT]).is_none());
    let (operator, location) = tokens.binary_operator(&[BinaryOperator::Subtract]).unwrap();
    assert_eq!(operator, BinaryOperator::Subtract);
    assert_eq!(location.index, 0);
    assert!(tokens.unary_operator(&[UnaryOperator::Minus, UnaryOperator::NOT]).is_none());
    let (operator, location) =
        tokens.binary_operator(&[BinaryOperator::Divide, BinaryOperator::Multiply]).unwrap();
    assert_eq!(operator, BinaryOperator::Multiply);
    assert_eq!(location.index, 2);
    assert!(tokens.binary_operator(&[BinaryOperator::NotEqualTo]).is_none());
    let (operator, location) = tokens.unary_operator(&[UnaryOperator::NOT]).unwrap();
    assert_eq!(operator, UnaryOperator::NOT);
    assert_eq!(location.index, 4);
    assert!(tokens.at_end());
}

#[test]
fn consume_reports_what_it_expected_and_where() {
    let mut tokens = stream("let x");
    match tokens.consume(TokenKind::Fu) {
        Err(ParserError::ExpectedToken { expected, location }) => {
            assert_eq!(expected, vec![TokenKind::Fu]);
            match location {
                GeneralLocation::Location(location) => assert_eq!(location.index, 0),
                GeneralLocation::EndOfFile => panic!("expected a location"),
            }
        },
        _ => panic!("expected a missing token"),
    }
    assert!(tokens.consume_identifier().is_err());
    assert_eq!(tokens.consume(TokenKind::Let).unwrap().kind(), TokenKind::Let);
    assert_eq!(tokens.consume_identifier().unwrap(), "x");
    match tokens.consume_identifier() {
        Err(ParserError::ExpectedToken { expected, location }) => {
            assert_eq!(expected, vec![TokenKind::Identifier]);
            assert_eq!(location, GeneralLocation::EndOfFile);
        },
        _ => panic!("expected a missing token"),
    }
    match tokens.consume(TokenKind::Semicolon) {
        Err(ParserError::ExpectedToken { location, .. }) => {
            assert_eq!(location, GeneralLocation::EndOfFile);
        },
        _ => panic!("expected a missing token"),
    }
}
