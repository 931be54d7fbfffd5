use slang::float::Float;
use slang::lexer::{integer, keyword, Lexer, LexerError};
use slang::source::Source;
use slang::token::{Token, TokenData, TokenKind};

fn literal(text: String) -> Float {
    Float { bits: text.parse::<f64>().unwrap().to_bits() }
}

fn lex(text: &str) -> (Vec<Token>, Vec<LexerError>) {
    Lexer::new(Source::new(text)).lex(literal)
}

fn kinds(text: &str) -> Vec<TokenKind> {
    let (tokens, errors) = lex(text);
    assert!(errors.is_empty(), "{:?}", errors);
    tokens.iter().map(|token| token.kind()).collect()
}

#[test]
fn punctuation_and_operators_are_single_tokens() {
    assert_eq!(
        kinds("( ) { } , . ; ? : + - * / ^ ! != = == > >= < <= & && | ||"),
        vec![
            TokenKind::LeftParenthesis,
            TokenKind::RightParenthesis,
            TokenKind::LeftBrace,
            TokenKind::RightBrace,
            TokenKind::Comma,
            TokenKind::Dot,
            TokenKind::Semicolon,
            TokenKind::QuestionMark,
            TokenKind::Colon,
            TokenKind::Plus,
            TokenKind::Minus,
            TokenKind::Star,
            TokenKind::Slash,
            TokenKind::Exponent,
            TokenKind::Bang,
            TokenKind::BangEqual,
            TokenKind::Equal,
            TokenKind::DoubleEqual,
            TokenKind::Greater,
            TokenKind::GreaterEqual,
            TokenKind::Less,
            TokenKind::LessEqual,
            TokenKind::Ampersand,
            TokenKind::DoubleAmpersand,
            TokenKind::Pipe,
            TokenKind::DoublePipe,
        ]
    );
    assert_eq!(
        kinds("a==b!=c<=d>=e&&f||g"),
        vec![
            TokenKind::Identifier,
            TokenKind::DoubleEqual,
            TokenKind::Identifier,
            TokenKind::BangEqual,
            TokenKind::Identifier,
            TokenKind::LessEqual,
            TokenKind::Identifier,
            TokenKind::GreaterEqual,
            TokenKind::Identifier,
            TokenKind::DoubleAmpersand,
            TokenKind::Identifier,
            TokenKind::DoublePipe,
            TokenKind::Identifier,
        ]
    );
}

#[test]
fn words_are_keywords_booleans_or_identifiers() {
    let (tokens, errors) = lex("let fu if else while return true false lettuce _x a1_B truely");
    assert!(errors.is_empty());
    let data: Vec<TokenData> = tokens.into_iter().map(|token| token.data()).collect();
    assert!(matches!(data[0], TokenData::Let));
    assert!(matches!(data[1], TokenData::Fu));
    assert!(matches!(data[2], TokenData::If));
    assert!(matches!(data[3], TokenData::Else));
    assert!(matches!(data[4], TokenData::While));
    assert!(matches!(data[5], TokenData::Return));
    assert!(matches!(data[6], TokenData::Boolean(true)));
    assert!(matches!(data[7], TokenData::Boolean(false)));
    for (at, word) in [(8, "lettuce"), (9, "_x"), (10, "a1_B"), (11, "truely")] {
        match &data[at] {
            TokenData::Identifier(identifier) => assert_eq!(identifier, word),
            other => panic!("expected an identifier, found {:?}", other),
        }
    }
    assert_eq!(data.len(), 12);
}

#[test]
fn keyword_tells_words_apart() {
    assert!(matches!(keyword("while".to_string()), TokenData::While));
    assert!(matches!(keyword("true".to_string()), TokenData::Boolean(true)));
    match keyword("whiles".to_string()) {
        TokenData::Identifier(identifier) => assert_eq!(identifier, "whiles"),
        other => panic!("expected an identifier, found {:?}", other),
    }
}

#[test]
fn numbers_are_integers_or_floats() {
    let (tokens, errors) = lex("0 42 2147483647 1.5 10.25 7.x 3 .5");
    assert!(errors.is_empty());
    let data: Vec<TokenData> = tokens.into_iter().map(|token| token.data()).collect();
    assert!(matches!(data[0], TokenData::Integer(0)));
    assert!(matches!(data[1], TokenData::Integer(42)));
    assert!(matches!(data[2], TokenData::Integer(2147483647)));
    match data[3] {
        TokenData::Float(float) => assert_eq!(f64::from_bits(float.bits), 1.5),
        _ => panic!("expected a float"),
    }
    match data[4] {
        TokenData::Float(float) => assert_eq!(f64::from_bits(float.bits), 10.25),
        _ => panic!("expected a float"),
    }
    assert!(matches!(data[5], TokenData::Integer(7)));
    assert!(matches!(data[6], TokenData::Dot));
    assert!(matches!(data[7], TokenData::Identifier(_)));
    assert!(matches!(data[8], TokenData::Integer(3)));
    assert!(matches!(data[9], TokenData::Dot));
    assert!(matches!(data[10], TokenData::Integer(5)));
}

#[test]
fn integer_reads_digits_and_checks_the_range() {
    assert_eq!(integer(&"0".to_string()), Some(0));
    assert_eq!(integer(&"0012".to_string()), Some(12));
    assert_eq!(integer(&"2147483647".to_string()), Some(2147483647));
    assert_eq!(integer(&"2147483648".to_string()), None);
    assert_eq!(integer(&"99999999999999999999".to_string()), None);
}

#[test]
fn integer_out_of_range_is_an_error() {
    let (tokens, errors) = lex("let x = 2147483648;");
    assert_eq!(tokens.len(), 4);
    assert_eq!(errors.len(), 1);
    match &errors[0] {
        LexerError::IntegerOutOfRange(location) => {
            assert_eq!((location.index, location.line, location.column), (8, 1, 9));
        },
        other => panic!("expected a range error, found {:?}", other),
    }
}

#[test]
fn strings_keep_their_characters() {
    let (tokens, errors) = lex("\"hello, world\" \"\" \"two\nlines\"");
    assert!(errors.is_empty());
    let texts: Vec<String> = tokens
        .into_iter()
        .map(|token| match token.data() {
            TokenData::String(string) => string,
            other => panic!("expected a string, found {:?}", other),
        })
        .collect();
    assert_eq!(texts, vec!["hello, world", "", "two\nlines"]);
}

#[test]
fn unterminated_string_is_an_error() {
    let (tokens, errors) = lex("let s = \"open");
    assert_eq!(tokens.len(), 3);
    assert_eq!(errors.len(), 1);
    match &errors[0] {
        LexerError::UnterminatedString(location) => assert_eq!(location.index, 8),
        other => panic!("expected an unterminated string, found {:?}", other),
    }
}

#[test]
fn comments_are_skipped() {
    assert_eq!(
        kinds("a // the rest of the line ; b\n/* a block\n * over lines */ c /**/ d"),
        vec![TokenKind::Identifier, TokenKind::Identifier, TokenKind::Identifier]
    );
    assert_eq!(kinds("a / b"), vec![TokenKind::Identifier, TokenKind::Slash, TokenKind::Identifier]);
    assert_eq!(kinds("// only a comment"), vec![]);
}

#[test]
fn unterminated_block_comment_is_an_error() {
    let (tokens, errors) = lex("a /* never closed");
    assert_eq!(tokens.len(), 1);
    assert_eq!(errors.len(), 1);
    match &errors[0] {
        LexerError::UnterminatedBlockComment(location) => {
            assert_eq!((location.index, location.line, location.column), (2, 1, 3));
        },
        other => panic!("expected an unterminated comment, found {:?}", other),
    }
}

#[test]
fn unexpected_characters_are_errors_and_lexing_goes_on() {
    let (tokens, errors) = lex("a # b @ c");
    assert_eq!(tokens.len(), 3);
    assert_eq!(errors.len(), 2);
    match &errors[0] {
        LexerError::UnexpectedCharacter { location, character, expected } => {
            assert_eq!(location.index, 2);
            assert_eq!(*character, '#');
            assert_eq!(*expected, None);
        },
        other => panic!("expected an unexpected character, found {:?}", other),
    }
    match &errors[1] {
        LexerError::UnexpectedCharacter { character, .. } => assert_eq!(*character, '@'),
        other => panic!("expected an unexpected character, found {:?}", other),
    }
}

#[test]
fn tokens_carry_the_location_of_their_first_character() {
    let (tokens, errors) = lex("let x\n  = 12;\n\"s\"");
    assert!(errors.is_empty());
    let places: Vec<(usize, usize, usize)> = tokens
        .iter()
        .map(|token| {
            let location = token.location();
            (location.index, location.line, location.column)
        })
        .collect();
    assert_eq!(places, vec![(0, 1, 1), (4, 1, 5), (8, 2, 3), (10, 2, 5), (12, 2, 7), (14, 3, 1)]);
}

#[test]
fn empty_text_has_no_tokens() {
    let (tokens, errors) = lex("");
    assert!(tokens.is_empty());
    assert!(errors.is_empty());
    let (tokens, errors) = lex(" \t\r\n ");
    assert!(tokens.is_empty());
    assert!(errors.is_empty());
}
