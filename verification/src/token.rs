//! Tokens within the slang programming language.

use crate::expression::{BinaryOperator, UnaryOperator};
use crate::float::Float;
use crate::source::Location;
use vstd::prelude::*;

verus! {

/// The data contained within a token.
///
/// This is similar to [TokenKind], however contains more information. For example, the
/// [TokenData::Integer] variant has an [i32] field which stores the integer that token
/// represents, however [TokenKind::Integer] has no contained fields, and is simply a flag
/// stating that the token represents an integer.
#[derive(Debug)]
pub enum TokenData {
    /// The `(` character.
    LeftParenthesis,
    /// The `)` character.
    RightParenthesis,
    /// The `{` character.
    LeftBrace,
    /// The `}` character.
    RightBrace,
    /// The `,` character.
    Comma,
    /// The `.` character.
    Dot,
    /// The `;` character.
    Semicolon,
    /// The `?` character.
    QuestionMark,
    /// The `:` character.
    Colon,
    /// The `+` character.
    Plus,
    /// The `-` character.
    Minus,
    /// The `*` character.
    Star,
    /// The `/` character.
    Slash,
    /// The `^` character.
    Exponent,
    /// The `!` character.
    Bang,
    /// The `!=` string.
    BangEqual,
    /// The `=` character.
    Equal,
    /// The `==` string.
    DoubleEqual,
    /// The `>` character.
    Greater,
    /// The `>=` string.
    GreaterEqual,
    /// The `<` character.
    Less,
    /// The `<=` string.
    LessEqual,
    /// The `&` character.
    Ampersand,
    /// The `&&` string.
    DoubleAmpersand,
    /// The `|` character.
    Pipe,
    /// The `||` string.
    DoublePipe,
    /// String literals enclosed in `"`.
    String(String),
    /// Floating point numbers, denoted with a `.` separating the integer and fractional parts.
    Float(Float),
    /// Integers.
    Integer(i32),
    /// Either `true` or `false`.
    Boolean(bool),
    /// The `if` string.
    If,
    /// The `else` string.
    Else,
    /// The `while` string.
    While,
    /// The `return` string.
    Return,
    /// The `let` string.
    Let,
    /// The `fu` string.
    Fu,
    /// All valid identifiers.
    ///
    /// Must start with either an alphabetic character or an underscore, with all subsequent
    /// characters being alphanumeric or underscores.
    Identifier(String),
}

/// A flag signalling the type of a token, without any additional data.
#[derive(Debug, PartialEq, Eq, Structural, Clone, Copy)]
pub enum TokenKind {
    LeftParenthesis,
    RightParenthesis,
    LeftBrace,
    RightBrace,
    Comma,
    Dot,
    Semicolon,
    QuestionMark,
    Colon,
    Plus,
    Minus,
    Star,
    Slash,
    Exponent,
    Bang,
    BangEqual,
    Equal,
    DoubleEqual,
    Greater,
    GreaterEqual,
    Less,
    LessEqual,
    Ampersand,
    DoubleAmpersand,
    Pipe,
    DoublePipe,
    String,
    Float,
    Integer,
    Boolean,
    If,
    Else,
    While,
    Return,
    Let,
    Fu,
    Identifier,
}

/// What a token carries beside its kind.
pub enum Payload {
    /// Nothing: the kind says it all.
    Nothing,
    /// The characters of a string or of an identifier.
    Text(Seq<char>),
    Integer(i32),
    Float(Float),
    Boolean(bool),
}

/// What a [`Token`] stands for.
pub struct TokenView {
    pub kind: TokenKind,
    pub payload: Payload,
    pub location: Location,
}

impl TokenData {
    /// What some data carries beside its kind.
    pub open spec fn payload(self) -> Payload {
        match self {
            TokenData::String(string) => Payload::Text(string@),
            TokenData::Identifier(identifier) => Payload::Text(identifier@),
            TokenData::Integer(integer) => Payload::Integer(integer),
            TokenData::Float(float) => Payload::Float(float),
            TokenData::Boolean(boolean) => Payload::Boolean(boolean),
            _ => Payload::Nothing,
        }
    }

    /// The kind of some data.
    pub open spec fn kind_of(self) -> TokenKind {
        match self {
            TokenData::LeftParenthesis => TokenKind::LeftParenthesis,
            TokenData::RightParenthesis => TokenKind::RightParenthesis,
            TokenData::LeftBrace => TokenKind::LeftBrace,
            TokenData::RightBrace => TokenKind::RightBrace,
            TokenData::Comma => TokenKind::Comma,
            TokenData::Dot => TokenKind::Dot,
            TokenData::Semicolon => TokenKind::Semicolon,
            TokenData::QuestionMark => TokenKind::QuestionMark,
            TokenData::Colon => TokenKind::Colon,
            TokenData::Plus => TokenKind::Plus,
            TokenData::Minus => TokenKind::Minus,
            TokenData::Star => TokenKind::Star,
            TokenData::Slash => TokenKind::Slash,
            TokenData::Exponent => TokenKind::Exponent,
            TokenData::Bang => TokenKind::Bang,
            TokenData::BangEqual => TokenKind::BangEqual,
            TokenData::Equal => TokenKind::Equal,
            TokenData::DoubleEqual => TokenKind::DoubleEqual,
            TokenData::Greater => TokenKind::Greater,
            TokenData::GreaterEqual => TokenKind::GreaterEqual,
            TokenData::Less => TokenKind::Less,
            TokenData::LessEqual => TokenKind::LessEqual,
            TokenData::Ampersand => TokenKind::Ampersand,
            TokenData::DoubleAmpersand => TokenKind::DoubleAmpersand,
            TokenData::Pipe => TokenKind::Pipe,
            TokenData::DoublePipe => TokenKind::DoublePipe,
            TokenData::String(_) => TokenKind::String,
            TokenData::Float(_) => TokenKind::Float,
            TokenData::Integer(_) => TokenKind::Integer,
            TokenData::Boolean(_) => TokenKind::Boolean,
            TokenData::If => TokenKind::If,
            TokenData::Else => TokenKind::Else,
            TokenData::While => TokenKind::While,
            TokenData::Return => TokenKind::Return,
            TokenData::Let => TokenKind::Let,
            TokenData::Fu => TokenKind::Fu,
            TokenData::Identifier(_) => TokenKind::Identifier,
        }
    }

    /// Returns the [TokenKind] of some [TokenData].
    pub fn kind(&self) -> (kind: TokenKind)
        ensures
            kind == self.kind_of(),
    {
        match self {
            TokenData::LeftParenthesis => TokenKind::LeftParenthesis,
            TokenData::RightParenthesis => TokenKind::RightParenthesis,
            TokenData::LeftBrace => TokenKind::LeftBrace,
            TokenData::RightBrace => TokenKind::RightBrace,
            TokenData::Comma => TokenKind::Comma,
            TokenData::Dot => TokenKind::Dot,
            TokenData::Semicolon => TokenKind::Semicolon,
            TokenData::QuestionMark => TokenKind::QuestionMark,
            TokenData::Colon => TokenKind::Colon,
            TokenData::Plus => TokenKind::Plus,
            TokenData::Minus => TokenKind::Minus,
            TokenData::Star => TokenKind::Star,
            TokenData::Slash => TokenKind::Slash,
            TokenData::Exponent => TokenKind::Exponent,
            TokenData::Bang => TokenKind::Bang,
            TokenData::BangEqual => TokenKind::BangEqual,
            TokenData::Equal => TokenKind::Equal,
            TokenData::DoubleEqual => TokenKind::DoubleEqual,
            TokenData::Greater => TokenKind::Greater,
            TokenData::GreaterEqual => TokenKind::GreaterEqual,
            TokenData::Less => TokenKind::Less,
            TokenData::LessEqual => TokenKind::LessEqual,
            TokenData::Ampersand => TokenKind::Ampersand,
            TokenData::DoubleAmpersand => TokenKind::DoubleAmpersand,
            TokenData::Pipe => TokenKind::Pipe,
            TokenData::DoublePipe => TokenKind::DoublePipe,
            TokenData::String(_) => TokenKind::String,
            TokenData::Float(_) => TokenKind::Float,
            TokenData::Integer(_) => TokenKind::Integer,
            TokenData::Boolean(_) => TokenKind::Boolean,
            TokenData::If => TokenKind::If,
            TokenData::Else => TokenKind::Else,
            TokenData::While => TokenKind::While,
            TokenData::Return => TokenKind::Return,
            TokenData::Let => TokenKind::Let,
            TokenData::Fu => TokenKind::Fu,
            TokenData::Identifier(_) => TokenKind::Identifier,
        }
    }
}

impl TokenKind {
    /// The binary operator that a kind of token stands for, if it stands for one.
    pub open spec fn as_binary_operator(self) -> Option<BinaryOperator> {
        match self {
            Self::Plus => Some(BinaryOperator::Add),
            Self::Minus => Some(BinaryOperator::Subtract),
            Self::Star => Some(BinaryOperator::Multiply),
            Self::Slash => Some(BinaryOperator::Divide),
            Self::DoubleEqual => Some(BinaryOperator::EqualTo),
            Self::BangEqual => Some(BinaryOperator::NotEqualTo),
            Self::Greater => Some(BinaryOperator::GreaterThan),
            Self::GreaterEqual => Some(BinaryOperator::GreaterThanOrEqualTo),
            Self::Less => Some(BinaryOperator::LessThan),
            Self::LessEqual => Some(BinaryOperator::LessThanOrEqualTo),
            Self::Ampersand => Some(BinaryOperator::BitwiseAND),
            Self::DoubleAmpersand => Some(BinaryOperator::AND),
            Self::Pipe => Some(BinaryOperator::BitwiseOR),
            Self::DoublePipe => Some(BinaryOperator::OR),
            _ => None,
        }
    }

    /// The unary operator that a kind of token stands for, if it stands for one.
    pub open spec fn as_unary_operator(self) -> Option<UnaryOperator> {
        match self {
            Self::Minus => Some(UnaryOperator::Minus),
            Self::Bang => Some(UnaryOperator::NOT),
            _ => None,
        }
    }

    /// Attempts to cast itself to a [BinaryOperator], returning [None] if it does not represent
    /// a binary operator.
    pub fn binary_operator(&self) -> (operator: Option<BinaryOperator>)
        ensures
            operator == self.as_binary_operator(),
    {
        Some(
            match self {
                Self::Plus => BinaryOperator::Add,
                Self::Minus => BinaryOperator::Subtract,
                Self::Star => BinaryOperator::Multiply,
                Self::Slash => BinaryOperator::Divide,
                Self::DoubleEqual => BinaryOperator::EqualTo,
                Self::BangEqual => BinaryOperator::NotEqualTo,
                Self::Greater => BinaryOperator::GreaterThan,
                Self::GreaterEqual => BinaryOperator::GreaterThanOrEqualTo,
                Self::Less => BinaryOperator::LessThan,
                Self::LessEqual => BinaryOperator::LessThanOrEqualTo,
                Self::Ampersand => BinaryOperator::BitwiseAND,
                Self::DoubleAmpersand => BinaryOperator::AND,
                Self::Pipe => BinaryOperator::BitwiseOR,
                Self::DoublePipe => BinaryOperator::OR,
                _ => return None,
            },
        )
    }

    /// Attempts to cast itself to a [UnaryOperator], returning [None] if it does not represent
    /// a unary operator.
    pub fn unary_operator(&self) -> (operator: Option<UnaryOperator>)
        ensures
            operator == self.as_unary_operator(),
    {
        Some(
            match self {
                Self::Minus => UnaryOperator::Minus,
                Self::Bang => UnaryOperator::NOT,
                _ => return None,
            },
        )
    }
}

/// The smallest meaningful unit of the language.
#[derive(Debug)]
pub struct Token {
    /// The contained data, including the token type, and any associated data.
    pub data: TokenData,
    /// The location of its first character.
    pub location: Location,
}

impl View for Token {
    type V = TokenView;

    open spec fn view(&self) -> TokenView {
        TokenView {
            kind: self.data.kind_of(),
            payload: self.data.payload(),
            location: self.location,
        }
    }
}

/// What a list of tokens stands for.
pub open spec fn tokens_view(tokens: Seq<Token>) -> Seq<TokenView> {
    Seq::new(tokens.len(), |i: int| tokens[i]@)
}

impl Clone for TokenData {
    fn clone(&self) -> (copy: Self)
        ensures
            copy == *self,
    {
        match self {
            TokenData::String(string) => TokenData::String(string.clone()),
            TokenData::Float(float) => TokenData::Float(*float),
            TokenData::Integer(integer) => TokenData::Integer(*integer),
            TokenData::Boolean(boolean) => TokenData::Boolean(*boolean),
            TokenData::Identifier(identifier) => TokenData::Identifier(identifier.clone()),
            TokenData::LeftParenthesis => TokenData::LeftParenthesis,
            TokenData::RightParenthesis => TokenData::RightParenthesis,
            TokenData::LeftBrace => TokenData::LeftBrace,
            TokenData::RightBrace => TokenData::RightBrace,
            TokenData::Comma => TokenData::Comma,
            TokenData::Dot => TokenData::Dot,
            TokenData::Semicolon => TokenData::Semicolon,
            TokenData::QuestionMark => TokenData::QuestionMark,
            TokenData::Colon => TokenData::Colon,
            TokenData::Plus => TokenData::Plus,
            TokenData::Minus => TokenData::Minus,
            TokenData::Star => TokenData::Star,
            TokenData::Slash => TokenData::Slash,
            TokenData::Exponent => TokenData::Exponent,
            TokenData::Bang => TokenData::Bang,
            TokenData::BangEqual => TokenData::BangEqual,
            TokenData::Equal => TokenData::Equal,
            TokenData::DoubleEqual => TokenData::DoubleEqual,
            TokenData::Greater => TokenData::Greater,
            TokenData::GreaterEqual => TokenData::GreaterEqual,
            TokenData::Less => TokenData::Less,
            TokenData::LessEqual => TokenData::LessEqual,
            TokenData::Ampersand => TokenData::Ampersand,
            TokenData::DoubleAmpersand => TokenData::DoubleAmpersand,
            TokenData::Pipe => TokenData::Pipe,
            TokenData::DoublePipe => TokenData::DoublePipe,
            TokenData::If => TokenData::If,
            TokenData::Else => TokenData::Else,
            TokenData::While => TokenData::While,
            TokenData::Return => TokenData::Return,
            TokenData::Let => TokenData::Let,
            TokenData::Fu => TokenData::Fu,
        }
    }
}

impl Clone for Token {
    fn clone(&self) -> (copy: Self)
        ensures
            copy == *self,
    {
        Token { data: self.data.clone(), location: self.location }
    }
}

impl Token {
    /// Creates a new [Token].
    pub fn new(data: TokenData, location: Location) -> (token: Self)
        ensures
            token == (Token { data, location }),
    {
        Self { data, location }
    }

    /// Returns the kind of the token.
    pub fn kind(&self) -> (kind: TokenKind)
        ensures
            kind == self.data.kind_of(),
    {
        self.data.kind()
    }

    /// Returns the location of the token's first character.
    pub fn location(&self) -> (location: Location)
        ensures
            location == self.location,
    {
        self.location
    }

    /// Consumes the token and returns its data.
    pub fn data(self) -> (data: TokenData)
        ensures
            data == self.data,
    {
        self.data
    }
}

} // verus!
