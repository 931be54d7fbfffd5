//! The lexer for the slang programming language.

use crate::float::Float;
use crate::source::{location_after, Location, Source};
use crate::token::{tokens_view, Payload, Token, TokenData, TokenKind, TokenView};
use vstd::prelude::*;

verus! {

/// All the errors which can occur while lexing.
#[derive(Debug)]
pub enum LexerError {
    /// A string without the enclosing `"`.
    UnterminatedString(Location),
    /// A block comment without the enclosing `*/`.
    UnterminatedBlockComment(Location),
    /// An unexpected character, with an optional expected character.
    UnexpectedCharacter { location: Location, character: char, expected: Option<char> },
    /// An integer that does not fit into 32 bits.
    IntegerOutOfRange(Location),
}

/// `String::push`: appends one character to a string.
#[verifier::external_body]
fn push(text: &mut String, character: char)
    ensures
        final(text)@ == old(text)@.push(character),
{
    text.push(character)
}

/// Whether a character is one of the ten decimal digits.
pub open spec fn is_digit(character: char) -> bool {
    '0' <= character <= '9'
}

/// Whether a character can stand in a word: a letter, a digit or an underscore.
pub open spec fn is_word_character(character: char) -> bool {
    is_digit(character) || 'a' <= character <= 'z' || 'A' <= character <= 'Z' || character == '_'
}

/// Whether a character separates tokens and is nothing by itself.
pub open spec fn is_blank(character: char) -> bool {
    character == ' ' || character == '\r' || character == '\t' || character == '\n'
}

/// The runs of characters that the lexer consumes as one.
#[derive(Clone, Copy)]
pub enum Run {
    /// Decimal digits.
    Digits,
    /// Letters, digits and underscores.
    Word,
    /// Anything up to the `"` that ends a string.
    Quoted,
    /// Anything up to the end of the line.
    Line,
}

impl Run {
    /// Whether a character continues the run.
    pub open spec fn accepts(self) -> spec_fn(char) -> bool {
        match self {
            Run::Digits => |character: char| is_digit(character),
            Run::Word => |character: char| is_word_character(character),
            Run::Quoted => |character: char| character != '"',
            Run::Line => |character: char| character != '\n',
        }
    }

    /// Whether a character continues the run.
    pub fn accepted(self, character: char) -> (answer: bool)
        ensures
            answer == (self.accepts())(character),
    {
        match self {
            Run::Digits => digit(character),
            Run::Word => word_character(character),
            Run::Quoted => character != '"',
            Run::Line => character != '\n',
        }
    }
}

/// The value of a decimal digit.
pub open spec fn digit_value(character: char) -> int {
    character as int - '0' as int
}

/// The number that decimal digits write.
pub open spec fn decimal_value(digits: Seq<char>) -> int
    decreases digits.len(),
{
    if digits.len() == 0 {
        0
    } else {
        decimal_value(digits.drop_last()) * 10 + digit_value(digits.last())
    }
}

/// Whether a text is made of decimal digits only.
pub open spec fn all_digits(digits: Seq<char>) -> bool {
    forall|i: int| 0 <= i < digits.len() ==> is_digit(#[trigger] digits[i])
}

/// The end of the run of characters, from `at` on, that `accepted` holds of.
pub open spec fn run_end(text: Seq<char>, at: int, accepted: spec_fn(char) -> bool) -> int
    decreases text.len() - at,
{
    if 0 <= at < text.len() && accepted(text[at]) {
        run_end(text, at + 1, accepted)
    } else {
        at
    }
}

/// The end of the inside of a block comment that holds the character at `at`: where `*/`
/// stands, or where the text, or a `*` as its last character, ends it.
pub open spec fn comment_end(text: Seq<char>, at: int) -> int
    decreases text.len() - at,
{
    if 0 <= at < text.len() && (text[at] != '*' || (at + 1 < text.len() && text[at + 1] != '/')) {
        comment_end(text, at + 1)
    } else {
        at
    }
}

/// What a word is: a keyword, a Boolean, or else an identifier.
pub open spec fn word_kind(word: Seq<char>) -> (TokenKind, Payload) {
    if word == "true"@ {
        (TokenKind::Boolean, Payload::Boolean(true))
    } else if word == "false"@ {
        (TokenKind::Boolean, Payload::Boolean(false))
    } else if word == "if"@ {
        (TokenKind::If, Payload::Nothing)
    } else if word == "else"@ {
        (TokenKind::Else, Payload::Nothing)
    } else if word == "while"@ {
        (TokenKind::While, Payload::Nothing)
    } else if word == "return"@ {
        (TokenKind::Return, Payload::Nothing)
    } else if word == "let"@ {
        (TokenKind::Let, Payload::Nothing)
    } else if word == "fu"@ {
        (TokenKind::Fu, Payload::Nothing)
    } else {
        (TokenKind::Identifier, Payload::Text(word))
    }
}

/// The value that `float` gives to the text of a floating-point literal.
pub open spec fn float_value<F: Fn(String) -> Float>(float: F, literal: Seq<char>) -> Float {
    (choose|read: (String, Float)|
        read.0@ == literal && #[trigger] call_ensures(float, (read.0,), read.1)).1
}

/// The value that `float` gives to a text is the value of the literal that the text is.
pub proof fn float_value_is<F: Fn(String) -> Float>(float: F, text: String, value: Float)
    requires
        reads_floats(float),
        call_ensures(float, (text,), value),
    ensures
        float_value(float, text@) == value,
{
    let witness = (text, value);
    assert(witness.0@ == text@ && call_ensures(float, (witness.0,), witness.1));
}

/// Whether `float` gives a value to every text, and the same value to the same text.
pub open spec fn reads_floats<F: Fn(String) -> Float>(float: F) -> bool {
    &&& forall|text: String| call_requires(float, (text,))
    &&& forall|text: String, other: String, value: Float, second: Float|
        text@ == other@ && call_ensures(float, (text,), value) && call_ensures(
            float,
            (other,),
            second,
        ) ==> value == second
}

/// What the lexer makes of the characters from `at` on, up to where it looks for the next
/// token: where that is, and the token or the error that it found, if any.
pub struct Step {
    pub end: int,
    pub token: Option<(TokenKind, Payload)>,
    pub error: Option<LexerError>,
}

/// A step that finds a token without a payload.
pub open spec fn plain(end: int, kind: TokenKind) -> Step {
    Step { end, token: Some((kind, Payload::Nothing)), error: None }
}

/// The step for a character that may be followed by `second` to form the token `double`, and
/// is the token `single` by itself.
pub open spec fn pair(text: Seq<char>, at: int, second: char, double: TokenKind, single: TokenKind) -> Step {
    if at + 1 < text.len() && text[at + 1] == second {
        plain(at + 2, double)
    } else {
        plain(at + 1, single)
    }
}

/// The step for a `/` at `at`: a block comment, a comment to the end of the line, or a slash.
pub open spec fn slash(text: Seq<char>, at: int) -> Step {
    if at + 1 < text.len() && text[at + 1] == '*' {
        let end = comment_end(text, at + 2);
        if end + 1 < text.len() {
            Step { end: end + 2, token: None, error: None }
        } else {
            Step {
                end,
                token: None,
                error: Some(LexerError::UnterminatedBlockComment(location_after(text, at))),
            }
        }
    } else if at + 1 < text.len() && text[at + 1] == '/' {
        Step {
            end: run_end(text, at + 2, Run::Line.accepts()),
            token: None,
            error: None,
        }
    } else {
        plain(at + 1, TokenKind::Slash)
    }
}

/// The step for a `"` at `at`: the string up to the next `"`.
pub open spec fn quoted(text: Seq<char>, at: int) -> Step {
    let end = run_end(text, at + 1, Run::Quoted.accepts());
    if end >= text.len() {
        Step {
            end,
            token: None,
            error: Some(LexerError::UnterminatedString(location_after(text, at))),
        }
    } else {
        Step {
            end: end + 1,
            token: Some((TokenKind::String, Payload::Text(text.subrange(at + 1, end)))),
            error: None,
        }
    }
}

/// The step for a digit at `at`: a floating-point number where digits, a dot and more digits
/// follow one another, and else an integer.
pub open spec fn number<F: Fn(String) -> Float>(text: Seq<char>, at: int, float: F) -> Step {
    let whole = run_end(text, at + 1, Run::Digits.accepts());
    if whole + 1 < text.len() && text[whole] == '.' && is_digit(text[whole + 1]) {
        let end = run_end(text, whole + 1, Run::Digits.accepts());
        Step {
            end,
            token: Some(
                (TokenKind::Float, Payload::Float(float_value(float, text.subrange(at, end)))),
            ),
            error: None,
        }
    } else if decimal_value(text.subrange(at, whole)) <= i32::MAX {
        Step {
            end: whole,
            token: Some(
                (
                    TokenKind::Integer,
                    Payload::Integer(decimal_value(text.subrange(at, whole)) as i32),
                ),
            ),
            error: None,
        }
    } else {
        Step {
            end: whole,
            token: None,
            error: Some(LexerError::IntegerOutOfRange(location_after(text, at))),
        }
    }
}

/// The step for a letter or an underscore at `at`: the word that it begins.
pub open spec fn word(text: Seq<char>, at: int) -> Step {
    let end = run_end(text, at + 1, Run::Word.accepts());
    Step { end, token: Some(word_kind(text.subrange(at, end))), error: None }
}

/// The step that the lexer takes at the character at `at`.
pub open spec fn step<F: Fn(String) -> Float>(text: Seq<char>, at: int, float: F) -> Step {
    let character = text[at];
    if character == '(' {
        plain(at + 1, TokenKind::LeftParenthesis)
    } else if character == ')' {
        plain(at + 1, TokenKind::RightParenthesis)
    } else if character == '{' {
        plain(at + 1, TokenKind::LeftBrace)
    } else if character == '}' {
        plain(at + 1, TokenKind::RightBrace)
    } else if character == ',' {
        plain(at + 1, TokenKind::Comma)
    } else if character == '.' {
        plain(at + 1, TokenKind::Dot)
    } else if character == ';' {
        plain(at + 1, TokenKind::Semicolon)
    } else if character == '?' {
        plain(at + 1, TokenKind::QuestionMark)
    } else if character == ':' {
        plain(at + 1, TokenKind::Colon)
    } else if character == '+' {
        plain(at + 1, TokenKind::Plus)
    } else if character == '-' {
        plain(at + 1, TokenKind::Minus)
    } else if character == '*' {
        plain(at + 1, TokenKind::Star)
    } else if character == '^' {
        plain(at + 1, TokenKind::Exponent)
    } else if character == '/' {
        slash(text, at)
    } else if character == '!' {
        pair(text, at, '=', TokenKind::BangEqual, TokenKind::Bang)
    } else if character == '=' {
        pair(text, at, '=', TokenKind::DoubleEqual, TokenKind::Equal)
    } else if character == '>' {
        pair(text, at, '=', TokenKind::GreaterEqual, TokenKind::Greater)
    } else if character == '<' {
        pair(text, at, '=', TokenKind::LessEqual, TokenKind::Less)
    } else if character == '&' {
        pair(text, at, '&', TokenKind::DoubleAmpersand, TokenKind::Ampersand)
    } else if character == '|' {
        pair(text, at, '|', TokenKind::DoublePipe, TokenKind::Pipe)
    } else if character == '"' {
        quoted(text, at)
    } else if is_digit(character) {
        number(text, at, float)
    } else if is_word_character(character) {
        word(text, at)
    } else if is_blank(character) {
        Step { end: at + 1, token: None, error: None }
    } else {
        Step {
            end: at + 1,
            token: None,
            error: Some(
                LexerError::UnexpectedCharacter {
                    location: location_after(text, at),
                    character,
                    expected: None,
                },
            ),
        }
    }
}

/// A run ends at or after where it begins, and within the text.
pub proof fn run_end_bounds(text: Seq<char>, at: int, accepted: spec_fn(char) -> bool)
    requires
        0 <= at <= text.len(),
    ensures
        at <= run_end(text, at, accepted) <= text.len(),
    decreases text.len() - at,
{
    if at < text.len() && accepted(text[at]) {
        run_end_bounds(text, at + 1, accepted);
    }
}

/// The inside of a comment ends at or after where it begins, and within the text.
pub proof fn comment_end_bounds(text: Seq<char>, at: int)
    requires
        0 <= at <= text.len(),
    ensures
        at <= comment_end(text, at) <= text.len(),
    decreases text.len() - at,
{
    if at < text.len() && (text[at] != '*' || (at + 1 < text.len() && text[at + 1] != '/')) {
        comment_end_bounds(text, at + 1);
    }
}

/// Every step goes forward, and none beyond the text.
pub proof fn step_goes_forward<F: Fn(String) -> Float>(text: Seq<char>, at: int, float: F)
    requires
        0 <= at < text.len(),
    ensures
        at < step(text, at, float).end <= text.len(),
{
    comment_end_bounds(text, if at + 2 <= text.len() {
        at + 2
    } else {
        at
    });
    run_end_bounds(text, if at + 2 <= text.len() {
        at + 2
    } else {
        at
    }, Run::Line.accepts());
    run_end_bounds(text, at + 1, Run::Quoted.accepts());
    run_end_bounds(text, at + 1, Run::Word.accepts());
    let whole = run_end(text, at + 1, Run::Digits.accepts());
    run_end_bounds(text, at + 1, Run::Digits.accepts());
    if whole + 1 <= text.len() {
        run_end_bounds(text, whole + 1, Run::Digits.accepts());
    }
}

/// The tokens and the errors that the lexer finds in the characters from `at` on, each in
/// the order in which it is found.
pub open spec fn lexed<F: Fn(String) -> Float>(text: Seq<char>, at: int, float: F) -> (
    Seq<TokenView>,
    Seq<LexerError>,
)
    decreases text.len() - at,
{
    if at < 0 || at >= text.len() {
        (Seq::empty(), Seq::empty())
    } else {
        let found = step(text, at, float);
        proof {
            step_goes_forward(text, at, float);
        }
        let (tokens, errors) = lexed(text, found.end, float);
        (
            match found.token {
                Some((kind, payload)) => seq![
                    TokenView { kind, payload, location: location_after(text, at) },
                ] + tokens,
                None => tokens,
            },
            match found.error {
                Some(error) => seq![error] + errors,
                None => errors,
            },
        )
    }
}

fn digit(character: char) -> (answer: bool)
    ensures
        answer == is_digit(character),
{
    '0' <= character && character <= '9'
}

fn word_character(character: char) -> (answer: bool)
    ensures
        answer == is_word_character(character),
{
    digit(character) || ('a' <= character && character <= 'z') || ('A' <= character && character
        <= 'Z') || character == '_'
}

/// An instance of a lexer, for a specific source code string.
pub struct Lexer {
    source: Source,
    tokens: Vec<Token>,
    current_token_start: Location,
}

impl Lexer {
    /// The characters that the lexer reads.
    pub closed spec fn text(&self) -> Seq<char> {
        self.source.text()
    }

    /// The number of characters that the lexer has read.
    pub closed spec fn consumed(&self) -> int {
        self.source.consumed()
    }

    /// The tokens found so far.
    pub closed spec fn tokens(&self) -> Seq<Token> {
        self.tokens@
    }

    /// The location at which the token that is being read begins.
    pub closed spec fn start(&self) -> Location {
        self.current_token_start
    }

    /// The lexer stands at a character of its text, or at the end.
    pub closed spec fn well_formed(&self) -> bool {
        self.source.well_formed()
    }

    /// No more characters are read than there are.
    pub proof fn consumed_is_bounded(&self)
        requires
            self.well_formed(),
        ensures
            0 <= self.consumed() <= self.text().len(),
    {
        self.source.consumed_is_bounded();
    }

    /// Creates a new [Lexer] for a specific [Source].
    pub fn new(source: Source) -> (lexer: Self)
        requires
            source.well_formed(),
        ensures
            lexer.well_formed(),
            lexer.text() == source.text(),
            lexer.consumed() == source.consumed(),
            lexer.tokens() == Seq::<Token>::empty(),
    {
        let start = source.location();
        Self { source, tokens: Vec::new(), current_token_start: start }
    }

    /// Attempts to lexically analyse the source code to produce a sequence of tokens.
    ///
    /// Will consume the entire source code, returning all valid tokens, and any errors. The
    /// text of each floating-point literal is handed to `float`, which gives its value.
    pub fn lex<F: Fn(String) -> Float>(self, float: F) -> (found: (Vec<Token>, Vec<LexerError>))
        requires
            self.well_formed(),
            reads_floats(float),
        ensures
            tokens_view(found.0@) == tokens_view(self.tokens()) + lexed(
                self.text(),
                self.consumed(),
                float,
            ).0,
            found.1@ == lexed(self.text(), self.consumed(), float).1,
    {
        let mut lexer = self;
        let mut errors: Vec<LexerError> = Vec::new();
        lexer.current_token_start = lexer.source.location();
        assert(tokens_view(lexer.tokens()) + lexed(lexer.text(), lexer.consumed(), float).0
            =~= tokens_view(self.tokens()) + lexed(self.text(), self.consumed(), float).0);
        assert(errors@ + lexed(lexer.text(), lexer.consumed(), float).1 =~= lexed(
            self.text(),
            self.consumed(),
            float,
        ).1);
        loop
            invariant
                lexer.well_formed(),
                reads_floats(float),
                lexer.text() == self.text(),
                lexer.start() == location_after(lexer.text(), lexer.consumed()),
                tokens_view(lexer.tokens()) + lexed(lexer.text(), lexer.consumed(), float).0
                    == tokens_view(self.tokens()) + lexed(self.text(), self.consumed(), float).0,
                errors@ + lexed(lexer.text(), lexer.consumed(), float).1 == lexed(
                    self.text(),
                    self.consumed(),
                    float,
                ).1,
            ensures
                lexer.consumed() >= lexer.text().len(),
            decreases lexer.text().len() - lexer.consumed(),
        {
            let ghost text = lexer.text();
            let ghost at = lexer.consumed();
            let ghost before = tokens_view(lexer.tokens());
            let ghost failed = errors@;
            proof {
                lexer.consumed_is_bounded();
            }
            let character = match lexer.source.advance() {
                Some(character) => character,
                None => {
                    break ;
                },
            };
            proof {
                step_goes_forward(text, at, float);
            }
            let result = if character == '(' {
                Ok(lexer.add_token(TokenData::LeftParenthesis))
            } else if character == ')' {
                Ok(lexer.add_token(TokenData::RightParenthesis))
            } else if character == '{' {
                Ok(lexer.add_token(TokenData::LeftBrace))
            } else if character == '}' {
                Ok(lexer.add_token(TokenData::RightBrace))
            } else if character == ',' {
                Ok(lexer.add_token(TokenData::Comma))
            } else if character == '.' {
                Ok(lexer.add_token(TokenData::Dot))
            } else if character == ';' {
                Ok(lexer.add_token(TokenData::Semicolon))
            } else if character == '?' {
                Ok(lexer.add_token(TokenData::QuestionMark))
            } else if character == ':' {
                Ok(lexer.add_token(TokenData::Colon))
            } else if character == '+' {
                Ok(lexer.add_token(TokenData::Plus))
            } else if character == '-' {
                Ok(lexer.add_token(TokenData::Minus))
            } else if character == '*' {
                Ok(lexer.add_token(TokenData::Star))
            } else if character == '^' {
                Ok(lexer.add_token(TokenData::Exponent))
            } else if character == '/' {
                lexer.handle_slash()
            } else if character == '!' {
                Ok(lexer.handle_bang())
            } else if character == '=' {
                Ok(lexer.handle_equal())
            } else if character == '>' {
                Ok(lexer.handle_greater())
            } else if character == '<' {
                Ok(lexer.handle_less())
            } else if character == '&' {
                Ok(lexer.handle_ampersand())
            } else if character == '|' {
                Ok(lexer.handle_pipe())
            } else if character == '"' {
                lexer.handle_string()
            } else if digit(character) {
                lexer.handle_number(character, &float)
            } else if word_character(character) {
                Ok(lexer.handle_word(character))
            } else if character == ' ' || character == '\r' || character == '\t' || character
                == '\n' {
                Ok(())
            } else {
                Err(
                    LexerError::UnexpectedCharacter {
                        location: lexer.current_token_start,
                        character,
                        expected: None,
                    },
                )
            };
            let ghost taken = step(text, at, float);
            assert(lexer.consumed() == taken.end);
            assert(match result {
                Ok(_) => taken.error is None,
                Err(error) => taken.error == Some(error),
            });
            assert(tokens_view(lexer.tokens()) == match taken.token {
                Some((kind, payload)) => before.push(
                    TokenView { kind, payload, location: location_after(text, at) },
                ),
                None => before,
            });
            if let Err(error) = result {
                errors.push(error);
            }
            lexer.current_token_start = lexer.source.location();
            proof {
                lexer.consumed_is_bounded();
                let rest = lexed(text, taken.end, float);
                assert(tokens_view(lexer.tokens()) + rest.0 =~= before + lexed(text, at, float).0);
                assert(errors@ + rest.1 =~= failed + lexed(text, at, float).1);
            }
        }
        assert(tokens_view(lexer.tokens()) + Seq::<TokenView>::empty() =~= tokens_view(
            lexer.tokens(),
        ));
        assert(errors@ + Seq::<LexerError>::empty() =~= errors@);
        (lexer.tokens, errors)
    }

    /// Adds a token to the internal list of tokens.
    fn add_token(&mut self, data: TokenData)
        requires
            old(self).well_formed(),
        ensures
            final(self).well_formed(),
            final(self).text() == old(self).text(),
            final(self).consumed() == old(self).consumed(),
            final(self).start() == old(self).start(),
            tokens_view(final(self).tokens()) == tokens_view(old(self).tokens()).push(
                TokenView {
                    kind: data.kind_of(),
                    payload: data.payload(),
                    location: old(self).start(),
                },
            ),
    {
        self.tokens.push(Token::new(data, self.current_token_start));
        assert(tokens_view(self.tokens()) =~= tokens_view(old(self).tokens()).push(
            TokenView {
                kind: data.kind_of(),
                payload: data.payload(),
                location: old(self).start(),
            },
        ));
    }

    /// Adds `double` if the next character is `second`, which is then consumed, and `single`
    /// if it is not.
    fn handle_pair(&mut self, second: char, double: TokenData, single: TokenData)
        requires
            old(self).well_formed(),
            old(self).consumed() >= 1,
            double.payload() is Nothing,
            single.payload() is Nothing,
        ensures
            final(self).well_formed(),
            final(self).text() == old(self).text(),
            final(self).start() == old(self).start(),
            final(self).advanced(
                *old(self),
                pair(old(self).text(), old(self).consumed() - 1, second, double.kind_of(), single.kind_of()),
            ),
    {
        if self.source.matches(second) {
            self.add_token(double);
        } else {
            self.add_token(single);
        }
    }

    /// Whether the lexer has gone from `before` to where the step `taken` ends, and has
    /// added the token that the step found.
    pub closed spec fn advanced(&self, before: Lexer, taken: Step) -> bool {
        &&& self.consumed() == taken.end
        &&& tokens_view(self.tokens()) == match taken.token {
            Some((kind, payload)) => tokens_view(before.tokens()).push(
                TokenView { kind, payload, location: before.start() },
            ),
            None => tokens_view(before.tokens()),
        }
    }

    /// Called when a `!` character is encountered.
    fn handle_bang(&mut self)
        requires
            old(self).well_formed(),
            old(self).consumed() >= 1,
        ensures
            final(self).well_formed(),
            final(self).text() == old(self).text(),
            final(self).start() == old(self).start(),
            final(self).advanced(
                *old(self),
                pair(old(self).text(), old(self).consumed() - 1, '=', TokenKind::BangEqual, TokenKind::Bang),
            ),
    {
        self.handle_pair('=', TokenData::BangEqual, TokenData::Bang)
    }

    /// Called when a `=` character is encountered.
    fn handle_equal(&mut self)
        requires
            old(self).well_formed(),
            old(self).consumed() >= 1,
        ensures
            final(self).well_formed(),
            final(self).text() == old(self).text(),
            final(self).start() == old(self).start(),
            final(self).advanced(
                *old(self),
                pair(old(self).text(), old(self).consumed() - 1, '=', TokenKind::DoubleEqual, TokenKind::Equal),
            ),
    {
        self.handle_pair('=', TokenData::DoubleEqual, TokenData::Equal)
    }

    /// Called when a `<` character is encountered.
    fn handle_less(&mut self)
        requires
            old(self).well_formed(),
            old(self).consumed() >= 1,
        ensures
            final(self).well_formed(),
            final(self).text() == old(self).text(),
            final(self).start() == old(self).start(),
            final(self).advanced(
                *old(self),
                pair(old(self).text(), old(self).consumed() - 1, '=', TokenKind::LessEqual, TokenKind::Less),
            ),
    {
        self.handle_pair('=', TokenData::LessEqual, TokenData::Less)
    }

    /// Called when a `>` character is encountered.
    fn handle_greater(&mut self)
        requires
            old(self).well_formed(),
            old(self).consumed() >= 1,
        ensures
            final(self).well_formed(),
            final(self).text() == old(self).text(),
            final(self).start() == old(self).start(),
            final(self).advanced(
                *old(self),
                pair(old(self).text(), old(self).consumed() - 1, '=', TokenKind::GreaterEqual, TokenKind::Greater),
            ),
    {
        self.handle_pair('=', TokenData::GreaterEqual, TokenData::Greater)
    }

    /// Called when a `&` character is encountered.
    fn handle_ampersand(&mut self)
        requires
            old(self).well_formed(),
            old(self).consumed() >= 1,
        ensures
            final(self).well_formed(),
            final(self).text() == old(self).text(),
            final(self).start() == old(self).start(),
            final(self).advanced(
                *old(self),
                pair(old(self).text(), old(self).consumed() - 1, '&', TokenKind::DoubleAmpersand, TokenKind::Ampersand),
            ),
    {
        self.handle_pair('&', TokenData::DoubleAmpersand, TokenData::Ampersand)
    }

    /// Called when a `|` character is encountered.
    fn handle_pipe(&mut self)
        requires
            old(self).well_formed(),
            old(self).consumed() >= 1,
        ensures
            final(self).well_formed(),
            final(self).text() == old(self).text(),
            final(self).start() == old(self).start(),
            final(self).advanced(
                *old(self),
                pair(old(self).text(), old(self).consumed() - 1, '|', TokenKind::DoublePipe, TokenKind::Pipe),
            ),
    {
        self.handle_pair('|', TokenData::DoublePipe, TokenData::Pipe)
    }

    /// Consumes the characters that `accepted` holds of, and appends them to `taken`.
    fn take_while(&mut self, taken: &mut String, kind: Run)
        requires
            old(self).well_formed(),
        ensures
            final(self).well_formed(),
            final(self).text() == old(self).text(),
            final(self).start() == old(self).start(),
            final(self).tokens() == old(self).tokens(),
            final(self).consumed() == run_end(old(self).text(), old(self).consumed(), kind.accepts()),
            final(taken)@ == old(taken)@ + old(self).text().subrange(
                old(self).consumed(),
                final(self).consumed(),
            ),
    {
        let ghost text = self.text();
        let ghost from = self.consumed();
        proof {
            self.consumed_is_bounded();
        }
        assert(taken@ =~= old(taken)@ + text.subrange(from, from));
        loop
            invariant
                self.well_formed(),
                self.text() == text,
                self.start() == old(self).start(),
                self.tokens() == old(self).tokens(),
                0 <= from <= self.consumed() <= text.len(),
                run_end(text, self.consumed(), kind.accepts()) == run_end(
                    text,
                    from,
                    kind.accepts(),
                ),
                taken@ == old(taken)@ + text.subrange(from, self.consumed()),
            ensures
                self.consumed() == run_end(text, from, kind.accepts()),
            decreases self.text().len() - self.consumed(),
        {
            proof {
                self.consumed_is_bounded();
            }
            let ghost at = self.consumed();
            let ghost so_far = taken@;
            match self.source.peek() {
                Some(character) => {
                    if !kind.accepted(character) {
                        break ;
                    }
                    assert(at < text.len());
                    assert(character == text[at]);
                    push(taken, character);
                    assert(taken@ == so_far.push(character));
                    assert(text.subrange(from, at + 1) =~= text.subrange(from, at).push(text[at]));
                    assert(taken@ =~= old(taken)@ + text.subrange(from, at + 1));
                },
                None => {
                    break ;
                },
            }
            self.source.advance();
        }
    }

    /// Called when a `/` character is encountered.
    fn handle_slash(&mut self) -> (result: Result<(), LexerError>)
        requires
            old(self).well_formed(),
            old(self).consumed() >= 1,
            old(self).start() == location_after(old(self).text(), old(self).consumed() - 1),
        ensures
            final(self).well_formed(),
            final(self).text() == old(self).text(),
            final(self).start() == old(self).start(),
            final(self).advanced(*old(self), slash(old(self).text(), old(self).consumed() - 1)),
            match result {
                Ok(_) => slash(old(self).text(), old(self).consumed() - 1).error is None,
                Err(error) => slash(old(self).text(), old(self).consumed() - 1).error == Some(
                    error,
                ),
            },
    {
        let ghost text = self.text();
        let ghost at = self.consumed() - 1;
        proof {
            self.consumed_is_bounded();
        }
        if self.source.matches('*') {
            loop
                invariant
                    self.well_formed(),
                    self.text() == text,
                    self.start() == old(self).start(),
                    self.tokens() == old(self).tokens(),
                    0 <= at,
                    at + 2 <= self.consumed() <= text.len(),
                    comment_end(text, self.consumed()) == comment_end(text, at + 2),
                ensures
                    self.consumed() == comment_end(text, at + 2),
                decreases self.text().len() - self.consumed(),
            {
                proof {
                    self.consumed_is_bounded();
                }
                let first = self.source.peek();
                let second = self.source.peek_after();
                let inside = match (first, second) {
                    (Some(first), Some(second)) => first != '*' || second != '/',
                    (Some(first), None) => first != '*',
                    (None, _) => false,
                };
                if !inside {
                    break ;
                }
                self.source.advance();
            }
            if self.source.peek().is_some() && self.source.peek_after().is_some() {
                self.source.advance();
                self.source.advance();
                Ok(())
            } else {
                Err(LexerError::UnterminatedBlockComment(self.current_token_start))
            }
        } else if self.source.matches('/') {
            let mut skipped = String::new();
            self.take_while(&mut skipped, Run::Line);
            Ok(())
        } else {
            self.add_token(TokenData::Slash);
            Ok(())
        }
    }

    /// Called when a `"` character is encountered.
    fn handle_string(&mut self) -> (result: Result<(), LexerError>)
        requires
            old(self).well_formed(),
            old(self).consumed() >= 1,
            old(self).start() == location_after(old(self).text(), old(self).consumed() - 1),
        ensures
            final(self).well_formed(),
            final(self).text() == old(self).text(),
            final(self).start() == old(self).start(),
            final(self).advanced(*old(self), quoted(old(self).text(), old(self).consumed() - 1)),
            match result {
                Ok(_) => quoted(old(self).text(), old(self).consumed() - 1).error is None,
                Err(error) => quoted(old(self).text(), old(self).consumed() - 1).error == Some(
                    error,
                ),
            },
    {
        proof {
            self.consumed_is_bounded();
        }
        let mut string = String::new();
        self.take_while(&mut string, Run::Quoted);
        proof {
            self.consumed_is_bounded();
            run_end_bounds(self.text(), old(self).consumed(), Run::Quoted.accepts());
        }
        assert(string@ =~= self.text().subrange(old(self).consumed(), self.consumed()));
        if self.source.at_end() {
            return Err(LexerError::UnterminatedString(self.current_token_start));
        }
        self.source.advance();
        self.add_token(TokenData::String(string));
        Ok(())
    }

    /// Called when a digit is encountered.
    fn handle_number<F: Fn(String) -> Float>(&mut self, first_digit: char, float: &F) -> (result:
        Result<(), LexerError>)
        requires
            old(self).well_formed(),
            old(self).consumed() >= 1,
            old(self).text()[old(self).consumed() - 1] == first_digit,
            old(self).start() == location_after(old(self).text(), old(self).consumed() - 1),
            is_digit(first_digit),
            reads_floats(*float),
        ensures
            final(self).well_formed(),
            final(self).text() == old(self).text(),
            final(self).start() == old(self).start(),
            final(self).advanced(*old(self), number(old(self).text(), old(self).consumed() - 1, *float)),
            match result {
                Ok(_) => number(old(self).text(), old(self).consumed() - 1, *float).error is None,
                Err(error) => number(old(self).text(), old(self).consumed() - 1, *float).error
                    == Some(error),
            },
    {
        let ghost text = self.text();
        let ghost at = self.consumed() - 1;
        proof {
            self.consumed_is_bounded();
        }
        let mut number = String::new();
        push(&mut number, first_digit);
        assert(number@ =~= text.subrange(at, at + 1));
        self.take_while(&mut number, Run::Digits);
        let ghost whole = self.consumed();
        proof {
            run_end_bounds(text, at + 1, Run::Digits.accepts());
            assert(number@ =~= text.subrange(at, whole));
            digits_in_run(text, at, whole);
        }
        let fraction = match (self.source.peek(), self.source.peek_after()) {
            (Some(first), Some(second)) => first == '.' && digit(second),
            _ => false,
        };
        if fraction {
            push(&mut number, '.');
            self.source.advance();
            self.take_while(&mut number, Run::Digits);
            proof {
                run_end_bounds(text, whole + 1, Run::Digits.accepts());
                assert(number@ =~= text.subrange(at, self.consumed()));
            }
            let ghost literal = number;
            let value = float(number);
            proof {
                float_value_is(*float, literal, value);
            }
            self.add_token(TokenData::Float(value));
            Ok(())
        } else {
            match integer(&number) {
                Some(integer) => {
                    self.add_token(TokenData::Integer(integer));
                    Ok(())
                },
                None => Err(LexerError::IntegerOutOfRange(self.current_token_start)),
            }
        }
    }

    /// Called when an alphabetic character is encountered.
    fn handle_word(&mut self, first_character: char)
        requires
            old(self).well_formed(),
            old(self).consumed() >= 1,
            old(self).text()[old(self).consumed() - 1] == first_character,
        ensures
            final(self).well_formed(),
            final(self).text() == old(self).text(),
            final(self).start() == old(self).start(),
            final(self).advanced(*old(self), word(old(self).text(), old(self).consumed() - 1)),
    {
        let ghost text = self.text();
        let ghost at = self.consumed() - 1;
        proof {
            self.consumed_is_bounded();
        }
        let mut word = String::new();
        push(&mut word, first_character);
        assert(word@ =~= text.subrange(at, at + 1));
        self.take_while(&mut word, Run::Word);
        proof {
            run_end_bounds(text, at + 1, Run::Word.accepts());
            assert(word@ =~= text.subrange(at, self.consumed()));
        }
        self.add_token(keyword(word));
    }
}

/// A digit and the run of digits after it are digits.
proof fn digits_in_run(text: Seq<char>, at: int, end: int)
    requires
        0 <= at < text.len(),
        is_digit(text[at]),
        end == run_end(text, at + 1, Run::Digits.accepts()),
    ensures
        all_digits(text.subrange(at, end)),
{
    run_end_bounds(text, at + 1, Run::Digits.accepts());
    assert forall|i: int| 0 <= i < end - at implies is_digit(#[trigger] text.subrange(at, end)[i]) by {
        if i > 0 {
            inside_run(text, at + 1, at + i, Run::Digits.accepts());
        }
    }
}

/// Every character inside a run is accepted.
proof fn inside_run(text: Seq<char>, from: int, at: int, accepted: spec_fn(char) -> bool)
    requires
        0 <= from <= at < run_end(text, from, accepted),
    ensures
        at < text.len(),
        accepted(text[at]),
    decreases at - from,
{
    if from < at {
        inside_run(text, from + 1, at, accepted);
    }
}

/// The number that more digits write is not smaller.
proof fn decimal_value_grows(digits: Seq<char>, count: int)
    requires
        all_digits(digits),
        0 <= count <= digits.len(),
    ensures
        0 <= decimal_value(digits.take(count)) <= decimal_value(digits),
    decreases digits.len() - count,
{
    decimal_value_is_natural(digits.take(count));
    if count < digits.len() {
        decimal_value_grows(digits, count + 1);
        assert(digits.take(count + 1).drop_last() =~= digits.take(count));
        assert(is_digit(digits[count]));
    } else {
        assert(digits.take(count) =~= digits);
    }
}

/// Digits write a number that is not negative.
proof fn decimal_value_is_natural(digits: Seq<char>)
    requires
        all_digits(digits),
    ensures
        0 <= decimal_value(digits),
    decreases digits.len(),
{
    if digits.len() > 0 {
        decimal_value_is_natural(digits.drop_last());
        assert(is_digit(digits[digits.len() - 1]));
    }
}

/// The integer that decimal digits write, if it fits into 32 bits.
pub fn integer(digits: &String) -> (value: Option<i32>)
    requires
        all_digits(digits@),
    ensures
        value == if decimal_value(digits@) <= i32::MAX {
            Some(decimal_value(digits@) as i32)
        } else {
            None
        },
{
    let mut value: i32 = 0;
    let text = digits.as_str();
    assert(digits@.take(0) =~= Seq::empty());
    for character in letters: text.chars()
        invariant
            letters.seq() == digits@,
            all_digits(digits@),
            value == decimal_value(digits@.take(letters.index() as int)),
            0 <= value,
    {
        let ghost at = letters.index() as int;
        proof {
            assert(digits@.take(at + 1).drop_last() =~= digits@.take(at));
            assert(is_digit(digits@[at]));
            decimal_value_grows(digits@, at + 1);
        }
        let units: i32 = (character as u32 - '0' as u32) as i32;
        if value > (i32::MAX - units) / 10 {
            return None;
        }
        value = value * 10 + units;
    }
    assert(digits@.take(digits@.len() as int) =~= digits@);
    Some(value)
}

/// Tells a keyword or a Boolean from an identifier.
pub fn keyword(word: String) -> (data: TokenData)
    ensures
        (data.kind_of(), data.payload()) == word_kind(word@),
{
    if word == "true".to_string() {
        TokenData::Boolean(true)
    } else if word == "false".to_string() {
        TokenData::Boolean(false)
    } else if word == "if".to_string() {
        TokenData::If
    } else if word == "else".to_string() {
        TokenData::Else
    } else if word == "while".to_string() {
        TokenData::While
    } else if word == "return".to_string() {
        TokenData::Return
    } else if word == "let".to_string() {
        TokenData::Let
    } else if word == "fu".to_string() {
        TokenData::Fu
    } else {
        TokenData::Identifier(word)
    }
}

} // verus!
