//! All code relating to the stream of tokens given to the parser.

use crate::expression::{BinaryOperator, UnaryOperator};
use crate::parser::ParserError;
use crate::source::{GeneralLocation, Location};
use crate::token::{Token, TokenData, TokenKind};
use vstd::prelude::*;

verus! {

/// A wrapper around a queue of tokens.
pub struct TokenStream {
    tokens: Vec<Token>,
    position: usize,
}

impl View for TokenStream {
    type V = Seq<Token>;

    /// The tokens that have not been consumed.
    open spec fn view(&self) -> Seq<Token> {
        self.tokens().skip(self.position())
    }
}

/// Where parsing stands: at the first of `tokens`, or at the end of the file.
pub open spec fn place(tokens: Seq<Token>) -> GeneralLocation {
    if tokens.len() > 0 {
        GeneralLocation::Location(tokens[0].location)
    } else {
        GeneralLocation::EndOfFile
    }
}

/// Whether the first of `tokens` is of one of the kinds `targets`.
pub open spec fn starts_with(tokens: Seq<Token>, targets: Seq<TokenKind>) -> bool {
    tokens.len() > 0 && targets.contains(tokens[0].data.kind_of())
}

/// Whether the first of `tokens` is one of the binary operators `targets`.
pub open spec fn starts_with_binary(tokens: Seq<Token>, targets: Seq<BinaryOperator>) -> bool {
    tokens.len() > 0 && tokens[0].data.kind_of().as_binary_operator() is Some && targets.contains(
        tokens[0].data.kind_of().as_binary_operator()->0,
    )
}

/// Whether the first of `tokens` is one of the unary operators `targets`.
pub open spec fn starts_with_unary(tokens: Seq<Token>, targets: Seq<UnaryOperator>) -> bool {
    tokens.len() > 0 && tokens[0].data.kind_of().as_unary_operator() is Some && targets.contains(
        tokens[0].data.kind_of().as_unary_operator()->0,
    )
}

fn kind_among(kind: TokenKind, targets: &[TokenKind]) -> (found: bool)
    ensures
        found == targets@.contains(kind),
{
    let mut i: usize = 0;
    while i < targets.len()
        invariant
            i <= targets.len(),
            forall|j: int| 0 <= j < i ==> targets@[j] != kind,
        decreases targets.len() - i,
    {
        if targets[i] == kind {
            return true;
        }
        i += 1;
    }
    false
}

fn binary_among(operator: BinaryOperator, targets: &[BinaryOperator]) -> (found: bool)
    ensures
        found == targets@.contains(operator),
{
    let mut i: usize = 0;
    while i < targets.len()
        invariant
            i <= targets.len(),
            forall|j: int| 0 <= j < i ==> targets@[j] != operator,
        decreases targets.len() - i,
    {
        if targets[i] == operator {
            return true;
        }
        i += 1;
    }
    false
}

fn unary_among(operator: UnaryOperator, targets: &[UnaryOperator]) -> (found: bool)
    ensures
        found == targets@.contains(operator),
{
    let mut i: usize = 0;
    while i < targets.len()
        invariant
            i <= targets.len(),
            forall|j: int| 0 <= j < i ==> targets@[j] != operator,
        decreases targets.len() - i,
    {
        if targets[i] == operator {
            return true;
        }
        i += 1;
    }
    false
}

impl TokenStream {
    /// All the tokens of the stream, consumed or not.
    pub closed spec fn tokens(&self) -> Seq<Token> {
        self.tokens@
    }

    /// The number of tokens that have been consumed.
    pub closed spec fn position(&self) -> int {
        self.position as int
    }

    /// No more tokens are consumed than there are.
    pub closed spec fn well_formed(&self) -> bool {
        self.position <= self.tokens@.len()
    }

    /// No more tokens are consumed than there are.
    pub proof fn position_is_bounded(&self)
        requires
            self.well_formed(),
        ensures
            0 <= self.position() <= self.tokens().len(),
    {
    }

    /// Creates a new token stream from a list of tokens.
    pub fn new(tokens: Vec<Token>) -> (stream: Self)
        ensures
            stream.tokens() == tokens@,
            stream.position() == 0,
            stream@ == tokens@,
            stream.well_formed(),
    {
        let stream = Self { tokens, position: 0 };
        assert(stream@ =~= tokens@);
        stream
    }

    /// Returns a reference to the next token in the stream.
    pub fn peek(&self) -> (next: Option<&Token>)
        requires
            self.well_formed(),
        ensures
            next is Some == (self@.len() > 0),
            next is Some ==> *next->0 == self@[0],
    {
        if self.position < self.tokens.len() {
            Some(&self.tokens[self.position])
        } else {
            None
        }
    }

    /// Consumes the next token and returns it.
    pub fn advance(&mut self) -> (next: Option<Token>)
        requires
            old(self).well_formed(),
        ensures
            final(self).well_formed(),
            final(self).tokens() == old(self).tokens(),
            final(self).position() == old(self).position() + if next is Some {
                1int
            } else {
                0int
            },
            next is Some == (old(self)@.len() > 0),
            next is Some ==> next->0 == old(self)@[0] && final(self)@ == old(self)@.drop_first(),
            next is None ==> final(self)@ == old(self)@,
    {
        if self.position < self.tokens.len() {
            let token = self.tokens[self.position].clone();
            self.position += 1;
            assert(self@ =~= old(self)@.drop_first());
            Some(token)
        } else {
            None
        }
    }

    /// Consumes and returns the next token only if it matches a target.
    pub fn only_take(&mut self, targets: &[TokenKind]) -> (taken: Option<Token>)
        requires
            old(self).well_formed(),
        ensures
            final(self).well_formed(),
            final(self).tokens() == old(self).tokens(),
            final(self).position() == old(self).position() + if taken is Some {
                1int
            } else {
                0int
            },
            taken is Some == starts_with(old(self)@, targets@),
            taken is Some ==> taken->0 == old(self)@[0] && final(self)@ == old(self)@.drop_first(),
            taken is None ==> final(self)@ == old(self)@,
    {
        let matched = match self.peek() {
            Some(next) => kind_among(next.kind(), targets),
            None => false,
        };
        if matched {
            self.advance()
        } else {
            None
        }
    }

    /// Consumes the next token only if it matches a target. The token is not returned.
    pub fn matches(&mut self, targets: &[TokenKind]) -> (matched: bool)
        requires
            old(self).well_formed(),
        ensures
            final(self).well_formed(),
            final(self).tokens() == old(self).tokens(),
            final(self).position() == old(self).position() + if matched {
                1int
            } else {
                0int
            },
            matched == starts_with(old(self)@, targets@),
            final(self)@ == if matched {
                old(self)@.drop_first()
            } else {
                old(self)@
            },
    {
        self.only_take(targets).is_some()
    }

    /// Consumes the next token only if it is a binary operator and matches a target.
    pub fn binary_operator(&mut self, targets: &[BinaryOperator]) -> (taken: Option<
        (BinaryOperator, Location),
    >)
        requires
            old(self).well_formed(),
        ensures
            final(self).well_formed(),
            final(self).tokens() == old(self).tokens(),
            final(self).position() == old(self).position() + if taken is Some {
                1int
            } else {
                0int
            },
            taken is Some == starts_with_binary(old(self)@, targets@),
            taken is Some ==> taken->0 == (
                old(self)@[0].data.kind_of().as_binary_operator()->0,
                old(self)@[0].location,
            ) && final(self)@ == old(self)@.drop_first(),
            taken is None ==> final(self)@ == old(self)@,
    {
        let found = match self.peek() {
            Some(next) => match next.kind().binary_operator() {
                Some(operator) => if binary_among(operator, targets) {
                    Some((operator, next.location()))
                } else {
                    None
                },
                None => None,
            },
            None => None,
        };
        if found.is_some() {
            self.advance();
        }
        found
    }

    /// Consumes the next token only if it is a unary operator and matches a target.
    pub fn unary_operator(&mut self, targets: &[UnaryOperator]) -> (taken: Option<
        (UnaryOperator, Location),
    >)
        requires
            old(self).well_formed(),
        ensures
            final(self).well_formed(),
            final(self).tokens() == old(self).tokens(),
            final(self).position() == old(self).position() + if taken is Some {
                1int
            } else {
                0int
            },
            taken is Some == starts_with_unary(old(self)@, targets@),
            taken is Some ==> taken->0 == (
                old(self)@[0].data.kind_of().as_unary_operator()->0,
                old(self)@[0].location,
            ) && final(self)@ == old(self)@.drop_first(),
            taken is None ==> final(self)@ == old(self)@,
    {
        let found = match self.peek() {
            Some(next) => match next.kind().unary_operator() {
                Some(operator) => if unary_among(operator, targets) {
                    Some((operator, next.location()))
                } else {
                    None
                },
                None => None,
            },
            None => None,
        };
        if found.is_some() {
            self.advance();
        }
        found
    }

    /// The location of the next token, or the end of the file.
    pub fn location(&self) -> (location: GeneralLocation)
        requires
            self.well_formed(),
        ensures
            location == place(self@),
    {
        match self.peek() {
            Some(token) => GeneralLocation::Location(token.location()),
            None => GeneralLocation::EndOfFile,
        }
    }

    /// Consumes the next token only if it is an identifier. Will return an error if it is not
    /// an identifier.
    pub fn consume_identifier(&mut self) -> (result: Result<String, ParserError>)
        requires
            old(self).well_formed(),
        ensures
            final(self).well_formed(),
            final(self).tokens() == old(self).tokens(),
            final(self).position() == old(self).position() + if result is Ok {
                1int
            } else {
                0int
            },
            result is Ok == (old(self)@.len() > 0 && old(self)@[0].data is Identifier),
            result is Ok ==> old(self)@[0].data == TokenData::Identifier(result->Ok_0) && final(self)@ == old(self)@.drop_first(),
            result is Err ==> final(self)@ == old(self)@ && result->Err_0.expects(
                seq![TokenKind::Identifier],
                place(old(self)@),
            ),
    {
        let is_identifier = match self.peek() {
            Some(token) => match &token.data {
                TokenData::Identifier(_) => true,
                _ => false,
            },
            None => false,
        };
        if is_identifier {
            match self.advance() {
                Some(Token { data: TokenData::Identifier(identifier), location }) => Ok(identifier),
                _ => {
                    assert(false);
                    Ok(String::new())
                },
            }
        } else {
            Err(self.expected_one(TokenKind::Identifier))
        }
    }

    /// The error for a token that is none of the kinds that may stand here.
    pub fn expected(&self, kinds: Vec<TokenKind>) -> (error: ParserError)
        requires
            self.well_formed(),
        ensures
            error.expects(kinds@, place(self@)),
    {
        ParserError::ExpectedToken { expected: kinds, location: self.location() }
    }

    /// The error for a token that is not of the one kind that may stand here.
    pub fn expected_one(&self, kind: TokenKind) -> (error: ParserError)
        requires
            self.well_formed(),
        ensures
            error.expects(seq![kind], place(self@)),
    {
        let mut kinds: Vec<TokenKind> = Vec::new();
        kinds.push(kind);
        assert(kinds@ =~= seq![kind]);
        self.expected(kinds)
    }

    /// Consumes the next token only if it is of a certain kind. Will return an error if it is
    /// not of that kind.
    pub fn consume(&mut self, kind: TokenKind) -> (result: Result<Token, ParserError>)
        requires
            old(self).well_formed(),
        ensures
            final(self).well_formed(),
            final(self).tokens() == old(self).tokens(),
            final(self).position() == old(self).position() + if result is Ok {
                1int
            } else {
                0int
            },
            result is Ok == starts_with(old(self)@, seq![kind]),
            result is Ok ==> result->Ok_0 == old(self)@[0] && final(self)@ == old(self)@.drop_first(),
            result is Err ==> final(self)@ == old(self)@ && result->Err_0.expects(
                seq![kind],
                place(old(self)@),
            ),
    {
        let targets = [kind];
        assert(targets@ =~= seq![kind]);
        match self.only_take(&targets) {
            Some(token) => Ok(token),
            None => Err(self.expected_one(kind)),
        }
    }

    /// Returns whether all of the tokens have been consumed.
    pub fn at_end(&self) -> (done: bool)
        requires
            self.well_formed(),
        ensures
            done == (self@.len() == 0),
    {
        self.position >= self.tokens.len()
    }
}

} // verus!
