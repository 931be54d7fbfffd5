//! The parser for the slang programming language.

use crate::expression::{BinaryOperator, Expression, UnaryOperator};
use crate::grammar::{
    Found, Shape, Target, arguments_end, arguments_end_step, arguments_rest, arguments_rest_step,
    assignment_end, assignment_end_step, bare, binary_end, binary_end_step, binary_kind,
    binary_rest, binary_rest_step, block_end, block_end_step, block_rest, block_rest_step,
    call_end, call_end_step, call_rest, call_rest_step, closing, exponent_end, exponent_end_step,
    expression_end, expression_end_step, expression_statement_end, expression_statement_end_step,
    field_end, field_end_step, field_written, fields_end, fields_end_step, fields_rest,
    fields_rest_step, fields_written, formed, formed_statement, function_definition_end,
    function_definition_end_step, if_end, if_end_step, kind_at, kinds, listed, lone, misplaced,
    name, names_listed, names_rest, names_rest_step, onward, operand_end, operand_end_step,
    operator_at, operators_of, primary_end, primary_end_step, program, program_from,
    program_from_step, return_end, return_end_step, sequence, shapes, shapes_split, stands, stated,
    statement_end, statement_end_step, target_of, ternary_end, ternary_end_step, tier, unary_end,
    unary_end_step, unary_kind, variable_declaration_end, variable_declaration_end_step, while_end,
    while_end_step, written,
};
use crate::source::{GeneralLocation, Location};
use crate::statement::Statement;
use crate::token::{TokenData, TokenKind};
use crate::token_stream::{place, TokenStream};
use crate::value::Value;
use std::rc::Rc;
use vstd::prelude::*;

verus! {

/// All errors which can occur while parsing.
#[derive(Debug)]
pub enum ParserError {
    /// When a token was expected but not found.
    ExpectedToken { expected: Vec<TokenKind>, location: GeneralLocation },
    /// When a unary expression with an unsupported unary operator is encountered.
    UnsupportedUnaryExpression { operator: BinaryOperator, location: GeneralLocation },
    /// When there is an attempt to assign a value to something which is not assignable.
    InvalidAssignmentTarget(Location),
}

impl ParserError {
    /// Whether the error says that one of `kinds` was expected at `location`.
    pub open spec fn expects(self, kinds: Seq<TokenKind>, location: GeneralLocation) -> bool {
        self matches ParserError::ExpectedToken { expected, location: place } && expected@ == kinds
            && place == location
    }
}

/// Whether a primary expression can begin with a token of a kind.
pub open spec fn begins_primary(kind: TokenKind) -> bool {
    kind == TokenKind::LeftParenthesis || kind == TokenKind::String || kind == TokenKind::Float
        || kind == TokenKind::Integer || kind == TokenKind::Boolean || kind
        == TokenKind::Identifier || kind == TokenKind::LeftBrace
}

/// The kinds of token with which a primary expression can begin, as an error lists them.
pub open spec fn primary_kinds() -> Seq<TokenKind> {
    seq![
        TokenKind::LeftParenthesis,
        TokenKind::String,
        TokenKind::Float,
        TokenKind::Integer,
        TokenKind::Boolean,
        TokenKind::Identifier,
        TokenKind::LeftBrace,
    ]
}

/// A parser for a specific token stream.
pub struct Parser {
    tokens: TokenStream,
}

impl Parser {
    /// The kinds of all the tokens of the stream, consumed or not.
    pub closed spec fn kinds(&self) -> Seq<TokenKind> {
        kinds(self.tokens.tokens())
    }

    /// The number of tokens that have been consumed.
    pub closed spec fn position(&self) -> int {
        self.tokens.position()
    }

    /// The shapes of the tokens that have not been consumed.
    pub closed spec fn shapes(&self) -> Seq<Shape> {
        shapes(self.tokens@)
    }

    /// The number of tokens that have not been consumed.
    pub open spec fn remaining(&self) -> int {
        self.kinds().len() - self.position()
    }

    /// No more tokens are consumed than there are.
    pub closed spec fn well_formed(&self) -> bool {
        self.tokens.well_formed()
    }

    /// No more tokens are consumed than there are.
    pub proof fn position_is_bounded(&self)
        requires
            self.well_formed(),
        ensures
            0 <= self.position() <= self.kinds().len(),
    {
        self.tokens.position_is_bounded();
    }

    /// The next token is the first of those that have not been consumed.
    proof fn next_is_first(&self)
        requires
            self.well_formed(),
        ensures
            0 <= self.position() <= self.kinds().len(),
            self.tokens@.len() == self.kinds().len() - self.position(),
            self.shapes().len() == self.tokens@.len(),
            self.tokens@.len() > 0 ==> self.tokens@[0] == self.tokens.tokens()[self.position()]
                && kind_at(self.kinds(), self.position()) == Some(
                self.tokens@[0].data.kind_of(),
            ),
            self.tokens@.len() == 0 ==> kind_at(self.kinds(), self.position()) is None,
    {
        self.tokens.position_is_bounded();
    }

    /// Creates a new parser for a specific token stream.
    pub fn new(tokens: TokenStream) -> (parser: Self)
        requires
            tokens.well_formed(),
        ensures
            parser.well_formed(),
            parser.shapes() == shapes(tokens@),
            parser.kinds() == kinds(tokens.tokens()),
            parser.position() == tokens.position(),
    {
        Self { tokens }
    }

    /// Attempts to parse the token stream. Corresponds to `program` in the grammar.
    ///
    /// Consumes the entire token stream. Will attempt to find all errors, while minimising
    /// cascading errors. The parse succeeds exactly if the tokens that have not been consumed
    /// are statements, one after another. The statements that it gives are written with
    /// exactly those tokens, and each of them is one that the grammar derives.
    pub fn parse(self) -> (result: Result<Vec<Statement>, Vec<ParserError>>)
        requires
            self.well_formed(),
        ensures
            result is Ok == program_from(self.kinds(), self.position()),
            result is Err ==> result->Err_0@.len() > 0,
            result is Ok ==> self.shapes() == sequence(result->Ok_0@),
            result is Ok ==> forall|i: int|
                0 <= i < result->Ok_0@.len() ==> formed_statement(#[trigger] result->Ok_0@[i]),
    {
        let mut parser = self;
        let mut statements: Vec<Statement> = Vec::new();
        let mut errors: Vec<ParserError> = Vec::new();
        proof {
            parser.position_is_bounded();
            program_from_step(parser.kinds(), parser.position());
        }
        assert(self.shapes() =~= sequence(statements@) + parser.shapes());
        proof {
            parser.position_is_bounded();
        }
        while !parser.tokens.at_end()
            invariant
                parser.well_formed(),
                parser.kinds() == self.kinds(),
                0 <= parser.position() <= parser.kinds().len(),
                errors@.len() == 0 ==> self.shapes() == sequence(statements@) + parser.shapes(),
                errors@.len() == 0 ==> program_from(parser.kinds(), parser.position())
                    == program_from(self.kinds(), self.position()),
                errors@.len() > 0 ==> !program_from(self.kinds(), self.position()),
                forall|i: int|
                    0 <= i < statements@.len() ==> formed_statement(#[trigger] statements@[i]),
            decreases parser.remaining(),
        {
            let ghost parsed = statements@;
            proof {
                parser.position_is_bounded();
                program_from_step(parser.kinds(), parser.position());
            }
            match parser.statement() {
                Ok(statement) => {
                    statements.push(statement);
                    proof {
                        assert(statements@.drop_last() =~= parsed);
                        if errors@.len() == 0 {
                            assert(self.shapes() =~= sequence(statements@) + parser.shapes());
                        }
                    }
                },
                Err(error) => {
                    errors.push(error);
                    parser.synchronize();
                },
            }
        }
        proof {
            parser.position_is_bounded();
            program_from_step(parser.kinds(), parser.position());
        }
        if errors.len() == 0 {
            assert(self.shapes() =~= sequence(statements@));
            Ok(statements)
        } else {
            Err(errors)
        }
    }

    /// Consumes tokens until the end of a statement is reached.
    fn synchronize(&mut self)
        requires
            old(self).well_formed(),
        ensures
            final(self).well_formed(),
            final(self).kinds() == old(self).kinds(),
            old(self).position() <= final(self).position() <= final(self).kinds().len(),
            old(self).remaining() > 0 ==> final(self).position() > old(self).position(),
    {
        proof {
            self.position_is_bounded();
        }
        self.tokens.advance();
        loop
            invariant
                self.well_formed(),
                self.kinds() == old(self).kinds(),
                old(self).position() <= self.position() <= self.kinds().len(),
                old(self).remaining() > 0 ==> self.position() > old(self).position(),
            decreases self.remaining(),
        {
            proof {
                self.position_is_bounded();
            }
            let kind = match self.tokens.peek() {
                Some(token) => token.kind(),
                None => {
                    return ;
                },
            };
            match kind {
                TokenKind::Semicolon => {
                    self.tokens.advance();
                    proof {
                        self.position_is_bounded();
                    }
                    return ;
                },
                TokenKind::Fu | TokenKind::Let | TokenKind::If | TokenKind::While
                | TokenKind::Return => {
                    return ;
                },
                _ => {
                    self.tokens.advance();
                    proof {
                        self.position_is_bounded();
                    }
                },
            }
        }
    }

    /// The kind of the next token.
    fn next_kind(&self) -> (kind: Option<TokenKind>)
        requires
            self.well_formed(),
        ensures
            kind == kind_at(self.kinds(), self.position()),
            0 <= self.position() <= self.kinds().len(),
    {
        proof {
            self.position_is_bounded();
            self.next_is_first();
        }
        match self.tokens.peek() {
            Some(token) => Some(token.kind()),
            None => None,
        }
    }

    /// Consumes the next token if it is of a kind that carries nothing, and fails if it is of
    /// another kind.
    fn expect(&mut self, kind: TokenKind) -> (result: Result<(), ParserError>)
        requires
            old(self).well_formed(),
            bare(kind),
        ensures
            final(self).well_formed(),
            final(self).kinds() == old(self).kinds(),
            result is Ok == stands(old(self).kinds(), old(self).position(), kind),
            final(self).position() == old(self).position() + if result is Ok {
                1int
            } else {
                0int
            },
            0 <= final(self).position() <= final(self).kinds().len(),
            result is Ok ==> old(self).shapes() == lone(kind) + final(self).shapes(),
            result is Err ==> final(self).shapes() == old(self).shapes(),
    {
        proof {
            self.position_is_bounded();
            self.next_is_first();
            if self.tokens@.len() > 0 {
                shapes_split(self.tokens@);
            }
        }
        assert(seq![kind][0] == kind);
        let result = match self.tokens.consume(kind) {
            Ok(_) => Ok(()),
            Err(error) => Err(error),
        };
        proof {
            self.position_is_bounded();
        }
        result
    }

    /// Consumes the next token if it is of a kind that carries nothing, and hands back where
    /// it stands.
    fn take(&mut self, kind: TokenKind) -> (taken: Option<Location>)
        requires
            old(self).well_formed(),
            bare(kind),
        ensures
            final(self).well_formed(),
            final(self).kinds() == old(self).kinds(),
            taken is Some == stands(old(self).kinds(), old(self).position(), kind),
            final(self).position() == old(self).position() + if taken is Some {
                1int
            } else {
                0int
            },
            0 <= final(self).position() <= final(self).kinds().len(),
            taken is Some ==> old(self).shapes() == lone(kind) + final(self).shapes(),
            taken is None ==> final(self).shapes() == old(self).shapes(),
    {
        proof {
            self.position_is_bounded();
            self.next_is_first();
            if self.tokens@.len() > 0 {
                shapes_split(self.tokens@);
            }
        }
        let targets = [kind];
        assert(targets@ =~= seq![kind]);
        assert(seq![kind][0] == kind);
        let taken = match self.tokens.only_take(&targets) {
            Some(token) => Some(token.location()),
            None => None,
        };
        proof {
            self.position_is_bounded();
        }
        taken
    }

    /// Consumes the next token if it is of a kind that carries nothing.
    fn accept(&mut self, kind: TokenKind) -> (accepted: bool)
        requires
            old(self).well_formed(),
            bare(kind),
        ensures
            final(self).well_formed(),
            final(self).kinds() == old(self).kinds(),
            accepted == stands(old(self).kinds(), old(self).position(), kind),
            final(self).position() == old(self).position() + if accepted {
                1int
            } else {
                0int
            },
            0 <= final(self).position() <= final(self).kinds().len(),
            accepted ==> old(self).shapes() == lone(kind) + final(self).shapes(),
            !accepted ==> final(self).shapes() == old(self).shapes(),
    {
        self.take(kind).is_some()
    }

    /// Consumes the next token if it is an identifier, and fails if it is not.
    fn identifier(&mut self) -> (result: Result<String, ParserError>)
        requires
            old(self).well_formed(),
        ensures
            final(self).well_formed(),
            final(self).kinds() == old(self).kinds(),
            result is Ok == stands(old(self).kinds(), old(self).position(), TokenKind::Identifier),
            final(self).position() == old(self).position() + if result is Ok {
                1int
            } else {
                0int
            },
            0 <= final(self).position() <= final(self).kinds().len(),
            result is Ok ==> old(self).shapes() == name(result->Ok_0@) + final(self).shapes(),
            result is Err ==> final(self).shapes() == old(self).shapes(),
    {
        proof {
            self.position_is_bounded();
            self.next_is_first();
            if self.tokens@.len() > 0 {
                shapes_split(self.tokens@);
            }
        }
        let result = self.tokens.consume_identifier();
        proof {
            self.position_is_bounded();
        }
        result
    }

    /// Consumes the next token if it is one of the binary operators `targets`.
    fn binary(&mut self, targets: &[BinaryOperator]) -> (taken: Option<(BinaryOperator, Location)>)
        requires
            old(self).well_formed(),
        ensures
            final(self).well_formed(),
            final(self).kinds() == old(self).kinds(),
            taken is Some == operator_at(old(self).kinds(), old(self).position(), targets@),
            final(self).position() == old(self).position() + if taken is Some {
                1int
            } else {
                0int
            },
            0 <= final(self).position() <= final(self).kinds().len(),
            taken is Some ==> old(self).shapes() == lone(binary_kind((taken->0).0)) + final(self).shapes()
                && targets@.contains((taken->0).0),
            taken is None ==> final(self).shapes() == old(self).shapes(),
    {
        proof {
            self.position_is_bounded();
            self.next_is_first();
            if self.tokens@.len() > 0 {
                shapes_split(self.tokens@);
            }
        }
        let taken = self.tokens.binary_operator(targets);
        proof {
            self.position_is_bounded();
        }
        taken
    }

    /// Consumes the next token if it is a unary operator.
    fn unary_operator(&mut self) -> (taken: Option<UnaryOperator>)
        requires
            old(self).well_formed(),
        ensures
            final(self).well_formed(),
            final(self).kinds() == old(self).kinds(),
            taken is Some == (stands(old(self).kinds(), old(self).position(), TokenKind::Minus)
                || stands(old(self).kinds(), old(self).position(), TokenKind::Bang)),
            final(self).position() == old(self).position() + if taken is Some {
                1int
            } else {
                0int
            },
            0 <= final(self).position() <= final(self).kinds().len(),
            taken is Some ==> old(self).shapes() == lone(unary_kind(taken->0)) + final(self).shapes(),
            taken is None ==> final(self).shapes() == old(self).shapes(),
    {
        proof {
            self.position_is_bounded();
            self.next_is_first();
            if self.tokens@.len() > 0 {
                shapes_split(self.tokens@);
            }
        }
        let targets = [UnaryOperator::Minus, UnaryOperator::NOT];
        assert(targets@[0] == UnaryOperator::Minus && targets@[1] == UnaryOperator::NOT);
        let taken = match self.tokens.unary_operator(&targets) {
            Some((operator, _)) => Some(operator),
            None => None,
        };
        proof {
            self.position_is_bounded();
        }
        taken
    }

    /// Consumes the next token if a primary expression can begin with it.
    fn first(&mut self) -> (taken: Option<TokenData>)
        requires
            old(self).well_formed(),
        ensures
            final(self).well_formed(),
            final(self).kinds() == old(self).kinds(),
            taken is Some == (kind_at(old(self).kinds(), old(self).position()) matches Some(kind)
                && begins_primary(kind)),
            taken is Some ==> kind_at(old(self).kinds(), old(self).position()) == Some(
                taken->0.kind_of(),
            ),
            final(self).position() == old(self).position() + if taken is Some {
                1int
            } else {
                0int
            },
            0 <= final(self).position() <= final(self).kinds().len(),
            taken is Some ==> old(self).shapes() == seq![(taken->0.kind_of(), taken->0.payload())]
                + final(self).shapes(),
            taken is None ==> final(self).shapes() == old(self).shapes(),
    {
        proof {
            self.position_is_bounded();
            self.next_is_first();
            if self.tokens@.len() > 0 {
                shapes_split(self.tokens@);
            }
        }
        let targets = [
            TokenKind::LeftParenthesis,
            TokenKind::String,
            TokenKind::Float,
            TokenKind::Integer,
            TokenKind::Boolean,
            TokenKind::Identifier,
            TokenKind::LeftBrace,
        ];
        proof {
            assert(targets@[0] == TokenKind::LeftParenthesis);
            assert(targets@[1] == TokenKind::String);
            assert(targets@[2] == TokenKind::Float);
            assert(targets@[3] == TokenKind::Integer);
            assert(targets@[4] == TokenKind::Boolean);
            assert(targets@[5] == TokenKind::Identifier);
            assert(targets@[6] == TokenKind::LeftBrace);
        }
        let taken = match self.tokens.only_take(&targets) {
            Some(token) => Some(token.data()),
            None => None,
        };
        proof {
            self.position_is_bounded();
        }
        taken
    }

    /// The error for a token with which no primary expression can begin.
    fn no_primary(&self) -> (error: ParserError)
        requires
            self.well_formed(),
        ensures
            error.expects(primary_kinds(), place(self.tokens@)),
    {
        let mut kinds: Vec<TokenKind> = Vec::new();
        kinds.push(TokenKind::LeftParenthesis);
        kinds.push(TokenKind::String);
        kinds.push(TokenKind::Float);
        kinds.push(TokenKind::Integer);
        kinds.push(TokenKind::Boolean);
        kinds.push(TokenKind::Identifier);
        kinds.push(TokenKind::LeftBrace);
        assert(kinds@ =~= primary_kinds());
        self.tokens.expected(kinds)
    }

    /// Attempts to parse a statement. Corresponds to `statement` in the grammar.
    fn statement(&mut self) -> (result: Result<Statement, ParserError>)
        requires
            old(self).well_formed(),
        ensures
            final(self).well_formed(),
            final(self).kinds() == old(self).kinds(),
            old(self).position() <= final(self).position() <= final(self).kinds().len(),
            result is Ok == (statement_end(old(self).kinds(), old(self).position()) is Some),
            result is Ok ==> final(self).position() > old(self).position() && statement_end(old(self).kinds(), old(self).position())
                == Some(final(self).position()),
            result is Ok ==> old(self).shapes() == stated(result->Ok_0) + final(self).shapes(),
            result is Ok ==> formed_statement(result->Ok_0),
        decreases old(self).remaining(), 30nat,
    {
        proof {
            self.position_is_bounded();
        }
        let ghost all = self.kinds();
        let ghost start = self.position();
        proof {
            statement_end_step(all, start);
        }
        match self.next_kind() {
            Some(TokenKind::Let) => self.variable_declaration(),
            Some(TokenKind::Fu) => self.function_definition(),
            Some(TokenKind::Return) => self.return_statement(),
            Some(TokenKind::If) => self.if_statement(),
            Some(TokenKind::While) => self.while_loop(),
            Some(TokenKind::LeftBrace) => self.block(),
            _ => self.expression_statement(),
        }
    }

    /// Attempts to parse a variable declaration. Corresponds to `variableDeclaration` in the
    /// grammar.
    fn variable_declaration(&mut self) -> (result: Result<Statement, ParserError>)
        requires
            old(self).well_formed(),
        ensures
            final(self).well_formed(),
            final(self).kinds() == old(self).kinds(),
            old(self).position() <= final(self).position() <= final(self).kinds().len(),
            result is Ok == (variable_declaration_end(old(self).kinds(), old(self).position()) is Some),
            result is Ok ==> final(self).position() > old(self).position() && variable_declaration_end(old(self).kinds(), old(self).position())
                == Some(final(self).position()),
            result is Ok ==> old(self).shapes() == stated(result->Ok_0) + final(self).shapes(),
            result is Ok ==> formed_statement(result->Ok_0),
        decreases old(self).remaining(), 29nat,
    {
        proof {
            self.position_is_bounded();
        }
        let ghost all = self.kinds();
        let ghost start = self.position();
        proof {
            variable_declaration_end_step(all, start);
        }
        match self.expect(TokenKind::Let) {
            Ok(_) => {},
            Err(error) => {
                assert(variable_declaration_end(all, start) is None);
                return Err(error);
            },
        }
        let identifier = match self.identifier() {
            Ok(value) => value,
            Err(error) => {
                assert(variable_declaration_end(all, start) is None);
                return Err(error);
            },
        };
        let initialiser = if self.accept(TokenKind::Equal) {
            match self.expression() {
                Ok(expression) => Some(expression),
                Err(error) => {
                    assert(variable_declaration_end(all, start) is None);
                    return Err(error);
                },
            }
        } else {
            None
        };
        match self.expect(TokenKind::Semicolon) {
            Ok(_) => {},
            Err(error) => {
                assert(variable_declaration_end(all, start) is None);
                return Err(error);
            },
        }
        let statement = Statement::VariableDeclaration { identifier, initialiser };
        assert(old(self).shapes() =~= stated(statement) + self.shapes());
        Ok(statement)
    }

    /// Attempts to parse a function definition. Corresponds to `functionDefinition` in the
    /// grammar.
    fn function_definition(&mut self) -> (result: Result<Statement, ParserError>)
        requires
            old(self).well_formed(),
        ensures
            final(self).well_formed(),
            final(self).kinds() == old(self).kinds(),
            old(self).position() <= final(self).position() <= final(self).kinds().len(),
            result is Ok == (function_definition_end(old(self).kinds(), old(self).position()) is Some),
            result is Ok ==> final(self).position() > old(self).position() && function_definition_end(old(self).kinds(), old(self).position())
                == Some(final(self).position()),
            result is Ok ==> old(self).shapes() == stated(result->Ok_0) + final(self).shapes(),
            result is Ok ==> formed_statement(result->Ok_0),
        decreases old(self).remaining(), 29nat,
    {
        proof {
            self.position_is_bounded();
        }
        let ghost all = self.kinds();
        let ghost start = self.position();
        proof {
            function_definition_end_step(all, start);
        }
        match self.expect(TokenKind::Fu) {
            Ok(_) => {},
            Err(error) => {
                assert(function_definition_end(all, start) is None);
                return Err(error);
            },
        }
        let identifier = match self.identifier() {
            Ok(value) => value,
            Err(error) => {
                assert(function_definition_end(all, start) is None);
                return Err(error);
            },
        };
        match self.expect(TokenKind::LeftParenthesis) {
            Ok(_) => {},
            Err(error) => {
                assert(function_definition_end(all, start) is None);
                return Err(error);
            },
        }
        let ghost inside = self.shapes();
        let mut parameters: Vec<String> = Vec::new();
        assert(inside =~= names_listed(parameters@) + self.shapes());
        if let Ok(parameter) = self.identifier() {
            parameters.push(parameter);
            assert(inside =~= names_listed(parameters@) + self.shapes());
            loop
                invariant
                    self.well_formed(),
                    self.kinds() == all,
                    all == old(self).kinds(),
                    start == old(self).position(),
                    start + 4 <= self.position() <= all.len(),
                    stands(all, start, TokenKind::Fu),
                    stands(all, start + 1, TokenKind::Identifier),
                    stands(all, start + 2, TokenKind::LeftParenthesis),
                    stands(all, start + 3, TokenKind::Identifier),
                    parameters@.len() >= 1,
                    inside == names_listed(parameters@) + self.shapes(),
                    names_rest(all, self.position()) == names_rest(all, start + 4),
                ensures
                    self.position() == names_rest(all, start + 4),
                    !stands(all, self.position(), TokenKind::Comma),
                decreases self.remaining(),
            {
                proof {
                    function_definition_end_step(all, start);
                    names_rest_step(all, self.position());
                }
                let ghost listed_before = parameters@;
                if !self.accept(TokenKind::Comma) {
                    break ;
                }
                match self.identifier() {
                    Ok(parameter) => parameters.push(parameter),
                    Err(error) => {
                        assert(function_definition_end(all, start) is None);
                        return Err(error);
                    },
                }
                assert(parameters@.drop_last() =~= listed_before);
                assert(inside =~= names_listed(parameters@) + self.shapes());
            }
        }
        match self.expect(TokenKind::RightParenthesis) {
            Ok(_) => {},
            Err(error) => {
                assert(function_definition_end(all, start) is None);
                return Err(error);
            },
        }
        let block = match self.block() {
            Ok(value) => value,
            Err(error) => {
                assert(function_definition_end(all, start) is None);
                return Err(error);
            },
        };
        let statement = Statement::FunctionDefinition {
            identifier,
            parameters: Rc::new(parameters),
            block: Rc::new(block),
        };
        assert(old(self).shapes() =~= stated(statement) + self.shapes());
        Ok(statement)
    }

    /// Attempts to parse a return statement. Corresponds to `returnStatement` in the grammar.
    fn return_statement(&mut self) -> (result: Result<Statement, ParserError>)
        requires
            old(self).well_formed(),
        ensures
            final(self).well_formed(),
            final(self).kinds() == old(self).kinds(),
            old(self).position() <= final(self).position() <= final(self).kinds().len(),
            result is Ok == (return_end(old(self).kinds(), old(self).position()) is Some),
            result is Ok ==> final(self).position() > old(self).position() && return_end(old(self).kinds(), old(self).position())
                == Some(final(self).position()),
            result is Ok ==> old(self).shapes() == stated(result->Ok_0) + final(self).shapes(),
            result is Ok ==> formed_statement(result->Ok_0),
        decreases old(self).remaining(), 29nat,
    {
        proof {
            self.position_is_bounded();
        }
        let ghost all = self.kinds();
        let ghost start = self.position();
        proof {
            return_end_step(all, start);
        }
        match self.expect(TokenKind::Return) {
            Ok(_) => {},
            Err(error) => {
                assert(return_end(all, start) is None);
                return Err(error);
            },
        }
        if self.accept(TokenKind::Semicolon) {
            let statement = Statement::Return(None);
            assert(old(self).shapes() =~= stated(statement) + self.shapes());
            Ok(statement)
        } else {
            let expression = match self.expression() {
                Ok(value) => value,
                Err(error) => {
                    assert(return_end(all, start) is None);
                    return Err(error);
                },
            };
            match self.expect(TokenKind::Semicolon) {
                Ok(_) => {},
                Err(error) => {
                    assert(return_end(all, start) is None);
                    return Err(error);
                },
            }
            let statement = Statement::Return(Some(expression));
            assert(old(self).shapes() =~= stated(statement) + self.shapes());
            Ok(statement)
        }
    }

    /// Attempts to parse an if-statement. Corresponds to `ifStatement` in the grammar.
    fn if_statement(&mut self) -> (result: Result<Statement, ParserError>)
        requires
            old(self).well_formed(),
        ensures
            final(self).well_formed(),
            final(self).kinds() == old(self).kinds(),
            old(self).position() <= final(self).position() <= final(self).kinds().len(),
            result is Ok == (if_end(old(self).kinds(), old(self).position()) is Some),
            result is Ok ==> final(self).position() > old(self).position() && if_end(old(self).kinds(), old(self).position())
                == Some(final(self).position()),
            result is Ok ==> old(self).shapes() == stated(result->Ok_0) + final(self).shapes(),
            result is Ok ==> formed_statement(result->Ok_0),
            result is Ok ==> result->Ok_0 is IfStatement,
        decreases old(self).remaining(), 29nat,
    {
        proof {
            self.position_is_bounded();
        }
        let ghost all = self.kinds();
        let ghost start = self.position();
        proof {
            if_end_step(all, start);
        }
        match self.expect(TokenKind::If) {
            Ok(_) => {},
            Err(error) => {
                assert(if_end(all, start) is None);
                return Err(error);
            },
        }
        let condition = match self.expression() {
            Ok(value) => value,
            Err(error) => {
                assert(if_end(all, start) is None);
                return Err(error);
            },
        };
        let execute_if_true = match self.block() {
            Ok(value) => value,
            Err(error) => {
                assert(if_end(all, start) is None);
                return Err(error);
            },
        };
        let execute_if_false = if self.accept(TokenKind::Else) {
            match self.next_kind() {
                Some(TokenKind::If) => match self.if_statement() {
                    Ok(statement) => Some(Box::new(statement)),
                    Err(error) => {
                        assert(if_end(all, start) is None);
                        return Err(error);
                    },
                },
                Some(TokenKind::LeftBrace) => match self.block() {
                    Ok(statement) => Some(Box::new(statement)),
                    Err(error) => {
                        assert(if_end(all, start) is None);
                        return Err(error);
                    },
                },
                _ => {
                    let mut kinds: Vec<TokenKind> = Vec::new();
                    kinds.push(TokenKind::If);
                    kinds.push(TokenKind::LeftBrace);
                    assert(if_end(all, start) is None);
                    return Err(self.tokens.expected(kinds));
                },
            }
        } else {
            None
        };
        let statement = Statement::IfStatement {
            condition,
            execute_if_true: Box::new(execute_if_true),
            execute_if_false,
        };
        assert(old(self).shapes() =~= stated(statement) + self.shapes());
        Ok(statement)
    }

    /// Attempts to parse a while-loop. Corresponds to `whileLoop` in the grammar.
    fn while_loop(&mut self) -> (result: Result<Statement, ParserError>)
        requires
            old(self).well_formed(),
        ensures
            final(self).well_formed(),
            final(self).kinds() == old(self).kinds(),
            old(self).position() <= final(self).position() <= final(self).kinds().len(),
            result is Ok == (while_end(old(self).kinds(), old(self).position()) is Some),
            result is Ok ==> final(self).position() > old(self).position() && while_end(old(self).kinds(), old(self).position())
                == Some(final(self).position()),
            result is Ok ==> old(self).shapes() == stated(result->Ok_0) + final(self).shapes(),
            result is Ok ==> formed_statement(result->Ok_0),
        decreases old(self).remaining(), 29nat,
    {
        proof {
            self.position_is_bounded();
        }
        let ghost all = self.kinds();
        let ghost start = self.position();
        proof {
            while_end_step(all, start);
        }
        match self.expect(TokenKind::While) {
            Ok(_) => {},
            Err(error) => {
                assert(while_end(all, start) is None);
                return Err(error);
            },
        }
        let condition = match self.expression() {
            Ok(value) => value,
            Err(error) => {
                assert(while_end(all, start) is None);
                return Err(error);
            },
        };
        let block = match self.block() {
            Ok(value) => value,
            Err(error) => {
                assert(while_end(all, start) is None);
                return Err(error);
            },
        };
        let statement = Statement::WhileLoop { condition, block: Box::new(block) };
        assert(old(self).shapes() =~= stated(statement) + self.shapes());
        Ok(statement)
    }

    /// Attempts to parse a block statement. Corresponds to `block` in the grammar.
    fn block(&mut self) -> (result: Result<Statement, ParserError>)
        requires
            old(self).well_formed(),
        ensures
            final(self).well_formed(),
            final(self).kinds() == old(self).kinds(),
            old(self).position() <= final(self).position() <= final(self).kinds().len(),
            result is Ok == (block_end(old(self).kinds(), old(self).position()) is Some),
            result is Ok ==> final(self).position() > old(self).position() && block_end(old(self).kinds(), old(self).position())
                == Some(final(self).position()),
            result is Ok ==> old(self).shapes() == stated(result->Ok_0) + final(self).shapes(),
            result is Ok ==> formed_statement(result->Ok_0),
            result is Ok ==> result->Ok_0 is Block,
        decreases old(self).remaining(), 28nat,
    {
        proof {
            self.position_is_bounded();
        }
        let ghost all = self.kinds();
        let ghost start = self.position();
        proof {
            block_end_step(all, start);
        }
        match self.expect(TokenKind::LeftBrace) {
            Ok(_) => {},
            Err(error) => {
                assert(block_end(all, start) is None);
                return Err(error);
            },
        }
        let ghost inside = self.shapes();
        let mut statements: Vec<Statement> = Vec::new();
        assert(inside =~= sequence(statements@) + self.shapes());
        loop
            invariant
                self.well_formed(),
                self.kinds() == all,
                all == old(self).kinds(),
                start == old(self).position(),
                start < self.position() <= all.len(),
                stands(all, start, TokenKind::LeftBrace),
                block_rest(all, self.position()) == block_rest(all, start + 1),
                inside == sequence(statements@) + self.shapes(),
                forall|i: int|
                    0 <= i < statements@.len() ==> formed_statement(#[trigger] statements@[i]),
            ensures
                block_rest(all, start + 1) == closing(
                    all,
                    self.position(),
                    TokenKind::RightBrace,
                ),
            decreases self.remaining(),
        {
            proof {
                block_end_step(all, start);
                block_rest_step(all, self.position());
            }
            match self.next_kind() {
                Some(TokenKind::RightBrace) => {
                    break ;
                },
                None => {
                    break ;
                },
                _ => {},
            }
            let ghost parsed = statements@;
            match self.statement() {
                Ok(statement) => statements.push(statement),
                Err(error) => {
                    assert(block_end(all, start) is None);
                    return Err(error);
                },
            }
            assert(statements@.drop_last() =~= parsed);
            assert(inside =~= sequence(statements@) + self.shapes());
        }
        match self.expect(TokenKind::RightBrace) {
            Ok(_) => {},
            Err(error) => {
                assert(block_end(all, start) is None);
                return Err(error);
            },
        }
        let statement = Statement::Block(statements);
        assert(old(self).shapes() =~= stated(statement) + self.shapes());
        Ok(statement)
    }

    /// Attempts to parse an expression statement. Corresponds to `expressionStatement` in the
    /// grammar.
    fn expression_statement(&mut self) -> (result: Result<Statement, ParserError>)
        requires
            old(self).well_formed(),
        ensures
            final(self).well_formed(),
            final(self).kinds() == old(self).kinds(),
            old(self).position() <= final(self).position() <= final(self).kinds().len(),
            result is Ok == (expression_statement_end(old(self).kinds(), old(self).position()) is Some),
            result is Ok ==> final(self).position() > old(self).position() && expression_statement_end(old(self).kinds(), old(self).position())
                == Some(final(self).position()),
            result is Ok ==> old(self).shapes() == stated(result->Ok_0) + final(self).shapes(),
            result is Ok ==> formed_statement(result->Ok_0),
        decreases old(self).remaining(), 29nat,
    {
        proof {
            self.position_is_bounded();
        }
        let ghost all = self.kinds();
        let ghost start = self.position();
        proof {
            expression_statement_end_step(all, start);
        }
        let expression = match self.expression() {
            Ok(value) => value,
            Err(error) => {
                assert(expression_statement_end(all, start) is None);
                return Err(error);
            },
        };
        match self.expect(TokenKind::Semicolon) {
            Ok(_) => {},
            Err(error) => {
                assert(expression_statement_end(all, start) is None);
                return Err(error);
            },
        }
        let statement = Statement::Expression(expression);
        assert(old(self).shapes() =~= stated(statement) + self.shapes());
        Ok(statement)
    }

    /// Attempts to parse an expression. Corresponds to `expression` in the grammar.
    fn expression(&mut self) -> (result: Result<Expression, ParserError>)
        requires
            old(self).well_formed(),
        ensures
            final(self).well_formed(),
            final(self).kinds() == old(self).kinds(),
            old(self).position() <= final(self).position() <= final(self).kinds().len(),
            result is Ok == (expression_end(old(self).kinds(), old(self).position()) is Some),
            result is Ok ==> final(self).position() > old(self).position() && expression_end(old(self).kinds(), old(self).position())->0 == (Found {
                end: final(self).position(),
                target: target_of(result->Ok_0),
            }),
            result is Ok ==> old(self).shapes() == written(result->Ok_0) + final(self).shapes(),
            result is Ok ==> formed(result->Ok_0) && tier(result->Ok_0) <= 11,
        decreases old(self).remaining(), 20nat,
    {
        proof {
            self.position_is_bounded();
        }
        let ghost all = self.kinds();
        let ghost start = self.position();
        proof {
            expression_end_step(all, start);
        }
        self.assignment()
    }

    /// Attempts to parse an assignment. Corresponds to `assignment` in the grammar.
    fn assignment(&mut self) -> (result: Result<Expression, ParserError>)
        requires
            old(self).well_formed(),
        ensures
            final(self).well_formed(),
            final(self).kinds() == old(self).kinds(),
            old(self).position() <= final(self).position() <= final(self).kinds().len(),
            result is Ok == (assignment_end(old(self).kinds(), old(self).position()) is Some),
            result is Ok ==> final(self).position() > old(self).position() && assignment_end(old(self).kinds(), old(self).position())->0 == (Found {
                end: final(self).position(),
                target: target_of(result->Ok_0),
            }),
            result is Ok ==> old(self).shapes() == written(result->Ok_0) + final(self).shapes(),
            result is Ok ==> formed(result->Ok_0) && tier(result->Ok_0) <= 11,
        decreases old(self).remaining(), 19nat,
    {
        proof {
            self.position_is_bounded();
        }
        let ghost all = self.kinds();
        let ghost start = self.position();
        proof {
            assignment_end_step(all, start);
        }
        let expression = match self.ternary() {
            Ok(value) => value,
            Err(error) => {
                assert(assignment_end(all, start) is None);
                return Err(error);
            },
        };
        if let Some(equals) = self.take(TokenKind::Equal) {
            let value = match self.assignment() {
                Ok(value) => value,
                Err(error) => {
                    assert(assignment_end(all, start) is None);
                    return Err(error);
                },
            };
            match expression {
                Expression::GetField { object, field } => {
                    let assigned = Expression::SetField { object, field, value: Box::new(value) };
                    assert(old(self).shapes() =~= written(assigned) + self.shapes());
                    Ok(assigned)
                },
                Expression::Variable { identifier } => {
                    let assigned = Expression::Assignment { identifier, value: Box::new(value) };
                    assert(old(self).shapes() =~= written(assigned) + self.shapes());
                    Ok(assigned)
                },
                _ => Err(ParserError::InvalidAssignmentTarget(equals)),
            }
        } else {
            Ok(expression)
        }
    }

    /// Attempts to parse a ternary expression. Corresponds to `ternary` in the grammar.
    fn ternary(&mut self) -> (result: Result<Expression, ParserError>)
        requires
            old(self).well_formed(),
        ensures
            final(self).well_formed(),
            final(self).kinds() == old(self).kinds(),
            old(self).position() <= final(self).position() <= final(self).kinds().len(),
            result is Ok == (ternary_end(old(self).kinds(), old(self).position()) is Some),
            result is Ok ==> final(self).position() > old(self).position() && ternary_end(old(self).kinds(), old(self).position())->0 == (Found {
                end: final(self).position(),
                target: target_of(result->Ok_0),
            }),
            result is Ok ==> old(self).shapes() == written(result->Ok_0) + final(self).shapes(),
            result is Ok ==> formed(result->Ok_0) && tier(result->Ok_0) <= 10,
        decreases old(self).remaining(), 18nat,
    {
        proof {
            self.position_is_bounded();
        }
        let ghost all = self.kinds();
        let ghost start = self.position();
        proof {
            ternary_end_step(all, start);
        }
        let expression = match self.logical() {
            Ok(value) => value,
            Err(error) => {
                assert(ternary_end(all, start) is None);
                return Err(error);
            },
        };
        if self.accept(TokenKind::QuestionMark) {
            let left = match self.logical() {
                Ok(value) => value,
                Err(error) => {
                    assert(ternary_end(all, start) is None);
                    return Err(error);
                },
            };
            match self.expect(TokenKind::Colon) {
                Ok(_) => {},
                Err(error) => {
                    assert(ternary_end(all, start) is None);
                    return Err(error);
                },
            }
            let right = match self.logical() {
                Ok(value) => value,
                Err(error) => {
                    assert(ternary_end(all, start) is None);
                    return Err(error);
                },
            };
            let chosen = Expression::Ternary {
                condition: Box::new(expression),
                left: Box::new(left),
                right: Box::new(right),
            };
            assert(old(self).shapes() =~= written(chosen) + self.shapes());
            Ok(chosen)
        } else {
            Ok(expression)
        }
    }

    /// Attempts to parse a logical expression. Corresponds to `logical` in the grammar.
    fn logical(&mut self) -> (result: Result<Expression, ParserError>)
        requires
            old(self).well_formed(),
        ensures
            final(self).well_formed(),
            final(self).kinds() == old(self).kinds(),
            old(self).position() <= final(self).position() <= final(self).kinds().len(),
            result is Ok == (binary_end(old(self).kinds(), old(self).position(), 6) is Some),
            result is Ok ==> final(self).position() > old(self).position() && binary_end(old(self).kinds(), old(self).position(), 6)->0 == (Found {
                end: final(self).position(),
                target: target_of(result->Ok_0),
            }),
            result is Ok ==> old(self).shapes() == written(result->Ok_0) + final(self).shapes(),
            result is Ok ==> formed(result->Ok_0) && tier(result->Ok_0) <= 9,
        decreases old(self).remaining(), 17nat,
    {
        proof {
            self.position_is_bounded();
        }
        let ghost all = self.kinds();
        let ghost start = self.position();
        proof {
            binary_end_step(all, start, 6);
            operand_end_step(all, start, 6);
        }
        let targets = [BinaryOperator::AND, BinaryOperator::OR];
        proof {
            assert(targets@[0] == BinaryOperator::AND);
            assert(targets@[1] == BinaryOperator::OR);
            assert(targets@ =~= operators_of(6));
        }
        let mut expression = match self.equality() {
            Ok(value) => value,
            Err(error) => {
                assert(operand_end(all, start, 6) is None);
                assert(binary_end(all, start, 6) is None);
                return Err(error);
            },
        };
        proof {
            let first = Found { end: self.position(), target: target_of(expression) };
            assert(operand_end(all, start, 6) == Some(first));
            assert(onward(all, start, Some(first)) == Some(first));
            assert(binary_end(all, start, 6) == binary_rest(all, first, 6));
        }
        loop
            invariant
                self.well_formed(),
                self.kinds() == all,
                all == old(self).kinds(),
                start == old(self).position(),
                start < self.position() <= all.len(),
                targets@ == operators_of(6),
                binary_rest(
                    all,
                    Found { end: self.position(), target: target_of(expression) },
                    6,
                ) == binary_end(all, start, 6),
                old(self).shapes() == written(expression) + self.shapes(),
                formed(expression),
                tier(expression) <= 9,
            ensures
                binary_end(all, start, 6) == Some(
                    Found { end: self.position(), target: target_of(expression) },
                ),
            decreases self.remaining(),
        {
            proof {
                binary_rest_step(all, Found { end: self.position(), target: target_of(expression) }, 6);
                operand_end_step(all, self.position() + 1, 6);
            }
            let ghost found = Found { end: self.position(), target: target_of(expression) };
            let operator = match self.binary(&targets) {
                Some((operator, _)) => operator,
                None => {
                    assert(binary_rest(all, found, 6) == Some(found));
                    break ;
                },
            };
            assert(operator_at(all, found.end, operators_of(6)));
            let right = match self.equality() {
                Ok(right) => right,
                Err(error) => {
                    assert(operand_end(all, found.end + 1, 6) is None);
                    assert(binary_rest(all, found, 6) is None);
                    return Err(error);
                },
            };
            let ghost second = Found { end: self.position(), target: target_of(right) };
            assert(operand_end(all, found.end + 1, 6) == Some(second));
            assert(onward(all, found.end + 1, Some(second)) == Some(second));
            assert(binary_rest(all, found, 6) == binary_rest(
                all,
                Found { end: second.end, target: Target::Other },
                6,
            ));
            expression = Expression::Binary {
                left: Box::new(expression),
                operator,
                right: Box::new(right),
            };
            assert(old(self).shapes() =~= written(expression) + self.shapes());
        }
        Ok(expression)
    }

    /// Attempts to parse an equality expression. Corresponds to `equality` in the grammar.
    fn equality(&mut self) -> (result: Result<Expression, ParserError>)
        requires
            old(self).well_formed(),
        ensures
            final(self).well_formed(),
            final(self).kinds() == old(self).kinds(),
            old(self).position() <= final(self).position() <= final(self).kinds().len(),
            result is Ok == (binary_end(old(self).kinds(), old(self).position(), 5) is Some),
            result is Ok ==> final(self).position() > old(self).position() && binary_end(old(self).kinds(), old(self).position(), 5)->0 == (Found {
                end: final(self).position(),
                target: target_of(result->Ok_0),
            }),
            result is Ok ==> old(self).shapes() == written(result->Ok_0) + final(self).shapes(),
            result is Ok ==> formed(result->Ok_0) && tier(result->Ok_0) <= 8,
        decreases old(self).remaining(), 16nat,
    {
        proof {
            self.position_is_bounded();
        }
        let ghost all = self.kinds();
        let ghost start = self.position();
        proof {
            binary_end_step(all, start, 5);
            operand_end_step(all, start, 5);
        }
        let targets = [BinaryOperator::NotEqualTo, BinaryOperator::EqualTo];
        proof {
            assert(targets@[0] == BinaryOperator::NotEqualTo);
            assert(targets@[1] == BinaryOperator::EqualTo);
            assert(targets@ =~= operators_of(5));
        }
        let mut expression = match self.comparison() {
            Ok(value) => value,
            Err(error) => {
                assert(operand_end(all, start, 5) is None);
                assert(binary_end(all, start, 5) is None);
                return Err(error);
            },
        };
        proof {
            let first = Found { end: self.position(), target: target_of(expression) };
            assert(operand_end(all, start, 5) == Some(first));
            assert(onward(all, start, Some(first)) == Some(first));
            assert(binary_end(all, start, 5) == binary_rest(all, first, 5));
        }
        loop
            invariant
                self.well_formed(),
                self.kinds() == all,
                all == old(self).kinds(),
                start == old(self).position(),
                start < self.position() <= all.len(),
                targets@ == operators_of(5),
                binary_rest(
                    all,
                    Found { end: self.position(), target: target_of(expression) },
                    5,
                ) == binary_end(all, start, 5),
                old(self).shapes() == written(expression) + self.shapes(),
                formed(expression),
                tier(expression) <= 8,
            ensures
                binary_end(all, start, 5) == Some(
                    Found { end: self.position(), target: target_of(expression) },
                ),
            decreases self.remaining(),
        {
            proof {
                binary_rest_step(all, Found { end: self.position(), target: target_of(expression) }, 5);
                operand_end_step(all, self.position() + 1, 5);
            }
            let ghost found = Found { end: self.position(), target: target_of(expression) };
            let operator = match self.binary(&targets) {
                Some((operator, _)) => operator,
                None => {
                    assert(binary_rest(all, found, 5) == Some(found));
                    break ;
                },
            };
            assert(operator_at(all, found.end, operators_of(5)));
            let right = match self.comparison() {
                Ok(right) => right,
                Err(error) => {
                    assert(operand_end(all, found.end + 1, 5) is None);
                    assert(binary_rest(all, found, 5) is None);
                    return Err(error);
                },
            };
            let ghost second = Found { end: self.position(), target: target_of(right) };
            assert(operand_end(all, found.end + 1, 5) == Some(second));
            assert(onward(all, found.end + 1, Some(second)) == Some(second));
            assert(binary_rest(all, found, 5) == binary_rest(
                all,
                Found { end: second.end, target: Target::Other },
                5,
            ));
            expression = Expression::Binary {
                left: Box::new(expression),
                operator,
                right: Box::new(right),
            };
            assert(old(self).shapes() =~= written(expression) + self.shapes());
        }
        Ok(expression)
    }

    /// Attempts to parse a comparison expression. Corresponds to `comparison` in the grammar.
    fn comparison(&mut self) -> (result: Result<Expression, ParserError>)
        requires
            old(self).well_formed(),
        ensures
            final(self).well_formed(),
            final(self).kinds() == old(self).kinds(),
            old(self).position() <= final(self).position() <= final(self).kinds().len(),
            result is Ok == (binary_end(old(self).kinds(), old(self).position(), 4) is Some),
            result is Ok ==> final(self).position() > old(self).position() && binary_end(old(self).kinds(), old(self).position(), 4)->0 == (Found {
                end: final(self).position(),
                target: target_of(result->Ok_0),
            }),
            result is Ok ==> old(self).shapes() == written(result->Ok_0) + final(self).shapes(),
            result is Ok ==> formed(result->Ok_0) && tier(result->Ok_0) <= 7,
        decreases old(self).remaining(), 15nat,
    {
        proof {
            self.position_is_bounded();
        }
        let ghost all = self.kinds();
        let ghost start = self.position();
        proof {
            binary_end_step(all, start, 4);
            operand_end_step(all, start, 4);
        }
        let targets = [BinaryOperator::GreaterThan, BinaryOperator::GreaterThanOrEqualTo, BinaryOperator::LessThan, BinaryOperator::LessThanOrEqualTo];
        proof {
            assert(targets@[0] == BinaryOperator::GreaterThan);
            assert(targets@[1] == BinaryOperator::GreaterThanOrEqualTo);
            assert(targets@[2] == BinaryOperator::LessThan);
            assert(targets@[3] == BinaryOperator::LessThanOrEqualTo);
            assert(targets@ =~= operators_of(4));
        }
        let mut expression = match self.bitwise() {
            Ok(value) => value,
            Err(error) => {
                assert(operand_end(all, start, 4) is None);
                assert(binary_end(all, start, 4) is None);
                return Err(error);
            },
        };
        proof {
            let first = Found { end: self.position(), target: target_of(expression) };
            assert(operand_end(all, start, 4) == Some(first));
            assert(onward(all, start, Some(first)) == Some(first));
            assert(binary_end(all, start, 4) == binary_rest(all, first, 4));
        }
        loop
            invariant
                self.well_formed(),
                self.kinds() == all,
                all == old(self).kinds(),
                start == old(self).position(),
                start < self.position() <= all.len(),
                targets@ == operators_of(4),
                binary_rest(
                    all,
                    Found { end: self.position(), target: target_of(expression) },
                    4,
                ) == binary_end(all, start, 4),
                old(self).shapes() == written(expression) + self.shapes(),
                formed(expression),
                tier(expression) <= 7,
            ensures
                binary_end(all, start, 4) == Some(
                    Found { end: self.position(), target: target_of(expression) },
                ),
            decreases self.remaining(),
        {
            proof {
                binary_rest_step(all, Found { end: self.position(), target: target_of(expression) }, 4);
                operand_end_step(all, self.position() + 1, 4);
            }
            let ghost found = Found { end: self.position(), target: target_of(expression) };
            let operator = match self.binary(&targets) {
                Some((operator, _)) => operator,
                None => {
                    assert(binary_rest(all, found, 4) == Some(found));
                    break ;
                },
            };
            assert(operator_at(all, found.end, operators_of(4)));
            let right = match self.bitwise() {
                Ok(right) => right,
                Err(error) => {
                    assert(operand_end(all, found.end + 1, 4) is None);
                    assert(binary_rest(all, found, 4) is None);
                    return Err(error);
                },
            };
            let ghost second = Found { end: self.position(), target: target_of(right) };
            assert(operand_end(all, found.end + 1, 4) == Some(second));
            assert(onward(all, found.end + 1, Some(second)) == Some(second));
            assert(binary_rest(all, found, 4) == binary_rest(
                all,
                Found { end: second.end, target: Target::Other },
                4,
            ));
            expression = Expression::Binary {
                left: Box::new(expression),
                operator,
                right: Box::new(right),
            };
            assert(old(self).shapes() =~= written(expression) + self.shapes());
        }
        Ok(expression)
    }

    /// Attempts to parse a bitwise expression. Corresponds to `bitwise` in the grammar.
    fn bitwise(&mut self) -> (result: Result<Expression, ParserError>)
        requires
            old(self).well_formed(),
        ensures
            final(self).well_formed(),
            final(self).kinds() == old(self).kinds(),
            old(self).position() <= final(self).position() <= final(self).kinds().len(),
            result is Ok == (binary_end(old(self).kinds(), old(self).position(), 3) is Some),
            result is Ok ==> final(self).position() > old(self).position() && binary_end(old(self).kinds(), old(self).position(), 3)->0 == (Found {
                end: final(self).position(),
                target: target_of(result->Ok_0),
            }),
            result is Ok ==> old(self).shapes() == written(result->Ok_0) + final(self).shapes(),
            result is Ok ==> formed(result->Ok_0) && tier(result->Ok_0) <= 6,
        decreases old(self).remaining(), 14nat,
    {
        proof {
            self.position_is_bounded();
        }
        let ghost all = self.kinds();
        let ghost start = self.position();
        proof {
            binary_end_step(all, start, 3);
            operand_end_step(all, start, 3);
        }
        let targets = [BinaryOperator::BitwiseAND, BinaryOperator::BitwiseOR];
        proof {
            assert(targets@[0] == BinaryOperator::BitwiseAND);
            assert(targets@[1] == BinaryOperator::BitwiseOR);
            assert(targets@ =~= operators_of(3));
        }
        let mut expression = match self.term() {
            Ok(value) => value,
            Err(error) => {
                assert(operand_end(all, start, 3) is None);
                assert(binary_end(all, start, 3) is None);
                return Err(error);
            },
        };
        proof {
            let first = Found { end: self.position(), target: target_of(expression) };
            assert(operand_end(all, start, 3) == Some(first));
            assert(onward(all, start, Some(first)) == Some(first));
            assert(binary_end(all, start, 3) == binary_rest(all, first, 3));
        }
        loop
            invariant
                self.well_formed(),
                self.kinds() == all,
                all == old(self).kinds(),
                start == old(self).position(),
                start < self.position() <= all.len(),
                targets@ == operators_of(3),
                binary_rest(
                    all,
                    Found { end: self.position(), target: target_of(expression) },
                    3,
                ) == binary_end(all, start, 3),
                old(self).shapes() == written(expression) + self.shapes(),
                formed(expression),
                tier(expression) <= 6,
            ensures
                binary_end(all, start, 3) == Some(
                    Found { end: self.position(), target: target_of(expression) },
                ),
            decreases self.remaining(),
        {
            proof {
                binary_rest_step(all, Found { end: self.position(), target: target_of(expression) }, 3);
                operand_end_step(all, self.position() + 1, 3);
            }
            let ghost found = Found { end: self.position(), target: target_of(expression) };
            let operator = match self.binary(&targets) {
                Some((operator, _)) => operator,
                None => {
                    assert(binary_rest(all, found, 3) == Some(found));
                    break ;
                },
            };
            assert(operator_at(all, found.end, operators_of(3)));
            let right = match self.term() {
                Ok(right) => right,
                Err(error) => {
                    assert(operand_end(all, found.end + 1, 3) is None);
                    assert(binary_rest(all, found, 3) is None);
                    return Err(error);
                },
            };
            let ghost second = Found { end: self.position(), target: target_of(right) };
            assert(operand_end(all, found.end + 1, 3) == Some(second));
            assert(onward(all, found.end + 1, Some(second)) == Some(second));
            assert(binary_rest(all, found, 3) == binary_rest(
                all,
                Found { end: second.end, target: Target::Other },
                3,
            ));
            expression = Expression::Binary {
                left: Box::new(expression),
                operator,
                right: Box::new(right),
            };
            assert(old(self).shapes() =~= written(expression) + self.shapes());
        }
        Ok(expression)
    }

    /// Attempts to parse a term. Corresponds to `term` in the grammar.
    fn term(&mut self) -> (result: Result<Expression, ParserError>)
        requires
            old(self).well_formed(),
        ensures
            final(self).well_formed(),
            final(self).kinds() == old(self).kinds(),
            old(self).position() <= final(self).position() <= final(self).kinds().len(),
            result is Ok == (binary_end(old(self).kinds(), old(self).position(), 2) is Some),
            result is Ok ==> final(self).position() > old(self).position() && binary_end(old(self).kinds(), old(self).position(), 2)->0 == (Found {
                end: final(self).position(),
                target: target_of(result->Ok_0),
            }),
            result is Ok ==> old(self).shapes() == written(result->Ok_0) + final(self).shapes(),
            result is Ok ==> formed(result->Ok_0) && tier(result->Ok_0) <= 5,
        decreases old(self).remaining(), 13nat,
    {
        proof {
            self.position_is_bounded();
        }
        let ghost all = self.kinds();
        let ghost start = self.position();
        proof {
            binary_end_step(all, start, 2);
            operand_end_step(all, start, 2);
        }
        let targets = [BinaryOperator::Add, BinaryOperator::Subtract];
        proof {
            assert(targets@[0] == BinaryOperator::Add);
            assert(targets@[1] == BinaryOperator::Subtract);
            assert(targets@ =~= operators_of(2));
        }
        let mut expression = match self.factor() {
            Ok(value) => value,
            Err(error) => {
                assert(operand_end(all, start, 2) is None);
                assert(binary_end(all, start, 2) is None);
                return Err(error);
            },
        };
        proof {
            let first = Found { end: self.position(), target: target_of(expression) };
            assert(operand_end(all, start, 2) == Some(first));
            assert(onward(all, start, Some(first)) == Some(first));
            assert(binary_end(all, start, 2) == binary_rest(all, first, 2));
        }
        loop
            invariant
                self.well_formed(),
                self.kinds() == all,
                all == old(self).kinds(),
                start == old(self).position(),
                start < self.position() <= all.len(),
                targets@ == operators_of(2),
                binary_rest(
                    all,
                    Found { end: self.position(), target: target_of(expression) },
                    2,
                ) == binary_end(all, start, 2),
                old(self).shapes() == written(expression) + self.shapes(),
                formed(expression),
                tier(expression) <= 5,
            ensures
                binary_end(all, start, 2) == Some(
                    Found { end: self.position(), target: target_of(expression) },
                ),
            decreases self.remaining(),
        {
            proof {
                binary_rest_step(all, Found { end: self.position(), target: target_of(expression) }, 2);
                operand_end_step(all, self.position() + 1, 2);
            }
            let ghost found = Found { end: self.position(), target: target_of(expression) };
            let operator = match self.binary(&targets) {
                Some((operator, _)) => operator,
                None => {
                    assert(binary_rest(all, found, 2) == Some(found));
                    break ;
                },
            };
            assert(operator_at(all, found.end, operators_of(2)));
            let right = match self.factor() {
                Ok(right) => right,
                Err(error) => {
                    assert(operand_end(all, found.end + 1, 2) is None);
                    assert(binary_rest(all, found, 2) is None);
                    return Err(error);
                },
            };
            let ghost second = Found { end: self.position(), target: target_of(right) };
            assert(operand_end(all, found.end + 1, 2) == Some(second));
            assert(onward(all, found.end + 1, Some(second)) == Some(second));
            assert(binary_rest(all, found, 2) == binary_rest(
                all,
                Found { end: second.end, target: Target::Other },
                2,
            ));
            expression = Expression::Binary {
                left: Box::new(expression),
                operator,
                right: Box::new(right),
            };
            assert(old(self).shapes() =~= written(expression) + self.shapes());
        }
        Ok(expression)
    }

    /// Attempts to parse a factor. Corresponds to `factor` in the grammar.
    fn factor(&mut self) -> (result: Result<Expression, ParserError>)
        requires
            old(self).well_formed(),
        ensures
            final(self).well_formed(),
            final(self).kinds() == old(self).kinds(),
            old(self).position() <= final(self).position() <= final(self).kinds().len(),
            result is Ok == (binary_end(old(self).kinds(), old(self).position(), 1) is Some),
            result is Ok ==> final(self).position() > old(self).position() && binary_end(old(self).kinds(), old(self).position(), 1)->0 == (Found {
                end: final(self).position(),
                target: target_of(result->Ok_0),
            }),
            result is Ok ==> old(self).shapes() == written(result->Ok_0) + final(self).shapes(),
            result is Ok ==> formed(result->Ok_0) && tier(result->Ok_0) <= 4,
        decreases old(self).remaining(), 12nat,
    {
        proof {
            self.position_is_bounded();
        }
        let ghost all = self.kinds();
        let ghost start = self.position();
        proof {
            binary_end_step(all, start, 1);
            operand_end_step(all, start, 1);
        }
        let targets = [BinaryOperator::Multiply, BinaryOperator::Divide];
        proof {
            assert(targets@[0] == BinaryOperator::Multiply);
            assert(targets@[1] == BinaryOperator::Divide);
            assert(targets@ =~= operators_of(1));
        }
        let mut expression = match self.unary() {
            Ok(value) => value,
            Err(error) => {
                assert(operand_end(all, start, 1) is None);
                assert(binary_end(all, start, 1) is None);
                return Err(error);
            },
        };
        proof {
            let first = Found { end: self.position(), target: target_of(expression) };
            assert(operand_end(all, start, 1) == Some(first));
            assert(onward(all, start, Some(first)) == Some(first));
            assert(binary_end(all, start, 1) == binary_rest(all, first, 1));
        }
        loop
            invariant
                self.well_formed(),
                self.kinds() == all,
                all == old(self).kinds(),
                start == old(self).position(),
                start < self.position() <= all.len(),
                targets@ == operators_of(1),
                binary_rest(
                    all,
                    Found { end: self.position(), target: target_of(expression) },
                    1,
                ) == binary_end(all, start, 1),
                old(self).shapes() == written(expression) + self.shapes(),
                formed(expression),
                tier(expression) <= 4,
            ensures
                binary_end(all, start, 1) == Some(
                    Found { end: self.position(), target: target_of(expression) },
                ),
            decreases self.remaining(),
        {
            proof {
                binary_rest_step(all, Found { end: self.position(), target: target_of(expression) }, 1);
                operand_end_step(all, self.position() + 1, 1);
            }
            let ghost found = Found { end: self.position(), target: target_of(expression) };
            let operator = match self.binary(&targets) {
                Some((operator, _)) => operator,
                None => {
                    assert(binary_rest(all, found, 1) == Some(found));
                    break ;
                },
            };
            assert(operator_at(all, found.end, operators_of(1)));
            let right = match self.unary() {
                Ok(right) => right,
                Err(error) => {
                    assert(operand_end(all, found.end + 1, 1) is None);
                    assert(binary_rest(all, found, 1) is None);
                    return Err(error);
                },
            };
            let ghost second = Found { end: self.position(), target: target_of(right) };
            assert(operand_end(all, found.end + 1, 1) == Some(second));
            assert(onward(all, found.end + 1, Some(second)) == Some(second));
            assert(binary_rest(all, found, 1) == binary_rest(
                all,
                Found { end: second.end, target: Target::Other },
                1,
            ));
            expression = Expression::Binary {
                left: Box::new(expression),
                operator,
                right: Box::new(right),
            };
            assert(old(self).shapes() =~= written(expression) + self.shapes());
        }
        Ok(expression)
    }

    /// Attempts to parse a unary expression. Corresponds to `unary` in the grammar.
    fn unary(&mut self) -> (result: Result<Expression, ParserError>)
        requires
            old(self).well_formed(),
        ensures
            final(self).well_formed(),
            final(self).kinds() == old(self).kinds(),
            old(self).position() <= final(self).position() <= final(self).kinds().len(),
            result is Ok == (unary_end(old(self).kinds(), old(self).position()) is Some),
            result is Ok ==> final(self).position() > old(self).position() && unary_end(old(self).kinds(), old(self).position())->0 == (Found {
                end: final(self).position(),
                target: target_of(result->Ok_0),
            }),
            result is Ok ==> old(self).shapes() == written(result->Ok_0) + final(self).shapes(),
            result is Ok ==> formed(result->Ok_0) && tier(result->Ok_0) <= 3,
        decreases old(self).remaining(), 11nat,
    {
        proof {
            self.position_is_bounded();
        }
        let ghost all = self.kinds();
        let ghost start = self.position();
        proof {
            unary_end_step(all, start);
        }
        if let Some(operator) = self.unary_operator() {
            match self.exponent() {
                Ok(operand) => {
                    let negated = Expression::Unary { operator, operand: Box::new(operand) };
                    assert(old(self).shapes() =~= written(negated) + self.shapes());
                    Ok(negated)
                },
                Err(error) => Err(error),
            }
        } else {
            let unsupported = [
                BinaryOperator::Add, BinaryOperator::Multiply, BinaryOperator::Divide, BinaryOperator::NotEqualTo,
                BinaryOperator::EqualTo, BinaryOperator::GreaterThan, BinaryOperator::GreaterThanOrEqualTo,
                BinaryOperator::LessThan, BinaryOperator::LessThanOrEqualTo, BinaryOperator::BitwiseAND, BinaryOperator::BitwiseOR,
            ];
            proof {
            assert(unsupported@[0] == BinaryOperator::Add);
            assert(unsupported@[1] == BinaryOperator::Multiply);
            assert(unsupported@[2] == BinaryOperator::Divide);
            assert(unsupported@[3] == BinaryOperator::NotEqualTo);
            assert(unsupported@[4] == BinaryOperator::EqualTo);
            assert(unsupported@[5] == BinaryOperator::GreaterThan);
            assert(unsupported@[6] == BinaryOperator::GreaterThanOrEqualTo);
            assert(unsupported@[7] == BinaryOperator::LessThan);
            assert(unsupported@[8] == BinaryOperator::LessThanOrEqualTo);
            assert(unsupported@[9] == BinaryOperator::BitwiseAND);
            assert(unsupported@[10] == BinaryOperator::BitwiseOR);
                assert(unsupported@ =~= misplaced());
            }
            if let Some((operator, location)) = self.binary(&unsupported) {
                let _ = self.exponent();
                Err(
                    ParserError::UnsupportedUnaryExpression {
                        location: GeneralLocation::Location(location),
                        operator,
                    },
                )
            } else {
                self.exponent()
            }
        }
    }

    /// Attempts to parse an exponent expression. Corresponds to `exponent` in the grammar.
    fn exponent(&mut self) -> (result: Result<Expression, ParserError>)
        requires
            old(self).well_formed(),
        ensures
            final(self).well_formed(),
            final(self).kinds() == old(self).kinds(),
            old(self).position() <= final(self).position() <= final(self).kinds().len(),
            result is Ok == (exponent_end(old(self).kinds(), old(self).position()) is Some),
            result is Ok ==> final(self).position() > old(self).position() && exponent_end(old(self).kinds(), old(self).position())->0 == (Found {
                end: final(self).position(),
                target: target_of(result->Ok_0),
            }),
            result is Ok ==> old(self).shapes() == written(result->Ok_0) + final(self).shapes(),
            result is Ok ==> formed(result->Ok_0) && tier(result->Ok_0) <= 2,
        decreases old(self).remaining(), 10nat,
    {
        proof {
            self.position_is_bounded();
        }
        let ghost all = self.kinds();
        let ghost start = self.position();
        proof {
            exponent_end_step(all, start);
        }
        let expression = match self.call() {
            Ok(value) => value,
            Err(error) => {
                assert(exponent_end(all, start) is None);
                return Err(error);
            },
        };
        if self.accept(TokenKind::Exponent) {
            match self.exponent() {
                Ok(right) => {
                    let raised = Expression::Binary {
                        left: Box::new(expression),
                        operator: BinaryOperator::Exponent,
                        right: Box::new(right),
                    };
                    assert(old(self).shapes() =~= written(raised) + self.shapes());
                    Ok(raised)
                },
                Err(error) => Err(error),
            }
        } else {
            Ok(expression)
        }
    }

    /// Attempts to parse the arguments of a call, up to and with the parenthesis that closes
    /// them.
    fn arguments(&mut self) -> (result: Result<Vec<Box<Expression>>, ParserError>)
        requires
            old(self).well_formed(),
        ensures
            final(self).well_formed(),
            final(self).kinds() == old(self).kinds(),
            old(self).position() <= final(self).position() <= final(self).kinds().len(),
            result is Ok == (arguments_end(old(self).kinds(), old(self).position()) is Some),
            result is Ok ==> final(self).position() > old(self).position() && arguments_end(old(self).kinds(), old(self).position())
                == Some(final(self).position()),
            result is Ok ==> old(self).shapes() == listed(result->Ok_0@) + lone(
                TokenKind::RightParenthesis,
            ) + final(self).shapes(),
            result is Ok ==> forall|i: int|
                0 <= i < result->Ok_0@.len() ==> formed(*#[trigger] result->Ok_0@[i]),
        decreases old(self).remaining(), 21nat,
    {
        proof {
            self.position_is_bounded();
        }
        let ghost all = self.kinds();
        let ghost start = self.position();
        proof {
            arguments_end_step(all, start);
        }
        let mut arguments: Vec<Box<Expression>> = Vec::new();
        let more = match self.next_kind() {
            Some(TokenKind::RightParenthesis) => false,
            Some(_) => true,
            None => false,
        };
        assert(old(self).shapes() =~= listed(arguments@) + self.shapes());
        if more {
            match self.expression() {
                Ok(argument) => arguments.push(Box::new(argument)),
                Err(error) => {
                    assert(arguments_end(all, start) is None);
                    return Err(error);
                },
            }
            assert(old(self).shapes() =~= listed(arguments@) + self.shapes());
            loop
                invariant
                    self.well_formed(),
                    self.kinds() == all,
                    all == old(self).kinds(),
                    start == old(self).position(),
                    start < self.position() <= all.len(),
                    arguments@.len() >= 1,
                    arguments_rest(all, self.position()) == arguments_end(all, start),
                    old(self).shapes() == listed(arguments@) + self.shapes(),
                    forall|i: int| 0 <= i < arguments@.len() ==> formed(*#[trigger] arguments@[i]),
                ensures
                    arguments_end(all, start) == closing(all, self.position(), TokenKind::RightParenthesis),
                decreases self.remaining(),
            {
                proof {
                    arguments_rest_step(all, self.position());
                }
                let ghost listed_before = arguments@;
                if !self.accept(TokenKind::Comma) {
                    break ;
                }
                match self.expression() {
                    Ok(argument) => arguments.push(Box::new(argument)),
                    Err(error) => {
                        assert(arguments_end(all, start) is None);
                        return Err(error);
                    },
                }
                assert(arguments@.drop_last() =~= listed_before);
                assert(old(self).shapes() =~= listed(arguments@) + self.shapes());
            }
        }
        match self.expect(TokenKind::RightParenthesis) {
            Ok(_) => Ok(arguments),
            Err(error) => Err(error),
        }
    }

    /// Attempt to parse a call expression. Corresponds to `call` in the grammar.
    fn call(&mut self) -> (result: Result<Expression, ParserError>)
        requires
            old(self).well_formed(),
        ensures
            final(self).well_formed(),
            final(self).kinds() == old(self).kinds(),
            old(self).position() <= final(self).position() <= final(self).kinds().len(),
            result is Ok == (call_end(old(self).kinds(), old(self).position()) is Some),
            result is Ok ==> final(self).position() > old(self).position() && call_end(old(self).kinds(), old(self).position())->0 == (Found {
                end: final(self).position(),
                target: target_of(result->Ok_0),
            }),
            result is Ok ==> old(self).shapes() == written(result->Ok_0) + final(self).shapes(),
            result is Ok ==> formed(result->Ok_0) && tier(result->Ok_0) <= 1,
        decreases old(self).remaining(), 9nat,
    {
        proof {
            self.position_is_bounded();
        }
        let ghost all = self.kinds();
        let ghost start = self.position();
        proof {
            call_end_step(all, start);
        }
        let mut expression = match self.primary() {
            Ok(value) => value,
            Err(error) => {
                assert(call_end(all, start) is None);
                return Err(error);
            },
        };
        loop
            invariant
                self.well_formed(),
                self.kinds() == all,
                all == old(self).kinds(),
                start == old(self).position(),
                start < self.position() <= all.len(),
                call_rest(all, Found { end: self.position(), target: target_of(expression) })
                    == call_end(all, start),
                old(self).shapes() == written(expression) + self.shapes(),
                formed(expression),
                tier(expression) <= 1,
            ensures
                call_end(all, start) == Some(
                    Found { end: self.position(), target: target_of(expression) },
                ),
            decreases self.remaining(),
        {
            proof {
                call_rest_step(all, Found { end: self.position(), target: target_of(expression) });
            }
            if self.accept(TokenKind::LeftParenthesis) {
                let arguments = match self.arguments() {
                    Ok(arguments) => arguments,
                    Err(error) => {
                        assert(call_end(all, start) is None);
                        return Err(error);
                    },
                };
                expression = Expression::Call { function: Box::new(expression), arguments };
                assert(old(self).shapes() =~= written(expression) + self.shapes());
            } else if self.accept(TokenKind::Dot) {
                let field = match self.identifier() {
                    Ok(field) => field,
                    Err(error) => {
                        assert(call_end(all, start) is None);
                        return Err(error);
                    },
                };
                expression = Expression::GetField { object: Box::new(expression), field };
                assert(old(self).shapes() =~= written(expression) + self.shapes());
            } else {
                break ;
            }
        }
        Ok(expression)
    }

    /// Attempts to parse one field of a record literal: its name, a colon, and its value.
    fn field(&mut self) -> (result: Result<(String, Expression), ParserError>)
        requires
            old(self).well_formed(),
        ensures
            final(self).well_formed(),
            final(self).kinds() == old(self).kinds(),
            old(self).position() <= final(self).position() <= final(self).kinds().len(),
            result is Ok == (field_end(old(self).kinds(), old(self).position()) is Some),
            result is Ok ==> final(self).position() > old(self).position() && field_end(
                old(self).kinds(),
                old(self).position(),
            ) == Some(final(self).position()),
            result is Ok ==> old(self).shapes() == field_written(result->Ok_0) + final(self).shapes(),
            result is Ok ==> formed(result->Ok_0.1),
        decreases old(self).remaining(), 19nat,
    {
        proof {
            self.position_is_bounded();
        }
        let ghost all = self.kinds();
        let ghost start = self.position();
        proof {
            field_end_step(all, start);
        }
        let identifier = match self.identifier() {
            Ok(value) => value,
            Err(error) => {
                assert(field_end(all, start) is None);
                return Err(error);
            },
        };
        match self.expect(TokenKind::Colon) {
            Ok(_) => {},
            Err(error) => {
                assert(field_end(all, start) is None);
                return Err(error);
            },
        }
        match self.expression() {
            Ok(expression) => {
                let entry = (identifier, expression);
                assert(old(self).shapes() =~= field_written(entry) + self.shapes());
                Ok(entry)
            },
            Err(error) => Err(error),
        }
    }

    /// Attempts to parse the fields of a record literal, up to and with the brace that
    /// closes them.
    fn fields(&mut self) -> (result: Result<Vec<(String, Expression)>, ParserError>)
        requires
            old(self).well_formed(),
        ensures
            final(self).well_formed(),
            final(self).kinds() == old(self).kinds(),
            old(self).position() <= final(self).position() <= final(self).kinds().len(),
            result is Ok == (fields_end(old(self).kinds(), old(self).position()) is Some),
            result is Ok ==> final(self).position() > old(self).position() && fields_end(old(self).kinds(), old(self).position())
                == Some(final(self).position()),
            result is Ok ==> old(self).shapes() == fields_written(result->Ok_0@) + lone(
                TokenKind::RightBrace,
            ) + final(self).shapes(),
            result is Ok ==> forall|i: int|
                0 <= i < result->Ok_0@.len() ==> formed((#[trigger] result->Ok_0@[i]).1),
        decreases old(self).remaining(), 21nat,
    {
        proof {
            self.position_is_bounded();
        }
        let ghost all = self.kinds();
        let ghost start = self.position();
        proof {
            fields_end_step(all, start);
        }
        let mut fields: Vec<(String, Expression)> = Vec::new();
        let more = match self.next_kind() {
            Some(TokenKind::RightBrace) => false,
            Some(_) => true,
            None => false,
        };
        assert(old(self).shapes() =~= fields_written(fields@) + self.shapes());
        if more {
            match self.field() {
                Ok(field) => fields.push(field),
                Err(error) => {
                    assert(fields_end(all, start) is None);
                    return Err(error);
                },
            }
            assert(old(self).shapes() =~= fields_written(fields@) + self.shapes());
            loop
                invariant
                    self.well_formed(),
                    self.kinds() == all,
                    all == old(self).kinds(),
                    start == old(self).position(),
                    start < self.position() <= all.len(),
                    fields@.len() >= 1,
                    fields_rest(all, self.position()) == fields_end(all, start),
                    old(self).shapes() == fields_written(fields@) + self.shapes(),
                    forall|i: int| 0 <= i < fields@.len() ==> formed((#[trigger] fields@[i]).1),
                ensures
                    fields_end(all, start) == closing(all, self.position(), TokenKind::RightBrace),
                decreases self.remaining(),
            {
                proof {
                    fields_rest_step(all, self.position());
                }
                let ghost listed_before = fields@;
                if !self.accept(TokenKind::Comma) {
                    break ;
                }
                match self.field() {
                    Ok(field) => fields.push(field),
                    Err(error) => {
                        assert(fields_end(all, start) is None);
                        return Err(error);
                    },
                }
                assert(fields@.drop_last() =~= listed_before);
                assert(old(self).shapes() =~= fields_written(fields@) + self.shapes());
            }
        }
        match self.expect(TokenKind::RightBrace) {
            Ok(_) => Ok(fields),
            Err(error) => Err(error),
        }
    }

    /// Attempts to parse a primary expression. Corresponds to `primary` in the grammar.
    fn primary(&mut self) -> (result: Result<Expression, ParserError>)
        requires
            old(self).well_formed(),
        ensures
            final(self).well_formed(),
            final(self).kinds() == old(self).kinds(),
            old(self).position() <= final(self).position() <= final(self).kinds().len(),
            result is Ok == (primary_end(old(self).kinds(), old(self).position()) is Some),
            result is Ok ==> final(self).position() > old(self).position() && primary_end(old(self).kinds(), old(self).position())->0 == (Found {
                end: final(self).position(),
                target: target_of(result->Ok_0),
            }),
            result is Ok ==> old(self).shapes() == written(result->Ok_0) + final(self).shapes(),
            result is Ok ==> formed(result->Ok_0) && tier(result->Ok_0) <= 0,
        decreases old(self).remaining(), 8nat,
    {
        proof {
            self.position_is_bounded();
        }
        let ghost all = self.kinds();
        let ghost start = self.position();
        proof {
            primary_end_step(all, start);
        }
        let data = match self.first() {
            Some(data) => data,
            None => {
                assert(primary_end(all, start) is None);
                return Err(self.no_primary());
            },
        };
        match data {
            TokenData::LeftParenthesis => {
                let expression = match self.expression() {
                    Ok(value) => value,
                    Err(error) => {
                        assert(primary_end(all, start) is None);
                        return Err(error);
                    },
                };
                match self.expect(TokenKind::RightParenthesis) {
                    Ok(_) => {},
                    Err(error) => {
                        assert(primary_end(all, start) is None);
                        return Err(error);
                    },
                }
                let grouped = Expression::Grouping { contained: Box::new(expression) };
                assert(old(self).shapes() =~= written(grouped) + self.shapes());
                Ok(grouped)
            },
            TokenData::String(string) => {
                let literal = Expression::Literal { value: Value::String(string) };
                assert(old(self).shapes() =~= written(literal) + self.shapes());
                Ok(literal)
            },
            TokenData::Float(float) => {
                let literal = Expression::Literal { value: Value::Float(float) };
                assert(old(self).shapes() =~= written(literal) + self.shapes());
                Ok(literal)
            },
            TokenData::Integer(integer) => {
                let literal = Expression::Literal { value: Value::Integer(integer) };
                assert(old(self).shapes() =~= written(literal) + self.shapes());
                Ok(literal)
            },
            TokenData::Boolean(boolean) => {
                let literal = Expression::Literal { value: Value::Boolean(boolean) };
                assert(old(self).shapes() =~= written(literal) + self.shapes());
                Ok(literal)
            },
            TokenData::Identifier(identifier) => {
                let variable = Expression::Variable { identifier };
                assert(old(self).shapes() =~= written(variable) + self.shapes());
                Ok(variable)
            },
            _ => {
                let fields = match self.fields() {
                    Ok(fields) => fields,
                    Err(error) => {
                        assert(primary_end(all, start) is None);
                        return Err(error);
                    },
                };
                let record = Expression::Object(fields);
                assert(old(self).shapes() =~= written(record) + self.shapes());
                Ok(record)
            },
        }
    }
}

} // verus!
