//! Running a program: from its text to what it does to the stack and the heap.

use crate::evaluator::{course_of, ready, state_of};
use crate::expression::{BinaryOperator, EvaluationError, EvaluationErrorView};
use crate::grammar::{formed_statement, kinds, program, sequence, shapes, Shape};
use crate::float::Float;
use crate::heap::ManagedHeap;
use crate::host::{Host, Limits};
use crate::lexer::{lexed, reads_floats, Lexer, LexerError};
use crate::parser::{Parser, ParserError};
use crate::semantics::{hoisted, sequenced, Course, Flow, State};
use crate::source::Source;
use crate::stack::Stack;
use crate::statement::{ControlFlow, Statement};
use crate::stats::Logger;
use crate::token::{tokens_view, TokenKind, TokenView};
use crate::token_stream::TokenStream;
use vstd::prelude::*;

verus! {

/// Why a program did not run to its end.
pub enum Failure {
    /// The text is not made of tokens. Nothing was parsed or executed.
    Lexing(Vec<LexerError>),
    /// The tokens are not a program. Nothing was executed.
    Parsing(Vec<ParserError>),
    /// A statement failed. The statements before it were executed.
    Evaluation(EvaluationError),
}

/// What executing the statements of a program gives, and the state that it leaves: the
/// function definitions are executed first, then the other statements in order, up to the
/// first that returns or fails. A program has no scope of its own: it runs in whatever scope
/// is innermost.
pub open spec fn programmed<A: Fn(BinaryOperator, Float, Float) -> Float, D: Fn(Float) -> String>(
    statements: Vec<Statement>,
    state: State<A, D>,
    limits: Limits,
) -> (Course, State<A, D>) {
    let (course, state) = hoisted(Statement::Block(statements), state, limits, 0);
    match course {
        Err(error) => (course, state),
        Ok(_) => sequenced(Statement::Block(statements), state, limits, 0),
    }
}

/// Executes the statements of a program.
pub fn execute<A: Fn(BinaryOperator, Float, Float) -> Float, D: Fn(Float) -> String>(
    statements: Vec<Statement>,
    stack: &mut Stack,
    heap: &mut ManagedHeap,
    logger: &mut Logger,
    host: &mut Host<A, D>,
    limits: Limits,
) -> (result: Result<ControlFlow, EvaluationError>)
    requires
        ready(*old(stack), *old(heap), *old(host)),
    ensures
        ready(*final(stack), *final(heap), *final(host)),
        (course_of(result), state_of(*final(stack), *final(heap), *final(logger), *final(host)))
            == programmed(
            statements,
            state_of(*old(stack), *old(heap), *old(logger), *old(host)),
            limits,
        ),
{
    let program = Statement::Block(statements);
    match program.hoist(stack, heap, logger, host, limits) {
        Ok(_) => program.sequence(stack, heap, logger, host, limits),
        Err(error) => Err(error),
    }
}

/// The shapes of tokens that are known by what they stand for.
pub open spec fn shapes_of(tokens: Seq<TokenView>) -> Seq<Shape> {
    Seq::new(tokens.len(), |i: int| (tokens[i].kind, tokens[i].payload))
}

/// The kinds of tokens that are known by what they stand for.
pub open spec fn kinds_of(tokens: Seq<TokenView>) -> Seq<TokenKind> {
    Seq::new(tokens.len(), |i: int| tokens[i].kind)
}

/// Whether a text is a program: it is made of tokens, and the tokens are statements, one
/// after another.
pub open spec fn is_program<F: Fn(String) -> Float>(text: Seq<char>, float: F) -> bool {
    lexed(text, 0, float).1.len() == 0 && program(kinds_of(lexed(text, 0, float).0))
}

/// Whether `statements` are a program that `text` is: they are written with the tokens of the
/// text, and each of them is one that the grammar derives.
pub open spec fn parses_to<F: Fn(String) -> Float>(
    text: Seq<char>,
    float: F,
    statements: Vec<Statement>,
) -> bool {
    &&& lexed(text, 0, float).1.len() == 0
    &&& sequence(statements@) == shapes_of(lexed(text, 0, float).0)
    &&& forall|i: int| 0 <= i < statements@.len() ==> formed_statement(#[trigger] statements@[i])
}

/// Runs a program from its text: the text is split into tokens, the tokens are parsed, and
/// only a text that is a program is executed.
///
/// The text of each floating-point literal is handed to `float`, which gives its value.
pub fn run<
    A: Fn(BinaryOperator, Float, Float) -> Float,
    D: Fn(Float) -> String,
    F: Fn(String) -> Float,
>(
    source: &str,
    float: F,
    stack: &mut Stack,
    heap: &mut ManagedHeap,
    logger: &mut Logger,
    host: &mut Host<A, D>,
    limits: Limits,
) -> (result: Result<ControlFlow, Failure>)
    requires
        ready(*old(stack), *old(heap), *old(host)),
        reads_floats(float),
    ensures
        ready(*final(stack), *final(heap), *final(host)),
        result matches Err(Failure::Lexing(_)) == (lexed(source@, 0, float).1.len() > 0),
        result matches Err(Failure::Parsing(_)) == (lexed(source@, 0, float).1.len() == 0
            && !is_program(source@, float)),
        match result {
            Err(Failure::Lexing(errors)) => errors@ == lexed(source@, 0, float).1 && state_of(
                *final(stack),
                *final(heap),
                *final(logger),
                *final(host),
            ) == state_of(*old(stack), *old(heap), *old(logger), *old(host)),
            Err(Failure::Parsing(errors)) => errors@.len() > 0 && state_of(
                *final(stack),
                *final(heap),
                *final(logger),
                *final(host),
            ) == state_of(*old(stack), *old(heap), *old(logger), *old(host)),
            Err(Failure::Evaluation(error)) => exists|statements: Vec<Statement>|
                #[trigger] parses_to(source@, float, statements) && (
                    Err::<Flow, EvaluationErrorView>(error@),
                    state_of(*final(stack), *final(heap), *final(logger), *final(host)),
                ) == programmed(
                    statements,
                    state_of(*old(stack), *old(heap), *old(logger), *old(host)),
                    limits,
                ),
            Ok(flow) => exists|statements: Vec<Statement>|
                #[trigger] parses_to(source@, float, statements) && (
                    Ok::<Flow, EvaluationErrorView>(flow@),
                    state_of(*final(stack), *final(heap), *final(logger), *final(host)),
                ) == programmed(
                    statements,
                    state_of(*old(stack), *old(heap), *old(logger), *old(host)),
                    limits,
                ),
        },
{
    let lexer = Lexer::new(Source::new(source));
    let ghost nothing = lexer.tokens();
    let (tokens, errors) = lexer.lex(float);
    if errors.len() != 0 {
        return Err(Failure::Lexing(errors));
    }
    proof {
        assert(tokens_view(nothing) + lexed(source@, 0, float).0 =~= lexed(source@, 0, float).0);
        assert(shapes(tokens@) =~= shapes_of(tokens_view(tokens@)));
        assert(kinds(tokens@) =~= kinds_of(tokens_view(tokens@)));
    }
    let parser = Parser::new(TokenStream::new(tokens));
    match parser.parse() {
        Ok(statements) => {
            let ghost program = statements;
            assert(parses_to(source@, float, program));
            match execute(statements, stack, heap, logger, host, limits) {
                Ok(flow) => Ok(flow),
                Err(error) => Err(Failure::Evaluation(error)),
            }
        },
        Err(errors) => Err(Failure::Parsing(errors)),
    }
}

} // verus!
