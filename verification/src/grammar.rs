//! The grammar of slang, from both sides: the tokens that a program is written with, and the
//! sequences of tokens that are programs.

use crate::expression::{BinaryOperator, Expression, UnaryOperator};
use crate::statement::Statement;
use crate::token::{Payload, Token, TokenKind};
use crate::value::Value;
use vstd::prelude::*;

verus! {

/// What a token is but for its location.
pub type Shape = (TokenKind, Payload);

/// The shape of a token.
pub open spec fn shape(token: Token) -> Shape {
    (token.data.kind_of(), token.data.payload())
}

/// The shapes of tokens.
pub open spec fn shapes(tokens: Seq<Token>) -> Seq<Shape> {
    Seq::new(tokens.len(), |i: int| shape(tokens[i]))
}

/// Whether tokens of a kind carry nothing: punctuation, operators and keywords.
pub open spec fn bare(kind: TokenKind) -> bool {
    kind != TokenKind::String && kind != TokenKind::Float && kind != TokenKind::Integer && kind
        != TokenKind::Boolean && kind != TokenKind::Identifier
}

/// The one token of a bare kind.
pub open spec fn lone(kind: TokenKind) -> Seq<Shape> {
    seq![(kind, Payload::Nothing)]
}

/// The one token that an identifier is.
pub open spec fn name(identifier: Seq<char>) -> Seq<Shape> {
    seq![(TokenKind::Identifier, Payload::Text(identifier))]
}

/// The kind of token that a binary operator is written with.
pub open spec fn binary_kind(operator: BinaryOperator) -> TokenKind {
    match operator {
        BinaryOperator::Add => TokenKind::Plus,
        BinaryOperator::Subtract => TokenKind::Minus,
        BinaryOperator::Multiply => TokenKind::Star,
        BinaryOperator::Divide => TokenKind::Slash,
        BinaryOperator::Exponent => TokenKind::Exponent,
        BinaryOperator::EqualTo => TokenKind::DoubleEqual,
        BinaryOperator::NotEqualTo => TokenKind::BangEqual,
        BinaryOperator::GreaterThan => TokenKind::Greater,
        BinaryOperator::GreaterThanOrEqualTo => TokenKind::GreaterEqual,
        BinaryOperator::LessThan => TokenKind::Less,
        BinaryOperator::LessThanOrEqualTo => TokenKind::LessEqual,
        BinaryOperator::AND => TokenKind::DoubleAmpersand,
        BinaryOperator::OR => TokenKind::DoublePipe,
        BinaryOperator::BitwiseAND => TokenKind::Ampersand,
        BinaryOperator::BitwiseOR => TokenKind::Pipe,
    }
}

/// The kind of token that a unary operator is written with.
pub open spec fn unary_kind(operator: UnaryOperator) -> TokenKind {
    match operator {
        UnaryOperator::Minus => TokenKind::Minus,
        UnaryOperator::NOT => TokenKind::Bang,
    }
}

/// How loosely an expression binds: the smaller the number, the tighter.
pub open spec fn tier(expression: Expression) -> nat {
    match expression {
        Expression::Literal { .. } => 0,
        Expression::Variable { .. } => 0,
        Expression::Grouping { .. } => 0,
        Expression::Object(_) => 0,
        Expression::Call { .. } => 1,
        Expression::GetField { .. } => 1,
        Expression::Unary { .. } => 3,
        Expression::Binary { operator, .. } => binary_tier(operator),
        Expression::Ternary { .. } => 10,
        Expression::Assignment { .. } => 11,
        Expression::SetField { .. } => 11,
    }
}

/// How loosely a binary operator binds.
pub open spec fn binary_tier(operator: BinaryOperator) -> nat {
    match operator {
        BinaryOperator::Exponent => 2,
        BinaryOperator::Multiply => 4,
        BinaryOperator::Divide => 4,
        BinaryOperator::Add => 5,
        BinaryOperator::Subtract => 5,
        BinaryOperator::BitwiseAND => 6,
        BinaryOperator::BitwiseOR => 6,
        BinaryOperator::GreaterThan => 7,
        BinaryOperator::GreaterThanOrEqualTo => 7,
        BinaryOperator::LessThan => 7,
        BinaryOperator::LessThanOrEqualTo => 7,
        BinaryOperator::EqualTo => 8,
        BinaryOperator::NotEqualTo => 8,
        BinaryOperator::AND => 9,
        BinaryOperator::OR => 9,
    }
}

/// The tokens that an expression is written with.
pub open spec fn written(expression: Expression) -> Seq<Shape>
    decreases expression, 0nat,
{
    match expression {
        Expression::Literal { value } => match value {
            Value::String(string) => seq![(TokenKind::String, Payload::Text(string@))],
            Value::Float(float) => seq![(TokenKind::Float, Payload::Float(float))],
            Value::Integer(integer) => seq![(TokenKind::Integer, Payload::Integer(integer))],
            Value::Boolean(boolean) => seq![(TokenKind::Boolean, Payload::Boolean(boolean))],
            _ => Seq::empty(),
        },
        Expression::Variable { identifier } => name(identifier@),
        Expression::Grouping { contained } => lone(TokenKind::LeftParenthesis) + written(
            *contained,
        ) + lone(TokenKind::RightParenthesis),
        Expression::Unary { operator, operand } => lone(unary_kind(operator)) + written(*operand),
        Expression::Binary { left, operator, right } => written(*left) + lone(
            binary_kind(operator),
        ) + written(*right),
        Expression::Ternary { condition, left, right } => written(*condition) + lone(
            TokenKind::QuestionMark,
        ) + written(*left) + lone(TokenKind::Colon) + written(*right),
        Expression::Assignment { identifier, value } => name(identifier@) + lone(TokenKind::Equal)
            + written(*value),
        Expression::GetField { object, field } => written(*object) + lone(TokenKind::Dot) + name(
            field@,
        ),
        Expression::SetField { object, field, value } => written(*object) + lone(TokenKind::Dot)
            + name(field@) + lone(TokenKind::Equal) + written(*value),
        Expression::Call { function, arguments } => written(*function) + lone(
            TokenKind::LeftParenthesis,
        ) + listed(arguments@) + lone(TokenKind::RightParenthesis),
        Expression::Object(entries) => lone(TokenKind::LeftBrace) + fields_written(entries@)
            + lone(TokenKind::RightBrace),
    }
}

/// The tokens that arguments are written with: one after another, with commas in between.
pub open spec fn listed(arguments: Seq<Box<Expression>>) -> Seq<Shape>
    decreases arguments, 1nat,
{
    if arguments.len() == 0 {
        Seq::empty()
    } else if arguments.len() == 1 {
        written(*arguments[0])
    } else {
        listed(arguments.drop_last()) + lone(TokenKind::Comma) + written(*arguments.last())
    }
}

/// The tokens that one field of a record literal is written with.
pub open spec fn field_written(entry: (String, Expression)) -> Seq<Shape>
    decreases entry, 1nat,
{
    name(entry.0@) + lone(TokenKind::Colon) + written(entry.1)
}

/// The tokens that the fields of a record literal are written with: one after another, with
/// commas in between.
pub open spec fn fields_written(entries: Seq<(String, Expression)>) -> Seq<Shape>
    decreases entries, 2nat,
{
    if entries.len() == 0 {
        Seq::empty()
    } else if entries.len() == 1 {
        field_written(entries[0])
    } else {
        fields_written(entries.drop_last()) + lone(TokenKind::Comma) + field_written(
            entries.last(),
        )
    }
}

/// Whether an expression is one that the grammar derives: each operand binds at least as
/// tightly as its place demands, and every literal is a string, a number or a Boolean.
pub open spec fn formed(expression: Expression) -> bool
    decreases expression,
{
    match expression {
        Expression::Literal { value } => value is String || value is Float || value is Integer
            || value is Boolean,
        Expression::Variable { .. } => true,
        Expression::Grouping { contained } => formed(*contained),
        Expression::Unary { operator, operand } => formed(*operand) && tier(*operand) <= 2,
        Expression::Binary { left, operator, right } => formed(*left) && formed(*right)
            && if operator == BinaryOperator::Exponent {
            tier(*left) <= 1 && tier(*right) <= 2
        } else {
            tier(*left) <= binary_tier(operator) && tier(*right) < binary_tier(operator)
        },
        Expression::Ternary { condition, left, right } => formed(*condition) && formed(*left)
            && formed(*right) && tier(*condition) <= 9 && tier(*left) <= 9 && tier(*right) <= 9,
        Expression::Assignment { identifier, value } => formed(*value),
        Expression::GetField { object, field } => formed(*object) && tier(*object) <= 1,
        Expression::SetField { object, field, value } => formed(*object) && tier(*object) <= 1
            && formed(*value),
        Expression::Call { function, arguments } => formed(*function) && tier(*function) <= 1
            && forall|i: int| 0 <= i < arguments@.len() ==> formed(*#[trigger] arguments@[i]),
        Expression::Object(entries) => forall|i: int|
            0 <= i < entries@.len() ==> formed((#[trigger] entries@[i]).1),
    }
}

/// The tokens that identifiers are written with: one after another, with commas in between.
pub open spec fn names_listed(identifiers: Seq<String>) -> Seq<Shape>
    decreases identifiers.len(),
{
    if identifiers.len() == 0 {
        Seq::empty()
    } else if identifiers.len() == 1 {
        name(identifiers[0]@)
    } else {
        names_listed(identifiers.drop_last()) + lone(TokenKind::Comma) + name(
            identifiers.last()@,
        )
    }
}

/// The tokens that a statement is written with.
pub open spec fn stated(statement: Statement) -> Seq<Shape>
    decreases statement, 0nat,
{
    match statement {
        Statement::VariableDeclaration { identifier, initialiser } => lone(TokenKind::Let) + name(
            identifier@,
        ) + match initialiser {
            Some(initialiser) => lone(TokenKind::Equal) + written(initialiser),
            None => Seq::empty(),
        } + lone(TokenKind::Semicolon),
        Statement::IfStatement { condition, execute_if_true, execute_if_false } => lone(
            TokenKind::If,
        ) + written(condition) + stated(*execute_if_true) + match execute_if_false {
            Some(otherwise) => lone(TokenKind::Else) + stated(*otherwise),
            None => Seq::empty(),
        },
        Statement::FunctionDefinition { identifier, parameters, block } => lone(TokenKind::Fu)
            + name(identifier@) + lone(TokenKind::LeftParenthesis) + names_listed(parameters@)
            + lone(TokenKind::RightParenthesis) + stated(*block),
        Statement::Return(expression) => lone(TokenKind::Return) + match expression {
            Some(expression) => written(expression),
            None => Seq::empty(),
        } + lone(TokenKind::Semicolon),
        Statement::WhileLoop { condition, block } => lone(TokenKind::While) + written(condition)
            + stated(*block),
        Statement::Block(statements) => lone(TokenKind::LeftBrace) + sequence(statements@) + lone(
            TokenKind::RightBrace,
        ),
        Statement::Expression(expression) => written(expression) + lone(TokenKind::Semicolon),
    }
}

/// The tokens that statements are written with, one after another.
pub open spec fn sequence(statements: Seq<Statement>) -> Seq<Shape>
    decreases statements, 1nat,
{
    if statements.len() == 0 {
        Seq::empty()
    } else {
        sequence(statements.drop_last()) + stated(statements.last())
    }
}

/// Whether a statement is one that the grammar derives.
pub open spec fn formed_statement(statement: Statement) -> bool
    decreases statement,
{
    match statement {
        Statement::VariableDeclaration { identifier, initialiser } => match initialiser {
            Some(initialiser) => formed(initialiser),
            None => true,
        },
        Statement::IfStatement { condition, execute_if_true, execute_if_false } => formed(
            condition,
        ) && *execute_if_true is Block && formed_statement(*execute_if_true)
            && match execute_if_false {
            Some(otherwise) => (*otherwise is Block || *otherwise is IfStatement)
                && formed_statement(*otherwise),
            None => true,
        },
        Statement::FunctionDefinition { identifier, parameters, block } => *block is Block
            && formed_statement(*block),
        Statement::Return(expression) => match expression {
            Some(expression) => formed(expression),
            None => true,
        },
        Statement::WhileLoop { condition, block } => formed(condition) && *block is Block
            && formed_statement(*block),
        Statement::Block(statements) => forall|i: int|
            0 <= i < statements@.len() ==> formed_statement(#[trigger] statements@[i]),
        Statement::Expression(expression) => formed(expression),
    }
}

/// The shapes of tokens are the shape of the first and the shapes of the rest.
pub proof fn shapes_split(tokens: Seq<Token>)
    requires
        tokens.len() > 0,
    ensures
        shapes(tokens) == seq![shape(tokens[0])] + shapes(tokens.drop_first()),
{
    assert(shapes(tokens) =~= seq![shape(tokens[0])] + shapes(tokens.drop_first()));
}

// What follows says which sequences of tokens are programs, by where each part of a program
// ends among the tokens. Each of these functions is opaque: a proof unfolds it only where it
// asks to, by the lemma that follows the function.

/// What an expression is when it stands where an assignment begins.
pub enum Target {
    /// A variable, which can be assigned to.
    Variable,
    /// A field of a record, which can be assigned to.
    Field,
    /// Anything else.
    Other,
}

/// What an expression is as a target of an assignment.
pub open spec fn target_of(expression: Expression) -> Target {
    match expression {
        Expression::Variable { .. } => Target::Variable,
        Expression::GetField { .. } => Target::Field,
        _ => Target::Other,
    }
}

/// An expression found among tokens: where it ends, and what it is as a target.
pub struct Found {
    pub end: int,
    pub target: Target,
}

/// The kinds of tokens.
pub open spec fn kinds(tokens: Seq<Token>) -> Seq<TokenKind> {
    Seq::new(tokens.len(), |i: int| tokens[i].data.kind_of())
}

/// The kind of the token at `at`, if there is one.
pub open spec fn kind_at(kinds: Seq<TokenKind>, at: int) -> Option<TokenKind> {
    if 0 <= at < kinds.len() {
        Some(kinds[at])
    } else {
        None
    }
}

/// Whether the token at `at` is of the kind `kind`.
pub open spec fn stands(kinds: Seq<TokenKind>, at: int, kind: TokenKind) -> bool {
    kind_at(kinds, at) == Some(kind)
}

/// Whether the token at `at` is one of the binary operators `targets`.
pub open spec fn operator_at(kinds: Seq<TokenKind>, at: int, targets: Seq<BinaryOperator>) -> bool {
    kind_at(kinds, at) matches Some(kind) && kind.as_binary_operator() matches Some(operator)
        && targets.contains(operator)
}

/// What was found, where it ends at `at` or later and among the tokens.
pub open spec fn onward(kinds: Seq<TokenKind>, at: int, found: Option<Found>) -> Option<Found> {
    match found {
        Some(found) => if at <= found.end <= kinds.len() {
            Some(found)
        } else {
            None
        },
        None => None,
    }
}

/// An end, where it lies at `at` or later and among the tokens.
pub open spec fn further(kinds: Seq<TokenKind>, at: int, end: Option<int>) -> Option<int> {
    match end {
        Some(end) => if at <= end <= kinds.len() {
            Some(end)
        } else {
            None
        },
        None => None,
    }
}

/// Where a list ends whose last token must stand at `at`: behind that token, if it is of the
/// kind that closes the list.
pub open spec fn closing(kinds: Seq<TokenKind>, at: int, kind: TokenKind) -> Option<int> {
    if stands(kinds, at, kind) {
        Some(at + 1)
    } else {
        None
    }
}

/// What is found, as something that is no target.
pub open spec fn plain(found: Option<Found>) -> Option<Found> {
    match found {
        Some(found) => Some(Found { end: found.end, target: Target::Other }),
        None => None,
    }
}

/// The binary operators of a level of the grammar, from the factors, which bind tightest,
/// to the logical expressions.
pub open spec fn operators_of(level: nat) -> Seq<BinaryOperator> {
    if level == 1 {
        seq![BinaryOperator::Multiply, BinaryOperator::Divide]
    } else if level == 2 {
        seq![BinaryOperator::Add, BinaryOperator::Subtract]
    } else if level == 3 {
        seq![BinaryOperator::BitwiseAND, BinaryOperator::BitwiseOR]
    } else if level == 4 {
        seq![
            BinaryOperator::GreaterThan,
            BinaryOperator::GreaterThanOrEqualTo,
            BinaryOperator::LessThan,
            BinaryOperator::LessThanOrEqualTo,
        ]
    } else if level == 5 {
        seq![BinaryOperator::NotEqualTo, BinaryOperator::EqualTo]
    } else {
        seq![BinaryOperator::AND, BinaryOperator::OR]
    }
}

/// The binary operators that cannot begin an expression, and are reported where they do.
pub open spec fn misplaced() -> Seq<BinaryOperator> {
    seq![
        BinaryOperator::Add,
        BinaryOperator::Multiply,
        BinaryOperator::Divide,
        BinaryOperator::NotEqualTo,
        BinaryOperator::EqualTo,
        BinaryOperator::GreaterThan,
        BinaryOperator::GreaterThanOrEqualTo,
        BinaryOperator::LessThan,
        BinaryOperator::LessThanOrEqualTo,
        BinaryOperator::BitwiseAND,
        BinaryOperator::BitwiseOR,
    ]
}

/// Where the primary expression that begins at `at` ends, if one begins there.
#[verifier::opaque]
pub open spec fn primary_end(kinds: Seq<TokenKind>, at: int) -> Option<Found>
    decreases kinds.len() - at, 0nat,
{
    match kind_at(kinds, at) {
        Some(TokenKind::LeftParenthesis) => match onward(kinds, at + 1, expression_end(kinds, at + 1)) {
            Some(inside) => if stands(kinds, inside.end, TokenKind::RightParenthesis) {
                Some(Found { end: inside.end + 1, target: Target::Other })
            } else {
                None
            },
            None => None,
        },
        Some(TokenKind::String) => Some(Found { end: at + 1, target: Target::Other }),
        Some(TokenKind::Float) => Some(Found { end: at + 1, target: Target::Other }),
        Some(TokenKind::Integer) => Some(Found { end: at + 1, target: Target::Other }),
        Some(TokenKind::Boolean) => Some(Found { end: at + 1, target: Target::Other }),
        Some(TokenKind::Identifier) => Some(Found { end: at + 1, target: Target::Variable }),
        Some(TokenKind::LeftBrace) => match fields_end(kinds, at + 1) {
            Some(end) => Some(Found { end, target: Target::Other }),
            None => None,
        },
        _ => None,
    }
}

/// One step of `primary_end`: what it is by its definition, for a proof that unfolds it.
pub proof fn primary_end_step(kinds: Seq<TokenKind>, at: int)
    ensures
        primary_end(kinds, at) == ({
            match kind_at(kinds, at) {
                Some(TokenKind::LeftParenthesis) => match onward(kinds, at + 1, expression_end(kinds, at + 1)) {
                    Some(inside) => if stands(kinds, inside.end, TokenKind::RightParenthesis) {
                        Some(Found { end: inside.end + 1, target: Target::Other })
                    } else {
                        None
                    },
                    None => None,
                },
                Some(TokenKind::String) => Some(Found { end: at + 1, target: Target::Other }),
                Some(TokenKind::Float) => Some(Found { end: at + 1, target: Target::Other }),
                Some(TokenKind::Integer) => Some(Found { end: at + 1, target: Target::Other }),
                Some(TokenKind::Boolean) => Some(Found { end: at + 1, target: Target::Other }),
                Some(TokenKind::Identifier) => Some(Found { end: at + 1, target: Target::Variable }),
                Some(TokenKind::LeftBrace) => match fields_end(kinds, at + 1) {
                    Some(end) => Some(Found { end, target: Target::Other }),
                    None => None,
                },
                _ => None,
            }
        }),
{
    reveal_with_fuel(primary_end, 1);
    reveal_with_fuel(fields_end, 1);
    reveal_with_fuel(expression_end, 1);
}

/// Where one field of a record literal that begins at `at` ends.
#[verifier::opaque]
pub open spec fn field_end(kinds: Seq<TokenKind>, at: int) -> Option<int>
    decreases kinds.len() - at, 20nat,
{
    if stands(kinds, at, TokenKind::Identifier) && stands(kinds, at + 1, TokenKind::Colon) {
        match expression_end(kinds, at + 2) {
            Some(value) => Some(value.end),
            None => None,
        }
    } else {
        None
    }
}

/// One step of `field_end`: what it is by its definition, for a proof that unfolds it.
pub proof fn field_end_step(kinds: Seq<TokenKind>, at: int)
    ensures
        field_end(kinds, at) == ({
            if stands(kinds, at, TokenKind::Identifier) && stands(kinds, at + 1, TokenKind::Colon) {
                match expression_end(kinds, at + 2) {
                    Some(value) => Some(value.end),
                    None => None,
                }
            } else {
                None
            }
        }),
{
    reveal_with_fuel(field_end, 1);
    reveal_with_fuel(expression_end, 1);
}

/// Where the fields of a record literal end, with the brace that closes them, from the token
/// at `at` on, which follows the brace that opens them.
#[verifier::opaque]
pub open spec fn fields_end(kinds: Seq<TokenKind>, at: int) -> Option<int>
    decreases kinds.len() - at, 22nat,
{
    match kind_at(kinds, at) {
        Some(TokenKind::RightBrace) => Some(at + 1),
        Some(_) => match further(kinds, at, field_end(kinds, at)) {
            Some(end) => fields_rest(kinds, end),
            None => None,
        },
        None => None,
    }
}

/// One step of `fields_end`: what it is by its definition, for a proof that unfolds it.
pub proof fn fields_end_step(kinds: Seq<TokenKind>, at: int)
    ensures
        fields_end(kinds, at) == ({
            match kind_at(kinds, at) {
                Some(TokenKind::RightBrace) => Some(at + 1),
                Some(_) => match further(kinds, at, field_end(kinds, at)) {
                    Some(end) => fields_rest(kinds, end),
                    None => None,
                },
                None => None,
            }
        }),
{
    reveal_with_fuel(field_end, 1);
    reveal_with_fuel(fields_end, 1);
    reveal_with_fuel(fields_rest, 1);
}

/// Where the fields of a record literal end, from the token at `at` on, which follows a
/// field.
#[verifier::opaque]
pub open spec fn fields_rest(kinds: Seq<TokenKind>, at: int) -> Option<int>
    decreases kinds.len() - at, 21nat,
{
    if stands(kinds, at, TokenKind::Comma) {
        match further(kinds, at + 1, field_end(kinds, at + 1)) {
            Some(end) => fields_rest(kinds, end),
            None => None,
        }
    } else if stands(kinds, at, TokenKind::RightBrace) {
        Some(at + 1)
    } else {
        None
    }
}

/// One step of `fields_rest`: what it is by its definition, for a proof that unfolds it.
pub proof fn fields_rest_step(kinds: Seq<TokenKind>, at: int)
    ensures
        fields_rest(kinds, at) == ({
            if stands(kinds, at, TokenKind::Comma) {
                match further(kinds, at + 1, field_end(kinds, at + 1)) {
                    Some(end) => fields_rest(kinds, end),
                    None => None,
                }
            } else if stands(kinds, at, TokenKind::RightBrace) {
                Some(at + 1)
            } else {
                None
            }
        }),
{
    reveal_with_fuel(field_end, 1);
    reveal_with_fuel(fields_rest, 1);
}

/// Where the arguments of a call end, with the parenthesis that closes them, from the token
/// at `at` on, which follows the parenthesis that opens them.
#[verifier::opaque]
pub open spec fn arguments_end(kinds: Seq<TokenKind>, at: int) -> Option<int>
    decreases kinds.len() - at, 22nat,
{
    match kind_at(kinds, at) {
        Some(TokenKind::RightParenthesis) => Some(at + 1),
        Some(_) => match onward(kinds, at, expression_end(kinds, at)) {
            Some(argument) => arguments_rest(kinds, argument.end),
            None => None,
        },
        None => None,
    }
}

/// One step of `arguments_end`: what it is by its definition, for a proof that unfolds it.
pub proof fn arguments_end_step(kinds: Seq<TokenKind>, at: int)
    ensures
        arguments_end(kinds, at) == ({
            match kind_at(kinds, at) {
                Some(TokenKind::RightParenthesis) => Some(at + 1),
                Some(_) => match onward(kinds, at, expression_end(kinds, at)) {
                    Some(argument) => arguments_rest(kinds, argument.end),
                    None => None,
                },
                None => None,
            }
        }),
{
    reveal_with_fuel(arguments_end, 1);
    reveal_with_fuel(arguments_rest, 1);
    reveal_with_fuel(expression_end, 1);
}

/// Where the arguments of a call end, from the token at `at` on, which follows an argument.
#[verifier::opaque]
pub open spec fn arguments_rest(kinds: Seq<TokenKind>, at: int) -> Option<int>
    decreases kinds.len() - at, 21nat,
{
    if stands(kinds, at, TokenKind::Comma) {
        match onward(kinds, at + 1, expression_end(kinds, at + 1)) {
            Some(argument) => arguments_rest(kinds, argument.end),
            None => None,
        }
    } else if stands(kinds, at, TokenKind::RightParenthesis) {
        Some(at + 1)
    } else {
        None
    }
}

/// One step of `arguments_rest`: what it is by its definition, for a proof that unfolds it.
pub proof fn arguments_rest_step(kinds: Seq<TokenKind>, at: int)
    ensures
        arguments_rest(kinds, at) == ({
            if stands(kinds, at, TokenKind::Comma) {
                match onward(kinds, at + 1, expression_end(kinds, at + 1)) {
                    Some(argument) => arguments_rest(kinds, argument.end),
                    None => None,
                }
            } else if stands(kinds, at, TokenKind::RightParenthesis) {
                Some(at + 1)
            } else {
                None
            }
        }),
{
    reveal_with_fuel(arguments_rest, 1);
    reveal_with_fuel(expression_end, 1);
}

/// Where the calls and field reads end that follow what was found.
#[verifier::opaque]
pub open spec fn call_rest(kinds: Seq<TokenKind>, found: Found) -> Option<Found>
    decreases kinds.len() - found.end, 1nat,
{
    if stands(kinds, found.end, TokenKind::LeftParenthesis) {
        match further(kinds, found.end + 1, arguments_end(kinds, found.end + 1)) {
            Some(end) => call_rest(kinds, Found { end, target: Target::Other }),
            None => None,
        }
    } else if stands(kinds, found.end, TokenKind::Dot) {
        if stands(kinds, found.end + 1, TokenKind::Identifier) {
            call_rest(kinds, Found { end: found.end + 2, target: Target::Field })
        } else {
            None
        }
    } else {
        Some(found)
    }
}

/// One step of `call_rest`: what it is by its definition, for a proof that unfolds it.
pub proof fn call_rest_step(kinds: Seq<TokenKind>, found: Found)
    ensures
        call_rest(kinds, found) == ({
            if stands(kinds, found.end, TokenKind::LeftParenthesis) {
                match further(kinds, found.end + 1, arguments_end(kinds, found.end + 1)) {
                    Some(end) => call_rest(kinds, Found { end, target: Target::Other }),
                    None => None,
                }
            } else if stands(kinds, found.end, TokenKind::Dot) {
                if stands(kinds, found.end + 1, TokenKind::Identifier) {
                    call_rest(kinds, Found { end: found.end + 2, target: Target::Field })
                } else {
                    None
                }
            } else {
                Some(found)
            }
        }),
{
    reveal_with_fuel(arguments_end, 1);
    reveal_with_fuel(call_rest, 1);
}

/// Where the call expression that begins at `at` ends.
#[verifier::opaque]
pub open spec fn call_end(kinds: Seq<TokenKind>, at: int) -> Option<Found>
    decreases kinds.len() - at, 2nat,
{
    match onward(kinds, at, primary_end(kinds, at)) {
        Some(found) => call_rest(kinds, found),
        None => None,
    }
}

/// One step of `call_end`: what it is by its definition, for a proof that unfolds it.
pub proof fn call_end_step(kinds: Seq<TokenKind>, at: int)
    ensures
        call_end(kinds, at) == ({
            match onward(kinds, at, primary_end(kinds, at)) {
                Some(found) => call_rest(kinds, found),
                None => None,
            }
        }),
{
    reveal_with_fuel(primary_end, 1);
    reveal_with_fuel(call_rest, 1);
    reveal_with_fuel(call_end, 1);
}

/// Where the exponent expression that begins at `at` ends.
#[verifier::opaque]
pub open spec fn exponent_end(kinds: Seq<TokenKind>, at: int) -> Option<Found>
    decreases kinds.len() - at, 3nat,
{
    match onward(kinds, at, call_end(kinds, at)) {
        Some(base) => if stands(kinds, base.end, TokenKind::Exponent) {
            plain(exponent_end(kinds, base.end + 1))
        } else {
            Some(base)
        },
        None => None,
    }
}

/// One step of `exponent_end`: what it is by its definition, for a proof that unfolds it.
pub proof fn exponent_end_step(kinds: Seq<TokenKind>, at: int)
    ensures
        exponent_end(kinds, at) == ({
            match onward(kinds, at, call_end(kinds, at)) {
                Some(base) => if stands(kinds, base.end, TokenKind::Exponent) {
                    plain(exponent_end(kinds, base.end + 1))
                } else {
                    Some(base)
                },
                None => None,
            }
        }),
{
    reveal_with_fuel(call_end, 1);
    reveal_with_fuel(exponent_end, 1);
}

/// Where the unary expression that begins at `at` ends.
#[verifier::opaque]
pub open spec fn unary_end(kinds: Seq<TokenKind>, at: int) -> Option<Found>
    decreases kinds.len() - at, 4nat,
{
    if stands(kinds, at, TokenKind::Minus) || stands(kinds, at, TokenKind::Bang) {
        plain(exponent_end(kinds, at + 1))
    } else if operator_at(kinds, at, misplaced()) {
        None
    } else {
        exponent_end(kinds, at)
    }
}

/// One step of `unary_end`: what it is by its definition, for a proof that unfolds it.
pub proof fn unary_end_step(kinds: Seq<TokenKind>, at: int)
    ensures
        unary_end(kinds, at) == ({
            if stands(kinds, at, TokenKind::Minus) || stands(kinds, at, TokenKind::Bang) {
                plain(exponent_end(kinds, at + 1))
            } else if operator_at(kinds, at, misplaced()) {
                None
            } else {
                exponent_end(kinds, at)
            }
        }),
{
    reveal_with_fuel(exponent_end, 1);
    reveal_with_fuel(unary_end, 1);
}

/// Where the operand of a binary operator of a level ends that begins at `at`: an expression
/// of the level below, or a unary expression below the factors.
#[verifier::opaque]
pub open spec fn operand_end(kinds: Seq<TokenKind>, at: int, level: nat) -> Option<Found>
    decreases kinds.len() - at, 3 + 2 * level,
{
    if level == 1 {
        unary_end(kinds, at)
    } else if level > 1 {
        binary_end(kinds, at, (level - 1) as nat)
    } else {
        None
    }
}

/// One step of `operand_end`: what it is by its definition, for a proof that unfolds it.
pub proof fn operand_end_step(kinds: Seq<TokenKind>, at: int, level: nat)
    ensures
        operand_end(kinds, at, level) == ({
            if level == 1 {
                unary_end(kinds, at)
            } else if level > 1 {
                binary_end(kinds, at, (level - 1) as nat)
            } else {
                None
            }
        }),
{
    reveal_with_fuel(unary_end, 1);
    reveal_with_fuel(operand_end, 1);
    reveal_with_fuel(binary_end, 1);
}

/// Where the operators of a level and their operands end that follow what was found.
#[verifier::opaque]
pub open spec fn binary_rest(kinds: Seq<TokenKind>, found: Found, level: nat) -> Option<Found>
    decreases kinds.len() - found.end, 3 + 2 * level,
{
    if level >= 1 && operator_at(kinds, found.end, operators_of(level)) {
        match onward(kinds, found.end + 1, operand_end(kinds, found.end + 1, level)) {
            Some(right) => binary_rest(
                kinds,
                Found { end: right.end, target: Target::Other },
                level,
            ),
            None => None,
        }
    } else {
        Some(found)
    }
}

/// One step of `binary_rest`: what it is by its definition, for a proof that unfolds it.
pub proof fn binary_rest_step(kinds: Seq<TokenKind>, found: Found, level: nat)
    ensures
        binary_rest(kinds, found, level) == ({
            if level >= 1 && operator_at(kinds, found.end, operators_of(level)) {
                match onward(kinds, found.end + 1, operand_end(kinds, found.end + 1, level)) {
                    Some(right) => binary_rest(
                        kinds,
                        Found { end: right.end, target: Target::Other },
                        level,
                    ),
                    None => None,
                }
            } else {
                Some(found)
            }
        }),
{
    reveal_with_fuel(operand_end, 1);
    reveal_with_fuel(binary_rest, 1);
}

/// Where the expression of a level of binary operators that begins at `at` ends.
#[verifier::opaque]
pub open spec fn binary_end(kinds: Seq<TokenKind>, at: int, level: nat) -> Option<Found>
    decreases kinds.len() - at, 4 + 2 * level,
{
    if level == 0 {
        None
    } else {
        match onward(kinds, at, operand_end(kinds, at, level)) {
            Some(left) => binary_rest(kinds, left, level),
            None => None,
        }
    }
}

/// One step of `binary_end`: what it is by its definition, for a proof that unfolds it.
pub proof fn binary_end_step(kinds: Seq<TokenKind>, at: int, level: nat)
    ensures
        binary_end(kinds, at, level) == ({
            if level == 0 {
                None
            } else {
                match onward(kinds, at, operand_end(kinds, at, level)) {
                    Some(left) => binary_rest(kinds, left, level),
                    None => None,
                }
            }
        }),
{
    reveal_with_fuel(operand_end, 1);
    reveal_with_fuel(binary_rest, 1);
    reveal_with_fuel(binary_end, 1);
}

/// Where the ternary expression that begins at `at` ends.
#[verifier::opaque]
pub open spec fn ternary_end(kinds: Seq<TokenKind>, at: int) -> Option<Found>
    decreases kinds.len() - at, 17nat,
{
    match onward(kinds, at, binary_end(kinds, at, 6)) {
        Some(condition) => if stands(kinds, condition.end, TokenKind::QuestionMark) {
            match onward(kinds, condition.end + 1, binary_end(kinds, condition.end + 1, 6)) {
                Some(left) => if stands(kinds, left.end, TokenKind::Colon) {
                    plain(binary_end(kinds, left.end + 1, 6))
                } else {
                    None
                },
                None => None,
            }
        } else {
            Some(condition)
        },
        None => None,
    }
}

/// One step of `ternary_end`: what it is by its definition, for a proof that unfolds it.
pub proof fn ternary_end_step(kinds: Seq<TokenKind>, at: int)
    ensures
        ternary_end(kinds, at) == ({
            match onward(kinds, at, binary_end(kinds, at, 6)) {
                Some(condition) => if stands(kinds, condition.end, TokenKind::QuestionMark) {
                    match onward(kinds, condition.end + 1, binary_end(kinds, condition.end + 1, 6)) {
                        Some(left) => if stands(kinds, left.end, TokenKind::Colon) {
                            plain(binary_end(kinds, left.end + 1, 6))
                        } else {
                            None
                        },
                        None => None,
                    }
                } else {
                    Some(condition)
                },
                None => None,
            }
        }),
{
    reveal_with_fuel(binary_end, 1);
    reveal_with_fuel(ternary_end, 1);
}

/// Where the assignment that begins at `at` ends.
#[verifier::opaque]
pub open spec fn assignment_end(kinds: Seq<TokenKind>, at: int) -> Option<Found>
    decreases kinds.len() - at, 18nat,
{
    match onward(kinds, at, ternary_end(kinds, at)) {
        Some(target) => if stands(kinds, target.end, TokenKind::Equal) {
            match assignment_end(kinds, target.end + 1) {
                Some(value) => if target.target is Other {
                    None
                } else {
                    Some(Found { end: value.end, target: Target::Other })
                },
                None => None,
            }
        } else {
            Some(target)
        },
        None => None,
    }
}

/// One step of `assignment_end`: what it is by its definition, for a proof that unfolds it.
pub proof fn assignment_end_step(kinds: Seq<TokenKind>, at: int)
    ensures
        assignment_end(kinds, at) == ({
            match onward(kinds, at, ternary_end(kinds, at)) {
                Some(target) => if stands(kinds, target.end, TokenKind::Equal) {
                    match assignment_end(kinds, target.end + 1) {
                        Some(value) => if target.target is Other {
                            None
                        } else {
                            Some(Found { end: value.end, target: Target::Other })
                        },
                        None => None,
                    }
                } else {
                    Some(target)
                },
                None => None,
            }
        }),
{
    reveal_with_fuel(ternary_end, 1);
    reveal_with_fuel(assignment_end, 1);
}

/// Where the expression that begins at `at` ends.
#[verifier::opaque]
pub open spec fn expression_end(kinds: Seq<TokenKind>, at: int) -> Option<Found>
    decreases kinds.len() - at, 19nat,
{
    assignment_end(kinds, at)
}

/// One step of `expression_end`: what it is by its definition, for a proof that unfolds it.
pub proof fn expression_end_step(kinds: Seq<TokenKind>, at: int)
    ensures
        expression_end(kinds, at) == ({
            assignment_end(kinds, at)
        }),
{
    reveal_with_fuel(assignment_end, 1);
    reveal_with_fuel(expression_end, 1);
}

/// Where the parameters of a function end, from the token at `at` on, which follows a
/// parameter.
#[verifier::opaque]
pub open spec fn names_rest(kinds: Seq<TokenKind>, at: int) -> int
    decreases kinds.len() - at,
{
    if stands(kinds, at, TokenKind::Comma) && stands(kinds, at + 1, TokenKind::Identifier) {
        names_rest(kinds, at + 2)
    } else {
        at
    }
}

/// One step of `names_rest`: what it is by its definition, for a proof that unfolds it.
pub proof fn names_rest_step(kinds: Seq<TokenKind>, at: int)
    ensures
        names_rest(kinds, at) == ({
            if stands(kinds, at, TokenKind::Comma) && stands(kinds, at + 1, TokenKind::Identifier) {
                names_rest(kinds, at + 2)
            } else {
                at
            }
        }),
{
    reveal_with_fuel(names_rest, 1);
}

/// Where the variable declaration that begins at `at` ends.
#[verifier::opaque]
pub open spec fn variable_declaration_end(kinds: Seq<TokenKind>, at: int) -> Option<int>
    decreases kinds.len() - at, 30nat,
{
    if stands(kinds, at, TokenKind::Let) && stands(kinds, at + 1, TokenKind::Identifier) {
        let semicolon = if stands(kinds, at + 2, TokenKind::Equal) {
            match expression_end(kinds, at + 3) {
                Some(value) => Some(value.end),
                None => None,
            }
        } else {
            Some(at + 2)
        };
        match semicolon {
            Some(semicolon) => if stands(kinds, semicolon, TokenKind::Semicolon) {
                Some(semicolon + 1)
            } else {
                None
            },
            None => None,
        }
    } else {
        None
    }
}

/// One step of `variable_declaration_end`: what it is by its definition, for a proof that unfolds it.
pub proof fn variable_declaration_end_step(kinds: Seq<TokenKind>, at: int)
    ensures
        variable_declaration_end(kinds, at) == ({
            if stands(kinds, at, TokenKind::Let) && stands(kinds, at + 1, TokenKind::Identifier) {
                let semicolon = if stands(kinds, at + 2, TokenKind::Equal) {
                    match expression_end(kinds, at + 3) {
                        Some(value) => Some(value.end),
                        None => None,
                    }
                } else {
                    Some(at + 2)
                };
                match semicolon {
                    Some(semicolon) => if stands(kinds, semicolon, TokenKind::Semicolon) {
                        Some(semicolon + 1)
                    } else {
                        None
                    },
                    None => None,
                }
            } else {
                None
            }
        }),
{
    reveal_with_fuel(expression_end, 1);
    reveal_with_fuel(variable_declaration_end, 1);
}

/// Where the function definition that begins at `at` ends.
#[verifier::opaque]
pub open spec fn function_definition_end(kinds: Seq<TokenKind>, at: int) -> Option<int>
    decreases kinds.len() - at, 30nat,
{
    if stands(kinds, at, TokenKind::Fu) && stands(kinds, at + 1, TokenKind::Identifier) && stands(
        kinds,
        at + 2,
        TokenKind::LeftParenthesis,
    ) {
        let closing = if stands(kinds, at + 3, TokenKind::Identifier) {
            names_rest(kinds, at + 4)
        } else {
            at + 3
        };
        if stands(kinds, closing, TokenKind::Comma) {
            None
        } else if stands(kinds, closing, TokenKind::RightParenthesis) && closing >= at + 3 {
            block_end(kinds, closing + 1)
        } else {
            None
        }
    } else {
        None
    }
}

/// One step of `function_definition_end`: what it is by its definition, for a proof that unfolds it.
pub proof fn function_definition_end_step(kinds: Seq<TokenKind>, at: int)
    ensures
        function_definition_end(kinds, at) == ({
            if stands(kinds, at, TokenKind::Fu) && stands(kinds, at + 1, TokenKind::Identifier) && stands(
                kinds,
                at + 2,
                TokenKind::LeftParenthesis,
            ) {
                let closing = if stands(kinds, at + 3, TokenKind::Identifier) {
                    names_rest(kinds, at + 4)
                } else {
                    at + 3
                };
                if stands(kinds, closing, TokenKind::Comma) {
                    None
                } else if stands(kinds, closing, TokenKind::RightParenthesis) && closing >= at + 3 {
                    block_end(kinds, closing + 1)
                } else {
                    None
                }
            } else {
                None
            }
        }),
{
    reveal_with_fuel(names_rest, 1);
    reveal_with_fuel(function_definition_end, 1);
    reveal_with_fuel(block_end, 1);
}

/// Where the return statement that begins at `at` ends.
#[verifier::opaque]
pub open spec fn return_end(kinds: Seq<TokenKind>, at: int) -> Option<int>
    decreases kinds.len() - at, 30nat,
{
    if !stands(kinds, at, TokenKind::Return) {
        None
    } else if stands(kinds, at + 1, TokenKind::Semicolon) {
        Some(at + 2)
    } else {
        match expression_end(kinds, at + 1) {
            Some(value) => if stands(kinds, value.end, TokenKind::Semicolon) {
                Some(value.end + 1)
            } else {
                None
            },
            None => None,
        }
    }
}

/// One step of `return_end`: what it is by its definition, for a proof that unfolds it.
pub proof fn return_end_step(kinds: Seq<TokenKind>, at: int)
    ensures
        return_end(kinds, at) == ({
            if !stands(kinds, at, TokenKind::Return) {
                None
            } else if stands(kinds, at + 1, TokenKind::Semicolon) {
                Some(at + 2)
            } else {
                match expression_end(kinds, at + 1) {
                    Some(value) => if stands(kinds, value.end, TokenKind::Semicolon) {
                        Some(value.end + 1)
                    } else {
                        None
                    },
                    None => None,
                }
            }
        }),
{
    reveal_with_fuel(expression_end, 1);
    reveal_with_fuel(return_end, 1);
}

/// Where the if-statement that begins at `at` ends.
#[verifier::opaque]
pub open spec fn if_end(kinds: Seq<TokenKind>, at: int) -> Option<int>
    decreases kinds.len() - at, 30nat,
{
    if !stands(kinds, at, TokenKind::If) {
        None
    } else {
        match onward(kinds, at + 1, expression_end(kinds, at + 1)) {
            Some(condition) => match further(kinds, condition.end, block_end(kinds, condition.end)) {
                Some(end) => if stands(kinds, end, TokenKind::Else) {
                    match kind_at(kinds, end + 1) {
                        Some(TokenKind::If) => if_end(kinds, end + 1),
                        Some(TokenKind::LeftBrace) => block_end(kinds, end + 1),
                        _ => None,
                    }
                } else {
                    Some(end)
                },
                None => None,
            },
            None => None,
        }
    }
}

/// One step of `if_end`: what it is by its definition, for a proof that unfolds it.
pub proof fn if_end_step(kinds: Seq<TokenKind>, at: int)
    ensures
        if_end(kinds, at) == ({
            if !stands(kinds, at, TokenKind::If) {
                None
            } else {
                match onward(kinds, at + 1, expression_end(kinds, at + 1)) {
                    Some(condition) => match further(kinds, condition.end, block_end(kinds, condition.end)) {
                        Some(end) => if stands(kinds, end, TokenKind::Else) {
                            match kind_at(kinds, end + 1) {
                                Some(TokenKind::If) => if_end(kinds, end + 1),
                                Some(TokenKind::LeftBrace) => block_end(kinds, end + 1),
                                _ => None,
                            }
                        } else {
                            Some(end)
                        },
                        None => None,
                    },
                    None => None,
                }
            }
        }),
{
    reveal_with_fuel(expression_end, 1);
    reveal_with_fuel(if_end, 1);
    reveal_with_fuel(block_end, 1);
}

/// Where the while-loop that begins at `at` ends.
#[verifier::opaque]
pub open spec fn while_end(kinds: Seq<TokenKind>, at: int) -> Option<int>
    decreases kinds.len() - at, 30nat,
{
    if !stands(kinds, at, TokenKind::While) {
        None
    } else {
        match onward(kinds, at + 1, expression_end(kinds, at + 1)) {
            Some(condition) => block_end(kinds, condition.end),
            None => None,
        }
    }
}

/// One step of `while_end`: what it is by its definition, for a proof that unfolds it.
pub proof fn while_end_step(kinds: Seq<TokenKind>, at: int)
    ensures
        while_end(kinds, at) == ({
            if !stands(kinds, at, TokenKind::While) {
                None
            } else {
                match onward(kinds, at + 1, expression_end(kinds, at + 1)) {
                    Some(condition) => block_end(kinds, condition.end),
                    None => None,
                }
            }
        }),
{
    reveal_with_fuel(expression_end, 1);
    reveal_with_fuel(while_end, 1);
    reveal_with_fuel(block_end, 1);
}

/// Where the block that begins at `at` ends.
#[verifier::opaque]
pub open spec fn block_end(kinds: Seq<TokenKind>, at: int) -> Option<int>
    decreases kinds.len() - at, 30nat,
{
    if stands(kinds, at, TokenKind::LeftBrace) {
        block_rest(kinds, at + 1)
    } else {
        None
    }
}

/// One step of `block_end`: what it is by its definition, for a proof that unfolds it.
pub proof fn block_end_step(kinds: Seq<TokenKind>, at: int)
    ensures
        block_end(kinds, at) == ({
            if stands(kinds, at, TokenKind::LeftBrace) {
                block_rest(kinds, at + 1)
            } else {
                None
            }
        }),
{
    reveal_with_fuel(block_end, 1);
    reveal_with_fuel(block_rest, 1);
}

/// Where a block ends, from the token at `at` on, which follows the brace that opens the
/// block or a statement in it.
#[verifier::opaque]
pub open spec fn block_rest(kinds: Seq<TokenKind>, at: int) -> Option<int>
    decreases kinds.len() - at, 45nat,
{
    match kind_at(kinds, at) {
        Some(TokenKind::RightBrace) => Some(at + 1),
        Some(_) => match further(kinds, at + 1, statement_end(kinds, at)) {
            Some(end) => block_rest(kinds, end),
            None => None,
        },
        None => None,
    }
}

/// One step of `block_rest`: what it is by its definition, for a proof that unfolds it.
pub proof fn block_rest_step(kinds: Seq<TokenKind>, at: int)
    ensures
        block_rest(kinds, at) == ({
            match kind_at(kinds, at) {
                Some(TokenKind::RightBrace) => Some(at + 1),
                Some(_) => match further(kinds, at + 1, statement_end(kinds, at)) {
                    Some(end) => block_rest(kinds, end),
                    None => None,
                },
                None => None,
            }
        }),
{
    reveal_with_fuel(block_rest, 1);
    reveal_with_fuel(statement_end, 1);
}

/// Where the expression statement that begins at `at` ends.
#[verifier::opaque]
pub open spec fn expression_statement_end(kinds: Seq<TokenKind>, at: int) -> Option<int>
    decreases kinds.len() - at, 30nat,
{
    match expression_end(kinds, at) {
        Some(value) => if stands(kinds, value.end, TokenKind::Semicolon) {
            Some(value.end + 1)
        } else {
            None
        },
        None => None,
    }
}

/// One step of `expression_statement_end`: what it is by its definition, for a proof that unfolds it.
pub proof fn expression_statement_end_step(kinds: Seq<TokenKind>, at: int)
    ensures
        expression_statement_end(kinds, at) == ({
            match expression_end(kinds, at) {
                Some(value) => if stands(kinds, value.end, TokenKind::Semicolon) {
                    Some(value.end + 1)
                } else {
                    None
                },
                None => None,
            }
        }),
{
    reveal_with_fuel(expression_end, 1);
    reveal_with_fuel(expression_statement_end, 1);
}

/// Where the statement that begins at `at` ends, if one begins there.
#[verifier::opaque]
pub open spec fn statement_end(kinds: Seq<TokenKind>, at: int) -> Option<int>
    decreases kinds.len() - at, 40nat,
{
    match kind_at(kinds, at) {
        Some(TokenKind::Let) => variable_declaration_end(kinds, at),
        Some(TokenKind::Fu) => function_definition_end(kinds, at),
        Some(TokenKind::Return) => return_end(kinds, at),
        Some(TokenKind::If) => if_end(kinds, at),
        Some(TokenKind::While) => while_end(kinds, at),
        Some(TokenKind::LeftBrace) => block_end(kinds, at),
        _ => expression_statement_end(kinds, at),
    }
}

/// One step of `statement_end`: what it is by its definition, for a proof that unfolds it.
pub proof fn statement_end_step(kinds: Seq<TokenKind>, at: int)
    ensures
        statement_end(kinds, at) == ({
            match kind_at(kinds, at) {
                Some(TokenKind::Let) => variable_declaration_end(kinds, at),
                Some(TokenKind::Fu) => function_definition_end(kinds, at),
                Some(TokenKind::Return) => return_end(kinds, at),
                Some(TokenKind::If) => if_end(kinds, at),
                Some(TokenKind::While) => while_end(kinds, at),
                Some(TokenKind::LeftBrace) => block_end(kinds, at),
                _ => expression_statement_end(kinds, at),
            }
        }),
{
    reveal_with_fuel(variable_declaration_end, 1);
    reveal_with_fuel(function_definition_end, 1);
    reveal_with_fuel(return_end, 1);
    reveal_with_fuel(if_end, 1);
    reveal_with_fuel(while_end, 1);
    reveal_with_fuel(block_end, 1);
    reveal_with_fuel(expression_statement_end, 1);
    reveal_with_fuel(statement_end, 1);
}

/// Whether the tokens from `at` on are statements, one after another, to the last token.
#[verifier::opaque]
pub open spec fn program_from(kinds: Seq<TokenKind>, at: int) -> bool
    decreases kinds.len() - at,
{
    if at < 0 || at >= kinds.len() {
        true
    } else {
        match further(kinds, at + 1, statement_end(kinds, at)) {
            Some(end) => program_from(kinds, end),
            None => false,
        }
    }
}

/// One step of `program_from`: what it is by its definition, for a proof that unfolds it.
pub proof fn program_from_step(kinds: Seq<TokenKind>, at: int)
    ensures
        program_from(kinds, at) == ({
            if at < 0 || at >= kinds.len() {
                true
            } else {
                match further(kinds, at + 1, statement_end(kinds, at)) {
                    Some(end) => program_from(kinds, end),
                    None => false,
                }
            }
        }),
{
    reveal_with_fuel(statement_end, 1);
    reveal_with_fuel(program_from, 1);
}

/// Whether tokens of these kinds are a program.
pub open spec fn program(kinds: Seq<TokenKind>) -> bool {
    program_from(kinds, 0)
}

} // verus!
