//! Statements within the slang programming language.

use crate::expression::Expression;
use crate::value::Value;
use std::rc::Rc;
use vstd::prelude::*;

verus! {

/// Used to signal whether a block should be exited early.
pub enum ControlFlow {
    /// Signals that execution of the block should continue.
    Continue,
    /// Signals that execution of the block should terminate, with an optional value returned.
    Break(Option<Value>),
}

/// Represents a statement.
#[allow(inconsistent_fields)]
pub enum Statement {
    /// A variable declaration.
    VariableDeclaration { identifier: String, initialiser: Option<Expression> },
    /// An if-statement.
    IfStatement {
        condition: Expression,
        execute_if_true: Box<Statement>,
        execute_if_false: Option<Box<Statement>>,
    },
    /// A function definition. Its parameters and body are shared with every value of the function.
    FunctionDefinition { identifier: String, parameters: Rc<Vec<String>>, block: Rc<Statement> },
    /// A return statement.
    Return(Option<Expression>),
    /// A while-loop.
    WhileLoop { condition: Expression, block: Box<Statement> },
    /// A block.
    Block(Vec<Statement>),
    /// An expression statement.
    Expression(Expression),
}

} // verus!
