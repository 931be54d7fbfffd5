//! Expressions within the slang programming language.

use crate::environment::EnvironmentError;
use crate::value::{Type, Value};
use vstd::prelude::*;
use vstd::std_specs::convert::FromSpecImpl;

verus! {

/// All errors which can occur while evaluating an expression.
#[allow(inconsistent_fields)]
pub enum EvaluationError {
    /// When the types of the operands for a binary operation are not valid.
    InvalidBinaryTypes { left: Type, operator: BinaryOperator, right: Option<Type> },
    /// When the type of the operand for a unary operation is not valid.
    InvalidUnaryType { operator: UnaryOperator, operand: Type },
    /// When a division by zero occurs.
    DivisionByZero,
    /// When there is an attempt to get the value of a variable which has not been defined.
    UndefinedIdentifier { identifier: String },
    /// When there is an attempt to get the value of a variable which has not been initialised.
    UninitialisedTarget { identifier: String },
    /// When the condition of an if-statement, a while-loop or a ternary expression does not
    /// have the type of Boolean.
    NonBooleanControlFlowCondition { condition: Type, control_flow: String },
    /// When something that is not a function is called.
    AttemptedCallOfNonFunction { attempt: Type },
    /// When a function is called with more or fewer arguments than it has parameters.
    IncorrectArgumentCount { expected: usize, passed: usize },
    /// When the value of a call is used and the call gave none.
    AttemptToUseNothing,
    /// When a field is read or written on something that is not a record.
    AttemptToAccessNonObject { attempt: Type },
    /// When a field is read that the record does not have.
    UndefinedField(String),
    /// When calls nest deeper, or a loop runs longer, than the limits allow.
    LimitReached,
}

/// What an [`EvaluationError`] stands for.
#[allow(inconsistent_fields)]
pub enum EvaluationErrorView {
    InvalidBinaryTypes { left: Type, operator: BinaryOperator, right: Option<Type> },
    InvalidUnaryType { operator: UnaryOperator, operand: Type },
    DivisionByZero,
    UndefinedIdentifier { identifier: Seq<char> },
    UninitialisedTarget { identifier: Seq<char> },
    NonBooleanControlFlowCondition { condition: Type, control_flow: Seq<char> },
    AttemptedCallOfNonFunction { attempt: Type },
    IncorrectArgumentCount { expected: usize, passed: usize },
    AttemptToUseNothing,
    AttemptToAccessNonObject { attempt: Type },
    UndefinedField(Seq<char>),
    LimitReached,
}

impl View for EvaluationError {
    type V = EvaluationErrorView;

    open spec fn view(&self) -> EvaluationErrorView {
        match self {
            Self::InvalidBinaryTypes { left, operator, right } => {
                EvaluationErrorView::InvalidBinaryTypes {
                    left: *left,
                    operator: *operator,
                    right: *right,
                }
            },
            Self::InvalidUnaryType { operator, operand } => EvaluationErrorView::InvalidUnaryType {
                operator: *operator,
                operand: *operand,
            },
            Self::DivisionByZero => EvaluationErrorView::DivisionByZero,
            Self::UndefinedIdentifier { identifier } => EvaluationErrorView::UndefinedIdentifier {
                identifier: identifier@,
            },
            Self::UninitialisedTarget { identifier } => EvaluationErrorView::UninitialisedTarget {
                identifier: identifier@,
            },
            Self::NonBooleanControlFlowCondition { condition, control_flow } => {
                EvaluationErrorView::NonBooleanControlFlowCondition {
                    condition: *condition,
                    control_flow: control_flow@,
                }
            },
            Self::AttemptedCallOfNonFunction { attempt } => {
                EvaluationErrorView::AttemptedCallOfNonFunction { attempt: *attempt }
            },
            Self::IncorrectArgumentCount { expected, passed } => {
                EvaluationErrorView::IncorrectArgumentCount { expected: *expected, passed: *passed }
            },
            Self::AttemptToUseNothing => EvaluationErrorView::AttemptToUseNothing,
            Self::AttemptToAccessNonObject { attempt } => {
                EvaluationErrorView::AttemptToAccessNonObject { attempt: *attempt }
            },
            Self::UndefinedField(field) => EvaluationErrorView::UndefinedField(field@),
            Self::LimitReached => EvaluationErrorView::LimitReached,
        }
    }
}

impl From<EnvironmentError> for EvaluationError {
    fn from(value: EnvironmentError) -> (error: Self) {
        match value {
            EnvironmentError::UndefinedAssignmentTarget { identifier } => {
                Self::UndefinedIdentifier { identifier }
            },
            EnvironmentError::UndefinedTarget { identifier } => {
                Self::UndefinedIdentifier { identifier }
            },
            EnvironmentError::UninitialisedTarget { identifier } => {
                Self::UninitialisedTarget { identifier }
            },
        }
    }
}

impl FromSpecImpl<EnvironmentError> for EvaluationError {
    open spec fn obeys_from_spec() -> bool {
        true
    }

    open spec fn from_spec(value: EnvironmentError) -> Self {
        match value {
            EnvironmentError::UndefinedAssignmentTarget { identifier } => {
                Self::UndefinedIdentifier { identifier }
            },
            EnvironmentError::UndefinedTarget { identifier } => {
                Self::UndefinedIdentifier { identifier }
            },
            EnvironmentError::UninitialisedTarget { identifier } => {
                Self::UninitialisedTarget { identifier }
            },
        }
    }
}

/// All valid binary operators.
#[derive(Debug, PartialEq, Eq, Structural, Clone, Copy)]
pub enum BinaryOperator {
    Add,
    Subtract,
    Multiply,
    Divide,
    Exponent,
    EqualTo,
    NotEqualTo,
    GreaterThan,
    GreaterThanOrEqualTo,
    LessThan,
    LessThanOrEqualTo,
    AND,
    OR,
    BitwiseAND,
    BitwiseOR,
}

impl BinaryOperator {
    /// How the binary operator appears in source code.
    pub open spec fn symbol(self) -> Seq<char> {
        match self {
            Self::Add => "+"@,
            Self::Subtract => "-"@,
            Self::Multiply => "*"@,
            Self::Divide => "/"@,
            Self::Exponent => "^"@,
            Self::EqualTo => "=="@,
            Self::NotEqualTo => "!="@,
            Self::GreaterThan => ">"@,
            Self::GreaterThanOrEqualTo => ">="@,
            Self::LessThan => "<"@,
            Self::LessThanOrEqualTo => "<="@,
            Self::AND => "&&"@,
            Self::OR => "||"@,
            Self::BitwiseAND => "&"@,
            Self::BitwiseOR => "|"@,
        }
    }

    /// How the binary operator will appear in source code.
    pub fn raw(&self) -> (raw: String)
        ensures
            raw@ == self.symbol(),
    {
        match self {
            Self::Add => "+",
            Self::Subtract => "-",
            Self::Multiply => "*",
            Self::Divide => "/",
            Self::Exponent => "^",
            Self::EqualTo => "==",
            Self::NotEqualTo => "!=",
            Self::GreaterThan => ">",
            Self::GreaterThanOrEqualTo => ">=",
            Self::LessThan => "<",
            Self::LessThanOrEqualTo => "<=",
            Self::AND => "&&",
            Self::OR => "||",
            Self::BitwiseAND => "&",
            Self::BitwiseOR => "|",
        }.to_string()
    }
}

/// All valid unary operators.
#[derive(Debug, PartialEq, Eq, Structural, Clone, Copy)]
pub enum UnaryOperator {
    Minus,
    NOT,
}

impl UnaryOperator {
    /// How the unary operator appears in source code.
    pub open spec fn symbol(self) -> Seq<char> {
        match self {
            Self::Minus => "-"@,
            Self::NOT => "!"@,
        }
    }

    /// How the unary operator will appear in source code.
    pub fn raw(&self) -> (raw: String)
        ensures
            raw@ == self.symbol(),
    {
        match self {
            Self::Minus => "-",
            Self::NOT => "!",
        }.to_string()
    }
}

/// Represents all possible expressions within the slang programming language.
#[allow(inconsistent_fields)]
pub enum Expression {
    /// Ternary expressions, in the form `condition ? if_true : if_false`.
    Ternary { condition: Box<Expression>, left: Box<Expression>, right: Box<Expression> },
    /// Binary expressions, in the form `left operator right`.
    Binary { left: Box<Expression>, operator: BinaryOperator, right: Box<Expression> },
    /// Unary expressions, in the form `operator operand`.
    Unary { operator: UnaryOperator, operand: Box<Expression> },
    /// A function call.
    Call { function: Box<Expression>, arguments: Vec<Box<Expression>> },
    /// An assignment expression, which yields the assigned value.
    Assignment { identifier: String, value: Box<Expression> },
    /// An expression surrounded by parenthesis.
    Grouping { contained: Box<Expression> },
    /// A literal value.
    Literal { value: Value },
    /// A reference to a variable.
    Variable { identifier: String },
    /// A read of a record's field.
    GetField { object: Box<Expression>, field: String },
    /// A write to a record's field.
    SetField { object: Box<Expression>, field: String, value: Box<Expression> },
    /// A record literal: its fields in source order.
    Object(Vec<(String, Expression)>),
}

} // verus!
