//! What the operators compute.

use crate::expression::{BinaryOperator, EvaluationError, EvaluationErrorView, UnaryOperator};
use crate::float::Float;
use crate::host::{Host, HostView};
use crate::value::{Value, ValueView};
use vstd::prelude::*;
use vstd::string::StringExecFns;

verus! {

/// `base` multiplied by itself `exponent` times, each product wrapped into 32 bits.
pub open spec fn power(base: i32, exponent: nat) -> i32
    decreases exponent,
{
    if exponent == 0 {
        1
    } else {
        power(base, (exponent - 1) as nat).wrapping_mul(base)
    }
}

/// The quotient of two integers, rounded towards zero and wrapped into 32 bits.
pub open spec fn quotient(left: i32, right: i32) -> i32 {
    match left.checked_div(right) {
        Some(quotient) => quotient,
        None => i32::MIN,
    }
}

/// The error for operands that an operator is not defined for.
pub open spec fn mismatch(operator: BinaryOperator, left: ValueView, right: ValueView) -> Result<
    ValueView,
    EvaluationErrorView,
> {
    Err(
        EvaluationErrorView::InvalidBinaryTypes {
            left: left.slang_type(),
            operator,
            right: Some(right.slang_type()),
        },
    )
}

/// What a unary operator gives for an operand.
pub open spec fn unary_result(operator: UnaryOperator, operand: ValueView) -> Result<
    ValueView,
    EvaluationErrorView,
> {
    match (operator, operand) {
        (UnaryOperator::Minus, ValueView::Integer(operand)) => Ok(
            ValueView::Integer(0i32.wrapping_sub(operand)),
        ),
        (UnaryOperator::Minus, ValueView::Float(operand)) => Ok(
            ValueView::Float(operand.opposite()),
        ),
        (UnaryOperator::NOT, ValueView::Integer(operand)) => Ok(
            ValueView::Integer((-1 - operand) as i32),
        ),
        (UnaryOperator::NOT, ValueView::Boolean(operand)) => Ok(ValueView::Boolean(!operand)),
        _ => Err(
            EvaluationErrorView::InvalidUnaryType { operator, operand: operand.slang_type() },
        ),
    }
}

/// What a binary operator gives for two operands that have both been evaluated.
pub open spec fn binary_result<A: Fn(BinaryOperator, Float, Float) -> Float, D: Fn(Float) -> String>(
    host: HostView<A, D>,
    operator: BinaryOperator,
    left: ValueView,
    right: ValueView,
) -> Result<ValueView, EvaluationErrorView> {
    match operator {
        BinaryOperator::Add => match (left, right) {
            (ValueView::String(left), ValueView::String(right)) => Ok(
                ValueView::String(left + right),
            ),
            (ValueView::Integer(left), ValueView::Integer(right)) => Ok(
                ValueView::Integer(left.wrapping_add(right)),
            ),
            (ValueView::Float(left), ValueView::Float(right)) => Ok(
                ValueView::Float(host.computed(operator, left, right)),
            ),
            _ => mismatch(operator, left, right),
        },
        BinaryOperator::Subtract => match (left, right) {
            (ValueView::Integer(left), ValueView::Integer(right)) => Ok(
                ValueView::Integer(left.wrapping_sub(right)),
            ),
            (ValueView::Float(left), ValueView::Float(right)) => Ok(
                ValueView::Float(host.computed(operator, left, right)),
            ),
            _ => mismatch(operator, left, right),
        },
        BinaryOperator::Multiply => match (left, right) {
            (ValueView::Integer(left), ValueView::Integer(right)) => Ok(
                ValueView::Integer(left.wrapping_mul(right)),
            ),
            (ValueView::Float(left), ValueView::Float(right)) => Ok(
                ValueView::Float(host.computed(operator, left, right)),
            ),
            _ => mismatch(operator, left, right),
        },
        BinaryOperator::Divide => match (left, right) {
            (ValueView::Integer(left), ValueView::Integer(right)) => if right == 0 {
                Err(EvaluationErrorView::DivisionByZero)
            } else {
                Ok(ValueView::Integer(quotient(left, right)))
            },
            (ValueView::Float(left), ValueView::Float(right)) => if right.zero() {
                Err(EvaluationErrorView::DivisionByZero)
            } else {
                Ok(ValueView::Float(host.computed(operator, left, right)))
            },
            _ => mismatch(operator, left, right),
        },
        BinaryOperator::Exponent => match (left, right) {
            (ValueView::Integer(left), ValueView::Integer(right)) => if right < 0 {
                if left == 0 {
                    Err(EvaluationErrorView::DivisionByZero)
                } else {
                    Ok(ValueView::Integer(0))
                }
            } else {
                Ok(ValueView::Integer(power(left, right as nat)))
            },
            (ValueView::Float(left), ValueView::Float(right)) => Ok(
                ValueView::Float(host.computed(operator, left, right)),
            ),
            _ => mismatch(operator, left, right),
        },
        BinaryOperator::EqualTo => match (left, right) {
            (ValueView::String(left), ValueView::String(right)) => Ok(
                ValueView::Boolean(left == right),
            ),
            (ValueView::Integer(left), ValueView::Integer(right)) => Ok(
                ValueView::Boolean(left == right),
            ),
            (ValueView::Float(left), ValueView::Float(right)) => Ok(
                ValueView::Boolean(left.same(right)),
            ),
            (ValueView::Boolean(left), ValueView::Boolean(right)) => Ok(
                ValueView::Boolean(left == right),
            ),
            _ => mismatch(operator, left, right),
        },
        BinaryOperator::NotEqualTo => match (left, right) {
            (ValueView::String(left), ValueView::String(right)) => Ok(
                ValueView::Boolean(left != right),
            ),
            (ValueView::Integer(left), ValueView::Integer(right)) => Ok(
                ValueView::Boolean(left != right),
            ),
            (ValueView::Float(left), ValueView::Float(right)) => Ok(
                ValueView::Boolean(!left.same(right)),
            ),
            (ValueView::Boolean(left), ValueView::Boolean(right)) => Ok(
                ValueView::Boolean(left != right),
            ),
            _ => mismatch(operator, left, right),
        },
        BinaryOperator::GreaterThan => match (left, right) {
            (ValueView::Integer(left), ValueView::Integer(right)) => Ok(
                ValueView::Boolean(left > right),
            ),
            (ValueView::Float(left), ValueView::Float(right)) => Ok(
                ValueView::Boolean(right.below(left)),
            ),
            _ => mismatch(operator, left, right),
        },
        BinaryOperator::GreaterThanOrEqualTo => match (left, right) {
            (ValueView::Integer(left), ValueView::Integer(right)) => Ok(
                ValueView::Boolean(left >= right),
            ),
            (ValueView::Float(left), ValueView::Float(right)) => Ok(
                ValueView::Boolean(right.below(left) || left.same(right)),
            ),
            _ => mismatch(operator, left, right),
        },
        BinaryOperator::LessThan => match (left, right) {
            (ValueView::Integer(left), ValueView::Integer(right)) => Ok(
                ValueView::Boolean(left < right),
            ),
            (ValueView::Float(left), ValueView::Float(right)) => Ok(
                ValueView::Boolean(left.below(right)),
            ),
            _ => mismatch(operator, left, right),
        },
        BinaryOperator::LessThanOrEqualTo => match (left, right) {
            (ValueView::Integer(left), ValueView::Integer(right)) => Ok(
                ValueView::Boolean(left <= right),
            ),
            (ValueView::Float(left), ValueView::Float(right)) => Ok(
                ValueView::Boolean(left.below(right) || left.same(right)),
            ),
            _ => mismatch(operator, left, right),
        },
        BinaryOperator::AND => match (left, right) {
            (ValueView::Boolean(left), ValueView::Boolean(right)) => Ok(
                ValueView::Boolean(left && right),
            ),
            _ => mismatch(operator, left, right),
        },
        BinaryOperator::OR => match (left, right) {
            (ValueView::Boolean(left), ValueView::Boolean(right)) => Ok(
                ValueView::Boolean(left || right),
            ),
            _ => mismatch(operator, left, right),
        },
        BinaryOperator::BitwiseAND => match (left, right) {
            (ValueView::Integer(left), ValueView::Integer(right)) => Ok(
                ValueView::Integer(left & right),
            ),
            (ValueView::Boolean(left), ValueView::Boolean(right)) => Ok(
                ValueView::Boolean(left && right),
            ),
            _ => mismatch(operator, left, right),
        },
        BinaryOperator::BitwiseOR => match (left, right) {
            (ValueView::Integer(left), ValueView::Integer(right)) => Ok(
                ValueView::Integer(left | right),
            ),
            (ValueView::Boolean(left), ValueView::Boolean(right)) => Ok(
                ValueView::Boolean(left || right),
            ),
            _ => mismatch(operator, left, right),
        },
    }
}

/// What a result stands for.
pub open spec fn outcome_view(outcome: Result<Value, EvaluationError>) -> Result<
    ValueView,
    EvaluationErrorView,
> {
    match outcome {
        Ok(value) => Ok(value@),
        Err(error) => Err(error@),
    }
}

/// Raises an integer to a power that is not negative.
pub fn integer_power(base: i32, exponent: i32) -> (result: i32)
    requires
        exponent >= 0,
    ensures
        result == power(base, exponent as nat),
{
    let mut result: i32 = 1;
    let mut done: i32 = 0;
    while done < exponent
        invariant
            0 <= done <= exponent,
            result == power(base, done as nat),
        decreases exponent - done,
    {
        result = result.wrapping_mul(base);
        done = done + 1;
    }
    result
}

fn invalid_binary(operator: BinaryOperator, left: &Value, right: &Value) -> (outcome: Result<
    Value,
    EvaluationError,
>)
    ensures
        outcome_view(outcome) == mismatch(operator, left@, right@),
{
    Err(
        EvaluationError::InvalidBinaryTypes {
            left: left.slang_type(),
            operator,
            right: Some(right.slang_type()),
        },
    )
}

/// Applies a unary operator.
pub fn unary_operation(operator: UnaryOperator, operand: Value) -> (outcome: Result<
    Value,
    EvaluationError,
>)
    ensures
        outcome_view(outcome) == unary_result(operator, operand@),
{
    match operator {
        UnaryOperator::Minus => match operand {
            Value::Integer(operand) => Ok(Value::Integer(0i32.wrapping_sub(operand))),
            Value::Float(operand) => Ok(Value::Float(operand.negate())),
            _ => Err(
                EvaluationError::InvalidUnaryType { operator, operand: operand.slang_type() },
            ),
        },
        UnaryOperator::NOT => match operand {
            Value::Integer(operand) => Ok(Value::Integer(-1 - operand)),
            Value::Boolean(operand) => Ok(Value::Boolean(!operand)),
            _ => Err(
                EvaluationError::InvalidUnaryType { operator, operand: operand.slang_type() },
            ),
        },
    }
}

/// Applies a binary operator to two operands that have both been evaluated.
pub fn binary_operation<A: Fn(BinaryOperator, Float, Float) -> Float, D: Fn(Float) -> String>(
    host: &Host<A, D>,
    operator: BinaryOperator,
    left: Value,
    right: Value,
) -> (outcome: Result<Value, EvaluationError>)
    requires
        host.well_formed(),
    ensures
        outcome_view(outcome) == binary_result(host@, operator, left@, right@),
{
    match operator {
        BinaryOperator::Add => match (left, right) {
            (Value::String(left), Value::String(right)) => Ok(
                Value::String(left.concat(right.as_str())),
            ),
            (Value::Integer(left), Value::Integer(right)) => Ok(
                Value::Integer(left.wrapping_add(right)),
            ),
            (Value::Float(left), Value::Float(right)) => Ok(
                Value::Float(host.compute(operator, left, right)),
            ),
            (left, right) => invalid_binary(operator, &left, &right),
        },
        BinaryOperator::Subtract => match (left, right) {
            (Value::Integer(left), Value::Integer(right)) => Ok(
                Value::Integer(left.wrapping_sub(right)),
            ),
            (Value::Float(left), Value::Float(right)) => Ok(
                Value::Float(host.compute(operator, left, right)),
            ),
            (left, right) => invalid_binary(operator, &left, &right),
        },
        BinaryOperator::Multiply => match (left, right) {
            (Value::Integer(left), Value::Integer(right)) => Ok(
                Value::Integer(left.wrapping_mul(right)),
            ),
            (Value::Float(left), Value::Float(right)) => Ok(
                Value::Float(host.compute(operator, left, right)),
            ),
            (left, right) => invalid_binary(operator, &left, &right),
        },
        BinaryOperator::Divide => match (left, right) {
            (Value::Integer(left), Value::Integer(right)) => {
                if right == 0 {
                    Err(EvaluationError::DivisionByZero)
                } else {
                    match left.checked_div(right) {
                        Some(quotient) => Ok(Value::Integer(quotient)),
                        None => Ok(Value::Integer(i32::MIN)),
                    }
                }
            },
            (Value::Float(left), Value::Float(right)) => {
                if right.is_zero() {
                    Err(EvaluationError::DivisionByZero)
                } else {
                    Ok(Value::Float(host.compute(operator, left, right)))
                }
            },
            (left, right) => invalid_binary(operator, &left, &right),
        },
        BinaryOperator::Exponent => match (left, right) {
            (Value::Integer(left), Value::Integer(right)) => {
                if right < 0 {
                    if left == 0 {
                        Err(EvaluationError::DivisionByZero)
                    } else {
                        Ok(Value::Integer(0))
                    }
                } else {
                    Ok(Value::Integer(integer_power(left, right)))
                }
            },
            (Value::Float(left), Value::Float(right)) => Ok(
                Value::Float(host.compute(operator, left, right)),
            ),
            (left, right) => invalid_binary(operator, &left, &right),
        },
        BinaryOperator::EqualTo => match (left, right) {
            (Value::String(left), Value::String(right)) => Ok(Value::Boolean(left == right)),
            (Value::Integer(left), Value::Integer(right)) => Ok(Value::Boolean(left == right)),
            (Value::Float(left), Value::Float(right)) => Ok(Value::Boolean(left.equals(right))),
            (Value::Boolean(left), Value::Boolean(right)) => Ok(Value::Boolean(left == right)),
            (left, right) => invalid_binary(operator, &left, &right),
        },
        BinaryOperator::NotEqualTo => match (left, right) {
            (Value::String(left), Value::String(right)) => Ok(Value::Boolean(!(left == right))),
            (Value::Integer(left), Value::Integer(right)) => Ok(Value::Boolean(left != right)),
            (Value::Float(left), Value::Float(right)) => Ok(Value::Boolean(!left.equals(right))),
            (Value::Boolean(left), Value::Boolean(right)) => Ok(Value::Boolean(left != right)),
            (left, right) => invalid_binary(operator, &left, &right),
        },
        BinaryOperator::GreaterThan => match (left, right) {
            (Value::Integer(left), Value::Integer(right)) => Ok(Value::Boolean(left > right)),
            (Value::Float(left), Value::Float(right)) => Ok(
                Value::Boolean(right.less_than(left)),
            ),
            (left, right) => invalid_binary(operator, &left, &right),
        },
        BinaryOperator::GreaterThanOrEqualTo => match (left, right) {
            (Value::Integer(left), Value::Integer(right)) => Ok(Value::Boolean(left >= right)),
            (Value::Float(left), Value::Float(right)) => Ok(
                Value::Boolean(right.less_than(left) || left.equals(right)),
            ),
            (left, right) => invalid_binary(operator, &left, &right),
        },
        BinaryOperator::LessThan => match (left, right) {
            (Value::Integer(left), Value::Integer(right)) => Ok(Value::Boolean(left < right)),
            (Value::Float(left), Value::Float(right)) => Ok(
                Value::Boolean(left.less_than(right)),
            ),
            (left, right) => invalid_binary(operator, &left, &right),
        },
        BinaryOperator::LessThanOrEqualTo => match (left, right) {
            (Value::Integer(left), Value::Integer(right)) => Ok(Value::Boolean(left <= right)),
            (Value::Float(left), Value::Float(right)) => Ok(
                Value::Boolean(left.less_than(right) || left.equals(right)),
            ),
            (left, right) => invalid_binary(operator, &left, &right),
        },
        BinaryOperator::AND => match (left, right) {
            (Value::Boolean(left), Value::Boolean(right)) => Ok(Value::Boolean(left && right)),
            (left, right) => invalid_binary(operator, &left, &right),
        },
        BinaryOperator::OR => match (left, right) {
            (Value::Boolean(left), Value::Boolean(right)) => Ok(Value::Boolean(left || right)),
            (left, right) => invalid_binary(operator, &left, &right),
        },
        BinaryOperator::BitwiseAND => match (left, right) {
            (Value::Integer(left), Value::Integer(right)) => Ok(Value::Integer(left & right)),
            (Value::Boolean(left), Value::Boolean(right)) => Ok(Value::Boolean(left && right)),
            (left, right) => invalid_binary(operator, &left, &right),
        },
        BinaryOperator::BitwiseOR => match (left, right) {
            (Value::Integer(left), Value::Integer(right)) => Ok(Value::Integer(left | right)),
            (Value::Boolean(left), Value::Boolean(right)) => Ok(Value::Boolean(left || right)),
            (left, right) => invalid_binary(operator, &left, &right),
        },
    }
}

} // verus!
