//! What running a program means: the state of the interpreter, and what each expression and
//! statement makes of it.

use crate::expression::{BinaryOperator, EvaluationErrorView, Expression};
use crate::float::Float;
use crate::heap::model::{alive, field_of, written, Fields, Slots};
use crate::heap::Strategy;
use crate::host::{HostView, Limits};
use crate::operation::{binary_result, unary_result};
use crate::protocol::{
    bound_in, declared_in, departed_in, pending_references, replaced_in, sample_of, sampled_in,
    settled_in, stored_in,
};
use crate::render::rendered;
use crate::stack::{Lookup, StackView};
use crate::statement::Statement;
use crate::stats::Sample;
use crate::table::{has, position, with};
use crate::value::{Function, NativeFunction, Pointer, Type, ValueView};
use vstd::prelude::*;

verus! {

/// What a statement leaves for the statements after it.
pub enum Flow {
    /// They run.
    Continue,
    /// They do not: the block is left, with the value that is returned, if there is one.
    Break(Option<ValueView>),
}

/// What evaluating an expression gives: a value, nothing, or an error.
pub type Outcome = Result<Option<ValueView>, EvaluationErrorView>;

/// What executing a statement gives.
pub type Course = Result<Flow, EvaluationErrorView>;

/// The state of the interpreter.
pub struct State<A, D> {
    pub stack: StackView,
    pub slots: Slots,
    pub strategy: Strategy,
    /// The samples that the logger has taken.
    pub samples: Seq<Sample>,
    /// The reading of memory usage that the logger stamps its samples with.
    pub reading: Option<usize>,
    pub host: HostView<A, D>,
}

/// The value of an expression that must have one.
pub open spec fn something<A, D>(evaluated: (Outcome, State<A, D>)) -> (
    Result<ValueView, EvaluationErrorView>,
    State<A, D>,
) {
    match evaluated.0 {
        Ok(Some(value)) => (Ok(value), evaluated.1),
        Ok(None) => (Err(EvaluationErrorView::AttemptToUseNothing), evaluated.1),
        Err(error) => (Err(error), evaluated.1),
    }
}

/// The error for a condition that is not a Boolean.
pub open spec fn not_a_condition(condition: ValueView, construct: Seq<char>) -> EvaluationErrorView {
    EvaluationErrorView::NonBooleanControlFlowCondition {
        condition: condition.slang_type(),
        control_flow: construct,
    }
}

impl<A: Fn(BinaryOperator, Float, Float) -> Float, D: Fn(Float) -> String> State<A, D> {
    /// Whether the heap counts owners.
    pub open spec fn counting(self) -> bool {
        self.strategy == Strategy::ReferenceCounted
    }

    /// Whether the heap collects by tracing.
    pub open spec fn tracing(self) -> bool {
        self.strategy == Strategy::GarbageCollected
    }

    /// The state once `value` is fit to be stored, and the value as it is stored.
    pub open spec fn stored(self, value: ValueView) -> (Self, ValueView) {
        (
            State { slots: stored_in(self.slots, value, self.counting()).0, ..self },
            stored_in(self.slots, value, self.counting()).1,
        )
    }

    /// The state once what a binding will hold is fit to be stored.
    pub open spec fn stored_binding(self, value: Option<ValueView>) -> (Self, Option<ValueView>) {
        match value {
            Some(value) => (self.stored(value).0, Some(self.stored(value).1)),
            None => (self, None),
        }
    }

    /// The state once a value that was stored has been replaced.
    pub open spec fn replaced(self, previous: Option<ValueView>) -> Self {
        State { slots: replaced_in(self.slots, previous, self.counting()), ..self }
    }

    /// The state once `identifier` is defined in the innermost scope.
    pub open spec fn declared(self, identifier: Seq<char>, value: Option<ValueView>) -> Self {
        let (stack, slots) = declared_in(
            self.stack,
            self.slots,
            self.counting(),
            identifier,
            value,
        );
        State { stack, slots, ..self }
    }

    /// The state once the references that were handed back into the innermost scope are given
    /// up.
    pub open spec fn settled(self) -> Self {
        State {
            stack: self.stack.settled(),
            slots: settled_in(self.stack, self.slots, self.counting()),
            ..self
        }
    }

    /// The state once a block, or the call that is running, is left while the references
    /// `pending` are being returned.
    pub open spec fn departed(self, pending: Seq<Pointer>, call: bool) -> Self {
        let (stack, slots) = departed_in(self.stack, self.slots, self.strategy, pending, call);
        State { stack, slots, ..self }
    }

    /// The state once a statement is about to run: the two counts are defined in the
    /// innermost scope, and the logger has taken a sample.
    pub open spec fn sampled(self) -> Self {
        State {
            stack: sampled_in(self.stack, self.slots),
            samples: self.samples.push(sample_of(self.stack, self.slots, self.reading)),
            ..self
        }
    }
}

/// What evaluating an expression gives, and the state that it leaves.
pub open spec fn evaluated<A: Fn(BinaryOperator, Float, Float) -> Float, D: Fn(Float) -> String>(
    expression: Expression,
    state: State<A, D>,
    limits: Limits,
) -> (Outcome, State<A, D>)
    decreases limits.depth, expression, 1nat, 0nat,
{
    match expression {
        Expression::Literal { value } => (Ok(Some(value@)), state),
        Expression::Variable { identifier } => (
            match state.stack.lookup(identifier@) {
                Lookup::Value(value) => Ok(Some(value)),
                Lookup::Uninitialised => Err(
                    EvaluationErrorView::UninitialisedTarget { identifier: identifier@ },
                ),
                Lookup::Undefined => Err(
                    EvaluationErrorView::UndefinedIdentifier { identifier: identifier@ },
                ),
            },
            state,
        ),
        Expression::Grouping { contained } => evaluated(*contained, state, limits),
        Expression::Ternary { condition, left, right } => {
            let (truth, state) = something(evaluated(*condition, state, limits));
            match truth {
                Err(error) => (Err(error), state),
                Ok(ValueView::Boolean(truth)) => if truth {
                    evaluated(*left, state, limits)
                } else {
                    evaluated(*right, state, limits)
                },
                Ok(other) => (Err(not_a_condition(other, "ternary"@)), state),
            }
        },
        Expression::Unary { operator, operand } => {
            let (operand, state) = something(evaluated(*operand, state, limits));
            match operand {
                Err(error) => (Err(error), state),
                Ok(operand) => (
                    match unary_result(operator, operand) {
                        Ok(value) => Ok(Some(value)),
                        Err(error) => Err(error),
                    },
                    state,
                ),
            }
        },
        Expression::Binary { left, operator, right } => {
            let (first, state) = something(evaluated(*left, state, limits));
            match first {
                Err(error) => (Err(error), state),
                Ok(first) => if operator == BinaryOperator::AND || operator == BinaryOperator::OR {
                    match first {
                        ValueView::Boolean(first) => if first == (operator == BinaryOperator::OR) {
                            (Ok(Some(ValueView::Boolean(first))), state)
                        } else {
                            let (second, state) = something(evaluated(*right, state, limits));
                            match second {
                                Err(error) => (Err(error), state),
                                Ok(ValueView::Boolean(second)) => (
                                    Ok(Some(ValueView::Boolean(second))),
                                    state,
                                ),
                                Ok(other) => (
                                    Err(
                                        EvaluationErrorView::InvalidBinaryTypes {
                                            left: Type::Boolean,
                                            operator,
                                            right: Some(other.slang_type()),
                                        },
                                    ),
                                    state,
                                ),
                            }
                        },
                        other => (
                            Err(
                                EvaluationErrorView::InvalidBinaryTypes {
                                    left: other.slang_type(),
                                    operator,
                                    right: None,
                                },
                            ),
                            state,
                        ),
                    }
                } else {
                    let (second, state) = something(evaluated(*right, state, limits));
                    match second {
                        Err(error) => (Err(error), state),
                        Ok(second) => (
                            match binary_result(state.host, operator, first, second) {
                                Ok(value) => Ok(Some(value)),
                                Err(error) => Err(error),
                            },
                            state,
                        ),
                    }
                },
            }
        },
        Expression::Assignment { identifier, value } => {
            let (next, state) = evaluated(*value, state, limits);
            match next {
                Err(error) => (Err(error), state),
                Ok(next) => {
                    let (state, stored) = state.stored_binding(next);
                    if state.stack.binds(identifier@) {
                        let previous = state.stack.bound(identifier@);
                        (
                            Ok(stored),
                            (State {
                                stack: state.stack.assigned(identifier@, stored),
                                ..state
                            }).replaced(previous),
                        )
                    } else {
                        (
                            Err(
                                EvaluationErrorView::UndefinedIdentifier {
                                    identifier: identifier@,
                                },
                            ),
                            state,
                        )
                    }
                },
            }
        },
        Expression::GetField { object, field } => {
            let (receiver, state) = something(evaluated(*object, state, limits));
            (
                match receiver {
                    Err(error) => Err(error),
                    Ok(ValueView::ObjectReference(pointer)) => if alive(state.slots, pointer) {
                        match field_of(state.slots, pointer, field@) {
                            Some(value) => Ok(Some(value)),
                            None => Err(EvaluationErrorView::UndefinedField(field@)),
                        }
                    } else {
                        Err(EvaluationErrorView::AttemptToAccessNonObject { attempt: Type::Object })
                    },
                    Ok(ValueView::Object(fields)) => if has(fields, field@) {
                        Ok(Some(fields[position(fields, field@)].1))
                    } else {
                        Err(EvaluationErrorView::UndefinedField(field@))
                    },
                    Ok(other) => Err(
                        EvaluationErrorView::AttemptToAccessNonObject {
                            attempt: other.slang_type(),
                        },
                    ),
                },
                state,
            )
        },
        Expression::SetField { object, field, value } => {
            let (receiver, state) = something(evaluated(*object, state, limits));
            match receiver {
                Err(error) => (Err(error), state),
                Ok(ValueView::ObjectReference(pointer)) => {
                    let (next, state) = something(evaluated(*value, state, limits));
                    match next {
                        Err(error) => (Err(error), state),
                        Ok(next) => if alive(state.slots, pointer) {
                            let (state, stored) = state.stored(next);
                            let previous = field_of(state.slots, pointer, field@);
                            (
                                Ok(None),
                                (State {
                                    slots: written(state.slots, pointer, field@, stored),
                                    ..state
                                }).replaced(previous),
                            )
                        } else {
                            (
                                Err(
                                    EvaluationErrorView::AttemptToAccessNonObject {
                                        attempt: Type::Object,
                                    },
                                ),
                                state,
                            )
                        },
                    }
                },
                Ok(other) => (
                    Err(
                        EvaluationErrorView::AttemptToAccessNonObject {
                            attempt: other.slang_type(),
                        },
                    ),
                    state,
                ),
            }
        },
        Expression::Object(_) => built(expression, state, limits, 0, Seq::empty()),
        Expression::Call { function, arguments } => called(expression, state, limits),
    }
}

/// What evaluating a record literal gives, from its field at `from` on, where the fields
/// before it have given `fields`.
pub open spec fn built<A: Fn(BinaryOperator, Float, Float) -> Float, D: Fn(Float) -> String>(
    expression: Expression,
    state: State<A, D>,
    limits: Limits,
    from: int,
    fields: Fields,
) -> (Outcome, State<A, D>)
    decreases limits.depth, expression, 0nat, expression->Object_0@.len() - from,
{
    match expression {
        Expression::Object(entries) => if from < 0 || from >= entries@.len() {
            (Ok(Some(ValueView::Object(fields))), state)
        } else {
            let (value, state) = something(evaluated(entries@[from].1, state, limits));
            match value {
                Err(error) => (Err(error), state),
                Ok(value) => built(
                    expression,
                    state,
                    limits,
                    from + 1,
                    with(fields, entries@[from].0@, value),
                ),
            }
        },
        _ => (Ok(None), state),
    }
}

/// What evaluating the arguments of a call gives, from the argument at `from` on, where the
/// arguments before it have given `values`.
pub open spec fn arguments_evaluated<
    A: Fn(BinaryOperator, Float, Float) -> Float,
    D: Fn(Float) -> String,
>(expression: Expression, state: State<A, D>, limits: Limits, from: int, values: Seq<ValueView>) -> (
    Result<Seq<ValueView>, EvaluationErrorView>,
    State<A, D>,
)
    decreases limits.depth, expression, 0nat, expression->arguments@.len() - from,
{
    match expression {
        Expression::Call { function, arguments } => if from < 0 || from >= arguments@.len() {
            (Ok(values), state)
        } else {
            let (value, state) = something(evaluated(*arguments@[from], state, limits));
            match value {
                Err(error) => (Err(error), state),
                Ok(value) => arguments_evaluated(
                    expression,
                    state,
                    limits,
                    from + 1,
                    values.push(value),
                ),
            }
        },
        _ => (Ok(values), state),
    }
}

/// What the native function `format` gives, from the argument at `from` on, where the
/// arguments before it have given the text `buffer`.
pub open spec fn formatted<A: Fn(BinaryOperator, Float, Float) -> Float, D: Fn(Float) -> String>(
    expression: Expression,
    state: State<A, D>,
    limits: Limits,
    from: int,
    buffer: Seq<char>,
) -> (Outcome, State<A, D>)
    decreases limits.depth, expression, 0nat, expression->arguments@.len() - from,
{
    match expression {
        Expression::Call { function, arguments } => if from < 0 || from >= arguments@.len() {
            (Ok(Some(ValueView::String(buffer))), state)
        } else {
            let (value, state) = something(evaluated(*arguments@[from], state, limits));
            match value {
                Err(error) => (Err(error), state),
                Ok(value) => formatted(
                    expression,
                    state,
                    limits,
                    from + 1,
                    buffer + rendered(state.host, value),
                ),
            }
        },
        _ => (Ok(None), state),
    }
}

/// What a call gives, and the state that it leaves.
pub open spec fn called<A: Fn(BinaryOperator, Float, Float) -> Float, D: Fn(Float) -> String>(
    expression: Expression,
    state: State<A, D>,
    limits: Limits,
) -> (Outcome, State<A, D>)
    decreases limits.depth, expression, 0nat, expression->arguments@.len() + 1,
{
    match expression {
        Expression::Call { function, arguments } => {
            let (callee, state) = something(evaluated(*function, state, limits));
            match callee {
                Err(error) => (Err(error), state),
                Ok(ValueView::Function(Function::UserDefined { parameters, block })) => {
                    if parameters@.len() != arguments@.len() {
                        (
                            Err(
                                EvaluationErrorView::IncorrectArgumentCount {
                                    expected: parameters@.len() as usize,
                                    passed: arguments@.len() as usize,
                                },
                            ),
                            state,
                        )
                    } else {
                        let (values, state) = arguments_evaluated(
                            expression,
                            state,
                            limits,
                            0,
                            Seq::empty(),
                        );
                        match values {
                            Err(error) => (Err(error), state),
                            Ok(values) => if limits.depth == 0 {
                                (Err(EvaluationErrorView::LimitReached), state)
                            } else {
                                let (frame, slots) = bound_in(
                                    state.stack.pushed(),
                                    state.slots,
                                    state.counting(),
                                    parameters@,
                                    values,
                                    0,
                                );
                                let state = State { stack: frame, slots, ..state };
                                let (course, state) = executed(
                                    *block,
                                    state,
                                    Limits { depth: (limits.depth - 1) as u64, ..limits },
                                );
                                match course {
                                    Err(error) => (
                                        Err(error),
                                        State { stack: state.stack.popped(), ..state },
                                    ),
                                    Ok(Flow::Break(value)) => (
                                        Ok(value),
                                        state.departed(pending_references(value), true),
                                    ),
                                    Ok(Flow::Continue) => (
                                        Ok(None),
                                        state.departed(Seq::empty(), true),
                                    ),
                                }
                            },
                        }
                    }
                },
                Ok(ValueView::Function(Function::Native(NativeFunction::Print))) => {
                    if arguments@.len() == 0 {
                        (Ok(None), State { host: state.host.printed(Seq::empty()), ..state })
                    } else if arguments@.len() == 1 {
                        let (value, state) = something(evaluated(*arguments@[0], state, limits));
                        match value {
                            Err(error) => (Err(error), state),
                            Ok(value) => (
                                Ok(None),
                                State {
                                    host: state.host.printed(rendered(state.host, value)),
                                    ..state
                                },
                            ),
                        }
                    } else {
                        (
                            Err(
                                EvaluationErrorView::IncorrectArgumentCount {
                                    expected: 1,
                                    passed: arguments@.len() as usize,
                                },
                            ),
                            state,
                        )
                    }
                },
                Ok(ValueView::Function(Function::Native(NativeFunction::Format))) => formatted(
                    expression,
                    state,
                    limits,
                    0,
                    Seq::empty(),
                ),
                Ok(other) => (
                    Err(
                        EvaluationErrorView::AttemptedCallOfNonFunction {
                            attempt: other.slang_type(),
                        },
                    ),
                    state,
                ),
            }
        },
        _ => (Ok(None), state),
    }
}

/// What executing a statement gives, and the state that it leaves: the counts are sampled, the
/// statement is run, and unless the block is being left, the references that calls have
/// handed back are given up.
pub open spec fn executed<A: Fn(BinaryOperator, Float, Float) -> Float, D: Fn(Float) -> String>(
    statement: Statement,
    state: State<A, D>,
    limits: Limits,
) -> (Course, State<A, D>)
    decreases limits.depth, statement, 2nat, 0nat,
{
    let (course, state) = run(statement, state.sampled(), limits);
    match course {
        Ok(Flow::Continue) => (course, state.settled()),
        _ => (course, state),
    }
}

/// What a statement does by itself.
pub open spec fn run<A: Fn(BinaryOperator, Float, Float) -> Float, D: Fn(Float) -> String>(
    statement: Statement,
    state: State<A, D>,
    limits: Limits,
) -> (Course, State<A, D>)
    decreases limits.depth, statement, 1nat, 0nat,
{
    match statement {
        Statement::VariableDeclaration { identifier, initialiser } => match initialiser {
            Some(initialiser) => {
                let (value, state) = something(evaluated(initialiser, state, limits));
                match value {
                    Err(error) => (Err(error), state),
                    Ok(value) => (Ok(Flow::Continue), state.declared(identifier@, Some(value))),
                }
            },
            None => (Ok(Flow::Continue), state.declared(identifier@, None)),
        },
        Statement::FunctionDefinition { identifier, parameters, block } => (
            Ok(Flow::Continue),
            state.declared(
                identifier@,
                Some(ValueView::Function(Function::UserDefined { parameters, block })),
            ),
        ),
        Statement::IfStatement { condition, execute_if_true, execute_if_false } => {
            let (truth, state) = something(evaluated(condition, state, limits));
            match truth {
                Err(error) => (Err(error), state),
                Ok(ValueView::Boolean(truth)) => if truth {
                    executed(*execute_if_true, state, limits)
                } else {
                    match execute_if_false {
                        Some(otherwise) => executed(*otherwise, state, limits),
                        None => (Ok(Flow::Continue), state),
                    }
                },
                Ok(other) => (Err(not_a_condition(other, "if-statement"@)), state),
            }
        },
        Statement::WhileLoop { condition, block } => looped(
            statement,
            state,
            limits,
            limits.rounds as nat,
        ),
        Statement::Block(statements) => {
            let state = State { stack: state.stack.entered(), ..state };
            let (hoist, state) = hoisted(statement, state, limits, 0);
            match hoist {
                Err(error) => (Err(error), state),
                Ok(_) => {
                    let (course, state) = sequenced(statement, state, limits, 0);
                    match course {
                        Err(error) => (Err(error), state),
                        Ok(Flow::Break(value)) => (
                            course,
                            state.departed(pending_references(value), false),
                        ),
                        Ok(Flow::Continue) => (course, state.departed(Seq::empty(), false)),
                    }
                },
            }
        },
        Statement::Expression(expression) => {
            let (outcome, state) = evaluated(expression, state, limits);
            (
                match outcome {
                    Ok(_) => Ok(Flow::Continue),
                    Err(error) => Err(error),
                },
                state,
            )
        },
        Statement::Return(expression) => match expression {
            Some(expression) => {
                let (outcome, state) = evaluated(expression, state, limits);
                (
                    match outcome {
                        Ok(value) => Ok(Flow::Break(value)),
                        Err(error) => Err(error),
                    },
                    state,
                )
            },
            None => (Ok(Flow::Break(None)), state),
        },
    }
}

/// What a while-loop gives that may still make `rounds` rounds.
pub open spec fn looped<A: Fn(BinaryOperator, Float, Float) -> Float, D: Fn(Float) -> String>(
    statement: Statement,
    state: State<A, D>,
    limits: Limits,
    rounds: nat,
) -> (Course, State<A, D>)
    decreases limits.depth, statement, 0nat, rounds,
{
    match statement {
        Statement::WhileLoop { condition, block } => {
            let (truth, state) = something(evaluated(condition, state, limits));
            match truth {
                Err(error) => (Err(error), state),
                Ok(ValueView::Boolean(truth)) => if !truth {
                    (Ok(Flow::Continue), state)
                } else if rounds == 0 {
                    (Err(EvaluationErrorView::LimitReached), state)
                } else {
                    let (course, state) = executed(*block, state, limits);
                    match course {
                        Ok(Flow::Continue) => looped(statement, state, limits, (rounds - 1) as nat),
                        _ => (course, state),
                    }
                },
                Ok(other) => (Err(not_a_condition(other, "while-loop"@)), state),
            }
        },
        _ => (Ok(Flow::Continue), state),
    }
}

/// What executing the function definitions of a block gives, from the statement at `from` on.
pub open spec fn hoisted<A: Fn(BinaryOperator, Float, Float) -> Float, D: Fn(Float) -> String>(
    statement: Statement,
    state: State<A, D>,
    limits: Limits,
    from: int,
) -> (Course, State<A, D>)
    decreases limits.depth, statement, 0nat, statement->Block_0@.len() - from,
{
    match statement {
        Statement::Block(statements) => if from < 0 || from >= statements@.len() {
            (Ok(Flow::Continue), state)
        } else if statements@[from] is FunctionDefinition {
            let (course, state) = executed(statements@[from], state, limits);
            match course {
                Err(error) => (course, state),
                Ok(_) => hoisted(statement, state, limits, from + 1),
            }
        } else {
            hoisted(statement, state, limits, from + 1)
        },
        _ => (Ok(Flow::Continue), state),
    }
}

/// What executing the statements of a block that are not function definitions gives, from the
/// statement at `from` on.
pub open spec fn sequenced<A: Fn(BinaryOperator, Float, Float) -> Float, D: Fn(Float) -> String>(
    statement: Statement,
    state: State<A, D>,
    limits: Limits,
    from: int,
) -> (Course, State<A, D>)
    decreases limits.depth, statement, 0nat, statement->Block_0@.len() - from,
{
    match statement {
        Statement::Block(statements) => if from < 0 || from >= statements@.len() {
            (Ok(Flow::Continue), state)
        } else if statements@[from] is FunctionDefinition {
            sequenced(statement, state, limits, from + 1)
        } else {
            let (course, state) = executed(statements@[from], state, limits);
            match course {
                Ok(Flow::Continue) => sequenced(statement, state, limits, from + 1),
                _ => (course, state),
            }
        },
        _ => (Ok(Flow::Continue), state),
    }
}

} // verus!
