//! The evaluator: it walks the tree of a program and drives the stack and the heap.

use crate::environment::binding_view;
use crate::expression::{BinaryOperator, EvaluationError, Expression};
use crate::float::Float;
use crate::heap::model::{alive, placed, placed_grows, retained, retained_grows, Slots};
use crate::heap::{values_view, ManagedHeap};
use crate::host::{Host, Limits};
use crate::operation::{binary_operation, outcome_view, unary_operation};
use crate::protocol::{bind, declare, depart, references_of, replace, sample, store, stored_in};
use crate::render::render;
use crate::semantics::{
    arguments_evaluated, built, called, evaluated, executed, formatted, hoisted, looped, run,
    sequenced, something, Course, Flow, Outcome, State,
};
use crate::stack::Stack;
use crate::statement::{ControlFlow, Statement};
use crate::stats::Logger;
use crate::value::{
    fields_view, get_field, set_field, share, Function, NativeFunction, Object, Pointer, Type,
    Value, ValueView,
};
use vstd::prelude::*;
use vstd::string::StringExecFns;

verus! {

/// The state that a stack, a heap, a logger and a host make up.
pub open spec fn state_of<A: Fn(BinaryOperator, Float, Float) -> Float, D: Fn(Float) -> String>(
    stack: Stack,
    heap: ManagedHeap,
    logger: Logger,
    host: Host<A, D>,
) -> State<A, D> {
    State {
        stack: stack@,
        slots: heap@,
        strategy: heap.strategy(),
        samples: logger@,
        reading: logger.reading(),
        host: host@,
    }
}

/// Whether a program can run on a stack, a heap and a host.
pub open spec fn ready<A: Fn(BinaryOperator, Float, Float) -> Float, D: Fn(Float) -> String>(
    stack: Stack,
    heap: ManagedHeap,
    host: Host<A, D>,
) -> bool {
    stack.well_formed() && heap.well_formed() && host.well_formed()
}

/// What the result of an evaluation stands for.
pub open spec fn outcome_of(result: Result<Option<Value>, EvaluationError>) -> Outcome {
    match result {
        Ok(value) => Ok(binding_view(value)),
        Err(error) => Err(error@),
    }
}

impl View for ControlFlow {
    type V = Flow;

    open spec fn view(&self) -> Flow {
        match self {
            ControlFlow::Continue => Flow::Continue,
            ControlFlow::Break(value) => Flow::Break(binding_view(*value)),
        }
    }
}

/// What the result of an execution stands for.
pub open spec fn course_of(result: Result<ControlFlow, EvaluationError>) -> Course {
    match result {
        Ok(flow) => Ok(flow@),
        Err(error) => Err(error@),
    }
}

impl Expression {
    /// Evaluates an expression, returning an error if it is nothing.
    pub fn evaluate_not_nothing<
        A: Fn(BinaryOperator, Float, Float) -> Float,
        D: Fn(Float) -> String,
    >(
        &self,
        stack: &mut Stack,
        heap: &mut ManagedHeap,
        logger: &mut Logger,
        host: &mut Host<A, D>,
        limits: Limits,
    ) -> (result: Result<Value, EvaluationError>)
        requires
            ready(*old(stack), *old(heap), *old(host)),
        ensures
            ready(*final(stack), *final(heap), *final(host)),
            (outcome_view(result), state_of(*final(stack), *final(heap), *final(logger), *final(host)))
                == something(
                evaluated(
                    *self,
                    state_of(*old(stack), *old(heap), *old(logger), *old(host)),
                    limits,
                ),
            ),
        decreases limits.depth, self, 1nat, 1nat,
    {
        match self.evaluate(stack, heap, logger, host, limits) {
            Ok(Some(value)) => Ok(value),
            Ok(None) => Err(EvaluationError::AttemptToUseNothing),
            Err(error) => Err(error),
        }
    }

    /// Evaluates the expression.
    pub fn evaluate<A: Fn(BinaryOperator, Float, Float) -> Float, D: Fn(Float) -> String>(
        &self,
        stack: &mut Stack,
        heap: &mut ManagedHeap,
        logger: &mut Logger,
        host: &mut Host<A, D>,
        limits: Limits,
    ) -> (result: Result<Option<Value>, EvaluationError>)
        requires
            ready(*old(stack), *old(heap), *old(host)),
        ensures
            ready(*final(stack), *final(heap), *final(host)),
            (outcome_of(result), state_of(*final(stack), *final(heap), *final(logger), *final(host)))
                == evaluated(
                *self,
                state_of(*old(stack), *old(heap), *old(logger), *old(host)),
                limits,
            ),
        decreases limits.depth, self, 1nat, 0nat,
    {
        match self {
            Self::Ternary { condition, left, right } => {
                let truth = match condition.evaluate_not_nothing(stack, heap, logger, host, limits) {
                    Ok(truth) => truth,
                    Err(error) => {
                        return Err(error);
                    },
                };
                match truth {
                    Value::Boolean(truth) => if truth {
                        left.evaluate(stack, heap, logger, host, limits)
                    } else {
                        right.evaluate(stack, heap, logger, host, limits)
                    },
                    other => Err(
                        EvaluationError::NonBooleanControlFlowCondition {
                            condition: other.slang_type(),
                            control_flow: "ternary".to_string(),
                        },
                    ),
                }
            },
            Self::Binary { left, operator, right } => self.evaluate_binary(
                stack,
                heap,
                logger,
                host,
                limits,
            ),
            Self::Unary { operator, operand } => {
                let operand = match operand.evaluate_not_nothing(stack, heap, logger, host, limits) {
                    Ok(operand) => operand,
                    Err(error) => {
                        return Err(error);
                    },
                };
                match unary_operation(*operator, operand) {
                    Ok(value) => Ok(Some(value)),
                    Err(error) => Err(error),
                }
            },
            Self::Call { function, arguments } => self.evaluate_call(
                stack,
                heap,
                logger,
                host,
                limits,
            ),
            Self::Assignment { identifier, value } => self.evaluate_assignment(
                stack,
                heap,
                logger,
                host,
                limits,
            ),
            Self::Grouping { contained } => contained.evaluate(stack, heap, logger, host, limits),
            Self::Literal { value } => Ok(Some(value.clone())),
            Self::Variable { identifier } => match stack.get(identifier) {
                Ok(value) => Ok(Some(value)),
                Err(error) => Err(EvaluationError::from(error)),
            },
            Self::GetField { object, field } => {
                let receiver = match object.evaluate_not_nothing(stack, heap, logger, host, limits) {
                    Ok(receiver) => receiver,
                    Err(error) => {
                        return Err(error);
                    },
                };
                match receiver {
                    Value::ObjectReference(pointer) => {
                        if heap.contains(pointer) {
                            match heap.field(pointer, field) {
                                Some(value) => Ok(Some(value)),
                                None => Err(EvaluationError::UndefinedField(field.clone())),
                            }
                        } else {
                            Err(EvaluationError::AttemptToAccessNonObject { attempt: Type::Object })
                        }
                    },
                    Value::Object(fields) => match get_field(&fields, field) {
                        Some(value) => Ok(Some(value)),
                        None => Err(EvaluationError::UndefinedField(field.clone())),
                    },
                    attempt => Err(
                        EvaluationError::AttemptToAccessNonObject { attempt: attempt.slang_type() },
                    ),
                }
            },
            Self::SetField { object, field, value } => self.evaluate_set_field(
                stack,
                heap,
                logger,
                host,
                limits,
            ),
            Self::Object(_) => self.evaluate_object(stack, heap, logger, host, limits),
        }
    }

    /// Evaluates a binary expression.
    fn evaluate_binary<A: Fn(BinaryOperator, Float, Float) -> Float, D: Fn(Float) -> String>(
        &self,
        stack: &mut Stack,
        heap: &mut ManagedHeap,
        logger: &mut Logger,
        host: &mut Host<A, D>,
        limits: Limits,
    ) -> (result: Result<Option<Value>, EvaluationError>)
        requires
            self is Binary,
            ready(*old(stack), *old(heap), *old(host)),
        ensures
            ready(*final(stack), *final(heap), *final(host)),
            (outcome_of(result), state_of(*final(stack), *final(heap), *final(logger), *final(host)))
                == evaluated(
                *self,
                state_of(*old(stack), *old(heap), *old(logger), *old(host)),
                limits,
            ),
        decreases limits.depth, self, 0nat, 0nat,
    {
        match self {
            Self::Binary { left, operator, right } => {
                let first = match left.evaluate_not_nothing(stack, heap, logger, host, limits) {
                    Ok(first) => first,
                    Err(error) => {
                        return Err(error);
                    },
                };
                let operator = *operator;
                if operator == BinaryOperator::AND || operator == BinaryOperator::OR {
                    match first {
                        Value::Boolean(first) => {
                            if first == (operator == BinaryOperator::OR) {
                                Ok(Some(Value::Boolean(first)))
                            } else {
                                match right.evaluate_not_nothing(stack, heap, logger, host, limits) {
                                    Err(error) => Err(error),
                                    Ok(Value::Boolean(second)) => Ok(Some(Value::Boolean(second))),
                                    Ok(other) => Err(
                                        EvaluationError::InvalidBinaryTypes {
                                            left: Type::Boolean,
                                            operator,
                                            right: Some(other.slang_type()),
                                        },
                                    ),
                                }
                            }
                        },
                        other => Err(
                            EvaluationError::InvalidBinaryTypes {
                                left: other.slang_type(),
                                operator,
                                right: None,
                            },
                        ),
                    }
                } else {
                    let second = match right.evaluate_not_nothing(stack, heap, logger, host, limits) {
                        Ok(second) => second,
                        Err(error) => {
                            return Err(error);
                        },
                    };
                    match binary_operation(host, operator, first, second) {
                        Ok(value) => Ok(Some(value)),
                        Err(error) => Err(error),
                    }
                }
            },
            _ => Ok(None),
        }
    }

    /// Evaluates an assignment to a variable.
    fn evaluate_assignment<A: Fn(BinaryOperator, Float, Float) -> Float, D: Fn(Float) -> String>(
        &self,
        stack: &mut Stack,
        heap: &mut ManagedHeap,
        logger: &mut Logger,
        host: &mut Host<A, D>,
        limits: Limits,
    ) -> (result: Result<Option<Value>, EvaluationError>)
        requires
            self is Assignment,
            ready(*old(stack), *old(heap), *old(host)),
        ensures
            ready(*final(stack), *final(heap), *final(host)),
            (outcome_of(result), state_of(*final(stack), *final(heap), *final(logger), *final(host)))
                == evaluated(
                *self,
                state_of(*old(stack), *old(heap), *old(logger), *old(host)),
                limits,
            ),
        decreases limits.depth, self, 0nat, 0nat,
    {
        match self {
            Self::Assignment { identifier, value } => {
                let next = match value.evaluate(stack, heap, logger, host, limits) {
                    Ok(next) => next,
                    Err(error) => {
                        return Err(error);
                    },
                };
                let stored = match next {
                    Some(next) => Some(store(heap, next)),
                    None => None,
                };
                let kept = match &stored {
                    Some(stored) => Some(stored.clone()),
                    None => None,
                };
                match stack.assign(identifier.clone(), stored) {
                    Ok(previous) => {
                        replace(heap, &previous);
                        Ok(kept)
                    },
                    Err(error) => Err(EvaluationError::from(error)),
                }
            },
            _ => Ok(None),
        }
    }

    /// Evaluates an assignment to a field.
    fn evaluate_set_field<A: Fn(BinaryOperator, Float, Float) -> Float, D: Fn(Float) -> String>(
        &self,
        stack: &mut Stack,
        heap: &mut ManagedHeap,
        logger: &mut Logger,
        host: &mut Host<A, D>,
        limits: Limits,
    ) -> (result: Result<Option<Value>, EvaluationError>)
        requires
            self is SetField,
            ready(*old(stack), *old(heap), *old(host)),
        ensures
            ready(*final(stack), *final(heap), *final(host)),
            (outcome_of(result), state_of(*final(stack), *final(heap), *final(logger), *final(host)))
                == evaluated(
                *self,
                state_of(*old(stack), *old(heap), *old(logger), *old(host)),
                limits,
            ),
        decreases limits.depth, self, 0nat, 0nat,
    {
        match self {
            Self::SetField { object, field, value } => {
                let receiver = match object.evaluate_not_nothing(stack, heap, logger, host, limits) {
                    Ok(receiver) => receiver,
                    Err(error) => {
                        return Err(error);
                    },
                };
                match receiver {
                    Value::ObjectReference(pointer) => {
                        let next = match value.evaluate_not_nothing(
                            stack,
                            heap,
                            logger,
                            host,
                            limits,
                        ) {
                            Ok(next) => next,
                            Err(error) => {
                                return Err(error);
                            },
                        };
                        if heap.contains(pointer) {
                            proof {
                                stored_keeps_alive(heap@, next@, heap.counting(), pointer);
                            }
                            let stored = store(heap, next);
                            let previous = heap.set_field(pointer, field.clone(), stored);
                            replace(heap, &previous);
                            Ok(None)
                        } else {
                            Err(EvaluationError::AttemptToAccessNonObject { attempt: Type::Object })
                        }
                    },
                    attempt => Err(
                        EvaluationError::AttemptToAccessNonObject { attempt: attempt.slang_type() },
                    ),
                }
            },
            _ => Ok(None),
        }
    }

    /// Evaluates a record literal: its fields in order, each before the record exists.
    fn evaluate_object<A: Fn(BinaryOperator, Float, Float) -> Float, D: Fn(Float) -> String>(
        &self,
        stack: &mut Stack,
        heap: &mut ManagedHeap,
        logger: &mut Logger,
        host: &mut Host<A, D>,
        limits: Limits,
    ) -> (result: Result<Option<Value>, EvaluationError>)
        requires
            self is Object,
            ready(*old(stack), *old(heap), *old(host)),
        ensures
            ready(*final(stack), *final(heap), *final(host)),
            (outcome_of(result), state_of(*final(stack), *final(heap), *final(logger), *final(host)))
                == evaluated(
                *self,
                state_of(*old(stack), *old(heap), *old(logger), *old(host)),
                limits,
            ),
        decreases limits.depth, self, 0nat, 0nat,
    {
        match self {
            Self::Object(entries) => {
                let ghost start = state_of(*stack, *heap, *logger, *host);
                let mut fields: Object = Vec::new();
                let mut i: usize = 0;
                assert(fields_view(fields@) =~= Seq::empty());
                while i < entries.len()
                    invariant
                        i <= entries.len(),
                        *self == Expression::Object(*entries),
                        ready(*stack, *heap, *host),
                        start == state_of(*old(stack), *old(heap), *old(logger), *old(host)),
                        built(
                            *self,
                            state_of(*stack, *heap, *logger, *host),
                            limits,
                            i as int,
                            fields_view(fields@),
                        ) == built(*self, start, limits, 0, Seq::empty()),
                    decreases entries.len() - i,
                {
                    proof {
                        vstd::std_specs::vec::axiom_vec_index_decreases(*entries, i as int);
                    }
                    match entries[i].1.evaluate_not_nothing(stack, heap, logger, host, limits) {
                        Ok(value) => {
                            set_field(&mut fields, entries[i].0.clone(), value);
                        },
                        Err(error) => {
                            return Err(error);
                        },
                    }
                    i += 1;
                }
                Ok(Some(Value::Object(fields)))
            },
            _ => Ok(None),
        }
    }

    /// Evaluates the arguments of a call, the first one first.
    fn evaluate_arguments<A: Fn(BinaryOperator, Float, Float) -> Float, D: Fn(Float) -> String>(
        &self,
        stack: &mut Stack,
        heap: &mut ManagedHeap,
        logger: &mut Logger,
        host: &mut Host<A, D>,
        limits: Limits,
    ) -> (result: Result<Vec<Value>, EvaluationError>)
        requires
            self is Call,
            ready(*old(stack), *old(heap), *old(host)),
        ensures
            ready(*final(stack), *final(heap), *final(host)),
            (match result {
                Ok(values) => Ok(values_view(values@)),
                Err(error) => Err(error@),
            }, state_of(*final(stack), *final(heap), *final(logger), *final(host)))
                == arguments_evaluated(
                *self,
                state_of(*old(stack), *old(heap), *old(logger), *old(host)),
                limits,
                0,
                Seq::empty(),
            ),
        decreases limits.depth, self, 0nat, 0nat,
    {
        match self {
            Self::Call { function, arguments } => {
                let ghost start = state_of(*stack, *heap, *logger, *host);
                let mut values: Vec<Value> = Vec::new();
                let mut i: usize = 0;
                assert(values_view(values@) =~= Seq::empty());
                while i < arguments.len()
                    invariant
                        i <= arguments.len(),
                        *self == (Expression::Call { function: *function, arguments: *arguments }),
                        ready(*stack, *heap, *host),
                        start == state_of(*old(stack), *old(heap), *old(logger), *old(host)),
                        arguments_evaluated(
                            *self,
                            state_of(*stack, *heap, *logger, *host),
                            limits,
                            i as int,
                            values_view(values@),
                        ) == arguments_evaluated(*self, start, limits, 0, Seq::empty()),
                    decreases arguments.len() - i,
                {
                    proof {
                        vstd::std_specs::vec::axiom_vec_index_decreases(*arguments, i as int);
                    }
                    let ghost before = values_view(values@);
                    match arguments[i].evaluate_not_nothing(stack, heap, logger, host, limits) {
                        Ok(value) => {
                            values.push(value);
                            assert(values_view(values@) =~= before.push(value@));
                        },
                        Err(error) => {
                            return Err(error);
                        },
                    }
                    i += 1;
                }
                Ok(values)
            },
            _ => Ok(Vec::new()),
        }
    }

    /// Evaluates a call of the native function that joins the text of its arguments.
    fn evaluate_format<A: Fn(BinaryOperator, Float, Float) -> Float, D: Fn(Float) -> String>(
        &self,
        stack: &mut Stack,
        heap: &mut ManagedHeap,
        logger: &mut Logger,
        host: &mut Host<A, D>,
        limits: Limits,
    ) -> (result: Result<Option<Value>, EvaluationError>)
        requires
            self is Call,
            ready(*old(stack), *old(heap), *old(host)),
        ensures
            ready(*final(stack), *final(heap), *final(host)),
            (outcome_of(result), state_of(*final(stack), *final(heap), *final(logger), *final(host)))
                == formatted(
                *self,
                state_of(*old(stack), *old(heap), *old(logger), *old(host)),
                limits,
                0,
                Seq::empty(),
            ),
        decreases limits.depth, self, 0nat, 0nat,
    {
        match self {
            Self::Call { function, arguments } => {
                let ghost start = state_of(*stack, *heap, *logger, *host);
                let mut buffer = String::new();
                let mut i: usize = 0;
                while i < arguments.len()
                    invariant
                        i <= arguments.len(),
                        *self == (Expression::Call { function: *function, arguments: *arguments }),
                        ready(*stack, *heap, *host),
                        start == state_of(*old(stack), *old(heap), *old(logger), *old(host)),
                        formatted(
                            *self,
                            state_of(*stack, *heap, *logger, *host),
                            limits,
                            i as int,
                            buffer@,
                        ) == formatted(*self, start, limits, 0, Seq::empty()),
                    decreases arguments.len() - i,
                {
                    proof {
                        vstd::std_specs::vec::axiom_vec_index_decreases(*arguments, i as int);
                    }
                    match arguments[i].evaluate_not_nothing(stack, heap, logger, host, limits) {
                        Ok(value) => {
                            let text = render(host, &value);
                            buffer.append(text.as_str());
                        },
                        Err(error) => {
                            return Err(error);
                        },
                    }
                    i += 1;
                }
                Ok(Some(Value::String(buffer)))
            },
            _ => Ok(None),
        }
    }

    /// Evaluates a function call.
    fn evaluate_call<A: Fn(BinaryOperator, Float, Float) -> Float, D: Fn(Float) -> String>(
        &self,
        stack: &mut Stack,
        heap: &mut ManagedHeap,
        logger: &mut Logger,
        host: &mut Host<A, D>,
        limits: Limits,
    ) -> (result: Result<Option<Value>, EvaluationError>)
        requires
            self is Call,
            ready(*old(stack), *old(heap), *old(host)),
        ensures
            ready(*final(stack), *final(heap), *final(host)),
            (outcome_of(result), state_of(*final(stack), *final(heap), *final(logger), *final(host)))
                == called(
                *self,
                state_of(*old(stack), *old(heap), *old(logger), *old(host)),
                limits,
            ),
        decreases limits.depth, self, 0nat, 1nat,
    {
        match self {
            Self::Call { function, arguments } => {
                let callee = match function.evaluate_not_nothing(stack, heap, logger, host, limits) {
                    Ok(callee) => callee,
                    Err(error) => {
                        return Err(error);
                    },
                };
                match callee {
                    Value::Function(Function::UserDefined { parameters, block }) => {
                        if parameters.len() != arguments.len() {
                            return Err(
                                EvaluationError::IncorrectArgumentCount {
                                    expected: parameters.len(),
                                    passed: arguments.len(),
                                },
                            );
                        }
                        let values = match self.evaluate_arguments(
                            stack,
                            heap,
                            logger,
                            host,
                            limits,
                        ) {
                            Ok(values) => values,
                            Err(error) => {
                                return Err(error);
                            },
                        };
                        if limits.depth == 0 {
                            return Err(EvaluationError::LimitReached);
                        }
                        stack.push();
                        bind(stack, heap, &parameters, values);
                        let inner = Limits { depth: limits.depth - 1, rounds: limits.rounds };
                        match block.execute(stack, heap, logger, host, inner) {
                            Err(error) => {
                                stack.pop();
                                Err(error)
                            },
                            Ok(ControlFlow::Break(value)) => {
                                let pending = references_of(&value);
                                depart(stack, heap, &pending, true);
                                Ok(value)
                            },
                            Ok(ControlFlow::Continue) => {
                                let pending: Vec<Pointer> = Vec::new();
                                depart(stack, heap, &pending, true);
                                Ok(None)
                            },
                        }
                    },
                    Value::Function(Function::Native(NativeFunction::Print)) => {
                        if arguments.len() == 0 {
                            host.print(String::new());
                            Ok(None)
                        } else if arguments.len() == 1 {
                            proof {
                                vstd::std_specs::vec::axiom_vec_index_decreases(*arguments, 0);
                            }
                            match arguments[0].evaluate_not_nothing(
                                stack,
                                heap,
                                logger,
                                host,
                                limits,
                            ) {
                                Ok(value) => {
                                    let line = render(host, &value);
                                    host.print(line);
                                    Ok(None)
                                },
                                Err(error) => Err(error),
                            }
                        } else {
                            Err(
                                EvaluationError::IncorrectArgumentCount {
                                    expected: 1,
                                    passed: arguments.len(),
                                },
                            )
                        }
                    },
                    Value::Function(Function::Native(NativeFunction::Format)) => {
                        self.evaluate_format(stack, heap, logger, host, limits)
                    },
                    other => Err(
                        EvaluationError::AttemptedCallOfNonFunction { attempt: other.slang_type() },
                    ),
                }
            },
            _ => Ok(None),
        }
    }
}

/// Making a value fit to be stored frees nothing.
pub proof fn stored_keeps_alive(slots: Slots, value: ValueView, counting: bool, pointer: Pointer)
    requires
        alive(slots, pointer),
    ensures
        alive(stored_in(slots, value, counting).0, pointer),
{
    match value {
        ValueView::Object(fields) => {
            placed_grows(slots, fields, counting);
            assert(placed(slots, fields, counting).0[pointer.slot as int] is Some);
        },
        ValueView::ObjectReference(target) => {
            retained_grows(slots, target);
            if counting {
                assert(retained(slots, target)[pointer.slot as int] is Some);
            }
        },
        _ => {},
    }
}

impl Statement {
    /// Executes a statement: the counts are sampled, the statement is run, and unless the
    /// block is being left, the references that calls have handed back are given up.
    pub fn execute<A: Fn(BinaryOperator, Float, Float) -> Float, D: Fn(Float) -> String>(
        &self,
        stack: &mut Stack,
        heap: &mut ManagedHeap,
        logger: &mut Logger,
        host: &mut Host<A, D>,
        limits: Limits,
    ) -> (result: Result<ControlFlow, EvaluationError>)
        requires
            ready(*old(stack), *old(heap), *old(host)),
        ensures
            ready(*final(stack), *final(heap), *final(host)),
            (course_of(result), state_of(*final(stack), *final(heap), *final(logger), *final(host)))
                == executed(
                *self,
                state_of(*old(stack), *old(heap), *old(logger), *old(host)),
                limits,
            ),
        decreases limits.depth, self, 2nat, 0nat,
    {
        sample(stack, heap, logger);
        let result = self.run(stack, heap, logger, host, limits);
        if let Ok(ControlFlow::Continue) = &result {
            stack.settle(heap);
        }
        result
    }

    /// Does what the statement does by itself.
    fn run<A: Fn(BinaryOperator, Float, Float) -> Float, D: Fn(Float) -> String>(
        &self,
        stack: &mut Stack,
        heap: &mut ManagedHeap,
        logger: &mut Logger,
        host: &mut Host<A, D>,
        limits: Limits,
    ) -> (result: Result<ControlFlow, EvaluationError>)
        requires
            ready(*old(stack), *old(heap), *old(host)),
        ensures
            ready(*final(stack), *final(heap), *final(host)),
            (course_of(result), state_of(*final(stack), *final(heap), *final(logger), *final(host)))
                == run(
                *self,
                state_of(*old(stack), *old(heap), *old(logger), *old(host)),
                limits,
            ),
        decreases limits.depth, self, 1nat, 0nat,
    {
        match self {
            Self::VariableDeclaration { identifier, initialiser } => {
                let value = match initialiser {
                    Some(initialiser) => match initialiser.evaluate_not_nothing(
                        stack,
                        heap,
                        logger,
                        host,
                        limits,
                    ) {
                        Ok(value) => Some(value),
                        Err(error) => {
                            return Err(error);
                        },
                    },
                    None => None,
                };
                declare(stack, heap, identifier.clone(), value);
                Ok(ControlFlow::Continue)
            },
            Self::FunctionDefinition { identifier, parameters, block } => {
                let function = Function::UserDefined {
                    parameters: share(parameters),
                    block: share(block),
                };
                declare(stack, heap, identifier.clone(), Some(Value::Function(function)));
                Ok(ControlFlow::Continue)
            },
            Self::IfStatement { condition, execute_if_true, execute_if_false } => {
                let truth = match condition.evaluate_not_nothing(stack, heap, logger, host, limits) {
                    Ok(truth) => truth,
                    Err(error) => {
                        return Err(error);
                    },
                };
                match truth {
                    Value::Boolean(truth) => if truth {
                        execute_if_true.execute(stack, heap, logger, host, limits)
                    } else {
                        match execute_if_false {
                            Some(otherwise) => otherwise.execute(stack, heap, logger, host, limits),
                            None => Ok(ControlFlow::Continue),
                        }
                    },
                    other => Err(
                        EvaluationError::NonBooleanControlFlowCondition {
                            condition: other.slang_type(),
                            control_flow: "if-statement".to_string(),
                        },
                    ),
                }
            },
            Self::WhileLoop { condition, block } => self.execute_while(
                stack,
                heap,
                logger,
                host,
                limits,
            ),
            Self::Block(statements) => self.execute_block(stack, heap, logger, host, limits),
            Self::Expression(expression) => match expression.evaluate(
                stack,
                heap,
                logger,
                host,
                limits,
            ) {
                Ok(_) => Ok(ControlFlow::Continue),
                Err(error) => Err(error),
            },
            Self::Return(expression) => match expression {
                Some(expression) => match expression.evaluate(stack, heap, logger, host, limits) {
                    Ok(value) => Ok(ControlFlow::Break(value)),
                    Err(error) => Err(error),
                },
                None => Ok(ControlFlow::Break(None)),
            },
        }
    }

    /// Executes a while-loop: its body, for as long as its condition holds.
    fn execute_while<A: Fn(BinaryOperator, Float, Float) -> Float, D: Fn(Float) -> String>(
        &self,
        stack: &mut Stack,
        heap: &mut ManagedHeap,
        logger: &mut Logger,
        host: &mut Host<A, D>,
        limits: Limits,
    ) -> (result: Result<ControlFlow, EvaluationError>)
        requires
            self is WhileLoop,
            ready(*old(stack), *old(heap), *old(host)),
        ensures
            ready(*final(stack), *final(heap), *final(host)),
            (course_of(result), state_of(*final(stack), *final(heap), *final(logger), *final(host)))
                == looped(
                *self,
                state_of(*old(stack), *old(heap), *old(logger), *old(host)),
                limits,
                limits.rounds as nat,
            ),
        decreases limits.depth, self, 0nat, 0nat,
    {
        match self {
            Self::WhileLoop { condition, block } => {
                let ghost start = state_of(*stack, *heap, *logger, *host);
                let mut rounds = limits.rounds;
                loop
                    invariant
                        *self == (Statement::WhileLoop { condition: *condition, block: *block }),
                        ready(*stack, *heap, *host),
                        start == state_of(*old(stack), *old(heap), *old(logger), *old(host)),
                        looped(
                            *self,
                            state_of(*stack, *heap, *logger, *host),
                            limits,
                            rounds as nat,
                        ) == looped(*self, start, limits, limits.rounds as nat),
                    decreases rounds,
                {
                    let truth = match condition.evaluate_not_nothing(
                        stack,
                        heap,
                        logger,
                        host,
                        limits,
                    ) {
                        Ok(truth) => truth,
                        Err(error) => {
                            return Err(error);
                        },
                    };
                    match truth {
                        Value::Boolean(truth) => {
                            if !truth {
                                return Ok(ControlFlow::Continue);
                            }
                            if rounds == 0 {
                                return Err(EvaluationError::LimitReached);
                            }
                            match block.execute(stack, heap, logger, host, limits) {
                                Ok(ControlFlow::Continue) => {
                                    rounds = rounds - 1;
                                },
                                other => {
                                    return other;
                                },
                            }
                        },
                        other => {
                            return Err(
                                EvaluationError::NonBooleanControlFlowCondition {
                                    condition: other.slang_type(),
                                    control_flow: "while-loop".to_string(),
                                },
                            );
                        },
                    }
                }
            },
            _ => Ok(ControlFlow::Continue),
        }
    }

    /// Executes the function definitions among the statements of a block, in order, so that
    /// each function can be called before the statement that defines it.
    pub fn hoist<A: Fn(BinaryOperator, Float, Float) -> Float, D: Fn(Float) -> String>(
        &self,
        stack: &mut Stack,
        heap: &mut ManagedHeap,
        logger: &mut Logger,
        host: &mut Host<A, D>,
        limits: Limits,
    ) -> (result: Result<ControlFlow, EvaluationError>)
        requires
            self is Block,
            ready(*old(stack), *old(heap), *old(host)),
        ensures
            ready(*final(stack), *final(heap), *final(host)),
            (course_of(result), state_of(*final(stack), *final(heap), *final(logger), *final(host)))
                == hoisted(
                *self,
                state_of(*old(stack), *old(heap), *old(logger), *old(host)),
                limits,
                0,
            ),
        decreases limits.depth, self, 0nat, 0nat,
    {
        match self {
            Self::Block(statements) => {
                let ghost start = state_of(*stack, *heap, *logger, *host);
                let mut i: usize = 0;
                while i < statements.len()
                    invariant
                        i <= statements.len(),
                        *self == Statement::Block(*statements),
                        ready(*stack, *heap, *host),
                        start == state_of(*old(stack), *old(heap), *old(logger), *old(host)),
                        hoisted(*self, state_of(*stack, *heap, *logger, *host), limits, i as int)
                            == hoisted(*self, start, limits, 0),
                    decreases statements.len() - i,
                {
                    proof {
                        vstd::std_specs::vec::axiom_vec_index_decreases(*statements, i as int);
                    }
                    if let Statement::FunctionDefinition { .. } = &statements[i] {
                        match statements[i].execute(stack, heap, logger, host, limits) {
                            Ok(_) => {},
                            Err(error) => {
                                return Err(error);
                            },
                        }
                    }
                    i += 1;
                }
                Ok(ControlFlow::Continue)
            },
            _ => Ok(ControlFlow::Continue),
        }
    }

    /// Executes the statements of a block that are not function definitions, up to the first
    /// that leaves the block.
    pub fn sequence<A: Fn(BinaryOperator, Float, Float) -> Float, D: Fn(Float) -> String>(
        &self,
        stack: &mut Stack,
        heap: &mut ManagedHeap,
        logger: &mut Logger,
        host: &mut Host<A, D>,
        limits: Limits,
    ) -> (result: Result<ControlFlow, EvaluationError>)
        requires
            self is Block,
            ready(*old(stack), *old(heap), *old(host)),
        ensures
            ready(*final(stack), *final(heap), *final(host)),
            (course_of(result), state_of(*final(stack), *final(heap), *final(logger), *final(host)))
                == sequenced(
                *self,
                state_of(*old(stack), *old(heap), *old(logger), *old(host)),
                limits,
                0,
            ),
        decreases limits.depth, self, 0nat, 0nat,
    {
        match self {
            Self::Block(statements) => {
                let ghost start = state_of(*stack, *heap, *logger, *host);
                let mut i: usize = 0;
                while i < statements.len()
                    invariant
                        i <= statements.len(),
                        *self == Statement::Block(*statements),
                        ready(*stack, *heap, *host),
                        start == state_of(*old(stack), *old(heap), *old(logger), *old(host)),
                        sequenced(*self, state_of(*stack, *heap, *logger, *host), limits, i as int)
                            == sequenced(*self, start, limits, 0),
                    decreases statements.len() - i,
                {
                    proof {
                        vstd::std_specs::vec::axiom_vec_index_decreases(*statements, i as int);
                    }
                    if let Statement::FunctionDefinition { .. } = &statements[i] {
                    } else {
                        match statements[i].execute(stack, heap, logger, host, limits) {
                            Ok(ControlFlow::Continue) => {},
                            other => {
                                return other;
                            },
                        }
                    }
                    i += 1;
                }
                Ok(ControlFlow::Continue)
            },
            _ => Ok(ControlFlow::Continue),
        }
    }

    /// Executes a block: in a scope of its own, its function definitions first, then its
    /// other statements in order; then the scope is left.
    fn execute_block<A: Fn(BinaryOperator, Float, Float) -> Float, D: Fn(Float) -> String>(
        &self,
        stack: &mut Stack,
        heap: &mut ManagedHeap,
        logger: &mut Logger,
        host: &mut Host<A, D>,
        limits: Limits,
    ) -> (result: Result<ControlFlow, EvaluationError>)
        requires
            self is Block,
            ready(*old(stack), *old(heap), *old(host)),
        ensures
            ready(*final(stack), *final(heap), *final(host)),
            (course_of(result), state_of(*final(stack), *final(heap), *final(logger), *final(host)))
                == run(
                *self,
                state_of(*old(stack), *old(heap), *old(logger), *old(host)),
                limits,
            ),
        decreases limits.depth, self, 0nat, 1nat,
    {
        stack.enter_scope();
        match self.hoist(stack, heap, logger, host, limits) {
            Ok(_) => {},
            Err(error) => {
                return Err(error);
            },
        }
        match self.sequence(stack, heap, logger, host, limits) {
            Err(error) => Err(error),
            Ok(ControlFlow::Break(value)) => {
                let pending = references_of(&value);
                depart(stack, heap, &pending, false);
                Ok(ControlFlow::Break(value))
            },
            Ok(ControlFlow::Continue) => {
                let pending: Vec<Pointer> = Vec::new();
                depart(stack, heap, &pending, false);
                Ok(ControlFlow::Continue)
            },
        }
    }
}

} // verus!
