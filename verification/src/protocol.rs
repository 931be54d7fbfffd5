//! The life of a record: what happens on the heap and the stack when a value is stored or
//! replaced, and when a block or a call is left.

use crate::environment::bound_values;
use crate::heap::model::{
    collected, placed, population, references_among, released, released_each, retained,
    retained_each, Fields, Slots,
};
use crate::heap::{values_view, ManagedHeap, Strategy};
use crate::stack::{Stack, StackView};
use crate::stats::{Logger, Sample};

use crate::value::{fields_view, Object, Pointer, Value, ValueView};
use vstd::prelude::*;

verus! {

/// The slots once `value` is fit to be stored, and the value as it is stored: a record that is
/// not on the heap is allocated, and a reference gains an owner where owners are counted.
pub open spec fn stored_in(slots: Slots, value: ValueView, counting: bool) -> (Slots, ValueView) {
    match value {
        ValueView::Object(fields) => (
            placed(slots, fields, counting).0,
            ValueView::ObjectReference(placed(slots, fields, counting).1),
        ),
        ValueView::ObjectReference(pointer) => (
            if counting {
                retained(slots, pointer)
            } else {
                slots
            },
            value,
        ),
        _ => (slots, value),
    }
}

/// The slots once a value that was stored has been replaced: where it was a reference and
/// owners are counted, it has lost one.
pub open spec fn replaced_in(slots: Slots, previous: Option<ValueView>, counting: bool) -> Slots {
    match previous {
        Some(ValueView::ObjectReference(pointer)) => if counting {
            released(slots, seq![pointer])
        } else {
            slots
        },
        _ => slots,
    }
}

/// The stack and the slots once `identifier` is defined in the innermost scope: the value is
/// made fit to be stored, it is bound, and what the identifier was bound to in that scope is
/// replaced.
pub open spec fn declared_in(
    stack: StackView,
    slots: Slots,
    counting: bool,
    identifier: Seq<char>,
    value: Option<ValueView>,
) -> (StackView, Slots) {
    let (fit, stored) = match value {
        Some(value) => (
            stored_in(slots, value, counting).0,
            Some(stored_in(slots, value, counting).1),
        ),
        None => (slots, None),
    };
    let previous = stack.environments[stack.top()].binding(identifier);
    (
        stack.defined(identifier, stored),
        match previous {
            Some(previous) => replaced_in(fit, previous, counting),
            None => fit,
        },
    )
}

/// The stack and the slots once each parameter, from the one at `from` on, is defined in the
/// innermost scope as the argument in its place.
pub open spec fn bound_in(
    stack: StackView,
    slots: Slots,
    counting: bool,
    parameters: Seq<String>,
    arguments: Seq<ValueView>,
    from: int,
) -> (StackView, Slots)
    decreases parameters.len() - from,
{
    if from < 0 || from >= parameters.len() || from >= arguments.len() {
        (stack, slots)
    } else {
        let (stack, slots) = declared_in(
            stack,
            slots,
            counting,
            parameters[from]@,
            Some(arguments[from]),
        );
        bound_in(stack, slots, counting, parameters, arguments, from + 1)
    }
}

/// The slots once the references that were handed back into the innermost scope are given up.
pub open spec fn settled_in(stack: StackView, slots: Slots, counting: bool) -> Slots {
    if counting {
        released_each(slots, stack.environments[stack.top()].returned)
    } else {
        slots
    }
}

/// Every heap reference in the fields, however deep in record literals, in field order.
pub open spec fn fields_references(fields: Fields) -> Seq<Pointer>
    decreases fields, 0nat,
{
    if fields.len() == 0 {
        Seq::empty()
    } else {
        fields_references(fields.drop_last()) + value_references(fields.last().1)
    }
}

/// Every heap reference in the value: the value itself where it is one, and those in its
/// fields where it is a record that is not on the heap.
pub open spec fn value_references(value: ValueView) -> Seq<Pointer>
    decreases value, 1nat,
{
    match value {
        ValueView::ObjectReference(pointer) => seq![pointer],
        ValueView::Object(fields) => fields_references(fields),
        _ => Seq::empty(),
    }
}

/// Every heap reference in what is returned.
pub open spec fn pending_references(value: Option<ValueView>) -> Seq<Pointer> {
    match value {
        Some(value) => value_references(value),
        None => Seq::empty(),
    }
}

/// The stack with each of `pointers` handed back into the innermost scope.
pub open spec fn handed_back_each(stack: StackView, pointers: Seq<Pointer>) -> StackView
    decreases pointers.len(),
{
    if pointers.len() == 0 {
        stack
    } else {
        handed_back_each(stack, pointers.drop_last()).handed_back(pointers.last())
    }
}

/// The stack and the slots once a block, or the call that is running, is left while the
/// references `pending` are being returned.
///
/// Where owners are counted, what is returned gains an owner, and the bindings of the
/// innermost scope and what was handed back into it lose theirs. The scope, or the whole
/// frame of the call, is discarded. On leaving a block a tracing heap is collected, from the
/// roots of the stack and from what is returned. What is returned is handed back into the
/// scope that is exposed.
pub open spec fn departed_in(
    stack: StackView,
    slots: Slots,
    strategy: Strategy,
    pending: Seq<Pointer>,
    call: bool,
) -> (StackView, Slots) {
    let scope = stack.environments[stack.top()];
    let kept = if strategy == Strategy::ReferenceCounted {
        released_each(
            released_each(
                retained_each(slots, pending),
                references_among(bound_values(scope.scope)),
            ),
            scope.returned,
        )
    } else {
        slots
    };
    let exposed = if call {
        stack.settled().popped()
    } else {
        stack.settled().exited()
    };
    let swept = if strategy == Strategy::GarbageCollected && !call {
        collected(kept, exposed.roots() + pending)
    } else {
        kept
    };
    (handed_back_each(exposed, pending), swept)
}

/// A count as a slang integer: its low 32 bits.
pub open spec fn wrapped(count: usize) -> i32 {
    let low = count as int % 0x1_0000_0000;
    if low >= 0x8000_0000 {
        (low - 0x1_0000_0000) as i32
    } else {
        low as i32
    }
}

/// The stack once the number of frames and the number of records are defined in the innermost
/// scope.
pub open spec fn sampled_in(stack: StackView, slots: Slots) -> StackView {
    stack.defined(
        "STACK_FRAMES_COUNT"@,
        Some(ValueView::Integer(wrapped(stack.frames.len() as usize))),
    ).defined("HEAP_OBJECTS_COUNT"@, Some(ValueView::Integer(wrapped(population(slots) as usize))))
}

/// The sample that the logger takes of a stack and a heap.
pub open spec fn sample_of(stack: StackView, slots: Slots, reading: Option<usize>) -> Sample {
    Sample {
        heap_objects_count: population(slots) as usize,
        stack_frames_count: stack.frames.len() as usize,
        memory_usage: reading,
    }
}

/// Makes a value fit to be stored in a variable, a field or a parameter.
pub fn store(heap: &mut ManagedHeap, value: Value) -> (stored: Value)
    requires
        old(heap).well_formed(),
    ensures
        final(heap).well_formed(),
        final(heap).strategy() == old(heap).strategy(),
        (final(heap)@, stored@) == stored_in(old(heap)@, value@, old(heap).counting()),
{
    match value {
        Value::Object(data) => Value::ObjectReference(heap.allocate(data)),
        Value::ObjectReference(pointer) => {
            heap.retain(&value);
            value
        },
        _ => value,
    }
}

/// Accounts for a value that was stored and has been replaced.
pub fn replace(heap: &mut ManagedHeap, previous: &Option<Value>)
    requires
        old(heap).well_formed(),
    ensures
        final(heap).well_formed(),
        final(heap).strategy() == old(heap).strategy(),
        final(heap)@ == replaced_in(
            old(heap)@,
            crate::environment::binding_view(*previous),
            old(heap).counting(),
        ),
{
    if let Some(value) = previous {
        heap.release(value);
    }
}

/// Defines `identifier` in the innermost scope.
pub fn declare(stack: &mut Stack, heap: &mut ManagedHeap, identifier: String, value: Option<Value>)
    requires
        old(stack).well_formed(),
        old(heap).well_formed(),
    ensures
        final(stack).well_formed(),
        final(heap).well_formed(),
        final(heap).strategy() == old(heap).strategy(),
        (final(stack)@, final(heap)@) == declared_in(
            old(stack)@,
            old(heap)@,
            old(heap).counting(),
            identifier@,
            crate::environment::binding_view(value),
        ),
{
    let stored = match value {
        Some(value) => Some(store(heap, value)),
        None => None,
    };
    let previous = stack.define(identifier, stored);
    if let Some(previous) = previous {
        replace(heap, &previous);
    }
}

/// Defines each parameter in the innermost scope as the argument in its place.
pub fn bind(
    stack: &mut Stack,
    heap: &mut ManagedHeap,
    parameters: &Vec<String>,
    arguments: Vec<Value>,
)
    requires
        old(stack).well_formed(),
        old(heap).well_formed(),
    ensures
        final(stack).well_formed(),
        final(heap).well_formed(),
        final(heap).strategy() == old(heap).strategy(),
        (final(stack)@, final(heap)@) == bound_in(
            old(stack)@,
            old(heap)@,
            old(heap).counting(),
            parameters@,
            values_view(arguments@),
            0,
        ),
{
    let ghost views = values_view(arguments@);
    let mut rest = arguments;
    let mut i: usize = 0;
    while i < parameters.len() && i < rest.len()
        invariant
            stack.well_formed(),
            heap.well_formed(),
            heap.strategy() == old(heap).strategy(),
            rest.len() == views.len(),
            forall|j: int| i <= j < rest.len() ==> (#[trigger] rest[j])@ == views[j],
            bound_in(stack@, heap@, heap.counting(), parameters@, views, i as int) == bound_in(
                old(stack)@,
                old(heap)@,
                old(heap).counting(),
                parameters@,
                views,
                0,
            ),
        decreases parameters.len() - i,
    {
        let mut value = Value::Boolean(false);
        core::mem::swap(&mut rest[i], &mut value);
        declare(stack, heap, parameters[i].clone(), Some(value));
        i += 1;
    }
}

/// A count as a slang integer.
pub fn wrap(count: usize) -> (integer: i32)
    ensures
        integer == wrapped(count),
{
    let low: u64 = (count as u64) % 0x1_0000_0000;
    if low >= 0x8000_0000 {
        (low as i64 - 0x1_0000_0000) as i32
    } else {
        low as i32
    }
}

/// Defines the two counts in the innermost scope, and has the logger take a sample.
pub fn sample(stack: &mut Stack, heap: &ManagedHeap, logger: &mut Logger)
    requires
        old(stack).well_formed(),
        heap.well_formed(),
    ensures
        final(stack).well_formed(),
        final(stack)@ == sampled_in(old(stack)@, heap@),
        final(logger).reading() == old(logger).reading(),
        final(logger)@ == old(logger)@.push(sample_of(old(stack)@, heap@, old(logger).reading())),
{
    let frames = stack.frames_count();
    let objects = heap.objects_count();
    stack.define("STACK_FRAMES_COUNT".to_string(), Some(Value::Integer(wrap(frames))));
    stack.define("HEAP_OBJECTS_COUNT".to_string(), Some(Value::Integer(wrap(objects))));
    logger.new_entry(objects, frames);
}

/// Appends to `found` every heap reference in the fields.
fn collect_fields_references(fields: &Object, found: &mut Vec<Pointer>)
    ensures
        final(found)@ == old(found)@ + fields_references(fields_view(fields@)),
    decreases fields, 0nat,
{
    let ghost all = fields_view(fields@);
    let mut i: usize = 0;
    assert(all.take(0) =~= Seq::empty());
    assert(found@ =~= old(found)@ + fields_references(all.take(0)));
    while i < fields.len()
        invariant
            i <= fields.len(),
            all == fields_view(fields@),
            found@ == old(found)@ + fields_references(all.take(i as int)),
        decreases fields.len() - i,
    {
        assert(all.take(i + 1).drop_last() =~= all.take(i as int));
        assert(all.take(i + 1).last() == all[i as int]);
        proof {
            vstd::std_specs::vec::axiom_vec_index_decreases(*fields, i as int);
        }
        collect_value_references(&fields[i].1, found);
        assert(found@ =~= old(found)@ + fields_references(all.take(i + 1)));
        i += 1;
    }
    assert(all.take(i as int) =~= all);
}

/// Appends to `found` every heap reference in the value.
fn collect_value_references(value: &Value, found: &mut Vec<Pointer>)
    ensures
        final(found)@ == old(found)@ + value_references(value@),
    decreases value, 1nat,
{
    match value {
        Value::ObjectReference(pointer) => {
            found.push(*pointer);
            assert(found@ =~= old(found)@ + value_references(value@));
        },
        Value::Object(fields) => {
            collect_fields_references(fields, found);
        },
        _ => {
            assert(found@ =~= old(found)@ + value_references(value@));
        },
    }
}

/// Every heap reference in what is returned.
pub fn references_of(value: &Option<Value>) -> (pending: Vec<Pointer>)
    ensures
        pending@ == pending_references(crate::environment::binding_view(*value)),
{
    let mut pending: Vec<Pointer> = Vec::new();
    if let Some(value) = value {
        collect_value_references(value, &mut pending);
    }
    pending
}

/// Leaves a block, or the call that is running, while the references `pending` are being
/// returned.
pub fn depart(stack: &mut Stack, heap: &mut ManagedHeap, pending: &Vec<Pointer>, call: bool)
    requires
        old(stack).well_formed(),
        old(heap).well_formed(),
    ensures
        final(stack).well_formed(),
        final(heap).well_formed(),
        final(heap).strategy() == old(heap).strategy(),
        (final(stack)@, final(heap)@) == departed_in(
            old(stack)@,
            old(heap)@,
            old(heap).strategy(),
            pending@,
            call,
        ),
{
    heap.retain_pointers(pending.as_slice());
    let values = stack.values();
    assert(values_view(values@) =~= bound_values(stack@.environments[stack@.top()].scope));
    heap.release_values(&values);
    if call {
        stack.settle(heap);
        stack.pop();
    } else {
        stack.exit_scope(heap);
        let mut roots = stack.roots();
        let mut i: usize = 0;
        let ghost exposed = roots@;
        assert(roots@ =~= exposed + pending@.take(0));
        while i < pending.len()
            invariant
                i <= pending.len(),
                roots@ == exposed + pending@.take(i as int),
            decreases pending.len() - i,
        {
            roots.push(pending[i]);
            assert(roots@ =~= exposed + pending@.take(i + 1));
            i += 1;
        }
        assert(pending@.take(i as int) =~= pending@);
        heap.collect(roots.as_slice());
    }
    let ghost exposed = stack@;
    let mut i: usize = 0;
    assert(pending@.take(0) =~= Seq::empty());
    while i < pending.len()
        invariant
            i <= pending.len(),
            stack.well_formed(),
            stack@ == handed_back_each(exposed, pending@.take(i as int)),
        decreases pending.len() - i,
    {
        assert(pending@.take(i + 1).drop_last() =~= pending@.take(i as int));
        stack.add_returned_object_reference(pending[i]);
        i += 1;
    }
    assert(pending@.take(i as int) =~= pending@);
}

} // verus!
