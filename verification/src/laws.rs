//! What holds of the heap and the stack whatever program runs.

use crate::environment::EnvironmentView;
use crate::heap::model::{
    alive, collected, connected, placed, placed_grows, population, population_push,
    population_update, promoted, promoted_grows, reachable, records, references, released,
    retained, written, Fields, HeapObjectView, Slots,
};
use crate::expression::{BinaryOperator, EvaluationErrorView, Expression};
use crate::float::Float;
use crate::host::Limits;
use crate::environment::bound_values;
use crate::heap::model::{references_among, released_each, retained_each};
use crate::heap::Strategy;
use crate::protocol::{declared_in, departed_in, fields_references, value_references};
use crate::table::names;
use crate::semantics::{called, evaluated, something, State};
use crate::value::Function;
use crate::stack::{entered_is_well_formed, resolve, Frame, Lookup, StackView};
use crate::table::{with, with_sets};
use crate::value::{Pointer, ValueView};
use vstd::prelude::*;

verus! {

/// The slots after each of `literals` is allocated in turn on a heap that does not count
/// owners.
pub open spec fn allocated_each(slots: Slots, literals: Seq<Fields>) -> Slots
    decreases literals.len(),
{
    if literals.len() == 0 {
        slots
    } else {
        placed(allocated_each(slots, literals.drop_last()), literals.last(), false).0
    }
}

/// The number of records that `literals` become on the heap.
pub open spec fn records_each(literals: Seq<Fields>) -> nat
    decreases literals.len(),
{
    if literals.len() == 0 {
        0
    } else {
        records_each(literals.drop_last()) + records(literals.last())
    }
}

/// On a heap that never frees, the number of records after any sequence of allocations is the
/// number before it and one for each record allocated, nested literals included; no
/// allocation along the way takes a record away; and the records that were there stay as
/// they were.
pub proof fn naive_heap_counts_allocations(slots: Slots, literals: Seq<Fields>)
    ensures
        population(allocated_each(slots, literals)) == population(slots) + records_each(literals),
        forall|count: int|
            0 <= count < literals.len() ==> population(
                #[trigger] allocated_each(slots, literals.take(count)),
            ) <= population(allocated_each(slots, literals.take(count + 1))),
        allocated_each(slots, literals).len() >= slots.len(),
        allocated_each(slots, literals).take(slots.len() as int) == slots,
    decreases literals.len(),
{
    if literals.len() > 0 {
        let earlier = literals.drop_last();
        naive_heap_counts_allocations(slots, earlier);
        let before = allocated_each(slots, earlier);
        placed_grows(before, literals.last(), false);
        let after = placed(before, literals.last(), false).0;
        assert(after.take(slots.len() as int) =~= after.take(before.len() as int).take(
            slots.len() as int,
        ));
        assert forall|count: int| 0 <= count < literals.len() implies population(
            #[trigger] allocated_each(slots, literals.take(count)),
        ) <= population(allocated_each(slots, literals.take(count + 1))) by {
            if count + 1 < literals.len() {
                assert(literals.take(count) =~= earlier.take(count));
                assert(literals.take(count + 1) =~= earlier.take(count + 1));
            } else {
                assert(literals.take(count) =~= earlier);
                assert(literals.take(count + 1) =~= literals);
            }
        }
    } else {
        assert(slots.take(slots.len() as int) =~= slots);
    }
}

/// Writing a field frees nothing and allocates nothing.
pub proof fn writing_keeps_the_population(
    slots: Slots,
    pointer: Pointer,
    name: Seq<char>,
    value: ValueView,
)
    ensures
        population(written(slots, pointer, name, value)) == population(slots),
{
    if alive(slots, pointer) {
        population_update(slots, pointer.slot as int, written(slots, pointer, name, value)[pointer.slot as int]);
    }
}

/// A collection keeps a record exactly if a chain of field references leads to it from a
/// root, and it keeps the fields and the count of what it keeps.
pub proof fn collection_keeps_the_reachable(slots: Slots, roots: Seq<Pointer>, pointer: Pointer)
    requires
        slots.len() <= usize::MAX,
    ensures
        alive(collected(slots, roots), pointer) == (alive(slots, pointer) && reachable(
            slots,
            roots,
            pointer,
        )),
        alive(collected(slots, roots), pointer) ==> collected(slots, roots)[pointer.slot as int]->0.data
            == slots[pointer.slot as int]->0.data && collected(
            slots,
            roots,
        )[pointer.slot as int]->0.reference_count == slots[pointer.slot as int]->0.reference_count,
{
    if pointer.slot < slots.len() {
        assert(Pointer { slot: pointer.slot as int as usize } == pointer);
    }
}

/// Whether the environment at `place` lies on the chain of environments from `from` outwards.
pub open spec fn on_chain(environments: Seq<EnvironmentView>, from: int, place: int) -> bool
    decreases from,
{
    if from < 0 || from >= environments.len() {
        false
    } else if from == place {
        true
    } else {
        match environments[from].parent {
            Some(parent) => parent < from && on_chain(environments, parent as int, place),
            None => false,
        }
    }
}

/// A reference among the roots of an environment on a chain is among the roots of the chain.
proof fn chain_roots_hold(environments: Seq<EnvironmentView>, from: int, place: int, root: Pointer)
    requires
        on_chain(environments, from, place),
        environments[place].roots().contains(root),
    ensures
        crate::stack::chain_roots(environments, from).contains(root),
    decreases from,
{
    let own = environments[from].roots();
    if from == place {
        let i = choose|i: int| 0 <= i < own.len() && own[i] == root;
        assert(crate::stack::chain_roots(environments, from)[i] == root);
    } else {
        let parent = environments[from].parent->0 as int;
        chain_roots_hold(environments, parent, place, root);
        let rest = crate::stack::chain_roots(environments, parent);
        let i = choose|i: int| 0 <= i < rest.len() && rest[i] == root;
        assert(crate::stack::chain_roots(environments, from)[own.len() + i] == root);
    }
}

/// A reference among the roots of the chain of one of the first `count` calls is among the
/// roots of those calls.
proof fn frames_roots_hold(stack: StackView, count: int, frame: int, root: Pointer)
    requires
        0 <= frame < count <= stack.frames.len(),
        crate::stack::chain_roots(stack.environments, stack.frames[frame].head as int).contains(
            root,
        ),
    ensures
        crate::stack::frames_roots(stack.environments, stack.frames, count).contains(root),
    decreases count,
{
    let earlier = crate::stack::frames_roots(stack.environments, stack.frames, count - 1);
    let last = crate::stack::chain_roots(stack.environments, stack.frames[count - 1].head as int);
    let all = crate::stack::frames_roots(stack.environments, stack.frames, count);
    if frame == count - 1 {
        let i = choose|i: int| 0 <= i < last.len() && last[i] == root;
        assert(all[earlier.len() + i] == root);
    } else {
        frames_roots_hold(stack, count - 1, frame, root);
        let i = choose|i: int| 0 <= i < earlier.len() && earlier[i] == root;
        assert(all[i] == root);
    }
}

/// A reference that a binding holds is among the roots of its environment.
proof fn bound_reference_is_root(scope: crate::environment::Bindings, at: int, root: Pointer)
    requires
        0 <= at < scope.len(),
        scope[at].1 == Some(ValueView::ObjectReference(root)),
    ensures
        crate::environment::bound_references(scope).contains(root),
    decreases scope.len(),
{
    let found = crate::environment::bound_references(scope);
    if at == scope.len() - 1 {
        assert(found[found.len() - 1] == root);
    } else {
        bound_reference_is_root(scope.drop_last(), at, root);
        let earlier = crate::environment::bound_references(scope.drop_last());
        let i = choose|i: int| 0 <= i < earlier.len() && earlier[i] == root;
        assert(found[i] == root);
    }
}

/// A record survives a collection from the roots of the stack if a chain of field references
/// leads to it from a reference that is bound in an environment of some running call.
pub proof fn record_reachable_from_a_binding_survives(
    stack: StackView,
    slots: Slots,
    frame: int,
    place: int,
    at: int,
    route: Seq<Pointer>,
)
    requires
        slots.len() <= usize::MAX,
        0 <= frame < stack.frames.len(),
        on_chain(stack.environments, stack.frames[frame].head as int, place),
        0 <= at < stack.environments[place].scope.len(),
        stack.environments[place].scope[at].1 == Some(ValueView::ObjectReference(route[0])),
        connected(slots, route),
    ensures
        alive(collected(slots, stack.roots()), route.last()),
        collected(slots, stack.roots())[route.last().slot as int]->0.data
            == slots[route.last().slot as int]->0.data,
{
    let root = route[0];
    bound_reference_is_root(stack.environments[place].scope, at, root);
    let own = stack.environments[place].roots();
    let bound = crate::environment::bound_references(stack.environments[place].scope);
    let i = choose|i: int| 0 <= i < bound.len() && bound[i] == root;
    assert(own[i] == root);
    chain_roots_hold(stack.environments, stack.frames[frame].head as int, place, root);
    frames_roots_hold(stack, stack.frames.len() as int, frame, root);
    assert(reachable(slots, stack.roots(), route.last()));
    assert(alive(slots, route[route.len() - 1]));
    collection_keeps_the_reachable(slots, stack.roots(), route.last());
}

/// A record that no chain of field references reaches from a root does not survive the next
/// collection.
pub proof fn unreachable_record_is_collected(slots: Slots, roots: Seq<Pointer>, pointer: Pointer)
    requires
        slots.len() <= usize::MAX,
        !reachable(slots, roots, pointer),
    ensures
        !alive(collected(slots, roots), pointer),
{
    collection_keeps_the_reachable(slots, roots, pointer);
}

/// A declaration in a block hides an outer binding of the same identifier from reads and
/// writes in the block, and once the block is left the stack is what it was before the block
/// was entered.
pub proof fn declaration_in_a_block_shadows(
    stack: StackView,
    identifier: Seq<char>,
    declared: Option<ValueView>,
    assigned: Option<ValueView>,
)
    requires
        stack.well_formed(),
        stack.environments.len() < usize::MAX,
    ensures
        stack.entered().defined(identifier, declared).lookup(identifier) == match declared {
            Some(value) => Lookup::Value(value),
            None => Lookup::Uninitialised,
        },
        stack.entered().defined(identifier, declared).assigned(identifier, assigned).lookup(
            identifier,
        ) == match assigned {
            Some(value) => Lookup::Value(value),
            None => Lookup::Uninitialised,
        },
        stack.entered().defined(identifier, declared).assigned(
            identifier,
            assigned,
        ).settled().exited() == stack,
        stack.entered().defined(identifier, declared).settled().exited() == stack,
{
    let count = stack.frames.len() as int;
    let inside = stack.entered();
    entered_is_well_formed(stack);
    let top = inside.top();
    assert(stack.frames[count - 1] == stack.frames.last());
    assert(top == stack.environments.len());
    let scope = inside.environments[top];
    let declared_stack = inside.defined(identifier, declared);
    with_sets(scope.scope, identifier, declared);
    assert(declared_stack.environments[top].scope == with(scope.scope, identifier, declared));
    assert(declared_stack.top() == top);
    assert(resolve(declared_stack.environments, top, identifier) == Some(top));
    let written = declared_stack.assigned(identifier, assigned);
    with_sets(declared_stack.environments[top].scope, identifier, assigned);
    assert(written.top() == top);
    assert(resolve(written.environments, top, identifier) == Some(top));
    left_block_is_forgotten(stack, declared_stack);
    left_block_is_forgotten(stack, written);
}

/// However the innermost scope of a block came to be, leaving the block leaves the stack as
/// it was before the block was entered.
proof fn left_block_is_forgotten(stack: StackView, inside: StackView)
    requires
        stack.well_formed(),
        stack.environments.len() < usize::MAX,
        inside.frames == stack.entered().frames,
        inside.environments.len() == stack.environments.len() + 1,
        forall|i: int|
            0 <= i < stack.environments.len() ==> inside.environments[i] == stack.environments[i],
        inside.environments[stack.environments.len() as int].parent == Some(stack.top() as usize),
    ensures
        inside.settled().exited() == stack,
{
    let count = stack.frames.len() as int;
    assert(stack.frames[count - 1] == stack.frames.last());
    let settled = inside.settled();
    let after = settled.exited();
    let frame = Frame { head: stack.top() as usize, ..settled.frames.last() };
    assert(frame == stack.frames.last());
    assert(stack.extent(frame) == stack.environments.len());
    assert(after.environments =~= stack.environments);
    assert(after.frames =~= stack.frames);
}

/// A run of `count` empty slots.
pub open spec fn empties(count: nat) -> Slots {
    Seq::new(count, |i: int| None::<HeapObjectView>)
}

/// Whether every record has an owner, and could gain `spare` more and one beyond them before
/// its count reaches the largest that is kept.
pub open spec fn roomy(slots: Slots, spare: nat) -> bool {
    forall|i: int|
        0 <= i < slots.len() && slots[i] is Some ==> 1 <= (#[trigger] slots[i])->0.reference_count
            && slots[i]->0.reference_count + spare < usize::MAX
}

/// The references in fields are those in all but the last field and those in the last.
proof fn references_split(fields: Fields)
    requires
        fields.len() > 0,
    ensures
        fields_references(fields).len() == fields_references(fields.drop_last()).len()
            + value_references(fields.last().1).len(),
        fields.last().1 is ObjectReference ==> value_references(fields.last().1).len() == 1,
        fields.last().1 is Object ==> value_references(fields.last().1) == fields_references(
            fields.last().1->Object_0,
        ),
        !(fields.last().1 is Object) && !(fields.last().1 is ObjectReference) ==> value_references(
            fields.last().1,
        ).len() == 0,
        records(fields) == records(fields.drop_last()) + match fields.last().1 {
            ValueView::Object(inner) => records(inner),
            _ => 0nat,
        },
{
}

/// Promoting the literals among `fields` on a heap that counts owners uses up as much room
/// as `fields` hold references.
proof fn promotion_leaves_room(slots: Slots, fields: Fields, spare: nat)
    requires
        roomy(slots, spare),
        spare >= fields_references(fields).len(),
        spare + 1 < usize::MAX,
    ensures
        roomy(
            promoted(slots, fields, true).0,
            (spare - fields_references(fields).len()) as nat,
        ),
    decreases fields, 0nat,
{
    if fields.len() > 0 {
        let earlier = fields.drop_last();
        let used = fields_references(earlier).len();
        references_split(fields);
        promotion_leaves_room(slots, earlier, spare);
        let before = promoted(slots, earlier, true).0;
        let left = (spare - used) as nat;
        match fields.last().1 {
            ValueView::Object(inner) => {
                allocation_leaves_room(before, inner, left);
            },
            ValueView::ObjectReference(pointer) => {
                let after = retained(before, pointer);
                assert forall|i: int| 0 <= i < after.len() && after[i] is Some implies 1 <= (
                #[trigger] after[i])->0.reference_count && after[i]->0.reference_count + (left
                    - 1) < usize::MAX by {
                    assert(before[i] is Some);
                }
            },
            _ => {},
        }
    }
}

/// Allocating a record on a heap that counts owners uses up as much room as its fields hold
/// references.
proof fn allocation_leaves_room(slots: Slots, fields: Fields, spare: nat)
    requires
        roomy(slots, spare),
        spare >= fields_references(fields).len(),
        spare + 1 < usize::MAX,
    ensures
        roomy(placed(slots, fields, true).0, (spare - fields_references(fields).len()) as nat),
    decreases fields, 1nat,
{
    promotion_leaves_room(slots, fields, spare);
    let before = promoted(slots, fields, true).0;
    let after = placed(slots, fields, true).0;
    let left = (spare - fields_references(fields).len()) as nat;
    assert forall|i: int| 0 <= i < after.len() && after[i] is Some implies 1 <= (
    #[trigger] after[i])->0.reference_count && after[i]->0.reference_count + left
        < usize::MAX by {
        if i < before.len() {
            assert(before[i] is Some);
        }
    }
}

/// Giving up what promoted fields refer to undoes the promotion: the records that were
/// allocated for the nested literals are freed again, and every count is what it was.
proof fn release_undoes_promotion(
    slots: Slots,
    fields: Fields,
    rest: Seq<Pointer>,
    behind: Slots,
    spare: nat,
)
    requires
        roomy(slots, spare),
        spare >= fields_references(fields).len(),
        spare + 1 < usize::MAX,
        slots.len() + records(fields) + behind.len() <= usize::MAX + 1,
        forall|i: int| 0 <= i < behind.len() ==> behind[i] is None,
    ensures
        released(
            promoted(slots, fields, true).0 + behind,
            rest + references(promoted(slots, fields, true).1),
        ) == released(slots + empties((records(fields) - 1) as nat) + behind, rest),
    decreases fields, 0nat,
{
    let done = promoted(slots, fields, true).1;
    if fields.len() == 0 {
        assert(rest + references(done) =~= rest);
        assert(slots + empties(0) + behind =~= slots + behind);
    } else {
        let earlier = fields.drop_last();
        let (before, earlier_done) = promoted(slots, earlier, true);
        let used = fields_references(earlier).len();
        let left = (spare - used) as nat;
        references_split(fields);
        promotion_leaves_room(slots, earlier, spare);
        promoted_grows(slots, earlier, true);
        let name = fields.last().0;
        match fields.last().1 {
            ValueView::Object(inner) => {
                let (inner_before, inner_done) = promoted(before, inner, true);
                let (after, pointer) = placed(before, inner, true);
                promoted_grows(before, inner, true);
                assert(done == earlier_done.push((name, ValueView::ObjectReference(pointer))));
                assert(done.drop_last() =~= earlier_done);
                assert(references(done) == references(earlier_done).push(pointer));
                let pending = rest + references(done);
                assert(pending.drop_last() =~= rest + references(earlier_done));
                assert(pending.last() == pointer);
                let object = after[pointer.slot as int]->0;
                assert(pointer.slot == inner_before.len());
                assert((after + behind)[pointer.slot as int] == after[pointer.slot as int]);
                assert((after + behind).update(pointer.slot as int, None) =~= inner_before + (
                seq![None::<HeapObjectView>] + behind));
                assert(object.data == inner_done);
                release_undoes_promotion(
                    before,
                    inner,
                    rest + references(earlier_done),
                    seq![None::<HeapObjectView>] + behind,
                    left,
                );
                release_undoes_promotion(
                    slots,
                    earlier,
                    rest,
                    empties(records(inner)) + behind,
                    spare,
                );
                assert(before + empties((records(inner) - 1) as nat) + (seq![
                    None::<HeapObjectView>,
                ] + behind) =~= before + (empties(records(inner)) + behind));
                assert(slots + empties((records(earlier) - 1) as nat) + (empties(records(inner))
                    + behind) =~= slots + empties((records(fields) - 1) as nat) + behind);
            },
            ValueView::ObjectReference(pointer) => {
                let after = retained(before, pointer);
                assert(done == earlier_done.push(fields.last()));
                assert(done.drop_last() =~= earlier_done);
                assert(references(done) == references(earlier_done).push(pointer));
                let pending = rest + references(done);
                assert(pending.drop_last() =~= rest + references(earlier_done));
                assert(pending.last() == pointer);
                if alive(before, pointer) {
                    let object = before[pointer.slot as int]->0;
                    assert((after + behind)[pointer.slot as int] == after[pointer.slot as int]);
                    assert((after + behind).update(pointer.slot as int, Some(object)) =~= before
                        + behind);
                } else {
                    assert(after == before);
                    if pointer.slot < (before + behind).len() {
                        if pointer.slot >= before.len() {
                            assert((before + behind)[pointer.slot as int] == behind[pointer.slot
                                - before.len()]);
                        } else {
                            assert((before + behind)[pointer.slot as int]
                                == before[pointer.slot as int]);
                        }
                    }
                }
                release_undoes_promotion(slots, earlier, rest, behind, spare);
            },
            _ => {
                assert(done == earlier_done.push(fields.last()));
                assert(done.drop_last() =~= earlier_done);
                release_undoes_promotion(slots, earlier, rest, behind, spare);
            },
        }
    }
}

/// On a heap that counts owners, allocating a record and then giving up its one owner leaves
/// every record that was there as it was, and every slot that the allocation took empty: the
/// record and all that was allocated for its nested literals are freed again.
pub proof fn release_undoes_allocation(slots: Slots, fields: Fields)
    requires
        roomy(slots, fields_references(fields).len()),
        fields_references(fields).len() + 1 < usize::MAX,
        slots.len() + records(fields) <= usize::MAX,
    ensures
        released(placed(slots, fields, true).0, seq![placed(slots, fields, true).1]) == slots
            + empties(records(fields)),
        population(released(placed(slots, fields, true).0, seq![placed(slots, fields, true).1]))
            == population(slots),
{
    let spare = fields_references(fields).len();
    let (before, data) = promoted(slots, fields, true);
    let (after, pointer) = placed(slots, fields, true);
    promoted_grows(slots, fields, true);
    let pending = seq![pointer];
    assert(pending.drop_last() =~= Seq::<Pointer>::empty());
    assert(pending.last() == pointer);
    assert(pointer.slot == before.len());
    assert(after.update(pointer.slot as int, None) =~= before + seq![None::<HeapObjectView>]);
    assert(Seq::<Pointer>::empty() + references(data) =~= references(data));
    release_undoes_promotion(
        slots,
        fields,
        Seq::<Pointer>::empty(),
        seq![None::<HeapObjectView>],
        spare,
    );
    assert(slots + empties((records(fields) - 1) as nat) + seq![None::<HeapObjectView>] =~= slots
        + empties(records(fields)));
    empties_hold_nothing(slots, records(fields));
}

/// Empty slots behind a heap add no record to it.
pub proof fn empties_hold_nothing(slots: Slots, count: nat)
    ensures
        population(slots + empties(count)) == population(slots),
    decreases count,
{
    if count == 0 {
        assert(slots + empties(0) =~= slots);
    } else {
        empties_hold_nothing(slots, (count - 1) as nat);
        assert(slots + empties(count) =~= (slots + empties((count - 1) as nat)).push(None));
        population_push(slots + empties((count - 1) as nat), None);
    }
}

/// On an empty heap that counts owners, a record that is allocated and then given up by its
/// one owner leaves no record behind.
pub proof fn lone_record_is_freed(fields: Fields)
    requires
        fields_references(fields).len() + 1 < usize::MAX,
        records(fields) <= usize::MAX,
    ensures
        population(
            released(
                placed(Slots::empty(), fields, true).0,
                seq![placed(Slots::empty(), fields, true).1],
            ),
        ) == 0,
{
    release_undoes_allocation(Slots::empty(), fields);
}

/// A call of a function that the program defined, with more or fewer arguments than the
/// function has parameters, fails and reports both numbers; no argument is evaluated, and the
/// state is what evaluating the called expression left.
pub proof fn call_with_the_wrong_number_of_arguments_fails<
    A: Fn(BinaryOperator, Float, Float) -> Float,
    D: Fn(Float) -> String,
>(call: Expression, state: State<A, D>, limits: Limits)
    requires
        call is Call,
        evaluated(*call->function, state, limits).0 matches Ok(
            Some(ValueView::Function(Function::UserDefined { parameters, block })),
        ) && parameters@.len() != call->arguments@.len(),
    ensures
        evaluated(call, state, limits) == (
            Err::<Option<ValueView>, EvaluationErrorView>(
                EvaluationErrorView::IncorrectArgumentCount {
                    expected: evaluated(
                        *call->function,
                        state,
                        limits,
                    ).0->Ok_0->0->Function_0->parameters@.len() as usize,
                    passed: call->arguments@.len() as usize,
                },
            ),
            evaluated(*call->function, state, limits).1,
        ),
{
    let callee = something(evaluated(*call->function, state, limits));
    assert(evaluated(call, state, limits) == called(call, state, limits));
}

/// Under the counting strategy, a block that declares one variable, binds it to a record
/// literal and is left again leaves the stack as it was and the heap without a record more:
/// the record and all that was allocated for its nested literals are freed with the binding.
pub proof fn record_of_a_block_is_freed_with_the_block(
    stack: StackView,
    slots: Slots,
    identifier: Seq<char>,
    fields: Fields,
)
    requires
        stack.well_formed(),
        stack.environments.len() < usize::MAX,
        roomy(slots, fields_references(fields).len()),
        fields_references(fields).len() + 1 < usize::MAX,
        slots.len() + records(fields) <= usize::MAX,
    ensures
        ({
            let (inside, allocated) = declared_in(
                stack.entered(),
                slots,
                true,
                identifier,
                Some(ValueView::Object(fields)),
            );
            departed_in(inside, allocated, Strategy::ReferenceCounted, Seq::empty(), false)
        }) == (stack, slots + empties(records(fields))),
{
    let entered = stack.entered();
    entered_is_well_formed(stack);
    let count = stack.frames.len() as int;
    assert(stack.frames[count - 1] == stack.frames.last());
    let top = entered.top();
    assert(top == stack.environments.len());
    let (after, pointer) = placed(slots, fields, true);
    let bound = Some(ValueView::ObjectReference(pointer));
    let (inside, allocated) = declared_in(
        entered,
        slots,
        true,
        identifier,
        Some(ValueView::Object(fields)),
    );
    assert(entered.environments[top].scope =~= Seq::empty());
    assert(names(entered.environments[top].scope) =~= Seq::empty());
    assert(entered.environments[top].binding(identifier) is None);
    assert(allocated == after);
    assert(inside == entered.defined(identifier, bound));
    let scope = inside.environments[top];
    assert(scope.scope =~= seq![(identifier, bound)]);
    let nothing = Seq::<(Seq<char>, Option<ValueView>)>::empty();
    assert(bound_values(nothing) =~= Seq::empty());
    assert(scope.scope.drop_last() =~= nothing);
    assert(scope.scope.last() == (identifier, bound));
    assert(bound_values(scope.scope) =~= seq![bound->0]);
    assert(references_among(Seq::<ValueView>::empty()) =~= Seq::empty());
    assert(bound_values(scope.scope).drop_last() =~= Seq::<ValueView>::empty());
    assert(bound_values(scope.scope).last() == bound->0);
    assert(references_among(bound_values(scope.scope)) =~= seq![pointer]);
    assert(seq![pointer].drop_last() =~= Seq::<Pointer>::empty());
    assert(scope.returned =~= Seq::empty());
    release_undoes_allocation(slots, fields);
    left_block_is_forgotten(stack, inside);
    let none = Seq::<Pointer>::empty();
    assert(retained_each(after, none) == after);
    assert(released_each(after, none) == after);
    assert(released_each(after, seq![pointer]) == released(after, seq![pointer]));
    let freed = released(after, seq![pointer]);
    assert(released_each(freed, none) == freed);
    assert(inside.top() == top);
    assert(crate::protocol::handed_back_each(stack, none) == stack);
}

} // verus!
