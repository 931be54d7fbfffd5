//! The heap as mathematics: a sequence of slots, each holding a record or nothing.

use crate::table::{has, position, with};
use crate::value::{Pointer, ValueView};
use vstd::prelude::*;

verus! {

/// The fields of a record: named values in the order in which they were first set.
pub type Fields = Seq<(Seq<char>, ValueView)>;

/// What a heap object stands for.
pub struct HeapObjectView {
    pub data: Fields,
    pub marked: bool,
    pub reference_count: usize,
}

/// The slot table: slot `i` holds the record that `Pointer { slot: i }` refers to, or nothing
/// once that record is freed.
pub type Slots = Seq<Option<HeapObjectView>>;

/// Whether `pointer` refers to a record.
pub open spec fn alive(slots: Slots, pointer: Pointer) -> bool {
    pointer.slot < slots.len() && slots[pointer.slot as int] is Some
}

/// The number of records on the heap.
pub open spec fn population(slots: Slots) -> nat
    decreases slots.len(),
{
    if slots.len() == 0 {
        0
    } else {
        population(slots.drop_last()) + if slots.last() is Some {
            1nat
        } else {
            0nat
        }
    }
}

/// The heap references that the fields hold directly, in field order.
pub open spec fn references(fields: Fields) -> Seq<Pointer>
    decreases fields.len(),
{
    if fields.len() == 0 {
        Seq::empty()
    } else {
        match fields.last().1 {
            ValueView::ObjectReference(pointer) => references(fields.drop_last()).push(pointer),
            _ => references(fields.drop_last()),
        }
    }
}

/// The number of records that a literal with these fields becomes on the heap: itself and
/// every record literal nested in it.
pub open spec fn records(fields: Fields) -> nat
    decreases fields,
{
    if fields.len() == 0 {
        1
    } else {
        records(fields.drop_last()) + match fields.last().1 {
            ValueView::Object(inner) => records(inner),
            _ => 0nat,
        }
    }
}

/// The slots after one more owner of `pointer` is counted. A count at its maximum stays there,
/// and a pointer to nothing changes nothing.
pub open spec fn retained(slots: Slots, pointer: Pointer) -> Slots {
    if alive(slots, pointer) && slots[pointer.slot as int]->0.reference_count < usize::MAX {
        let object = slots[pointer.slot as int]->0;
        slots.update(
            pointer.slot as int,
            Some(
                HeapObjectView {
                    reference_count: (object.reference_count + 1) as usize,
                    ..object
                },
            ),
        )
    } else {
        slots
    }
}

/// The slots and fields after the nested record literals of `fields` are put on the heap, from
/// the first field to the last. Where `counting`, each reference among the fields gains an
/// owner.
pub open spec fn promoted(slots: Slots, fields: Fields, counting: bool) -> (Slots, Fields)
    decreases fields, 0nat,
{
    if fields.len() == 0 {
        (slots, Seq::empty())
    } else {
        let (before, done) = promoted(slots, fields.drop_last(), counting);
        let (name, value) = fields.last();
        match value {
            ValueView::Object(inner) => {
                let (after, pointer) = placed(before, inner, counting);
                (after, done.push((name, ValueView::ObjectReference(pointer))))
            },
            ValueView::ObjectReference(pointer) => (
                if counting {
                    retained(before, pointer)
                } else {
                    before
                },
                done.push((name, value)),
            ),
            _ => (before, done.push((name, value))),
        }
    }
}

/// The slots after a record with these fields is allocated, and the pointer to it: the nested
/// literals are promoted first, then the record takes a fresh slot at the end, unmarked and
/// with one owner.
pub open spec fn placed(slots: Slots, fields: Fields, counting: bool) -> (Slots, Pointer)
    decreases fields, 1nat,
{
    let (before, data) = promoted(slots, fields, counting);
    (
        before.push(Some(HeapObjectView { data, marked: false, reference_count: 1 })),
        Pointer { slot: before.len() as usize },
    )
}

/// The slots after each owner in `pending` gives up its reference, the last of them first. A
/// record that loses its last owner is freed, and the references in its fields are given up
/// before the rest of `pending`. A count at its maximum stays there.
pub open spec fn released(slots: Slots, pending: Seq<Pointer>) -> Slots
    decreases population(slots), pending.len(),
{
    if pending.len() == 0 {
        slots
    } else {
        let pointer = pending.last();
        let rest = pending.drop_last();
        if !alive(slots, pointer) {
            released(slots, rest)
        } else {
            let object = slots[pointer.slot as int]->0;
            if object.reference_count == usize::MAX {
                released(slots, rest)
            } else if object.reference_count > 1 {
                proof {
                    population_update(
                        slots,
                        pointer.slot as int,
                        Some(
                            HeapObjectView {
                                reference_count: (object.reference_count - 1) as usize,
                                ..object
                            },
                        ),
                    );
                }
                released(
                    slots.update(
                        pointer.slot as int,
                        Some(
                            HeapObjectView {
                                reference_count: (object.reference_count - 1) as usize,
                                ..object
                            },
                        ),
                    ),
                    rest,
                )
            } else {
                proof {
                    population_update(slots, pointer.slot as int, None);
                }
                released(slots.update(pointer.slot as int, None), rest + references(object.data))
            }
        }
    }
}

/// The slots after each of `pointers` gains an owner, one after another.
pub open spec fn retained_each(slots: Slots, pointers: Seq<Pointer>) -> Slots
    decreases pointers.len(),
{
    if pointers.len() == 0 {
        slots
    } else {
        retained(retained_each(slots, pointers.drop_last()), pointers.last())
    }
}

/// The slots after the owner of each of `pointers` gives up its reference, one after another.
pub open spec fn released_each(slots: Slots, pointers: Seq<Pointer>) -> Slots
    decreases pointers.len(),
{
    if pointers.len() == 0 {
        slots
    } else {
        released(released_each(slots, pointers.drop_last()), seq![pointers.last()])
    }
}

/// The heap references among `values`, in order.
pub open spec fn references_among(values: Seq<ValueView>) -> Seq<Pointer>
    decreases values.len(),
{
    if values.len() == 0 {
        Seq::empty()
    } else {
        match values.last() {
            ValueView::ObjectReference(pointer) => references_among(values.drop_last()).push(
                pointer,
            ),
            _ => references_among(values.drop_last()),
        }
    }
}

/// The population after a slot is appended.
pub proof fn population_push(slots: Slots, slot: Option<HeapObjectView>)
    ensures
        population(slots.push(slot)) == population(slots) + if slot is Some {
            1nat
        } else {
            0nat
        },
{
    assert(slots.push(slot).drop_last() =~= slots);
}

/// The population after a slot is overwritten.
pub proof fn population_update(slots: Slots, at: int, slot: Option<HeapObjectView>)
    requires
        0 <= at < slots.len(),
    ensures
        population(slots.update(at, slot)) + (if slots[at] is Some {
            1nat
        } else {
            0nat
        }) == population(slots) + if slot is Some {
            1nat
        } else {
            0nat
        },
    decreases slots.len(),
{
    let after = slots.update(at, slot);
    if at == slots.len() - 1 {
        assert(after.drop_last() =~= slots.drop_last());
    } else {
        population_update(slots.drop_last(), at, slot);
        assert(after.drop_last() =~= slots.drop_last().update(at, slot));
    }
}

/// The population never exceeds the number of slots.
pub proof fn population_bound(slots: Slots)
    ensures
        population(slots) <= slots.len(),
    decreases slots.len(),
{
    if slots.len() > 0 {
        population_bound(slots.drop_last());
    }
}

/// The value of the field `name` of the record that `pointer` refers to, if there is such a
/// record and it has such a field.
pub open spec fn field_of(slots: Slots, pointer: Pointer, name: Seq<char>) -> Option<ValueView> {
    if alive(slots, pointer) && has(slots[pointer.slot as int]->0.data, name) {
        let data = slots[pointer.slot as int]->0.data;
        Some(data[position(data, name)].1)
    } else {
        None
    }
}

/// The slots after the field `name` of the record that `pointer` refers to is set to `value`.
/// A pointer to nothing changes nothing.
pub open spec fn written(slots: Slots, pointer: Pointer, name: Seq<char>, value: ValueView) -> Slots {
    if alive(slots, pointer) {
        let object = slots[pointer.slot as int]->0;
        slots.update(
            pointer.slot as int,
            Some(HeapObjectView { data: with(object.data, name, value), ..object }),
        )
    } else {
        slots
    }
}

/// Whether the record that `from` refers to holds a reference to `to` in one of its fields.
pub open spec fn refers(slots: Slots, from: Pointer, to: Pointer) -> bool {
    alive(slots, from) && references(slots[from.slot as int]->0.data).contains(to)
}

/// Whether `route` leads from record to record through field references, every stop alive.
pub open spec fn connected(slots: Slots, route: Seq<Pointer>) -> bool {
    &&& route.len() > 0
    &&& forall|i: int| 0 <= i < route.len() ==> alive(slots, #[trigger] route[i])
    &&& forall|i: int| 0 <= i < route.len() - 1 ==> refers(slots, #[trigger] route[i], route[i + 1])
}

/// Whether a chain of field references leads from one of `roots` to the record that `pointer`
/// refers to.
pub open spec fn reachable(slots: Slots, roots: Seq<Pointer>, pointer: Pointer) -> bool {
    exists|route: Seq<Pointer>|
        #[trigger] connected(slots, route) && roots.contains(route[0]) && route.last() == pointer
}

/// The slots after a collection from `roots`: the records that are reachable stay, unmarked,
/// and every other slot is empty.
pub open spec fn collected(slots: Slots, roots: Seq<Pointer>) -> Slots {
    Seq::new(
        slots.len(),
        |i: int|
            if 0 <= i < slots.len() && slots[i] is Some && reachable(
                slots,
                roots,
                Pointer { slot: i as usize },
            ) {
                Some(HeapObjectView { marked: false, ..slots[i]->0 })
            } else {
                None
            },
    )
}

/// Whether no record is marked.
pub open spec fn unmarked(slots: Slots) -> bool {
    forall|i: int| 0 <= i < slots.len() && slots[i] is Some ==> !(#[trigger] slots[i])->0.marked
}

/// A root that is alive is reachable.
pub proof fn root_is_reachable(slots: Slots, roots: Seq<Pointer>, root: Pointer)
    requires
        roots.contains(root),
        alive(slots, root),
    ensures
        reachable(slots, roots, root),
{
    let route = seq![root];
    assert(connected(slots, route));
}

/// What a reachable record refers to is reachable, if it is alive.
pub proof fn reference_is_reachable(slots: Slots, roots: Seq<Pointer>, from: Pointer, to: Pointer)
    requires
        reachable(slots, roots, from),
        refers(slots, from, to),
        alive(slots, to),
    ensures
        reachable(slots, roots, to),
{
    let route = choose|route: Seq<Pointer>|
        #[trigger] connected(slots, route) && roots.contains(route[0]) && route.last() == from;
    let longer = route.push(to);
    assert forall|i: int| 0 <= i < longer.len() - 1 implies refers(
        slots,
        #[trigger] longer[i],
        longer[i + 1],
    ) by {
        if i < route.len() - 1 {
            assert(longer[i] == route[i]);
            assert(longer[i + 1] == route[i + 1]);
        }
    }
    assert forall|i: int| 0 <= i < longer.len() implies alive(slots, #[trigger] longer[i]) by {
        if i < route.len() {
            assert(longer[i] == route[i]);
        }
    }
    assert(connected(slots, longer));
    assert(longer[0] == route[0]);
}

/// A set of records that holds every live root, and with each record all that it refers to,
/// holds every reachable record.
pub proof fn closed_set_holds_reachable(
    slots: Slots,
    roots: Seq<Pointer>,
    inside: spec_fn(Pointer) -> bool,
    pointer: Pointer,
)
    requires
        forall|root: Pointer| roots.contains(root) && alive(slots, root) ==> #[trigger] inside(root),
        forall|from: Pointer, to: Pointer|
            inside(from) && #[trigger] refers(slots, from, to) && alive(slots, to) ==> inside(to),
        reachable(slots, roots, pointer),
    ensures
        inside(pointer),
{
    let route = choose|route: Seq<Pointer>|
        #[trigger] connected(slots, route) && roots.contains(route[0]) && route.last() == pointer;
    route_stays_inside(slots, roots, inside, route, route.len() - 1);
}

/// Every stop of a route from a root lies in a closed set.
proof fn route_stays_inside(
    slots: Slots,
    roots: Seq<Pointer>,
    inside: spec_fn(Pointer) -> bool,
    route: Seq<Pointer>,
    stop: int,
)
    requires
        forall|root: Pointer| roots.contains(root) && alive(slots, root) ==> #[trigger] inside(root),
        forall|from: Pointer, to: Pointer|
            inside(from) && #[trigger] refers(slots, from, to) && alive(slots, to) ==> inside(to),
        connected(slots, route),
        roots.contains(route[0]),
        0 <= stop < route.len(),
    ensures
        inside(route[stop]),
    decreases stop,
{
    if stop == 0 {
        assert(alive(slots, route[0]));
    } else {
        route_stays_inside(slots, roots, inside, route, stop - 1);
        assert(refers(slots, route[stop - 1], route[stop - 1 + 1]));
        assert(alive(slots, route[stop]));
    }
}

/// Whether `after` is `before` with slots added at the end, each filled, unmarked and owned,
/// and with nothing of the old slots changed but their counts of owners.
pub open spec fn grown(before: Slots, after: Slots) -> bool {
    &&& before.len() <= after.len()
    &&& forall|i: int|
        0 <= i < before.len() ==> (#[trigger] after[i] is Some) == (before[i] is Some)
    &&& forall|i: int|
        0 <= i < before.len() && before[i] is Some ==> (#[trigger] after[i])->0.data
            == before[i]->0.data && after[i]->0.marked == before[i]->0.marked
    &&& forall|i: int|
        before.len() <= i < after.len() ==> (#[trigger] after[i]) is Some && !after[i]->0.marked
}

/// Counting an owner changes a count and nothing else.
pub proof fn retained_grows(slots: Slots, pointer: Pointer)
    ensures
        grown(slots, retained(slots, pointer)),
        retained(slots, pointer).len() == slots.len(),
        population(retained(slots, pointer)) == population(slots),
{
    if alive(slots, pointer) && slots[pointer.slot as int]->0.reference_count < usize::MAX {
        let object = slots[pointer.slot as int]->0;
        population_update(
            slots,
            pointer.slot as int,
            Some(
                HeapObjectView { reference_count: (object.reference_count + 1) as usize, ..object },
            ),
        );
    }
}

/// Promoting the nested literals of `fields` adds one record for each of them and frees none.
pub proof fn promoted_grows(slots: Slots, fields: Fields, counting: bool)
    ensures
        grown(slots, promoted(slots, fields, counting).0),
        promoted(slots, fields, counting).0.len() + 1 == slots.len() + records(fields),
        population(promoted(slots, fields, counting).0) + 1 == population(slots) + records(fields),
        promoted(slots, fields, counting).1.len() == fields.len(),
        !counting ==> promoted(slots, fields, counting).0.take(slots.len() as int) == slots,
    decreases fields, 0nat,
{
    if fields.len() > 0 {
        promoted_grows(slots, fields.drop_last(), counting);
        let (before, done) = promoted(slots, fields.drop_last(), counting);
        match fields.last().1 {
            ValueView::Object(inner) => {
                placed_grows(before, inner, counting);
                let after = placed(before, inner, counting).0;
                if !counting {
                    assert(after.take(slots.len() as int) =~= before.take(slots.len() as int));
                }
            },
            ValueView::ObjectReference(pointer) => {
                if counting {
                    retained_grows(before, pointer);
                }
            },
            _ => {},
        }
    } else {
        assert(slots.take(slots.len() as int) =~= slots);
    }
}

/// Allocating a record adds a record for it and for each literal nested in it, and frees none.
pub proof fn placed_grows(slots: Slots, fields: Fields, counting: bool)
    ensures
        grown(slots, placed(slots, fields, counting).0),
        placed(slots, fields, counting).0.len() == slots.len() + records(fields),
        population(placed(slots, fields, counting).0) == population(slots) + records(fields),
        !counting ==> placed(slots, fields, counting).0.take(slots.len() as int) == slots,
        placed(slots, fields, counting).0.last() is Some,
    decreases fields, 1nat,
{
    promoted_grows(slots, fields, counting);
    let (before, data) = promoted(slots, fields, counting);
    let object = Some(HeapObjectView { data, marked: false, reference_count: 1 });
    population_push(before, object);
    if !counting {
        assert(before.push(object).take(slots.len() as int) =~= before.take(slots.len() as int));
    }
}

/// Whether every record has an owner.
pub open spec fn owned(slots: Slots) -> bool {
    forall|i: int|
        0 <= i < slots.len() && slots[i] is Some ==> (#[trigger] slots[i])->0.reference_count >= 1
}

/// Promoting literals leaves every record with an owner.
pub proof fn promoted_stays_owned(slots: Slots, fields: Fields, counting: bool)
    requires
        owned(slots),
    ensures
        owned(promoted(slots, fields, counting).0),
    decreases fields, 0nat,
{
    if fields.len() > 0 {
        promoted_stays_owned(slots, fields.drop_last(), counting);
        let before = promoted(slots, fields.drop_last(), counting).0;
        match fields.last().1 {
            ValueView::Object(inner) => {
                placed_stays_owned(before, inner, counting);
            },
            ValueView::ObjectReference(pointer) => {
                let after = retained(before, pointer);
                assert forall|i: int| 0 <= i < after.len() && after[i] is Some implies (
                #[trigger] after[i])->0.reference_count >= 1 by {
                    assert(before[i] is Some);
                }
            },
            _ => {},
        }
    }
}

/// Allocating a record leaves every record with an owner.
pub proof fn placed_stays_owned(slots: Slots, fields: Fields, counting: bool)
    requires
        owned(slots),
    ensures
        owned(placed(slots, fields, counting).0),
    decreases fields, 1nat,
{
    promoted_stays_owned(slots, fields, counting);
    let before = promoted(slots, fields, counting).0;
    let after = placed(slots, fields, counting).0;
    assert forall|i: int| 0 <= i < after.len() && after[i] is Some implies (
    #[trigger] after[i])->0.reference_count >= 1 by {
        if i < before.len() {
            assert(before[i] is Some);
        }
    }
}

/// Counting an owner leaves every record with an owner.
pub proof fn retained_stays_owned(slots: Slots, pointer: Pointer)
    requires
        owned(slots),
    ensures
        owned(retained(slots, pointer)),
{
    let after = retained(slots, pointer);
    assert forall|i: int| 0 <= i < after.len() && after[i] is Some implies (
    #[trigger] after[i])->0.reference_count >= 1 by {
        assert(slots[i] is Some);
    }
}

/// Giving up references leaves every record that stays with an owner.
pub proof fn released_stays_owned(slots: Slots, pending: Seq<Pointer>)
    requires
        owned(slots),
    ensures
        owned(released(slots, pending)),
    decreases population(slots), pending.len(),
{
    if pending.len() > 0 {
        let pointer = pending.last();
        let rest = pending.drop_last();
        if !alive(slots, pointer) {
            released_stays_owned(slots, rest);
        } else {
            let object = slots[pointer.slot as int]->0;
            if object.reference_count == usize::MAX {
                released_stays_owned(slots, rest);
            } else if object.reference_count > 1 {
                let fewer = Some(
                    HeapObjectView {
                        reference_count: (object.reference_count - 1) as usize,
                        ..object
                    },
                );
                let after = slots.update(pointer.slot as int, fewer);
                population_update(slots, pointer.slot as int, fewer);
                assert forall|i: int| 0 <= i < after.len() && after[i] is Some implies (
                #[trigger] after[i])->0.reference_count >= 1 by {
                    assert(slots[i] is Some);
                }
                released_stays_owned(after, rest);
            } else {
                let after = slots.update(pointer.slot as int, None);
                population_update(slots, pointer.slot as int, None);
                assert forall|i: int| 0 <= i < after.len() && after[i] is Some implies (
                #[trigger] after[i])->0.reference_count >= 1 by {
                    assert(slots[i] is Some);
                }
                released_stays_owned(after, rest + references(object.data));
            }
        }
    }
}

/// Writing a field leaves every record with an owner.
pub proof fn written_stays_owned(slots: Slots, pointer: Pointer, name: Seq<char>, value: ValueView)
    requires
        owned(slots),
    ensures
        owned(written(slots, pointer, name, value)),
{
    let after = written(slots, pointer, name, value);
    assert forall|i: int| 0 <= i < after.len() && after[i] is Some implies (
    #[trigger] after[i])->0.reference_count >= 1 by {
        assert(slots[i] is Some);
    }
}

} // verus!
