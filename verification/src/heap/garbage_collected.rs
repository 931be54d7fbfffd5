//! The tracing strategy: records stay until a collection finds them unreachable.

use crate::heap::model::{
    alive, closed_set_holds_reachable, collected, field_of, placed, placed_grows, population,
    reachable, reference_is_reachable, references, refers, root_is_reachable, unmarked, written,
    HeapObjectView, Slots,
};
use crate::heap::slots::{HeapObject, SlotTable};
use crate::value::{fields_view, Object, Pointer, Value};
use vstd::prelude::*;

verus! {

/// Whether the record that `pointer` refers to is marked.
pub open spec fn marked(slots: Slots, pointer: Pointer) -> bool {
    alive(slots, pointer) && slots[pointer.slot as int]->0.marked
}

/// Whether `now` is `start` with some marks set.
pub open spec fn marks_added(start: Slots, now: Slots) -> bool {
    &&& now.len() == start.len()
    &&& forall|i: int|
        0 <= i < start.len() ==> (#[trigger] now[i] is Some) == (start[i] is Some)
    &&& forall|i: int|
        0 <= i < start.len() && start[i] is Some ==> (#[trigger] now[i])->0 == (HeapObjectView {
            marked: now[i]->0.marked,
            ..start[i]->0
        })
}

/// The number of records that are not marked.
pub open spec fn unmarked_count(slots: Slots) -> nat
    decreases slots.len(),
{
    if slots.len() == 0 {
        0
    } else {
        unmarked_count(slots.drop_last()) + if slots.last() is Some && !slots.last()->0.marked {
            1nat
        } else {
            0nat
        }
    }
}

/// Marking a record that was not marked leaves one unmarked record fewer.
proof fn marking_counts_down(slots: Slots, at: int)
    requires
        0 <= at < slots.len(),
        slots[at] is Some,
        !slots[at]->0.marked,
    ensures
        unmarked_count(slots.update(at, Some(HeapObjectView { marked: true, ..slots[at]->0 }))) + 1
            == unmarked_count(slots),
    decreases slots.len(),
{
    let after = slots.update(at, Some(HeapObjectView { marked: true, ..slots[at]->0 }));
    if at == slots.len() - 1 {
        assert(after.drop_last() =~= slots.drop_last());
    } else {
        marking_counts_down(slots.drop_last(), at);
        assert(after.drop_last() =~= slots.drop_last().update(
            at,
            Some(HeapObjectView { marked: true, ..slots[at]->0 }),
        ));
    }
}

/// Whether a live record is either marked or waiting to be.
pub open spec fn covered(now: Slots, pending: Seq<Pointer>, pointer: Pointer) -> bool {
    alive(now, pointer) ==> marked(now, pointer) || pending.contains(pointer)
}

/// What holds while the reachable records are being marked.
pub open spec fn marking(start: Slots, roots: Seq<Pointer>, now: Slots, pending: Seq<Pointer>) -> bool {
    &&& marks_added(start, now)
    &&& forall|pointer: Pointer| #[trigger]
        marked(now, pointer) ==> reachable(start, roots, pointer)
    &&& forall|i: int|
        0 <= i < pending.len() && alive(start, #[trigger] pending[i]) ==> reachable(
            start,
            roots,
            pending[i],
        )
    &&& forall|root: Pointer| roots.contains(root) ==> #[trigger] covered(now, pending, root)
    &&& forall|from: Pointer, to: Pointer|
        marked(now, from) && #[trigger] refers(start, from, to) ==> covered(now, pending, to)
}

/// Dropping a pointer that needs no visit keeps the marking going.
proof fn marking_skips(start: Slots, roots: Seq<Pointer>, now: Slots, pending: Seq<Pointer>)
    requires
        marking(start, roots, now, pending),
        pending.len() > 0,
        !alive(now, pending.last()) || marked(now, pending.last()),
    ensures
        marking(start, roots, now, pending.drop_last()),
{
    let rest = pending.drop_last();
    assert forall|pointer: Pointer| covered(now, pending, pointer) implies covered(
        now,
        rest,
        pointer,
    ) by {
        if alive(now, pointer) && !marked(now, pointer) {
            let i = choose|i: int| 0 <= i < pending.len() && pending[i] == pointer;
            assert(rest[i] == pointer);
        }
    }
    assert forall|i: int| 0 <= i < rest.len() && alive(start, #[trigger] rest[i]) implies reachable(
        start,
        roots,
        rest[i],
    ) by {
        assert(rest[i] == pending[i]);
    }
}

/// Marking the last pending record, and queueing what it refers to, keeps the marking going.
proof fn marking_visits(start: Slots, roots: Seq<Pointer>, now: Slots, pending: Seq<Pointer>)
    requires
        marking(start, roots, now, pending),
        pending.len() > 0,
        alive(now, pending.last()),
        !marked(now, pending.last()),
    ensures
        marking(
            start,
            roots,
            now.update(
                pending.last().slot as int,
                Some(HeapObjectView { marked: true, ..now[pending.last().slot as int]->0 }),
            ),
            pending.drop_last() + references(now[pending.last().slot as int]->0.data),
        ),
{
    let visited = pending.last();
    let object = now[visited.slot as int]->0;
    let after = now.update(visited.slot as int, Some(HeapObjectView { marked: true, ..object }));
    let queue = pending.drop_last() + references(object.data);
    assert(alive(start, visited));
    assert(pending[pending.len() - 1] == visited);
    assert(reachable(start, roots, visited));
    assert(object.data == start[visited.slot as int]->0.data);
    assert forall|pointer: Pointer| #[trigger] marked(after, pointer) implies reachable(
        start,
        roots,
        pointer,
    ) by {
        if pointer.slot != visited.slot {
            assert(marked(now, pointer));
        }
    }
    assert forall|i: int| 0 <= i < queue.len() && alive(start, #[trigger] queue[i]) implies reachable(
        start,
        roots,
        queue[i],
    ) by {
        if i < pending.len() - 1 {
            assert(queue[i] == pending[i]);
        } else {
            let to = queue[i];
            assert(to == references(object.data)[i - (pending.len() - 1)]);
            assert(refers(start, visited, to));
            reference_is_reachable(start, roots, visited, to);
        }
    }
    assert forall|pointer: Pointer| covered(now, pending, pointer) implies covered(
        after,
        queue,
        pointer,
    ) by {
        if alive(after, pointer) && !marked(after, pointer) {
            assert(alive(now, pointer) && !marked(now, pointer));
            let i = choose|i: int| 0 <= i < pending.len() && pending[i] == pointer;
            assert(pointer.slot != visited.slot);
            assert(queue[i] == pointer);
        }
    }
    assert forall|from: Pointer, to: Pointer|
        marked(after, from) && #[trigger] refers(start, from, to) implies covered(
        after,
        queue,
        to,
    ) by {
        if from.slot == visited.slot {
            let i = choose|i: int|
                0 <= i < references(object.data).len() && references(object.data)[i] == to;
            assert(queue[pending.len() - 1 + i] == to);
        } else {
            assert(marked(now, from));
            assert(covered(now, pending, to));
        }
    }
    assert(marks_added(start, after));
}

/// When nothing is pending, exactly the reachable records are marked.
proof fn marking_done(start: Slots, roots: Seq<Pointer>, now: Slots, pointer: Pointer)
    requires
        marking(start, roots, now, Seq::empty()),
        alive(start, pointer),
    ensures
        marked(now, pointer) == reachable(start, roots, pointer),
{
    if reachable(start, roots, pointer) {
        let inside = |pointer: Pointer| marked(now, pointer);
        assert forall|root: Pointer| roots.contains(root) && alive(start, root) implies #[trigger] inside(
            root,
        ) by {
            assert(covered(now, Seq::empty(), root));
        }
        assert forall|from: Pointer, to: Pointer|
            inside(from) && #[trigger] refers(start, from, to) && alive(start, to) implies inside(
            to,
        ) by {
            assert(covered(now, Seq::empty(), to));
        }
        closed_set_holds_reachable(start, roots, inside, pointer);
    }
}

/// A heap whose records stay until a collection finds them unreachable.
pub struct GarbageCollectedHeap {
    heap: SlotTable,
}

impl View for GarbageCollectedHeap {
    type V = Slots;

    closed spec fn view(&self) -> Slots {
        self.heap@
    }
}

impl GarbageCollectedHeap {
    /// Between collections no record is marked.
    pub closed spec fn well_formed(&self) -> bool {
        self.heap.well_formed() && unmarked(self.heap@)
    }

    /// Creates an empty heap.
    pub fn new() -> (heap: Self)
        ensures
            heap.well_formed(),
            heap@ == Slots::empty(),
    {
        Self { heap: SlotTable::new() }
    }

    /// Puts a record on the heap, its nested record literals first, each in a slot of its own.
    pub fn allocate(&mut self, data: Object) -> (pointer: Pointer)
        requires
            old(self).well_formed(),
        ensures
            final(self).well_formed(),
            (final(self)@, pointer) == placed(old(self)@, fields_view(data@), false),
    {
        proof {
            placed_grows(self@, fields_view(data@), false);
        }
        self.heap.allocate(data, false)
    }

    /// Marks every record that is reachable from `roots`.
    fn traverse(&mut self, roots: &[Pointer])
        requires
            old(self).heap.well_formed(),
            unmarked(old(self)@),
        ensures
            final(self).heap.well_formed(),
            marking(old(self)@, roots@, final(self)@, Seq::empty()),
    {
        let ghost start = self@;
        let mut pending: Vec<Pointer> = Vec::new();
        let mut i: usize = 0;
        while i < roots.len()
            invariant
                i <= roots.len(),
                pending@ == roots@.take(i as int),
            decreases roots.len() - i,
        {
            pending.push(roots[i]);
            assert(pending@ =~= roots@.take(i + 1));
            i += 1;
        }
        assert(pending@ =~= roots@);
        proof {
            assert forall|i: int|
                0 <= i < pending@.len() && alive(start, #[trigger] pending@[i]) implies reachable(
                start,
                roots@,
                pending@[i],
            ) by {
                root_is_reachable(start, roots@, pending@[i]);
            }
        }
        while pending.len() > 0
            invariant
                self.heap.well_formed(),
                marking(start, roots@, self@, pending@),
            decreases unmarked_count(self@), pending.len(),
        {
            let ghost before = pending@;
            let ghost now = self@;
            let next = pending.pop().unwrap();
            assert(pending@ =~= before.drop_last());
            if self.heap.holds(next) && !self.heap.object(next).marked {
                proof {
                    marking_visits(start, roots@, now, before);
                    marking_counts_down(now, next.slot as int);
                }
                self.heap.set_marked(next, true);
                self.heap.push_references(next, &mut pending);
            } else {
                proof {
                    marking_skips(start, roots@, now, before);
                }
            }
        }
        assert(pending@ =~= Seq::empty());
    }

    /// Collects: frees every record that no chain of field references reaches from `roots`.
    pub fn manage(&mut self, roots: &[Pointer])
        requires
            old(self).well_formed(),
        ensures
            final(self).well_formed(),
            final(self)@ == collected(old(self)@, roots@),
    {
        let ghost start = self@;
        let total = self.heap.len();
        self.traverse(roots);
        let ghost traced = self@;
        proof {
            assert forall|i: int| 0 <= i < start.len() && start[i] is Some implies (#[trigger] traced[i])->0.marked
                == reachable(start, roots@, Pointer { slot: i as usize }) by {
                marking_done(start, roots@, traced, Pointer { slot: i as usize });
            }
        }
        let mut i: usize = 0;
        while i < total
            invariant
                self.heap.well_formed(),
                i <= self@.len(),
                total == start.len(),
                self@.len() == start.len(),
                traced.len() == start.len(),
                marks_added(start, traced),
                forall|j: int|
                    0 <= j < start.len() && start[j] is Some ==> (#[trigger] traced[j])->0.marked
                        == reachable(start, roots@, Pointer { slot: j as usize }),
                forall|j: int| 0 <= j < i ==> #[trigger] self@[j] == collected(start, roots@)[j],
                forall|j: int| i <= j < start.len() ==> #[trigger] self@[j] == traced[j],
            decreases self@.len() - i,
        {
            let pointer = Pointer { slot: i };
            if self.heap.holds(pointer) {
                assert(traced[i as int] is Some);
                if self.heap.object(pointer).marked {
                    self.heap.set_marked(pointer, false);
                } else {
                    let _ = self.heap.take(pointer);
                }
            }
            i += 1;
        }
        assert(self@ =~= collected(start, roots@));
    }

    /// Whether `pointer` refers to a record.
    pub fn contains(&self, pointer: Pointer) -> (answer: bool)
        ensures
            answer == alive(self@, pointer),
    {
        self.heap.holds(pointer)
    }

    /// Reads a field of the record that `pointer` refers to.
    pub fn field(&self, pointer: Pointer, name: &String) -> (value: Option<Value>)
        ensures
            value is Some == field_of(self@, pointer, name@) is Some,
            value is Some ==> value->0@ == field_of(self@, pointer, name@)->0,
    {
        self.heap.field(pointer, name)
    }

    /// Sets a field of the record that `pointer` refers to, and hands back what the field held.
    /// No owner is counted or given up.
    pub fn set_field(&mut self, pointer: Pointer, name: String, value: Value) -> (previous: Option<
        Value,
    >)
        requires
            old(self).well_formed(),
            alive(old(self)@, pointer),
        ensures
            final(self).well_formed(),
            final(self)@ == written(old(self)@, pointer, name@, value@),
            previous is Some == field_of(old(self)@, pointer, name@) is Some,
            previous is Some ==> previous->0@ == field_of(old(self)@, pointer, name@)->0,
    {
        let previous = self.heap.set_field(pointer, name, value);
        assert(unmarked(self.heap@));
        previous
    }

    /// The record that `pointer` refers to, with its mark and its count of owners.
    pub fn object(&self, pointer: Pointer) -> (object: Option<&HeapObject>)
        ensures
            object is Some == alive(self@, pointer),
            object is Some ==> object->0@ == self@[pointer.slot as int]->0,
    {
        if self.heap.holds(pointer) {
            Some(self.heap.object(pointer))
        } else {
            None
        }
    }

    /// The number of records on the heap.
    pub fn objects_count(&self) -> (count: usize)
        requires
            self.well_formed(),
        ensures
            count == population(self@),
    {
        self.heap.count()
    }
}

} // verus!
