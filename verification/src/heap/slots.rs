//! The slot table that the three heap strategies share.

use crate::heap::model::{
    alive, field_of, placed, population, population_bound, population_push, population_update,
    promoted, reachable, references, refers, released, retained, written, HeapObjectView, Slots,
};
use crate::table::{find, names, stored_names, with};
use crate::value::{fields_view, Object, Pointer, Value};
use vstd::prelude::*;

verus! {

/// A record on the heap, with what the strategies keep beside it.
pub struct HeapObject {
    pub data: Object,
    /// Set while a collection has found the record reachable. Only the tracing strategy uses it.
    pub marked: bool,
    /// The number of owners of the record. Only the counting strategy uses it.
    pub reference_count: usize,
}

impl View for HeapObject {
    type V = HeapObjectView;

    open spec fn view(&self) -> HeapObjectView {
        HeapObjectView {
            data: fields_view(self.data@),
            marked: self.marked,
            reference_count: self.reference_count,
        }
    }
}

/// What a stored slot stands for.
pub open spec fn slot_view(slot: Option<HeapObject>) -> Option<HeapObjectView> {
    match slot {
        Some(object) => Some(object@),
        None => None,
    }
}

/// The slots of a heap. A record keeps its slot for as long as it lives, and a slot that has
/// been emptied is never filled again.
pub struct SlotTable {
    slots: Vec<Option<HeapObject>>,
    live: usize,
}

impl View for SlotTable {
    type V = Slots;

    closed spec fn view(&self) -> Slots {
        Seq::new(self.slots@.len(), |i: int| slot_view(self.slots@[i]))
    }
}

impl SlotTable {
    /// The table counts its records correctly.
    pub closed spec fn well_formed(&self) -> bool {
        self.live == population(self@)
    }

    /// Creates a table without slots.
    pub fn new() -> (table: Self)
        ensures
            table@ == Slots::empty(),
            table.well_formed(),
    {
        let table = SlotTable { slots: Vec::new(), live: 0 };
        assert(table@ =~= Slots::empty());
        table
    }

    /// The number of slots, filled or emptied.
    pub fn len(&self) -> (len: usize)
        ensures
            len == self@.len(),
    {
        self.slots.len()
    }

    /// The number of records.
    pub fn count(&self) -> (count: usize)
        requires
            self.well_formed(),
        ensures
            count == population(self@),
    {
        self.live
    }

    /// Whether `pointer` refers to a record.
    pub fn holds(&self, pointer: Pointer) -> (answer: bool)
        ensures
            answer == alive(self@, pointer),
    {
        pointer.slot < self.slots.len() && self.slots[pointer.slot].is_some()
    }

    /// The record that `pointer` refers to.
    pub fn object(&self, pointer: Pointer) -> (object: &HeapObject)
        requires
            alive(self@, pointer),
        ensures
            object@ == self@[pointer.slot as int]->0,
    {
        self.slots[pointer.slot].as_ref().unwrap()
    }

    /// Puts a record in a fresh slot at the end.
    pub fn push(&mut self, object: HeapObject) -> (pointer: Pointer)
        requires
            old(self).well_formed(),
        ensures
            final(self).well_formed(),
            final(self)@ == old(self)@.push(Some(object@)),
            pointer.slot == old(self)@.len(),
    {
        proof {
            population_push(self@, Some(object@));
            population_bound(self@);
        }
        let pointer = Pointer { slot: self.slots.len() };
        self.slots.push(Some(object));
        assert(self@ =~= old(self)@.push(Some(object@)));
        proof {
            population_bound(self@);
            assert(self@.len() == self.slots.len());
        }
        self.live = self.live + 1;
        pointer
    }

    /// Takes the record out of its slot, which stays empty.
    pub fn take(&mut self, pointer: Pointer) -> (object: HeapObject)
        requires
            old(self).well_formed(),
            alive(old(self)@, pointer),
        ensures
            final(self).well_formed(),
            final(self)@ == old(self)@.update(pointer.slot as int, None),
            object@ == old(self)@[pointer.slot as int]->0,
    {
        proof {
            population_update(self@, pointer.slot as int, None);
        }
        let taken = self.slots[pointer.slot].take();
        assert(self@ =~= old(self)@.update(pointer.slot as int, None));
        self.live = self.live - 1;
        taken.unwrap()
    }

    /// Sets the number of owners of a record.
    pub fn set_count(&mut self, pointer: Pointer, count: usize)
        requires
            old(self).well_formed(),
            alive(old(self)@, pointer),
        ensures
            final(self).well_formed(),
            final(self)@ == old(self)@.update(
                pointer.slot as int,
                Some(
                    HeapObjectView {
                        reference_count: count,
                        ..old(self)@[pointer.slot as int]->0
                    },
                ),
            ),
    {
        proof {
            population_update(
                self@,
                pointer.slot as int,
                Some(HeapObjectView { reference_count: count, ..self@[pointer.slot as int]->0 }),
            );
        }
        match &mut self.slots[pointer.slot] {
            Some(object) => {
                object.reference_count = count;
            },
            None => {},
        }
        assert(self@ =~= old(self)@.update(
            pointer.slot as int,
            Some(
                HeapObjectView { reference_count: count, ..old(self)@[pointer.slot as int]->0 },
            ),
        ));
    }

    /// Sets or clears the mark of a record.
    pub fn set_marked(&mut self, pointer: Pointer, marked: bool)
        requires
            old(self).well_formed(),
            alive(old(self)@, pointer),
        ensures
            final(self).well_formed(),
            final(self)@ == old(self)@.update(
                pointer.slot as int,
                Some(HeapObjectView { marked, ..old(self)@[pointer.slot as int]->0 }),
            ),
    {
        proof {
            population_update(
                self@,
                pointer.slot as int,
                Some(HeapObjectView { marked, ..self@[pointer.slot as int]->0 }),
            );
        }
        match &mut self.slots[pointer.slot] {
            Some(object) => {
                object.marked = marked;
            },
            None => {},
        }
        assert(self@ =~= old(self)@.update(
            pointer.slot as int,
            Some(HeapObjectView { marked, ..old(self)@[pointer.slot as int]->0 }),
        ));
    }

    /// Counts one more owner of the record that `pointer` refers to.
    pub fn retain(&mut self, pointer: Pointer)
        requires
            old(self).well_formed(),
        ensures
            final(self).well_formed(),
            final(self)@ == retained(old(self)@, pointer),
    {
        if self.holds(pointer) {
            let count = self.object(pointer).reference_count;
            if count < usize::MAX {
                self.set_count(pointer, count + 1);
            }
        }
    }

    /// Puts a record with the fields `data` on the heap, its nested record literals first.
    pub fn allocate(&mut self, data: Object, counting: bool) -> (pointer: Pointer)
        requires
            old(self).well_formed(),
        ensures
            final(self).well_formed(),
            (final(self)@, pointer) == placed(old(self)@, fields_view(data@), counting),
        decreases data,
    {
        let ghost fields = fields_view(data@);
        let mut rest = data;
        let mut done: Object = Vec::new();
        let mut i: usize = 0;
        assert(fields.take(0) =~= Seq::empty());
        while i < rest.len()
            invariant
                self.well_formed(),
                i <= rest.len(),
                rest.len() == data.len(),
                fields == fields_view(data@),
                forall|j: int| i <= j < rest.len() ==> rest[j] == data[j],
                (self@, fields_view(done@)) == promoted(old(self)@, fields.take(i as int), counting),
            decreases rest.len() - i,
        {
            let mut entry = (String::new(), Value::Boolean(false));
            core::mem::swap(&mut rest[i], &mut entry);
            let (name, value) = entry;
            let ghost done_before = fields_view(done@);
            assert(fields.take(i + 1).drop_last() =~= fields.take(i as int));
            assert(fields.take(i + 1).last() == (name@, value@));
            proof {
                vstd::std_specs::vec::axiom_vec_index_decreases(data, i as int);
            }
            let value = match value {
                Value::Object(inner) => Value::ObjectReference(self.allocate(inner, counting)),
                Value::ObjectReference(pointer) => {
                    if counting {
                        self.retain(pointer);
                    }
                    Value::ObjectReference(pointer)
                },
                other => other,
            };
            done.push((name, value));
            assert(fields_view(done@) =~= done_before.push((name@, value@)));
            i += 1;
        }
        assert(fields.take(i as int) =~= fields);
        self.push(HeapObject { data: done, marked: false, reference_count: 1 })
    }

    /// Appends to `pending` the references that the record at `pointer` holds.
    pub fn push_references(&self, pointer: Pointer, pending: &mut Vec<Pointer>)
        requires
            alive(self@, pointer),
        ensures
            final(pending)@ == old(pending)@ + references(self@[pointer.slot as int]->0.data),
    {
        push_references_of(&self.object(pointer).data, pending)
    }
}

/// Appends to `pending` the references that the fields hold.
pub fn push_references_of(fields: &Object, pending: &mut Vec<Pointer>)
    ensures
        final(pending)@ == old(pending)@ + references(fields_view(fields@)),
{
    {
        let ghost all = fields_view(fields@);
        let mut i: usize = 0;
        assert(all.take(0) =~= Seq::empty());
        assert(pending@ =~= old(pending)@ + references(all.take(0)));
        while i < fields.len()
            invariant
                i <= fields.len(),
                all == fields_view(fields@),
                pending@ == old(pending)@ + references(all.take(i as int)),
            decreases fields.len() - i,
        {
            assert(all.take(i + 1).drop_last() =~= all.take(i as int));
            assert(all.take(i + 1).last() == all[i as int]);
            if let Value::ObjectReference(pointer) = &fields[i].1 {
                pending.push(*pointer);
                assert(pending@ =~= old(pending)@ + references(all.take(i + 1)));
            }
            i += 1;
        }
        assert(all.take(i as int) =~= all);
    }
}

impl SlotTable {
    /// Gives up one owner's reference to the record that `pointer` refers to. The record is
    /// freed with its last owner, and then gives up the references in its own fields.
    pub fn release(&mut self, pointer: Pointer)
        requires
            old(self).well_formed(),
        ensures
            final(self).well_formed(),
            final(self)@ == released(old(self)@, seq![pointer]),
    {
        let mut pending: Vec<Pointer> = Vec::new();
        pending.push(pointer);
        assert(pending@ =~= seq![pointer]);
        while pending.len() > 0
            invariant
                self.well_formed(),
                released(self@, pending@) == released(old(self)@, seq![pointer]),
            decreases population(self@), pending.len(),
        {
            let ghost before = pending@;
            let next = pending.pop().unwrap();
            assert(pending@ =~= before.drop_last());
            if self.holds(next) {
                let count = self.object(next).reference_count;
                if count == usize::MAX {
                } else if count > 1 {
                    proof {
                        population_update(
                            self@,
                            next.slot as int,
                            Some(
                                HeapObjectView {
                                    reference_count: (count - 1) as usize,
                                    ..self@[next.slot as int]->0
                                },
                            ),
                        );
                    }
                    self.set_count(next, count - 1);
                } else {
                    proof {
                        population_update(self@, next.slot as int, None);
                    }
                    let object = self.take(next);
                    push_references_of(&object.data, &mut pending);
                }
            }
        }
    }

    /// Reads a field of the record that `pointer` refers to.
    pub fn field(&self, pointer: Pointer, name: &String) -> (value: Option<Value>)
        ensures
            value is Some == field_of(self@, pointer, name@) is Some,
            value is Some ==> value->0@ == field_of(self@, pointer, name@)->0,
    {
        if !self.holds(pointer) {
            return None;
        }
        let object = self.object(pointer);
        assert(stored_names(object.data@) =~= names(fields_view(object.data@)));
        let at = find(&object.data, name);
        if at < object.data.len() {
            Some(object.data[at].1.clone())
        } else {
            None
        }
    }

    /// Sets a field of the record that `pointer` refers to, and hands back what the field held.
    pub fn set_field(&mut self, pointer: Pointer, name: String, value: Value) -> (previous: Option<
        Value,
    >)
        requires
            old(self).well_formed(),
            alive(old(self)@, pointer),
        ensures
            final(self).well_formed(),
            final(self)@ == written(old(self)@, pointer, name@, value@),
            previous is Some == field_of(old(self)@, pointer, name@) is Some,
            previous is Some ==> previous->0@ == field_of(old(self)@, pointer, name@)->0,
    {
        let ghost before = self@[pointer.slot as int]->0;
        proof {
            population_update(
                self@,
                pointer.slot as int,
                Some(HeapObjectView { data: with(before.data, name@, value@), ..before }),
            );
        }
        let mut previous: Option<Value> = None;
        match &mut self.slots[pointer.slot] {
            Some(object) => {
                assert(stored_names(object.data@) =~= names(fields_view(object.data@)));
                let at = find(&object.data, &name);
                if at < object.data.len() {
                    let mut entry = (name, value);
                    core::mem::swap(&mut object.data[at], &mut entry);
                    previous = Some(entry.1);
                    assert(fields_view(object.data@) =~= with(before.data, name@, value@));
                } else {
                    object.data.push((name, value));
                    assert(fields_view(object.data@) =~= with(before.data, name@, value@));
                }
            },
            None => {},
        }
        assert(self@ =~= written(old(self)@, pointer, name@, value@));
        previous
    }
}

} // verus!
