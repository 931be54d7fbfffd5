//! The counting strategy: a record is freed when its last owner gives it up.

use crate::heap::model::{
    alive, field_of, owned, placed, placed_stays_owned, population, released,
    released_stays_owned, retained, retained_stays_owned, written, written_stays_owned, Slots,
};
use crate::heap::slots::{HeapObject, SlotTable};
use crate::value::{fields_view, Object, Pointer, Value, ValueView};
use vstd::layout::size_of;
use vstd::prelude::*;

verus! {

/// A heap that counts the owners of each record, and frees a record with its last owner.
pub struct ReferenceCountedHeap {
    pub(crate) heap: SlotTable,
}

impl View for ReferenceCountedHeap {
    type V = Slots;

    closed spec fn view(&self) -> Slots {
        self.heap@
    }
}

/// The slots after the owner of `value` gives it up, where `value` is a reference.
pub open spec fn given_up(slots: Slots, value: ValueView) -> Slots {
    match value {
        ValueView::ObjectReference(pointer) => released(slots, seq![pointer]),
        _ => slots,
    }
}

/// The slots after `value` gains an owner, where `value` is a reference.
pub open spec fn taken_up(slots: Slots, value: ValueView) -> Slots {
    match value {
        ValueView::ObjectReference(pointer) => retained(slots, pointer),
        _ => slots,
    }
}

impl ReferenceCountedHeap {
    /// Every record has an owner.
    pub closed spec fn well_formed(&self) -> bool {
        self.heap.well_formed() && owned(self.heap@)
    }

    /// A heap that is well formed holds no record without an owner.
    pub proof fn every_record_is_owned(&self)
        requires
            self.well_formed(),
        ensures
            owned(self@),
    {
    }

    /// Creates an empty heap.
    pub fn new() -> (heap: Self)
        ensures
            heap.well_formed(),
            heap@ == Slots::empty(),
    {
        Self { heap: SlotTable::new() }
    }

    /// Puts a record on the heap with one owner, its nested record literals first. Each
    /// reference among the fields gains an owner: the new record.
    pub fn allocate(&mut self, data: Object) -> (pointer: Pointer)
        requires
            old(self).well_formed(),
        ensures
            final(self).well_formed(),
            (final(self)@, pointer) == placed(old(self)@, fields_view(data@), true),
    {
        proof {
            placed_stays_owned(self@, fields_view(data@), true);
        }
        self.heap.allocate(data, true)
    }

    /// Counts one more owner of the record, and of that record only.
    pub fn increment(&mut self, object: Pointer)
        requires
            old(self).well_formed(),
        ensures
            final(self).well_formed(),
            final(self)@ == retained(old(self)@, object),
    {
        proof {
            retained_stays_owned(self@, object);
        }
        self.heap.retain(object)
    }

    /// Counts one owner of the record fewer. With its last owner the record is freed, and
    /// every reference in its fields loses an owner in turn.
    pub fn decrement(&mut self, object: Pointer)
        requires
            old(self).well_formed(),
        ensures
            final(self).well_formed(),
            final(self)@ == released(old(self)@, seq![object]),
    {
        proof {
            released_stays_owned(self@, seq![object]);
        }
        self.heap.release(object)
    }

    /// Counts one owner fewer of what `value` refers to, where it is a reference.
    pub fn conditionally_decrement(&mut self, value: Value)
        requires
            old(self).well_formed(),
        ensures
            final(self).well_formed(),
            final(self)@ == given_up(old(self)@, value@),
    {
        if let Value::ObjectReference(pointer) = value {
            self.decrement(pointer);
        }
    }

    /// Whether `pointer` refers to a record.
    pub fn contains(&self, pointer: Pointer) -> (answer: bool)
        ensures
            answer == alive(self@, pointer),
    {
        self.heap.holds(pointer)
    }

    /// Reads a field of the record that `pointer` refers to.
    pub fn field(&self, pointer: Pointer, name: &String) -> (value: Option<Value>)
        ensures
            value is Some == field_of(self@, pointer, name@) is Some,
            value is Some ==> value->0@ == field_of(self@, pointer, name@)->0,
    {
        self.heap.field(pointer, name)
    }

    /// Sets a field of the record that `pointer` refers to, and hands back what the field held.
    /// No owner is counted or given up.
    pub fn set_field(&mut self, pointer: Pointer, name: String, value: Value) -> (previous: Option<
        Value,
    >)
        requires
            old(self).well_formed(),
            alive(old(self)@, pointer),
        ensures
            final(self).well_formed(),
            final(self)@ == written(old(self)@, pointer, name@, value@),
            previous is Some == field_of(old(self)@, pointer, name@) is Some,
            previous is Some ==> previous->0@ == field_of(old(self)@, pointer, name@)->0,
    {
        proof {
            written_stays_owned(self@, pointer, name@, value@);
        }
        self.heap.set_field(pointer, name, value)
    }

    /// The record that `pointer` refers to, with its mark and its count of owners.
    pub fn object(&self, pointer: Pointer) -> (object: Option<&HeapObject>)
        ensures
            object is Some == alive(self@, pointer),
            object is Some ==> object->0@ == self@[pointer.slot as int]->0,
    {
        if self.heap.holds(pointer) {
            Some(self.heap.object(pointer))
        } else {
            None
        }
    }

    /// The number of records on the heap.
    pub fn objects_count(&self) -> (count: usize)
        requires
            self.well_formed(),
        ensures
            count == population(self@),
    {
        self.heap.count()
    }

    /// The bytes that the records of the heap take, without what their fields point to; the
    /// largest number that fits where that is too many to count.
    pub fn size(&self) -> (size: usize)
        requires
            self.well_formed(),
        ensures
            size == if population(self@) * size_of::<Object>() <= usize::MAX {
                (population(self@) * size_of::<Object>()) as usize
            } else {
                usize::MAX
            },
    {
        match self.heap.count().checked_mul(core::mem::size_of::<Object>()) {
            Some(size) => size,
            None => usize::MAX,
        }
    }
}

} // verus!
