//! The naive strategy: records are allocated and never freed.

use crate::heap::model::{alive, field_of, placed, population, written, Slots};
use crate::heap::slots::{HeapObject, SlotTable};
use crate::value::{fields_view, Object, Pointer, Value};
use vstd::layout::size_of;
use vstd::prelude::*;

verus! {

/// A heap that never frees a record.
pub struct NaiveHeap {
    pub(crate) heap: SlotTable,
}

impl View for NaiveHeap {
    type V = Slots;

    closed spec fn view(&self) -> Slots {
        self.heap@
    }
}

impl NaiveHeap {
    /// The heap counts its records correctly.
    pub closed spec fn well_formed(&self) -> bool {
        self.heap.well_formed()
    }

    /// Creates an empty heap.
    pub fn new() -> (heap: Self)
        ensures
            heap.well_formed(),
            heap@ == Slots::empty(),
    {
        Self { heap: SlotTable::new() }
    }

    /// Puts a record on the heap, its nested record literals first, each in a slot of its own.
    pub fn allocate(&mut self, data: Object) -> (pointer: Pointer)
        requires
            old(self).well_formed(),
        ensures
            final(self).well_formed(),
            (final(self)@, pointer) == placed(old(self)@, fields_view(data@), false),
    {
        self.heap.allocate(data, false)
    }

    /// Whether `pointer` refers to a record.
    pub fn contains(&self, pointer: Pointer) -> (answer: bool)
        ensures
            answer == alive(self@, pointer),
    {
        self.heap.holds(pointer)
    }

    /// Reads a field of the record that `pointer` refers to.
    pub fn field(&self, pointer: Pointer, name: &String) -> (value: Option<Value>)
        ensures
            value is Some == field_of(self@, pointer, name@) is Some,
            value is Some ==> value->0@ == field_of(self@, pointer, name@)->0,
    {
        self.heap.field(pointer, name)
    }

    /// Sets a field of the record that `pointer` refers to, and hands back what the field held.
    /// No owner is counted or given up.
    pub fn set_field(&mut self, pointer: Pointer, name: String, value: Value) -> (previous: Option<
        Value,
    >)
        requires
            old(self).well_formed(),
            alive(old(self)@, pointer),
        ensures
            final(self).well_formed(),
            final(self)@ == written(old(self)@, pointer, name@, value@),
            previous is Some == field_of(old(self)@, pointer, name@) is Some,
            previous is Some ==> previous->0@ == field_of(old(self)@, pointer, name@)->0,
    {
        self.heap.set_field(pointer, name, value)
    }

    /// The record that `pointer` refers to, with its mark and its count of owners.
    pub fn object(&self, pointer: Pointer) -> (object: Option<&HeapObject>)
        ensures
            object is Some == alive(self@, pointer),
            object is Some ==> object->0@ == self@[pointer.slot as int]->0,
    {
        if self.heap.holds(pointer) {
            Some(self.heap.object(pointer))
        } else {
            None
        }
    }

    /// The number of records on the heap.
    pub fn objects_count(&self) -> (count: usize)
        requires
            self.well_formed(),
        ensures
            count == population(self@),
    {
        self.heap.count()
    }

    /// The bytes that the records of the heap take, without what their fields point to; the
    /// largest number that fits where that is too many to count.
    pub fn size(&self) -> (size: usize)
        requires
            self.well_formed(),
        ensures
            size == if population(self@) * size_of::<Object>() <= usize::MAX {
                (population(self@) * size_of::<Object>()) as usize
            } else {
                usize::MAX
            },
    {
        match self.heap.count().checked_mul(core::mem::size_of::<Object>()) {
            Some(size) => size,
            None => usize::MAX,
        }
    }
}

} // verus!
