//! The heap: the records of a running program, under one of three strategies.

pub mod model;
pub mod slots;
pub mod garbage_collected;
pub mod naive;
pub mod reference_counted;

use crate::heap::garbage_collected::GarbageCollectedHeap;
use crate::heap::model::{
    alive, collected, field_of, placed, population, references_among, released_each,
    retained_each, written,
    Slots,
};
use crate::heap::naive::NaiveHeap;
use crate::heap::reference_counted::{given_up, taken_up, ReferenceCountedHeap};
use crate::heap::slots::HeapObject;
use crate::value::{fields_view, Object, Pointer, Value, ValueView};
use vstd::prelude::*;

verus! {

/// The ways of managing the heap.
#[derive(Clone, Copy, Debug, PartialEq, Eq, Structural)]
pub enum Strategy {
    /// Records stay until a collection finds them unreachable.
    GarbageCollected,
    /// Records are never freed.
    Naive,
    /// A record is freed when its last owner gives it up.
    ReferenceCounted,
}

/// The heap of a running program. The strategy is chosen when the heap is made and stays.
pub enum ManagedHeap {
    GarbageCollected(GarbageCollectedHeap),
    Naive(NaiveHeap),
    ReferenceCounted(ReferenceCountedHeap),
}

impl View for ManagedHeap {
    type V = Slots;

    open spec fn view(&self) -> Slots {
        match self {
            Self::GarbageCollected(heap) => heap@,
            Self::Naive(heap) => heap@,
            Self::ReferenceCounted(heap) => heap@,
        }
    }
}

/// What a list of values stands for.
pub open spec fn values_view(values: Seq<Value>) -> Seq<ValueView> {
    Seq::new(values.len(), |i: int| values[i]@)
}

impl ManagedHeap {
    /// Whether the heap is as its strategy keeps it.
    pub open spec fn well_formed(&self) -> bool {
        match self {
            Self::GarbageCollected(heap) => heap.well_formed(),
            Self::Naive(heap) => heap.well_formed(),
            Self::ReferenceCounted(heap) => heap.well_formed(),
        }
    }

    /// The strategy that the heap follows.
    pub open spec fn strategy(&self) -> Strategy {
        match self {
            Self::GarbageCollected(_) => Strategy::GarbageCollected,
            Self::Naive(_) => Strategy::Naive,
            Self::ReferenceCounted(_) => Strategy::ReferenceCounted,
        }
    }

    /// Whether the heap counts owners.
    pub open spec fn counting(&self) -> bool {
        self.strategy() == Strategy::ReferenceCounted
    }

    /// Whether the heap collects by tracing.
    pub open spec fn tracing(&self) -> bool {
        self.strategy() == Strategy::GarbageCollected
    }

    /// Whether two heaps follow the same strategy.
    pub open spec fn same_strategy(&self, other: &ManagedHeap) -> bool {
        self.strategy() == other.strategy()
    }

    /// Creates an empty heap that follows `strategy`.
    pub fn new(strategy: Strategy) -> (heap: Self)
        ensures
            heap.well_formed(),
            heap.strategy() == strategy,
            heap@ == Slots::empty(),
    {
        match strategy {
            Strategy::GarbageCollected => Self::GarbageCollected(GarbageCollectedHeap::new()),
            Strategy::Naive => Self::Naive(NaiveHeap::new()),
            Strategy::ReferenceCounted => Self::ReferenceCounted(ReferenceCountedHeap::new()),
        }
    }

    /// The slots after `next` is bound where `previous` was: under the counting strategy
    /// `next` gains an owner and then `previous` loses one; under the others nothing changes.
    pub open spec fn bound(&self, previous: Option<Value>, next: Value) -> Slots {
        if self.counting() {
            match previous {
                Some(value) => given_up(taken_up(self@, next@), value@),
                None => taken_up(self@, next@),
            }
        } else {
            self@
        }
    }

    /// Puts a record on the heap, its nested record literals first.
    pub fn allocate(&mut self, data: Object) -> (pointer: Pointer)
        requires
            old(self).well_formed(),
        ensures
            final(self).well_formed(),
            final(self).same_strategy(old(self)),
            (final(self)@, pointer) == placed(old(self)@, fields_view(data@), old(self).counting()),
    {
        match self {
            Self::GarbageCollected(heap) => heap.allocate(data),
            Self::Naive(heap) => heap.allocate(data),
            Self::ReferenceCounted(heap) => heap.allocate(data),
        }
    }

    /// The number of records on the heap.
    pub fn objects_count(&self) -> (count: usize)
        requires
            self.well_formed(),
        ensures
            count == population(self@),
    {
        match self {
            Self::GarbageCollected(heap) => heap.objects_count(),
            Self::Naive(heap) => heap.objects_count(),
            Self::ReferenceCounted(heap) => heap.objects_count(),
        }
    }

    /// The record that `pointer` refers to, with its mark and its count of owners.
    pub fn object(&self, pointer: Pointer) -> (object: Option<&HeapObject>)
        ensures
            object is Some == alive(self@, pointer),
            object is Some ==> object->0@ == self@[pointer.slot as int]->0,
    {
        match self {
            Self::GarbageCollected(heap) => heap.object(pointer),
            Self::Naive(heap) => heap.object(pointer),
            Self::ReferenceCounted(heap) => heap.object(pointer),
        }
    }

    /// Whether `pointer` refers to a record.
    pub fn contains(&self, pointer: Pointer) -> (answer: bool)
        ensures
            answer == alive(self@, pointer),
    {
        match self {
            Self::GarbageCollected(heap) => heap.contains(pointer),
            Self::Naive(heap) => heap.contains(pointer),
            Self::ReferenceCounted(heap) => heap.contains(pointer),
        }
    }

    /// Reads a field of the record that `pointer` refers to.
    pub fn field(&self, pointer: Pointer, name: &String) -> (value: Option<Value>)
        ensures
            value is Some == field_of(self@, pointer, name@) is Some,
            value is Some ==> value->0@ == field_of(self@, pointer, name@)->0,
    {
        match self {
            Self::GarbageCollected(heap) => heap.field(pointer, name),
            Self::Naive(heap) => heap.field(pointer, name),
            Self::ReferenceCounted(heap) => heap.field(pointer, name),
        }
    }

    /// Sets a field of the record that `pointer` refers to, and hands back what the field held.
    /// No owner is counted or given up.
    pub fn set_field(&mut self, pointer: Pointer, name: String, value: Value) -> (previous: Option<
        Value,
    >)
        requires
            old(self).well_formed(),
            alive(old(self)@, pointer),
        ensures
            final(self).well_formed(),
            final(self).same_strategy(old(self)),
            final(self)@ == written(old(self)@, pointer, name@, value@),
            previous is Some == field_of(old(self)@, pointer, name@) is Some,
            previous is Some ==> previous->0@ == field_of(old(self)@, pointer, name@)->0,
    {
        match self {
            Self::GarbageCollected(heap) => heap.set_field(pointer, name, value),
            Self::Naive(heap) => heap.set_field(pointer, name, value),
            Self::ReferenceCounted(heap) => heap.set_field(pointer, name, value),
        }
    }

    /// Counts an owner for `value` where it is a reference and the strategy counts owners.
    pub fn retain(&mut self, value: &Value)
        requires
            old(self).well_formed(),
        ensures
            final(self).well_formed(),
            final(self).same_strategy(old(self)),
            final(self)@ == if old(self).counting() {
                taken_up(old(self)@, value@)
            } else {
                old(self)@
            },
    {
        if let Self::ReferenceCounted(heap) = self {
            if let Value::ObjectReference(pointer) = value {
                heap.increment(*pointer);
            }
        }
    }

    /// Gives up an owner of `value` where it is a reference and the strategy counts owners.
    pub fn release(&mut self, value: &Value)
        requires
            old(self).well_formed(),
        ensures
            final(self).well_formed(),
            final(self).same_strategy(old(self)),
            final(self)@ == if old(self).counting() {
                given_up(old(self)@, value@)
            } else {
                old(self)@
            },
    {
        if let Self::ReferenceCounted(heap) = self {
            if let Value::ObjectReference(pointer) = value {
                heap.decrement(*pointer);
            }
        }
    }

    /// Accounts for `next` replacing `previous` in a variable, a field or a parameter.
    pub fn on_bind(&mut self, previous: &Option<Value>, next: &Value)
        requires
            old(self).well_formed(),
        ensures
            final(self).well_formed(),
            final(self).same_strategy(old(self)),
            final(self)@ == old(self).bound(*previous, *next),
    {
        self.retain(next);
        if let Some(value) = previous {
            self.release(value);
        }
    }

    /// Collects from `roots` under the tracing strategy; does nothing under the others.
    pub fn collect(&mut self, roots: &[Pointer])
        requires
            old(self).well_formed(),
        ensures
            final(self).well_formed(),
            final(self).same_strategy(old(self)),
            final(self)@ == if old(self).tracing() {
                collected(old(self)@, roots@)
            } else {
                old(self)@
            },
    {
        if let Self::GarbageCollected(heap) = self {
            heap.manage(roots);
        }
    }

    /// Counts an owner for each of `pointers`, one after another, where the strategy counts
    /// owners.
    pub fn retain_pointers(&mut self, pointers: &[Pointer])
        requires
            old(self).well_formed(),
        ensures
            final(self).well_formed(),
            final(self).same_strategy(old(self)),
            final(self)@ == if old(self).counting() {
                retained_each(old(self)@, pointers@)
            } else {
                old(self)@
            },
    {
        if let Self::ReferenceCounted(heap) = self {
            let mut i: usize = 0;
            assert(pointers@.take(0) =~= Seq::empty());
            while i < pointers.len()
                invariant
                    i <= pointers.len(),
                    heap.well_formed(),
                    heap@ == retained_each(old(self)@, pointers@.take(i as int)),
                decreases pointers.len() - i,
            {
                assert(pointers@.take(i + 1).drop_last() =~= pointers@.take(i as int));
                heap.increment(pointers[i]);
                i += 1;
            }
            assert(pointers@.take(i as int) =~= pointers@);
        }
    }

    /// Gives up an owner of each of `pointers`, one after another, where the strategy counts
    /// owners.
    pub fn release_pointers(&mut self, pointers: &[Pointer])
        requires
            old(self).well_formed(),
        ensures
            final(self).well_formed(),
            final(self).same_strategy(old(self)),
            final(self)@ == if old(self).counting() {
                released_each(old(self)@, pointers@)
            } else {
                old(self)@
            },
    {
        if let Self::ReferenceCounted(heap) = self {
            let mut i: usize = 0;
            assert(pointers@.take(0) =~= Seq::empty());
            while i < pointers.len()
                invariant
                    i <= pointers.len(),
                    heap.well_formed(),
                    heap@ == released_each(old(self)@, pointers@.take(i as int)),
                decreases pointers.len() - i,
            {
                assert(pointers@.take(i + 1).drop_last() =~= pointers@.take(i as int));
                heap.decrement(pointers[i]);
                i += 1;
            }
            assert(pointers@.take(i as int) =~= pointers@);
        }
    }

    /// Gives up an owner of each reference among `values`, one after another, where the
    /// strategy counts owners.
    pub fn release_values(&mut self, values: &Vec<Value>)
        requires
            old(self).well_formed(),
        ensures
            final(self).well_formed(),
            final(self).same_strategy(old(self)),
            final(self)@ == if old(self).counting() {
                released_each(old(self)@, references_among(values_view(values@)))
            } else {
                old(self)@
            },
    {
        if let Self::ReferenceCounted(heap) = self {
            let ghost views = values_view(values@);
            let mut i: usize = 0;
            assert(views.take(0) =~= Seq::empty());
            while i < values.len()
                invariant
                    i <= values.len(),
                    views == values_view(values@),
                    heap.well_formed(),
                    heap@ == released_each(old(self)@, references_among(views.take(i as int))),
                decreases values.len() - i,
            {
                assert(views.take(i + 1).drop_last() =~= views.take(i as int));
                assert(views.take(i + 1).last() == values[i as int]@);
                if let Value::ObjectReference(pointer) = &values[i] {
                    assert(references_among(views.take(i + 1)).drop_last() =~= references_among(
                        views.take(i as int),
                    ));
                    heap.decrement(*pointer);
                }
                i += 1;
            }
            assert(views.take(i as int) =~= views);
        }
    }
}

} // verus!
