use slang::heap::garbage_collected::GarbageCollectedHeap;
use slang::heap::naive::NaiveHeap;
use slang::heap::reference_counted::ReferenceCountedHeap;
use slang::heap::{ManagedHeap, Strategy};
use slang::protocol::{references_of, store, wrap};
use slang::value::{get_field, set_field, Object, Pointer, Value};

fn field(name: &str, value: Value) -> (String, Value) {
    (name.to_string(), value)
}

fn reference(pointer: Pointer) -> Value {
    Value::ObjectReference(pointer)
}

fn leaf(number: i32) -> Object {
    vec![field("n", Value::Integer(number))]
}

fn count(heap: &ReferenceCountedHeap, pointer: Pointer) -> usize {
    heap.object(pointer).expect("the record is freed").reference_count
}

#[test]
fn allocation_hands_out_fresh_slots_in_order() {
    let mut heap = NaiveHeap::new();
    assert_eq!(heap.objects_count(), 0);
    let first = heap.allocate(leaf(1));
    let second = heap.allocate(leaf(2));
    assert_eq!(first, Pointer { slot: 0 });
    assert_eq!(second, Pointer { slot: 1 });
    assert_eq!(heap.objects_count(), 2);
    assert!(heap.contains(first));
    assert!(!heap.contains(Pointer { slot: 2 }));
}

#[test]
fn nested_literals_are_promoted_before_the_record_that_holds_them() {
    for strategy in [Strategy::Naive, Strategy::ReferenceCounted, Strategy::GarbageCollected] {
        let mut heap = ManagedHeap::new(strategy);
        let data = vec![
            field("a", Value::Object(vec![field("deep", Value::Object(leaf(1)))])),
            field("n", Value::Integer(5)),
            field("b", Value::Object(leaf(2))),
        ];
        let record = heap.allocate(data);
        assert_eq!(heap.objects_count(), 4);
        assert_eq!(record, Pointer { slot: 3 });
        match heap.field(record, &"a".to_string()) {
            Some(Value::ObjectReference(pointer)) => {
                assert_eq!(pointer, Pointer { slot: 1 });
                assert!(matches!(
                    heap.field(pointer, &"deep".to_string()),
                    Some(Value::ObjectReference(Pointer { slot: 0 }))
                ));
            },
            _ => panic!("expected a reference"),
        }
        assert!(matches!(
            heap.field(record, &"b".to_string()),
            Some(Value::ObjectReference(Pointer { slot: 2 }))
        ));
        assert!(matches!(heap.field(record, &"n".to_string()), Some(Value::Integer(5))));
        assert!(heap.field(record, &"missing".to_string()).is_none());
        let object = heap.object(record).unwrap();
        assert_eq!(object.reference_count, 1);
        assert!(!object.marked);
    }
}

#[test]
fn counting_allocation_counts_the_references_among_the_fields() {
    let mut heap = ReferenceCountedHeap::new();
    let child = heap.allocate(leaf(1));
    assert_eq!(count(&heap, child), 1);
    let parent = heap.allocate(vec![field("x", reference(child)), field("y", reference(child))]);
    assert_eq!(count(&heap, child), 3);
    assert_eq!(count(&heap, parent), 1);
    let mut naive = NaiveHeap::new();
    let child = naive.allocate(leaf(1));
    naive.allocate(vec![field("x", reference(child))]);
    assert_eq!(naive.object(child).unwrap().reference_count, 1);
}

#[test]
fn increment_is_shallow() {
    let mut heap = ReferenceCountedHeap::new();
    let child = heap.allocate(leaf(1));
    let parent = heap.allocate(vec![field("child", reference(child))]);
    assert_eq!(count(&heap, child), 2);
    heap.increment(parent);
    assert_eq!(count(&heap, parent), 2);
    assert_eq!(count(&heap, child), 2);
    heap.increment(Pointer { slot: 99 });
    assert_eq!(heap.objects_count(), 2);
}

#[test]
fn decrement_frees_with_the_last_owner_and_releases_the_children() {
    let mut heap = ReferenceCountedHeap::new();
    let shared = heap.allocate(leaf(1));
    let only = heap.allocate(leaf(2));
    let parent = heap.allocate(vec![
        field("shared", reference(shared)),
        field("only", reference(only)),
    ]);
    heap.decrement(only);
    assert_eq!(count(&heap, only), 1);
    heap.increment(parent);
    heap.decrement(parent);
    assert_eq!(heap.objects_count(), 3);
    heap.decrement(parent);
    assert!(!heap.contains(parent));
    assert!(!heap.contains(only));
    assert_eq!(count(&heap, shared), 1);
    assert_eq!(heap.objects_count(), 1);
    heap.decrement(parent);
    assert_eq!(heap.objects_count(), 1);
    heap.conditionally_decrement(Value::Integer(1));
    assert_eq!(heap.objects_count(), 1);
    heap.conditionally_decrement(reference(shared));
    assert_eq!(heap.objects_count(), 0);
}

#[test]
fn allocating_and_giving_up_leaves_the_heap_as_it_was() {
    let mut heap = ReferenceCountedHeap::new();
    let kept = heap.allocate(leaf(1));
    let record = heap.allocate(vec![
        field("kept", reference(kept)),
        field("nested", Value::Object(vec![field("again", reference(kept))])),
        field("twice", reference(kept)),
    ]);
    assert_eq!(heap.objects_count(), 3);
    assert_eq!(count(&heap, kept), 4);
    heap.decrement(record);
    assert_eq!(heap.objects_count(), 1);
    assert_eq!(count(&heap, kept), 1);
}

#[test]
fn a_freed_slot_is_not_handed_out_again() {
    let mut heap = ReferenceCountedHeap::new();
    let first = heap.allocate(leaf(1));
    heap.decrement(first);
    let second = heap.allocate(leaf(2));
    assert_eq!(second, Pointer { slot: 1 });
    assert!(!heap.contains(first));
    assert!(heap.field(first, &"n".to_string()).is_none());
}

#[test]
fn on_bind_counts_the_new_value_and_releases_the_old() {
    let mut heap = ManagedHeap::new(Strategy::ReferenceCounted);
    let old = heap.allocate(leaf(1));
    let new = heap.allocate(leaf(2));
    heap.on_bind(&Some(reference(old)), &reference(new));
    assert!(!heap.contains(old));
    assert_eq!(heap.object(new).unwrap().reference_count, 2);
    heap.on_bind(&None, &Value::Integer(3));
    heap.on_bind(&Some(reference(new)), &reference(new));
    assert_eq!(heap.object(new).unwrap().reference_count, 2);
    for strategy in [Strategy::Naive, Strategy::GarbageCollected] {
        let mut heap = ManagedHeap::new(strategy);
        let old = heap.allocate(leaf(1));
        let new = heap.allocate(leaf(2));
        heap.on_bind(&Some(reference(old)), &reference(new));
        assert!(heap.contains(old));
        assert_eq!(heap.object(new).unwrap().reference_count, 1);
    }
}

#[test]
fn collection_keeps_exactly_what_the_roots_reach() {
    let mut heap = GarbageCollectedHeap::new();
    let leaf_kept = heap.allocate(leaf(1));
    let middle = heap.allocate(vec![field("next", reference(leaf_kept))]);
    let root = heap.allocate(vec![field("next", reference(middle)), field("n", Value::Integer(1))]);
    let garbage = heap.allocate(vec![field("next", reference(root))]);
    let lonely = heap.allocate(leaf(2));
    heap.manage(&[root, Pointer { slot: 40 }]);
    assert!(heap.contains(root) && heap.contains(middle) && heap.contains(leaf_kept));
    assert!(!heap.contains(garbage) && !heap.contains(lonely));
    assert_eq!(heap.objects_count(), 3);
    assert!(!heap.object(root).unwrap().marked);
    assert!(matches!(heap.field(root, &"n".to_string()), Some(Value::Integer(1))));
    heap.manage(&[middle]);
    assert_eq!(heap.objects_count(), 2);
    heap.manage(&[]);
    assert_eq!(heap.objects_count(), 0);
}

#[test]
fn collection_tolerates_cycles() {
    let mut heap = GarbageCollectedHeap::new();
    let a = heap.allocate(vec![]);
    let b = heap.allocate(vec![field("a", reference(a))]);
    heap.set_field(a, "b".to_string(), reference(b));
    heap.set_field(a, "self".to_string(), reference(a));
    heap.manage(&[a, a, b]);
    assert_eq!(heap.objects_count(), 2);
    heap.manage(&[b]);
    assert_eq!(heap.objects_count(), 2);
    heap.manage(&[]);
    assert_eq!(heap.objects_count(), 0);
}

#[test]
fn collect_does_nothing_unless_the_heap_is_traced() {
    for strategy in [Strategy::Naive, Strategy::ReferenceCounted] {
        let mut heap = ManagedHeap::new(strategy);
        heap.allocate(leaf(1));
        heap.collect(&[]);
        assert_eq!(heap.objects_count(), 1);
    }
    let mut heap = ManagedHeap::new(Strategy::GarbageCollected);
    heap.allocate(leaf(1));
    heap.collect(&[]);
    assert_eq!(heap.objects_count(), 0);
}

#[test]
fn set_field_replaces_in_place_and_appends_what_is_new() {
    let mut heap = NaiveHeap::new();
    let record = heap.allocate(vec![field("a", Value::Integer(1)), field("b", Value::Integer(2))]);
    let previous = heap.set_field(record, "a".to_string(), Value::Integer(10));
    assert!(matches!(previous, Some(Value::Integer(1))));
    let previous = heap.set_field(record, "c".to_string(), Value::Integer(3));
    assert!(previous.is_none());
    let names: Vec<String> =
        heap.object(record).unwrap().data.iter().map(|(name, _)| name.clone()).collect();
    assert_eq!(names, vec!["a", "b", "c"]);
    assert!(matches!(heap.field(record, &"a".to_string()), Some(Value::Integer(10))));
}

#[test]
fn fields_of_a_literal_are_found_by_name() {
    let mut fields: Object = vec![field("a", Value::Integer(1)), field("a", Value::Integer(2))];
    assert!(matches!(get_field(&fields, &"a".to_string()), Some(Value::Integer(1))));
    set_field(&mut fields, "a".to_string(), Value::Integer(3));
    set_field(&mut fields, "b".to_string(), Value::Boolean(true));
    assert!(matches!(get_field(&fields, &"a".to_string()), Some(Value::Integer(3))));
    assert!(matches!(get_field(&fields, &"b".to_string()), Some(Value::Boolean(true))));
    assert!(get_field(&fields, &"c".to_string()).is_none());
    assert_eq!(fields.len(), 3);
}

#[test]
fn store_promotes_literals_and_counts_references() {
    let mut heap = ManagedHeap::new(Strategy::ReferenceCounted);
    let stored = store(&mut heap, Value::Object(leaf(1)));
    let pointer = match stored {
        Value::ObjectReference(pointer) => pointer,
        _ => panic!("expected a reference"),
    };
    assert_eq!(heap.object(pointer).unwrap().reference_count, 1);
    let again = store(&mut heap, reference(pointer));
    assert!(matches!(again, Value::ObjectReference(same) if same == pointer));
    assert_eq!(heap.object(pointer).unwrap().reference_count, 2);
    assert!(matches!(store(&mut heap, Value::Integer(4)), Value::Integer(4)));
    assert_eq!(heap.objects_count(), 1);
}

#[test]
fn references_of_finds_references_however_deep() {
    let value = Value::Object(vec![
        field("a", reference(Pointer { slot: 3 })),
        field("b", Value::Object(vec![field("c", reference(Pointer { slot: 1 }))])),
        field("d", Value::Integer(1)),
        field("e", reference(Pointer { slot: 3 })),
    ]);
    assert_eq!(
        references_of(&Some(value)),
        vec![Pointer { slot: 3 }, Pointer { slot: 1 }, Pointer { slot: 3 }]
    );
    assert_eq!(references_of(&Some(reference(Pointer { slot: 7 }))), vec![Pointer { slot: 7 }]);
    assert!(references_of(&Some(Value::Boolean(true))).is_empty());
    assert!(references_of(&None).is_empty());
}

#[test]
fn counts_wrap_into_slang_integers() {
    assert_eq!(wrap(0), 0);
    assert_eq!(wrap(2147483647), 2147483647);
    assert_eq!(wrap(2147483648), -2147483648);
    assert_eq!(wrap(4294967295), -1);
    assert_eq!(wrap(4294967296), 0);
    assert_eq!(wrap(4294967297), 1);
}

#[test]
fn size_grows_with_the_number_of_records() {
    let mut heap = NaiveHeap::new();
    assert_eq!(heap.size(), 0);
    heap.allocate(leaf(1));
    heap.allocate(leaf(2));
    assert_eq!(heap.size(), 2 * std::mem::size_of::<Object>());
    let mut counted = ReferenceCountedHeap::new();
    let record = counted.allocate(leaf(1));
    assert_eq!(counted.size(), std::mem::size_of::<Object>());
    counted.decrement(record);
    assert_eq!(counted.size(), 0);
}
