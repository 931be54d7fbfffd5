use slang::environment::{Environment, EnvironmentError};
use slang::heap::{ManagedHeap, Strategy};
use slang::stack::Stack;
use slang::value::{Function, NativeFunction, Pointer, Value};

fn name(text: &str) -> String {
    text.to_string()
}

fn integer(stack: &Stack, identifier: &str) -> i32 {
    match stack.get(&name(identifier)) {
        Ok(Value::Integer(integer)) => integer,
        _ => panic!("{} is not bound to an integer", identifier),
    }
}

#[test]
fn global_environment_starts_with_the_native_functions() {
    let stack = Stack::new();
    assert_eq!(stack.frames_count(), 1);
    assert_eq!(stack.top(), 0);
    assert_eq!(stack.global(), 0);
    assert!(matches!(
        stack.get(&name("print")),
        Ok(Value::Function(Function::Native(NativeFunction::Print)))
    ));
    assert!(matches!(
        stack.get(&name("format")),
        Ok(Value::Function(Function::Native(NativeFunction::Format)))
    ));
    let environment = Environment::new(Some(0));
    assert!(environment.values().is_empty());
    assert_eq!(environment.parent(), Some(0));
    let global = Environment::new(None);
    assert_eq!(global.values().len(), 2);
    assert_eq!(global.parent(), None);
}

#[test]
fn get_tells_undefined_from_uninitialised() {
    let mut stack = Stack::new();
    match stack.get(&name("x")) {
        Err(EnvironmentError::UndefinedTarget { identifier }) => assert_eq!(identifier, "x"),
        _ => panic!("expected an undefined target"),
    }
    stack.define(name("x"), None);
    match stack.get(&name("x")) {
        Err(EnvironmentError::UninitialisedTarget { identifier }) => assert_eq!(identifier, "x"),
        _ => panic!("expected an uninitialised target"),
    }
    stack.define(name("x"), Some(Value::Integer(1)));
    assert_eq!(integer(&stack, "x"), 1);
}

#[test]
fn define_shadows_and_assign_finds_the_nearest_binding() {
    let mut stack = Stack::new();
    stack.define(name("x"), Some(Value::Integer(1)));
    stack.define(name("y"), Some(Value::Integer(10)));
    stack.enter_scope();
    assert_eq!(integer(&stack, "x"), 1);
    assert!(stack.define(name("x"), Some(Value::Integer(2))).is_none());
    assert_eq!(integer(&stack, "x"), 2);
    assert!(matches!(stack.assign(name("x"), Some(Value::Integer(3))), Ok(Some(Value::Integer(2)))));
    assert!(matches!(
        stack.assign(name("y"), Some(Value::Integer(11))),
        Ok(Some(Value::Integer(10)))
    ));
    assert!(matches!(
        stack.define(name("x"), Some(Value::Integer(4))),
        Some(Some(Value::Integer(3)))
    ));
    let mut heap = ManagedHeap::new(Strategy::Naive);
    stack.exit_scope(&mut heap);
    assert_eq!(integer(&stack, "x"), 1);
    assert_eq!(integer(&stack, "y"), 11);
    match stack.assign(name("z"), Some(Value::Integer(1))) {
        Err(EnvironmentError::UndefinedAssignmentTarget { identifier }) => {
            assert_eq!(identifier, "z");
        },
        _ => panic!("expected an undefined assignment target"),
    }
    assert!(matches!(stack.assign(name("x"), None), Ok(Some(Value::Integer(1)))));
    assert!(matches!(stack.get(&name("x")), Err(EnvironmentError::UninitialisedTarget { .. })));
}

#[test]
fn exit_scope_leaves_the_global_environment_in_place() {
    let mut stack = Stack::new();
    let mut heap = ManagedHeap::new(Strategy::Naive);
    stack.define(name("x"), Some(Value::Integer(1)));
    stack.exit_scope(&mut heap);
    stack.exit_scope(&mut heap);
    assert_eq!(stack.top(), 0);
    assert_eq!(integer(&stack, "x"), 1);
    stack.pop();
    assert_eq!(stack.frames_count(), 1);
    assert_eq!(integer(&stack, "x"), 1);
}

#[test]
fn call_frames_hang_on_the_global_environment() {
    let mut stack = Stack::new();
    let mut heap = ManagedHeap::new(Strategy::Naive);
    stack.define(name("g"), Some(Value::Integer(1)));
    stack.enter_scope();
    stack.define(name("local"), Some(Value::Integer(2)));
    let place = stack.push();
    assert_eq!(stack.frames_count(), 2);
    assert_eq!(stack.top(), place);
    assert_eq!(stack.environment(place).parent(), Some(0));
    assert_eq!(integer(&stack, "g"), 1);
    assert!(matches!(stack.get(&name("local")), Err(EnvironmentError::UndefinedTarget { .. })));
    stack.define(name("parameter"), Some(Value::Integer(3)));
    assert!(matches!(stack.assign(name("g"), Some(Value::Integer(5))), Ok(Some(Value::Integer(1)))));
    stack.enter_scope();
    stack.enter_scope();
    assert_eq!(integer(&stack, "parameter"), 3);
    stack.pop();
    assert_eq!(stack.frames_count(), 1);
    assert_eq!(integer(&stack, "local"), 2);
    assert_eq!(integer(&stack, "g"), 5);
    assert!(matches!(stack.get(&name("parameter")), Err(EnvironmentError::UndefinedTarget { .. })));
    stack.exit_scope(&mut heap);
    assert_eq!(stack.top(), 0);
}

#[test]
fn roots_are_the_references_that_the_running_calls_hold() {
    let mut stack = Stack::new();
    let reference = |slot: usize| Some(Value::ObjectReference(Pointer { slot }));
    assert!(stack.roots().is_empty());
    stack.define(name("a"), reference(1));
    stack.define(name("n"), Some(Value::Integer(1)));
    stack.define(name("empty"), None);
    stack.enter_scope();
    stack.define(name("b"), reference(2));
    stack.add_returned_object_reference(Pointer { slot: 7 });
    assert_eq!(stack.roots(), vec![Pointer { slot: 2 }, Pointer { slot: 7 }, Pointer { slot: 1 }]);
    stack.push();
    stack.define(name("c"), reference(3));
    assert_eq!(
        stack.roots(),
        vec![
            Pointer { slot: 2 },
            Pointer { slot: 7 },
            Pointer { slot: 1 },
            Pointer { slot: 3 },
            Pointer { slot: 1 },
        ]
    );
    assert_eq!(stack.values().len(), 1);
    stack.pop();
    let mut heap = ManagedHeap::new(Strategy::Naive);
    stack.exit_scope(&mut heap);
    assert_eq!(stack.roots(), vec![Pointer { slot: 1 }]);
}

#[test]
fn settle_gives_up_what_was_handed_back() {
    let mut stack = Stack::new();
    let mut heap = ManagedHeap::new(Strategy::ReferenceCounted);
    let record = heap.allocate(vec![]);
    let other = heap.allocate(vec![]);
    heap.retain(&Value::ObjectReference(other));
    stack.add_returned_object_reference(record);
    stack.add_returned_object_reference(other);
    assert_eq!(stack.environment(0).returned_object_references(), &vec![record, other]);
    stack.settle(&mut heap);
    assert!(!heap.contains(record));
    assert_eq!(heap.object(other).unwrap().reference_count, 1);
    assert!(stack.roots().is_empty());
    stack.enter_scope();
    stack.add_returned_object_reference(other);
    stack.exit_scope(&mut heap);
    assert_eq!(heap.objects_count(), 0);
}

#[test]
fn environment_binds_in_its_own_scope_only() {
    let mut environment = Environment::new(Some(0));
    assert!(environment.get(&name("x")).is_none());
    assert!(!environment.defines(&name("x")));
    assert!(environment.define(name("x"), None).is_none());
    assert!(matches!(environment.get(&name("x")), Some(None)));
    assert!(matches!(environment.define(name("x"), Some(Value::Integer(1))), Some(None)));
    assert!(matches!(environment.get(&name("x")), Some(Some(Value::Integer(1)))));
    environment.define(name("r"), Some(Value::ObjectReference(Pointer { slot: 4 })));
    environment.add_returned_object_reference(Pointer { slot: 9 });
    assert_eq!(environment.roots(), vec![Pointer { slot: 4 }, Pointer { slot: 9 }]);
    assert_eq!(environment.values().len(), 2);
    assert_eq!(environment.take_returned_object_references(), vec![Pointer { slot: 9 }]);
    assert_eq!(environment.roots(), vec![Pointer { slot: 4 }]);
}

#[test]
fn size_counts_the_running_calls() {
    let mut stack = Stack::new();
    let one = stack.size();
    assert_eq!(one, std::mem::size_of::<Environment>());
    stack.push();
    assert_eq!(stack.size(), 2 * one);
}
