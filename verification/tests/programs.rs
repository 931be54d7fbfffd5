use slang::expression::{BinaryOperator, EvaluationError};
use slang::float::Float;
use slang::heap::{ManagedHeap, Strategy};
use slang::host::{Host, Limits};
use slang::interpreter::{run, Failure};
use slang::stack::Stack;
use slang::statement::ControlFlow;
use slang::stats::Logger;
use slang::value::{Pointer, Type, Value};

fn arithmetic(operator: BinaryOperator, left: Float, right: Float) -> Float {
    let left = f64::from_bits(left.bits);
    let right = f64::from_bits(right.bits);
    let result = match operator {
        BinaryOperator::Add => left + right,
        BinaryOperator::Subtract => left - right,
        BinaryOperator::Multiply => left * right,
        BinaryOperator::Divide => left / right,
        _ => left.powf(right),
    };
    Float { bits: result.to_bits() }
}

fn display(float: Float) -> String {
    format!("{}", f64::from_bits(float.bits))
}

fn literal(text: String) -> Float {
    Float { bits: text.parse::<f64>().unwrap().to_bits() }
}

type Arithmetic = fn(BinaryOperator, Float, Float) -> Float;
type Display = fn(Float) -> String;

struct Machine {
    stack: Stack,
    heap: ManagedHeap,
    logger: Logger,
    host: Host<Arithmetic, Display>,
}

fn machine(strategy: Strategy) -> Machine {
    Machine {
        stack: Stack::new(),
        heap: ManagedHeap::new(strategy),
        logger: Logger::new(),
        host: Host::new(arithmetic as Arithmetic, display as Display),
    }
}

fn limits() -> Limits {
    Limits { depth: 200, rounds: 1_000_000 }
}

fn go(machine: &mut Machine, source: &str) -> Result<ControlFlow, Failure> {
    run(
        source,
        literal,
        &mut machine.stack,
        &mut machine.heap,
        &mut machine.logger,
        &mut machine.host,
        limits(),
    )
}

fn ok(machine: &mut Machine, source: &str) {
    match go(machine, source) {
        Ok(_) => {},
        Err(Failure::Lexing(errors)) => panic!("lexing failed: {:?}", errors),
        Err(Failure::Parsing(errors)) => panic!("parsing failed: {:?}", errors),
        Err(Failure::Evaluation(_)) => panic!("evaluation failed"),
    }
}

fn fails(machine: &mut Machine, source: &str) -> EvaluationError {
    match go(machine, source) {
        Err(Failure::Evaluation(error)) => error,
        _ => panic!("expected an evaluation error"),
    }
}

fn get(machine: &Machine, identifier: &str) -> Value {
    match machine.stack.get(&identifier.to_string()) {
        Ok(value) => value,
        Err(_) => panic!("{} is not bound to a value", identifier),
    }
}

fn integer(machine: &Machine, identifier: &str) -> i32 {
    match get(machine, identifier) {
        Value::Integer(integer) => integer,
        _ => panic!("{} is not an integer", identifier),
    }
}

fn boolean(machine: &Machine, identifier: &str) -> bool {
    match get(machine, identifier) {
        Value::Boolean(boolean) => boolean,
        _ => panic!("{} is not a boolean", identifier),
    }
}

fn string(machine: &Machine, identifier: &str) -> String {
    match get(machine, identifier) {
        Value::String(string) => string,
        _ => panic!("{} is not a string", identifier),
    }
}

fn float(machine: &Machine, identifier: &str) -> f64 {
    match get(machine, identifier) {
        Value::Float(float) => f64::from_bits(float.bits),
        _ => panic!("{} is not a float", identifier),
    }
}

fn pointer(machine: &Machine, identifier: &str) -> Pointer {
    match get(machine, identifier) {
        Value::ObjectReference(pointer) => pointer,
        _ => panic!("{} is not a reference", identifier),
    }
}

fn count(machine: &Machine, pointer: Pointer) -> usize {
    machine.heap.object(pointer).expect("the record is freed").reference_count
}

fn strategies() -> Vec<Strategy> {
    vec![Strategy::Naive, Strategy::ReferenceCounted, Strategy::GarbageCollected]
}

#[test]
fn naive_heap_counts_every_allocation() {
    let mut machine = machine(Strategy::Naive);
    assert_eq!(machine.heap.objects_count(), 0);
    ok(&mut machine, "let a = { x: { y: {} } };");
    assert_eq!(machine.heap.objects_count(), 3);
    ok(&mut machine, "let b = {};");
    assert_eq!(machine.heap.objects_count(), 4);
    ok(&mut machine, "a = 1; b = 2; { let c = { d: {} }; }");
    assert_eq!(machine.heap.objects_count(), 6);
}

#[test]
fn counted_heap_is_empty_once_all_bindings_are_dropped() {
    let mut machine = machine(Strategy::ReferenceCounted);
    ok(
        &mut machine,
        "{ let a = { x: { y: {} } }; let b = a; let c = { shared: a.x, other: b }; a = 1; }",
    );
    assert_eq!(machine.heap.objects_count(), 0);
}

#[test]
fn counted_heap_frees_what_a_call_returns_and_nobody_keeps() {
    let mut machine = machine(Strategy::ReferenceCounted);
    ok(&mut machine, "fu make() { let o = { v: 9 }; return o; } make();");
    assert_eq!(machine.heap.objects_count(), 0);
    ok(&mut machine, "{ let kept = make(); let twice = make(); }");
    assert_eq!(machine.heap.objects_count(), 0);
    ok(&mut machine, "fu deep() { { { let o = { v: { w: 1 } }; return o; } } } { let r = deep(); }");
    assert_eq!(machine.heap.objects_count(), 0);
}

#[test]
fn cycle_leaks_under_counting_and_is_collected_under_tracing() {
    let source = "{ let a = {}; let b = { other: a }; a.other = b; }";
    let mut counted = machine(Strategy::ReferenceCounted);
    ok(&mut counted, source);
    assert_eq!(counted.heap.objects_count(), 2);
    let mut traced = machine(Strategy::GarbageCollected);
    ok(&mut traced, source);
    assert_eq!(traced.heap.objects_count(), 0);
    let mut naive = machine(Strategy::Naive);
    ok(&mut naive, source);
    assert_eq!(naive.heap.objects_count(), 2);
}

#[test]
fn tracing_keeps_what_a_binding_reaches_and_frees_the_rest() {
    let mut machine = machine(Strategy::GarbageCollected);
    ok(&mut machine, "let keep = { child: { leaf: {} } }; let gone = {}; gone = 0;");
    assert_eq!(machine.heap.objects_count(), 4);
    ok(&mut machine, "{ let tmp = { inner: {} }; }");
    assert_eq!(machine.heap.objects_count(), 3);
    ok(&mut machine, "let leaf = keep.child.leaf; keep = 0; { }");
    assert_eq!(machine.heap.objects_count(), 1);
    assert!(machine.heap.contains(pointer(&machine, "leaf")));
}

#[test]
fn declaration_in_a_block_shadows_the_outer_binding() {
    for strategy in strategies() {
        let mut machine = machine(strategy);
        ok(
            &mut machine,
            "let x = 1; let seen = 0; let y = 5; { let x = 2; x = x + 1; seen = x; y = 6; }",
        );
        assert_eq!(integer(&machine, "x"), 1);
        assert_eq!(integer(&machine, "seen"), 3);
        assert_eq!(integer(&machine, "y"), 6);
    }
}

#[test]
fn call_with_the_wrong_number_of_arguments_fails() {
    for strategy in strategies() {
        let mut machine = machine(strategy);
        ok(&mut machine, "fu pair(a, b) { return a; }");
        match fails(&mut machine, "pair(1);") {
            EvaluationError::IncorrectArgumentCount { expected, passed } => {
                assert_eq!((expected, passed), (2, 1));
            },
            _ => panic!("expected an arity error"),
        }
        match fails(&mut machine, "pair(1, 2, 3);") {
            EvaluationError::IncorrectArgumentCount { expected, passed } => {
                assert_eq!((expected, passed), (2, 3));
            },
            _ => panic!("expected an arity error"),
        }
        ok(&mut machine, "let r = pair(7, 8);");
        assert_eq!(integer(&machine, "r"), 7);
    }
}

#[test]
fn assignment_rebinds_and_does_not_mutate_the_shared_record() {
    for strategy in strategies() {
        let mut machine = machine(strategy);
        ok(&mut machine, "let a = { n: 1 }; let b = a; a = 2; let n = b.n;");
        assert_eq!(integer(&machine, "a"), 2);
        assert_eq!(integer(&machine, "n"), 1);
        let record = pointer(&machine, "b");
        assert!(machine.heap.contains(record));
        if strategy == Strategy::ReferenceCounted {
            assert_eq!(count(&machine, record), 1);
        }
    }
}

#[test]
fn record_made_in_a_call_survives_the_call() {
    for strategy in strategies() {
        let mut machine = machine(strategy);
        ok(&mut machine, "fu make() { return { v: 9 }; } let r = make(); let v = r.v;");
        assert_eq!(integer(&machine, "v"), 9);
        assert!(machine.heap.contains(pointer(&machine, "r")));
        assert_eq!(machine.stack.frames_count(), 1);
        ok(&mut machine, "fu keep() { let o = { v: 4 }; return o; } let s = keep(); { } let w = s.v;");
        assert_eq!(integer(&machine, "w"), 4);
        assert!(machine.heap.contains(pointer(&machine, "s")));
        if strategy == Strategy::ReferenceCounted {
            assert_eq!(count(&machine, pointer(&machine, "s")), 1);
            assert_eq!(count(&machine, pointer(&machine, "r")), 1);
        }
    }
}

#[test]
fn call_result_in_flight_survives_a_collection() {
    let mut machine = machine(Strategy::GarbageCollected);
    ok(
        &mut machine,
        "fu make() { let o = { v: 1 }; return o; } fu both(a, b) { return a.v + b.v; } \
         let sum = both(make(), make());",
    );
    assert_eq!(integer(&machine, "sum"), 2);
}

#[test]
fn calls_see_globals_and_not_the_scope_of_the_caller() {
    let mut machine = machine(Strategy::Naive);
    ok(&mut machine, "let g = 10; fu read() { return g; } fu call() { let g = 20; return read(); } let r = call();");
    assert_eq!(integer(&machine, "r"), 10);
    ok(&mut machine, "fu peek() { return hidden; } fu outer() { let hidden = 1; return peek(); }");
    match fails(&mut machine, "outer();") {
        EvaluationError::UndefinedIdentifier { identifier } => assert_eq!(identifier, "hidden"),
        _ => panic!("expected an undefined identifier"),
    }
    assert_eq!(machine.stack.frames_count(), 1);
}

#[test]
fn functions_are_defined_before_the_other_statements_run() {
    let mut machine = machine(Strategy::Naive);
    ok(&mut machine, "let r = later(); fu later() { return 3; }");
    assert_eq!(integer(&machine, "r"), 3);
    ok(&mut machine, "let s = 0; { s = inner(); fu inner() { return 4; } }");
    assert_eq!(integer(&machine, "s"), 4);
}

#[test]
fn integer_operators_compute_and_wrap() {
    let mut machine = machine(Strategy::Naive);
    ok(
        &mut machine,
        "let a = 1 + 2 * 3; let b = (1 + 2) * 3; let c = 7 / 2; let d = 0 - 7; let e = d / 2; \
         let f = 2 ^ 10; let g = 2 ^ 3 ^ 2; let h = 10 - 4 - 3; let i = 6 & 3; let j = 6 | 3; \
         let k = -5; let l = !5; let m = 2147483647 + 1; let n = 2 ^ (0 - 1); let o = 3 ^ 0;",
    );
    assert_eq!(integer(&machine, "a"), 7);
    assert_eq!(integer(&machine, "b"), 9);
    assert_eq!(integer(&machine, "c"), 3);
    assert_eq!(integer(&machine, "d"), -7);
    assert_eq!(integer(&machine, "e"), -3);
    assert_eq!(integer(&machine, "f"), 1024);
    assert_eq!(integer(&machine, "g"), 512);
    assert_eq!(integer(&machine, "h"), 3);
    assert_eq!(integer(&machine, "i"), 2);
    assert_eq!(integer(&machine, "j"), 7);
    assert_eq!(integer(&machine, "k"), -5);
    assert_eq!(integer(&machine, "l"), -6);
    assert_eq!(integer(&machine, "m"), -2147483648);
    assert_eq!(integer(&machine, "n"), 0);
    assert_eq!(integer(&machine, "o"), 1);
}

#[test]
fn comparisons_and_logic_give_booleans() {
    let mut machine = machine(Strategy::Naive);
    ok(
        &mut machine,
        "let a = 1 < 2; let b = 2 <= 1; let c = 3 > 3; let d = 3 >= 3; let e = 1 == 1; \
         let f = 1 != 1; let g = true && false; let h = false || true; let i = !true; \
         let j = true & false; let k = true | false; let l = \"a\" == \"a\"; \
         let m = \"a\" != \"b\"; let n = true == false; let o = 1 < 2 ? 10 : 20;",
    );
    let expected = [
        ("a", true), ("b", false), ("c", false), ("d", true), ("e", true), ("f", false),
        ("g", false), ("h", true), ("i", false), ("j", false), ("k", true), ("l", true),
        ("m", true), ("n", false),
    ];
    for (identifier, value) in expected {
        assert_eq!(boolean(&machine, identifier), value, "{}", identifier);
    }
    assert_eq!(integer(&machine, "o"), 10);
}

#[test]
fn logic_does_not_evaluate_what_it_does_not_need() {
    let mut machine = machine(Strategy::Naive);
    ok(&mut machine, "let a = false && missing; let b = true || missing;");
    assert!(!boolean(&machine, "a"));
    assert!(boolean(&machine, "b"));
    match fails(&mut machine, "let c = true && 1;") {
        EvaluationError::InvalidBinaryTypes { left, operator, right } => {
            assert_eq!(left, Type::Boolean);
            assert_eq!(operator, BinaryOperator::AND);
            assert_eq!(right, Some(Type::Integer));
        },
        _ => panic!("expected a type error"),
    }
    match fails(&mut machine, "let d = 1 || true;") {
        EvaluationError::InvalidBinaryTypes { left, operator, right } => {
            assert_eq!(left, Type::Integer);
            assert_eq!(operator, BinaryOperator::OR);
            assert_eq!(right, None);
        },
        _ => panic!("expected a type error"),
    }
}

#[test]
fn floats_go_through_the_host() {
    let mut machine = machine(Strategy::Naive);
    ok(
        &mut machine,
        "let a = 1.5 + 2.25; let b = 1.0 / 4.0; let c = 2.0 ^ 0.5; let d = 1.5 < 2.5; \
         let e = 0.0 == 0.0 - 0.0; let f = -1.5; let g = 2.5 >= 2.5; let h = 3.0 * 0.5 - 1.0; \
         let i = 1.5 != 1.5; let j = 2.5 > 3.5; let k = f < 0.0; let l = 1.5 <= 0.5; \
         let text = format(a, \" \", 1.0);",
    );
    assert_eq!(float(&machine, "a"), 3.75);
    assert_eq!(float(&machine, "b"), 0.25);
    assert_eq!(float(&machine, "c"), 2.0f64.powf(0.5));
    assert!(boolean(&machine, "d"));
    assert!(boolean(&machine, "e"));
    assert_eq!(float(&machine, "f"), -1.5);
    assert!(boolean(&machine, "g"));
    assert_eq!(float(&machine, "h"), 0.5);
    assert!(!boolean(&machine, "i"));
    assert!(!boolean(&machine, "j"));
    assert!(boolean(&machine, "k"));
    assert!(!boolean(&machine, "l"));
    assert_eq!(string(&machine, "text"), "3.75 1");
}

#[test]
fn division_by_zero_is_an_error() {
    let mut machine = machine(Strategy::Naive);
    assert!(matches!(fails(&mut machine, "1 / 0;"), EvaluationError::DivisionByZero));
    assert!(matches!(fails(&mut machine, "1.0 / 0.0;"), EvaluationError::DivisionByZero));
    assert!(matches!(fails(&mut machine, "1.0 / (0.0 - 0.0);"), EvaluationError::DivisionByZero));
    assert!(matches!(fails(&mut machine, "0 ^ (0 - 1);"), EvaluationError::DivisionByZero));
}

#[test]
fn operators_reject_operands_of_the_wrong_type() {
    let mut machine = machine(Strategy::Naive);
    match fails(&mut machine, "1 + true;") {
        EvaluationError::InvalidBinaryTypes { left, operator, right } => {
            assert_eq!(left, Type::Integer);
            assert_eq!(operator, BinaryOperator::Add);
            assert_eq!(right, Some(Type::Boolean));
        },
        _ => panic!("expected a type error"),
    }
    match fails(&mut machine, "\"a\" < 1.5;") {
        EvaluationError::InvalidBinaryTypes { left, operator, right } => {
            assert_eq!(left, Type::String);
            assert_eq!(operator, BinaryOperator::LessThan);
            assert_eq!(right, Some(Type::Float));
        },
        _ => panic!("expected a type error"),
    }
    match fails(&mut machine, "-\"a\";") {
        EvaluationError::InvalidUnaryType { operand, .. } => assert_eq!(operand, Type::String),
        _ => panic!("expected a type error"),
    }
    match fails(&mut machine, "!{};") {
        EvaluationError::InvalidUnaryType { operand, .. } => assert_eq!(operand, Type::Object),
        _ => panic!("expected a type error"),
    }
}

#[test]
fn conditions_must_be_booleans() {
    let mut machine = machine(Strategy::Naive);
    for (source, construct) in [
        ("if 1 { }", "if-statement"),
        ("while \"x\" { }", "while-loop"),
        ("1 ? 2 : 3;", "ternary"),
    ] {
        match fails(&mut machine, source) {
            EvaluationError::NonBooleanControlFlowCondition { control_flow, .. } => {
                assert_eq!(control_flow, construct);
            },
            _ => panic!("expected a condition error"),
        }
    }
    match fails(&mut machine, "if 1.5 { }") {
        EvaluationError::NonBooleanControlFlowCondition { condition, .. } => {
            assert_eq!(condition, Type::Float);
        },
        _ => panic!("expected a condition error"),
    }
}

#[test]
fn identifiers_must_be_defined_and_initialised() {
    let mut machine = machine(Strategy::Naive);
    match fails(&mut machine, "missing;") {
        EvaluationError::UndefinedIdentifier { identifier } => assert_eq!(identifier, "missing"),
        _ => panic!("expected an undefined identifier"),
    }
    match fails(&mut machine, "missing = 1;") {
        EvaluationError::UndefinedIdentifier { identifier } => assert_eq!(identifier, "missing"),
        _ => panic!("expected an undefined identifier"),
    }
    match fails(&mut machine, "let empty; empty;") {
        EvaluationError::UninitialisedTarget { identifier } => assert_eq!(identifier, "empty"),
        _ => panic!("expected an uninitialised target"),
    }
    ok(&mut machine, "empty = 3;");
    assert_eq!(integer(&machine, "empty"), 3);
}

#[test]
fn fields_are_read_and_written_through_references() {
    for strategy in strategies() {
        let mut machine = machine(strategy);
        ok(
            &mut machine,
            "let a = { n: 1 }; let b = a; b.n = 2; b.m = \"new\"; let n = a.n; let m = a.m; \
             let inline = { k: 5 }.k;",
        );
        assert_eq!(integer(&machine, "n"), 2);
        assert_eq!(string(&machine, "m"), "new");
        assert_eq!(integer(&machine, "inline"), 5);
        match fails(&mut machine, "a.missing;") {
            EvaluationError::UndefinedField(field) => assert_eq!(field, "missing"),
            _ => panic!("expected an undefined field"),
        }
        match fails(&mut machine, "n.x;") {
            EvaluationError::AttemptToAccessNonObject { attempt } => {
                assert_eq!(attempt, Type::Integer);
            },
            _ => panic!("expected a non-object error"),
        }
        match fails(&mut machine, "n.x = 1;") {
            EvaluationError::AttemptToAccessNonObject { attempt } => {
                assert_eq!(attempt, Type::Integer);
            },
            _ => panic!("expected a non-object error"),
        }
        match fails(&mut machine, "({ k: 1 }).k = 2;") {
            EvaluationError::AttemptToAccessNonObject { attempt } => {
                assert_eq!(attempt, Type::Object);
            },
            _ => panic!("expected a non-object error"),
        }
    }
}

#[test]
fn field_write_counts_the_new_owner_and_releases_the_old() {
    let mut machine = machine(Strategy::ReferenceCounted);
    ok(&mut machine, "let a = { n: 1 }; let holder = { held: a };");
    let a = pointer(&machine, "a");
    assert_eq!(count(&machine, a), 2);
    ok(&mut machine, "let other = { n: 2 }; holder.held = other;");
    assert_eq!(count(&machine, a), 1);
    assert_eq!(count(&machine, pointer(&machine, "other")), 2);
    ok(&mut machine, "holder.held = { fresh: true };");
    assert_eq!(count(&machine, pointer(&machine, "other")), 1);
    assert_eq!(machine.heap.objects_count(), 4);
    ok(&mut machine, "holder.held = 0;");
    assert_eq!(machine.heap.objects_count(), 3);
}

#[test]
fn only_functions_can_be_called() {
    let mut machine = machine(Strategy::Naive);
    match fails(&mut machine, "let n = 1; n();") {
        EvaluationError::AttemptedCallOfNonFunction { attempt } => {
            assert_eq!(attempt, Type::Integer);
        },
        _ => panic!("expected a call error"),
    }
    ok(&mut machine, "fu nothing() { } ");
    assert!(matches!(fails(&mut machine, "let r = nothing();"), EvaluationError::AttemptToUseNothing));
    assert!(matches!(fails(&mut machine, "1 + nothing();"), EvaluationError::AttemptToUseNothing));
}

#[test]
fn argument_errors_are_not_swallowed() {
    let mut machine = machine(Strategy::ReferenceCounted);
    ok(&mut machine, "fu first(a, b) { return a; }");
    match fails(&mut machine, "first(1, missing);") {
        EvaluationError::UndefinedIdentifier { identifier } => assert_eq!(identifier, "missing"),
        _ => panic!("expected an undefined identifier"),
    }
    assert_eq!(machine.stack.frames_count(), 1);
}

#[test]
fn limits_stop_runaway_programs() {
    let mut machine = machine(Strategy::Naive);
    ok(&mut machine, "fu forever() { return forever(); }");
    assert!(matches!(fails(&mut machine, "forever();"), EvaluationError::LimitReached));
    assert_eq!(machine.stack.frames_count(), 1);
    let result = run(
        "let i = 0; while true { i = i + 1; }",
        literal,
        &mut machine.stack,
        &mut machine.heap,
        &mut machine.logger,
        &mut machine.host,
        Limits { depth: 10, rounds: 25 },
    );
    assert!(matches!(result, Err(Failure::Evaluation(EvaluationError::LimitReached))));
    assert_eq!(integer(&machine, "i"), 25);
}

#[test]
fn loops_and_recursion_compute() {
    for strategy in strategies() {
        let mut machine = machine(strategy);
        ok(
            &mut machine,
            "fu fib(n) { if n < 2 { return n; } return fib(n - 1) + fib(n - 2); } \
             let f = fib(10); let i = 0; let sum = 0; \
             while i < 10 { i = i + 1; if i == 5 { } else { sum = sum + i; } }",
        );
        assert_eq!(integer(&machine, "f"), 55);
        assert_eq!(integer(&machine, "sum"), 50);
    }
}

#[test]
fn return_leaves_enclosing_blocks_and_loops() {
    let mut machine = machine(Strategy::ReferenceCounted);
    ok(
        &mut machine,
        "fu find() { let i = 0; while true { i = i + 1; if i == 3 { { return i; } } } } \
         let r = find();",
    );
    assert_eq!(integer(&machine, "r"), 3);
    assert_eq!(machine.stack.frames_count(), 1);
    let flow = go(&mut machine, "let before = 1; return 5; let after = 2;");
    match flow {
        Ok(ControlFlow::Break(Some(Value::Integer(value)))) => assert_eq!(value, 5),
        _ => panic!("expected the program to return"),
    }
    assert_eq!(integer(&machine, "before"), 1);
    assert!(machine.stack.get(&"after".to_string()).is_err());
}

#[test]
fn print_and_format_write_values_as_text() {
    let mut machine = machine(Strategy::Naive);
    ok(
        &mut machine,
        "fu two(a, b) { } let o = { x: 1, y: 2 }; print(); print(1 + 1); print(\"text\"); \
         print(true); print(-12); print(print); print(two); print(o); print({ a: 1, b: 2 }); \
         print(format(\"n=\", 10, \", b=\", false)); print(2.5); print(0);",
    );
    let expected = [
        "", "2", "text", "true", "-12", "<native function>",
        "<function with 2 named parameters>", "<object reference>", "{ a, b }", "n=10, b=false",
        "2.5", "0",
    ];
    assert_eq!(machine.host.output, expected);
    match fails(&mut machine, "print(1, 2);") {
        EvaluationError::IncorrectArgumentCount { expected, passed } => {
            assert_eq!((expected, passed), (1, 2));
        },
        _ => panic!("expected an arity error"),
    }
}

#[test]
fn counts_are_visible_to_the_program_and_sampled() {
    let mut machine = machine(Strategy::Naive);
    machine.logger.record_memory_usage(Some(4096));
    ok(&mut machine, "let a = {}; let b = {}; let heap = HEAP_OBJECTS_COUNT; let frames = STACK_FRAMES_COUNT;");
    assert_eq!(integer(&machine, "heap"), 2);
    assert_eq!(integer(&machine, "frames"), 1);
    ok(&mut machine, "fu depth() { return STACK_FRAMES_COUNT; } let inner = depth();");
    assert_eq!(integer(&machine, "inner"), 2);
    let entries = machine.logger.entries();
    assert_eq!(entries.len(), 8);
    assert_eq!(entries[0].heap_objects_count, 0);
    assert_eq!(entries[1].heap_objects_count, 1);
    assert_eq!(entries[2].heap_objects_count, 2);
    assert_eq!(entries[0].stack_frames_count, 1);
    assert_eq!(entries[0].memory_usage, Some(4096));
    assert_eq!(entries[7].stack_frames_count, 2);
}

#[test]
fn text_that_is_not_a_program_is_not_executed() {
    let mut machine = machine(Strategy::Naive);
    ok(&mut machine, "let x = 1;");
    match go(&mut machine, "x = 2; let y = #;") {
        Err(Failure::Lexing(errors)) => assert_eq!(errors.len(), 1),
        _ => panic!("expected a lexing failure"),
    }
    match go(&mut machine, "x = 2; let = 3;") {
        Err(Failure::Parsing(errors)) => assert_eq!(errors.len(), 1),
        _ => panic!("expected a parsing failure"),
    }
    assert_eq!(integer(&machine, "x"), 1);
}

#[test]
fn nested_literal_is_promoted_with_the_record_that_holds_it() {
    for strategy in strategies() {
        let mut machine = machine(strategy);
        ok(&mut machine, "let a = { inner: { deep: 7 } }; let inner = a.inner; let deep = inner.deep;");
        assert_eq!(integer(&machine, "deep"), 7);
        assert_eq!(machine.heap.objects_count(), 2);
        if strategy == Strategy::ReferenceCounted {
            assert_eq!(count(&machine, pointer(&machine, "inner")), 2);
            assert_eq!(count(&machine, pointer(&machine, "a")), 1);
        }
    }
}

#[test]
fn parameter_binding_counts_owners() {
    let mut machine = machine(Strategy::ReferenceCounted);
    ok(
        &mut machine,
        "let a = { n: 1 }; let seen = 0; fu look(o) { seen = o.n; o = 5; return 0; } look(a); \
         fu fresh(o) { return o.n; } let n = fresh({ n: 3 });",
    );
    assert_eq!(integer(&machine, "seen"), 1);
    assert_eq!(integer(&machine, "n"), 3);
    assert_eq!(count(&machine, pointer(&machine, "a")), 1);
    assert_eq!(machine.heap.objects_count(), 1);
}
