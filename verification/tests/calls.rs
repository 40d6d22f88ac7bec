//! Calls: functions, closures, coroutines, attributes and unpacked arguments.

use monty::args::{ArgValues, KwargsValues};
use monty::builtins::{Builtins, BuiltinsFunctions};
use monty::exceptions::{ExcType, RunError};
use monty::function::{Function, Identifier, Signature};
use monty::heap::Heap;
use monty::heap_arith::allocate_tuple;
use monty::heap_data::{CellValue, Closure, FunctionDefaults, HeapData};
use monty::intern::{FunctionId, InternerBuilder, Interns, StringId};
use monty::resource::NoLimitTracker;
use monty::types::Type;
use monty::types::mappings::{Dataclass, Dict, DictEntry};
use monty::types::py_trait::NativeCall;
use monty::types::sequences::{List, Str};
use monty::value::{EitherStr, HeapId, Value};
use monty::vm::call::CallResult;
use monty::vm::opcodes::{Evaluation, FrameExit};
use monty::vm::{CallFrame, Namespaces, VM};

/// A machine with these functions:
/// - 0: `f(a, b)`
/// - 1: `g(a)`, whose parameter an inner function captures, and which gets one cell
/// - 2: `async h(a)`
/// - 3: `async k(a)`, whose parameter an inner function captures
fn machine() -> VM<NoLimitTracker> {
    let mut builder = InternerBuilder::new("");
    let names: Vec<StringId> = ["f", "g", "h", "k", "append", "ext_fn"].iter().map(|n| builder.intern(n)).collect();
    let (a, b) = (builder.intern("a"), builder.intern("b"));
    let function = |name: StringId, params: Vec<StringId>, cells: usize, size: usize, is_async: bool| Function {
        name: Identifier { name_id: name },
        signature: Signature { params },
        namespace_size: size,
        cell_var_count: cells,
        cell_param_indices: vec![Some(0); cells],
        is_async,
        code: Vec::new(),
    };
    let functions = vec![
        function(names[0], vec![a, b], 0, 3, false),
        function(names[1], vec![a], 1, 3, false),
        function(names[2], vec![a], 0, 2, true),
        function(names[3], vec![a], 1, 2, true),
    ];
    VM {
        heap: Heap::new(0, NoLimitTracker),
        interns: Interns::new(builder, functions),
        namespaces: Namespaces { spaces: vec![Vec::new()] },
        stack: Vec::new(),
        frames: vec![CallFrame {
            function: None,
            namespace_idx: 0,
            cells: Vec::new(),
            stack_base: 0,
            call_position: None,
            position: 7,
            should_return: false,
        }],
    }
}

fn id(vm: &VM<NoLimitTracker>, name: &str) -> StringId {
    vm.interns.get_string_id_by_name(name).unwrap()
}

fn text(vm: &mut VM<NoLimitTracker>, t: &str) -> HeapId {
    vm.heap.allocate(HeapData::Str(Str::new(t.to_owned()))).unwrap()
}

fn f(n: u16) -> FunctionId {
    FunctionId::from_index(n)
}

#[test]
fn functions_get_frames() {
    let mut vm = machine();
    vm.push(Value::Int(99));
    vm.push(Value::DefFunction(f(0)));
    vm.push(Value::Int(1));
    vm.push(Value::Int(2));
    assert!(matches!(vm.exec_call_function(2), Ok(CallResult::FramePushed)));
    assert_eq!(vm.stack, vec![Value::Int(99)]);
    let frame = vm.frames.last().unwrap();
    assert_eq!(frame.function, Some(f(0)));
    assert_eq!((frame.namespace_idx, frame.stack_base, frame.call_position), (1, 1, Some(7)));
    assert_eq!(vm.namespaces.spaces[1], vec![Value::Int(1), Value::Int(2), Value::Undefined]);
    assert_eq!(vm.heap.get_recursion_depth(), 1);
}

#[test]
fn keywords_are_bound_by_name() {
    let mut vm = machine();
    let names = vec![id(&vm, "b")];
    vm.push(Value::DefFunction(f(0)));
    vm.push(Value::Int(1));
    vm.push(Value::Int(2));
    assert!(matches!(vm.exec_call_function_kw(1, names), Ok(CallResult::FramePushed)));
    assert_eq!(vm.namespaces.spaces[1], vec![Value::Int(1), Value::Int(2), Value::Undefined]);
}

#[test]
fn wrong_arguments_are_given_up() {
    let mut vm = machine();
    let t = text(&mut vm, "argument");
    vm.push(Value::DefFunction(f(0)));
    vm.push(Value::Ref(t));
    match vm.exec_call_function(1) {
        Err(RunError::MissingPositional { name, missing }) => {
            assert_eq!((name.as_str(), missing), ("f", vec!["b".to_owned()]));
        }
        _ => panic!("no error"),
    }
    assert_eq!(vm.heap.entry_count(), 0);
    assert_eq!(vm.frames.len(), 1);
}

#[test]
fn captured_parameters_get_cells() {
    let mut vm = machine();
    let outer = vm.heap.allocate(HeapData::Cell(CellValue(Value::Int(5)))).unwrap();
    let closure = vm
        .heap
        .allocate(HeapData::Closure(Closure { func_id: f(1), cells: vec![outer], defaults: vec![] }))
        .unwrap();
    vm.push(Value::Ref(closure));
    vm.push(Value::Int(3));
    assert!(matches!(vm.exec_call_function(1), Ok(CallResult::FramePushed)));
    let frame = vm.frames.last().unwrap();
    assert_eq!(frame.cells.len(), 2);
    assert_eq!(frame.cells[1], outer);
    let own = frame.cells[0];
    assert_eq!(vm.heap.get_cell_value(own), Value::Int(3));
    let variables = &vm.namespaces.spaces[1];
    assert_eq!(variables[1..], [Value::Ref(own), Value::Ref(outer)]);
}

#[test]
fn defaults_fill_what_is_missing() {
    let mut vm = machine();
    let t = text(&mut vm, "default");
    let callable = vm
        .heap
        .allocate(HeapData::FunctionDefaults(FunctionDefaults { func_id: f(0), defaults: vec![Value::Ref(t)] }))
        .unwrap();
    vm.heap.inc_ref(callable);
    vm.push(Value::Ref(callable));
    vm.push(Value::Int(1));
    assert!(matches!(vm.exec_call_function(1), Ok(CallResult::FramePushed)));
    assert_eq!(vm.namespaces.spaces[1], vec![Value::Int(1), Value::Ref(t), Value::Undefined]);
    // Held by the function and by the variable.
    assert_eq!(vm.heap.get_refcount(t), 2);
    assert_eq!(vm.heap.get_refcount(callable), 1);
    vm.namespaces.drop_with_heap(&mut vm.heap);
    assert_eq!(vm.heap.get_refcount(t), 1);
    assert_eq!(vm.heap.get_recursion_depth(), 0);
}

#[test]
fn async_functions_make_coroutines() {
    let mut vm = machine();
    vm.push(Value::DefFunction(f(2)));
    vm.push(Value::Int(4));
    let Ok(CallResult::Push(Value::Ref(c))) = vm.exec_call_function(1) else { panic!("no coroutine") };
    let HeapData::Coroutine(c) = vm.heap.get(c) else { panic!("no coroutine") };
    assert_eq!((c.func_id, c.namespace.clone()), (f(2), vec![Value::Int(4), Value::Undefined]));
    assert_eq!(vm.frames.len(), 1);

    vm.push(Value::DefFunction(f(3)));
    vm.push(Value::Int(4));
    let Ok(CallResult::Push(Value::Ref(c))) = vm.exec_call_function(1) else { panic!("no coroutine") };
    let HeapData::Coroutine(c) = vm.heap.get(c) else { panic!("no coroutine") };
    assert_eq!(c.namespace[1], Value::Ref(c.frame_cells[0]));
}

#[test]
fn what_cannot_be_called_is_named() {
    let mut vm = machine();
    let t = text(&mut vm, "argument");
    vm.push(Value::Int(1));
    vm.push(Value::Ref(t));
    match vm.exec_call_function(1) {
        Err(RunError::Exc(e)) => assert_eq!(e.arg.as_deref(), Some("'int' object is not callable")),
        _ => panic!("no error"),
    }
    let l = vm.heap.allocate(HeapData::List(List::new(vec![]))).unwrap();
    vm.push(Value::Ref(l));
    match vm.exec_call_function(0) {
        Err(RunError::Exc(e)) => {
            assert_eq!((e.exc_type, e.arg.as_deref()), (ExcType::TypeError, Some("object is not callable")));
        }
        _ => panic!("no error"),
    }
    assert_eq!(vm.heap.entry_count(), 0);
}

#[test]
fn the_host_is_asked_for_its_functions() {
    let mut vm = machine();
    let name = id(&vm, "ext_fn");
    vm.push(Value::ExtFunction(name));
    for i in 0..3 {
        vm.push(Value::Int(i));
    }
    match vm.exec_call_function(3) {
        Ok(CallResult::External(EitherStr::Interned(n), args)) => {
            assert_eq!(n, name);
            assert_eq!(args.into_values(), vec![Value::Int(0), Value::Int(1), Value::Int(2)]);
        }
        _ => panic!("no call"),
    }
    let dynamic = vm.heap.allocate(HeapData::ExtFunction("dyn_fn".to_owned())).unwrap();
    vm.push(Value::Ref(dynamic));
    match vm.exec_call_function(0) {
        Ok(CallResult::External(EitherStr::Heap(n), ArgValues::Empty)) => assert_eq!(n, "dyn_fn"),
        _ => panic!("no call"),
    }
}

#[test]
fn builtins_are_asked_for() {
    let mut vm = machine();
    vm.push(Value::Int(1));
    match vm.exec_call_builtin_function(Some(BuiltinsFunctions(3)), 1) {
        Ok(CallResult::Native(NativeCall::Builtin(Builtins::Function(b), ArgValues::One(v)))) => {
            assert_eq!((b, v), (BuiltinsFunctions(3), Value::Int(1)));
        }
        _ => panic!("no builtin"),
    }
    let e = vm.exec_call_builtin_function(None, 1).unwrap_err();
    assert!(matches!(&e, RunError::Internal(m) if m == "CallBuiltinFunction: invalid builtin_id"));
    assert_eq!(e.exc_type(), None);
    assert!(matches!(
        vm.exec_call_builtin_type(Some(Type::List), 0),
        Ok(CallResult::Native(NativeCall::Builtin(Builtins::Type(Type::List), ArgValues::Empty)))
    ));
    assert!(matches!(
        vm.exec_call_builtin_type(None, 0),
        Err(RunError::Internal(m)) if m == "CallBuiltinType: invalid type_id"
    ));
}

#[test]
fn attributes_are_called() {
    let mut vm = machine();
    let append = id(&vm, "append");
    let l = vm.heap.allocate(HeapData::List(List::new(vec![]))).unwrap();
    vm.push(Value::Ref(l));
    vm.push(Value::Int(1));
    match vm.exec_call_attr(append, 1) {
        Ok(CallResult::Native(NativeCall::Method { receiver, name: EitherStr::Interned(n), args: ArgValues::One(v) })) => {
            assert_eq!((receiver, n, v), (Value::Ref(l), append, Value::Int(1)));
        }
        _ => panic!("no method"),
    }
    // The call holds the receiver.
    assert_eq!(vm.heap.get_refcount(l), 1);
    let text = Value::InternString(id(&vm, "f"));
    vm.push(text);
    assert!(matches!(vm.exec_call_attr(append, 0), Ok(CallResult::Native(NativeCall::Method { .. }))));

    vm.push(Value::Int(5));
    vm.push(Value::Ref(l));
    match vm.exec_call_attr(append, 1) {
        Err(RunError::AttributeMissing { of, attr }) => assert_eq!((of, attr.as_str()), (Type::Int, "append")),
        _ => panic!("no error"),
    }
    assert_eq!(vm.heap.entry_count(), 0);

    let names = vec![append];
    let c = vm.heap.allocate(HeapData::Cell(CellValue(Value::Int(1)))).unwrap();
    vm.push(Value::Ref(c));
    vm.push(Value::Int(2));
    assert!(matches!(vm.exec_call_attr_kw(append, 0, names), Err(RunError::AttributeMissing { .. })));
    assert_eq!(vm.heap.entry_count(), 0);
    assert_eq!(vm.stack.len(), 0);
}

#[test]
fn methods_of_dataclasses_are_left_to_the_host() {
    let mut vm = machine();
    let (append, a) = (id(&vm, "append"), id(&vm, "a"));
    let entries = vec![DictEntry { key: Value::InternString(a), value: Value::Int(5) }];
    let point = vm
        .heap
        .allocate(HeapData::Dataclass(Dataclass {
            name: EitherStr::Heap("Point".to_owned()),
            type_id: 1,
            field_names: vec!["a".to_owned()],
            attrs: Dict { entries },
            frozen: false,
        }))
        .unwrap();
    let me = Value::Ref(point);
    vm.push(me);
    vm.push(Value::Int(1));
    match vm.exec_call_attr(append, 1) {
        Ok(CallResult::MethodCall(EitherStr::Interned(n), ArgValues::Two(first, second))) => {
            assert_eq!((n, first, second), (append, me, Value::Int(1)));
        }
        _ => panic!("no method"),
    }
    // The instance is handed over with its reference.
    assert_eq!(vm.heap.get_refcount(point), 1);
    vm.push(me);
    assert!(matches!(vm.exec_call_attr(append, 0), Ok(CallResult::MethodCall(_, ArgValues::One(v))) if v == me));
    vm.push(me);
    vm.push(Value::Int(7));
    match vm.exec_call_attr_kw(append, 0, vec![a]) {
        Ok(CallResult::MethodCall(_, ArgValues::ArgsKargs { args, kwargs: KwargsValues::Inline(pairs) })) => {
            assert_eq!(args, vec![me]);
            assert_eq!(pairs, vec![(a, Value::Int(7))]);
        }
        _ => panic!("no method"),
    }
    // A field is no method of the host's.
    vm.push(me);
    assert!(matches!(
        vm.exec_call_attr(a, 0),
        Ok(CallResult::Native(NativeCall::Method { receiver, .. })) if receiver == me
    ));
}

#[test]
fn arguments_have_the_form_that_belongs_to_them() {
    let mut vm = machine();
    let (ext, a) = (Value::ExtFunction(id(&vm, "ext_fn")), id(&vm, "a"));
    let n = |i: i64| Value::Int(i);
    let call = |vm: &mut VM<NoLimitTracker>, pos: &[Value]| {
        vm.push(ext);
        pos.iter().for_each(|v| vm.push(*v));
        match vm.exec_call_function(pos.len()) {
            Ok(CallResult::External(_, args)) => args,
            _ => panic!("no call"),
        }
    };
    assert!(matches!(call(&mut vm, &[]), ArgValues::Empty));
    assert!(matches!(call(&mut vm, &[n(1)]), ArgValues::One(Value::Int(1))));
    assert!(matches!(call(&mut vm, &[n(1), n(2)]), ArgValues::Two(Value::Int(1), Value::Int(2))));
    assert!(matches!(
        call(&mut vm, &[n(1), n(2), n(3)]),
        ArgValues::ArgsKargs { args, kwargs: KwargsValues::Empty } if args.len() == 3
    ));

    let call = |vm: &mut VM<NoLimitTracker>, pos: Vec<Value>, pairs: Option<Vec<DictEntry>>| {
        vm.push(ext);
        let args = allocate_tuple(pos, &mut vm.heap).unwrap();
        vm.push(args);
        let unpacks = pairs.is_some();
        if let Some(entries) = pairs {
            let d = vm.heap.allocate(HeapData::Dict(Dict { entries })).unwrap();
            vm.push(Value::Ref(d));
        }
        match vm.exec_call_function_extended(unpacks) {
            Ok(CallResult::External(_, args)) => args,
            _ => panic!("no call"),
        }
    };
    let pair = || vec![DictEntry { key: Value::InternString(a), value: Value::Int(7) }];
    assert!(matches!(call(&mut vm, vec![n(1)], None), ArgValues::One(Value::Int(1))));
    assert!(matches!(call(&mut vm, vec![], Some(vec![])), ArgValues::Empty));
    assert!(matches!(
        call(&mut vm, vec![], Some(pair())),
        ArgValues::Kwargs(KwargsValues::Dict(d)) if d.entries.len() == 1
    ));
    assert!(matches!(
        call(&mut vm, vec![n(1)], Some(vec![])),
        ArgValues::ArgsKargs { args, kwargs: KwargsValues::Empty } if args.len() == 1
    ));
    assert!(matches!(
        call(&mut vm, vec![n(1)], Some(pair())),
        ArgValues::ArgsKargs { args, kwargs: KwargsValues::Dict(d) } if args.len() == 1 && d.entries.len() == 1
    ));
    assert_eq!(vm.heap.entry_count(), 0);
}

#[test]
fn unpacked_arguments_are_copied() {
    let mut vm = machine();
    let t = text(&mut vm, "item");
    let args = allocate_tuple(vec![Value::Ref(t)], &mut vm.heap).unwrap();
    let key = Value::InternString(id(&vm, "b"));
    let kwargs = vm
        .heap
        .allocate(HeapData::Dict(Dict { entries: vec![DictEntry { key, value: Value::Int(2) }] }))
        .unwrap();
    vm.push(Value::DefFunction(f(0)));
    vm.push(args);
    vm.push(Value::Ref(kwargs));
    assert!(matches!(vm.exec_call_function_extended(true), Ok(CallResult::FramePushed)));
    assert_eq!(vm.namespaces.spaces[1], vec![Value::Ref(t), Value::Int(2), Value::Undefined]);
    // The tuple and the dictionary are gone.
    assert_eq!(vm.heap.entry_count(), 1);
    assert_eq!(vm.heap.get_refcount(t), 1);
}

#[test]
fn unpacked_arguments_reach_attributes() {
    let mut vm = machine();
    let append = id(&vm, "append");
    let l = vm.heap.allocate(HeapData::List(List::new(vec![]))).unwrap();
    let args = allocate_tuple(vec![Value::Int(1), Value::Int(2), Value::Int(3)], &mut vm.heap).unwrap();
    vm.push(Value::Ref(l));
    vm.push(args);
    match vm.exec_call_attr_extended(append, false) {
        Ok(CallResult::Native(NativeCall::Method { args, .. })) => {
            assert_eq!(args.into_values(), vec![Value::Int(1), Value::Int(2), Value::Int(3)]);
        }
        _ => panic!("no method"),
    }
    assert_eq!(vm.heap.entry_count(), 1);
    let empty = vm.heap.get_empty_tuple();
    let kwargs = vm.heap.allocate(HeapData::Dict(Dict::new())).unwrap();
    vm.push(Value::Ref(l));
    vm.push(empty);
    vm.push(Value::Ref(kwargs));
    assert!(matches!(
        vm.exec_call_attr_extended(append, true),
        Ok(CallResult::Native(NativeCall::Method { args: ArgValues::Empty, .. }))
    ));
}

#[test]
fn evaluation_runs_functions_to_completion() {
    let mut vm = machine();
    let args = ArgValues::Two(Value::Int(1), Value::Int(2));
    let Ok(Evaluation::Run { stack_depth }) = vm.evaluate_function("sorted", &Value::DefFunction(f(0)), args) else {
        panic!("nothing to run")
    };
    assert_eq!(stack_depth, 2);
    assert!(vm.frames.last().unwrap().should_return);
    assert_eq!(vm.finish_evaluation("sorted", stack_depth, FrameExit::Return(Value::Int(3))).unwrap(), Value::Int(3));
    let abandoned = vm.finish_evaluation("sorted", 1, FrameExit::OsCall).unwrap_err();
    assert_eq!(abandoned.frames, 1);
    let message = "sorted: external functions are not yet supported in this context";
    assert!(matches!(abandoned.error, RunError::Internal(m) if m == message));

    let ext = Value::ExtFunction(id(&vm, "ext_fn"));
    let r = vm.evaluate_function("sorted", &ext, ArgValues::Empty);
    assert!(matches!(r, Err(RunError::Internal(m)) if m == message));
    let len = Value::Builtin(Builtins::Function(BuiltinsFunctions(0)));
    assert!(matches!(vm.evaluate_function("map", &len, ArgValues::Empty), Ok(Evaluation::Native(_))));
    let made = Value::DefFunction(f(2));
    assert!(matches!(vm.evaluate_function("map", &made, ArgValues::One(Value::Int(1))), Ok(Evaluation::Done(_))));
}

#[test]
fn arguments_come_apart() {
    let mut vm = machine();
    let name = id(&vm, "a");
    let args = ArgValues::Kwargs(KwargsValues::Inline(vec![(name, Value::Int(1))]));
    let (pos, kws) = args.into_parts();
    assert!(pos.is_empty());
    assert_eq!((kws[0].key, kws[0].value), (Value::InternString(name), Value::Int(1)));
    let heap = &mut vm.heap;
    assert_eq!(ArgValues::One(Value::Int(1)).get_one_arg("f", heap).unwrap(), Value::Int(1));
    assert!(matches!(ArgValues::Empty.get_one_arg("f", heap), Err(RunError::WrongArgCount { min: 1, max: 1, given: 0, .. })));
    assert_eq!(ArgValues::Two(Value::Int(1), Value::Int(2)).into_pos_only("f", heap).unwrap().len(), 2);
}
