//! What is refused leaves nothing counted that nobody holds.

use monty::args::{ArgValues, KwargsValues};
use monty::exceptions::RunError;
use monty::function::{Function, Identifier, Signature};
use monty::heap::Heap;
use monty::heap_data::{CellValue, Closure, HeapData};
use monty::intern::{FunctionId, InternerBuilder, Interns, StringId};
use monty::modules::ModuleFunctions;
use monty::modules::collections::CollectionsFunctions;
use monty::modules::re::ReFunctions;
use monty::resource::{ResourceError, ResourceTracker};
use monty::types::namedtuple_factory::NamedTupleFactory;
use monty::types::sequences::{List, Str, Tuple};
use monty::value::{EitherStr, HeapId, Value};
use monty::vm::call::CallResult;
use monty::vm::{CallFrame, Namespaces, VM};
use std::cell::Cell;

/// Refuses allocations after some, depths over a limit, and time after some looks at
/// the clock; and counts the bytes that are in use.
#[derive(Debug)]
struct Budget {
    allocations: usize,
    used: usize,
    depth: usize,
    looks: Cell<usize>,
}

impl ResourceTracker for Budget {
    // What contracts say is never run.
    fn allocate_outcome(self, _: usize, _: Self, _: Result<(), ResourceError>) -> bool {
        unreachable!()
    }

    fn free_outcome(self, _: usize, _: Self) -> bool {
        unreachable!()
    }

    fn time_outcome(self, _: Result<(), ResourceError>) -> bool {
        unreachable!()
    }

    fn depth_outcome(self, _: usize) -> Result<(), ResourceError> {
        unreachable!()
    }

    fn large_result_outcome(self, _: usize) -> Result<(), ResourceError> {
        unreachable!()
    }

    fn on_allocate(&mut self, size: usize) -> Result<(), ResourceError> {
        if self.allocations == 0 {
            return Err(ResourceError::Memory { limit: self.used, used: self.used + size });
        }
        self.allocations -= 1;
        self.used += size;
        Ok(())
    }

    fn on_free(&mut self, size: usize) {
        self.used -= size;
    }

    fn check_time(&self) -> Result<(), ResourceError> {
        if self.looks.get() == 0 {
            return Err(ResourceError::Memory { limit: 0, used: 0 });
        }
        self.looks.set(self.looks.get() - 1);
        Ok(())
    }

    fn check_recursion_depth(&self, depth: usize) -> Result<(), ResourceError> {
        if depth > self.depth {
            Err(ResourceError::Recursion { limit: self.depth, depth })
        } else {
            Ok(())
        }
    }

    fn check_large_result(&self, _: usize) -> Result<(), ResourceError> {
        Ok(())
    }
}

const PLENTY: usize = 1_000_000;

/// A machine with these functions, whose parameter an inner function captures:
/// - 0: `g(a)`
/// - 1: `async k(a)`
/// - 2: `async m(a)`, with two cells
fn machine() -> VM<Budget> {
    let mut builder = InternerBuilder::new("");
    let names: Vec<StringId> = ["g", "k", "m", "append", "ext_fn", "count", "flags"]
        .iter()
        .map(|n| builder.intern(n))
        .collect();
    let a = builder.intern("a");
    let function = |name: StringId, cells: usize, size: usize, is_async: bool| Function {
        name: Identifier { name_id: name },
        signature: Signature { params: vec![a] },
        namespace_size: size,
        cell_var_count: cells,
        cell_param_indices: vec![Some(0); cells],
        is_async,
        code: Vec::new(),
    };
    let functions = vec![
        function(names[0], 1, 4, false),
        function(names[1], 1, 4, true),
        function(names[2], 2, 4, true),
    ];
    let budget = Budget { allocations: PLENTY, used: 0, depth: 100, looks: Cell::new(PLENTY) };
    VM {
        heap: Heap::new(0, budget),
        interns: Interns::new(builder, functions),
        namespaces: Namespaces { spaces: vec![Vec::new()] },
        stack: Vec::new(),
        frames: vec![CallFrame {
            function: None,
            namespace_idx: 0,
            cells: Vec::new(),
            stack_base: 0,
            call_position: None,
            position: 0,
            should_return: false,
        }],
    }
}

fn id(vm: &VM<Budget>, name: &str) -> StringId {
    vm.interns.get_string_id_by_name(name).unwrap()
}

fn put(vm: &mut VM<Budget>, data: HeapData) -> HeapId {
    vm.heap.allocate(data).unwrap()
}

fn text(vm: &mut VM<Budget>, t: &str) -> HeapId {
    put(vm, HeapData::Str(Str::new(t.to_owned())))
}

/// A closure over one cell, and the cell.
fn closure(vm: &mut VM<Budget>, function: u16) -> (HeapId, HeapId) {
    let cell = put(vm, HeapData::Cell(CellValue(Value::Int(5))));
    let func_id = FunctionId::from_index(function);
    let closure = put(vm, HeapData::Closure(Closure { func_id, cells: vec![cell], defaults: vec![] }));
    (closure, cell)
}

fn call(vm: &mut VM<Budget>, callable: HeapId, arg: HeapId) -> Result<CallResult, RunError> {
    vm.push(Value::Ref(callable));
    vm.push(Value::Ref(arg));
    vm.exec_call_function(1)
}

#[test]
fn coroutines_count_their_cells_twice_and_give_all_up() {
    let mut vm = machine();
    let start = vm.heap.tracker().used;
    let (made_by, outer) = closure(&mut vm, 1);
    vm.heap.inc_ref(made_by);
    let t = text(&mut vm, "argument");
    let Ok(CallResult::Push(Value::Ref(c))) = call(&mut vm, made_by, t) else { panic!("no coroutine") };
    let HeapData::Coroutine(coroutine) = vm.heap.get(c) else { panic!("no coroutine") };
    let own = coroutine.frame_cells[0];
    assert_eq!(coroutine.frame_cells, vec![own, outer]);
    assert_eq!(coroutine.namespace[1..3], [Value::Ref(own), Value::Ref(outer)]);
    // Once as a cell of the frame, once as a variable.
    assert_eq!(vm.heap.get_refcount(own), 2);
    // The closure holds it too.
    assert_eq!(vm.heap.get_refcount(outer), 3);
    // The parameter and the cell hold the argument.
    assert_eq!(vm.heap.get_refcount(t), 2);
    vm.heap.dec_ref(c);
    assert_eq!(vm.heap.get_refcount(outer), 1);
    vm.heap.dec_ref(made_by);
    assert_eq!((vm.heap.entry_count(), vm.heap.tracker().used), (0, start));
}

#[test]
fn refused_coroutines_give_everything_up() {
    // Neither cell, only the first one, or both are made; the coroutine is not.
    for allowed in 0..3 {
        let mut vm = machine();
        let start = vm.heap.tracker().used;
        let (made_by, outer) = closure(&mut vm, 2);
        vm.heap.inc_ref(made_by);
        let t = text(&mut vm, "argument");
        vm.heap.inc_ref(t);
        vm.heap.tracker_mut().allocations = allowed;
        assert!(matches!(call(&mut vm, made_by, t), Err(RunError::Resource(_))));
        assert_eq!(vm.heap.get_refcount(t), 1);
        assert_eq!(vm.heap.get_refcount(outer), 1);
        assert_eq!(vm.heap.get_refcount(made_by), 1);
        vm.heap.dec_ref(t);
        vm.heap.dec_ref(made_by);
        assert_eq!((vm.heap.entry_count(), vm.heap.tracker().used), (0, start));
    }
}

#[test]
fn refused_cells_give_the_frame_up() {
    let mut vm = machine();
    let (made_by, outer) = closure(&mut vm, 0);
    vm.heap.inc_ref(made_by);
    let t = text(&mut vm, "argument");
    vm.heap.tracker_mut().allocations = 0;
    assert!(matches!(call(&mut vm, made_by, t), Err(RunError::Resource(_))));
    assert_eq!((vm.namespaces.spaces.len(), vm.frames.len()), (1, 1));
    assert_eq!(vm.heap.get_recursion_depth(), 0);
    assert_eq!(vm.heap.get_refcount(outer), 1);
    // The closure and its cell are left.
    assert_eq!(vm.heap.entry_count(), 2);
}

#[test]
fn too_deep_calls_give_their_arguments_up() {
    let mut vm = machine();
    let (made_by, outer) = closure(&mut vm, 0);
    vm.heap.inc_ref(made_by);
    let t = text(&mut vm, "argument");
    vm.heap.set_recursion_depth(101);
    assert!(matches!(call(&mut vm, made_by, t), Err(RunError::Resource(ResourceError::Recursion { .. }))));
    assert_eq!(vm.heap.get_refcount(outer), 1);
    assert_eq!(vm.heap.entry_count(), 2);
    assert_eq!(vm.heap.get_recursion_depth(), 101);
}

#[test]
fn wrong_arguments_give_captured_cells_up() {
    for function in [0, 1] {
        let mut vm = machine();
        let (made_by, outer) = closure(&mut vm, function);
        vm.heap.inc_ref(made_by);
        let t = text(&mut vm, "argument");
        vm.push(Value::Ref(made_by));
        vm.push(Value::Int(1));
        vm.push(Value::Ref(t));
        assert!(matches!(vm.exec_call_function(2), Err(RunError::TooManyPositional { .. })));
        assert_eq!(vm.heap.get_refcount(outer), 1);
        assert_eq!(vm.heap.entry_count(), 2);
    }
}

#[test]
fn missing_attributes_give_arguments_up() {
    let mut vm = machine();
    let name = id(&vm, "append");
    let range = put(&mut vm, HeapData::Cell(CellValue(Value::Int(1))));
    let t = text(&mut vm, "argument");
    vm.push(Value::Ref(range));
    vm.push(Value::Ref(t));
    assert!(matches!(vm.exec_call_attr(name, 1), Err(RunError::AttributeMissing { .. })));
    assert_eq!(vm.heap.entry_count(), 0);

    // The same for a payload that is lent out: only the caller's own reference is left.
    let cell = put(&mut vm, HeapData::Cell(CellValue(Value::Int(1))));
    let t = text(&mut vm, "argument");
    let interns = &vm.interns;
    let r = vm.heap.with_entry_mut(cell, |heap, data| {
        data.py_call_attr(cell, heap, &EitherStr::Interned(name), ArgValues::One(Value::Ref(t)), interns)
    });
    assert!(matches!(r, Err(RunError::AttributeMissing { .. })));
    assert_eq!(vm.heap.entry_count(), 1);
}

#[test]
fn abandoned_evaluations_give_arguments_up() {
    let mut vm = machine();
    let ext = Value::ExtFunction(id(&vm, "ext_fn"));
    let t = text(&mut vm, "argument");
    assert!(matches!(vm.evaluate_function("sorted", &ext, ArgValues::One(Value::Ref(t))), Err(RunError::Internal(_))));
    assert_eq!(vm.heap.entry_count(), 0);
}

#[test]
fn refused_repetitions_leave_the_counts() {
    for as_tuple in [false, true] {
        let mut vm = machine();
        let item = text(&mut vm, "item");
        let items = vec![Value::Ref(item), Value::Int(1)];
        let data = if as_tuple { HeapData::Tuple(Tuple::new(items)) } else { HeapData::List(List::new(items)) };
        let source = put(&mut vm, data);
        let used = vm.heap.tracker().used;
        // The time is up after two of five rounds.
        vm.heap.tracker_mut().looks = Cell::new(1);
        assert!(matches!(vm.heap.mult_sequence(source, 5), Err(RunError::Resource(_))));
        assert_eq!((vm.heap.get_refcount(item), vm.heap.tracker().used), (1, used));
        // The result is refused after all five.
        vm.heap.tracker_mut().looks = Cell::new(PLENTY);
        vm.heap.tracker_mut().allocations = 0;
        assert!(matches!(vm.heap.mult_ref_by_i64(source, 5), Err(RunError::Resource(_))));
        assert_eq!((vm.heap.get_refcount(item), vm.heap.tracker().used), (1, used));
        vm.heap.tracker_mut().allocations = 1;
        assert!(vm.heap.mult_sequence(source, 5).unwrap().is_some());
        assert_eq!(vm.heap.get_refcount(item), 6);
    }
}

#[test]
fn refused_patterns_give_all_arguments_up() {
    let mut vm = machine();
    let (count, flags) = (id(&vm, "count"), id(&vm, "flags"));
    let re = |vm: &mut VM<Budget>, f: ReFunctions, n: usize, kws: Vec<StringId>| {
        let args = (0..n).map(|_| Value::Ref(text(vm, "argument"))).collect();
        let kwargs = kws.into_iter().map(|k| (k, Value::Ref(text(vm, "keyword")))).collect();
        let args = ArgValues::ArgsKargs { args, kwargs: KwargsValues::Inline(kwargs) };
        let r = ModuleFunctions::Re(f).call(&mut vm.heap, args, &vm.interns);
        assert!(matches!(r, Err(RunError::Exc(_))));
        assert_eq!(vm.heap.entry_count(), 0);
    };
    // Too many arguments.
    re(&mut vm, ReFunctions::Sub, 6, vec![]);
    re(&mut vm, ReFunctions::Split, 5, vec![]);
    // An argument given twice, and one that is not known.
    re(&mut vm, ReFunctions::Sub, 4, vec![flags, count]);
    re(&mut vm, ReFunctions::Split, 3, vec![flags, count]);
    // A count and a limit that are no integers, with flags.
    re(&mut vm, ReFunctions::Sub, 4, vec![flags]);
    re(&mut vm, ReFunctions::Split, 3, vec![flags]);
    // Flags that are no integer.
    re(&mut vm, ReFunctions::Compile, 2, vec![]);
}

#[test]
fn patterns_that_are_no_strings_give_the_flags_up() {
    let mut vm = machine();
    let flags = text(&mut vm, "flags");
    let args = ArgValues::Two(Value::Int(1), Value::Ref(flags));
    let r = ModuleFunctions::Re(ReFunctions::Compile).call(&mut vm.heap, args, &vm.interns);
    assert!(matches!(r, Err(RunError::ExpectedStr(_))));
    assert_eq!(vm.heap.entry_count(), 0);
}

#[test]
fn refused_named_tuples_give_their_values_up() {
    let mut vm = machine();
    let default = text(&mut vm, "default");
    let name = EitherStr::Heap("P".to_owned());
    let fields = vec![EitherStr::Heap("x".to_owned()), EitherStr::Heap("y".to_owned())];
    let factory = NamedTupleFactory::new(name, fields, vec![Value::Ref(default)], None);
    let factory = put(&mut vm, HeapData::NamedTupleFactory(factory));
    vm.heap.inc_ref(factory);
    let t = text(&mut vm, "argument");
    vm.heap.tracker_mut().allocations = 0;
    assert!(matches!(call(&mut vm, factory, t), Err(RunError::Resource(_))));
    assert_eq!(vm.heap.get_refcount(default), 1);
    vm.heap.dec_ref(factory);
    assert_eq!(vm.heap.entry_count(), 0);

    // The same for the factory itself.
    vm.heap.tracker_mut().allocations = PLENTY;
    let default = text(&mut vm, "default");
    vm.heap.inc_ref(default);
    let typename = Value::Ref(text(&mut vm, "P"));
    let fields = Value::Ref(text(&mut vm, "x y"));
    let defaults = Value::Ref(put(&mut vm, HeapData::List(List::new(vec![Value::Ref(default)]))));
    let mut builder = InternerBuilder::new("");
    let keyword = builder.intern("defaults");
    let interns = Interns::new(builder, Vec::new());
    let kwargs = KwargsValues::Inline(vec![(keyword, defaults)]);
    let args = ArgValues::ArgsKargs { args: vec![typename, fields], kwargs };
    vm.heap.tracker_mut().allocations = 0;
    let f = ModuleFunctions::Collections(CollectionsFunctions::Namedtuple);
    assert!(matches!(f.call(&mut vm.heap, args, &interns), Err(RunError::Resource(_))));
    assert_eq!((vm.heap.entry_count(), vm.heap.get_refcount(default)), (1, 1));
}

#[test]
fn refused_named_tuple_calls_give_all_arguments_up() {
    let mut vm = machine();
    let typename = Value::Ref(text(&mut vm, "P"));
    let fields = Value::Ref(text(&mut vm, "not-a-name"));
    let f = ModuleFunctions::Collections(CollectionsFunctions::Namedtuple);
    let r = f.call(&mut vm.heap, ArgValues::Two(typename, fields), &vm.interns);
    assert!(r.is_err());
    assert_eq!(vm.heap.entry_count(), 0);
}
