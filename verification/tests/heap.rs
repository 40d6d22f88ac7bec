//! The reference-counted heap: allocation, giving up references, cycles, cells,
//! recursion, repetition and arithmetic.

use monty::exceptions::{ExcType, RunError};
use monty::heap::Heap;
use monty::heap_arith::{allocate_tuple, i64_to_repeat_count, longint_to_repeat_count};
use monty::heap_data::{CellValue, Closure, HeapData, HeapDataMut};
use monty::intern::FunctionId;
use monty::operators::Dispatch;
use monty::resource::{NoLimitTracker, ResourceError, ResourceTracker, add_capped, check_repeat_size, mul_capped};
use monty::types::long_int::LongInt;
use monty::types::mappings::{Dict, DictEntry};
use monty::types::sequences::{Bytes, List, Str};
use monty::value::{HeapId, Value};
use num_bigint::BigInt;

/// Counts bytes, and refuses what goes over its limits.
#[derive(Debug)]
struct Limits {
    memory: usize,
    used: usize,
    depth: usize,
    large: usize,
}

impl ResourceTracker for Limits {
    // What contracts say is never run.
    fn allocate_outcome(self, _: usize, _: Self, _: Result<(), ResourceError>) -> bool {
        unreachable!()
    }

    fn free_outcome(self, _: usize, _: Self) -> bool {
        unreachable!()
    }

    fn time_outcome(self, _: Result<(), ResourceError>) -> bool {
        unreachable!()
    }

    fn depth_outcome(self, _: usize) -> Result<(), ResourceError> {
        unreachable!()
    }

    fn large_result_outcome(self, _: usize) -> Result<(), ResourceError> {
        unreachable!()
    }

    fn on_allocate(&mut self, size: usize) -> Result<(), ResourceError> {
        if self.used + size > self.memory {
            Err(ResourceError::Memory { limit: self.memory, used: self.used + size })
        } else {
            self.used += size;
            Ok(())
        }
    }

    fn on_free(&mut self, size: usize) {
        self.used -= size;
    }

    fn check_time(&self) -> Result<(), ResourceError> {
        Ok(())
    }

    fn check_recursion_depth(&self, depth: usize) -> Result<(), ResourceError> {
        if depth > self.depth {
            Err(ResourceError::Recursion { limit: self.depth, depth })
        } else {
            Ok(())
        }
    }

    fn check_large_result(&self, bytes: usize) -> Result<(), ResourceError> {
        if bytes > self.large {
            Err(ResourceError::Memory { limit: self.large, used: bytes })
        } else {
            Ok(())
        }
    }
}

fn limited(memory: usize, depth: usize, large: usize) -> Heap<Limits> {
    Heap::new(0, Limits { memory, used: 0, depth, large })
}

fn new_heap() -> Heap<NoLimitTracker> {
    Heap::new(0, NoLimitTracker)
}

fn text<T: ResourceTracker>(heap: &mut Heap<T>, t: &str) -> HeapId {
    heap.allocate(HeapData::Str(Str::new(t.to_owned()))).unwrap()
}

fn list<T: ResourceTracker>(heap: &mut Heap<T>, items: Vec<Value>) -> HeapId {
    heap.allocate(HeapData::List(List::new(items))).unwrap()
}

fn long(heap: &mut Heap<NoLimitTracker>, digits: &str) -> HeapId {
    heap.allocate(HeapData::LongInt(LongInt::new(digits.parse::<BigInt>().unwrap()))).unwrap()
}

fn items(heap: &Heap<NoLimitTracker>, v: Value) -> Vec<Value> {
    let Value::Ref(id) = v else { panic!("not on the heap") };
    match heap.get(id) {
        HeapData::List(l) => l.items.clone(),
        HeapData::Tuple(t) => t.as_slice().to_vec(),
        _ => panic!("not a sequence"),
    }
}

#[test]
fn new_heaps_hold_the_empty_tuple_alone() {
    let mut heap = new_heap();
    // The empty tuple is not counted.
    assert_eq!(heap.entry_count(), 0);
    assert_eq!(heap.size(), 1);
    let a = heap.get_empty_tuple();
    let b = allocate_tuple(Vec::new(), &mut heap).unwrap();
    assert_eq!(a, b);
    assert_eq!(items(&heap, a), Vec::new());
    assert_eq!(heap.entry_count(), 0);
}

#[test]
fn freed_slots_are_used_again_last_freed_first() {
    let mut heap = new_heap();
    let a = text(&mut heap, "a");
    let b = text(&mut heap, "b");
    let c = text(&mut heap, "c");
    heap.dec_ref(a);
    heap.dec_ref(b);
    assert_eq!(heap.entry_count(), 1);
    assert_eq!(text(&mut heap, "d"), b);
    assert_eq!(text(&mut heap, "e"), a);
    assert_eq!(text(&mut heap, "f").index(), c.index() + 1);
}

#[test]
fn entries_live_while_they_are_held() {
    let mut heap = new_heap();
    let inner = text(&mut heap, "inner");
    let outer = list(&mut heap, vec![Value::Ref(inner)]);
    heap.inc_ref(inner);
    assert_eq!(heap.get_refcount(inner), 2);
    // The list is gone, and with it the reference that it held.
    heap.dec_ref(outer);
    assert_eq!(heap.get_refcount(inner), 1);
    assert!(matches!(heap.get(inner), HeapData::Str(s) if s.as_str() == "inner"));
    heap.dec_ref(inner);
    assert_eq!(heap.entry_count(), 0);
}

#[test]
fn giving_up_a_list_gives_up_nested_lists() {
    let mut heap = new_heap();
    let mut v = Value::Int(0);
    for _ in 0..1000 {
        v = Value::Ref(list(&mut heap, vec![v]));
    }
    assert_eq!(heap.entry_count(), 1000);
    heap.drop_value(v);
    assert_eq!(heap.entry_count(), 0);
}

#[test]
fn collection_keeps_what_is_reachable_and_breaks_cycles() {
    let mut heap = new_heap();
    let kept = list(&mut heap, Vec::new());
    let a = list(&mut heap, Vec::new());
    let b = list(&mut heap, vec![Value::Ref(a)]);
    if let HeapDataMut::List(l) = heap.get_mut(a) {
        l.items.push(Value::Ref(b));
    }
    heap.mark_potential_cycle();
    let root = list(&mut heap, vec![Value::Ref(kept)]);
    assert_eq!(heap.entry_count(), 4);
    heap.collect_garbage(vec![root]);
    assert_eq!(heap.entry_count(), 2);
    assert!(matches!(heap.get(kept), HeapData::List(_)));
    assert_eq!(heap.get_allocations_since_gc(), 0);
}

#[test]
fn collection_looks_into_every_kind_of_entry() {
    let mut heap = new_heap();
    let in_dict = text(&mut heap, "value");
    let in_cell = text(&mut heap, "cell");
    let cell = heap.allocate(HeapData::Cell(CellValue(Value::Ref(in_cell)))).unwrap();
    let default = text(&mut heap, "default");
    let dict = heap
        .allocate(HeapData::Dict(Dict { entries: vec![DictEntry { key: Value::Int(1), value: Value::Ref(in_dict) }] }))
        .unwrap();
    let closure = heap
        .allocate(HeapData::Closure(Closure {
            func_id: FunctionId::from_index(0),
            cells: vec![cell],
            defaults: vec![Value::Ref(default)],
        }))
        .unwrap();
    let before = heap.entry_count();
    heap.mark_potential_cycle();
    heap.collect_garbage(vec![dict, closure]);
    assert_eq!(heap.entry_count(), before);
    heap.mark_potential_cycle();
    heap.collect_garbage(vec![dict]);
    assert_eq!(heap.entry_count(), 2);
}

#[test]
fn cells_give_back_what_they_were_set_to() {
    let mut heap = new_heap();
    let old = text(&mut heap, "old");
    let cell = heap.allocate(HeapData::Cell(CellValue(Value::Ref(old)))).unwrap();
    assert_eq!(heap.get_cell_value(cell), Value::Ref(old));
    assert_eq!(heap.get_refcount(old), 2);
    heap.set_cell_value(cell, Value::Int(7));
    assert_eq!(heap.get_refcount(old), 1);
    assert_eq!(heap.get_cell_value(cell), Value::Int(7));
}

#[test]
fn lent_entries_come_back() {
    let mut heap = new_heap();
    let id = list(&mut heap, vec![Value::Int(1)]);
    let other = text(&mut heap, "other");
    let count = heap.with_entry_mut(id, |heap, data| {
        heap.inc_ref(other);
        let HeapDataMut::List(l) = data else { panic!("not a list") };
        l.items.push(Value::Ref(other));
        l.items.len()
    });
    assert_eq!(count, 2);
    assert_eq!(items(&heap, Value::Ref(id)), vec![Value::Int(1), Value::Ref(other)]);
    let equal = heap.with_two(id, other, |_, a, b| matches!((a, b), (HeapData::List(_), HeapData::Str(_))));
    assert!(equal);
    assert!(matches!(heap.get(other), HeapData::Str(_)));
    // An entry can be lent to itself.
    assert!(heap.with_two(id, id, |_, a, b| matches!((a, b), (HeapData::List(_), HeapData::List(_)))));
}

#[test]
fn extending_a_list_counts_its_items() {
    let mut heap = new_heap();
    let item = text(&mut heap, "item");
    let source = list(&mut heap, vec![Value::Ref(item), Value::Int(2)]);
    let mut dest = vec![Value::Int(0)];
    assert!(heap.iadd_extend_list(source, &mut dest));
    assert_eq!(dest, vec![Value::Int(0), Value::Ref(item), Value::Int(2)]);
    assert_eq!(heap.get_refcount(item), 2);
    assert!(!heap.iadd_extend_list(item, &mut dest));
    assert_eq!(dest.len(), 3);
}

#[test]
fn trackers_are_told_of_everything() {
    let mut heap = limited(100_000, 10, 1_000);
    let empty = heap.tracker().used;
    let id = text(&mut heap, "some text");
    assert!(heap.tracker().used > empty);
    heap.dec_ref(id);
    assert_eq!(heap.tracker().used, empty);
}

#[test]
fn refused_allocations_leave_the_heap_alone() {
    let mut heap = limited(100_000, 10, 1_000);
    heap.tracker_mut().memory = 0;
    let before = heap.entry_count();
    let refused = heap.allocate(HeapData::Str(Str::new("x".to_owned())));
    assert!(matches!(refused, Err(ResourceError::Memory { limit: 0, .. })));
    assert_eq!(heap.entry_count(), before);
}

#[test]
fn recursion_is_counted_and_refused() {
    let mut heap = limited(100_000, 1, 1_000);
    let token = heap.incr_recursion_depth().unwrap();
    assert_eq!(heap.get_recursion_depth(), 1);
    let deeper = heap.incr_recursion_depth().unwrap();
    assert_eq!(heap.incr_recursion_depth().unwrap_err(), ResourceError::Recursion { limit: 1, depth: 2 });
    assert!(heap.incr_recursion_depth_for_repr().is_none());
    deeper.drop_with_heap(&mut heap);
    token.drop_with_heap(&mut heap);
    assert_eq!(heap.get_recursion_depth(), 0);
    heap.set_recursion_depth(5);
    assert_eq!(heap.get_recursion_depth(), 5);
}

#[test]
fn sequences_are_repeated() {
    let mut heap = new_heap();
    let t = text(&mut heap, "ab");
    let Some(Value::Ref(id)) = heap.mult_sequence(t, 3).unwrap() else { panic!("no result") };
    assert!(matches!(heap.get(id), HeapData::Str(s) if s.as_str() == "ababab"));

    let b = heap.allocate(HeapData::Bytes(Bytes::new(vec![1, 2]))).unwrap();
    let Some(Value::Ref(id)) = heap.mult_sequence(b, 2).unwrap() else { panic!("no result") };
    assert!(matches!(heap.get(id), HeapData::Bytes(b) if b.as_slice() == [1, 2, 1, 2]));

    let l = list(&mut heap, vec![Value::Ref(t)]);
    let r = heap.mult_sequence(l, 2).unwrap().unwrap();
    assert_eq!(items(&heap, r), vec![Value::Ref(t), Value::Ref(t)]);
    assert_eq!(heap.get_refcount(t), 3);

    let pair = allocate_tuple(vec![Value::Int(1), Value::Int(2)], &mut heap).unwrap();
    let Value::Ref(pair) = pair else { panic!("not on the heap") };
    let r = heap.mult_sequence(pair, 2).unwrap().unwrap();
    assert_eq!(items(&heap, r), vec![Value::Int(1), Value::Int(2), Value::Int(1), Value::Int(2)]);
    let none = heap.mult_sequence(pair, 0).unwrap().unwrap();
    assert_eq!(none, heap.get_empty_tuple());

    // Other entries cannot be repeated.
    let d = heap.allocate(HeapData::Dict(Dict::new())).unwrap();
    assert!(heap.mult_sequence(d, 2).unwrap().is_none());
}

#[test]
fn negative_counts_repeat_nothing_and_huge_ones_fail() {
    assert_eq!(i64_to_repeat_count(-5).unwrap(), 0);
    assert_eq!(i64_to_repeat_count(4).unwrap(), 4);
    let negative = LongInt::new("-99999999999999999999".parse().unwrap());
    assert_eq!(longint_to_repeat_count(&negative).unwrap(), 0);
    let huge = LongInt::new("99999999999999999999".parse().unwrap());
    let e = longint_to_repeat_count(&huge).unwrap_err();
    assert!(matches!(e, RunError::OverflowRepeatCount));
    assert_eq!(e.exc_type(), Some(ExcType::OverflowError));
}

#[test]
fn what_is_no_sequence_is_not_repeated_however_large_the_count() {
    let mut heap = new_heap();
    let n = long(&mut heap, "1180591620717411303424");
    let d = heap.allocate(HeapData::Dict(Dict::new())).unwrap();
    assert!(heap.mult_heap_values(n, d).unwrap().is_none());
    assert!(heap.mult_heap_values(d, n).unwrap().is_none());
    assert!(heap.mult_ref_by_i64(d, i64::MAX).unwrap().is_none());
    let l = list(&mut heap, vec![Value::Int(1)]);
    assert!(matches!(heap.mult_heap_values(l, n), Err(RunError::OverflowRepeatCount)));
    assert!(matches!(heap.mult_heap_values(n, l), Err(RunError::OverflowRepeatCount)));
}

#[test]
fn products_do_not_depend_on_the_order() {
    let mut heap = new_heap();
    let (a, b) = (long(&mut heap, "9223372036854775808"), long(&mut heap, "-10000000000000000000"));
    let Some(Value::Ref(x)) = heap.mult_heap_values(a, b).unwrap() else { panic!("no result") };
    let Some(Value::Ref(y)) = heap.mult_heap_values(b, a).unwrap() else { panic!("no result") };
    match (heap.get(x), heap.get(y)) {
        (HeapData::LongInt(x), HeapData::LongInt(y)) => assert!(x.same(y)),
        _ => panic!("no integers"),
    }
    let t = text(&mut heap, "ab");
    let three = heap.allocate(HeapData::LongInt(LongInt::from_i64(3))).unwrap();
    for (p, q) in [(t, three), (three, t)] {
        let Some(Value::Ref(id)) = heap.mult_heap_values(p, q).unwrap() else { panic!("no result") };
        assert!(matches!(heap.get(id), HeapData::Str(s) if s.as_str() == "ababab"));
    }
    assert!(matches!(heap.get(t), HeapData::Str(s) if s.as_str() == "ab"));
}

#[test]
fn refused_counts_need_no_room() {
    let mut heap = limited(1_000_000, 10, 100);
    let l = list(&mut heap, vec![Value::Int(1)]);
    assert!(matches!(heap.mult_sequence(l, usize::MAX), Err(RunError::Resource(ResourceError::Memory { .. }))));
    let n = heap.allocate(HeapData::LongInt(LongInt::new("1180591620717411303424".parse().unwrap()))).unwrap();
    assert!(matches!(heap.mult_heap_values(l, n), Err(RunError::OverflowRepeatCount)));
}

#[test]
fn the_empty_tuple_is_one() {
    let mut heap = new_heap();
    let (a, b) = (heap.get_empty_tuple(), heap.get_empty_tuple());
    assert_eq!(a, b);
    assert!(items(&heap, a).is_empty());
    assert_eq!(allocate_tuple(vec![], &mut heap).unwrap(), a);
}

#[test]
fn large_results_are_refused_before_they_are_made() {
    let mut heap = limited(1_000_000, 10, 100);
    let t = text(&mut heap, "ab");
    let before = heap.entry_count();
    assert!(matches!(heap.mult_sequence(t, 51), Err(RunError::Resource(ResourceError::Memory { .. }))));
    assert_eq!(heap.entry_count(), before);
    assert!(check_repeat_size(10, 10, heap.tracker()).is_ok());
    assert!(check_repeat_size(usize::MAX, 2, heap.tracker()).is_err());
    assert_eq!(add_capped(usize::MAX, 1), usize::MAX);
    assert_eq!(mul_capped(usize::MAX, 2), usize::MAX);
    assert_eq!(mul_capped(6, 7), 42);
}

#[test]
fn integers_grow_and_shrink() {
    let mut heap = new_heap();
    let a = long(&mut heap, "9223372036854775808");
    // Back in range, the result is immediate.
    assert_eq!(heap.mult_ref_by_i64(a, 0).unwrap(), Some(Value::Int(0)));
    let Some(Value::Ref(id)) = heap.mult_ref_by_i64(a, -3).unwrap() else { panic!("no result") };
    assert!(matches!(heap.get(id), HeapData::LongInt(li) if li.to_decimal() == "-27670116110564327424"));

    let b = long(&mut heap, "10000000000000000000");
    let Some(Value::Ref(id)) = heap.mult_heap_values(a, b).unwrap() else { panic!("no result") };
    assert!(matches!(heap.get(id), HeapData::LongInt(li) if li.to_decimal() == "92233720368547758080000000000000000000"));

    let l = list(&mut heap, vec![Value::Int(1)]);
    let three = heap.allocate(HeapData::LongInt(LongInt::from_i64(3))).unwrap();
    let r = heap.mult_heap_values(three, l).unwrap().unwrap();
    assert_eq!(items(&heap, r).len(), 3);
    assert!(heap.mult_heap_values(l, l).unwrap().is_none());
}

#[test]
fn long_integers_follow_python() {
    let big = |s: &str| LongInt::new(s.parse().unwrap());
    assert_eq!(big("100000000000000000000").plus(&big("1")).to_decimal(), "100000000000000000001");
    assert_eq!(big("5").minus(&big("7")).to_i64(), Some(-2));
    assert_eq!(big("-7").times(&big("3")).to_i64(), Some(-21));
    // The remainder has the sign of the divisor.
    assert_eq!(big("-7").modulo(&big("3")).to_i64(), Some(2));
    assert_eq!(big("7").modulo(&big("-3")).to_i64(), Some(-2));
    assert_eq!(big("0").bits(), 0);
    assert_eq!(big("-256").bits(), 9);
    assert!(big("0").is_zero() && !big("0").is_negative() && big("-1").is_negative());
    assert_eq!(big("9223372036854775808").to_i64(), None);
    assert_eq!(big("-1").to_usize(), None);
    assert_eq!(big("12").to_usize(), Some(12));
    assert!(big("12").same(&LongInt::from_i64(12)));
    assert!(!big("12").duplicate().same(&big("13")));
}

#[test]
fn payloads_add_and_subtract() {
    let mut heap = new_heap();
    let a = HeapData::LongInt(LongInt::new("9223372036854775808".parse().unwrap()));
    let b = HeapData::LongInt(LongInt::from_i64(1));
    assert!(matches!(a.py_sub(&b, &mut heap), Ok(Dispatch::Done(Some(Value::Int(i64::MAX))))));
    let Ok(Dispatch::Done(Some(Value::Ref(id)))) = a.py_add(&b, &mut heap) else { panic!("no sum") };
    assert!(matches!(heap.get(id), HeapData::LongInt(li) if li.to_decimal() == "9223372036854775809"));
    let zero = HeapData::LongInt(LongInt::from_i64(0));
    assert!(matches!(a.py_mod(&zero, &mut heap), Err(RunError::ZeroDivision)));
    let s = HeapData::Str(Str::new("s".to_owned()));
    assert!(matches!(a.py_add(&s, &mut heap), Ok(Dispatch::Done(None))));
    assert!(matches!(s.py_add(&s, &mut heap), Ok(Dispatch::Delegate(_))));
}

#[test]
fn stored_heaps_come_back() {
    let mut heap = new_heap();
    let a = text(&mut heap, "a");
    let b = list(&mut heap, vec![Value::Ref(a)]);
    let gone = text(&mut heap, "gone");
    heap.dec_ref(gone);
    heap.set_recursion_depth(3);
    let fields = heap.as_fields();
    assert_eq!((fields.entries.len(), fields.free_list.len()), (4, 1));
    assert!(fields.may_have_cycles);
    let mut back = Heap::from_fields(heap.into_fields());
    assert_eq!(back.get_recursion_depth(), 0);
    assert_eq!(items(&back, Value::Ref(b)), vec![Value::Ref(a)]);
    assert_eq!(text(&mut back, "again"), gone);
}
