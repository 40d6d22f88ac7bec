//! Equality, hashing and the texts that values are shown as.

use monty::builtins::Builtins;
use monty::equality::find_equal;
use monty::exceptions::ExcType;
use monty::heap::Heap;
use monty::heap_arith::allocate_tuple;
use monty::heap_data::{CellValue, HeapData, HeapDataMut};
use monty::intern::{InternerBuilder, Interns};
use monty::repr::{write_bytes_repr, write_str_repr};
use monty::resource::{NoLimitTracker, ResourceError};
use monty::types::Type;
use monty::types::long_int::LongInt;
use monty::types::mappings::{Dataclass, Dict, DictEntry, FrozenSet, PySet, SetStorage};
use monty::types::scalars::{Range, Slice};
use monty::types::sequences::{Bytes, List, NamedTuple, Str};
use monty::value::{EitherStr, Value};

struct World {
    heap: Heap<NoLimitTracker>,
    interns: Interns,
}

impl World {
    fn new(literals: &[&str]) -> World {
        let mut builder = InternerBuilder::new("");
        for t in literals {
            builder.intern(t);
        }
        builder.intern_bytes(b"raw");
        World { heap: Heap::new(0, NoLimitTracker), interns: Interns::new(builder, Vec::new()) }
    }

    fn put(&mut self, data: HeapData) -> Value {
        Value::Ref(self.heap.allocate(data).unwrap())
    }

    fn text(&mut self, t: &str) -> Value {
        self.put(HeapData::Str(Str::new(t.to_owned())))
    }

    fn literal(&self, t: &str) -> Value {
        Value::InternString(self.interns.get_string_id_by_name(t).unwrap())
    }

    fn list(&mut self, items: Vec<Value>) -> Value {
        self.put(HeapData::List(List::new(items)))
    }

    fn tuple(&mut self, items: Vec<Value>) -> Value {
        allocate_tuple(items, &mut self.heap).unwrap()
    }

    fn named(&mut self, name: &str, items: Vec<Value>) -> Value {
        let fields = (0..items.len()).map(|i| EitherStr::Heap(format!("f{i}"))).collect();
        self.put(HeapData::NamedTuple(NamedTuple::new(EitherStr::Heap(name.to_owned()), fields, items)))
    }

    fn dict(&mut self, pairs: Vec<(Value, Value)>) -> Value {
        let entries = pairs.into_iter().map(|(key, value)| DictEntry { key, value }).collect();
        self.put(HeapData::Dict(Dict { entries }))
    }

    fn frozen(&mut self, items: Vec<Value>) -> Value {
        self.put(HeapData::FrozenSet(FrozenSet { storage: SetStorage { items } }))
    }

    fn eq(&self, a: Value, b: Value) -> bool {
        a.py_eq(b, &self.heap, &self.interns, 0).unwrap()
    }

    fn hash(&mut self, v: Value) -> Option<u64> {
        v.py_hash(&mut self.heap, &self.interns, 0).unwrap()
    }

    fn repr(&self, v: Value) -> String {
        let mut ids = ahash::AHashSet::new();
        v.py_repr_fmt(&self.heap, &mut ids, &self.interns, 0)
    }
}

#[test]
fn texts_compare_and_hash_by_content() {
    let mut w = World::new(&["hello"]);
    let a = w.text("hello");
    let b = w.literal("hello");
    let c = w.text("other");
    assert!(w.eq(a, b) && w.eq(b, a) && w.eq(a, a));
    assert!(!w.eq(a, c));
    assert_eq!(w.hash(a), w.hash(b));
    assert_ne!(w.hash(a), w.hash(c));
    let raw = w.put(HeapData::Bytes(Bytes::new(b"raw".to_vec())));
    let id = Value::InternBytes(monty::intern::BytesId(0));
    assert!(w.eq(raw, id));
    assert_eq!(w.hash(raw), w.hash(id));
}

#[test]
fn numbers_compare_and_hash_by_value() {
    let mut w = World::new(&[]);
    let long = w.put(HeapData::LongInt(LongInt::from_i64(1)));
    assert!(w.eq(Value::Int(1), Value::Bool(true)));
    assert!(w.eq(long, Value::Bool(true)));
    assert!(!w.eq(Value::Int(0), Value::PyNone));
    assert_eq!(w.hash(long), w.hash(Value::Int(1)));
    assert_eq!(w.hash(Value::Bool(false)), w.hash(Value::Int(0)));
}

#[test]
fn sequences_compare_item_by_item() {
    let mut w = World::new(&[]);
    let a = w.list(vec![Value::Int(1), Value::Int(2)]);
    let b = w.list(vec![Value::Int(1), Value::Int(2)]);
    let c = w.tuple(vec![Value::Int(1), Value::Int(2)]);
    assert!(w.eq(a, b));
    assert!(!w.eq(a, c));
    // A named tuple compares as the tuple that it is, whatever its name.
    let p = w.named("P", vec![Value::Int(1), Value::Int(2)]);
    let q = w.named("Q", vec![Value::Int(1), Value::Int(2)]);
    assert!(w.eq(p, c) && w.eq(c, p) && w.eq(p, q));
    assert_eq!(w.hash(p), w.hash(q));
    assert_eq!(w.hash(p), w.hash(c));
    assert_eq!(w.hash(a), None);
}

#[test]
fn equal_frozen_sets_hash_alike() {
    let mut w = World::new(&["one"]);
    let (one, written) = (w.literal("one"), w.text("one"));
    let (p, q) = (w.tuple(vec![one, Value::Int(2)]), w.named("P", vec![written, Value::Int(2)]));
    let (a, b) = (w.frozen(vec![Value::Int(1), one, p]), w.frozen(vec![q, Value::Bool(true), written]));
    assert!(w.eq(a, b) && w.eq(b, a));
    assert_eq!(w.hash(a), w.hash(b));
    let c = w.frozen(vec![Value::Int(1), one, Value::Int(2)]);
    assert!(!w.eq(a, c));
    assert_ne!(w.hash(a), w.hash(c));
}

#[test]
fn equality_goes_both_ways_and_on() {
    let mut w = World::new(&["one"]);
    let (one, written) = (w.literal("one"), w.text("one"));
    let long = w.put(HeapData::LongInt(LongInt::from_i64(1)));
    let a = w.tuple(vec![Value::Int(1), one]);
    let b = w.named("P", vec![Value::Bool(true), written]);
    let c = w.tuple(vec![long, written]);
    for (x, y) in [(a, b), (b, a), (b, c), (c, b), (a, c), (c, a)] {
        assert!(w.eq(x, y));
    }
}

#[test]
fn equal_nested_tuples_hash_alike() {
    let mut w = World::new(&["one"]);
    let (one, written) = (w.literal("one"), w.text("one"));
    let a = w.tuple(vec![Value::Int(1), one]);
    let b = w.named("P", vec![Value::Bool(true), written]);
    let (x, y) = (w.tuple(vec![a, Value::PyNone]), w.tuple(vec![b, Value::PyNone]));
    assert!(w.eq(x, y));
    assert_eq!(w.hash(x), w.hash(y));
    let z = w.tuple(vec![Value::PyNone, a]);
    assert_ne!(w.hash(x), w.hash(z));
    // One item that cannot be hashed is enough.
    let list = w.list(vec![]);
    let other = w.tuple(vec![list]);
    assert_eq!(w.hash(other), None);
}

#[test]
fn mappings_and_sets_compare_without_order() {
    let mut w = World::new(&[]);
    let a = w.dict(vec![(Value::Int(1), Value::Int(10)), (Value::Int(2), Value::Int(20))]);
    let b = w.dict(vec![(Value::Int(2), Value::Int(20)), (Value::Int(1), Value::Int(10))]);
    let c = w.dict(vec![(Value::Int(2), Value::Int(20)), (Value::Int(1), Value::Int(11))]);
    assert!(w.eq(a, b));
    assert!(!w.eq(a, c));
    let x = w.frozen(vec![Value::Int(1), Value::Int(2), Value::Int(3)]);
    let y = w.frozen(vec![Value::Int(3), Value::Int(1), Value::Int(2)]);
    assert!(w.eq(x, y));
    assert_eq!(w.hash(x), w.hash(y));
    let z = w.put(HeapData::PySet(PySet { storage: SetStorage { items: vec![Value::Int(1)] } }));
    assert!(!w.eq(x, z));
    assert_eq!(w.hash(z), None);
}

#[test]
fn other_entries_compare_by_what_they_are() {
    let mut w = World::new(&[]);
    let r = Range { start: 0, stop: 3, step: 1 };
    let a = w.put(HeapData::Range(r));
    let b = w.put(HeapData::Range(r));
    assert!(w.eq(a, b));
    assert_eq!(w.hash(a), w.hash(b));
    let s = w.put(HeapData::Slice(Slice { start: None, stop: Some(3), step: None }));
    let t = w.put(HeapData::Slice(Slice { start: None, stop: Some(4), step: None }));
    assert!(!w.eq(s, t));
    let cell = w.put(HeapData::Cell(CellValue(Value::Int(1))));
    let same = w.put(HeapData::Cell(CellValue(Value::Int(1))));
    assert!(!w.eq(cell, same));
    assert_ne!(w.hash(cell), w.hash(same));
}

#[test]
fn dataclasses_compare_and_hash_by_their_fields() {
    let mut w = World::new(&[]);
    let make = |w: &mut World, type_id: u64, n: i64, frozen: bool| {
        let key = w.text("x");
        w.put(HeapData::Dataclass(Dataclass {
            name: EitherStr::Heap("P".to_owned()),
            type_id,
            field_names: vec!["x".to_owned()],
            attrs: Dict { entries: vec![DictEntry { key, value: Value::Int(n) }] },
            frozen,
        }))
    };
    let a = make(&mut w, 1, 5, true);
    let b = make(&mut w, 1, 5, true);
    let c = make(&mut w, 2, 5, true);
    let d = make(&mut w, 1, 5, false);
    assert!(w.eq(a, b));
    assert!(!w.eq(a, c));
    assert_eq!(w.hash(a), w.hash(b));
    assert_eq!(w.hash(d), None);
    assert_eq!(w.repr(a), "P(x=5)");
}

#[test]
fn hashes_are_remembered() {
    let mut w = World::new(&[]);
    let Value::Ref(id) = w.text("abc") else { panic!("not on the heap") };
    let first = w.heap.get_or_compute_hash(id, &w.interns).unwrap();
    assert!(first.is_some());
    assert_eq!(w.heap.get_or_compute_hash(id, &w.interns).unwrap(), first);
    // What an unhashable item spoils stays spoilt.
    let list = w.list(vec![]);
    let Value::Ref(tuple) = w.tuple(vec![list]) else { panic!("not on the heap") };
    assert_eq!(w.heap.get_or_compute_hash(tuple, &w.interns).unwrap(), None);
    assert_eq!(w.heap.get_or_compute_hash(tuple, &w.interns).unwrap(), None);
}

#[test]
fn lookups_find_equal_values() {
    let mut w = World::new(&["a", "b"]);
    let heap_a = w.text("a");
    let items = vec![w.literal("b"), w.literal("a")];
    assert_eq!(find_equal(heap_a, &items, &w.heap, &w.interns, 0).unwrap(), Some(1));
    assert_eq!(find_equal(Value::Int(3), &items, &w.heap, &w.interns, 0).unwrap(), None);
}

#[test]
fn truth_and_types() {
    let mut w = World::new(&["", "x y"]);
    let empty = w.list(vec![]);
    let full = w.list(vec![Value::PyNone]);
    for (v, truth) in [
        (Value::PyNone, false),
        (Value::Int(0), false),
        (Value::Int(-1), true),
        (Value::Bool(false), false),
        (w.literal(""), false),
        (w.literal("x y"), true),
        (empty, false),
        (full, true),
    ] {
        assert_eq!(v.py_bool(&w.heap, &w.interns), truth);
    }
    assert_eq!(Value::Int(1).py_type(&w.heap, &w.interns), Type::Int);
    assert_eq!(empty.py_type(&w.heap, &w.interns), Type::List);
    assert_eq!(Type::List.as_str(), "list");
}

#[test]
fn values_are_shown_as_python_shows_them() {
    let mut w = World::new(&["it's"]);
    assert_eq!(w.repr(Value::PyNone), "None");
    assert_eq!(w.repr(Value::Bool(true)), "True");
    assert_eq!(w.repr(Value::Int(-5)), "-5");
    assert_eq!(w.repr(w.literal("it's")), "\"it's\"");
    assert_eq!(w.literal("it's").py_str(&w.heap, &w.interns, 0), "it's");
    let long = w.put(HeapData::LongInt(LongInt::new("-123456789012345678901".parse().unwrap())));
    assert_eq!(w.repr(long), "-123456789012345678901");
    let inner = w.list(vec![Value::Int(1)]);
    let text = w.text("a");
    let one = w.tuple(vec![inner]);
    assert_eq!(w.repr(one), "([1],)");
    let pair = w.tuple(vec![Value::Int(1), text]);
    assert_eq!(w.repr(pair), "(1, 'a')");
    let d = w.dict(vec![(text, Value::Int(1)), (Value::Int(2), pair)]);
    assert_eq!(w.repr(d), "{'a': 1, 2: (1, 'a')}");
    let set = w.frozen(vec![]);
    assert_eq!(w.repr(set), "frozenset()");
    let set = w.frozen(vec![Value::Int(1)]);
    assert_eq!(w.repr(set), "frozenset({1})");
    let named = w.named("P", vec![Value::Int(1), Value::Int(2)]);
    assert_eq!(w.repr(named), "P(f0=1, f1=2)");
    assert_eq!(w.repr(Value::Builtin(Builtins::Type(Type::List))), "<class 'list'>");
    assert_eq!(w.repr(Value::Builtin(Builtins::ExcType(ExcType::ValueError))), "<class 'ValueError'>");
}

#[test]
fn cyclic_values_are_shown_with_dots() {
    let mut w = World::new(&[]);
    let v = w.list(vec![Value::Int(1)]);
    let Value::Ref(id) = v else { panic!("not on the heap") };
    w.heap.inc_ref(id);
    if let HeapDataMut::List(l) = w.heap.get_mut(id) {
        l.items.push(v);
    }
    assert_eq!(w.repr(v), "[1, [...]]");
    // Seen twice is not the same as seen inside of itself.
    let inner = w.list(vec![]);
    let Value::Ref(inner_id) = inner else { panic!("not on the heap") };
    w.heap.inc_ref(inner_id);
    let twice = w.list(vec![inner, inner]);
    assert_eq!(w.repr(twice), "[[], []]");
    assert!(matches!(v.py_eq(v, &w.heap, &w.interns, 0), Ok(true)));
}

#[test]
fn texts_and_bytes_are_quoted() {
    assert_eq!(write_str_repr("plain"), "'plain'");
    assert_eq!(write_str_repr("it's"), "\"it's\"");
    assert_eq!(write_str_repr("it's \"so\""), "'it\\'s \"so\"'");
    assert_eq!(write_str_repr("a\n\t\r\\"), "'a\\n\\t\\r\\\\'");
    assert_eq!(write_bytes_repr(b"ab\x00\xff"), "b'ab\\x00\\xff'");
}

#[test]
fn comparisons_stop_where_recursion_is_refused() {
    // At the largest depth there is no level left to go down to.
    let mut w = World::new(&[]);
    let a = w.list(vec![Value::Int(1)]);
    let b = w.list(vec![Value::Int(1)]);
    let r = a.py_eq(b, &w.heap, &w.interns, usize::MAX);
    assert!(matches!(r, Err(ResourceError::Recursion { .. })));
}

#[test]
fn payloads_on_loan_elsewhere_do_not_matter() {
    let mut w = World::new(&["hello"]);
    let items = vec![Value::Int(1), w.literal("hello")];
    let tuple = w.tuple(items.clone());
    let named = w.named("P", items.clone());
    let list = w.list(items);
    let hash = w.hash(tuple);
    let Value::Ref(lent) = w.list(vec![tuple, named]) else { panic!("not on the heap") };
    let data = w.heap.take_data(lent);
    assert!(w.eq(tuple, named) && w.eq(named, tuple) && !w.eq(tuple, list));
    assert_eq!((w.hash(named), w.hash(list)), (hash, None));
    assert_eq!(w.repr(named), "P(f0=1, f1='hello')");
    assert_eq!(w.repr(list), "[1, 'hello']");
    w.heap.restore_data(lent, data);
    let Value::Ref(lent) = w.tuple(vec![tuple, named]) else { panic!("not on the heap") };
    // Once it is known, the hash is answered though the payload is on loan.
    let known = w.hash(Value::Ref(lent));
    let data = w.heap.take_data(lent);
    assert_eq!(w.hash(Value::Ref(lent)), known);
    assert_eq!(w.heap.get_or_compute_hash(lent, &w.interns).unwrap(), known);
    w.heap.restore_data(lent, data);
}

#[test]
fn payloads_are_hashed_while_they_are_lent_out() {
    let mut w = World::new(&["hello"]);
    let items = vec![Value::Int(1), w.literal("hello")];
    let tuple = w.tuple(items.clone());
    let named = w.named("P", items);
    let expected = w.hash(tuple);
    let Value::Ref(id) = named else { panic!("not on the heap") };
    let interns = &w.interns;
    let hash = w.heap.with_entry_mut(id, |heap, data| data.compute_hash_if_immutable(heap, interns).unwrap());
    assert_eq!(hash, expected);
    let Value::Ref(list) = w.list(vec![Value::Int(1)]) else { panic!("not on the heap") };
    let interns = &w.interns;
    let hash = w.heap.with_entry_mut(list, |heap, data| data.compute_hash_if_immutable(heap, interns).unwrap());
    assert_eq!(hash, None);
}
