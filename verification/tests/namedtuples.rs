//! `collections.namedtuple`.

use monty::args::{ArgValues, KwargsValues};
use monty::exceptions::{ExcType, RunError};
use monty::heap::Heap;
use monty::heap_data::HeapData;
use monty::intern::{InternerBuilder, Interns};
use monty::modules::ModuleFunctions;
use monty::modules::collections::CollectionsFunctions;
use monty::resource::NoLimitTracker;
use monty::types::field_names::{split_field_names, validate_field_names, validate_typename};
use monty::types::identifiers::{is_python_identifier, is_python_keyword};
use monty::types::namedtuple_factory::NamedTupleFactory;
use monty::types::py_trait::AttrCallResult;
use monty::types::sequences::{List, Str};
use monty::value::{EitherStr, Value};

struct World {
    heap: Heap<NoLimitTracker>,
    interns: Interns,
}

impl World {
    fn new() -> World {
        let mut builder = InternerBuilder::new("");
        for name in ["x", "y", "z", "typename", "field_names", "rename", "defaults", "module", "other"] {
            builder.intern(name);
        }
        World { heap: Heap::new(0, NoLimitTracker), interns: Interns::new(builder, Vec::new()) }
    }

    fn text(&mut self, t: &str) -> Value {
        Value::Ref(self.heap.allocate(HeapData::Str(Str::new(t.to_owned()))).unwrap())
    }

    fn list(&mut self, items: Vec<Value>) -> Value {
        Value::Ref(self.heap.allocate(HeapData::List(List::new(items))).unwrap())
    }

    fn args(&self, args: Vec<Value>, kwargs: Vec<(&str, Value)>) -> ArgValues {
        let kwargs = kwargs
            .into_iter()
            .map(|(k, v)| (self.interns.get_string_id_by_name(k).unwrap(), v))
            .collect();
        ArgValues::ArgsKargs { args, kwargs: KwargsValues::Inline(kwargs) }
    }

    /// Calls `namedtuple`.
    fn make(&mut self, args: Vec<Value>, kwargs: Vec<(&str, Value)>) -> Result<Value, RunError> {
        let args = self.args(args, kwargs);
        let f = ModuleFunctions::Collections(CollectionsFunctions::Namedtuple);
        match f.call(&mut self.heap, args, &self.interns) {
            Ok(AttrCallResult::Value(v)) => Ok(v),
            Ok(_) => panic!("not a value"),
            Err(e) => Err(e),
        }
    }

    fn repr(&self, v: Value) -> String {
        v.py_str(&self.heap, &self.interns, 0)
    }
}

fn names(v: &[&str]) -> Vec<String> {
    v.iter().map(|s| s.to_string()).collect()
}

#[test]
fn identifiers_and_keywords() {
    for good in ["x", "_x", "x1", "Point", "\u{e9}t\u{e9}", "a\u{661}"] {
        assert!(is_python_identifier(good), "{good}");
    }
    for bad in ["", "1x", "a-b", "a b", "a.b", "\u{661}a", "\u{20ac}"] {
        assert!(!is_python_identifier(bad), "{bad}");
    }
    for word in ["class", "None", "async", "lambda", "yield"] {
        assert!(is_python_keyword(word), "{word}");
    }
    assert!(!is_python_keyword("klass"));
}

#[test]
fn field_names_are_split_at_commas_and_spaces() {
    assert_eq!(split_field_names("x, y  z"), names(&["x", "y", "z"]));
    assert_eq!(split_field_names("  ,, "), names(&[]));
    assert_eq!(split_field_names("a\tb\nc"), names(&["a", "b", "c"]));
}

#[test]
fn names_are_checked() {
    assert!(validate_typename("Point").is_ok());
    assert!(matches!(validate_typename("1x"), Err(RunError::InvalidIdentifier(n)) if n == "1x"));
    assert!(matches!(validate_typename("class"), Err(RunError::KeywordName(n)) if n == "class"));
    assert_eq!(validate_field_names(&names(&["x", "y"]), false).unwrap(), names(&["x", "y"]));
    assert!(matches!(validate_field_names(&names(&["_x"]), false), Err(RunError::UnderscoreField(n)) if n == "_x"));
    assert!(matches!(validate_field_names(&names(&["x", "x"]), false), Err(RunError::DuplicateField(n)) if n == "x"));
    assert!(matches!(validate_field_names(&names(&["x", "def"]), false), Err(RunError::KeywordName(n)) if n == "def"));
    assert!(matches!(validate_field_names(&names(&["a b"]), false), Err(RunError::InvalidIdentifier(n)) if n == "a b"));
    let e = validate_field_names(&names(&["x", "x"]), false).unwrap_err();
    assert_eq!(e.exc_type(), Some(ExcType::ValueError));
}

#[test]
fn renaming_replaces_names_by_their_positions() {
    assert_eq!(
        validate_field_names(&names(&["x", "def", "_y", "x", "ok"]), true).unwrap(),
        names(&["x", "_1", "_2", "_3", "ok"])
    );
}

#[test]
fn factories_are_made_and_called() {
    let mut w = World::new();
    let (name, fields) = (w.text("Point"), w.text("x y"));
    let twenty = w.list(vec![Value::Int(20)]);
    let Value::Ref(id) = w.make(vec![name, fields], vec![("defaults", twenty)]).unwrap() else { panic!("no factory") };
    assert_eq!(w.repr(Value::Ref(id)), "<class '__main__.Point'>");
    let HeapData::NamedTupleFactory(f) = w.heap.take_data(id) else { panic!("no factory") };
    assert_eq!(f.field_index("y", &w.interns), Some(1));
    assert_eq!(f.field_index("z", &w.interns), None);
    assert!(!f.contains_refs());
    assert_eq!(f.defaults(), &[Value::Int(20)]);

    let args = w.args(vec![Value::Int(1)], vec![]);
    let v = f.call(args, &mut w.heap, &w.interns).unwrap();
    assert_eq!(w.repr(v), "Point(x=1, y=20)");
    let args = w.args(vec![], vec![("y", Value::Int(2)), ("x", Value::Int(1))]);
    let v = f.call(args, &mut w.heap, &w.interns).unwrap();
    assert_eq!(w.repr(v), "Point(x=1, y=2)");
    // A copy makes the same instances.
    let args = w.args(vec![Value::Int(3), Value::Int(4)], vec![]);
    let v = f.duplicate().call(args, &mut w.heap, &w.interns).unwrap();
    assert_eq!(w.repr(v), "Point(x=3, y=4)");
}

#[test]
fn fields_may_be_given_by_position_or_by_name() {
    let mut w = World::new();
    let field = |t: &str| EitherStr::Heap(t.to_owned());
    let f = NamedTupleFactory::new(field("Point"), vec![field("x"), field("y"), field("z")], vec![Value::Int(0)], None);
    let n = |i: i64| Value::Int(i);
    for args in [
        w.args(vec![n(1), n(2), n(3)], vec![]),
        w.args(vec![n(1), n(2)], vec![("z", n(3))]),
        w.args(vec![n(1)], vec![("z", n(3)), ("y", n(2))]),
        w.args(vec![n(1)], vec![("y", n(2)), ("z", n(3))]),
        w.args(vec![], vec![("y", n(2)), ("z", n(3)), ("x", n(1))]),
    ] {
        let v = f.call(args, &mut w.heap, &w.interns).unwrap();
        assert_eq!(w.repr(v), "Point(x=1, y=2, z=3)");
    }
}

#[test]
fn factories_refuse_wrong_arguments() {
    let mut w = World::new();
    let f = NamedTupleFactory::new(
        EitherStr::Heap("Point".to_owned()),
        vec![EitherStr::Heap("x".to_owned()), EitherStr::Heap("y".to_owned())],
        vec![],
        None,
    );
    let args = w.args(vec![Value::Int(1), Value::Int(2), Value::Int(3)], vec![]);
    assert!(matches!(f.call(args, &mut w.heap, &w.interns), Err(RunError::TooManyPositional { .. })));
    let args = w.args(vec![], vec![]);
    match f.call(args, &mut w.heap, &w.interns) {
        Err(RunError::MissingPositional { missing, .. }) => assert_eq!(missing, names(&["x", "y"])),
        _ => panic!("no error"),
    }
    let args = w.args(vec![Value::Int(1), Value::Int(2)], vec![("x", Value::Int(3))]);
    assert!(matches!(
        f.call(args, &mut w.heap, &w.interns),
        Err(RunError::DuplicateArgument { keyword, .. }) if keyword == "x"
    ));
    let given = w.text("given up");
    let args = w.args(vec![given], vec![("z", Value::Int(3))]);
    assert!(matches!(
        f.call(args, &mut w.heap, &w.interns),
        Err(RunError::UnexpectedKeyword { keyword, .. }) if keyword == "z"
    ));
    assert_eq!(w.heap.entry_count(), 0);
}

#[test]
fn namedtuple_refuses_wrong_arguments() {
    let mut w = World::new();
    assert!(matches!(w.make(vec![], vec![]), Err(RunError::MissingPositional { .. })));
    let (name, fields) = (w.text("Point"), w.text("x y"));
    let three = w.list(vec![Value::Int(1), Value::Int(2), Value::Int(3)]);
    assert!(matches!(w.make(vec![name, fields], vec![("defaults", three)]), Err(RunError::TooManyDefaults)));
    let (name, fields) = (w.text("Point"), w.text("x y"));
    assert!(matches!(w.make(vec![name, fields], vec![("other", Value::Int(1))]), Err(RunError::UnexpectedKeyword { .. })));
    let (name, fields) = (w.text("Point"), w.text("x x"));
    assert!(matches!(w.make(vec![name, fields], vec![]), Err(RunError::DuplicateField(_))));
    let name = w.text("Point");
    assert!(matches!(w.make(vec![name, Value::Int(1)], vec![]), Err(RunError::NotIterable(_))));
    assert_eq!(w.heap.entry_count(), 0);
}

#[test]
fn modules_and_renaming_are_taken() {
    let mut w = World::new();
    let (name, fields, module) = (w.text("Point"), w.text("x def"), w.text("shapes"));
    let v = w.make(vec![name, fields], vec![("rename", Value::Bool(true)), ("module", module)]).unwrap();
    assert_eq!(w.repr(v), "<class 'shapes.Point'>");
    let Value::Ref(id) = v else { panic!("no factory") };
    let HeapData::NamedTupleFactory(f) = w.heap.get(id) else { panic!("no factory") };
    assert_eq!(f.field_index("_1", &w.interns), Some(1));
    // A copy belongs to the same module.
    let copy = f.duplicate();
    assert_eq!(copy.contains_refs(), f.contains_refs());
    let copy = w.heap.allocate(HeapData::NamedTupleFactory(copy)).unwrap();
    assert_eq!(w.repr(Value::Ref(copy)), "<class 'shapes.Point'>");
}

#[test]
fn named_tuples_are_made_beside_loans() {
    let mut w = World::new();
    let kept = w.list(vec![Value::Int(1)]);
    let Value::Ref(lent) = kept else { panic!("not on the heap") };
    let data = w.heap.take_data(lent);
    let name = w.text("P");
    let fields = w.text("x y");
    let made = w.make(vec![name, fields], vec![]).unwrap();
    assert_eq!(w.repr(made), "<class '__main__.P'>");
    // A refusal shows what was given, and reads nothing else.
    let name = w.text("P");
    assert!(w.make(vec![name, Value::Int(3)], vec![]).is_err());
    w.heap.restore_data(lent, data);
    assert_eq!(w.repr(kept), "[1]");
}
