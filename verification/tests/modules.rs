//! Builtin modules and their functions.

use monty::args::{ArgValues, KwargsValues};
use monty::exceptions::{ExcType, RunError};
use monty::heap::Heap;
use monty::heap_data::HeapData;
use monty::intern::{InternerBuilder, Interns, StringId};
use monty::modules::asyncio::AsyncioFunctions;
use monty::modules::collections::CollectionsFunctions;
use monty::modules::os::OsFunctions;
use monty::modules::re::{ReFunctions, escape_pattern, should_escape};
use monty::modules::{BuiltinModule, ModuleFunctions};
use monty::os::OsFunction;
use monty::resource::NoLimitTracker;
use monty::types::module::Module;
use monty::types::py_trait::{AttrCallResult, NativeCall, RegexCall};
use monty::types::sequences::Str;
use monty::value::{EitherStr, Property, Value};

struct World {
    heap: Heap<NoLimitTracker>,
    interns: Interns,
}

const NAMES: [&str; 14] = [
    "flags", "count", "maxsplit", "pattern", "string", "a+", "text", "new", "HOME", "unknown", "getenv", "environ",
    "VERBOSE", "my_module",
];

impl World {
    fn new() -> World {
        let mut builder = InternerBuilder::new("");
        for name in NAMES {
            builder.intern(name);
        }
        World { heap: Heap::new(0, NoLimitTracker), interns: Interns::new(builder, Vec::new()) }
    }

    fn id(&self, name: &str) -> StringId {
        self.interns.get_string_id_by_name(name).unwrap()
    }

    fn lit(&self, t: &str) -> Value {
        Value::InternString(self.id(t))
    }

    fn text(&mut self, t: &str) -> Value {
        Value::Ref(self.heap.allocate(HeapData::Str(Str::new(t.to_owned()))).unwrap())
    }

    fn call(
        &mut self,
        f: ModuleFunctions,
        args: Vec<Value>,
        kwargs: Vec<(&str, Value)>,
    ) -> Result<AttrCallResult, RunError> {
        let kwargs = kwargs.into_iter().map(|(k, v)| (self.id(k), v)).collect();
        let args = ArgValues::ArgsKargs { args, kwargs: KwargsValues::Inline(kwargs) };
        f.call(&mut self.heap, args, &self.interns)
    }

    fn re(&mut self, f: ReFunctions, args: Vec<Value>, kwargs: Vec<(&str, Value)>) -> RegexCall {
        match self.call(ModuleFunctions::Re(f), args, kwargs) {
            Ok(AttrCallResult::Native(NativeCall::Regex(call))) => call,
            _ => panic!("no call of the engine"),
        }
    }

    fn re_error(&mut self, f: ReFunctions, args: Vec<Value>, kwargs: Vec<(&str, Value)>) -> String {
        match self.call(ModuleFunctions::Re(f), args, kwargs) {
            Err(RunError::Exc(e)) => {
                assert_eq!(e.exc_type, ExcType::TypeError);
                e.arg.unwrap()
            }
            _ => panic!("no error"),
        }
    }
}

#[test]
fn modules_hold_their_functions() {
    let mut w = World::new();
    for (module, count) in [(BuiltinModule::Collections, 1), (BuiltinModule::Os, 2)] {
        let id = module.create(&mut w.heap, &w.interns).unwrap().unwrap();
        let HeapData::Module(m) = w.heap.get(id) else { panic!("not a module") };
        assert_eq!(m.attrs().entries.len(), count);
    }
    let id = BuiltinModule::Re.create(&mut w.heap, &w.interns).unwrap().unwrap();
    let data = w.heap.take_data(id);
    let HeapData::Module(m) = &data else { panic!("not a module") };
    let attr = EitherStr::Heap("search".to_owned());
    assert!(matches!(
        m.py_getattr(&attr, &mut w.heap, &w.interns),
        Some(AttrCallResult::Value(Value::ModuleFunction(ModuleFunctions::Re(ReFunctions::Search))))
    ));
    let attr = EitherStr::Heap("no_such_thing".to_owned());
    assert!(m.py_getattr(&attr, &mut w.heap, &w.interns).is_none());
    w.heap.restore_data(id, data);
    // The others are filled elsewhere.
    for module in [BuiltinModule::Sys, BuiltinModule::Typing, BuiltinModule::Asyncio, BuiltinModule::Pathlib] {
        assert!(module.create(&mut w.heap, &w.interns).unwrap().is_none());
    }
}

#[test]
fn attributes_have_the_values_that_were_set() {
    let mut w = World::new();
    let mut m = Module::new(w.id("my_module"));
    assert_eq!(m.name(), w.id("my_module"));
    assert!(!m.has_refs());
    let first = w.text("first");
    let Value::Ref(first_id) = first else { panic!("not on the heap") };
    w.heap.inc_ref(first_id);
    m.set_attr(w.id("text"), first, &mut w.heap, &w.interns);
    m.set_attr(w.id("count"), Value::Int(1), &mut w.heap, &w.interns);
    assert!(m.has_refs());
    let name = w.lit("text");
    assert_eq!(m.get_attr(&name, &mut w.heap, &w.interns), Some(first));
    assert_eq!(w.heap.get_refcount(first_id), 3);
    let mut ids = Vec::new();
    m.py_dec_ref_ids(&mut ids);
    assert_eq!(ids, vec![first_id]);
    // The value from before is given up.
    m.set_attr(w.id("text"), Value::Int(2), &mut w.heap, &w.interns);
    assert_eq!(w.heap.get_refcount(first_id), 2);
    assert_eq!(m.get_attr(&name, &mut w.heap, &w.interns), Some(Value::Int(2)));
    let other = w.lit("count");
    assert_eq!(m.get_attr(&other, &mut w.heap, &w.interns), Some(Value::Int(1)));
    assert_eq!(m.get_attr(&Value::Int(3), &mut w.heap, &w.interns), None);
    assert_eq!(m.attrs().entries.len(), 2);
}

#[test]
fn missing_module_functions_are_named() {
    let mut w = World::new();
    let m = Module::new(w.id("my_module"));
    let attr = EitherStr::Interned(w.id("unknown"));
    let id = w.heap.allocate(HeapData::Module(m)).unwrap();
    let arg = w.text("argument");
    match w.heap.call_attr(id, &attr, ArgValues::One(arg), &w.interns) {
        Err(RunError::ModuleAttributeMissing { module, attr }) => {
            assert_eq!((module.as_str(), attr.as_str()), ("my_module", "unknown"));
        }
        _ => panic!("no error"),
    }
    // The argument was given up.
    assert_eq!(w.heap.entry_count(), 1);
}

#[test]
fn the_environment_is_asked_for() {
    let mut w = World::new();
    let f = ModuleFunctions::Os(OsFunctions::Getenv);
    let home = w.lit("HOME");
    match w.call(f, vec![home], vec![]) {
        Ok(AttrCallResult::OsCall(OsFunction::Getenv, args)) => {
            assert_eq!(args.into_values(), vec![home, Value::PyNone]);
        }
        _ => panic!("no OS call"),
    }
    match w.call(f, vec![home, Value::Int(1)], vec![]) {
        Ok(AttrCallResult::OsCall(OsFunction::Getenv, args)) => {
            assert_eq!(args.into_values(), vec![home, Value::Int(1)]);
        }
        _ => panic!("no OS call"),
    }
    let e = w.call(f, vec![Value::Int(1)], vec![]).err().unwrap();
    assert_eq!(e.exc_type(), Some(ExcType::TypeError));
    assert!(matches!(w.call(f, vec![], vec![]), Err(RunError::WrongArgCount { .. })));
    assert!(matches!(w.call(f, vec![home], vec![("flags", Value::Int(1))]), Err(RunError::NoKeywords { .. })));
    // `os.environ` is computed when it is read.
    let id = BuiltinModule::Os.create(&mut w.heap, &w.interns).unwrap().unwrap();
    let data = w.heap.take_data(id);
    let HeapData::Module(m) = &data else { panic!("not a module") };
    let attr = EitherStr::Interned(w.id("environ"));
    assert!(matches!(
        m.py_getattr(&attr, &mut w.heap, &w.interns),
        Some(AttrCallResult::OsCall(OsFunction::GetEnviron, ArgValues::Empty))
    ));
    w.heap.restore_data(id, data);
    assert!(matches!(Property::Os(OsFunction::GetEnviron).get(), AttrCallResult::OsCall(OsFunction::GetEnviron, _)));
}

#[test]
fn searches_are_planned() {
    let mut w = World::new();
    let (pattern, text) = (w.lit("a+"), w.text("caaat"));
    let call = w.re(ReFunctions::Search, vec![pattern, text], vec![]);
    assert_eq!(call.function, ReFunctions::Search);
    assert_eq!((call.pattern.as_str(), call.text.as_str(), call.flags), ("a+", "caaat", 0));
    // Everything that was handed over is given up.
    assert_eq!(w.heap.entry_count(), 0);
    let text = w.lit("text");
    for f in [ReFunctions::Match, ReFunctions::Fullmatch, ReFunctions::Findall, ReFunctions::Finditer] {
        let call = w.re(f, vec![pattern, text, Value::Int(2)], vec![]);
        assert_eq!((call.function, call.flags), (f, 2));
    }
    let call = w.re(ReFunctions::Compile, vec![pattern], vec![]);
    assert_eq!((call.pattern.as_str(), call.text.as_str()), ("a+", ""));
}

#[test]
fn searches_refuse_what_they_cannot_take() {
    let mut w = World::new();
    let (p, t) = (w.lit("a+"), w.lit("text"));
    let f = ReFunctions::Search;
    assert_eq!(w.re_error(f, vec![], vec![]), "re.search() missing required argument: 'pattern'");
    assert_eq!(w.re_error(f, vec![p], vec![]), "re.search() missing required argument: 'string'");
    assert_eq!(
        w.re_error(f, vec![p, t, Value::Int(0), Value::Int(0)], vec![]),
        "re.search() takes at most 3 positional arguments"
    );
    assert_eq!(w.re_error(f, vec![p, t, Value::Int(-1)], vec![]), "flags must be a non-negative integer");
    assert_eq!(w.re_error(f, vec![p, t, t], vec![]), "expected int for flags, not str");
    let huge = w.re(f, vec![p, t, Value::Bool(true)], vec![]);
    assert_eq!(huge.flags, 1);
}

#[test]
fn substitutions_are_planned() {
    let mut w = World::new();
    let (p, r, t) = (w.lit("a+"), w.lit("new"), w.lit("text"));
    let call = w.re(ReFunctions::Sub, vec![p, r, t], vec![]);
    assert_eq!((call.repl.as_str(), call.text.as_str(), call.limit, call.flags), ("new", "text", 0, 0));
    let call = w.re(ReFunctions::Sub, vec![p, r, t], vec![("count", Value::Int(2)), ("flags", Value::Int(8))]);
    assert_eq!((call.limit, call.flags), (2, 8));
    assert_eq!(
        w.re_error(ReFunctions::Sub, vec![p, r, t, Value::Int(1)], vec![("count", Value::Int(2))]),
        "re.sub() got multiple values for argument 'count'"
    );
    assert_eq!(
        w.re_error(ReFunctions::Sub, vec![p, r, t], vec![("unknown", Value::Int(2))]),
        "'unknown' is an invalid keyword argument for re.sub()"
    );
    assert_eq!(
        w.re_error(ReFunctions::Sub, vec![p, Value::Int(1), t], vec![]),
        "callable replacement is not yet supported in re.sub()"
    );
    assert_eq!(
        w.re_error(ReFunctions::Sub, vec![p, r, t, t], vec![]),
        "'str' object cannot be interpreted as an integer for 'count' argument"
    );
    // A negative count replaces nothing: the text comes back as it is.
    let same = w.call(ModuleFunctions::Re(ReFunctions::Sub), vec![p, r, t, Value::Int(-1)], vec![]);
    assert!(matches!(same, Ok(AttrCallResult::Value(_))));
}

#[test]
fn splits_are_planned() {
    let mut w = World::new();
    let (p, t) = (w.lit("a+"), w.lit("text"));
    let call = w.re(ReFunctions::Split, vec![p, t], vec![("maxsplit", Value::Int(3))]);
    assert_eq!((call.function, call.limit), (ReFunctions::Split, 3));
    assert_eq!(w.re_error(ReFunctions::Split, vec![p, t, t], vec![]), "expected int for maxsplit, not str");
    assert_eq!(w.re_error(ReFunctions::Split, vec![p], vec![]), "re.split() missing required argument: 'string'");
}

#[test]
fn escaping_puts_a_backslash_before_what_is_special() {
    assert!(should_escape('.') && should_escape(' ') && should_escape('\n') && !should_escape('a'));
    assert_eq!(escape_pattern("a.b*c"), "a\\.b\\*c");
    assert_eq!(escape_pattern("x_1"), "x_1");
    let undone: String = {
        let escaped = escape_pattern("[a-z]+ (x)");
        let mut out = String::new();
        let mut chars = escaped.chars();
        while let Some(c) = chars.next() {
            out.push(if c == '\\' { chars.next().unwrap() } else { c });
        }
        out
    };
    assert_eq!(undone, "[a-z]+ (x)");
    let mut w = World::new();
    let t = w.lit("a+");
    let Ok(AttrCallResult::Value(Value::Ref(id))) = w.call(ModuleFunctions::Re(ReFunctions::Escape), vec![t], vec![])
    else {
        panic!("no text")
    };
    assert!(matches!(w.heap.get(id), HeapData::Str(s) if s.as_str() == "a\\+"));
}

#[test]
fn functions_have_names() {
    let f = ModuleFunctions::Re(ReFunctions::Findall);
    assert_eq!(f.as_str(), "findall");
    assert_eq!(f.py_repr_fmt(255), "<function findall at 0xff>");
    assert_eq!(ModuleFunctions::Os(OsFunctions::Getenv).as_str(), "getenv");
    assert_eq!(ModuleFunctions::Collections(CollectionsFunctions::Namedtuple).as_str(), "namedtuple");
    assert_eq!(ModuleFunctions::Asyncio(AsyncioFunctions::Gather).as_str(), "gather");
}

#[test]
fn asyncio_is_asked_for() {
    let mut w = World::new();
    let r = w.call(ModuleFunctions::Asyncio(AsyncioFunctions::Run), vec![Value::Int(1)], vec![]);
    assert!(matches!(r, Ok(AttrCallResult::Native(NativeCall::Asyncio(AsyncioFunctions::Run, _)))));
}
