//! Tests for stateful sessions with no replay.
//!
//! A session keeps the heap, the interned literals and the global namespace between
//! snippets and executes only the newly fed snippet each time. A small compiler and run
//! loop, just enough for the snippets below, stand around the library here.

use monty::asyncio::{CallId, GatherFuture, GatherItem};
use monty::exceptions::{ExcType, RunError};
use monty::function::{Function, Identifier, Signature};
use monty::heap::Heap;
use monty::heap_data::{HeapData, HeapDataMut};
use monty::heap_fields::HeapFields;
use monty::intern::{FunctionId, InternerBuilder, Interns, StringId};
use monty::modules::BuiltinModule;
use monty::operators::Dispatch;
use monty::resource::NoLimitTracker;
use monty::types::mappings::{Dataclass, Dict, DictEntry};
use monty::types::py_trait::{AttrCallResult, NativeCall};
use monty::types::sequences::List;
use monty::value::{EitherStr, Value};
use monty::vm::call::CallResult;
use monty::vm::{CallFrame, Namespaces, VM};

// ---------------------------------------------------------------------------
// What the host sees
// ---------------------------------------------------------------------------

#[derive(Debug, Clone, PartialEq)]
enum MontyObject {
    PyNone,
    Int(i64),
    Text(String),
    List(Vec<MontyObject>),
    NamedTuple { class_name: String, field_names: Vec<String>, values: Vec<MontyObject> },
    Dataclass {
        name: String,
        type_id: u64,
        field_names: Vec<String>,
        attrs: Vec<(MontyObject, MontyObject)>,
        frozen: bool,
    },
    Repr(String),
}

#[derive(Debug, Clone, PartialEq)]
struct MontyException {
    exc_type: ExcType,
    message: Option<String>,
}

impl MontyException {
    fn new(exc_type: ExcType, message: Option<String>) -> MontyException {
        MontyException { exc_type, message }
    }

    fn exc_type(&self) -> ExcType {
        self.exc_type
    }

    fn message(&self) -> Option<&str> {
        self.message.as_deref()
    }
}

enum ExtFunctionResult {
    Return(MontyObject),
    Error(MontyException),
}

impl From<MontyObject> for ExtFunctionResult {
    fn from(v: MontyObject) -> ExtFunctionResult {
        ExtFunctionResult::Return(v)
    }
}

// ---------------------------------------------------------------------------
// Compiling snippets
// ---------------------------------------------------------------------------

#[derive(Debug, Clone)]
enum Op {
    PushNone,
    Int(i64),
    Str(String),
    Load(String),
    LoadCallable(String),
    Store(String),
    Pop,
    Add,
    Mul,
    Attr(String),
    Call(usize),
    CallKw(usize, Vec<String>),
    CallAttr(String, usize),
    BuildList(usize),
    Def(usize),
    Import(String, String),
    Raise(ExcType, String),
    Await,
    Return,
}

#[derive(Debug, Clone)]
struct Program {
    name: String,
    params: Vec<String>,
    locals: Vec<String>,
    is_async: bool,
    ops: Vec<Op>,
}

struct Parser<'a> {
    text: &'a str,
    at: usize,
    ops: Vec<Op>,
}

impl<'a> Parser<'a> {
    fn expression(text: &'a str) -> Vec<Op> {
        let mut p = Parser { text, at: 0, ops: Vec::new() };
        p.sum();
        assert_eq!(p.peek(), None, "trailing text in {text:?}");
        p.ops
    }

    fn peek(&mut self) -> Option<char> {
        while self.text[self.at..].starts_with(' ') {
            self.at += 1;
        }
        self.text[self.at..].chars().next()
    }

    fn eat(&mut self, c: char) -> bool {
        let found = self.peek() == Some(c);
        if found {
            self.at += c.len_utf8();
        }
        found
    }

    fn word(&mut self) -> String {
        self.peek();
        let rest = &self.text[self.at..];
        let end = rest.find(|c: char| !c.is_alphanumeric() && c != '_').unwrap_or(rest.len());
        self.at += end;
        rest[..end].to_owned()
    }

    fn sum(&mut self) {
        self.product();
        while self.eat('+') {
            self.product();
            self.ops.push(Op::Add);
        }
    }

    fn product(&mut self) {
        self.unary();
        while self.eat('*') {
            self.unary();
            self.ops.push(Op::Mul);
        }
    }

    fn unary(&mut self) {
        self.peek();
        if self.text[self.at..].starts_with("await ") {
            self.at += "await ".len();
            self.unary();
            self.ops.push(Op::Await);
        } else {
            self.postfix();
        }
    }

    fn postfix(&mut self) {
        match self.peek() {
            Some('\'') => {
                self.at += 1;
                let end = self.text[self.at..].find('\'').unwrap();
                self.ops.push(Op::Str(self.text[self.at..self.at + end].to_owned()));
                self.at += end + 1;
            }
            Some('[') => {
                self.at += 1;
                let mut n = 0;
                while !self.eat(']') {
                    self.sum();
                    n += 1;
                    self.eat(',');
                }
                self.ops.push(Op::BuildList(n));
            }
            Some(c) if c.is_ascii_digit() => {
                let digits = self.word();
                self.ops.push(Op::Int(digits.parse().unwrap()));
            }
            _ => {
                let name = self.word();
                if self.peek() == Some('(') {
                    self.ops.push(Op::LoadCallable(name));
                } else {
                    self.ops.push(Op::Load(name));
                }
            }
        }
        loop {
            if self.eat('(') {
                let (pos, kws) = self.arguments();
                self.ops.push(if kws.is_empty() { Op::Call(pos) } else { Op::CallKw(pos, kws) });
            } else if self.eat('.') {
                let attr = self.word();
                if self.eat('(') {
                    let (pos, kws) = self.arguments();
                    assert!(kws.is_empty());
                    self.ops.push(Op::CallAttr(attr, pos));
                } else {
                    self.ops.push(Op::Attr(attr));
                }
            } else {
                return;
            }
        }
    }

    fn arguments(&mut self) -> (usize, Vec<String>) {
        let mut pos = 0;
        let mut kws = Vec::new();
        while !self.eat(')') {
            let start = self.at;
            let name = self.word();
            if !name.is_empty() && self.eat('=') {
                self.sum();
                kws.push(name);
            } else {
                self.at = start;
                self.sum();
                pos += 1;
            }
            self.eat(',');
        }
        (pos, kws)
    }
}

fn compile_line(line: &str, locals: &mut Vec<String>, out: &mut Vec<Op>) {
    if let Some(rest) = line.strip_prefix("from ") {
        let (module, name) = rest.split_once(" import ").unwrap();
        out.push(Op::Import(module.to_owned(), name.to_owned()));
        out.push(Op::Store(name.to_owned()));
    } else if let Some(rest) = line.strip_prefix("raise ") {
        let (name, rest) = rest.split_once("('").unwrap();
        let exc_type = match name {
            "RuntimeError" => ExcType::RuntimeError,
            "ValueError" => ExcType::ValueError,
            _ => panic!("unknown exception {name}"),
        };
        out.push(Op::Raise(exc_type, rest.strip_suffix("')").unwrap().to_owned()));
    } else if let Some(rest) = line.strip_prefix("return ") {
        out.extend(Parser::expression(rest));
        out.push(Op::Return);
    } else if let Some((name, value)) = line.split_once(" = ") {
        out.extend(Parser::expression(value));
        locals.push(name.to_owned());
        out.push(Op::Store(name.to_owned()));
    } else {
        out.extend(Parser::expression(line));
        out.push(Op::Pop);
    }
}

/// Compiles a snippet; functions are appended to `functions`.
fn compile(code: &str, functions: &mut Vec<Program>) -> Vec<Op> {
    let mut ops = Vec::new();
    let mut lines = code.lines().filter(|l| !l.trim().is_empty()).peekable();
    while let Some(line) = lines.next() {
        let (is_async, header) = match line.strip_prefix("async ") {
            Some(rest) => (true, rest),
            None => (false, line),
        };
        if let Some(header) = header.strip_prefix("def ") {
            let (name, rest) = header.split_once('(').unwrap();
            let params: Vec<String> =
                rest.split(')').next().unwrap().split(',').map(|p| p.trim().to_owned()).filter(|p| !p.is_empty()).collect();
            let mut locals = params.clone();
            let mut body = Vec::new();
            while let Some(inner) = lines.next_if(|l| l.starts_with("    ")) {
                compile_line(inner.trim(), &mut locals, &mut body);
            }
            functions.push(Program { name: name.to_owned(), params, locals, is_async, ops: body });
            ops.push(Op::Def(functions.len() - 1));
            ops.push(Op::Store(name.to_owned()));
        } else {
            compile_line(line, &mut Vec::new(), &mut ops);
        }
    }
    // The value of a snippet is that of its last statement, if that is an expression.
    if let Some(Op::Pop) = ops.last() {
        ops.pop();
    } else {
        ops.push(Op::PushNone);
    }
    ops.push(Op::Return);
    ops
}

fn intern_names(ops: &[Op], builder: &mut InternerBuilder) {
    for op in ops {
        match op {
            Op::Str(s)
            | Op::Load(s)
            | Op::LoadCallable(s)
            | Op::Store(s)
            | Op::Attr(s)
            | Op::CallAttr(s, _) => {
                builder.intern(s);
            }
            Op::CallKw(_, names) => {
                for name in names {
                    builder.intern(name);
                }
            }
            Op::Import(module, name) => {
                builder.intern(module);
                builder.intern(name);
            }
            _ => {}
        }
    }
}

// ---------------------------------------------------------------------------
// Running snippets
// ---------------------------------------------------------------------------

enum Step {
    Done(Value),
    Call { function_name: String, args: Vec<MontyObject>, method_call: bool },
    Futures(Vec<u32>),
    Raised(MontyException),
}

struct MontyRepl {
    vm: VM<NoLimitTracker>,
    globals: Vec<String>,
    functions: Vec<Program>,
    main: Vec<Op>,
    next_call: u32,
}

impl MontyRepl {
    fn new(code: &str, inputs: Vec<(String, MontyObject)>) -> Result<(MontyRepl, MontyObject), MontyException> {
        let mut repl = MontyRepl {
            vm: VM {
                heap: Heap::new(0, NoLimitTracker),
                interns: Interns::new(InternerBuilder::new(code), Vec::new()),
                namespaces: Namespaces { spaces: vec![Vec::new()] },
                stack: Vec::new(),
                frames: Vec::new(),
            },
            globals: Vec::new(),
            functions: Vec::new(),
            main: Vec::new(),
            next_call: 0,
        };
        for (name, object) in inputs {
            let v = repl.to_value(&object);
            repl.store_global(&name, v);
        }
        let output = repl.feed_no_print(code)?;
        Ok((repl, output))
    }

    /// Compiles a snippet against the literals and functions that are there already.
    fn load_snippet(&mut self, code: &str) {
        let first = self.functions.len();
        self.main = compile(code, &mut self.functions);
        let mut builder = InternerBuilder::from_interns(&self.vm.interns, code);
        intern_names(&self.main, &mut builder);
        let mut table = self.vm.interns.functions_clone();
        for program in &self.functions[first..] {
            intern_names(&program.ops, &mut builder);
            let name = Identifier { name_id: builder.intern(&program.name) };
            let params: Vec<StringId> = program.params.iter().map(|p| builder.intern(p)).collect();
            table.push(Function {
                name,
                signature: Signature { params },
                namespace_size: program.locals.len(),
                cell_var_count: 0,
                cell_param_indices: Vec::new(),
                is_async: program.is_async,
                code: Vec::new(),
            });
        }
        let mut interns = Interns::new(builder, Vec::new());
        interns.set_functions(table);
        self.vm.interns = interns;
        self.vm.frames.push(CallFrame {
            function: None,
            namespace_idx: 0,
            cells: Vec::new(),
            stack_base: self.vm.stack.len(),
            call_position: None,
            position: 0,
            should_return: false,
        });
    }

    fn feed_no_print(&mut self, code: &str) -> Result<MontyObject, MontyException> {
        self.load_snippet(code);
        match self.run() {
            Step::Done(v) => Ok(self.take_object(v)),
            Step::Raised(e) => Err(e),
            _ => panic!("the host is asked for something"),
        }
    }

    fn start(mut self, code: &str) -> Result<ReplProgress, Box<ReplStartError>> {
        self.load_snippet(code);
        self.proceed()
    }

    fn proceed(mut self) -> Result<ReplProgress, Box<ReplStartError>> {
        match self.run() {
            Step::Done(v) => {
                let value = self.take_object(v);
                Ok(ReplProgress::Complete { repl: self, value })
            }
            Step::Call { function_name, args, method_call } => {
                let call_id = self.next_call;
                self.next_call += 1;
                Ok(ReplProgress::FunctionCall(FunctionCall { repl: self, call_id, function_name, args, method_call }))
            }
            Step::Futures(pending) => Ok(ReplProgress::ResolveFutures(ResolveFutures { repl: self, pending })),
            Step::Raised(error) => Err(Box::new(ReplStartError { repl: self, error })),
        }
    }

    fn dump(self) -> Result<Stored, String> {
        Ok(Stored {
            heap: self.vm.heap.into_fields(),
            interns: self.vm.interns,
            namespaces: self.vm.namespaces,
            stack: self.vm.stack,
            frames: self.vm.frames,
            globals: self.globals,
            functions: self.functions,
            main: self.main,
            next_call: self.next_call,
        })
    }

    fn load(stored: Stored) -> Result<MontyRepl, String> {
        Ok(MontyRepl {
            vm: VM {
                heap: Heap::from_fields(stored.heap),
                interns: stored.interns,
                namespaces: stored.namespaces,
                stack: stored.stack,
                frames: stored.frames,
            },
            globals: stored.globals,
            functions: stored.functions,
            main: stored.main,
            next_call: stored.next_call,
        })
    }

    fn id(&self, name: &str) -> StringId {
        self.vm.interns.get_string_id_by_name(name).unwrap()
    }

    fn store_global(&mut self, name: &str, v: Value) {
        let slot = match self.globals.iter().position(|g| g == name) {
            Some(slot) => slot,
            None => {
                self.globals.push(name.to_owned());
                self.vm.namespaces.spaces[0].push(Value::Undefined);
                self.globals.len() - 1
            }
        };
        let previous = std::mem::replace(&mut self.vm.namespaces.spaces[0][slot], v);
        self.vm.heap.drop_value(previous);
    }

    /// The namespace and the slot of a variable.
    fn place(&self, name: &str) -> Option<(usize, usize)> {
        let frame = self.vm.frames.last().unwrap();
        if let Some(f) = frame.function {
            if let Some(slot) = self.functions[f.index()].locals.iter().position(|l| l == name) {
                return Some((frame.namespace_idx, slot));
            }
        }
        self.globals.iter().position(|g| g == name).map(|slot| (0, slot))
    }

    /// Runs until the snippet is done or the host has to do something.
    fn run(&mut self) -> Step {
        loop {
            let frame = self.vm.frames.last_mut().unwrap();
            let ops = match frame.function {
                Some(f) => &self.functions[f.index()].ops,
                None => &self.main,
            };
            let op = ops[frame.position].clone();
            frame.position += 1;
            if let Some(step) = self.execute(op) {
                return step;
            }
        }
    }

    fn execute(&mut self, op: Op) -> Option<Step> {
        match op {
            Op::PushNone => self.vm.push(Value::PyNone),
            Op::Int(n) => self.vm.push(Value::Int(n)),
            Op::Str(s) => {
                let id = self.id(&s);
                self.vm.push(Value::InternString(id));
            }
            Op::Load(name) | Op::LoadCallable(name) => match self.place(&name) {
                Some((space, slot)) => {
                    let v = self.vm.namespaces.spaces[space][slot];
                    let v = self.vm.heap.clone_value(v);
                    self.vm.push(v);
                }
                // A name that is called and that nobody defined is one of the host's functions.
                None => {
                    let id = self.id(&name);
                    self.vm.push(Value::ExtFunction(id));
                }
            },
            Op::Store(name) => {
                let v = self.vm.pop();
                match self.place(&name) {
                    Some((space, slot)) if space > 0 => {
                        let previous = std::mem::replace(&mut self.vm.namespaces.spaces[space][slot], v);
                        self.vm.heap.drop_value(previous);
                    }
                    _ => self.store_global(&name, v),
                }
            }
            Op::Pop => {
                let v = self.vm.pop();
                self.vm.heap.drop_value(v);
            }
            Op::Add | Op::Mul => {
                let (b, a) = (self.vm.pop(), self.vm.pop());
                match (a, b, op) {
                    (Value::Int(a), Value::Int(b), Op::Add) => self.vm.push(Value::Int(a + b)),
                    (Value::Int(a), Value::Int(b), _) => self.vm.push(Value::Int(a * b)),
                    _ => panic!("unsupported operands"),
                }
            }
            Op::Attr(name) => self.load_attr(&name),
            Op::Call(n) => {
                let r = self.vm.exec_call_function(n);
                return self.after_call(r);
            }
            Op::CallKw(n, names) => {
                let ids = names.iter().map(|name| self.id(name)).collect();
                let r = self.vm.exec_call_function_kw(n, ids);
                return self.after_call(r);
            }
            Op::CallAttr(name, n) => {
                let id = self.id(&name);
                let r = self.vm.exec_call_attr(id, n);
                return self.after_call(r);
            }
            Op::BuildList(n) => {
                let items = self.vm.pop_n(n);
                let id = self.vm.heap.allocate(HeapData::List(List::new(items))).unwrap();
                self.vm.push(Value::Ref(id));
            }
            Op::Def(i) => self.vm.push(Value::DefFunction(FunctionId::from_index(i as u16))),
            Op::Import(module, name) => self.import(&module, &name),
            Op::Raise(exc_type, message) => {
                return Some(self.raise(MontyException::new(exc_type, Some(message))));
            }
            Op::Await => return self.wait(),
            Op::Return => {
                let v = self.vm.pop();
                let frame = self.vm.frames.pop().unwrap();
                if frame.function.is_none() {
                    return Some(Step::Done(v));
                }
                self.vm.namespaces.drop_with_heap(&mut self.vm.heap);
                self.vm.push(v);
            }
        }
        None
    }

    fn import(&mut self, module: &str, name: &str) {
        let builtin = BuiltinModule::from_string_id(self.id(module)).unwrap();
        let id = builtin.create(&mut self.vm.heap, &self.vm.interns).unwrap().unwrap();
        self.vm.push(Value::Ref(id));
        self.load_attr(name);
    }

    fn load_attr(&mut self, name: &str) {
        let v = self.vm.pop();
        let attr = EitherStr::Interned(self.id(name));
        let Value::Ref(id) = v else { panic!("no attributes") };
        let data = self.vm.heap.take_data(id);
        let found = match data.py_getattr(&attr, &mut self.vm.heap, &self.vm.interns) {
            Dispatch::Done(Some(AttrCallResult::Value(found))) => found,
            Dispatch::Delegate(_) => match &data {
                HeapData::NamedTuple(nt) => {
                    let i = nt.field_names.iter().position(|f| f.as_str(&self.vm.interns) == name).unwrap();
                    let item = nt.items[i];
                    self.vm.heap.clone_value(item)
                }
                _ => panic!("no such attribute"),
            },
            _ => panic!("no such attribute"),
        };
        self.vm.heap.restore_data(id, data);
        self.vm.heap.drop_value(v);
        self.vm.push(found);
    }

    fn after_call(&mut self, r: Result<CallResult, RunError>) -> Option<Step> {
        match r {
            Ok(CallResult::Push(v)) => self.vm.push(v),
            Ok(CallResult::FramePushed) => {}
            Ok(CallResult::External(name, args)) => {
                let function_name = name.as_str(&self.vm.interns).to_owned();
                let args = args.into_values().into_iter().map(|v| self.take_object(v)).collect();
                return Some(Step::Call { function_name, args, method_call: false });
            }
            Ok(CallResult::Native(NativeCall::Method { receiver, name, args })) => {
                let Value::Ref(id) = receiver else { panic!("no methods") };
                let name = name.as_str(&self.vm.interns).to_owned();
                let mut values = args.into_values();
                let HeapDataMut::List(list) = self.vm.heap.get_mut(id) else { panic!("no methods") };
                assert_eq!(name, "append");
                list.items.push(values.pop().unwrap());
                self.vm.heap.drop_value(receiver);
                self.vm.push(Value::PyNone);
            }
            // Methods of dataclasses are the host's.
            Ok(CallResult::MethodCall(name, args)) => {
                let function_name = name.as_str(&self.vm.interns).to_owned();
                let args = args.into_values().into_iter().map(|v| self.take_object(v)).collect();
                return Some(Step::Call { function_name, args, method_call: true });
            }
            Ok(_) => panic!("unsupported call"),
            Err(e) => {
                let exc_type = e.exc_type().unwrap_or(ExcType::RuntimeError);
                return Some(self.raise(MontyException::new(exc_type, None)));
            }
        }
        None
    }

    fn wait(&mut self) -> Option<Step> {
        let v = self.vm.pop();
        let Value::Ref(id) = v else { panic!("cannot be awaited") };
        match self.vm.heap.get(id) {
            HeapData::Coroutine(c) => {
                let (func_id, variables) = (c.func_id, c.namespace.clone());
                let variables = self.vm.heap.clone_values(&variables);
                self.vm.heap.drop_value(v);
                let index = self.vm.namespaces.new_namespace(variables.len(), &mut self.vm.heap).unwrap();
                self.vm.namespaces.set_last(variables);
                let position = self.vm.current_position();
                let base = self.vm.stack.len();
                self.vm.push_frame(CallFrame::new_function(base, index, func_id, Vec::new(), Some(position)));
            }
            HeapData::GatherFuture(g) => match g.results[0] {
                Some(result) => {
                    let result = self.vm.heap.clone_value(result);
                    self.vm.heap.drop_value(v);
                    self.vm.push(result);
                }
                None => {
                    let pending = g.pending_calls.iter().map(|c| c.0).collect();
                    // Once the result is there, the instruction runs again.
                    self.vm.push(v);
                    self.vm.frames.last_mut().unwrap().position -= 1;
                    return Some(Step::Futures(pending));
                }
            },
            _ => panic!("cannot be awaited"),
        }
        None
    }

    /// Unwinds all frames.
    fn raise(&mut self, error: MontyException) -> Step {
        while let Some(frame) = self.vm.frames.pop() {
            if frame.function.is_some() {
                self.vm.namespaces.drop_with_heap(&mut self.vm.heap);
            }
        }
        for v in std::mem::take(&mut self.vm.stack) {
            self.vm.heap.drop_value(v);
        }
        Step::Raised(error)
    }

    /// Converts a value to an object of the host.
    fn object(&self, v: Value) -> MontyObject {
        let interns = &self.vm.interns;
        match v {
            Value::PyNone => MontyObject::PyNone,
            Value::Int(n) => MontyObject::Int(n),
            Value::InternString(id) => MontyObject::Text(interns.get_str(id).to_owned()),
            Value::Ref(id) => match self.vm.heap.get(id) {
                HeapData::List(l) => MontyObject::List(l.items.iter().map(|v| self.object(*v)).collect()),
                HeapData::NamedTuple(nt) => MontyObject::NamedTuple {
                    class_name: nt.name.as_str(interns).to_owned(),
                    field_names: nt.field_names.iter().map(|f| f.as_str(interns).to_owned()).collect(),
                    values: nt.items.iter().map(|v| self.object(*v)).collect(),
                },
                HeapData::Dataclass(dc) => MontyObject::Dataclass {
                    name: dc.name.as_str(interns).to_owned(),
                    type_id: dc.type_id,
                    field_names: dc.field_names.clone(),
                    attrs: dc.attrs.entries.iter().map(|e| (self.object(e.key), self.object(e.value))).collect(),
                    frozen: dc.frozen,
                },
                HeapData::Str(s) => MontyObject::Text(s.as_str().to_owned()),
                _ => MontyObject::Repr(v.py_str(&self.vm.heap, interns, 0)),
            },
            _ => MontyObject::Repr(v.py_str(&self.vm.heap, interns, 0)),
        }
    }

    fn take_object(&mut self, v: Value) -> MontyObject {
        let object = self.object(v);
        self.vm.heap.drop_value(v);
        object
    }

    /// Converts an object of the host to a value.
    fn to_value(&mut self, object: &MontyObject) -> Value {
        let data = match object {
            MontyObject::PyNone => return Value::PyNone,
            MontyObject::Int(n) => return Value::Int(*n),
            MontyObject::Text(s) => HeapData::Str(monty::types::sequences::Str::new(s.clone())),
            MontyObject::Dataclass { name, type_id, field_names, attrs, frozen } => {
                let entries = attrs
                    .iter()
                    .map(|(k, v)| DictEntry { key: self.to_value(k), value: self.to_value(v) })
                    .collect();
                HeapData::Dataclass(Dataclass {
                    name: EitherStr::Heap(name.clone()),
                    type_id: *type_id,
                    field_names: field_names.clone(),
                    attrs: Dict { entries },
                    frozen: *frozen,
                })
            }
            _ => panic!("not an input"),
        };
        Value::Ref(self.vm.heap.allocate(data).unwrap())
    }
}

/// A session that was taken apart.
struct Stored {
    heap: HeapFields<NoLimitTracker>,
    interns: Interns,
    namespaces: Namespaces,
    stack: Vec<Value>,
    frames: Vec<CallFrame>,
    globals: Vec<String>,
    functions: Vec<Program>,
    main: Vec<Op>,
    next_call: u32,
}

struct ReplStartError {
    repl: MontyRepl,
    error: MontyException,
}

struct FunctionCall {
    repl: MontyRepl,
    call_id: u32,
    function_name: String,
    args: Vec<MontyObject>,
    method_call: bool,
}

impl FunctionCall {
    fn resume(mut self, result: impl Into<ExtFunctionResult>) -> Result<ReplProgress, Box<ReplStartError>> {
        match result.into() {
            ExtFunctionResult::Return(object) => {
                let v = self.repl.to_value(&object);
                self.repl.vm.push(v);
                self.repl.proceed()
            }
            ExtFunctionResult::Error(error) => {
                self.repl.raise(error.clone());
                Err(Box::new(ReplStartError { repl: self.repl, error }))
            }
        }
    }

    /// Goes on without the result: the call gives a future.
    fn resume_pending(mut self) -> Result<ReplProgress, Box<ReplStartError>> {
        let call = CallId(self.call_id);
        let future = GatherFuture {
            items: vec![GatherItem::ExternalFuture(call)],
            results: vec![None],
            pending_calls: vec![call],
        };
        let id = self.repl.vm.heap.allocate(HeapData::GatherFuture(future)).unwrap();
        self.repl.vm.push(Value::Ref(id));
        self.repl.proceed()
    }
}

struct ResolveFutures {
    repl: MontyRepl,
    pending: Vec<u32>,
}

impl ResolveFutures {
    fn pending_call_ids(&self) -> &[u32] {
        &self.pending
    }

    fn resume(mut self, results: Vec<(u32, ExtFunctionResult)>) -> Result<ReplProgress, Box<ReplStartError>> {
        for (call_id, result) in results {
            let ExtFunctionResult::Return(object) = result else { panic!("the call failed") };
            let v = self.repl.to_value(&object);
            let Some(Value::Ref(id)) = self.repl.vm.stack.last().copied() else { panic!("nothing is awaited") };
            let HeapDataMut::GatherFuture(g) = self.repl.vm.heap.get_mut(id) else { panic!("no future is awaited") };
            assert_eq!(g.pending_calls, vec![CallId(call_id)]);
            g.pending_calls.clear();
            g.results[0] = Some(v);
        }
        self.repl.proceed()
    }
}

enum ReplProgress {
    Complete { repl: MontyRepl, value: MontyObject },
    FunctionCall(FunctionCall),
    ResolveFutures(ResolveFutures),
}

/// A paused session that was taken apart.
enum StoredProgress {
    FunctionCall { stored: Stored, call_id: u32, function_name: String, args: Vec<MontyObject>, method_call: bool },
    ResolveFutures { stored: Stored, pending: Vec<u32> },
}

impl ReplProgress {
    fn into_function_call(self) -> Option<FunctionCall> {
        match self {
            ReplProgress::FunctionCall(call) => Some(call),
            _ => None,
        }
    }

    fn into_complete(self) -> Option<(MontyRepl, MontyObject)> {
        match self {
            ReplProgress::Complete { repl, value } => Some((repl, value)),
            _ => None,
        }
    }

    fn into_resolve_futures(self) -> Option<ResolveFutures> {
        match self {
            ReplProgress::ResolveFutures(state) => Some(state),
            _ => None,
        }
    }

    fn dump(self) -> Result<StoredProgress, String> {
        match self {
            ReplProgress::FunctionCall(call) => Ok(StoredProgress::FunctionCall {
                stored: call.repl.dump()?,
                call_id: call.call_id,
                function_name: call.function_name,
                args: call.args,
                method_call: call.method_call,
            }),
            ReplProgress::ResolveFutures(state) => {
                Ok(StoredProgress::ResolveFutures { stored: state.repl.dump()?, pending: state.pending })
            }
            ReplProgress::Complete { .. } => Err("nothing is pending".to_owned()),
        }
    }

    fn load(stored: StoredProgress) -> Result<ReplProgress, String> {
        Ok(match stored {
            StoredProgress::FunctionCall { stored, call_id, function_name, args, method_call } => {
                let repl = MontyRepl::load(stored)?;
                ReplProgress::FunctionCall(FunctionCall { repl, call_id, function_name, args, method_call })
            }
            StoredProgress::ResolveFutures { stored, pending } => {
                ReplProgress::ResolveFutures(ResolveFutures { repl: MontyRepl::load(stored)?, pending })
            }
        })
    }
}

fn init_repl(code: &str) -> (MontyRepl, MontyObject) {
    MontyRepl::new(code, vec![]).unwrap()
}

// ---------------------------------------------------------------------------
// Sessions
// ---------------------------------------------------------------------------

#[test]
fn repl_executes_only_new_code() {
    let (mut repl, init_output) = init_repl("counter = 0");
    assert_eq!(init_output, MontyObject::PyNone);

    // Execute a snippet that mutates state.
    let output = repl.feed_no_print("counter = counter + 1").unwrap();
    assert_eq!(output, MontyObject::PyNone);

    // Feed only the read expression. If replay happened, we'd get 2 instead of 1.
    let output = repl.feed_no_print("counter").unwrap();
    assert_eq!(output, MontyObject::Int(1));
}

#[test]
fn repl_persists_state_and_definitions() {
    let (mut repl, _) = init_repl("x = 10");

    repl.feed_no_print("def add(v):\n    return x + v").unwrap();
    repl.feed_no_print("x = 20").unwrap();
    let output = repl.feed_no_print("add(22)").unwrap();
    assert_eq!(output, MontyObject::Int(42));
}

#[test]
fn repl_function_redefinition_uses_latest_definition() {
    let (mut repl, init_output) = init_repl("");
    assert_eq!(init_output, MontyObject::PyNone);

    repl.feed_no_print("def f():\n    return 1").unwrap();
    assert_eq!(repl.feed_no_print("f()").unwrap(), MontyObject::Int(1));

    repl.feed_no_print("def f():\n    return 2").unwrap();
    assert_eq!(repl.feed_no_print("f()").unwrap(), MontyObject::Int(2));
}

#[test]
fn repl_nested_function_redefinition_updates_callers() {
    let (mut repl, init_output) = init_repl("");
    assert_eq!(init_output, MontyObject::PyNone);

    repl.feed_no_print("def g():\n    return 10").unwrap();
    repl.feed_no_print("def f():\n    return g() + 1").unwrap();
    assert_eq!(repl.feed_no_print("f()").unwrap(), MontyObject::Int(11));

    repl.feed_no_print("def g():\n    return 41").unwrap();
    assert_eq!(repl.feed_no_print("f()").unwrap(), MontyObject::Int(42));
}

#[test]
fn repl_runtime_error_keeps_partial_state_consistent() {
    let (mut repl, init_output) = init_repl("");
    assert_eq!(init_output, MontyObject::PyNone);

    let result = repl.feed_no_print("def f():\n    return 41\nx = 1\nraise RuntimeError('boom')");
    assert!(result.is_err(), "snippet should raise RuntimeError");

    // Definitions and assignments that happened before the exception should remain valid.
    assert_eq!(repl.feed_no_print("f()").unwrap(), MontyObject::Int(41));
    assert_eq!(repl.feed_no_print("x").unwrap(), MontyObject::Int(1));
}

#[test]
fn repl_heap_mutations_are_not_replayed() {
    let (mut repl, _) = init_repl("items = []");

    repl.feed_no_print("items.append(1)").unwrap();
    assert_eq!(repl.feed_no_print("items").unwrap(), MontyObject::List(vec![MontyObject::Int(1)]));

    repl.feed_no_print("items.append(2)").unwrap();
    assert_eq!(
        repl.feed_no_print("items").unwrap(),
        MontyObject::List(vec![MontyObject::Int(1), MontyObject::Int(2)])
    );
}

#[test]
fn repl_supports_collections_namedtuple_across_snippets() {
    let (mut repl, init_output) = init_repl("");
    assert_eq!(init_output, MontyObject::PyNone);

    repl.feed_no_print("from collections import namedtuple").unwrap();
    repl.feed_no_print("Point = namedtuple('Point', ['x', 'y'])").unwrap();

    assert_eq!(
        repl.feed_no_print("Point").unwrap(),
        MontyObject::Repr("<class '__main__.Point'>".to_owned())
    );

    repl.feed_no_print("point = Point(1, y=2)").unwrap();
    assert_eq!(
        repl.feed_no_print("point").unwrap(),
        MontyObject::NamedTuple {
            class_name: "Point".to_owned(),
            field_names: vec!["x".to_owned(), "y".to_owned()],
            values: vec![MontyObject::Int(1), MontyObject::Int(2)],
        }
    );
    assert_eq!(repl.feed_no_print("point.y").unwrap(), MontyObject::Int(2));
}

#[test]
fn repl_dump_load_survives_between_snippets() {
    let (mut repl, _) = init_repl("total = 1");
    repl.feed_no_print("total = total + 1").unwrap();

    let stored = repl.dump().unwrap();
    let mut loaded = MontyRepl::load(stored).unwrap();

    loaded.feed_no_print("total = total * 21").unwrap();
    let output = loaded.feed_no_print("total").unwrap();
    assert_eq!(output, MontyObject::Int(42));
}

#[test]
fn repl_dump_load_preserves_namedtuple_factories() {
    let (repl, _) = init_repl("from collections import namedtuple\nPoint = namedtuple('Point', 'x y', defaults=[20])");

    let stored = repl.dump().unwrap();
    let mut loaded = MontyRepl::load(stored).unwrap();

    assert_eq!(
        loaded.feed_no_print("Point(1)").unwrap(),
        MontyObject::NamedTuple {
            class_name: "Point".to_owned(),
            field_names: vec!["x".to_owned(), "y".to_owned()],
            values: vec![MontyObject::Int(1), MontyObject::Int(20)],
        }
    );
}

#[test]
fn repl_dump_load_preserves_heap_aliasing() {
    let (mut repl, _) = init_repl("a = []\nb = a");

    repl.feed_no_print("a.append(1)").unwrap();

    let stored = repl.dump().unwrap();
    let mut loaded = MontyRepl::load(stored).unwrap();

    loaded.feed_no_print("b.append(2)").unwrap();
    assert_eq!(
        loaded.feed_no_print("a").unwrap(),
        MontyObject::List(vec![MontyObject::Int(1), MontyObject::Int(2)])
    );
    assert_eq!(
        loaded.feed_no_print("b").unwrap(),
        MontyObject::List(vec![MontyObject::Int(1), MontyObject::Int(2)])
    );
}

#[test]
fn repl_start_external_call_resumes_to_updated_repl() {
    let (repl, init_output) = init_repl("");
    assert_eq!(init_output, MontyObject::PyNone);

    let progress = repl.start("ext_fn(41) + 1").ok().unwrap();
    let call = progress.into_function_call().expect("expected function call");
    assert_eq!(call.function_name, "ext_fn");
    assert_eq!(call.args, vec![MontyObject::Int(41)]);

    let progress = call.resume(MontyObject::Int(41)).ok().unwrap();
    let (mut repl, value) = progress.into_complete().expect("expected completion");
    assert_eq!(value, MontyObject::Int(42));
    assert_eq!(repl.feed_no_print("x = 5").unwrap(), MontyObject::PyNone);
    assert_eq!(repl.feed_no_print("x").unwrap(), MontyObject::Int(5));
}

#[test]
fn repl_progress_dump_load_roundtrip() {
    let (repl, _) = init_repl("");

    let progress = repl.start("ext_fn(20) + 22").ok().unwrap();

    let stored = progress.dump().ok().unwrap();
    let loaded = ReplProgress::load(stored).ok().unwrap();

    let call = loaded.into_function_call().expect("expected function call");
    assert_eq!(call.args, vec![MontyObject::Int(20)]);

    let progress = call.resume(MontyObject::Int(20)).ok().unwrap();
    let (mut repl, value) = progress.into_complete().expect("expected completion");
    assert_eq!(value, MontyObject::Int(42));
    assert_eq!(repl.feed_no_print("z = 1").unwrap(), MontyObject::PyNone);
    assert_eq!(repl.feed_no_print("z").unwrap(), MontyObject::Int(1));
}

#[test]
fn repl_start_run_pending_resolve_futures_roundtrip() {
    let (repl, _) = init_repl(
        r"
async def main():
    value = await foo()
    return value + 1
",
    );

    let progress = repl.start("await main()").ok().unwrap();
    let call = progress.into_function_call().expect("expected function call");
    let call_id = call.call_id;

    let progress = call.resume_pending().ok().unwrap();
    let stored = progress.dump().ok().unwrap();
    let loaded = ReplProgress::load(stored).ok().unwrap();
    let state = loaded.into_resolve_futures().expect("expected resolve futures");
    assert_eq!(state.pending_call_ids(), &[call_id]);

    let progress =
        state.resume(vec![(call_id, ExtFunctionResult::Return(MontyObject::Int(41)))]).ok().unwrap();
    let (mut repl, value) = progress.into_complete().expect("expected completion");
    assert_eq!(value, MontyObject::Int(42));
    assert_eq!(repl.feed_no_print("final_value = 42").unwrap(), MontyObject::PyNone);
    assert_eq!(repl.feed_no_print("final_value").unwrap(), MontyObject::Int(42));
}

#[test]
fn repl_start_runtime_error_preserves_repl_state() {
    // Simulate an agent loop: create variables, then a later snippet raises.
    // The session must survive so subsequent snippets can access prior variables.
    let (repl, _) = init_repl("x = 10");

    // Snippet that sets a new variable then raises — returned via ReplStartError.
    let err = repl.start("y = 20\nraise ValueError('boom')").err().expect("expected ReplStartError");
    let ReplStartError { mut repl, error } = *err;
    assert_eq!(error.exc_type(), ExcType::ValueError);
    assert_eq!(error.message(), Some("boom"));

    // Variables from BEFORE the error snippet survive.
    assert_eq!(repl.feed_no_print("x").unwrap(), MontyObject::Int(10));
    // Variable assigned BEFORE the raise within the erroring snippet also survives.
    assert_eq!(repl.feed_no_print("y").unwrap(), MontyObject::Int(20));
    // New snippets continue to work normally.
    assert_eq!(repl.feed_no_print("x + y + 12").unwrap(), MontyObject::Int(42));
}

#[test]
fn repl_start_runtime_error_during_external_call_preserves_repl_state() {
    // An external function returns an error, which should come back as ReplStartError
    // with the session preserved.
    let (repl, _) = init_repl("z = 99");

    let progress = repl.start("ext_fn(1)").ok().unwrap();
    let call = progress.into_function_call().expect("expected function call");

    // Resume with an exception from the external function.
    let exc = MontyException::new(ExcType::RuntimeError, Some("ext failed".to_string()));
    let err = call.resume(ExtFunctionResult::Error(exc)).err().expect("expected ReplStartError");
    let ReplStartError { mut repl, error } = *err;
    assert_eq!(error.exc_type(), ExcType::RuntimeError);

    // Variable from before the error is still accessible.
    assert_eq!(repl.feed_no_print("z").unwrap(), MontyObject::Int(99));
}

#[test]
fn repl_dataclass_method_call_yields_function_call_with_method_flag() {
    // Create a session with a dataclass input and call a method on it.
    let point = MontyObject::Dataclass {
        name: "Point".to_string(),
        type_id: 0,
        field_names: vec!["x".to_string(), "y".to_string()],
        attrs: vec![
            (MontyObject::Text("x".to_string()), MontyObject::Int(1)),
            (MontyObject::Text("y".to_string()), MontyObject::Int(2)),
        ],
        frozen: true,
    };

    let (repl, _) = MontyRepl::new("", vec![("point".to_string(), point)]).unwrap();

    // Calling point.sum() should yield a FunctionCall with method_call=true
    let progress = repl.start("point.sum()").ok().unwrap();
    let call = progress.into_function_call().expect("expected method call");

    assert_eq!(call.function_name, "sum");
    assert!(call.method_call, "should be a method call");
    // First arg should be the dataclass instance (self)
    assert!(matches!(&call.args[0], MontyObject::Dataclass { name, .. } if name == "Point"));

    // Resume with a return value (sum of x + y = 3)
    let progress = call.resume(MontyObject::Int(3)).ok().unwrap();
    let (mut repl, value) = progress.into_complete().expect("expected completion");
    assert_eq!(value, MontyObject::Int(3));

    // Verify state is preserved after method call
    assert_eq!(repl.feed_no_print("1 + 1").unwrap(), MontyObject::Int(2));
}

#[test]
fn sessions_give_up_what_they_no_longer_hold() {
    let (mut repl, _) = init_repl("a = []\nb = a");
    let held = repl.vm.heap.entry_count();
    repl.feed_no_print("a.append(1)").unwrap();
    assert_eq!(repl.vm.heap.entry_count(), held);
    repl.feed_no_print("a = 1").unwrap();
    assert_eq!(repl.vm.heap.entry_count(), held);
    repl.feed_no_print("b = 2").unwrap();
    assert_eq!(repl.vm.heap.entry_count(), held - 1);
    assert_eq!(repl.vm.stack.len(), 0);
    assert_eq!(repl.vm.heap.get_recursion_depth(), 0);
}
