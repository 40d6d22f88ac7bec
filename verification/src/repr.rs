//! What `repr()` and `str()` show.
//!
//! A container that is met again inside itself, or that lies deeper than the
//! tracker allows, is shown as dots.

use crate::builtins::Builtins;
use crate::equality::{Scene, scene};
use crate::hash::{has_name, name_text};
use crate::heap::{Heap, check_deeper, deeper};
use crate::heap_data::{HeapData, HeapDataMut, HeapDataRef};
use crate::heap_model::{data_at, readable};
use crate::intern::{FunctionId, InternTables, Interns, id_text, valid_id};
use crate::resource::ResourceTracker;
use crate::text::{decimal, digit_char, join2, join3, numeral, texts, write_decimal, write_numeral};
use crate::types::lookup::{legible, lemma_keys_legible, lemma_text_at, text_at, value_of};
use crate::types::mappings::{Dict, DictEntry, lemma_flat_index};
use crate::types::namedtuple_factory::NamedTupleFactory;
use crate::types::scalars::{Range, Slice};
use crate::value::{EitherStr, Value};
use crate::walk::{Walk, lemma_at_hand, lemma_keys_at_hand};
use ahash::AHashSet;
use vstd::prelude::*;

verus! {

/// A hash set of the `ahash` crate.
#[verifier::external_type_specification]
#[verifier::external_body]
#[verifier::reject_recursive_types(T)]
#[verifier::reject_recursive_types(S)]
pub struct ExAHashSet<T, S>(AHashSet<T, S>);

/// The members of a set of slot numbers.
pub uninterp spec fn members(s: AHashSet<usize>) -> Set<usize>;

/// `AHashSet::new`: a new set has no members.
#[verifier::external_body]
pub(crate) fn no_ids() -> (s: AHashSet<usize>)
    ensures
        members(s) == Set::<usize>::empty(),
{
    AHashSet::new()
}

/// `AHashSet::insert`: adds a member, and says whether it was not one before.
#[verifier::external_body]
fn add_id(s: &mut AHashSet<usize>, id: usize) -> (r: bool)
    ensures
        members(*final(s)) == members(*old(s)).insert(id),
        r == !members(*old(s)).contains(id),
{
    s.insert(id)
}

/// `AHashSet::remove`: takes a member away.
#[verifier::external_body]
fn remove_id(s: &mut AHashSet<usize>, id: usize)
    ensures
        members(*final(s)) == members(*old(s)).remove(id),
{
    s.remove(&id);
}

// ---------------------------------------------------------------------------
// Quoting
// ---------------------------------------------------------------------------

/// The quotation mark that a text is shown in: a double one only where the text
/// holds single ones and no double ones.
pub open spec fn quote_for(t: Seq<char>) -> char {
    if t.contains('\'') && !t.contains('"') { '"' } else { '\'' }
}

/// Two hexadecimal digits.
pub open spec fn hex_escape(n: nat) -> Seq<char> {
    seq!['\\', 'x', digit_char(n / 16), digit_char(n % 16)]
}

/// How a character is shown between the quotation marks `q`.
pub open spec fn escaped_char(c: char, q: char) -> Seq<char> {
    if c == '\\' || c == q {
        seq!['\\', c]
    } else if c == '\n' {
        seq!['\\', 'n']
    } else if c == '\r' {
        seq!['\\', 'r']
    } else if c == '\t' {
        seq!['\\', 't']
    } else if (c as u32) < 32 || (c as u32) == 127 {
        hex_escape(c as u32 as nat)
    } else {
        seq![c]
    }
}

/// How the characters of a text are shown between the quotation marks `q`.
pub open spec fn escaped(t: Seq<char>, q: char) -> Seq<char>
    decreases t.len(),
{
    if t.len() == 0 {
        Seq::empty()
    } else {
        escaped(t.drop_last(), q) + escaped_char(t.last(), q)
    }
}

/// How a string is shown.
pub open spec fn str_repr(t: Seq<char>) -> Seq<char> {
    seq![quote_for(t)] + escaped(t, quote_for(t)) + seq![quote_for(t)]
}

/// How a byte is shown between the quotation marks `q`.
pub open spec fn escaped_byte(b: u8, q: char) -> Seq<char> {
    if b < 127 { escaped_char(b as char, q) } else { hex_escape(b as nat) }
}

/// How some bytes are shown between the quotation marks `q`.
pub open spec fn escaped_bytes(b: Seq<u8>, q: char) -> Seq<char>
    decreases b.len(),
{
    if b.len() == 0 {
        Seq::empty()
    } else {
        escaped_bytes(b.drop_last(), q) + escaped_byte(b.last(), q)
    }
}

/// How a byte string is shown.
pub open spec fn bytes_repr(b: Seq<u8>) -> Seq<char> {
    let q = if b.contains(39) && !b.contains(34) { '"' } else { '\'' };
    "b"@ + seq![q] + escaped_bytes(b, q) + seq![q]
}

/// Returns the character of a hexadecimal digit.
fn hex_digit(d: u8) -> (r: char)
    requires
        d < 16,
    ensures
        r == digit_char(d as nat),
{
    if d < 10 {
        (48u8 + d) as char
    } else {
        (97u8 + (d - 10u8)) as char
    }
}

fn push_hex(out: &mut String, n: u8)
    ensures
        final(out)@ == old(out)@ + hex_escape(n as nat),
{
    out.push('\\');
    out.push('x');
    out.push(hex_digit(n / 16));
    out.push(hex_digit(n % 16));
    proof {
        assert(out@ =~= old(out)@ + hex_escape(n as nat));
    }
}

fn push_escaped_char(out: &mut String, c: char, q: char)
    ensures
        final(out)@ == old(out)@ + escaped_char(c, q),
{
    if c == '\\' || c == q {
        out.push('\\');
        out.push(c);
    } else if c == '\n' {
        out.push('\\');
        out.push('n');
    } else if c == '\r' {
        out.push('\\');
        out.push('r');
    } else if c == '\t' {
        out.push('\\');
        out.push('t');
    } else if (c as u32) < 32 || (c as u32) == 127 {
        push_hex(out, c as u8);
    } else {
        out.push(c);
    }
    proof {
        assert(out@ =~= old(out)@ + escaped_char(c, q));
    }
}

/// Writes a string as `repr()` shows it.
pub fn write_str_repr(t: &str) -> (r: String)
    ensures
        r@ == str_repr(t@),
{
    let n: usize = t.unicode_len();
    let mut single: bool = false;
    let mut double: bool = false;
    let mut i: usize = 0;
    while i < n
        invariant
            i <= n,
            n == t@.len(),
            single == t@.take(i as int).contains('\''),
            double == t@.take(i as int).contains('"'),
        decreases n - i,
    {
        let c: char = t.get_char(i);
        proof {
            lemma_contains_step(t@, i as int, '\'');
            lemma_contains_step(t@, i as int, '"');
        }
        if c == '\'' {
            single = true;
        }
        if c == '"' {
            double = true;
        }
        i = i + 1;
    }
    proof {
        assert(t@.take(n as int) =~= t@);
    }
    let q: char = if single && !double { '"' } else { '\'' };
    let mut out: String = String::new();
    out.push(q);
    let mut j: usize = 0;
    proof {
        assert(out@ =~= seq![q] + escaped(t@.take(0), q));
    }
    while j < n
        invariant
            j <= n,
            n == t@.len(),
            out@ == seq![q] + escaped(t@.take(j as int), q),
        decreases n - j,
    {
        proof {
            assert(t@.take(j + 1).drop_last() =~= t@.take(j as int));
        }
        push_escaped_char(&mut out, t.get_char(j), q);
        proof {
            assert(out@ =~= seq![q] + escaped(t@.take(j + 1), q));
        }
        j = j + 1;
    }
    proof {
        assert(t@.take(n as int) =~= t@);
    }
    out.push(q);
    proof {
        assert(out@ =~= str_repr(t@));
    }
    out
}

proof fn lemma_contains_step<A>(s: Seq<A>, i: int, a: A)
    requires
        0 <= i < s.len(),
    ensures
        s.take(i + 1).contains(a) <==> s.take(i).contains(a) || s[i] == a,
{
    if s.take(i).contains(a) {
        let k = choose|k: int| 0 <= k < s.take(i).len() && s.take(i)[k] == a;
        assert(s.take(i + 1)[k] == a);
    }
    if s[i] == a {
        assert(s.take(i + 1)[i] == a);
    }
    let longer = s.take(i + 1);
    if longer.contains(a) {
        let k = choose|k: int| 0 <= k < longer.len() && longer[k] == a;
        if k < i {
            assert(s.take(i)[k] == a);
        }
    }
}

/// Writes a byte string as `repr()` shows it.
pub fn write_bytes_repr(b: &[u8]) -> (r: String)
    ensures
        r@ == bytes_repr(b@),
{
    let n: usize = b.len();
    let mut single: bool = false;
    let mut double: bool = false;
    let mut i: usize = 0;
    while i < n
        invariant
            i <= n,
            n == b@.len(),
            single == b@.take(i as int).contains(39),
            double == b@.take(i as int).contains(34),
        decreases n - i,
    {
        proof {
            lemma_contains_step(b@, i as int, 39);
            lemma_contains_step(b@, i as int, 34);
        }
        if b[i] == 39 {
            single = true;
        }
        if b[i] == 34 {
            double = true;
        }
        i = i + 1;
    }
    proof {
        assert(b@.take(n as int) =~= b@);
    }
    let q: char = if single && !double { '"' } else { '\'' };
    let mut out: String = "b".to_owned();
    out.push(q);
    let mut j: usize = 0;
    proof {
        assert(out@ =~= "b"@ + seq![q] + escaped_bytes(b@.take(0), q));
    }
    while j < n
        invariant
            j <= n,
            n == b@.len(),
            out@ == "b"@ + seq![q] + escaped_bytes(b@.take(j as int), q),
        decreases n - j,
    {
        proof {
            assert(b@.take(j + 1).drop_last() =~= b@.take(j as int));
        }
        if b[j] < 127 {
            push_escaped_char(&mut out, b[j] as char, q);
        } else {
            push_hex(&mut out, b[j]);
        }
        proof {
            assert(out@ =~= "b"@ + seq![q] + escaped_bytes(b@.take(j + 1), q));
        }
        j = j + 1;
    }
    proof {
        assert(b@.take(n as int) =~= b@);
    }
    out.push(q);
    proof {
        assert(out@ =~= bytes_repr(b@));
    }
    out
}

// ---------------------------------------------------------------------------
// Payloads
// ---------------------------------------------------------------------------

/// The class that a factory makes, with the module that it belongs to.
///
/// A class without module metadata belongs to the main program; one with an empty
/// module name is shown bare.
pub open spec fn qualified_text(tables: InternTables, f: NamedTupleFactory) -> Seq<char> {
    match f.module_name {
        Some(m) => if name_text(tables, m).len() == 0 {
            name_text(tables, f.typename)
        } else {
            name_text(tables, m) + "."@ + name_text(tables, f.typename)
        },
        None => "__main__."@ + name_text(tables, f.typename),
    }
}

/// How an optional number is shown.
pub open spec fn option_repr(n: Option<i64>) -> Seq<char> {
    match n {
        Some(n) => decimal(n as int),
        None => "None"@,
    }
}

/// How a range is shown.
pub open spec fn range_repr(r: Range) -> Seq<char> {
    let head = "range("@ + decimal(r.start as int) + ", "@ + decimal(r.stop as int);
    if r.step == 1 { head + ")"@ } else { head + ", "@ + decimal(r.step as int) + ")"@ }
}

/// How a slice is shown.
pub open spec fn slice_repr(s: Slice) -> Seq<char> {
    "slice("@ + option_repr(s.start) + ", "@ + option_repr(s.stop) + ", "@ + option_repr(s.step) + ")"@
}

/// Is the payload shown item by item?
pub open spec fn is_container(data: HeapData) -> bool {
    data is List || data is Tuple || data is NamedTuple || data is Dict || data is PySet || data is FrozenSet
        || data is Dataclass
}

/// How a container is shown whose items are not.
pub open spec fn dots(data: HeapData) -> Seq<char> {
    match data {
        HeapData::List(_) => "[...]"@,
        HeapData::Tuple(_) => "(...)"@,
        HeapData::NamedTuple(_) => "(...)"@,
        HeapData::Dataclass(_) => "(...)"@,
        _ => "{...}"@,
    }
}

impl<T: ResourceTracker> Scene<T> {
    /// Does every name in the payload lead to a text? Of what a cell holds the type is
    /// shown.
    pub open spec fn names_in(self, data: HeapData) -> bool {
        match data {
            HeapData::NamedTuple(nt) => {
                &&& has_name(self.tables, nt.name)
                &&& nt.field_names@.len() == nt.items@.len()
                &&& forall|i: int| 0 <= i < nt.field_names@.len() ==> has_name(self.tables, #[trigger] nt.field_names@[i])
            },
            HeapData::NamedTupleFactory(f) => {
                &&& has_name(self.tables, f.typename)
                &&& forall|i: int| 0 <= i < f.field_names@.len() ==> has_name(self.tables, #[trigger] f.field_names@[i])
                &&& f.module_name matches Some(m) ==> has_name(self.tables, m)
            },
            HeapData::Closure(c) => self.has_function(c.func_id),
            HeapData::FunctionDefaults(fd) => self.has_function(fd.func_id),
            HeapData::Coroutine(c) => self.has_function(c.func_id),
            HeapData::Class(c) => has_name(self.tables, c.name),
            HeapData::Dataclass(dc) => has_name(self.tables, dc.name),
            HeapData::Module(m) => valid_id(self.tables.strings, m.name),
            HeapData::Cell(c) => self.has(c.0) && (c.0 matches Value::Ref(id) ==> readable(self.entries, id)),
            _ => true,
        }
    }

    /// How a function of the program is shown.
    pub open spec fn function_repr(self, id: FunctionId) -> Seq<char> {
        "<function "@ + id_text(self.tables.strings, self.functions[id.0 as int].name.name_id) + " at 0x0>"@
    }

    /// How a payload without items is shown.
    pub open spec fn leaf_repr(self, data: HeapData) -> Seq<char> {
        match data {
            HeapData::Str(s) => str_repr(s.value@),
            HeapData::Bytes(b) => bytes_repr(b.value@),
            HeapData::NamedTupleFactory(f) => "<class '"@ + qualified_text(self.tables, f) + "'>"@,
            HeapData::Closure(c) => self.function_repr(c.func_id),
            HeapData::FunctionDefaults(fd) => self.function_repr(fd.func_id),
            // Cell repr shows the contained value's type
            HeapData::Cell(c) => "<cell: "@ + self.type_of(c.0).name() + " object>"@,
            HeapData::Range(r) => range_repr(r),
            HeapData::Slice(s) => slice_repr(s),
            HeapData::Exception(e) => match e.arg {
                Some(arg) => e.exc_type.name() + "("@ + str_repr(arg@) + ")"@,
                None => e.exc_type.name() + "()"@,
            },
            HeapData::Iter(_) => "<iterator>"@,
            HeapData::LongInt(li) => decimal(li@),
            HeapData::Class(c) => "<class '"@ + name_text(self.tables, c.name) + "'>"@,
            HeapData::Module(m) => "<module '"@ + id_text(self.tables.strings, m.name) + "'>"@,
            HeapData::Coroutine(c) => "<coroutine object "@ + id_text(
                self.tables.strings,
                self.functions[c.func_id.0 as int].name.name_id,
            ) + ">"@,
            HeapData::GatherFuture(g) => "<gather("@ + decimal(g.items@.len() as int) + ")>"@,
            HeapData::Path(p) => "PosixPath("@ + str_repr(p.path@) + ")"@,
            HeapData::RePattern(p) => "re.compile("@ + str_repr(p.pattern@) + ")"@,
            HeapData::ReMatch(_) => "<re.Match object>"@,
            HeapData::ExtFunction(name) => "<function '"@ + name@ + "' external>"@,
            _ => Seq::empty(),
        }
    }

    /// How a value is shown, inside the containers in `seen`.
    pub open spec fn repr_value(self, v: Value, seen: Set<usize>, depth: usize) -> Seq<char>
        decreases usize::MAX - depth, 2int, 0int,
    {
        match v {
            Value::Undefined => "Undefined"@,
            Value::PyNone => "None"@,
            Value::Bool(b) => if b {
                "True"@
            } else {
                "False"@
            },
            Value::Int(n) => decimal(n as int),
            Value::InternString(id) => str_repr(id_text(self.tables.strings, id)),
            Value::InternBytes(id) => bytes_repr(self.tables.bytes[id.0 as int]),
            Value::Builtin(Builtins::Function(f)) => "<built-in function "@ + decimal(f.0 as int) + ">"@,
            Value::Builtin(Builtins::ExcType(e)) => "<class '"@ + e.name() + "'>"@,
            Value::Builtin(Builtins::Type(t)) => "<class '"@ + t.name() + "'>"@,
            Value::ModuleFunction(f) => "<function "@ + f.name() + " at 0x"@ + numeral(0, 16) + ">"@,
            Value::ExtFunction(id) => "<function '"@ + id_text(self.tables.strings, id) + "' external>"@,
            Value::DefFunction(id) => self.function_repr(id),
            Value::Property(_) => "<property>"@,
            Value::Marker(s) => s.name(),
            Value::Ref(id) => if is_container(data_at(self.entries, id)) && seen.contains(id.0) {
                dots(data_at(self.entries, id))
            } else {
                self.repr_data(data_at(self.entries, id), seen.insert(id.0), depth)
            },
        }
    }

    /// How a payload is shown, inside the containers in `seen`.
    pub open spec fn repr_data(self, data: HeapData, seen: Set<usize>, depth: usize) -> Seq<char>
        decreases usize::MAX - depth, 1int, 0int,
    {
        if !is_container(data) {
            self.leaf_repr(data)
        } else if deeper(self.tracker, depth) is Err {
            dots(data)
        } else {
            self.repr_container(data, seen, (depth + 1) as usize)
        }
    }

    /// How a container is shown with its items.
    pub open spec fn repr_container(self, data: HeapData, seen: Set<usize>, depth: usize) -> Seq<char>
        decreases usize::MAX - depth, 5int, 0int,
    {
        match data {
            HeapData::List(l) => "["@ + self.repr_items(l.items@, seen, depth) + "]"@,
            HeapData::Tuple(t) => if t@.len() == 1 {
                "("@ + self.repr_items(t@, seen, depth) + ",)"@
            } else {
                "("@ + self.repr_items(t@, seen, depth) + ")"@
            },
            HeapData::NamedTuple(nt) => name_text(self.tables, nt.name) + "("@ + self.repr_fields(
                nt.field_names@,
                nt.items@,
                seen,
                depth,
            ) + ")"@,
            HeapData::Dict(d) => "{"@ + self.repr_entries(d.entries@, seen, depth) + "}"@,
            HeapData::PySet(s) => if s.storage.items@.len() == 0 {
                "set()"@
            } else {
                "{"@ + self.repr_items(s.storage.items@, seen, depth) + "}"@
            },
            HeapData::FrozenSet(s) => if s.storage.items@.len() == 0 {
                "frozenset()"@
            } else {
                "frozenset({"@ + self.repr_items(s.storage.items@, seen, depth) + "})"@
            },
            HeapData::Dataclass(dc) => name_text(self.tables, dc.name) + "("@ + self.repr_attrs(
                texts(dc.field_names@),
                dc.attrs.entries@,
                seen,
                depth,
            ) + ")"@,
            _ => Seq::empty(),
        }
    }

    /// Some values, separated by commas.
    pub open spec fn repr_items(self, items: Seq<Value>, seen: Set<usize>, depth: usize) -> Seq<char>
        decreases usize::MAX - depth, 3int, items.len(),
    {
        if items.len() == 0 {
            Seq::empty()
        } else if items.len() == 1 {
            self.repr_value(items[0], seen, depth)
        } else {
            self.repr_items(items.drop_last(), seen, depth) + ", "@ + self.repr_value(items.last(), seen, depth)
        }
    }

    /// Some named values, separated by commas.
    pub open spec fn repr_fields(
        self,
        names: Seq<EitherStr>,
        items: Seq<Value>,
        seen: Set<usize>,
        depth: usize,
    ) -> Seq<char>
        decreases usize::MAX - depth, 3int, items.len(),
    {
        if items.len() == 0 {
            Seq::empty()
        } else {
            let last = name_text(self.tables, names.last()) + "="@ + self.repr_value(items.last(), seen, depth);
            if items.len() == 1 {
                last
            } else {
                self.repr_fields(names.drop_last(), items.drop_last(), seen, depth) + ", "@ + last
            }
        }
    }

    /// Some keys with their values, separated by commas.
    pub open spec fn repr_entries(self, es: Seq<DictEntry>, seen: Set<usize>, depth: usize) -> Seq<char>
        decreases usize::MAX - depth, 3int, es.len(),
    {
        if es.len() == 0 {
            Seq::empty()
        } else {
            let last = self.repr_value(es.last().key, seen, depth) + ": "@ + self.repr_value(
                es.last().value,
                seen,
                depth,
            );
            if es.len() == 1 {
                last
            } else {
                self.repr_entries(es.drop_last(), seen, depth) + ", "@ + last
            }
        }
    }

    /// Some fields with the values that the entries have for them, separated by commas.
    pub open spec fn repr_attrs(
        self,
        names: Seq<Seq<char>>,
        es: Seq<DictEntry>,
        seen: Set<usize>,
        depth: usize,
    ) -> Seq<char>
        decreases usize::MAX - depth, 3int, names.len(),
    {
        if names.len() == 0 {
            Seq::empty()
        } else {
            let last = names.last() + "="@ + match value_of(self, es, names.last()) {
                Some(v) => self.repr_value(v, seen, depth),
                None => "<?>"@,
            };
            if names.len() == 1 {
                last
            } else {
                self.repr_attrs(names.drop_last(), es, seen, depth) + ", "@ + last
            }
        }
    }

    /// What `str()` gives for a value.
    pub open spec fn str_value(self, v: Value, depth: usize) -> Seq<char> {
        match v {
            Value::InternString(id) => id_text(self.tables.strings, id),
            Value::Ref(id) => self.str_data(data_at(self.entries, id), set![id.0], depth),
            _ => self.repr_value(v, Set::empty(), depth),
        }
    }

    /// What `str()` gives for a payload, inside the containers in `seen`.
    pub open spec fn str_data(self, data: HeapData, seen: Set<usize>, depth: usize) -> Seq<char> {
        match data {
            // Strings return their value directly without quotes
            HeapData::Str(s) => s.value@,
            // LongInt returns its string representation
            HeapData::LongInt(li) => decimal(li@),
            // Exceptions return just the message (or empty string if no message)
            HeapData::Exception(e) => match e.arg {
                Some(arg) => arg@,
                None => Seq::empty(),
            },
            // Paths return the path string without the PosixPath() wrapper
            HeapData::Path(p) => p.path@,
            // All other types use repr
            _ => self.repr_data(data, seen, depth),
        }
    }
}

/// Writes an optional number.
fn write_option(n: Option<i64>) -> (r: String)
    ensures
        r@ == option_repr(n),
{
    match n {
        Some(n) => write_decimal(n),
        None => "None".to_owned(),
    }
}

impl NamedTupleFactory {
    /// Returns the fully qualified display name used by the class-like repr.
    pub fn qualified_name(&self, interns: &Interns) -> (r: String)
        requires
            has_name(interns.tables(), self.typename),
            self.module_name matches Some(m) ==> has_name(interns.tables(), m),
        ensures
            r@ == qualified_text(interns.tables(), *self),
    {
        let typename: &str = self.typename.as_str(interns);
        match &self.module_name {
            Some(module_name) => {
                let module: &str = module_name.as_str(interns);
                if module.unicode_len() == 0 {
                    typename.to_owned()
                } else {
                    join3(module, ".", typename)
                }
            },
            None => join2("__main__.", typename),
        }
    }
}

/// Writes how a function of the program is shown.
fn write_function(id: FunctionId, interns: &Interns) -> (r: String)
    requires
        id.0 < interns.functions@.len(),
        valid_id(interns.tables().strings, interns.functions@[id.0 as int]@.name.name_id),
    ensures
        r@ == "<function "@ + id_text(
            interns.tables().strings,
            interns.functions@[id.0 as int]@.name.name_id,
        ) + " at 0x0>"@,
{
    join3("<function ", interns.get_str(interns.get_function(id).name.name_id), " at 0x0>")
}

/// Writes how a payload without items is shown.
fn write_leaf<T: ResourceTracker>(data: HeapDataRef<'_>, heap: &Heap<T>, interns: &Interns) -> (r: String)
    requires
        scene(heap@, *interns).names_in(data.data()),
    ensures
        r@ == scene(heap@, *interns).leaf_repr(data.data()),
{
    match data {
        HeapDataRef::Str(s) => write_str_repr(s.as_str()),
        HeapDataRef::Bytes(b) => write_bytes_repr(b.as_slice()),
        HeapDataRef::NamedTupleFactory(f) => join3("<class '", f.qualified_name(interns).as_str(), "'>"),
        HeapDataRef::Closure(c) => write_function(c.func_id, interns),
        HeapDataRef::FunctionDefaults(fd) => write_function(fd.func_id, interns),
        HeapDataRef::Cell(c) => {
            join3("<cell: ", c.0.py_type(heap, interns).as_str(), " object>")
        },
        HeapDataRef::Range(r) => {
            let mut out: String = join3("range(", write_decimal(r.start).as_str(), ", ");
            out.append(write_decimal(r.stop).as_str());
            if r.step != 1 {
                out.append(", ");
                out.append(write_decimal(r.step).as_str());
            }
            out.append(")");
            out
        },
        HeapDataRef::Slice(s) => {
            let mut out: String = join3("slice(", write_option(s.start).as_str(), ", ");
            out.append(write_option(s.stop).as_str());
            out.append(", ");
            out.append(write_option(s.step).as_str());
            out.append(")");
            out
        },
        HeapDataRef::Exception(e) => match &e.arg {
            Some(arg) => {
                let mut out: String = join3(e.exc_type.as_str(), "(", write_str_repr(arg.as_str()).as_str());
                out.append(")");
                out
            },
            None => join2(e.exc_type.as_str(), "()"),
        },
        HeapDataRef::Iter(_) => "<iterator>".to_owned(),
        HeapDataRef::LongInt(li) => li.to_decimal(),
        HeapDataRef::Class(c) => join3("<class '", c.name.as_str(interns), "'>"),
        HeapDataRef::Module(m) => join3("<module '", interns.get_str(m.name), "'>"),
        HeapDataRef::Coroutine(c) => join3(
            "<coroutine object ",
            interns.get_str(interns.get_function(c.func_id).name.name_id),
            ">",
        ),
        HeapDataRef::GatherFuture(g) => join3("<gather(", write_numeral(g.item_count() as u64, 10).as_str(), ")>"),
        HeapDataRef::Path(p) => join3("PosixPath(", write_str_repr(p.path.as_str()).as_str(), ")"),
        HeapDataRef::RePattern(p) => join3("re.compile(", write_str_repr(p.pattern.as_str()).as_str(), ")"),
        HeapDataRef::ReMatch(_) => "<re.Match object>".to_owned(),
        HeapDataRef::ExtFunction(name) => join3("<function '", name.as_str(), "' external>"),
        _ => String::new(),
    }
}

/// Writes how a container is shown whose items are not.
fn write_dots(data: HeapDataRef<'_>) -> (r: String)
    ensures
        r@ == dots(data.data()),
{
    match data {
        HeapDataRef::List(_) => "[...]".to_owned(),
        HeapDataRef::Tuple(_) | HeapDataRef::NamedTuple(_) | HeapDataRef::Dataclass(_) => "(...)".to_owned(),
        _ => "{...}".to_owned(),
    }
}

/// Is the payload shown item by item?
fn shows_items(data: HeapDataRef<'_>) -> (r: bool)
    ensures
        r == is_container(data.data()),
{
    matches!(
        data,
        HeapDataRef::List(_)
            | HeapDataRef::Tuple(_)
            | HeapDataRef::NamedTuple(_)
            | HeapDataRef::Dict(_)
            | HeapDataRef::PySet(_)
            | HeapDataRef::FrozenSet(_)
            | HeapDataRef::Dataclass(_)
    )
}

impl Value {
    /// Writes a value as `repr()` shows it, inside the containers in `heap_ids`.
    ///
    /// `depth` is the recursion depth at which writing starts.
    pub fn py_repr_fmt<T: ResourceTracker>(
        self,
        heap: &Heap<T>,
        heap_ids: &mut AHashSet<usize>,
        interns: &Interns,
        depth: usize,
    ) -> (r: String)
        requires
            scene(heap@, *interns).at_hand(Walk::Show, self),
        ensures
            r@ == scene(heap@, *interns).repr_value(self, members(*old(heap_ids)), depth),
            members(*final(heap_ids)) == members(*old(heap_ids)),
        decreases usize::MAX - depth, 2int, 0int,
    {
        proof {
            lemma_at_hand(scene(heap@, *interns), Walk::Show, self);
        }
        match self {
            Value::Undefined => "Undefined".to_owned(),
            Value::PyNone => "None".to_owned(),
            Value::Bool(b) => {
                if b {
                    "True".to_owned()
                } else {
                    "False".to_owned()
                }
            },
            Value::Int(n) => write_decimal(n),
            Value::InternString(id) => write_str_repr(interns.get_str(id)),
            Value::InternBytes(id) => write_bytes_repr(interns.get_bytes(id)),
            Value::Builtin(Builtins::Function(f)) => join3(
                "<built-in function ",
                write_decimal(f.0 as i64).as_str(),
                ">",
            ),
            Value::Builtin(Builtins::ExcType(e)) => join3("<class '", e.as_str(), "'>"),
            Value::Builtin(Builtins::Type(t)) => join3("<class '", t.as_str(), "'>"),
            Value::ModuleFunction(f) => f.py_repr_fmt(0),
            Value::ExtFunction(id) => join3("<function '", interns.get_str(id), "' external>"),
            Value::DefFunction(id) => write_function(id, interns),
            Value::Property(_) => "<property>".to_owned(),
            Value::Marker(s) => s.as_str().to_owned(),
            Value::Ref(id) => {
                let data: HeapDataRef<'_> = heap.get(id).as_ref();
                let fresh: bool = add_id(heap_ids, id.index());
                if !fresh {
                    proof {
                        assert(members(*old(heap_ids)).insert(id.0) =~= members(*old(heap_ids)));
                    }
                    return if shows_items(data) {
                        write_dots(data)
                    } else {
                        write_leaf(data, heap, interns)
                    };
                }
                let r: String = data.py_repr_fmt(heap, heap_ids, interns, depth);
                remove_id(heap_ids, id.index());
                proof {
                    assert(members(*old(heap_ids)).insert(id.0).remove(id.0) =~= members(*old(heap_ids)));
                }
                r
            },
        }
    }

    /// Writes a value as `str()` shows it.
    ///
    /// `depth` is the recursion depth at which writing starts.
    pub fn py_str<T: ResourceTracker>(self, heap: &Heap<T>, interns: &Interns, depth: usize) -> (r: String)
        requires
            scene(heap@, *interns).at_hand(Walk::Show, self),
        ensures
            r@ == scene(heap@, *interns).str_value(self, depth),
    {
        proof {
            lemma_at_hand(scene(heap@, *interns), Walk::Show, self);
        }
        match self {
            Value::InternString(id) => interns.get_str(id).to_owned(),
            Value::Ref(id) => {
                let mut heap_ids: AHashSet<usize> = no_ids();
                let _ = add_id(&mut heap_ids, id.index());
                proof {
                    assert(members(heap_ids) =~= set![id.0]);
                }
                heap.get(id).as_ref().py_str(heap, &mut heap_ids, interns, depth)
            },
            _ => {
                let mut heap_ids: AHashSet<usize> = no_ids();
                self.py_repr_fmt(heap, &mut heap_ids, interns, depth)
            },
        }
    }
}

/// Writes some values, separated by commas.
fn write_items<T: ResourceTracker>(
    items: &[Value],
    heap: &Heap<T>,
    heap_ids: &mut AHashSet<usize>,
    interns: &Interns,
    depth: usize,
) -> (r: String)
    requires
        scene(heap@, *interns).all_at_hand(Walk::Show, items@),
    ensures
        r@ == scene(heap@, *interns).repr_items(items@, members(*old(heap_ids)), depth),
        members(*final(heap_ids)) == members(*old(heap_ids)),
    decreases usize::MAX - depth, 3int, 0int,
{
    let ghost s = scene(heap@, *interns);
    let ghost seen = members(*heap_ids);
    let mut out: String = String::new();
    let mut i: usize = 0;
    proof {
        assert(out@ =~= s.repr_items(items@.take(0), seen, depth));
    }
    while i < items.len()
        invariant
            i <= items@.len(),
            s == scene(heap@, *interns),
            s.all_at_hand(Walk::Show, items@),
            members(*heap_ids) == seen,
            out@ == s.repr_items(items@.take(i as int), seen, depth),
        decreases items.len() - i,
    {
        if i > 0 {
            out.append(", ");
        }
        let one: String = items[i].py_repr_fmt(heap, heap_ids, interns, depth);
        out.append(one.as_str());
        proof {
            assert(items@.take(i + 1).drop_last() =~= items@.take(i as int));
            if i == 0 {
                assert(out@ =~= one@);
            }
        }
        i = i + 1;
    }
    proof {
        assert(items@.take(items@.len() as int) =~= items@);
    }
    out
}

/// Writes some named values, separated by commas.
fn write_fields<T: ResourceTracker>(
    names: &Vec<EitherStr>,
    items: &[Value],
    heap: &Heap<T>,
    heap_ids: &mut AHashSet<usize>,
    interns: &Interns,
    depth: usize,
) -> (r: String)
    requires
        scene(heap@, *interns).all_at_hand(Walk::Show, items@),
        names@.len() == items@.len(),
        forall|i: int| 0 <= i < names@.len() ==> has_name(interns.tables(), #[trigger] names@[i]),
    ensures
        r@ == scene(heap@, *interns).repr_fields(names@, items@, members(*old(heap_ids)), depth),
        members(*final(heap_ids)) == members(*old(heap_ids)),
    decreases usize::MAX - depth, 3int, 0int,
{
    let ghost s = scene(heap@, *interns);
    let ghost seen = members(*heap_ids);
    let mut out: String = String::new();
    let mut i: usize = 0;
    proof {
        assert(out@ =~= s.repr_fields(names@.take(0), items@.take(0), seen, depth));
    }
    while i < items.len()
        invariant
            i <= items@.len(),
            names@.len() == items@.len(),
            forall|k: int| 0 <= k < names@.len() ==> has_name(interns.tables(), #[trigger] names@[k]),
            s == scene(heap@, *interns),
            s.all_at_hand(Walk::Show, items@),
            members(*heap_ids) == seen,
            out@ == s.repr_fields(names@.take(i as int), items@.take(i as int), seen, depth),
        decreases items.len() - i,
    {
        let ghost before = out@;
        if i > 0 {
            out.append(", ");
        }
        let ghost mid = out@;
        let one: String = items[i].py_repr_fmt(heap, heap_ids, interns, depth);
        let field: String = join3(names[i].as_str(interns), "=", one.as_str());
        out.append(field.as_str());
        proof {
            assert(items@.take(i + 1).drop_last() =~= items@.take(i as int));
            assert(names@.take(i + 1).drop_last() =~= names@.take(i as int));
            if i == 0 {
                assert(out@ =~= field@);
            }
        }
        i = i + 1;
    }
    proof {
        assert(items@.take(items@.len() as int) =~= items@);
        assert(names@.take(names@.len() as int) =~= names@);
    }
    out
}

/// Writes some keys with their values, separated by commas.
fn write_entries<T: ResourceTracker>(
    d: &Dict,
    heap: &Heap<T>,
    heap_ids: &mut AHashSet<usize>,
    interns: &Interns,
    depth: usize,
) -> (r: String)
    requires
        scene(heap@, *interns).all_at_hand(Walk::Show, d.flat()),
    ensures
        r@ == scene(heap@, *interns).repr_entries(d.entries@, members(*old(heap_ids)), depth),
        members(*final(heap_ids)) == members(*old(heap_ids)),
    decreases usize::MAX - depth, 3int, 0int,
{
    let ghost s = scene(heap@, *interns);
    let ghost seen = members(*heap_ids);
    let mut out: String = String::new();
    let mut i: usize = 0;
    proof {
        lemma_keys_at_hand(s, Walk::Show, d.entries@);
        assert(out@ =~= s.repr_entries(d.entries@.take(0), seen, depth));
    }
    while i < d.entries.len()
        invariant
            i <= d.entries@.len(),
            s == scene(heap@, *interns),
            forall|k: int|
                0 <= k < d.entries@.len() ==> s.at_hand(Walk::Show, (#[trigger] d.entries@[k]).key) && s.at_hand(
                    Walk::Show,
                    d.entries@[k].value,
                ),
            members(*heap_ids) == seen,
            out@ == s.repr_entries(d.entries@.take(i as int), seen, depth),
        decreases d.entries.len() - i,
    {
        if i > 0 {
            out.append(", ");
        }
        let e: DictEntry = d.entries[i];
        proof {
            assert(s.at_hand(Walk::Show, d.entries@[i as int].key));
        }
        let key: String = e.key.py_repr_fmt(heap, heap_ids, interns, depth);
        let value: String = e.value.py_repr_fmt(heap, heap_ids, interns, depth);
        let one: String = join3(key.as_str(), ": ", value.as_str());
        out.append(one.as_str());
        proof {
            assert(d.entries@.take(i + 1).drop_last() =~= d.entries@.take(i as int));
            if i == 0 {
                assert(out@ =~= one@);
            }
        }
        i = i + 1;
    }
    proof {
        assert(d.entries@.take(d.entries@.len() as int) =~= d.entries@);
    }
    out
}

/// Writes some fields with the values that a dictionary has for them, separated by
/// commas.
fn write_attrs<T: ResourceTracker>(
    names: &Vec<String>,
    d: &Dict,
    heap: &Heap<T>,
    heap_ids: &mut AHashSet<usize>,
    interns: &Interns,
    depth: usize,
) -> (r: String)
    requires
        scene(heap@, *interns).all_at_hand(Walk::Show, d.flat()),
    ensures
        r@ == scene(heap@, *interns).repr_attrs(texts(names@), d.entries@, members(*old(heap_ids)), depth),
        members(*final(heap_ids)) == members(*old(heap_ids)),
    decreases usize::MAX - depth, 3int, 0int,
{
    let ghost s = scene(heap@, *interns);
    let ghost seen = members(*heap_ids);
    let ghost all = texts(names@);
    let mut out: String = String::new();
    let mut i: usize = 0;
    proof {
        assert(out@ =~= s.repr_attrs(all.take(0), d.entries@, seen, depth));
        assert forall|k: int| 0 <= k < d.flat().len() implies s.has(#[trigger] d.flat()[k]) && (
        d.flat()[k] matches Value::Ref(id) ==> readable(s.entries, id)) by {
            assert(s.at_hand(Walk::Show, d.flat()[k]));
            lemma_at_hand(s, Walk::Show, d.flat()[k]);
        }
    }
    while i < names.len()
        invariant
            i <= names@.len(),
            s == scene(heap@, *interns),
            s.all_at_hand(Walk::Show, d.flat()),
            legible(s, d.flat()),
            all == texts(names@),
            members(*heap_ids) == seen,
            out@ == s.repr_attrs(all.take(i as int), d.entries@, seen, depth),
        decreases names.len() - i,
    {
        if i > 0 {
            out.append(", ");
        }
        proof {
            lemma_keys_legible(s, d.entries@);
        }
        let one: String = match d.get_by_str(names[i].as_str(), heap, interns) {
            Some(v) => {
                proof {
                    lemma_text_at(s, d.entries@, all[i as int], 0);
                    lemma_flat_index(d.entries@, text_at(s, d.entries@, all[i as int], 0)->0 as int);
                }
                v.py_repr_fmt(heap, heap_ids, interns, depth)
            },
            None => "<?>".to_owned(),
        };
        let field: String = join3(names[i].as_str(), "=", one.as_str());
        out.append(field.as_str());
        proof {
            assert(all.take(i + 1).drop_last() =~= all.take(i as int));
            if i == 0 {
                assert(out@ =~= field@);
            }
        }
        i = i + 1;
    }
    proof {
        assert(all.take(all.len() as int) =~= all);
    }
    out
}

impl<'a> HeapDataRef<'a> {
    /// Writes a payload as `repr()` shows it, inside the containers in `heap_ids`.
    pub fn py_repr_fmt<T: ResourceTracker>(
        self,
        heap: &Heap<T>,
        heap_ids: &mut AHashSet<usize>,
        interns: &Interns,
        depth: usize,
    ) -> (r: String)
        requires
            scene(heap@, *interns).payload_at_hand(Walk::Show, self.data()),
        ensures
            r@ == scene(heap@, *interns).repr_data(self.data(), members(*old(heap_ids)), depth),
            members(*final(heap_ids)) == members(*old(heap_ids)),
        decreases usize::MAX - depth, 1int, 0int,
    {
        if !shows_items(self) {
            return write_leaf(self, heap, interns);
        }
        match check_deeper(&heap.tracker, depth) {
            Ok(_) => {},
            Err(_) => {
                return write_dots(self);
            },
        }
        let below: usize = depth + 1;
        match self {
            HeapDataRef::List(l) => join3("[", write_items(l.as_slice(), heap, heap_ids, interns, below).as_str(), "]"),
            HeapDataRef::Tuple(t) => {
                let items: String = write_items(t.as_slice(), heap, heap_ids, interns, below);
                if t.as_slice().len() == 1 {
                    join3("(", items.as_str(), ",)")
                } else {
                    join3("(", items.as_str(), ")")
                }
            },
            HeapDataRef::NamedTuple(nt) => {
                let fields: String = write_fields(&nt.field_names, nt.as_vec(), heap, heap_ids, interns, below);
                let mut out: String = join3(nt.name.as_str(interns), "(", fields.as_str());
                out.append(")");
                out
            },
            HeapDataRef::Dict(d) => join3("{", write_entries(d, heap, heap_ids, interns, below).as_str(), "}"),
            HeapDataRef::PySet(s) => {
                if s.storage.items.len() == 0 {
                    "set()".to_owned()
                } else {
                    join3(
                        "{",
                        write_items(s.storage.items.as_slice(), heap, heap_ids, interns, below).as_str(),
                        "}",
                    )
                }
            },
            HeapDataRef::FrozenSet(s) => {
                if s.storage.items.len() == 0 {
                    "frozenset()".to_owned()
                } else {
                    join3(
                        "frozenset({",
                        write_items(s.storage.items.as_slice(), heap, heap_ids, interns, below).as_str(),
                        "})",
                    )
                }
            },
            HeapDataRef::Dataclass(dc) => {
                let fields: String = write_attrs(&dc.field_names, &dc.attrs, heap, heap_ids, interns, below);
                let mut out: String = join3(dc.name.as_str(interns), "(", fields.as_str());
                out.append(")");
                out
            },
            _ => String::new(),
        }
    }

    /// Writes a payload as `str()` shows it, inside the containers in `heap_ids`.
    pub fn py_str<T: ResourceTracker>(
        self,
        heap: &Heap<T>,
        heap_ids: &mut AHashSet<usize>,
        interns: &Interns,
        depth: usize,
    ) -> (r: String)
        requires
            scene(heap@, *interns).payload_at_hand(Walk::Show, self.data()),
        ensures
            r@ == scene(heap@, *interns).str_data(self.data(), members(*old(heap_ids)), depth),
            members(*final(heap_ids)) == members(*old(heap_ids)),
    {
        match self {
            // Strings return their value directly without quotes
            HeapDataRef::Str(s) => s.as_str().to_owned(),
            // LongInt returns its string representation
            HeapDataRef::LongInt(li) => li.to_decimal(),
            // Exceptions return just the message (or empty string if no message)
            HeapDataRef::Exception(e) => match &e.arg {
                Some(arg) => arg.as_str().to_owned(),
                None => String::new(),
            },
            // Paths return the path string without the PosixPath() wrapper
            HeapDataRef::Path(p) => p.path.as_str().to_owned(),
            // All other types use repr
            _ => self.py_repr_fmt(heap, heap_ids, interns, depth),
        }
    }
}

impl HeapData {
    /// Writes a payload as `repr()` shows it, inside the containers in `heap_ids`.
    pub fn py_repr_fmt<T: ResourceTracker>(
        &self,
        heap: &Heap<T>,
        heap_ids: &mut AHashSet<usize>,
        interns: &Interns,
        depth: usize,
    ) -> (r: String)
        requires
            scene(heap@, *interns).payload_at_hand(Walk::Show, *self),
        ensures
            r@ == scene(heap@, *interns).repr_data(*self, members(*old(heap_ids)), depth),
            members(*final(heap_ids)) == members(*old(heap_ids)),
    {
        self.as_ref().py_repr_fmt(heap, heap_ids, interns, depth)
    }

    /// Writes a payload as `str()` shows it.
    pub fn py_str<T: ResourceTracker>(&self, heap: &Heap<T>, interns: &Interns, depth: usize) -> (r: String)
        requires
            scene(heap@, *interns).payload_at_hand(Walk::Show, *self),
        ensures
            r@ == scene(heap@, *interns).str_data(*self, Set::empty(), depth),
    {
        let mut heap_ids: AHashSet<usize> = no_ids();
        self.as_ref().py_str(heap, &mut heap_ids, interns, depth)
    }
}

impl<'a> HeapDataMut<'a> {
    /// Writes a payload as `repr()` shows it, inside the containers in `heap_ids`.
    pub fn py_repr_fmt<T: ResourceTracker>(
        &self,
        heap: &Heap<T>,
        heap_ids: &mut AHashSet<usize>,
        interns: &Interns,
        depth: usize,
    ) -> (r: String)
        requires
            scene(heap@, *interns).payload_at_hand(Walk::Show, self.data()),
        ensures
            r@ == scene(heap@, *interns).repr_data(self.data(), members(*old(heap_ids)), depth),
            members(*final(heap_ids)) == members(*old(heap_ids)),
    {
        self.as_ref().py_repr_fmt(heap, heap_ids, interns, depth)
    }

    /// Writes a payload as `str()` shows it.
    pub fn py_str<T: ResourceTracker>(&self, heap: &Heap<T>, interns: &Interns, depth: usize) -> (r: String)
        requires
            scene(heap@, *interns).payload_at_hand(Walk::Show, self.data()),
        ensures
            r@ == scene(heap@, *interns).str_data(self.data(), Set::empty(), depth),
    {
        let mut heap_ids: AHashSet<usize> = no_ids();
        self.as_ref().py_str(heap, &mut heap_ids, interns, depth)
    }
}

} // verus!
