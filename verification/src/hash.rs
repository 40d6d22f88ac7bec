//! Python hashing.
//!
//! The hash of a payload is computed when it is first asked for, and kept with
//! the entry. What a value feeds to the hasher is stated exactly; how the hasher
//! mixes it is left to the standard library.

use crate::equality::{Scene, scene};
use crate::function::copy_vec;
use crate::heap::{HashState, Heap, HeapValue, check_deeper, deeper};
use crate::heap_access::lemma_wf_update;
use crate::heap_data::{HeapData, HeapDataMut, HeapDataRef, kind_tag};
use crate::heap_model::{Entries, data_at, live, readable};
use crate::intern::{BytesId, FunctionId, InternTables, Interns, StringId, id_text, valid_id};
use crate::resource::{ResourceError, ResourceTracker};
use crate::text::decimal;
use crate::types::long_int::LongInt;
use crate::types::mappings::{Dict, DictEntry, flat, lemma_flat_push};
use crate::types::sequences::{NamedTuple, Tuple};
use crate::value::{EitherStr, HeapId, Property, Value};
use crate::os::OsFunction;
use crate::builtins::Builtins;
use std::collections::hash_map::DefaultHasher;
use std::hash::Hasher;
use vstd::bytes::{spec_u32_to_le_bytes, spec_u64_to_le_bytes, u32_to_le_bytes, u64_to_le_bytes};
use crate::walk::{Walk, hashed_items, lemma_at_hand, lemma_rehashed_at_hand};
use vstd::prelude::*;
use vstd::std_specs::hash::DefaultHasherAdditionalSpecFns;
use vstd::string::StringSliceAdditionalSpecFns;
use vstd::utf8::encode_utf8;

verus! {

/// The number that the standard hasher makes of the pieces that it is fed.
pub open spec fn digest(pieces: Seq<Seq<u8>>) -> u64 {
    DefaultHasher::spec_finish(pieces)
}

/// The pieces that an integer feeds.
pub open spec fn int_pieces(n: int) -> Seq<Seq<u8>> {
    if i64::MIN <= n <= i64::MAX {
        seq![spec_u64_to_le_bytes(n as i64 as u64)]
    } else {
        seq![encode_utf8(decimal(n))]
    }
}

/// The pieces that a text feeds: its bytes, and a byte that occurs in no text.
pub open spec fn text_pieces(t: Seq<char>) -> Seq<Seq<u8>> {
    seq![encode_utf8(t), seq![0xffu8]]
}

/// The pieces that a byte string feeds: its length and its bytes.
pub open spec fn bytes_pieces(b: Seq<u8>) -> Seq<Seq<u8>> {
    seq![spec_u64_to_le_bytes(b.len() as u64), b]
}

/// The piece that a number feeds.
pub open spec fn word(n: u64) -> Seq<u8> {
    spec_u64_to_le_bytes(n)
}

/// The piece that the number of a function feeds.
pub open spec fn function_word(id: FunctionId) -> Seq<u8> {
    spec_u32_to_le_bytes(id.0)
}

/// The pieces that an optional number feeds.
pub open spec fn option_pieces(n: Option<i64>) -> Seq<Seq<u8>> {
    match n {
        Some(n) => seq![word(1), word(n as u64)],
        None => seq![word(0)],
    }
}

/// The text of a name.
pub open spec fn name_text(tables: InternTables, name: EitherStr) -> Seq<char> {
    match name {
        EitherStr::Interned(id) => id_text(tables.strings, id),
        EitherStr::Heap(s) => s@,
    }
}

/// Does the name lead to a text?
pub open spec fn has_name(tables: InternTables, name: EitherStr) -> bool {
    name matches EitherStr::Interned(id) ==> valid_id(tables.strings, id)
}

/// The pieces that a payload feeds that holds no other values, if it can be hashed.
pub open spec fn leaf_pieces(tables: InternTables, data: HeapData) -> Option<Seq<Seq<u8>>> {
    match data {
        // Hash just the actual string or bytes content for consistency with interned
        // literals, hence without a tag.
        HeapData::Str(s) => Some(text_pieces(s.value@)),
        HeapData::Bytes(b) => Some(bytes_pieces(b.value@)),
        HeapData::LongInt(li) => Some(int_pieces(li@)),
        HeapData::Closure(c) => Some(seq![word(kind_tag(data)), function_word(c.func_id)]),
        HeapData::FunctionDefaults(fd) => Some(seq![word(kind_tag(data)), function_word(fd.func_id)]),
        HeapData::Range(r) => Some(seq![word(kind_tag(data)), word(r.start as u64), word(r.stop as u64), word(r.step as u64)]),
        HeapData::Slice(s) => Some(
            seq![word(kind_tag(data))] + option_pieces(s.start) + option_pieces(s.stop) + option_pieces(s.step),
        ),
        HeapData::Class(c) => Some(seq![word(kind_tag(data))] + text_pieces(name_text(tables, c.name))),
        HeapData::Path(p) => Some(seq![word(kind_tag(data))] + text_pieces(p.path@)),
        HeapData::ExtFunction(s) => Some(seq![word(kind_tag(data))] + text_pieces(s@)),
        // other types cannot be hashed (cells are hashed by identity)
        _ => None,
    }
}

/// The pieces that an immediate value feeds that is no text, bytes or number.
pub open spec fn plain_pieces(v: Value) -> Seq<Seq<u8>> {
    match v {
        Value::PyNone => seq![word(101)],
        Value::Builtin(Builtins::Function(f)) => seq![word(102), word(f.0 as u64)],
        Value::Builtin(Builtins::ExcType(e)) => seq![word(103)] + text_pieces(e.name()),
        Value::Builtin(Builtins::Type(t)) => seq![word(104)] + text_pieces(t.name()),
        Value::ModuleFunction(f) => seq![word(105)] + text_pieces(f.name()),
        Value::ExtFunction(id) => seq![word(106), word(id.0 as u64)],
        Value::DefFunction(id) => seq![word(107), word(id.0 as u64)],
        Value::Property(Property::Os(OsFunction::Getenv)) => seq![word(108)],
        Value::Property(Property::Os(OsFunction::GetEnviron)) => seq![word(109)],
        Value::Marker(s) => seq![word(110), word(s.ordinal() as u64)],
        _ => seq![word(100)],
    }
}

/// Hash results, with the entries as they are afterwards.
pub type Hashed = (Entries, Result<Option<u64>, ResourceError>);

/// The entries with another hash state at `id`.
pub open spec fn with_state(e: Entries, id: HeapId, state: HashState) -> Entries {
    e.update(id.0 as int, Some(HeapValue { hash_state: state, ..e[id.0 as int]->0 }))
}

/// The state that remembers a result.
pub open spec fn state_of(hash: Option<u64>) -> HashState {
    match hash {
        Some(h) => HashState::Cached(h),
        None => HashState::Unhashable,
    }
}

/// The tag of tuples. Named tuples have it too: a tuple and a named tuple with the same
/// items are equal, and so hash alike.
pub const TUPLE_TAG: u64 = 3;

/// The tag and the items of a payload that is hashed item by item.
pub open spec fn tagged_items(data: HeapData) -> Option<(u64, Seq<Value>)> {
    match data {
        HeapData::Tuple(t) => Some((TUPLE_TAG, t@)),
        // by elements, not by type, to match equality
        HeapData::NamedTuple(nt) => Some((TUPLE_TAG, nt.items@)),
        // only frozen dataclasses can be hashed
        HeapData::Dataclass(dc) => if dc.frozen {
            Some((kind_tag(data), dc.attrs.flat()))
        } else {
            None
        },
        _ => None,
    }
}

/// The number that comes of hashing an entry by its identity.
pub open spec fn identity_hash(id: HeapId) -> u64 {
    digest(seq![word(id.0 as u64)])
}

/// The hash of a value.
pub open spec fn hash_value<T: ResourceTracker>(s: Scene<T>, e: Entries, v: Value, depth: usize) -> Hashed
    decreases usize::MAX - depth, 2int, 0int,
{
    match v {
        Value::Ref(id) => hash_entry(s, e, id, depth),
        Value::InternString(id) => (e, Ok(Some(digest(text_pieces(id_text(s.tables.strings, id)))))),
        Value::InternBytes(id) => (e, Ok(Some(digest(bytes_pieces(s.tables.bytes[id.0 as int]))))),
        Value::Int(n) => (e, Ok(Some(digest(int_pieces(n as int))))),
        Value::Bool(b) => (e, Ok(Some(digest(int_pieces(if b { 1 } else { 0 }))))),
        _ => (e, Ok(Some(digest(plain_pieces(v))))),
    }
}

/// The hash of the entry at `id`: the one that it remembers, or else the one that
/// its payload has, which it then remembers.
pub open spec fn hash_entry<T: ResourceTracker>(s: Scene<T>, e: Entries, id: HeapId, depth: usize) -> Hashed
    decreases usize::MAX - depth, 1int, 0int,
{
    match e[id.0 as int]->0.hash_state {
        HashState::Unhashable => (e, Ok(None)),
        HashState::Cached(h) => (e, Ok(Some(h))),
        HashState::Unknown => if data_at(e, id) is Cell {
            (with_state(e, id, HashState::Cached(identity_hash(id))), Ok(Some(identity_hash(id))))
        } else {
            let (after, r) = hash_data(s, e, data_at(e, id), depth);
            match r {
                Ok(hash) => (with_state(after, id, state_of(hash)), r),
                Err(_) => (after, r),
            }
        },
    }
}

/// The hash of a payload.
pub open spec fn hash_data<T: ResourceTracker>(s: Scene<T>, e: Entries, data: HeapData, depth: usize) -> Hashed
    decreases usize::MAX - depth, 0int, 0int,
{
    if let Some((tag, items)) = tagged_items(data) {
        match deeper(s.tracker, depth) {
            Ok(_) => hash_items(s, e, seq![word(tag)], items, 0, (depth + 1) as usize),
            Err(err) => (e, Err(err)),
        }
    } else if let HeapData::FrozenSet(fs) = data {
        match deeper(s.tracker, depth) {
            Ok(_) => xor_items(s, e, 0, fs.storage.items@, 0, (depth + 1) as usize),
            Err(err) => (e, Err(err)),
        }
    } else {
        match leaf_pieces(s.tables, data) {
            Some(pieces) => (e, Ok(Some(digest(pieces)))),
            None => (e, Ok(None)),
        }
    }
}

/// The hash of what `pieces` and the hashes of the items from `i` on feed; none
/// where an item has none.
pub open spec fn hash_items<T: ResourceTracker>(
    s: Scene<T>,
    e: Entries,
    pieces: Seq<Seq<u8>>,
    items: Seq<Value>,
    i: nat,
    depth: usize,
) -> Hashed
    decreases usize::MAX - depth, 3int, items.len() - i,
{
    if i >= items.len() {
        (e, Ok(Some(digest(pieces))))
    } else {
        let (after, r) = hash_value(s, e, items[i as int], depth);
        match r {
            Ok(Some(h)) => hash_items(s, after, pieces.push(word(h)), items, i + 1, depth),
            Ok(None) => (after, Ok(None)),
            Err(err) => (after, Err(err)),
        }
    }
}

/// The exclusive or of `acc` and the hashes of the items from `i` on, so that
/// their order does not matter; none where an item has none.
pub open spec fn xor_items<T: ResourceTracker>(
    s: Scene<T>,
    e: Entries,
    acc: u64,
    items: Seq<Value>,
    i: nat,
    depth: usize,
) -> Hashed
    decreases usize::MAX - depth, 3int, items.len() - i,
{
    if i >= items.len() {
        (e, Ok(Some(acc)))
    } else {
        let (after, r) = hash_value(s, e, items[i as int], depth);
        match r {
            Ok(Some(h)) => xor_items(s, after, acc ^ h, items, i + 1, depth),
            Ok(None) => (after, Ok(None)),
            Err(err) => (after, Err(err)),
        }
    }
}

/// Are the entries the same but for remembered hashes? What is remembered is not
/// forgotten.
pub open spec fn rehashed(a: Entries, b: Entries) -> bool {
    &&& b.len() == a.len()
    &&& forall|i: int|
        0 <= i < a.len() ==> match a[i] {
            Some(u) => #[trigger] b[i] matches Some(v) && v.data == u.data && v.refcount == u.refcount && (v.hash_state
                == HashState::Unknown ==> u.hash_state == HashState::Unknown),
            None => b[i] is None,
        }
}

pub proof fn lemma_rehashed_trans(a: Entries, b: Entries, c: Entries)
    requires
        rehashed(a, b),
        rehashed(b, c),
    ensures
        rehashed(a, c),
{
    assert forall|i: int| 0 <= i < a.len() implies match a[i] {
        Some(u) => #[trigger] c[i] matches Some(v) && v.data == u.data && v.refcount == u.refcount && (v.hash_state
                == HashState::Unknown ==> u.hash_state == HashState::Unknown),
        None => c[i] is None,
    } by {
        let _ = b[i];
    }
}

/// Feeds one number.
fn feed_word(h: &mut DefaultHasher, n: u64)
    ensures
        final(h)@ == old(h)@.push(word(n)),
{
    let bytes: Vec<u8> = u64_to_le_bytes(n);
    h.write(bytes.as_slice());
}

/// Feeds a text.
fn feed_text(h: &mut DefaultHasher, t: &str)
    ensures
        final(h)@ == old(h)@ + text_pieces(t@),
{
    h.write(t.as_bytes());
    let end: Vec<u8> = vec![0xffu8];
    h.write(end.as_slice());
    proof {
        assert(end@ =~= seq![0xffu8]);
        assert(h@ =~= old(h)@ + text_pieces(t@));
    }
}

/// Feeds a byte string.
fn feed_bytes(h: &mut DefaultHasher, b: &[u8])
    ensures
        final(h)@ == old(h)@ + bytes_pieces(b@),
{
    feed_word(h, b.len() as u64);
    h.write(b);
    proof {
        assert(h@ =~= old(h)@ + bytes_pieces(b@));
    }
}

/// Feeds an optional number.
fn feed_option(h: &mut DefaultHasher, n: Option<i64>)
    ensures
        final(h)@ == old(h)@ + option_pieces(n),
{
    match n {
        Some(n) => {
            feed_word(h, 1);
            feed_word(h, n as u64);
        },
        None => {
            feed_word(h, 0);
        },
    }
    proof {
        assert(h@ =~= old(h)@ + option_pieces(n));
    }
}

/// Starts a hasher with a number.
fn tagged(tag: u64) -> (h: DefaultHasher)
    ensures
        h@ == seq![word(tag)],
{
    let mut h: DefaultHasher = DefaultHasher::new();
    feed_word(&mut h, tag);
    proof {
        assert(h@ =~= seq![word(tag)]);
    }
    h
}

/// Starts a hasher with a number and a text, and finishes it.
fn tagged_text(tag: u64, t: &str) -> (r: u64)
    ensures
        r == digest(seq![word(tag)] + text_pieces(t@)),
{
    let mut h: DefaultHasher = tagged(tag);
    feed_text(&mut h, t);
    h.finish()
}

/// Hashes two numbers.
fn tagged_word(tag: u64, n: u64) -> (r: u64)
    ensures
        r == digest(seq![word(tag), word(n)]),
{
    let mut h: DefaultHasher = tagged(tag);
    feed_word(&mut h, n);
    proof {
        assert(h@ =~= seq![word(tag), word(n)]);
    }
    h.finish()
}

/// Hashes a number and that of a function.
fn tagged_function(tag: u64, id: FunctionId) -> (r: u64)
    ensures
        r == digest(seq![word(tag), function_word(id)]),
{
    let mut h: DefaultHasher = tagged(tag);
    let bytes: Vec<u8> = u32_to_le_bytes(id.0);
    h.write(bytes.as_slice());
    proof {
        assert(h@ =~= seq![word(tag), function_word(id)]);
    }
    h.finish()
}

/// Hashes a text.
pub fn text_hash(t: &str) -> (r: u64)
    ensures
        r == digest(text_pieces(t@)),
{
    let mut h: DefaultHasher = DefaultHasher::new();
    feed_text(&mut h, t);
    proof {
        assert(h@ =~= text_pieces(t@));
    }
    h.finish()
}

/// Hashes a byte string.
pub fn bytes_hash(b: &[u8]) -> (r: u64)
    ensures
        r == digest(bytes_pieces(b@)),
{
    let mut h: DefaultHasher = DefaultHasher::new();
    feed_bytes(&mut h, b);
    proof {
        assert(h@ =~= bytes_pieces(b@));
    }
    h.finish()
}

/// Hashes an integer that fits in 64 bits.
pub fn int_hash(n: i64) -> (r: u64)
    ensures
        r == digest(int_pieces(n as int)),
{
    let h: DefaultHasher = tagged(n as u64);
    proof {
        assert(h@ =~= int_pieces(n as int));
    }
    h.finish()
}

impl LongInt {
    /// Hashes the integer; one that fits in 64 bits hashes as a machine integer does.
    pub fn hash(&self) -> (r: u64)
        ensures
            r == digest(int_pieces(self@)),
    {
        match self.to_i64() {
            Some(n) => int_hash(n),
            None => {
                let t: String = self.to_decimal();
                let mut h: DefaultHasher = DefaultHasher::new();
                h.write(t.as_str().as_bytes());
                proof {
                    assert(h@ =~= int_pieces(self@));
                }
                h.finish()
            },
        }
    }
}

/// How a payload is to be hashed.
pub enum HashPlan {
    /// Nothing else is needed: this is the hash, if there is one.
    Done(Option<u64>),
    /// By the hashes of these items, in order, after a tag.
    Items { tag: u64, items: Vec<Value> },
    /// By the hashes of these items, in any order.
    Unordered { items: Vec<Value> },
}

/// Returns the keys and values of a dictionary.
fn flatten(d: &Dict) -> (r: Vec<Value>)
    ensures
        r@ == d.flat(),
{
    let mut r: Vec<Value> = Vec::new();
    let mut i: usize = 0;
    proof {
        assert(d.entries@.take(0) =~= Seq::empty());
    }
    while i < d.entries.len()
        invariant
            i <= d.entries@.len(),
            r@ == flat(d.entries@.take(i as int)),
        decreases d.entries.len() - i,
    {
        let e: DictEntry = d.entries[i];
        proof {
            assert(d.entries@.take(i + 1) =~= d.entries@.take(i as int).push(e));
            lemma_flat_push(d.entries@.take(i as int), e);
        }
        r.push(e.key);
        r.push(e.value);
        i = i + 1;
    }
    proof {
        assert(d.entries@.take(d.entries@.len() as int) =~= d.entries@);
    }
    r
}

impl EitherStr {
    /// Returns the text of the name.
    pub fn as_str<'a>(&'a self, interns: &'a Interns) -> (r: &'a str)
        requires
            has_name(interns.tables(), *self),
        ensures
            r@ == name_text(interns.tables(), *self),
    {
        match self {
            EitherStr::Interned(id) => interns.get_str(*id),
            EitherStr::Heap(s) => s.as_str(),
        }
    }
}

impl<'a> HeapDataRef<'a> {
    /// Returns how the payload is to be hashed.
    fn hash_plan(self, interns: &Interns) -> (r: HashPlan)
        requires
            self.data() matches HeapData::Class(c) ==> has_name(interns.tables(), c.name),
        ensures
            match r {
                HashPlan::Done(hash) => {
                    &&& tagged_items(self.data()) is None
                    &&& !(self.data() is FrozenSet)
                    &&& hash == (match leaf_pieces(interns.tables(), self.data()) {
                        Some(pieces) => Some(digest(pieces)),
                        None => None,
                    })
                },
                HashPlan::Items { tag, items } => tagged_items(self.data()) == Some((tag, items@)),
                HashPlan::Unordered { items } => self.data() matches HeapData::FrozenSet(fs) && fs.storage.items@
                    == items@,
            },
    {
        match self {
            HeapDataRef::Str(s) => HashPlan::Done(Some(text_hash(s.as_str()))),
            HeapDataRef::Bytes(b) => HashPlan::Done(Some(bytes_hash(b.as_slice()))),
            // FrozenSet hash is XOR of element hashes (order-independent)
            HeapDataRef::FrozenSet(fs) => HashPlan::Unordered { items: copy_vec(fs.storage.items.as_slice()) },
            // Tuple is hashable only if all elements are hashable
            HeapDataRef::Tuple(t) => HashPlan::Items { tag: TUPLE_TAG, items: copy_vec(t.as_slice()) },
            // Hash only by elements (not type_name) to match equality semantics
            HeapDataRef::NamedTuple(nt) => HashPlan::Items { tag: TUPLE_TAG, items: copy_vec(nt.as_vec()) },
            HeapDataRef::NamedTupleFactory(_) => HashPlan::Done(None),
            HeapDataRef::Closure(closure) => HashPlan::Done(Some(tagged_function(9, closure.func_id))),
            HeapDataRef::FunctionDefaults(fd) => HashPlan::Done(Some(tagged_function(10, fd.func_id))),
            HeapDataRef::Range(range) => {
                let mut h: DefaultHasher = tagged(12);
                feed_word(&mut h, range.start as u64);
                feed_word(&mut h, range.stop as u64);
                feed_word(&mut h, range.step as u64);
                proof {
                    assert(Some(h@) == leaf_pieces(interns.tables(), self.data())) by {
                        assert(h@ =~= seq![
                            word(12),
                            word(range.start as u64),
                            word(range.stop as u64),
                            word(range.step as u64),
                        ]);
                    }
                }
                HashPlan::Done(Some(h.finish()))
            },
            HeapDataRef::Class(class) => HashPlan::Done(Some(tagged_text(18, class.name.as_str(interns)))),
            // Dataclass hashability depends on the mutable flag
            HeapDataRef::Dataclass(dc) => {
                if dc.frozen {
                    HashPlan::Items { tag: 15, items: flatten(&dc.attrs) }
                } else {
                    HashPlan::Done(None)
                }
            },
            // Slices are immutable and hashable (like in CPython)
            HeapDataRef::Slice(slice) => {
                let mut h: DefaultHasher = tagged(13);
                feed_option(&mut h, slice.start);
                feed_option(&mut h, slice.stop);
                feed_option(&mut h, slice.step);
                HashPlan::Done(Some(h.finish()))
            },
            // Path is immutable and hashable
            HeapDataRef::Path(path) => HashPlan::Done(Some(tagged_text(22, path.path.as_str()))),
            // LongInt is immutable and hashable
            HeapDataRef::LongInt(li) => HashPlan::Done(Some(li.hash())),
            // ExtFunction is hashable by name
            HeapDataRef::ExtFunction(name) => HashPlan::Done(Some(tagged_text(25, name.as_str()))),
            // other types cannot be hashed (Cell is handled specially in get_or_compute_hash)
            _ => HashPlan::Done(None),
        }
    }
}

/// Hashes an immediate value that is no text, bytes or number.
fn plain_hash(v: Value) -> (r: u64)
    ensures
        r == digest(plain_pieces(v)),
{
    match v {
        Value::PyNone => tagged(101).finish(),
        Value::Builtin(Builtins::Function(f)) => tagged_word(102, f.0 as u64),
        Value::Builtin(Builtins::ExcType(e)) => tagged_text(103, e.as_str()),
        Value::Builtin(Builtins::Type(t)) => tagged_text(104, t.as_str()),
        Value::ModuleFunction(f) => tagged_text(105, f.as_str()),
        Value::ExtFunction(id) => tagged_word(106, id.0 as u64),
        Value::DefFunction(id) => tagged_word(107, id.0 as u64),
        Value::Property(Property::Os(OsFunction::Getenv)) => tagged(108).finish(),
        Value::Property(Property::Os(OsFunction::GetEnviron)) => tagged(109).finish(),
        Value::Marker(s) => tagged_word(110, s.to_repr() as u64),
        _ => tagged(100).finish(),
    }
}

impl Value {
    /// Returns the hash of a value, or `None` where it has none.
    ///
    /// `depth` is the recursion depth at which hashing starts.
    pub fn py_hash<T: ResourceTracker>(
        self,
        heap: &mut Heap<T>,
        interns: &Interns,
        depth: usize,
    ) -> (r: Result<Option<u64>, ResourceError>)
        requires
            old(heap)@.wf(),
            scene(old(heap)@, *interns).at_hand(Walk::Hash, self),
        ensures
            final(heap)@.wf(),
            (final(heap)@.entries, r) == hash_value(
                scene(old(heap)@, *interns),
                old(heap)@.entries,
                self,
                depth,
            ),
            rehashed(old(heap)@.entries, final(heap)@.entries),
            final(heap)@ == old(heap)@.with_entries(final(heap)@.entries),
        decreases usize::MAX - depth, 2int, 0int,
    {
        proof {
            lemma_at_hand(scene(heap@, *interns), Walk::Hash, self);
        }
        match self {
            Value::Ref(id) => heap.hash_at(id, interns, depth),
            Value::InternString(id) => Ok(Some(text_hash(interns.get_str(id)))),
            Value::InternBytes(id) => Ok(Some(bytes_hash(interns.get_bytes(id)))),
            Value::Int(n) => Ok(Some(int_hash(n))),
            Value::Bool(b) => Ok(Some(int_hash(if b { 1 } else { 0 }))),
            _ => Ok(Some(plain_hash(self))),
        }
    }
}

impl<T: ResourceTracker> Heap<T> {
    /// Remembers a hash state.
    fn set_hash_state(&mut self, id: HeapId, state: HashState)
        requires
            old(self)@.wf(),
            live(old(self)@.entries, id),
        ensures
            final(self)@.wf(),
            final(self)@ == old(self)@.with_entries(with_state(old(self)@.entries, id, state)),
    {
        proof {
            let v = self@.entries[id.0 as int]->0;
            lemma_wf_update(self@, id, HeapValue { hash_state: state, ..v });
        }
        if let Some(value) = &mut self.entries[id.index()] {
            value.hash_state = state;
        }
        proof {
            assert(self@.entries =~= with_state(old(self)@.entries, id, state));
        }
    }

    /// Hashes the entry at `id`, starting at the given recursion depth.
    fn hash_at(&mut self, id: HeapId, interns: &Interns, depth: usize) -> (r: Result<Option<u64>, ResourceError>)
        requires
            old(self)@.wf(),
            scene(old(self)@, *interns).at_hand(Walk::Hash, Value::Ref(id)),
        ensures
            final(self)@.wf(),
            (final(self)@.entries, r) == hash_entry(
                scene(old(self)@, *interns),
                old(self)@.entries,
                id,
                depth,
            ),
            rehashed(old(self)@.entries, final(self)@.entries),
            final(self)@ == old(self)@.with_entries(final(self)@.entries),
        decreases usize::MAX - depth, 1int, 0int,
    {
        proof {
            lemma_at_hand(scene(self@, *interns), Walk::Hash, Value::Ref(id));
        }
        let state: HashState = match &self.entries[id.index()] {
            Some(value) => value.hash_state,
            None => vstd::pervasive::unreached(),
        };
        match state {
            HashState::Unhashable => {
                return Ok(None);
            },
            HashState::Cached(hash) => {
                return Ok(Some(hash));
            },
            HashState::Unknown => {},
        }
        let ghost before = self@;
        proof {
            assert(readable(self@.entries, id));
        }
        // Handle Cell specially - uses identity-based hashing (like Python cell objects)
        if let HeapData::Cell(_) = self.get(id) {
            let h: DefaultHasher = tagged(id.0 as u64);
            let hash: u64 = h.finish();
            self.set_hash_state(id, HashState::Cached(hash));
            return Ok(Some(hash));
        }
        let plan: HashPlan = self.get(id).as_ref().hash_plan(interns);
        let r: Result<Option<u64>, ResourceError> = self.run_hash_plan(plan, interns, depth, Ghost(data_at(before.entries, id)));
        // Cache the result if there is one
        match r {
            Ok(hash) => {
                let state: HashState = match hash {
                    Some(value) => HashState::Cached(value),
                    None => HashState::Unhashable,
                };
                proof {
                    let _ = self@.entries[id.0 as int];
                }
                self.set_hash_state(id, state);
            },
            Err(_) => {},
        }
        r
    }

    /// Hashes a payload by its plan.
    fn run_hash_plan(&mut self, plan: HashPlan, interns: &Interns, depth: usize, data: Ghost<HeapData>) -> (r: Result<
        Option<u64>,
        ResourceError,
    >)
        requires
            old(self)@.wf(),
            scene(old(self)@, *interns).all_at_hand(Walk::Hash, hashed_items(data@)),
            match plan {
                HashPlan::Done(hash) => {
                    &&& tagged_items(data@) is None
                    &&& !(data@ is FrozenSet)
                    &&& hash == (match leaf_pieces(interns.tables(), data@) {
                        Some(pieces) => Some(digest(pieces)),
                        None => None,
                    })
                },
                HashPlan::Items { tag, items } => tagged_items(data@) == Some((tag, items@)),
                HashPlan::Unordered { items } => data@ matches HeapData::FrozenSet(fs) && fs.storage.items@ == items@,
            },
        ensures
            final(self)@.wf(),
            (final(self)@.entries, r) == hash_data(
                scene(old(self)@, *interns),
                old(self)@.entries,
                data@,
                depth,
            ),
            rehashed(old(self)@.entries, final(self)@.entries),
            final(self)@ == old(self)@.with_entries(final(self)@.entries),
        decreases usize::MAX - depth, 0int, 0int,
    {
        let ghost s = scene(self@, *interns);
        let ghost start = self@;
        match plan {
            HashPlan::Done(hash) => Ok(hash),
            HashPlan::Items { tag, items } => {
                match check_deeper(&self.tracker, depth) {
                    Ok(_) => {},
                    Err(e) => {
                        return Err(e);
                    },
                }
                let below: usize = depth + 1;
                let mut h: DefaultHasher = tagged(tag);
                let mut i: usize = 0;
                while i < items.len()
                    invariant
                        i <= items@.len(),
                        below == depth + 1,
                        start == old(self)@,
                        s == scene(start, *interns),
                        s.all_at_hand(Walk::Hash, items@),
                        self@.wf(),
                        rehashed(start.entries, self@.entries),
                        self@ == start.with_entries(self@.entries),
                        hash_data(s, start.entries, data@, depth) == hash_items(
                            s,
                            self@.entries,
                            h@,
                            items@,
                            i as nat,
                            below,
                        ),
                    decreases items.len() - i,
                {
                    let ghost before = self@;
                    proof {
                        assert(s.at_hand(Walk::Hash, items@[i as int]));
                        lemma_rehashed_at_hand(s, scene(self@, *interns), Walk::Hash, items@[i as int]);
                        lemma_scene_entries(s, self@.entries, items@[i as int], below);
                    }
                    let out: Result<Option<u64>, ResourceError> = items[i].py_hash(self, interns, below);
                    proof {
                        lemma_rehashed_trans(start.entries, before.entries, self@.entries);
                    }
                    match out {
                        Ok(Some(hash)) => feed_word(&mut h, hash),
                        Ok(None) => {
                            return Ok(None);
                        },
                        Err(e) => {
                            return Err(e);
                        },
                    }
                    i = i + 1;
                }
                Ok(Some(h.finish()))
            },
            HashPlan::Unordered { items } => {
                match check_deeper(&self.tracker, depth) {
                    Ok(_) => {},
                    Err(e) => {
                        return Err(e);
                    },
                }
                let below: usize = depth + 1;
                let mut acc: u64 = 0;
                let mut i: usize = 0;
                while i < items.len()
                    invariant
                        i <= items@.len(),
                        below == depth + 1,
                        start == old(self)@,
                        s == scene(start, *interns),
                        s.all_at_hand(Walk::Hash, items@),
                        self@.wf(),
                        rehashed(start.entries, self@.entries),
                        self@ == start.with_entries(self@.entries),
                        hash_data(s, start.entries, data@, depth) == xor_items(
                            s,
                            self@.entries,
                            acc,
                            items@,
                            i as nat,
                            below,
                        ),
                    decreases items.len() - i,
                {
                    let ghost before = self@;
                    proof {
                        assert(s.at_hand(Walk::Hash, items@[i as int]));
                        lemma_rehashed_at_hand(s, scene(self@, *interns), Walk::Hash, items@[i as int]);
                        lemma_scene_entries(s, self@.entries, items@[i as int], below);
                    }
                    let out: Result<Option<u64>, ResourceError> = items[i].py_hash(self, interns, below);
                    proof {
                        lemma_rehashed_trans(start.entries, before.entries, self@.entries);
                    }
                    match out {
                        Ok(Some(hash)) => {
                            acc = acc ^ hash;
                        },
                        Ok(None) => {
                            return Ok(None);
                        },
                        Err(e) => {
                            return Err(e);
                        },
                    }
                    i = i + 1;
                }
                Ok(Some(acc))
            },
        }
    }

    /// Returns or computes the hash for the heap entry at the given ID.
    ///
    /// Hashes are computed lazily on first use and then cached. Returns
    /// `Ok(Some(hash))` for immutable types, `Ok(None)` for mutable types,
    /// or `Err(ResourceError::Recursion)` if the recursion limit is exceeded.
    pub fn get_or_compute_hash(&mut self, id: HeapId, interns: &Interns) -> (r: Result<Option<u64>, ResourceError>)
        requires
            old(self)@.wf(),
            scene(old(self)@, *interns).at_hand(Walk::Hash, Value::Ref(id)),
        ensures
            final(self)@.wf(),
            (final(self)@.entries, r) == hash_entry(
                scene(old(self)@, *interns),
                old(self)@.entries,
                id,
                old(self)@.recursion_depth,
            ),
            rehashed(old(self)@.entries, final(self)@.entries),
            final(self)@ == old(self)@.with_entries(final(self)@.entries),
    {
        let depth: usize = self.recursion_depth;
        self.hash_at(id, interns, depth)
    }
}

impl<'a> HeapDataMut<'a> {
    /// Computes hash for immutable heap types that can be used as dict keys.
    ///
    /// Returns `Ok(Some(hash))` for immutable types (Str, Bytes, Tuple of hashables).
    /// Returns `Ok(None)` for mutable types (List, Dict) which cannot be dict keys.
    /// Returns `Err(ResourceError::Recursion)` if the recursion limit is exceeded
    /// while hashing deeply nested containers (e.g., tuples of tuples).
    ///
    /// This is called lazily when the value is first used as a dict key,
    /// avoiding unnecessary hash computation for values that are never used as keys.
    pub fn compute_hash_if_immutable<T: ResourceTracker>(&self, heap: &mut Heap<T>, interns: &Interns) -> (r: Result<
        Option<u64>,
        ResourceError,
    >)
        requires
            old(heap)@.wf(),
            scene(old(heap)@, *interns).payload_at_hand(Walk::Hash, self.data()),
        ensures
            final(heap)@.wf(),
            (final(heap)@.entries, r) == hash_data(
                scene(old(heap)@, *interns),
                old(heap)@.entries,
                self.data(),
                old(heap)@.recursion_depth,
            ),
            rehashed(old(heap)@.entries, final(heap)@.entries),
            final(heap)@ == old(heap)@.with_entries(final(heap)@.entries),
    {
        let plan: HashPlan = self.as_ref().hash_plan(interns);
        let depth: usize = heap.recursion_depth;
        heap.run_hash_plan(plan, interns, depth, Ghost(self.data()))
    }
}

/// Hashing looks at the entries that it is handed, not at those of the scene.
proof fn lemma_scene_entries<T: ResourceTracker>(s: Scene<T>, e: Entries, v: Value, depth: usize)
    ensures
        hash_value(Scene { entries: e, ..s }, e, v, depth) == hash_value(s, e, v, depth),
{
    lemma_scene_value(s, Scene { entries: e, ..s }, e, v, depth);
}

proof fn lemma_scene_value<T: ResourceTracker>(s: Scene<T>, t: Scene<T>, e: Entries, v: Value, depth: usize)
    requires
        s.tables == t.tables,
        s.tracker == t.tracker,
    ensures
        hash_value(s, e, v, depth) == hash_value(t, e, v, depth),
    decreases usize::MAX - depth, 2int, 0int,
{
    if let Value::Ref(id) = v {
        lemma_scene_data(s, t, e, data_at(e, id), depth);
    }
}

proof fn lemma_scene_data<T: ResourceTracker>(s: Scene<T>, t: Scene<T>, e: Entries, data: HeapData, depth: usize)
    requires
        s.tables == t.tables,
        s.tracker == t.tracker,
    ensures
        hash_data(s, e, data, depth) == hash_data(t, e, data, depth),
    decreases usize::MAX - depth, 0int, 0int,
{
    if deeper(s.tracker, depth) is Ok {
        if let Some((tag, items)) = tagged_items(data) {
            lemma_scene_items(s, t, e, seq![word(tag)], items, 0, (depth + 1) as usize);
        } else if let HeapData::FrozenSet(fs) = data {
            lemma_scene_xor(s, t, e, 0, fs.storage.items@, 0, (depth + 1) as usize);
        }
    }
}

proof fn lemma_scene_items<T: ResourceTracker>(
    s: Scene<T>,
    t: Scene<T>,
    e: Entries,
    pieces: Seq<Seq<u8>>,
    items: Seq<Value>,
    i: nat,
    depth: usize,
)
    requires
        s.tables == t.tables,
        s.tracker == t.tracker,
    ensures
        hash_items(s, e, pieces, items, i, depth) == hash_items(t, e, pieces, items, i, depth),
    decreases usize::MAX - depth, 3int, items.len() - i,
{
    if i < items.len() {
        lemma_scene_value(s, t, e, items[i as int], depth);
        let (after, r) = hash_value(s, e, items[i as int], depth);
        if let Ok(Some(h)) = r {
            lemma_scene_items(s, t, after, pieces.push(word(h)), items, i + 1, depth);
        }
    }
}

proof fn lemma_scene_xor<T: ResourceTracker>(
    s: Scene<T>,
    t: Scene<T>,
    e: Entries,
    acc: u64,
    items: Seq<Value>,
    i: nat,
    depth: usize,
)
    requires
        s.tables == t.tables,
        s.tracker == t.tracker,
    ensures
        xor_items(s, e, acc, items, i, depth) == xor_items(t, e, acc, items, i, depth),
    decreases usize::MAX - depth, 3int, items.len() - i,
{
    if i < items.len() {
        lemma_scene_value(s, t, e, items[i as int], depth);
        let (after, r) = hash_value(s, e, items[i as int], depth);
        if let Ok(Some(h)) = r {
            lemma_scene_xor(s, t, after, acc ^ h, items, i + 1, depth);
        }
    }
}

/// A string hashes alike whether it is interned or on the heap.
pub proof fn strings_hash_by_content<T: ResourceTracker>(
    s: Scene<T>,
    e: Entries,
    literal: StringId,
    id: HeapId,
    depth: usize,
)
    requires
        live(e, id),
        e[id.0 as int]->0.hash_state == HashState::Unknown,
        data_at(e, id) matches HeapData::Str(t) && t.value@ == id_text(s.tables.strings, literal),
    ensures
        hash_value(s, e, Value::Ref(id), depth).1 == hash_value(s, e, Value::InternString(literal), depth).1,
{
}

/// A byte string hashes alike whether it is interned or on the heap.
pub proof fn bytes_hash_by_content<T: ResourceTracker>(
    s: Scene<T>,
    e: Entries,
    literal: BytesId,
    id: HeapId,
    depth: usize,
)
    requires
        live(e, id),
        e[id.0 as int]->0.hash_state == HashState::Unknown,
        data_at(e, id) matches HeapData::Bytes(b) && b.value@ == s.tables.bytes[literal.0 as int],
    ensures
        hash_value(s, e, Value::Ref(id), depth).1 == hash_value(s, e, Value::InternBytes(literal), depth).1,
{
}

/// An integer hashes alike whether it is immediate, a boolean or on the heap.
pub proof fn integers_hash_by_value<T: ResourceTracker>(s: Scene<T>, e: Entries, n: i64, id: HeapId, depth: usize)
    requires
        live(e, id),
        e[id.0 as int]->0.hash_state == HashState::Unknown,
        data_at(e, id) matches HeapData::LongInt(li) && li@ == n,
    ensures
        hash_value(s, e, Value::Ref(id), depth).1 == hash_value(s, e, Value::Int(n), depth).1,
        hash_value(s, e, Value::Bool(false), depth) == hash_value(s, e, Value::Int(0), depth),
        hash_value(s, e, Value::Bool(true), depth) == hash_value(s, e, Value::Int(1), depth),
{
}

/// Named tuples hash by their items, whatever their types and fields are called.
pub proof fn named_tuples_hash_by_items<T: ResourceTracker>(
    s: Scene<T>,
    e: Entries,
    a: NamedTuple,
    b: NamedTuple,
    depth: usize,
)
    requires
        a.items@ == b.items@,
    ensures
        hash_data(s, e, HeapData::NamedTuple(a), depth) == hash_data(s, e, HeapData::NamedTuple(b), depth),
{
}

/// A named tuple hashes as the tuple of its items does.
pub proof fn named_tuples_hash_as_tuples<T: ResourceTracker>(
    s: Scene<T>,
    e: Entries,
    named: NamedTuple,
    tuple: Tuple,
    depth: usize,
)
    requires
        named.items@ == tuple@,
    ensures
        hash_data(s, e, HeapData::NamedTuple(named), depth) == hash_data(s, e, HeapData::Tuple(tuple), depth),
{
}

pub proof fn lemma_keeps_value<T: ResourceTracker>(s: Scene<T>, e: Entries, v: Value, depth: usize)
    requires
        s.at_hand(Walk::Hash, v),
        rehashed(s.entries, e),
    ensures
        rehashed(e, hash_value(s, e, v, depth).0),
    decreases usize::MAX - depth, 2int, 0int,
{
    if let Value::Ref(id) = v {
        lemma_at_hand(s, Walk::Hash, v);
        let _ = e[id.0 as int];
        if e[id.0 as int]->0.hash_state == HashState::Unknown {
            assert(data_at(e, id) == data_at(s.entries, id));
            lemma_keeps_data(s, e, data_at(e, id), depth);
            let (after, r) = hash_data(s, e, data_at(e, id), depth);
            let _ = after[id.0 as int];
            if let Ok(hash) = r {
                assert(rehashed(after, with_state(after, id, state_of(hash))));
                lemma_rehashed_trans(e, after, with_state(after, id, state_of(hash)));
            }
            assert(rehashed(e, with_state(e, id, HashState::Cached(identity_hash(id)))));
        }
    }
}

pub proof fn lemma_keeps_data<T: ResourceTracker>(s: Scene<T>, e: Entries, data: HeapData, depth: usize)
    requires
        s.all_at_hand(Walk::Hash, hashed_items(data)),
        rehashed(s.entries, e),
    ensures
        rehashed(e, hash_data(s, e, data, depth).0),
    decreases usize::MAX - depth, 0int, 0int,
{
    if deeper(s.tracker, depth) is Ok {
        if let Some((tag, items)) = tagged_items(data) {
            lemma_keeps_items(s, e, seq![word(tag)], items, 0, (depth + 1) as usize);
        } else if let HeapData::FrozenSet(fs) = data {
            lemma_keeps_xor(s, e, 0, fs.storage.items@, 0, (depth + 1) as usize);
        }
    }
}

pub proof fn lemma_keeps_items<T: ResourceTracker>(
    s: Scene<T>,
    e: Entries,
    pieces: Seq<Seq<u8>>,
    items: Seq<Value>,
    i: nat,
    depth: usize,
)
    requires
        s.all_at_hand(Walk::Hash, items),
        rehashed(s.entries, e),
    ensures
        rehashed(e, hash_items(s, e, pieces, items, i, depth).0),
    decreases usize::MAX - depth, 3int, items.len() - i,
{
    if i < items.len() {
        lemma_keeps_value(s, e, items[i as int], depth);
        let (after, r) = hash_value(s, e, items[i as int], depth);
        lemma_rehashed_trans(s.entries, e, after);
        if let Ok(Some(h)) = r {
            lemma_keeps_items(s, after, pieces.push(word(h)), items, i + 1, depth);
            lemma_rehashed_trans(e, after, hash_items(s, e, pieces, items, i, depth).0);
        }
    }
}

pub proof fn lemma_keeps_xor<T: ResourceTracker>(
    s: Scene<T>,
    e: Entries,
    acc: u64,
    items: Seq<Value>,
    i: nat,
    depth: usize,
)
    requires
        s.all_at_hand(Walk::Hash, items),
        rehashed(s.entries, e),
    ensures
        rehashed(e, xor_items(s, e, acc, items, i, depth).0),
    decreases usize::MAX - depth, 3int, items.len() - i,
{
    if i < items.len() {
        lemma_keeps_value(s, e, items[i as int], depth);
        let (after, r) = hash_value(s, e, items[i as int], depth);
        lemma_rehashed_trans(s.entries, e, after);
        if let Ok(Some(h)) = r {
            lemma_keeps_xor(s, after, acc ^ h, items, i + 1, depth);
            lemma_rehashed_trans(e, after, xor_items(s, e, acc, items, i, depth).0);
        }
    }
}

/// Hashing changes nothing but what entries remember of their hashes.
pub proof fn hashing_changes_no_payload<T: ResourceTracker>(s: Scene<T>, v: Value, depth: usize)
    requires
        s.at_hand(Walk::Hash, v),
    ensures
        rehashed(s.entries, hash_value(s, s.entries, v, depth).0),
{
    lemma_keeps_value(s, s.entries, v, depth);
}

/// Once an entry has given an answer, it gives the same answer ever after, at any depth.
pub proof fn hashes_are_remembered<T: ResourceTracker>(s: Scene<T>, id: HeapId, depth: usize, later: usize)
    requires
        s.at_hand(Walk::Hash, Value::Ref(id)),
        hash_entry(s, s.entries, id, depth).1 is Ok,
    ensures
        hash_entry(s, hash_entry(s, s.entries, id, depth).0, id, later) == hash_entry(s, s.entries, id, depth),
{
    let e = s.entries;
    let (after, r) = hash_entry(s, e, id, depth);
    lemma_at_hand(s, Walk::Hash, Value::Ref(id));
    if e[id.0 as int]->0.hash_state == HashState::Unknown && !(data_at(e, id) is Cell) {
        lemma_keeps_data(s, e, data_at(e, id), depth);
        let (inner, answer) = hash_data(s, e, data_at(e, id), depth);
        assert(after[id.0 as int]->0.hash_state == state_of(answer->Ok_0));
    }
}

} // verus!
