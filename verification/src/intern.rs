//! String, bytes, and long integer interning for efficient storage of literals and identifiers.
//!
//! This module provides interners that store unique strings, bytes, and long integers in vectors
//! and return indices (`StringId`, `BytesId`, `LongIntId`) for efficient storage and comparison.
//!
//! StringIds are laid out as follows:
//! * 0 to 128 - single character strings for all 128 ASCII characters
//! * 1000 to count(StaticStrings) - strings StaticStrings
//! * 10_000+ - strings interned per executor

use crate::function::{Function, FunctionView, copy_vec, duplicate_functions, function_views};
pub use crate::static_strings::{STATIC_STRING_COUNT, StaticStrings, static_names_are_distinct, static_ordinals_are_distinct};
use crate::text::{same_text, texts};
use crate::types::long_int::{big_value, duplicate_big};
use crate::value::Value;
use ahash::AHashMap;
use num_bigint::BigInt;
use vstd::prelude::*;
use vstd::string::StringSliceAdditionalSpecFns;

verus! {

/// Index into the string interner's storage.
///
/// Uses `u32` to save space (4 bytes vs 8 bytes for `usize`). This limits us to
/// ~4 billion unique interns, which is more than sufficient.
#[derive(Debug, Clone, Copy, PartialEq, Eq, Structural, Hash, Default)]
pub struct StringId(pub u32);

impl StringId {
    /// Creates a StringId from a raw index value.
    ///
    /// Used by the bytecode VM to reconstruct StringIds from operands stored
    /// in bytecode. The caller is responsible for ensuring the index is valid.
    pub fn from_index(index: u16) -> (r: StringId)
        ensures
            r == StringId(index as u32),
    {
        StringId(index as u32)
    }

    /// Returns the raw index value.
    pub fn index(self) -> (r: usize)
        ensures
            r == self.0,
    {
        self.0 as usize
    }

    /// Returns the StringId for an ASCII byte.
    #[must_use]
    pub fn from_ascii(byte: u8) -> (r: StringId)
        ensures
            r == StringId(byte as u32),
    {
        StringId(byte as u32)
    }
}

/// The first id of the static strings.
pub const STATIC_STRING_ID_OFFSET: u32 = 1000;

/// The first id of the strings of a program.
pub const INTERN_STRING_ID_OFFSET: usize = 10_000;

/// The largest number of strings that room is made for in advance.
const CAPACITY_LIMIT: usize = 0x0100_0000;

/// The id of a static string.
pub open spec fn static_id(s: StaticStrings) -> StringId {
    StringId((s.ordinal() + STATIC_STRING_ID_OFFSET) as u32)
}

impl StaticStrings {
    /// Attempts to convert a `StringId` back to a `StaticStrings` variant.
    ///
    /// Returns `None` if the `StringId` doesn't correspond to a static string
    /// (e.g., it's an ASCII char or a dynamically interned string).
    pub fn from_string_id(id: StringId) -> (r: Option<StaticStrings>)
        ensures
            r matches Some(s) ==> static_id(s) == id,
            r is None ==> forall|s: StaticStrings| #[trigger] static_id(s) != id,
    {
        match id.0.checked_sub(STATIC_STRING_ID_OFFSET) {
            Some(enum_id) => {
                if enum_id < STATIC_STRING_COUNT as u32 {
                    StaticStrings::from_repr(enum_id as u8)
                } else {
                    proof {
                        assert forall|s: StaticStrings| #[trigger] static_id(s) != id by {
                            lemma_ordinal_bound(s);
                        }
                    }
                    None
                }
            },
            None => {
                proof {
                    assert forall|s: StaticStrings| #[trigger] static_id(s) != id by {
                        lemma_ordinal_bound(s);
                    }
                }
                None
            },
        }
    }

    /// Returns the static string with the given text, if there is one.
    pub fn from_text(text: &str) -> (r: Option<StaticStrings>)
        ensures
            r matches Some(s) ==> s.name() == text@,
            r is None ==> forall|s: StaticStrings| #[trigger] s.name() != text@,
    {
        let mut i: u8 = 0;
        while i < STATIC_STRING_COUNT
            invariant
                i <= STATIC_STRING_COUNT,
                forall|s: StaticStrings| s.ordinal() < i ==> #[trigger] s.name() != text@,
            decreases STATIC_STRING_COUNT - i,
        {
            if let Some(found) = StaticStrings::from_repr(i) {
                if same_text(found.as_str(), text) {
                    return Some(found);
                }
                proof {
                    assert forall|s: StaticStrings| s.ordinal() < i + 1 implies #[trigger] s.name() != text@ by {
                        if s.ordinal() == i {
                            static_ordinals_are_distinct(s, found);
                        }
                    }
                }
            }
            i = i + 1;
        }
        proof {
            assert forall|s: StaticStrings| #[trigger] s.name() != text@ by {
                lemma_ordinal_bound(s);
            }
        }
        None
    }
}

proof fn lemma_ordinal_bound(s: StaticStrings)
    ensures
        s.ordinal() < STATIC_STRING_COUNT,
{
}

/// Different static strings have different ids.
pub proof fn static_ids_are_distinct(a: StaticStrings, b: StaticStrings)
    requires
        static_id(a) == static_id(b),
    ensures
        a == b,
{
    lemma_ordinal_bound(a);
    lemma_ordinal_bound(b);
    static_ordinals_are_distinct(a, b);
}

/// Converts this static string variant to its corresponding `StringId`.
impl From<StaticStrings> for StringId {
    fn from(value: StaticStrings) -> (r: StringId) {
        StringId(value.to_repr() as u32 + STATIC_STRING_ID_OFFSET)
    }
}

impl vstd::std_specs::convert::FromSpecImpl<StaticStrings> for StringId {
    open spec fn obeys_from_spec() -> bool {
        true
    }

    open spec fn from_spec(value: StaticStrings) -> StringId {
        static_id(value)
    }
}

impl From<StaticStrings> for Value {
    fn from(value: StaticStrings) -> (r: Value) {
        Value::InternString(StringId::from(value))
    }
}

impl vstd::std_specs::convert::FromSpecImpl<StaticStrings> for Value {
    open spec fn obeys_from_spec() -> bool {
        true
    }

    open spec fn from_spec(value: StaticStrings) -> Value {
        Value::InternString(static_id(value))
    }
}

impl PartialEq<StaticStrings> for StringId {
    fn eq(&self, other: &StaticStrings) -> (r: bool) {
        *self == StringId::from(*other)
    }
}

impl vstd::std_specs::cmp::PartialEqSpecImpl<StaticStrings> for StringId {
    open spec fn obeys_eq_spec() -> bool {
        true
    }

    open spec fn eq_spec(&self, other: &StaticStrings) -> bool {
        *self == static_id(*other)
    }
}

impl PartialEq<StringId> for StaticStrings {
    fn eq(&self, other: &StringId) -> (r: bool) {
        StringId::from(*self) == *other
    }
}

impl vstd::std_specs::cmp::PartialEqSpecImpl<StringId> for StaticStrings {
    open spec fn obeys_eq_spec() -> bool {
        true
    }

    open spec fn eq_spec(&self, other: &StringId) -> bool {
        static_id(*self) == *other
    }
}

/// Index into the bytes interner's storage.
///
/// Separate from `StringId` to distinguish string vs bytes literals at the type level.
#[derive(Debug, Clone, Copy, PartialEq, Eq, Structural, Hash)]
pub struct BytesId(pub u32);

impl BytesId {
    /// Returns the raw index value.
    pub fn index(self) -> (r: usize)
        ensures
            r == self.0,
    {
        self.0 as usize
    }
}

/// Index into the long integer interner's storage.
///
/// Used for integer literals that exceed i64 range. The actual `BigInt` values
/// are stored in the `Interns` table and looked up by index at runtime.
#[derive(Debug, Clone, Copy, PartialEq, Eq, Structural, Hash)]
pub struct LongIntId(pub u32);

impl LongIntId {
    /// Returns the raw index value.
    pub fn index(self) -> (r: usize)
        ensures
            r == self.0,
    {
        self.0 as usize
    }
}

/// Unique identifier for functions
#[derive(Debug, Clone, Copy, PartialEq, Eq, Structural, Hash, PartialOrd, Ord)]
pub struct FunctionId(pub u32);

impl FunctionId {
    /// Creates a FunctionId from a raw index value.
    ///
    /// Used by the bytecode VM to reconstruct FunctionIds from operands stored
    /// in bytecode. The caller is responsible for ensuring the index is valid.
    pub fn from_index(index: u16) -> (r: FunctionId)
        ensures
            r == FunctionId(index as u32),
    {
        FunctionId(index as u32)
    }

    /// Returns the raw index value.
    pub fn index(self) -> (r: usize)
        ensures
            r == self.0,
    {
        self.0 as usize
    }
}

/// Is the text a single ASCII character?
pub open spec fn is_ascii_text(t: Seq<char>) -> bool {
    t.len() == 1 && (t[0] as u32) < 128
}

/// Is the text one of the static strings?
pub open spec fn is_static_text(t: Seq<char>) -> bool {
    exists|s: StaticStrings| #[trigger] s.name() == t
}

/// Has the text the same id in every program?
pub open spec fn is_fixed_text(t: Seq<char>) -> bool {
    is_ascii_text(t) || is_static_text(t)
}

/// The id that a text has in every program, where [`is_fixed_text`] holds.
pub open spec fn fixed_id(t: Seq<char>) -> StringId {
    if is_ascii_text(t) {
        StringId(t[0] as u32)
    } else {
        static_id(choose|s: StaticStrings| #[trigger] s.name() == t)
    }
}

/// Is `id` the id of text `t`, where `strings` are the texts of the program?
pub open spec fn names(strings: Seq<Seq<char>>, id: StringId, t: Seq<char>) -> bool {
    ||| is_ascii_text(t) && id == StringId(t[0] as u32)
    ||| exists|s: StaticStrings| #[trigger] s.name() == t && id == static_id(s)
    ||| id.0 >= INTERN_STRING_ID_OFFSET && id.0 - INTERN_STRING_ID_OFFSET < strings.len() && strings[id.0
        - INTERN_STRING_ID_OFFSET] == t
}

/// Does the id stand for a text?
pub open spec fn valid_id(strings: Seq<Seq<char>>, id: StringId) -> bool {
    exists|t: Seq<char>| names(strings, id, t)
}

/// The text that a valid id stands for.
pub open spec fn id_text(strings: Seq<Seq<char>>, id: StringId) -> Seq<char> {
    choose|t: Seq<char>| names(strings, id, t)
}

/// An id stands for at most one text.
pub proof fn ids_name_one_text(strings: Seq<Seq<char>>, id: StringId, t: Seq<char>, u: Seq<char>)
    requires
        names(strings, id, t),
        names(strings, id, u),
    ensures
        t == u,
{
    assert forall|s: StaticStrings| STATIC_STRING_ID_OFFSET <= (#[trigger] static_id(s)).0 < STATIC_STRING_ID_OFFSET
        + STATIC_STRING_COUNT by {
        lemma_ordinal_bound(s);
    }
    if is_ascii_text(t) && id == StringId(t[0] as u32) {
        assert(is_ascii_text(u) && id == StringId(u[0] as u32));
        vstd::utf8::char_u32_cast(t[0], t[0] as u32);
        vstd::utf8::char_u32_cast(u[0], u[0] as u32);
        assert(t =~= u);
    } else if exists|s: StaticStrings| #[trigger] s.name() == t && id == static_id(s) {
        let a = choose|s: StaticStrings| #[trigger] s.name() == t && id == static_id(s);
        let b = choose|s: StaticStrings| #[trigger] s.name() == u && id == static_id(s);
        static_ids_are_distinct(a, b);
    }
}

/// The text of an id, from any proof that the id names it.
proof fn lemma_id_text(strings: Seq<Seq<char>>, id: StringId, t: Seq<char>)
    requires
        names(strings, id, t),
    ensures
        valid_id(strings, id),
        id_text(strings, id) == t,
{
    ids_name_one_text(strings, id, t, id_text(strings, id));
}

/// The id of a static string stands for that string, whatever else is interned.
pub proof fn static_ids_name_their_text(strings: Seq<Seq<char>>, s: StaticStrings)
    ensures
        valid_id(strings, static_id(s)),
        id_text(strings, static_id(s)) == s.name(),
{
    assert(names(strings, static_id(s), s.name()));
    lemma_id_text(strings, static_id(s), s.name());
}

proof fn lemma_fixed_id(strings: Seq<Seq<char>>, t: Seq<char>)
    requires
        is_fixed_text(t),
    ensures
        names(strings, fixed_id(t), t),
{
    if !is_ascii_text(t) {
        let s = choose|s: StaticStrings| #[trigger] s.name() == t;
        assert(s.name() == t);
    }
}

/// Are the texts of a program different from each other and from the fixed ones?
pub open spec fn proper_strings(strings: Seq<Seq<char>>) -> bool {
    &&& strings.len() + INTERN_STRING_ID_OFFSET <= u32::MAX + 1
    &&& strings.no_duplicates()
    &&& forall|i: int| 0 <= i < strings.len() ==> !is_fixed_text(#[trigger] strings[i])
}

/// Where every text has one id, an id is found back from its text.
pub proof fn texts_have_one_id(strings: Seq<Seq<char>>, t: Seq<char>, a: StringId, b: StringId)
    requires
        proper_strings(strings),
        names(strings, a, t),
        names(strings, b, t),
        // "A" and its like are both single characters and names of regex flags.
        !(is_ascii_text(t) && is_static_text(t)),
    ensures
        a == b,
{
    if is_static_text(t) && !is_ascii_text(t) {
        assert forall|s: StaticStrings| #[trigger] s.name() == t implies s == choose|s: StaticStrings|
            #[trigger] s.name() == t by {
            static_names_are_distinct(s, choose|s: StaticStrings| #[trigger] s.name() == t);
        }
    }
    if a.0 >= INTERN_STRING_ID_OFFSET && a.0 - INTERN_STRING_ID_OFFSET < strings.len() && strings[a.0
        - INTERN_STRING_ID_OFFSET] == t {
        assert(!is_fixed_text(strings[a.0 - INTERN_STRING_ID_OFFSET]));
    }
    if b.0 >= INTERN_STRING_ID_OFFSET && b.0 - INTERN_STRING_ID_OFFSET < strings.len() && strings[b.0
        - INTERN_STRING_ID_OFFSET] == t {
        assert(!is_fixed_text(strings[b.0 - INTERN_STRING_ID_OFFSET]));
    }
}

/// All ASCII characters in order.
proof fn lemma_ascii_table(c: int)
    requires
        0 <= c < 128,
    ensures
        "\x00\x01\x02\x03\x04\x05\x06\x07\x08\x09\x0a\x0b\x0c\x0d\x0e\x0f\x10\x11\x12\x13\x14\x15\x16\x17\x18\x19\x1a\x1b\x1c\x1d\x1e\x1f !\"#$%&'()*+,-./0123456789:;<=>?@ABCDEFGHIJKLMNOPQRSTUVWXYZ[\\]^_`abcdefghijklmnopqrstuvwxyz{|}~\x7f"@.len() == 128,
        "\x00\x01\x02\x03\x04\x05\x06\x07\x08\x09\x0a\x0b\x0c\x0d\x0e\x0f\x10\x11\x12\x13\x14\x15\x16\x17\x18\x19\x1a\x1b\x1c\x1d\x1e\x1f !\"#$%&'()*+,-./0123456789:;<=>?@ABCDEFGHIJKLMNOPQRSTUVWXYZ[\\]^_`abcdefghijklmnopqrstuvwxyz{|}~\x7f"@[c] == c as char,
        vstd::string::is_ascii("\x00\x01\x02\x03\x04\x05\x06\x07\x08\x09\x0a\x0b\x0c\x0d\x0e\x0f\x10\x11\x12\x13\x14\x15\x16\x17\x18\x19\x1a\x1b\x1c\x1d\x1e\x1f !\"#$%&'()*+,-./0123456789:;<=>?@ABCDEFGHIJKLMNOPQRSTUVWXYZ[\\]^_`abcdefghijklmnopqrstuvwxyz{|}~\x7f"),
{
    reveal_strlit("\x00\x01\x02\x03\x04\x05\x06\x07\x08\x09\x0a\x0b\x0c\x0d\x0e\x0f\x10\x11\x12\x13\x14\x15\x16\x17\x18\x19\x1a\x1b\x1c\x1d\x1e\x1f !\"#$%&'()*+,-./0123456789:;<=>?@ABCDEFGHIJKLMNOPQRSTUVWXYZ[\\]^_`abcdefghijklmnopqrstuvwxyz{|}~\x7f");
    let t = "\x00\x01\x02\x03\x04\x05\x06\x07\x08\x09\x0a\x0b\x0c\x0d\x0e\x0f\x10\x11\x12\x13\x14\x15\x16\x17\x18\x19\x1a\x1b\x1c\x1d\x1e\x1f !\"#$%&'()*+,-./0123456789:;<=>?@ABCDEFGHIJKLMNOPQRSTUVWXYZ[\\]^_`abcdefghijklmnopqrstuvwxyz{|}~\x7f"@;
    assert(c == 0 || c == 1 || c == 2 || c == 3 || c == 4 || c == 5 || c == 6 || c == 7 || c == 8 || c == 9 || c == 10 || c == 11 || c == 12 || c == 13 || c == 14 || c == 15 || c == 16 || c == 17 || c == 18 || c == 19 || c == 20 || c == 21 || c == 22 || c == 23 || c == 24 || c == 25 || c == 26 || c == 27 || c == 28 || c == 29 || c == 30 || c == 31 || c == 32 || c == 33 || c == 34 || c == 35 || c == 36 || c == 37 || c == 38 || c == 39 || c == 40 || c == 41 || c == 42 || c == 43 || c == 44 || c == 45 || c == 46 || c == 47 || c == 48 || c == 49 || c == 50 || c == 51 || c == 52 || c == 53 || c == 54 || c == 55 || c == 56 || c == 57 || c == 58 || c == 59 || c == 60 || c == 61 || c == 62 || c == 63 || c == 64 || c == 65 || c == 66 || c == 67 || c == 68 || c == 69 || c == 70 || c == 71 || c == 72 || c == 73 || c == 74 || c == 75 || c == 76 || c == 77 || c == 78 || c == 79 || c == 80 || c == 81 || c == 82 || c == 83 || c == 84 || c == 85 || c == 86 || c == 87 || c == 88 || c == 89 || c == 90 || c == 91 || c == 92 || c == 93 || c == 94 || c == 95 || c == 96 || c == 97 || c == 98 || c == 99 || c == 100 || c == 101 || c == 102 || c == 103 || c == 104 || c == 105 || c == 106 || c == 107 || c == 108 || c == 109 || c == 110 || c == 111 || c == 112 || c == 113 || c == 114 || c == 115 || c == 116 || c == 117 || c == 118 || c == 119 || c == 120 || c == 121 || c == 122 || c == 123 || c == 124 || c == 125 || c == 126 || c == 127);
    assert forall|i: int| 0 <= i < t.len() implies (#[trigger] t[i]) as nat <= 127 by {
        assert(i == 0 || i == 1 || i == 2 || i == 3 || i == 4 || i == 5 || i == 6 || i == 7 || i == 8 || i == 9 || i == 10 || i == 11 || i == 12 || i == 13 || i == 14 || i == 15 || i == 16 || i == 17 || i == 18 || i == 19 || i == 20 || i == 21 || i == 22 || i == 23 || i == 24 || i == 25 || i == 26 || i == 27 || i == 28 || i == 29 || i == 30 || i == 31 || i == 32 || i == 33 || i == 34 || i == 35 || i == 36 || i == 37 || i == 38 || i == 39 || i == 40 || i == 41 || i == 42 || i == 43 || i == 44 || i == 45 || i == 46 || i == 47 || i == 48 || i == 49 || i == 50 || i == 51 || i == 52 || i == 53 || i == 54 || i == 55 || i == 56 || i == 57 || i == 58 || i == 59 || i == 60 || i == 61 || i == 62 || i == 63 || i == 64 || i == 65 || i == 66 || i == 67 || i == 68 || i == 69 || i == 70 || i == 71 || i == 72 || i == 73 || i == 74 || i == 75 || i == 76 || i == 77 || i == 78 || i == 79 || i == 80 || i == 81 || i == 82 || i == 83 || i == 84 || i == 85 || i == 86 || i == 87 || i == 88 || i == 89 || i == 90 || i == 91 || i == 92 || i == 93 || i == 94 || i == 95 || i == 96 || i == 97 || i == 98 || i == 99 || i == 100 || i == 101 || i == 102 || i == 103 || i == 104 || i == 105 || i == 106 || i == 107 || i == 108 || i == 109 || i == 110 || i == 111 || i == 112 || i == 113 || i == 114 || i == 115 || i == 116 || i == 117 || i == 118 || i == 119 || i == 120 || i == 121 || i == 122 || i == 123 || i == 124 || i == 125 || i == 126 || i == 127);
    }
}

/// Returns the text of one ASCII character.
fn ascii_str(c: u8) -> (r: &'static str)
    requires
        c < 128,
    ensures
        r@ == seq![c as char],
{
    let table: &'static str = "\x00\x01\x02\x03\x04\x05\x06\x07\x08\x09\x0a\x0b\x0c\x0d\x0e\x0f\x10\x11\x12\x13\x14\x15\x16\x17\x18\x19\x1a\x1b\x1c\x1d\x1e\x1f !\"#$%&'()*+,-./0123456789:;<=>?@ABCDEFGHIJKLMNOPQRSTUVWXYZ[\\]^_`abcdefghijklmnopqrstuvwxyz{|}~\x7f";
    proof {
        lemma_ascii_table(c as int);
    }
    let r: &'static str = table.substring_ascii(c as usize, c as usize + 1);
    proof {
        assert(r@ =~= seq![c as char]);
    }
    r
}

/// A hash map of the `ahash` crate.
#[verifier::external_type_specification]
#[verifier::external_body]
#[verifier::reject_recursive_types(K)]
#[verifier::reject_recursive_types(V)]
#[verifier::reject_recursive_types(S)]
pub struct ExAHashMap<K, V, S>(AHashMap<K, V, S>);

/// The hasher state of the `ahash` crate's maps.
#[verifier::external_type_specification]
#[verifier::external_body]
pub struct ExAHashRandomState(ahash::RandomState);

/// The entries of a map from texts to numbers.
pub uninterp spec fn map_entries(m: AHashMap<String, u32>) -> Map<Seq<char>, u32>;

/// The map without entries.
pub open spec fn no_entries() -> Map<Seq<char>, u32> {
    Map::empty()
}

/// `AHashMap::with_capacity`: a new map has no entries. The capacity is a hint
/// and shows in nothing that the map returns; a table of the largest size that
/// is asked for here fits in the address space.
#[verifier::external_body]
fn map_with_capacity(capacity: usize) -> (m: AHashMap<String, u32>)
    requires
        capacity <= CAPACITY_LIMIT,
    ensures
        map_entries(m) == no_entries(),
{
    AHashMap::with_capacity(capacity)
}

/// `AHashMap::get`: the value that the map holds for the key, if any.
#[verifier::external_body]
fn map_get(m: &AHashMap<String, u32>, key: &str) -> (r: Option<u32>)
    ensures
        r is Some <==> map_entries(*m).contains_key(key@),
        r matches Some(v) ==> v == map_entries(*m)[key@],
{
    m.get(key).copied()
}

/// `AHashMap::insert`: the map then holds the value for the key, and all its
/// other entries as before.
#[verifier::external_body]
fn map_insert(m: &mut AHashMap<String, u32>, key: String, value: u32)
    ensures
        map_entries(*final(m)) == map_entries(*old(m)).insert(key@, value),
{
    m.insert(key, value);
}

/// A string, bytes, and long integer interner that stores unique values and returns indices for lookup.
///
/// Interns are deduplicated on insertion - interning the same string twice returns
/// the same `StringId`. Bytes and long integers are NOT deduplicated (rare enough that it's not worth it).
/// The interner owns all strings/bytes/long integers and provides lookup by index.
pub struct InternerBuilder {
    /// Maps strings to their indices for deduplication during interning.
    pub string_map: AHashMap<String, u32>,
    /// Storage for interned interns, indexed by `StringId`.
    pub strings: Vec<String>,
    /// Storage for interned bytes literals, indexed by `BytesId`.
    /// Not deduplicated since bytes literals are rare.
    pub bytes: Vec<Vec<u8>>,
    /// Storage for interned long integer literals, indexed by `LongIntId`.
    /// Not deduplicated since long integer literals are rare.
    pub long_ints: Vec<BigInt>,
}

/// What an interner holds: texts, byte strings and integers, in order.
#[verifier::ext_equal]
pub struct InternTables {
    pub strings: Seq<Seq<char>>,
    pub bytes: Seq<Seq<u8>>,
    pub long_ints: Seq<int>,
}

/// The contents of some byte vectors.
pub open spec fn byte_texts(bytes: Seq<Vec<u8>>) -> Seq<Seq<u8>> {
    bytes.map_values(|b: Vec<u8>| b@)
}

/// The values of some long integers.
pub open spec fn big_values(bigs: Seq<BigInt>) -> Seq<int> {
    bigs.map_values(|b: BigInt| big_value(b))
}

impl View for InternerBuilder {
    type V = InternTables;

    open spec fn view(&self) -> InternTables {
        InternTables {
            strings: texts(self.strings@),
            bytes: byte_texts(self.bytes@),
            long_ints: big_values(self.long_ints@),
        }
    }
}

/// Does the map hold exactly the ids of the texts?
pub open spec fn map_matches(m: Map<Seq<char>, u32>, strings: Seq<Seq<char>>) -> bool {
    &&& forall|i: int|
        0 <= i < strings.len() ==> m.contains_key(#[trigger] strings[i]) && m[strings[i]] == i
            + INTERN_STRING_ID_OFFSET
    &&& forall|t: Seq<char>| #[trigger] m.contains_key(t) ==> strings.contains(t)
}

/// How many bytes of a text are quotation marks.
pub open spec fn quote_count(b: Seq<u8>) -> nat
    decreases b.len(),
{
    if b.len() == 0 {
        0
    } else {
        quote_count(b.drop_last()) + if b.last() == 34 || b.last() == 39 { 1nat } else { 0nat }
    }
}

/// Guesses how many strings a program holds: half its quotation marks.
fn guess_string_count(code: &str) -> (r: usize)
    ensures
        r <= CAPACITY_LIMIT,
        r == if quote_count(code.spec_bytes()) / 2 > CAPACITY_LIMIT {
            CAPACITY_LIMIT as nat
        } else {
            quote_count(code.spec_bytes()) / 2
        },
{
    let b: &[u8] = code.as_bytes();
    let mut quotes: usize = 0;
    let mut i: usize = 0;
    while i < b.len()
        invariant
            i <= b.len(),
            b@ == code.spec_bytes(),
            quotes == quote_count(b@.take(i as int)),
            quotes <= i,
        decreases b.len() - i,
    {
        proof {
            assert(b@.take(i + 1).drop_last() =~= b@.take(i as int));
        }
        if b[i] == 34 || b[i] == 39 {
            quotes = quotes + 1;
        }
        i = i + 1;
    }
    proof {
        assert(b@.take(b@.len() as int) =~= b@);
    }
    let guess: usize = quotes / 2;
    if guess > CAPACITY_LIMIT {
        CAPACITY_LIMIT
    } else {
        guess
    }
}

/// Returns the id that a text has in every program, if it has one.
fn find_fixed(s: &str) -> (r: Option<StringId>)
    ensures
        r == (if is_fixed_text(s@) {
            Some(fixed_id(s@))
        } else {
            None
        }),
{
    if s.unicode_len() == 1 {
        let c: char = s.get_char(0);
        if (c as u32) < 128 {
            return Some(StringId::from_ascii(c as u8));
        }
    }
    match StaticStrings::from_text(s) {
        Some(found) => {
            proof {
                static_names_are_distinct(found, choose|x: StaticStrings| #[trigger] x.name() == s@);
            }
            Some(StringId::from(found))
        },
        None => None,
    }
}

impl InternerBuilder {
    /// Are the texts proper, and does the map hold exactly their ids?
    pub open spec fn wf(self) -> bool {
        &&& proper_strings(self@.strings)
        &&& map_matches(map_entries(self.string_map), self@.strings)
    }

    /// Creates a new, empty string interner.
    ///
    /// # Arguments
    /// * `code` - The code being parsed, used for a very rough guess at how many
    ///   strings will be interned.
    pub fn new(code: &str) -> (r: InternerBuilder)
        ensures
            r.wf(),
            r@ == (InternTables { strings: Seq::empty(), bytes: Seq::empty(), long_ints: Seq::empty() }),
    {
        // Rough guess: count quotes and divide by 2 (open+close per string)
        let capacity: usize = guess_string_count(code);
        InternerBuilder {
            string_map: map_with_capacity(capacity),
            strings: Vec::with_capacity(capacity),
            bytes: Vec::new(),
            long_ints: Vec::new(),
        }
    }

    /// Creates a builder pre-seeded from an existing [`Interns`] table.
    ///
    /// This is used by REPL incremental compilation: previously compiled interned
    /// values keep stable IDs, and newly interned values are appended.
    pub fn from_interns(interns: &Interns, code: &str) -> (r: InternerBuilder)
        requires
            interns.wf(),
        ensures
            r.wf(),
            r@ == interns.tables(),
    {
        let mut builder: InternerBuilder = InternerBuilder::new(code);
        let mut i: usize = 0;
        proof {
            assert(builder@.bytes.len() == 0 && builder@.long_ints.len() == 0);
        }
        while i < interns.strings.len()
            invariant
                i <= interns.strings@.len(),
                proper_strings(texts(interns.strings@)),
                builder.strings@.len() == i,
                texts(builder.strings@) == texts(interns.strings@).take(i as int),
                map_matches(map_entries(builder.string_map), texts(builder.strings@)),
                builder.bytes@.len() == 0,
                builder.long_ints@.len() == 0,
            decreases interns.strings.len() - i,
        {
            let ghost before = texts(builder.strings@);
            let ghost entries = map_entries(builder.string_map);
            let text: String = interns.strings[i].clone();
            let id: u32 = (INTERN_STRING_ID_OFFSET + i) as u32;
            map_insert(&mut builder.string_map, interns.strings[i].clone(), id);
            builder.strings.push(text);
            proof {
                let all = texts(interns.strings@);
                assert(all[i as int] == interns.strings@[i as int]@);
                assert(texts(builder.strings@) =~= before.push(all[i as int]));
                assert(texts(builder.strings@) =~= all.take(i + 1));
                assert(!before.contains(all[i as int])) by {
                    if before.contains(all[i as int]) {
                        let k = before.index_of(all[i as int]);
                        assert(all[k] == all[i as int]);
                    }
                }
                lemma_map_matches_push(
                    entries,
                    before,
                    all[i as int],
                    map_entries(builder.string_map),
                );
            }
            i = i + 1;
        }
        let mut j: usize = 0;
        while j < interns.bytes.len()
            invariant
                j <= interns.bytes@.len(),
                builder.bytes@.len() == j,
                forall|k: int| 0 <= k < j ==> (#[trigger] builder.bytes@[k])@ == interns.bytes@[k]@,
                builder.long_ints@.len() == 0,
                builder.strings@.len() == interns.strings@.len(),
                texts(builder.strings@) == texts(interns.strings@).take(interns.strings@.len() as int),
                map_matches(map_entries(builder.string_map), texts(builder.strings@)),
            decreases interns.bytes.len() - j,
        {
            let copy: Vec<u8> = copy_vec(&interns.bytes[j]);
            builder.bytes.push(copy);
            j = j + 1;
        }
        let mut k: usize = 0;
        while k < interns.long_ints.len()
            invariant
                k <= interns.long_ints@.len(),
                builder.long_ints@.len() == k,
                forall|m: int|
                    0 <= m < k ==> big_value(#[trigger] builder.long_ints@[m]) == big_value(interns.long_ints@[m]),
                byte_texts(builder.bytes@) == byte_texts(interns.bytes@),
                builder.strings@.len() == interns.strings@.len(),
                texts(builder.strings@) == texts(interns.strings@).take(interns.strings@.len() as int),
                map_matches(map_entries(builder.string_map), texts(builder.strings@)),
            decreases interns.long_ints.len() - k,
        {
            let copy: BigInt = duplicate_big(&interns.long_ints[k]);
            builder.long_ints.push(copy);
            k = k + 1;
        }
        proof {
            assert(texts(interns.strings@).take(interns.strings@.len() as int) =~= texts(interns.strings@));
        }
        builder
    }

    /// Interns a string, returning its `StringId`.
    ///
    /// * If the string is ascii, return the pre-interned string id
    /// * If the string is a known static string, return the pre-interned string id
    /// * If the string was already interned, returns the existing string id
    /// * Otherwise, stores the string and returns a new string id
    pub fn intern(&mut self, s: &str) -> (r: StringId)
        requires
            old(self).wf(),
            is_fixed_text(s@) || old(self)@.strings.contains(s@) || old(self)@.strings.len()
                + INTERN_STRING_ID_OFFSET <= u32::MAX,
        ensures
            final(self).wf(),
            final(self)@ == (InternTables { strings: interned(old(self)@.strings, s@), ..old(self)@ }),
            r == interned_id(old(self)@.strings, s@),
    {
        if let Some(id) = find_fixed(s) {
            return id;
        }
        if let Some(id) = map_get(&self.string_map, s) {
            proof {
                let i = choose|i: int| 0 <= i < self@.strings.len() && self@.strings[i] == s@;
                assert(self@.strings[i] == s@);
                lemma_index_of(self@.strings, i);
            }
            return StringId(id);
        }
        proof {
            if self@.strings.contains(s@) {
                let i = choose|i: int| 0 <= i < self@.strings.len() && self@.strings[i] == s@;
                assert(self@.strings[i] == s@);
            }
            lemma_map_matches_push(
                map_entries(self.string_map),
                self@.strings,
                s@,
                map_entries(self.string_map).insert(s@, (self@.strings.len() + INTERN_STRING_ID_OFFSET) as u32),
            );
        }
        let id: u32 = (self.strings.len() + INTERN_STRING_ID_OFFSET) as u32;
        map_insert(&mut self.string_map, s.to_owned(), id);
        self.strings.push(s.to_owned());
        proof {
            assert(self@.strings =~= old(self)@.strings.push(s@));
        }
        StringId(id)
    }

    /// Interns bytes, returning its `BytesId`.
    ///
    /// Unlike interns, bytes are not deduplicated (bytes literals are rare).
    pub fn intern_bytes(&mut self, b: &[u8]) -> (r: BytesId)
        requires
            old(self).wf(),
            old(self)@.bytes.len() <= u32::MAX,
        ensures
            final(self).wf(),
            final(self)@ == (InternTables { bytes: old(self)@.bytes.push(b@), ..old(self)@ }),
            r.0 == old(self)@.bytes.len(),
    {
        let id: BytesId = BytesId(self.bytes.len() as u32);
        self.bytes.push(copy_vec(b));
        proof {
            assert(self@.bytes =~= old(self)@.bytes.push(b@));
        }
        id
    }

    /// Interns a long integer, returning its `LongIntId`.
    ///
    /// Big integers are not deduplicated since literals exceeding i64 are rare.
    pub fn intern_long_int(&mut self, bi: BigInt) -> (r: LongIntId)
        requires
            old(self).wf(),
            old(self)@.long_ints.len() <= u32::MAX,
        ensures
            final(self).wf(),
            final(self)@ == (InternTables { long_ints: old(self)@.long_ints.push(big_value(bi)), ..old(self)@ }),
            r.0 == old(self)@.long_ints.len(),
    {
        let id: LongIntId = LongIntId(self.long_ints.len() as u32);
        self.long_ints.push(bi);
        proof {
            assert(self@.long_ints =~= old(self)@.long_ints.push(big_value(bi)));
        }
        id
    }

    /// Looks up a string by its `StringId`.
    pub fn get_str(&self, id: StringId) -> (r: &str)
        requires
            valid_id(self@.strings, id),
        ensures
            r@ == id_text(self@.strings, id),
    {
        get_str(&self.strings, id)
    }
}

/// The texts of a program after one more text is interned.
pub open spec fn interned(strings: Seq<Seq<char>>, t: Seq<char>) -> Seq<Seq<char>> {
    if is_fixed_text(t) || strings.contains(t) { strings } else { strings.push(t) }
}

/// The id that interning a text returns.
pub open spec fn interned_id(strings: Seq<Seq<char>>, t: Seq<char>) -> StringId {
    if is_fixed_text(t) {
        fixed_id(t)
    } else {
        StringId((interned(strings, t).index_of(t) + INTERN_STRING_ID_OFFSET) as u32)
    }
}

proof fn lemma_index_of(strings: Seq<Seq<char>>, i: int)
    requires
        strings.no_duplicates(),
        0 <= i < strings.len(),
    ensures
        strings.index_of(strings[i]) == i,
{
    let t = strings[i];
    let j = strings.index_of(t);
    assert(strings.contains(t));
    assert(strings[j] == t);
}

proof fn lemma_map_matches_push(
    m: Map<Seq<char>, u32>,
    strings: Seq<Seq<char>>,
    t: Seq<char>,
    after: Map<Seq<char>, u32>,
)
    requires
        !strings.contains(t),
        strings.no_duplicates(),
        strings.len() + INTERN_STRING_ID_OFFSET <= u32::MAX,
        after == m.insert(t, (strings.len() + INTERN_STRING_ID_OFFSET) as u32),
        map_matches(m, strings),
    ensures
        map_matches(after, strings.push(t)),
        strings.push(t).no_duplicates(),
        strings.push(t).index_of(t) == strings.len(),
{
    let all = strings.push(t);
    assert forall|i: int| 0 <= i < all.len() implies after.contains_key(#[trigger] all[i]) && after[all[i]] == i
        + INTERN_STRING_ID_OFFSET by {
        if i < strings.len() {
            assert(all[i] == strings[i]);
            assert(strings.contains(strings[i]));
            assert(m.contains_key(strings[i]));
        }
    }
    assert forall|u: Seq<char>| #[trigger] after.contains_key(u) implies all.contains(u) by {
        if u == t {
            assert(all[strings.len() as int] == t);
        } else {
            assert(m.contains_key(u));
            let i = choose|i: int| 0 <= i < strings.len() && strings[i] == u;
            assert(all[i] == u);
        }
    }
    assert forall|i: int, j: int| 0 <= i < all.len() && 0 <= j < all.len() && i != j implies all[i] != all[j] by {
        if i < strings.len() {
            assert(strings.contains(strings[i]));
        }
        if j < strings.len() {
            assert(strings.contains(strings[j]));
        }
    }
    lemma_index_of(all, strings.len() as int);
}

/// Looks up a string by its `StringId`.
fn get_str(strings: &Vec<String>, id: StringId) -> (r: &str)
    requires
        valid_id(texts(strings@), id),
    ensures
        r@ == id_text(texts(strings@), id),
{
    let ghost all = texts(strings@);
    let ghost t = id_text(all, id);
    proof {
        assert(names(all, id, t));
        assert forall|s: StaticStrings| STATIC_STRING_ID_OFFSET <= (#[trigger] static_id(s)).0
            < STATIC_STRING_ID_OFFSET + STATIC_STRING_COUNT by {
            lemma_ordinal_bound(s);
        }
    }
    if id.0 < 128 {
        let r: &'static str = ascii_str(id.0 as u8);
        proof {
            assert(is_ascii_text(r@) && id == StringId(r@[0] as u32));
            ids_name_one_text(all, id, r@, t);
        }
        r
    } else if id.index() >= INTERN_STRING_ID_OFFSET {
        let index: usize = id.index() - INTERN_STRING_ID_OFFSET;
        proof {
            assert(all[index as int] == strings@[index as int]@);
        }
        strings[index].as_str()
    } else {
        match StaticStrings::from_string_id(id) {
            Some(found) => {
                proof {
                    let s = choose|s: StaticStrings| #[trigger] s.name() == t && id == static_id(s);
                    static_ids_are_distinct(s, found);
                }
                found.as_str()
            },
            None => {
                proof {
                    let s = choose|s: StaticStrings| #[trigger] s.name() == t && id == static_id(s);
                    assert(static_id(s) == id);
                    assert(false);
                }
                ""
            },
        }
    }
}

/// Read-only storage for interned strings, bytes, and long integers.
///
/// This provides lookup by `StringId`, `BytesId`, `LongIntId` and `FunctionId` for interned literals and functions.
pub struct Interns {
    pub strings: Vec<String>,
    pub bytes: Vec<Vec<u8>>,
    pub long_ints: Vec<BigInt>,
    pub functions: Vec<Function>,
}

impl Interns {
    /// The tables that the ids of literals point into.
    pub open spec fn tables(self) -> InternTables {
        InternTables {
            strings: texts(self.strings@),
            bytes: byte_texts(self.bytes@),
            long_ints: big_values(self.long_ints@),
        }
    }

    /// Are the texts proper?
    pub open spec fn wf(self) -> bool {
        proper_strings(texts(self.strings@))
    }

    /// Does the id stand for a text?
    pub open spec fn has_str(self, id: StringId) -> bool {
        valid_id(self.tables().strings, id)
    }

    /// The text that an id stands for.
    pub open spec fn text(self, id: StringId) -> Seq<char> {
        id_text(self.tables().strings, id)
    }

    /// The contents of a function.
    pub open spec fn function(self, id: FunctionId) -> FunctionView {
        function_views(self.functions@)[id.0 as int]
    }

    /// Takes over what an interner holds.
    pub fn new(interner: InternerBuilder, functions: Vec<Function>) -> (r: Interns)
        requires
            interner.wf(),
        ensures
            r.wf(),
            r.tables() == interner@,
            r.functions@ == functions@,
    {
        Interns {
            strings: interner.strings,
            bytes: interner.bytes,
            long_ints: interner.long_ints,
            functions,
        }
    }

    /// Looks up a string by its `StringId`.
    pub fn get_str(&self, id: StringId) -> (r: &str)
        requires
            self.has_str(id),
        ensures
            r@ == self.text(id),
    {
        get_str(&self.strings, id)
    }

    /// Looks up bytes by their `BytesId`.
    pub fn get_bytes(&self, id: BytesId) -> (r: &[u8])
        requires
            id.0 < self.bytes@.len(),
        ensures
            r@ == self.tables().bytes[id.0 as int],
    {
        self.bytes[id.index()].as_slice()
    }

    /// Looks up a long integer by its `LongIntId`.
    pub fn get_long_int(&self, id: LongIntId) -> (r: &BigInt)
        requires
            id.0 < self.long_ints@.len(),
        ensures
            *r == self.long_ints@[id.0 as int],
            big_value(*r) == self.tables().long_ints[id.0 as int],
    {
        &self.long_ints[id.index()]
    }

    /// Lookup a function by its `FunctionId`
    pub fn get_function(&self, id: FunctionId) -> (r: &Function)
        requires
            id.0 < self.functions@.len(),
        ensures
            *r == self.functions@[id.0 as int],
            r@ == self.function(id),
    {
        &self.functions[id.index()]
    }

    /// Looks up the `StringId` for a string, checking ASCII, static strings, and interned strings.
    ///
    /// This is the reverse of `get_str`: given a string, find its StringId.
    /// Used when the host provides a name (e.g., from a NameLookup response) that was
    /// previously interned during preparation.
    ///
    /// Returns `None` if the string was never interned.
    pub fn get_string_id_by_name(&self, s: &str) -> (r: Option<StringId>)
        requires
            self.wf(),
        ensures
            r == (if is_fixed_text(s@) || self.tables().strings.contains(s@) {
                Some(interned_id(self.tables().strings, s@))
            } else {
                None
            }),
    {
        if let Some(id) = find_fixed(s) {
            return Some(id);
        }
        let ghost all = self.tables().strings;
        let mut i: usize = 0;
        while i < self.strings.len()
            invariant
                i <= self.strings@.len(),
                all == texts(self.strings@),
                proper_strings(all),
                !is_fixed_text(s@),
                forall|j: int| 0 <= j < i ==> #[trigger] all[j] != s@,
            decreases self.strings.len() - i,
        {
            proof {
                assert(all[i as int] == self.strings@[i as int]@);
            }
            if same_text(self.strings[i].as_str(), s) {
                proof {
                    assert(all.contains(s@));
                    lemma_index_of(all, i as int);
                }
                return Some(StringId((INTERN_STRING_ID_OFFSET + i) as u32));
            }
            i = i + 1;
        }
        None
    }

    /// Sets the compiled functions.
    ///
    /// This is called after compilation to populate the functions that were
    /// compiled from `PreparedFunctionDef` nodes.
    pub fn set_functions(&mut self, functions: Vec<Function>)
        ensures
            final(self).functions == functions,
            final(self).tables() == old(self).tables(),
            old(self).wf() ==> final(self).wf(),
    {
        self.functions = functions;
    }

    /// Returns a clone of the compiled function table.
    ///
    /// Used by REPL incremental compilation to preserve existing function IDs.
    pub fn functions_clone(&self) -> (r: Vec<Function>)
        ensures
            function_views(r@) == function_views(self.functions@),
    {
        duplicate_functions(&self.functions)
    }
}

/// Looking up the id that interning returned gives back the text.
pub proof fn interning_keeps_the_text(strings: Seq<Seq<char>>, t: Seq<char>)
    requires
        proper_strings(strings),
        is_fixed_text(t) || strings.contains(t) || strings.len() + INTERN_STRING_ID_OFFSET <= u32::MAX,
    ensures
        valid_id(interned(strings, t), interned_id(strings, t)),
        id_text(interned(strings, t), interned_id(strings, t)) == t,
{
    let after = interned(strings, t);
    if is_fixed_text(t) {
        lemma_fixed_id(after, t);
    } else {
        if !strings.contains(t) {
            assert(after[strings.len() as int] == t);
        }
        assert(after.contains(t));
        let i = after.index_of(t);
        assert(after[i] == t);
    }
    lemma_id_text(after, interned_id(strings, t), t);
}

/// Interning a text again changes nothing and returns the same id.
pub proof fn interning_is_idempotent(strings: Seq<Seq<char>>, t: Seq<char>)
    requires
        proper_strings(strings),
    ensures
        interned(interned(strings, t), t) == interned(strings, t),
        interned_id(interned(strings, t), t) == interned_id(strings, t),
{
    if !is_fixed_text(t) && !strings.contains(t) {
        assert(strings.push(t)[strings.len() as int] == t);
    }
}

/// Interning another text leaves every id that was handed out as it was.
pub proof fn interning_keeps_ids(strings: Seq<Seq<char>>, t: Seq<char>, id: StringId)
    requires
        valid_id(strings, id),
    ensures
        valid_id(interned(strings, t), id),
        id_text(interned(strings, t), id) == id_text(strings, id),
{
    let u = id_text(strings, id);
    assert(names(strings, id, u));
    assert(names(interned(strings, t), id, u));
    lemma_id_text(interned(strings, t), id, u);
}

/// The id that `get_string_id_by_name` finds for a text stands for that text.
pub proof fn found_ids_name_their_text(strings: Seq<Seq<char>>, t: Seq<char>)
    requires
        proper_strings(strings),
        is_fixed_text(t) || strings.contains(t),
    ensures
        valid_id(strings, interned_id(strings, t)),
        id_text(strings, interned_id(strings, t)) == t,
{
    interning_keeps_the_text(strings, t);
}

} // verus!
