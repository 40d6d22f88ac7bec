//! What iterating over a value gives.

use crate::equality::{Scene, keys, scene};
use crate::growth::{grown, lemma_allocate_step, lemma_clone_step};
use crate::heap::{Heap, HeapModel, allocation_balances};
use crate::heap_data::{HeapData, child_ids};
use crate::heap_arith::makes;
use crate::heap_model::{Entries, data_at, kept, live, outside, sound};
use crate::heap_ops::{bumped, lemma_bumped_nothing, lemma_bumped_trans};
use crate::intern::{Interns, StringId, id_text};
use crate::measure::range_len;
use crate::resource::{ResourceError, ResourceTracker};
use crate::text::decimal;
use crate::types::lookup::legible;
use crate::types::mappings::Dict;
use crate::types::scalars::{MontyIter, Range};
use crate::types::sequences::Str;
use crate::value::{
    HeapId, Value, holds, holds1, lemma_holds_one, lemma_holds_push, lemma_refs_concat, refs, tally,
};
use vstd::prelude::*;

verus! {

/// One item that iterating over a value gives.
#[derive(Debug, Clone, Copy, PartialEq, Eq, Structural)]
pub enum Item {
    /// A value that the container stores.
    Stored(Value),
    /// A character of a string.
    Char(char),
    /// A byte, or a number of a range.
    Number(i64),
}

/// What an item is: a value, a string of one character, or a number.
#[verifier::ext_equal]
pub enum ItemView {
    Stored(Value),
    Text(Seq<char>),
    Number(int),
}

impl View for Item {
    type V = ItemView;

    open spec fn view(&self) -> ItemView {
        match *self {
            Item::Stored(v) => ItemView::Stored(v),
            Item::Char(c) => ItemView::Text(seq![c]),
            Item::Number(n) => ItemView::Number(n as int),
        }
    }
}

/// The characters of a text, as items.
pub open spec fn char_items(t: Seq<char>) -> Seq<ItemView> {
    Seq::new(t.len(), |i: int| ItemView::Text(t.subrange(i, i + 1)))
}

/// Some bytes, as items.
pub open spec fn byte_items(b: Seq<u8>) -> Seq<ItemView> {
    b.map_values(|x: u8| ItemView::Number(x as int))
}

/// Some values, as items.
pub open spec fn stored_items(vs: Seq<Value>) -> Seq<ItemView> {
    vs.map_values(|v: Value| ItemView::Stored(v))
}

/// The numbers of a range, as items.
pub open spec fn range_items(r: Range) -> Seq<ItemView> {
    Seq::new(range_len(r), |i: int| ItemView::Number(r.start + i * r.step))
}

/// What some items are.
pub open spec fn item_views(items: Seq<Item>) -> Seq<ItemView> {
    items.map_values(|item: Item| item@)
}

/// The items of a payload that can be iterated over again and again.
pub open spec fn payload_items(data: HeapData) -> Option<Seq<ItemView>> {
    match data {
        HeapData::Str(s) => Some(char_items(s.value@)),
        HeapData::Bytes(b) => Some(byte_items(b.value@)),
        HeapData::List(l) => Some(stored_items(l.items@)),
        HeapData::Tuple(t) => Some(stored_items(t@)),
        HeapData::NamedTuple(nt) => Some(stored_items(nt.items@)),
        HeapData::Dict(d) => Some(stored_items(keys(d.entries@))),
        HeapData::PySet(s) => Some(stored_items(s.storage.items@)),
        HeapData::FrozenSet(s) => Some(stored_items(s.storage.items@)),
        HeapData::Range(r) => Some(range_items(r)),
        _ => None,
    }
}

impl<T: ResourceTracker> Scene<T> {
    /// The items of a value that is no iterator.
    pub open spec fn all_items(self, v: Value) -> Option<Seq<ItemView>> {
        match v {
            Value::InternString(id) => Some(char_items(id_text(self.tables.strings, id))),
            Value::InternBytes(id) => Some(byte_items(self.tables.bytes[id.0 as int])),
            Value::Ref(id) => payload_items(data_at(self.entries, id)),
            _ => None,
        }
    }

    /// The iterator that a value is.
    pub open spec fn iterator(self, v: Value) -> Option<MontyIter> {
        match v {
            Value::Ref(id) => match data_at(self.entries, id) {
                HeapData::Iter(it) => Some(it),
                _ => None,
            },
            _ => None,
        }
    }

    /// The items that iterating over a value gives; nothing where the value cannot
    /// be iterated over. An iterator goes on where it stands.
    pub open spec fn items(self, v: Value) -> Option<Seq<ItemView>> {
        match self.iterator(v) {
            Some(it) => match self.all_items(it.value) {
                Some(all) => Some(if it.index <= all.len() {
                    all.skip(it.index as int)
                } else {
                    Seq::empty()
                }),
                None => None,
            },
            None => self.all_items(v),
        }
    }

    /// Can the items of a value be counted by a `usize`?
    pub open spec fn countable(self, v: Value) -> bool {
        self.all_items(v) matches Some(all) ==> all.len() <= usize::MAX
    }

    /// Can a value, and what it runs over if it is an iterator, be read?
    pub open spec fn iterable_here(self, v: Value) -> bool {
        &&& legible(self, seq![v])
        &&& self.countable(v)
        &&& self.iterator(v) matches Some(it) ==> legible(self, seq![it.value]) && self.countable(it.value)
    }

    /// What `str()` gives for an item.
    pub open spec fn item_text(self, item: ItemView, depth: usize) -> Seq<char> {
        match item {
            ItemView::Stored(v) => self.str_value(v, depth),
            ItemView::Text(t) => t,
            ItemView::Number(n) => decimal(n),
        }
    }
}

/// A number of a range lies between its ends.
proof fn lemma_range_item(r: Range, i: int)
    requires
        0 <= i < range_len(r),
    ensures
        i64::MIN <= r.start + i * r.step <= i64::MAX,
        -0x1_0000_0000_0000_0000 <= i * r.step <= 0x1_0000_0000_0000_0000,
{
    if r.step > 0 {
        let d = r.stop - r.start - 1;
        let step = r.step as int;
        vstd::arithmetic::div_mod::lemma_fundamental_div_mod(d, step);
        assert(i * step <= (d / step) * step) by (nonlinear_arith)
            requires
                i <= d / step,
                step > 0,
        ;
        assert(step * (d / step) == (d / step) * step) by (nonlinear_arith);
        assert(0 <= i * step) by (nonlinear_arith)
            requires
                i >= 0,
                step > 0,
        ;
    } else {
        let d = r.start - r.stop - 1;
        let step = -(r.step as int);
        vstd::arithmetic::div_mod::lemma_fundamental_div_mod(d, step);
        assert(i * step <= (d / step) * step) by (nonlinear_arith)
            requires
                i <= d / step,
                step > 0,
        ;
        assert(step * (d / step) == (d / step) * step) by (nonlinear_arith);
        assert(0 <= i * step) by (nonlinear_arith)
            requires
                i >= 0,
                step > 0,
        ;
        assert(i * r.step == -(i * step)) by (nonlinear_arith)
            requires
                step == -(r.step as int),
        ;
    }
}

impl Range {
    /// Returns the number at a position.
    pub fn number(&self, i: usize) -> (r: i64)
        requires
            i < range_len(*self),
        ensures
            r == self.start + i * self.step,
    {
        proof {
            lemma_range_item(*self, i as int);
        }
        (self.start as i128 + i as i128 * self.step as i128) as i64
    }
}

impl Value {
    /// Returns how many items a value has that is no iterator.
    fn count_all<T: ResourceTracker>(self, heap: &Heap<T>, interns: &Interns) -> (r: Option<usize>)
        requires
            legible(scene(heap@, *interns), seq![self]),
            scene(heap@, *interns).countable(self),
        ensures
            match scene(heap@, *interns).all_items(self) {
                Some(all) => r matches Some(n) && n == all.len(),
                None => r is None,
            },
    {
        proof {
            let s = scene(heap@, *interns);
            assert(s.has(seq![self][0]));
        }
        match self {
            Value::InternString(id) => Some(interns.get_str(id).unicode_len()),
            Value::InternBytes(id) => Some(interns.get_bytes(id).len()),
            Value::Ref(id) => match heap.get(id) {
                HeapData::Str(s) => Some(s.as_str().unicode_len()),
                HeapData::Bytes(b) => Some(b.as_slice().len()),
                HeapData::List(l) => Some(l.items.len()),
                HeapData::Tuple(t) => Some(t.as_slice().len()),
                HeapData::NamedTuple(nt) => Some(nt.items.len()),
                HeapData::Dict(d) => Some(d.entries.len()),
                HeapData::PySet(s) => Some(s.storage.items.len()),
                HeapData::FrozenSet(s) => Some(s.storage.items.len()),
                HeapData::Range(r) => Some(r.len()),
                _ => None,
            },
            _ => None,
        }
    }

    /// Returns an item of a value that is no iterator.
    fn get_item<T: ResourceTracker>(self, i: usize, heap: &Heap<T>, interns: &Interns) -> (r: Item)
        requires
            legible(scene(heap@, *interns), seq![self]),
            scene(heap@, *interns).all_items(self) matches Some(all) && i < all.len(),
        ensures
            scene(heap@, *interns).all_items(self) matches Some(all) && r@ == all[i as int],
    {
        proof {
            let s = scene(heap@, *interns);
            assert(s.has(seq![self][0]));
            if let Some(t) = s.text(self) {
                assert(t.subrange(i as int, i + 1) =~= seq![t[i as int]]);
            }
        }
        match self {
            Value::InternString(id) => Item::Char(interns.get_str(id).get_char(i)),
            Value::InternBytes(id) => Item::Number(interns.get_bytes(id)[i] as i64),
            Value::Ref(id) => match heap.get(id) {
                HeapData::Str(s) => Item::Char(s.as_str().get_char(i)),
                HeapData::Bytes(b) => Item::Number(b.as_slice()[i] as i64),
                HeapData::List(l) => Item::Stored(l.items[i]),
                HeapData::Tuple(t) => Item::Stored(t.as_slice()[i]),
                HeapData::NamedTuple(nt) => Item::Stored(nt.items[i]),
                HeapData::Dict(d) => Item::Stored(d.entries[i].key),
                HeapData::PySet(s) => Item::Stored(s.storage.items[i]),
                HeapData::FrozenSet(s) => Item::Stored(s.storage.items[i]),
                HeapData::Range(r) => Item::Number(r.number(i)),
                _ => vstd::pervasive::unreached(),
            },
            _ => vstd::pervasive::unreached(),
        }
    }

    /// Returns the items that iterating over a value gives, without counting
    /// references to them; `None` where the value cannot be iterated over.
    pub fn list_items<T: ResourceTracker>(self, heap: &Heap<T>, interns: &Interns) -> (r: Option<Vec<Item>>)
        requires
            scene(heap@, *interns).iterable_here(self),
        ensures
            match scene(heap@, *interns).items(self) {
                Some(items) => r matches Some(v) && item_views(v@) == items,
                None => r is None,
            },
    {
        let ghost s = scene(heap@, *interns);
        proof {
            assert(s.has(seq![self][0]));
        }
        let mut source: Value = self;
        let mut start: usize = 0;
        if let Value::Ref(id) = self {
            if let HeapData::Iter(it) = heap.get(id) {
                source = it.value;
                start = it.index;
            }
        }
        let count: usize = match source.count_all(heap, interns) {
            Some(count) => count,
            None => {
                return None;
            },
        };
        let ghost all = s.all_items(source)->0;
        let mut out: Vec<Item> = Vec::new();
        let mut i: usize = start;
        while i < count
            invariant
                s == scene(heap@, *interns),
                legible(s, seq![source]),
                s.all_items(source) == Some(all),
                count == all.len(),
                start <= i,
                start <= count ==> i <= count && item_views(out@) == all.subrange(start as int, i as int),
                start > count ==> out@.len() == 0,
            decreases count - i,
        {
            let item: Item = source.get_item(i, heap, interns);
            let ghost before = out@;
            out.push(item);
            proof {
                assert(item_views(out@) =~= item_views(before).push(item@));
                assert(all.subrange(start as int, i + 1) =~= all.subrange(start as int, i as int).push(item@));
            }
            i = i + 1;
        }
        proof {
            if start <= count {
                assert(item_views(out@) =~= all.skip(start as int));
                if start == 0 {
                    assert(all.skip(0) =~= all);
                }
            } else {
                assert(item_views(out@) =~= Seq::empty());
            }
        }
        Some(out)
    }
}

// ---------------------------------------------------------------------------
// Collecting
// ---------------------------------------------------------------------------

/// Does a character need a string of its own, as none is interned for it?
pub open spec fn is_wide(item: ItemView) -> bool {
    item matches ItemView::Text(t) && t[0] as u32 >= 128
}

/// Is `v` what an item becomes when it is collected?
pub open spec fn is_item(item: ItemView, e: Entries, v: Value) -> bool {
    match item {
        ItemView::Stored(x) => v == x,
        ItemView::Number(n) => v == Value::Int(n as i64),
        ItemView::Text(t) => if t[0] as u32 >= 128 {
            &&& v matches Value::Ref(id)
            &&& live(e, id)
            &&& data_at(e, id) matches HeapData::Str(s) && s.value@ == t
        } else {
            v == Value::InternString(StringId(t[0] as u32))
        },
    }
}

/// May collecting the items turn the heap into `after` and give `r`?
///
/// The collected values are counted references. Only strings of wide characters
/// need new entries, and only for them the tracker can refuse; what was collected
/// up to then is given up.
pub open spec fn collects<T: ResourceTracker>(
    before: HeapModel<T>,
    after: HeapModel<T>,
    items: Seq<ItemView>,
    r: Result<Seq<Value>, ResourceError>,
) -> bool {
    &&& after.wf()
    &&& sound(after.entries)
    &&& before.same_settings(after)
    &&& after.entries.len() <= before.entries.len() + items.len()
    &&& match r {
        Ok(vs) => {
            &&& vs.len() == items.len()
            &&& forall|i: int| 0 <= i < items.len() ==> is_item(#[trigger] items[i], after.entries, vs[i])
            &&& grown(before.entries, after.entries)
            &&& forall|x: HeapId| #[trigger] outside(after.entries, x) == outside(before.entries, x) + holds(vs, x)
            &&& !any_wide(items) ==> {
                &&& bumped(before.entries, after.entries, refs(vs))
                &&& after == before.with_entries(after.entries)
            }
        },
        Err(_) => {
            &&& any_wide(items)
            &&& forall|x: HeapId| #[trigger] outside(after.entries, x) == outside(before.entries, x)
        },
    }
}

/// Does any of the items need a string of its own?
pub open spec fn any_wide(items: Seq<ItemView>) -> bool {
    exists|i: int| 0 <= i < items.len() && is_wide(#[trigger] items[i])
}

/// Do all values that the items store lead to live entries?
pub open spec fn items_live(e: Entries, items: Seq<ItemView>) -> bool {
    forall|i: int|
        0 <= i < items.len() ==> (#[trigger] items[i] matches ItemView::Stored(Value::Ref(id)) ==> live(e, id))
}

/// Turns a character into a string value.
fn char_value<T: ResourceTracker>(c: char, heap: &mut Heap<T>) -> (r: Result<Value, ResourceError>)
    requires
        old(heap)@.wf(),
        old(heap)@.entries.len() < usize::MAX,
    ensures
        final(heap)@.wf(),
        if c as u32 >= 128 {
            exists|s: Str| #[trigger] s.value@ == seq![c] && makes(old(heap)@, final(heap)@, HeapData::Str(s), r)
        } else {
            r == Ok::<Value, ResourceError>(Value::InternString(StringId(c as u32))) && final(heap)@ == old(heap)@
        },
{
    let code: u32 = c as u32;
    if code < 128 {
        return Ok(Value::InternString(StringId::from_ascii(code as u8)));
    }
    let mut text: String = String::new();
    text.push(c);
    let s: Str = Str::new(text);
    let ghost made = s;
    proof {
        assert(made.value@ =~= seq![c]);
    }
    match heap.allocate(HeapData::Str(s)) {
        Ok(id) => Ok(Value::Ref(id)),
        Err(e) => Err(e),
    }
}

/// Collects items into values that are counted references.
pub fn collect_items<T: ResourceTracker>(items: &Vec<Item>, heap: &mut Heap<T>) -> (r: Result<Vec<Value>, ResourceError>)
    requires
        old(heap)@.wf(),
        sound(old(heap)@.entries),
        old(heap)@.room(items@.len()),
        old(heap)@.entries.len() + items@.len() <= usize::MAX,
        items_live(old(heap)@.entries, item_views(items@)),
    ensures
        collects(
            old(heap)@,
            final(heap)@,
            item_views(items@),
            match r {
                Ok(vs) => Ok(vs@),
                Err(e) => Err(e),
            },
        ),
{
    let ghost views = item_views(items@);
    let n: usize = items.len();
    let mut out: Vec<Value> = Vec::new();
    let mut i: usize = 0;
    proof {
        lemma_bumped_nothing(heap@.entries);
        assert(refs(out@) =~= Seq::empty());
    }
    while i < n
        invariant
            i <= n,
            n == items@.len(),
            views == item_views(items@),
            items_live(old(heap)@.entries, views),
            sound(old(heap)@.entries),
            heap@.wf(),
            sound(heap@.entries),
            old(heap)@.same_settings(heap@),
            heap@.room((n - i) as nat),
            heap@.entries.len() <= old(heap)@.entries.len() + i,
            old(heap)@.entries.len() + n <= usize::MAX,
            out@.len() == i,
            forall|k: int| 0 <= k < i ==> is_item(#[trigger] views[k], heap@.entries, out@[k]),
            grown(old(heap)@.entries, heap@.entries),
            forall|x: HeapId| #[trigger] outside(heap@.entries, x) == outside(old(heap)@.entries, x) + holds(out@, x),
            (forall|k: int| 0 <= k < i ==> !is_wide(#[trigger] views[k])) ==> {
                &&& bumped(old(heap)@.entries, heap@.entries, refs(out@))
                &&& heap@ == old(heap)@.with_entries(heap@.entries)
            },
        decreases n - i,
    {
        let item: Item = items[i];
        let ghost before = heap@;
        let ghost so_far = out@;
        proof {
            assert(views[i as int] == item@);
        }
        let v: Value = match item {
            Item::Stored(v) => {
                proof {
                    if let Value::Ref(id) = v {
                        assert(live(old(heap)@.entries, id));
                        assert(before.entries[id.0 as int] is Some);
                    }
                }
                let copy: Value = heap.clone_value(v);
                proof {
                    lemma_clone_step(before, heap@, v, (n - i) as nat);
                }
                copy
            },
            Item::Number(number) => {
                proof {
                    lemma_clone_step(before, heap@, Value::Int(number), (n - i) as nat);
                }
                Value::Int(number)
            },
            Item::Char(c) => match char_value(c, heap) {
                Ok(v) => {
                    proof {
                        if c as u32 >= 128 {
                            let s = choose|s: Str| #[trigger]
                                s.value@ == seq![c] && makes(before, heap@, HeapData::Str(s), Ok(v));
                            lemma_allocate_step(before, heap@, HeapData::Str(s), v->Ref_0, (n - i) as nat);
                            lemma_string_step(before, heap@, HeapData::Str(s), v);
                        } else {
                            lemma_clone_step(before, heap@, v, (n - i) as nat);
                        }
                    }
                    v
                },
                Err(e) => {
                    proof {
                        assert(is_wide(views[i as int]));
                        assert forall|x: HeapId| #[trigger]
                            outside(heap@.entries, x) >= tally(refs(out@), x) + kept(x) by {
                            assert(outside(old(heap)@.entries, x) >= kept(x));
                        }
                    }
                    heap.discard_all(out.as_slice());
                    proof {
                        assert forall|x: HeapId| #[trigger]
                            outside(heap@.entries, x) == outside(old(heap)@.entries, x) by {
                            assert(holds(out@, x) == tally(refs(out@), x));
                        }
                    }
                    return Err(e);
                },
            },
        };
        out.push(v);
        proof {
            assert forall|x: HeapId| #[trigger]
                outside(heap@.entries, x) == outside(old(heap)@.entries, x) + holds(out@, x) by {
                lemma_holds_push(so_far, v, x);
                lemma_holds_one(v, x);
                assert(outside(before.entries, x) == outside(old(heap)@.entries, x) + holds(so_far, x));
            }
            assert forall|k: int| 0 <= k < i + 1 implies is_item(#[trigger] views[k], heap@.entries, out@[k]) by {
                if k < i {
                    assert(is_item(views[k], before.entries, so_far[k]));
                }
            }
            if forall|k: int| 0 <= k < i + 1 ==> !is_wide(#[trigger] views[k]) {
                assert(!is_wide(views[i as int]));
                lemma_refs_concat(so_far, seq![v]);
                assert(so_far + seq![v] =~= out@);
                lemma_bumped_trans(old(heap)@.entries, before.entries, heap@.entries, refs(so_far), refs(seq![v]));
            }
        }
        i = i + 1;
    }
    Ok(out)
}

/// A new string keeps the heap in order.
proof fn lemma_string_step<T: ResourceTracker>(a: HeapModel<T>, b: HeapModel<T>, data: HeapData, v: Value)
    requires
        a.wf(),
        sound(a.entries),
        a.entries.len() < usize::MAX,
        data is Str,
        makes(a, b, data, Ok(v)),
    ensures
        sound(b.entries),
        a.same_settings(b),
        forall|x: HeapId| #[trigger] outside(b.entries, x) == outside(a.entries, x) + holds1(v, x),
{
    allocation_balances(a, data, b.tracker);
    assert(child_ids(data) =~= Seq::empty());
    assert forall|x: HeapId| #[trigger] outside(b.entries, x) >= kept(x) by {
        assert(outside(a.entries, x) >= kept(x));
    }
}

} // verus!
