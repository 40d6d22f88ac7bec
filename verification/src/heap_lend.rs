//! Lending payloads out while the heap is used.

use crate::heap::{EMPTY_TUPLE_SLOT, Heap, HeapModel};
use crate::heap_data::{HeapData, HeapDataMut};
use crate::heap_model::{data_at, live, readable};
use crate::resource::ResourceTracker;
use crate::value::HeapId;
use vstd::prelude::*;

verus! {

impl<T: ResourceTracker> HeapModel<T> {
    /// The heap while two payloads, or one that is asked for twice, are lent out.
    pub open spec fn lent(self, left: HeapId, right: HeapId) -> HeapModel<T> {
        if left == right {
            self.without_data(left)
        } else {
            self.without_data(left).without_data(right)
        }
    }

    /// The heap after the payloads are put back.
    pub open spec fn put_back(self, left: HeapId, right: HeapId, l: HeapData, r: HeapData) -> HeapModel<T> {
        if left == right {
            self.with_data(left, l)
        } else {
            self.with_data(right, r).with_data(left, l)
        }
    }
}

impl<T: ResourceTracker> Heap<T> {
    /// Gives mutable access to a heap entry while allowing reentrant heap usage
    /// inside the closure (e.g. to read other values or allocate results).
    ///
    /// The data is temporarily taken from the heap entry, so the closure can safely
    /// mutate both the entry data and the heap (e.g. to allocate new values).
    /// The data is automatically restored after the closure completes; the closure
    /// has to leave the entry in place, and the empty tuple of slot zero empty.
    pub fn with_entry_mut<F, R>(&mut self, id: HeapId, f: F) -> (r: R) where
        F: FnOnce(&mut Heap<T>, HeapDataMut<'_>) -> R,

        requires
            old(self)@.wf(),
            readable(old(self)@.entries, id),
            forall|h: &mut Heap<T>, d: HeapDataMut<'_>|
                h@ == old(self)@.without_data(id) && d.data() == data_at(old(self)@.entries, id)
                    ==> #[trigger] f.requires((h, d)),
            forall|h: &mut Heap<T>, d: HeapDataMut<'_>, out: R|
                h@ == old(self)@.without_data(id) && d.data() == data_at(old(self)@.entries, id)
                    && #[trigger] f.ensures((h, d), out) ==> final(h)@.wf() && live(final(h)@.entries, id) && (id.0
                    == EMPTY_TUPLE_SLOT ==> (d matches HeapDataMut::Tuple(x) && final(x)@.len() == 0)),
        ensures
            final(self)@.wf(),
            exists|h: &mut Heap<T>, d: HeapDataMut<'_>|
                h@ == old(self)@.without_data(id) && d.data() == data_at(old(self)@.entries, id)
                    && #[trigger] f.ensures((h, d), r) && match d {
                    HeapDataMut::Str(x) => final(self)@ == final(h)@.with_data(id, HeapData::Str(*final(x))),
                    HeapDataMut::Bytes(x) => final(self)@ == final(h)@.with_data(id, HeapData::Bytes(*final(x))),
                    HeapDataMut::List(x) => final(self)@ == final(h)@.with_data(id, HeapData::List(*final(x))),
                    HeapDataMut::Tuple(x) => final(self)@ == final(h)@.with_data(id, HeapData::Tuple(*final(x))),
                    HeapDataMut::NamedTuple(x) => final(self)@ == final(h)@.with_data(id, HeapData::NamedTuple(*final(x))),
                    HeapDataMut::NamedTupleFactory(x) => final(self)@ == final(h)@.with_data(id, HeapData::NamedTupleFactory(*final(x))),
                    HeapDataMut::Dict(x) => final(self)@ == final(h)@.with_data(id, HeapData::Dict(*final(x))),
                    HeapDataMut::PySet(x) => final(self)@ == final(h)@.with_data(id, HeapData::PySet(*final(x))),
                    HeapDataMut::FrozenSet(x) => final(self)@ == final(h)@.with_data(id, HeapData::FrozenSet(*final(x))),
                    HeapDataMut::Closure(x) => final(self)@ == final(h)@.with_data(id, HeapData::Closure(*final(x))),
                    HeapDataMut::FunctionDefaults(x) => final(self)@ == final(h)@.with_data(id, HeapData::FunctionDefaults(*final(x))),
                    HeapDataMut::Cell(x) => final(self)@ == final(h)@.with_data(id, HeapData::Cell(*final(x))),
                    HeapDataMut::Range(x) => final(self)@ == final(h)@.with_data(id, HeapData::Range(*final(x))),
                    HeapDataMut::Slice(x) => final(self)@ == final(h)@.with_data(id, HeapData::Slice(*final(x))),
                    HeapDataMut::Exception(x) => final(self)@ == final(h)@.with_data(id, HeapData::Exception(*final(x))),
                    HeapDataMut::Dataclass(x) => final(self)@ == final(h)@.with_data(id, HeapData::Dataclass(*final(x))),
                    HeapDataMut::Iter(x) => final(self)@ == final(h)@.with_data(id, HeapData::Iter(*final(x))),
                    HeapDataMut::LongInt(x) => final(self)@ == final(h)@.with_data(id, HeapData::LongInt(*final(x))),
                    HeapDataMut::Class(x) => final(self)@ == final(h)@.with_data(id, HeapData::Class(*final(x))),
                    HeapDataMut::Module(x) => final(self)@ == final(h)@.with_data(id, HeapData::Module(*final(x))),
                    HeapDataMut::Coroutine(x) => final(self)@ == final(h)@.with_data(id, HeapData::Coroutine(*final(x))),
                    HeapDataMut::GatherFuture(x) => final(self)@ == final(h)@.with_data(id, HeapData::GatherFuture(*final(x))),
                    HeapDataMut::Path(x) => final(self)@ == final(h)@.with_data(id, HeapData::Path(*final(x))),
                    HeapDataMut::ReMatch(x) => final(self)@ == final(h)@.with_data(id, HeapData::ReMatch(*final(x))),
                    HeapDataMut::RePattern(x) => final(self)@ == final(h)@.with_data(id, HeapData::RePattern(Box::new(*final(x)))),
                    HeapDataMut::ExtFunction(x) => final(self)@ == final(h)@.with_data(id, HeapData::ExtFunction(*final(x))),
                },
    {
        let mut data: HeapData = self.take_data(id);
        let result: R = f(self, data.to_mut());
        // Restore data
        self.restore_data(id, data);
        result
    }

    /// Temporarily takes ownership of two heap entries so their data can be borrowed
    /// simultaneously while still permitting mutable access to the heap (e.g. to
    /// allocate results). Automatically restores both entries after the closure
    /// finishes executing; the closure has to leave both in place.
    pub fn with_two<F, R>(&mut self, left: HeapId, right: HeapId, f: F) -> (r: R) where
        F: FnOnce(&mut Heap<T>, &HeapData, &HeapData) -> R,

        requires
            old(self)@.wf(),
            readable(old(self)@.entries, left),
            readable(old(self)@.entries, right),
            forall|h: &mut Heap<T>|
                h@ == old(self)@.lent(left, right) ==> #[trigger] f.requires(
                    (h, &data_at(old(self)@.entries, left), &data_at(old(self)@.entries, right)),
                ),
            forall|h: &mut Heap<T>, out: R|
                h@ == old(self)@.lent(left, right) && #[trigger] f.ensures(
                    (h, &data_at(old(self)@.entries, left), &data_at(old(self)@.entries, right)),
                    out,
                ) ==> final(h)@.wf() && live(final(h)@.entries, left) && live(final(h)@.entries, right),
        ensures
            final(self)@.wf(),
            exists|h: &mut Heap<T>|
                h@ == old(self)@.lent(left, right) && #[trigger] f.ensures(
                    (h, &data_at(old(self)@.entries, left), &data_at(old(self)@.entries, right)),
                    r,
                ) && final(self)@ == final(h)@.put_back(
                    left,
                    right,
                    data_at(old(self)@.entries, left),
                    data_at(old(self)@.entries, right),
                ),
    {
        if left == right {
            // Same value - take data once and pass it twice
            let data: HeapData = self.take_data(left);
            let result: R = f(self, &data, &data);
            self.restore_data(left, data);
            result
        } else {
            // Different values - take both
            let left_data: HeapData = self.take_data(left);
            let right_data: HeapData = self.take_data(right);
            let result: R = f(self, &left_data, &right_data);
            // Restore in reverse order
            self.restore_data(right, right_data);
            self.restore_data(left, left_data);
            result
        }
    }
}

} // verus!
