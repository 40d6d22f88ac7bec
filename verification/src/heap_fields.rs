//! Taking a heap apart and putting it together again, to store it.

use crate::heap::{Heap, HeapModel, HeapValue};
use crate::heap_model::Entries;
use crate::resource::ResourceTracker;
use crate::value::HeapId;
use vstd::prelude::*;

verus! {

/// What is stored of a heap. The recursion depth is not: a heap that is put together
/// starts at none.
pub struct HeapFields<T> {
    pub entries: Vec<Option<HeapValue>>,
    pub free_list: Vec<HeapId>,
    pub tracker: T,
    pub may_have_cycles: bool,
    pub allocations_since_gc: u32,
}

/// What is stored of a heap, borrowed from it.
pub struct HeapFieldsRef<'a, T> {
    pub entries: &'a Vec<Option<HeapValue>>,
    pub free_list: &'a Vec<HeapId>,
    pub tracker: &'a T,
    pub may_have_cycles: bool,
    pub allocations_since_gc: u32,
}

/// The contents of [`HeapFields`] and [`HeapFieldsRef`].
#[verifier::ext_equal]
pub struct FieldsView<T> {
    pub entries: Entries,
    pub free: Seq<HeapId>,
    pub tracker: T,
    pub may_have_cycles: bool,
    pub allocations_since_gc: u32,
}

impl<T> View for HeapFields<T> {
    type V = FieldsView<T>;

    open spec fn view(&self) -> FieldsView<T> {
        FieldsView {
            entries: self.entries@,
            free: self.free_list@,
            tracker: self.tracker,
            may_have_cycles: self.may_have_cycles,
            allocations_since_gc: self.allocations_since_gc,
        }
    }
}

impl<'a, T> View for HeapFieldsRef<'a, T> {
    type V = FieldsView<T>;

    open spec fn view(&self) -> FieldsView<T> {
        FieldsView {
            entries: self.entries@,
            free: self.free_list@,
            tracker: *self.tracker,
            may_have_cycles: self.may_have_cycles,
            allocations_since_gc: self.allocations_since_gc,
        }
    }
}

impl<T: ResourceTracker> HeapModel<T> {
    /// What is stored of the heap.
    pub open spec fn fields(self) -> FieldsView<T> {
        FieldsView {
            entries: self.entries,
            free: self.free,
            tracker: self.tracker,
            may_have_cycles: self.may_have_cycles,
            allocations_since_gc: self.allocations_since_gc,
        }
    }
}

impl<T: ResourceTracker> FieldsView<T> {
    /// The heap that is put together.
    pub open spec fn heap(self) -> HeapModel<T> {
        HeapModel {
            entries: self.entries,
            free: self.free,
            tracker: self.tracker,
            may_have_cycles: self.may_have_cycles,
            allocations_since_gc: self.allocations_since_gc,
            recursion_depth: 0,
        }
    }
}

impl<T: ResourceTracker> Heap<T> {
    /// Returns what is stored of the heap.
    pub fn as_fields(&self) -> (r: HeapFieldsRef<'_, T>)
        ensures
            r@ == self@.fields(),
    {
        HeapFieldsRef {
            entries: &self.entries,
            free_list: &self.free_list,
            tracker: &self.tracker,
            may_have_cycles: self.may_have_cycles,
            allocations_since_gc: self.allocations_since_gc,
        }
    }

    /// Takes the heap apart.
    pub fn into_fields(self) -> (r: HeapFields<T>)
        ensures
            r@ == self@.fields(),
    {
        HeapFields {
            entries: self.entries,
            free_list: self.free_list,
            tracker: self.tracker,
            may_have_cycles: self.may_have_cycles,
            allocations_since_gc: self.allocations_since_gc,
        }
    }

    /// Puts a heap together.
    pub fn from_fields(fields: HeapFields<T>) -> (r: Heap<T>)
        ensures
            r@ == fields@.heap(),
    {
        Heap {
            entries: fields.entries,
            free_list: fields.free_list,
            tracker: fields.tracker,
            may_have_cycles: fields.may_have_cycles,
            allocations_since_gc: fields.allocations_since_gc,
            recursion_depth: 0,
        }
    }
}

/// A heap that is taken apart and put together again is the heap that it was, at no
/// recursion depth, and in order if it was.
pub proof fn stored_heaps_come_back<T: ResourceTracker>(m: HeapModel<T>)
    ensures
        m.fields().heap() == (HeapModel { recursion_depth: 0, ..m }),
        m.wf() ==> m.fields().heap().wf(),
{
}

} // verus!
