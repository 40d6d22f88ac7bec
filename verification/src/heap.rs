//! The reference-counted arena that backs all heap-only runtime values.

use crate::heap_data::{HeapData, child_ids, holds_refs};
use crate::heap_model::{
    Entries, count_at, counted, data_at, free_matches, kept, lemma_inside_push, lemma_inside_update,
    lemma_release_shape, lemma_told_push, live, one_less, outside, readable, release, sound, told_of_frees,
    work_after,
};
use crate::measure::{estimated_size, values_size};
use crate::resource::{ResourceError, ResourceTracker, capped_sum};
use crate::types::sequences::Tuple;
pub use crate::value::HeapId;
use crate::value::{Value, holds1, tally};
use vstd::prelude::*;

verus! {

/// The slot of the empty tuple, a singleton which is allocated at startup.
pub const EMPTY_TUPLE_SLOT: usize = 0;

/// GC interval - run GC every 100,000 applicable allocations.
///
/// This is intentionally infrequent to minimize overhead while still
/// eventually collecting reference cycles.
pub const GC_INTERVAL: u32 = 100_000;

/// Hash caching state stored alongside each heap entry.
#[derive(Debug, Clone, Copy, PartialEq, Eq, Structural)]
pub enum HashState {
    /// Hash has not yet been computed but the value might be hashable.
    Unknown,
    /// Cached hash value for immutable types that have been hashed at least once.
    Cached(u64),
    /// Value is unhashable (mutable types or tuples containing unhashables).
    Unhashable,
}

/// Can a payload be hashed, as far as its kind decides?
pub open spec fn may_be_hashed(data: HeapData) -> bool {
    match data {
        HeapData::Str(_) => true,
        HeapData::Bytes(_) => true,
        HeapData::Tuple(_) => true,
        HeapData::NamedTuple(_) => true,
        HeapData::NamedTupleFactory(_) => true,
        HeapData::FrozenSet(_) => true,
        HeapData::Cell(_) => true,
        HeapData::Closure(_) => true,
        HeapData::FunctionDefaults(_) => true,
        HeapData::Range(_) => true,
        HeapData::Slice(_) => true,
        HeapData::LongInt(_) => true,
        HeapData::Class(_) => true,
        HeapData::Dataclass(dc) => dc.frozen,
        HeapData::Path(_) => true,
        HeapData::ExtFunction(_) => true,
        _ => false,
    }
}

impl HashState {
    /// The state of a new entry.
    pub open spec fn initial(data: HeapData) -> HashState {
        if may_be_hashed(data) { HashState::Unknown } else { HashState::Unhashable }
    }

    /// Returns the state of a new entry.
    pub fn for_data(data: &HeapData) -> (r: HashState)
        ensures
            r == HashState::initial(*data),
    {
        match data {
            // Cells are hashable by identity (like all Python objects without __hash__ override)
            // FrozenSet is immutable and hashable
            // Range is immutable and hashable
            // Slice is immutable and hashable (like in CPython)
            // LongInt is immutable and hashable
            // NamedTuple is immutable and hashable (like Tuple)
            HeapData::Str(_) | HeapData::Bytes(_) | HeapData::Tuple(_) | HeapData::NamedTuple(_)
                | HeapData::NamedTupleFactory(_) | HeapData::FrozenSet(_) | HeapData::Cell(_) | HeapData::Closure(_)
                | HeapData::FunctionDefaults(_) | HeapData::Range(_) | HeapData::Slice(_)
                | HeapData::LongInt(_) => HashState::Unknown,
            HeapData::Class(_) => HashState::Unknown,
            // Dataclass hashability depends on the mutable flag
            HeapData::Dataclass(dc) => {
                if dc.frozen {
                    HashState::Unknown
                } else {
                    HashState::Unhashable
                }
            },
            // Path is immutable and hashable
            HeapData::Path(_) => HashState::Unknown,
            // ExtFunction is hashable (by identity, like closures)
            HeapData::ExtFunction(_) => HashState::Unknown,
            // other types are unhashable
            _ => HashState::Unhashable,
        }
    }
}

/// A single entry inside the heap arena, storing refcount, payload, and hash metadata.
///
/// The `hash_state` field tracks whether the heap entry is hashable and, if so,
/// caches the computed hash. Mutable types (List, Dict) start as `Unhashable` and
/// will raise TypeError if used as dict keys.
///
/// The `data` field is an Option to support temporary borrowing: when methods like
/// `with_entry_mut` or `call_attr` need mutable access to both the data and the heap,
/// they can take the data out (leaving `None`), pass `&mut Heap` to user code,
/// then restore the data. This avoids unsafe code while keeping `refcount` accessible
/// for `inc_ref`/`dec_ref` during the borrow.
pub struct HeapValue {
    pub refcount: usize,
    /// The payload data. Temporarily `None` while borrowed via `with_entry_mut`/`call_attr`.
    pub data: Option<HeapData>,
    /// Current hashing status / cached hash value
    pub hash_state: HashState,
}

/// Zero-size token returned by [`Heap::incr_recursion_depth`].
///
/// Represents one level of recursion depth that must be released when the
/// recursive operation completes.
#[derive(Debug)]
pub struct RecursionToken(pub ());

impl RecursionToken {
    /// Gives the level of recursion back.
    pub fn drop_with_heap<T: ResourceTracker>(self, heap: &mut Heap<T>)
        requires
            old(heap)@.recursion_depth > 0,
        ensures
            final(heap)@ == (HeapModel {
                recursion_depth: (old(heap)@.recursion_depth - 1) as usize,
                ..old(heap)@
            }),
    {
        heap.decr_recursion_depth();
    }
}

/// Reference-counted arena that backs all heap-only runtime values.
///
/// Uses a free list to reuse slots from freed values, keeping memory usage
/// constant for long-running loops that repeatedly allocate and free values.
/// When an value is freed via `dec_ref`, its slot ID is added to the free list.
/// New allocations pop from the free list when available, otherwise append.
///
/// Generic over `T: ResourceTracker` to support different resource tracking strategies.
pub struct Heap<T: ResourceTracker> {
    pub entries: Vec<Option<HeapValue>>,
    /// IDs of freed slots available for reuse. Populated by `dec_ref`, consumed by `allocate`.
    pub free_list: Vec<HeapId>,
    /// Resource tracker for enforcing limits and scheduling GC.
    pub tracker: T,
    /// True if reference cycles may exist. Set when a container stores a Ref,
    /// cleared after GC completes. When false, GC can skip mark-sweep entirely.
    pub may_have_cycles: bool,
    /// Number of GC applicable allocations since the last GC.
    pub allocations_since_gc: u32,
    /// Current recursion depth — incremented on function calls and data structure traversals.
    pub recursion_depth: usize,
}

/// The state of a [`Heap`].
#[verifier::ext_equal]
pub struct HeapModel<T> {
    pub entries: Entries,
    pub free: Seq<HeapId>,
    pub tracker: T,
    pub may_have_cycles: bool,
    pub allocations_since_gc: u32,
    pub recursion_depth: usize,
}

impl<T: ResourceTracker> View for Heap<T> {
    type V = HeapModel<T>;

    open spec fn view(&self) -> HeapModel<T> {
        HeapModel {
            entries: self.entries@,
            free: self.free_list@,
            tracker: self.tracker,
            may_have_cycles: self.may_have_cycles,
            allocations_since_gc: self.allocations_since_gc,
            recursion_depth: self.recursion_depth,
        }
    }
}

/// The entry that a payload is allocated as.
pub open spec fn fresh(data: HeapData) -> HeapValue {
    HeapValue { refcount: 1, data: Some(data), hash_state: HashState::initial(data) }
}

/// Is slot zero taken, and by the empty tuple wherever its payload is not on loan?
pub open spec fn has_singleton(e: Entries) -> bool {
    &&& live(e, HeapId(EMPTY_TUPLE_SLOT))
    &&& e[EMPTY_TUPLE_SLOT as int]->0.data matches Some(data) ==> is_empty_tuple(data)
}

/// Is the payload a tuple without items?
pub open spec fn is_empty_tuple(data: HeapData) -> bool {
    data matches HeapData::Tuple(t) && t@.len() == 0
}

impl<T: ResourceTracker> HeapModel<T> {
    /// Is the free list right, is every count at least one, and is there an empty
    /// tuple in slot zero?
    pub open spec fn wf(self) -> bool {
        &&& counted(self.entries)
        &&& free_matches(self.entries, self.free)
        &&& has_singleton(self.entries)
        &&& self.entries.len() <= usize::MAX
    }

    /// The slot that the next allocation takes: the one that was freed last, or
    /// else a new one.
    pub open spec fn next_id(self) -> HeapId {
        if self.free.len() > 0 { self.free.last() } else { HeapId(self.entries.len() as usize) }
    }

    /// The heap after a payload is allocated.
    pub open spec fn with_new(self, data: HeapData, tracker: T) -> HeapModel<T> {
        HeapModel {
            entries: if self.free.len() > 0 {
                self.entries.update(self.free.last().0 as int, Some(fresh(data)))
            } else {
                self.entries.push(Some(fresh(data)))
            },
            free: if self.free.len() > 0 { self.free.drop_last() } else { self.free },
            tracker,
            may_have_cycles: self.may_have_cycles || (data.spec_gc_tracked() && holds_refs(data)),
            allocations_since_gc: if data.spec_gc_tracked() {
                if self.allocations_since_gc == u32::MAX {
                    0
                } else {
                    (self.allocations_since_gc + 1) as u32
                }
            } else {
                self.allocations_since_gc
            },
            recursion_depth: self.recursion_depth,
        }
    }

    /// The heap with other entries.
    pub open spec fn with_entries(self, entries: Entries) -> HeapModel<T> {
        HeapModel { entries, ..self }
    }

    /// May allocating `data` turn this heap into `after` and give `r`?
    ///
    /// The tracker decides. Where it refuses, only the tracker may have changed.
    pub open spec fn allocates(self, after: HeapModel<T>, data: HeapData, r: Result<HeapId, ResourceError>) -> bool {
        match r {
            Ok(id) => {
                &&& self.tracker.allocate_outcome(estimated_size(data) as usize, after.tracker, Ok(()))
                &&& id == self.next_id()
                &&& after == self.with_new(data, after.tracker)
            },
            Err(e) => {
                &&& self.tracker.allocate_outcome(estimated_size(data) as usize, after.tracker, Err(e))
                &&& after == (HeapModel { tracker: after.tracker, ..self })
            },
        }
    }

    /// Is every count low enough for `n` more references?
    pub open spec fn room(self, n: nat) -> bool {
        forall|i: int|
            0 <= i < self.entries.len() ==> (#[trigger] self.entries[i] matches Some(v) ==> v.refcount + n
                <= usize::MAX)
    }
}

/// The entries after the count at `id` grows by one.
pub open spec fn one_more(e: Entries, id: HeapId) -> Entries {
    let v = e[id.0 as int]->0;
    e.update(id.0 as int, Some(HeapValue { refcount: (v.refcount + 1) as usize, ..v }))
}

/// An allocation turns the references that the payload holds into one reference
/// to the new entry.
pub proof fn allocation_balances<T: ResourceTracker>(m: HeapModel<T>, data: HeapData, tracker: T)
    requires
        m.wf(),
        m.entries.len() < usize::MAX || m.free.len() > 0,
    ensures
        m.with_new(data, tracker).wf(),
        live(m.with_new(data, tracker).entries, m.next_id()),
        data_at(m.with_new(data, tracker).entries, m.next_id()) == data,
        forall|x: HeapId|
            #[trigger] outside(m.with_new(data, tracker).entries, x) == outside(m.entries, x) - tally(
                child_ids(data),
                x,
            ) + holds1(Value::Ref(m.next_id()), x),
        forall|x: HeapId|
            x != m.next_id() ==> (#[trigger] live(m.with_new(data, tracker).entries, x) == live(m.entries, x)),
        forall|x: HeapId|
            x != m.next_id() && live(m.entries, x) ==> (#[trigger] m.with_new(data, tracker).entries[x.0 as int])
                == m.entries[x.0 as int],
        !live(m.entries, m.next_id()),
{
    let e = m.entries;
    let id = m.next_id();
    let after = m.with_new(data, tracker);
    if m.free.len() > 0 {
        assert(m.free[m.free.len() - 1] == id);
        assert(e[id.0 as int] is None);
        assert(free_matches(after.entries, after.free)) by {
            assert forall|k: int| 0 <= k < after.free.len() implies (#[trigger] after.free[k]).0 < after.entries.len()
                && after.entries[after.free[k].0 as int] is None by {
                assert(m.free[k] == after.free[k]);
                assert(m.free[k] != m.free[m.free.len() - 1]);
            }
            assert forall|i: int| 0 <= i < after.entries.len() && (#[trigger] after.entries[i]) is None implies after.free.contains(
                HeapId(i as usize),
            ) by {
                assert(e[i] is None);
                let k = choose|k: int| 0 <= k < m.free.len() && m.free[k] == HeapId(i as usize);
                assert(after.free[k] == HeapId(i as usize));
            }
        }
        assert forall|x: HeapId| #[trigger]
            outside(after.entries, x) == outside(e, x) - tally(child_ids(data), x) + holds1(Value::Ref(id), x) by {
            lemma_inside_update(e, id.0 as int, Some(fresh(data)), x);
        }
    } else {
        assert(free_matches(after.entries, after.free)) by {
            assert forall|i: int| 0 <= i < after.entries.len() && (#[trigger] after.entries[i]) is None implies after.free.contains(
                HeapId(i as usize),
            ) by {
                assert(e[i] is None);
            }
        }
        assert forall|x: HeapId| #[trigger]
            outside(after.entries, x) == outside(e, x) - tally(child_ids(data), x) + holds1(Value::Ref(id), x) by {
            lemma_inside_push(e, Some(fresh(data)), x);
        }
    }
}

impl<T: ResourceTracker> Heap<T> {
    /// Creates a new heap with the given resource tracker.
    ///
    /// Use this to create heaps with custom resource limits or GC scheduling.
    /// The empty tuple counts toward the limits, so the tracker has to allow it.
    pub fn new(capacity: usize, tracker: T) -> (r: Heap<T>)
        requires
            forall|after: T, e: ResourceError|
                !(#[trigger] tracker.allocate_outcome(empty_tuple_size() as usize, after, Err(e))),
        ensures
            r@.wf(),
            sound(r@.entries),
            r@.entries.len() == 1,
            r@.free.len() == 0,
            !r@.may_have_cycles,
            r@.allocations_since_gc == 1,
            r@.recursion_depth == 0,
            readable(r@.entries, HeapId(EMPTY_TUPLE_SLOT)),
            is_empty_tuple(data_at(r@.entries, HeapId(EMPTY_TUPLE_SLOT))),
            r@.entries[0] == Some(fresh(data_at(r@.entries, HeapId(EMPTY_TUPLE_SLOT)))),
            tracker.allocate_outcome(empty_tuple_size() as usize, r@.tracker, Ok(())),
    {
        let mut tracker = tracker;
        let empty_tuple: HeapData = HeapData::Tuple(Tuple::new(Vec::new()));
        let ghost data = empty_tuple;
        let ghost before = tracker;
        let outcome: Result<(), ResourceError> = tracker.on_allocate(empty_tuple.py_estimate_size());
        proof {
            match outcome {
                Ok(unit) => assert(unit == ()),
                Err(e) => assert(before.allocate_outcome(empty_tuple_size() as usize, tracker, Err(e))),
            }
        }
        let hash_state: HashState = HashState::for_data(&empty_tuple);
        let mut entries: Vec<Option<HeapValue>> = Vec::with_capacity(capacity);
        entries.push(Some(HeapValue { refcount: 1, data: Some(empty_tuple), hash_state }));
        let heap: Heap<T> = Heap {
            entries,
            free_list: Vec::new(),
            tracker,
            may_have_cycles: false,
            allocations_since_gc: 1,
            recursion_depth: 0,
        };
        proof {
            let e = heap@.entries;
            assert(e =~= Seq::<Option<HeapValue>>::empty().push(Some(fresh(data))));
            assert forall|x: HeapId| #[trigger] outside(e, x) >= kept(x) by {
                lemma_inside_push(Seq::empty(), Some(fresh(data)), x);
                if let HeapData::Tuple(t) = data {
                    assert(child_ids(data).len() == 0);
                }
            }
        }
        heap
    }

    /// Returns a reference to the resource tracker.
    pub fn tracker(&self) -> (r: &T)
        ensures
            *r == self@.tracker,
    {
        &self.tracker
    }

    /// Returns a mutable reference to the resource tracker.
    pub fn tracker_mut(&mut self) -> (r: &mut T)
        ensures
            *r == old(self)@.tracker,
            final(self)@ == (HeapModel { tracker: *final(r), ..old(self)@ }),
    {
        &mut self.tracker
    }

    /// Checks whether the configured time limit has been exceeded.
    ///
    /// Delegates to the resource tracker's `check_time()`.
    ///
    /// Call this inside Rust-side loops (builtins, sort, iterator collection)
    /// that execute within a single bytecode instruction and would otherwise
    /// bypass the VM's per-instruction timeout check.
    pub fn check_time(&self) -> (r: Result<(), ResourceError>)
        ensures
            self@.tracker.time_outcome(r),
    {
        self.tracker.check_time()
    }

    /// Increments the recursion depth and checks the limit via the `ResourceTracker`.
    ///
    /// Returns `Ok(RecursionToken)` if within limits. The caller must ensure the
    /// token is released on all code paths.
    ///
    /// Returns the tracker's error if the limit would be exceeded. The depth that
    /// a `usize` can count is a limit of every tracker.
    pub fn incr_recursion_depth(&mut self) -> (r: Result<RecursionToken, ResourceError>)
        ensures
            match r {
                Ok(_) => {
                    &&& deeper(old(self)@.tracker, old(self)@.recursion_depth) is Ok
                    &&& final(self)@ == (HeapModel {
                        recursion_depth: (old(self)@.recursion_depth + 1) as usize,
                        ..old(self)@
                    })
                },
                Err(e) => {
                    &&& deeper(old(self)@.tracker, old(self)@.recursion_depth) == Err::<(), ResourceError>(e)
                    &&& final(self)@ == old(self)@
                },
            },
    {
        let depth: usize = self.recursion_depth;
        match check_deeper(&self.tracker, depth) {
            Ok(()) => {},
            Err(e) => {
                return Err(e);
            },
        }
        self.recursion_depth = depth + 1;
        Ok(RecursionToken(()))
    }

    /// Increments the recursion depth, returning `Some(RecursionToken)` if within
    /// limits, or `None` if the limit is exceeded.
    ///
    /// Use this in repr-like contexts where exceeding the limit should produce
    /// truncated output (e.g., `[...]`) rather than an error.
    pub fn incr_recursion_depth_for_repr(&mut self) -> (r: Option<RecursionToken>)
        ensures
            r is Some <==> deeper(old(self)@.tracker, old(self)@.recursion_depth) is Ok,
            r is Some ==> final(self)@ == (HeapModel {
                recursion_depth: (old(self)@.recursion_depth + 1) as usize,
                ..old(self)@
            }),
            r is None ==> final(self)@ == old(self)@,
    {
        match self.incr_recursion_depth() {
            Ok(token) => Some(token),
            Err(_) => None,
        }
    }

    /// Decrements the recursion depth.
    ///
    /// Called internally by `RecursionToken` — prefer releasing the token
    /// rather than calling this directly.
    pub fn decr_recursion_depth(&mut self)
        requires
            old(self)@.recursion_depth > 0,
        ensures
            final(self)@ == (HeapModel {
                recursion_depth: (old(self)@.recursion_depth - 1) as usize,
                ..old(self)@
            }),
    {
        self.recursion_depth = self.recursion_depth - 1;
    }

    /// Returns the current recursion depth.
    ///
    /// Used during async task switching to compute a task's depth contribution
    /// before adjusting the global counter.
    pub fn get_recursion_depth(&self) -> (r: usize)
        ensures
            r == self@.recursion_depth,
    {
        self.recursion_depth
    }

    /// Sets the recursion depth to an explicit value.
    ///
    /// Used after deserialization to restore the recursion depth to match
    /// the number of active (non-global) namespace frames that were serialized.
    /// Also used during async task switching to subtract/add a task's depth
    /// contribution when switching away from/to that task.
    pub fn set_recursion_depth(&mut self, depth: usize)
        ensures
            final(self)@ == (HeapModel { recursion_depth: depth, ..old(self)@ }),
    {
        self.recursion_depth = depth;
    }

    /// Number of entries in the heap
    pub fn size(&self) -> (r: usize)
        ensures
            r == self@.entries.len(),
    {
        self.entries.len()
    }

    /// Marks that a reference cycle may exist in the heap.
    ///
    /// Call this when a container (list, dict, tuple, etc.) stores a reference
    /// to another heap object. This enables the GC to skip mark-sweep entirely
    /// when no cycles are possible.
    pub fn mark_potential_cycle(&mut self)
        ensures
            final(self)@ == (HeapModel { may_have_cycles: true, ..old(self)@ }),
    {
        self.may_have_cycles = true;
    }

    /// Returns the number of GC-tracked allocations since the last garbage collection.
    ///
    /// This counter increments for each allocation of a GC-tracked type (List, Dict, etc.)
    /// and resets to 0 when `collect_garbage` runs. Useful for testing GC behavior.
    pub fn get_allocations_since_gc(&self) -> (r: u32)
        ensures
            r == self@.allocations_since_gc,
    {
        self.allocations_since_gc
    }

    /// Allocates a new heap entry.
    ///
    /// Returns `Err(ResourceError)` if allocation would exceed configured limits.
    /// Use this when you need to handle resource limit errors gracefully.
    ///
    /// Only GC-tracked types (containers that can hold references) count toward the
    /// GC allocation threshold. Leaf types like strings don't trigger GC.
    ///
    /// When allocating a container that contains heap references, marks potential
    /// cycles to enable garbage collection.
    pub fn allocate(&mut self, data: HeapData) -> (r: Result<HeapId, ResourceError>)
        requires
            old(self)@.wf(),
            old(self)@.entries.len() < usize::MAX,
        ensures
            final(self)@.wf(),
            old(self)@.allocates(final(self)@, data, r),
    {
        match self.tracker.on_allocate(data.py_estimate_size()) {
            Ok(unit) => {
                assert(unit == ());
            },
            Err(e) => {
                return Err(e);
            },
        }
        proof {
            allocation_balances(old(self)@, data, self.tracker);
        }
        if data.is_gc_tracked() {
            self.allocations_since_gc = self.allocations_since_gc.wrapping_add(1);
            // Mark potential cycles if this container has heap references.
            // This is essential for types like Dict where setitem doesn't call
            // mark_potential_cycle() - the allocation is the only place to detect refs.
            if data.has_refs() {
                self.may_have_cycles = true;
            }
        }
        let hash_state: HashState = HashState::for_data(&data);
        let new_entry: HeapValue = HeapValue { refcount: 1, data: Some(data), hash_state };
        let id: HeapId = match self.free_list.pop() {
            Some(id) => {
                // Reuse a freed slot
                proof {
                    assert(old(self)@.free[old(self)@.free.len() - 1] == id);
                }
                self.entries.set(id.index(), Some(new_entry));
                id
            },
            None => {
                // No free slots, append new entry
                let id: usize = self.entries.len();
                self.entries.push(Some(new_entry));
                HeapId(id)
            },
        };
        proof {
            assert(self@ =~= old(self)@.with_new(data, self.tracker));
        }
        Ok(id)
    }

    /// Returns the singleton empty tuple.
    ///
    /// In Python, `() is ()` is always `True` because empty tuples are interned.
    /// This method provides the same optimization by returning the same `HeapId`
    /// for all empty tuple allocations.
    ///
    /// The returned `Value` has its reference count incremented, so the caller
    /// owns a reference and must call `dec_ref` when done.
    pub fn get_empty_tuple(&mut self) -> (r: Value)
        requires
            old(self)@.wf(),
            old(self)@.room(1),
        ensures
            final(self)@.wf(),
            final(self)@ == old(self)@.with_entries(one_more(old(self)@.entries, HeapId(EMPTY_TUPLE_SLOT))),
            r == Value::Ref(HeapId(EMPTY_TUPLE_SLOT)),
            readable(final(self)@.entries, HeapId(EMPTY_TUPLE_SLOT)) ==> is_empty_tuple(
                data_at(final(self)@.entries, HeapId(EMPTY_TUPLE_SLOT)),
            ),
    {
        // Return existing singleton with incremented refcount
        self.inc_ref(HeapId(EMPTY_TUPLE_SLOT));
        Value::Ref(HeapId(EMPTY_TUPLE_SLOT))
    }

    /// Increments the reference count for an existing heap entry.
    pub fn inc_ref(&mut self, id: HeapId)
        requires
            old(self)@.wf(),
            live(old(self)@.entries, id),
            count_at(old(self)@.entries, id) < usize::MAX,
        ensures
            final(self)@.wf(),
            final(self)@ == old(self)@.with_entries(one_more(old(self)@.entries, id)),
    {
        if let Some(value) = &mut self.entries[id.index()] {
            value.refcount = value.refcount + 1;
        }
        proof {
            let e = old(self)@.entries;
            assert(self@.entries =~= one_more(e, id));
            assert forall|i: int| 0 <= i < self@.entries.len() && (#[trigger] self@.entries[i]) is None implies self@.free.contains(
                HeapId(i as usize),
            ) by {
                assert(e[i] is None);
            }
            assert forall|k: int| 0 <= k < self@.free.len() implies (#[trigger] self@.free[k]).0 < self@.entries.len()
                && self@.entries[self@.free[k].0 as int] is None by {
                assert(e[self@.free[k].0 as int] is None);
            }
        }
    }

    /// Decrements the reference count and frees the value (plus children) once it hits zero.
    ///
    /// Uses an iterative work stack instead of recursion to avoid Rust stack overflow
    /// when freeing deeply nested containers (e.g., a list nested 10,000 levels deep).
    /// This is analogous to CPython's "trashcan" mechanism for safe deallocation.
    pub fn dec_ref(&mut self, id: HeapId)
        requires
            old(self)@.wf(),
            release(old(self)@.entries, old(self)@.free, Seq::empty(), seq![id]).ok,
            live(
                release(old(self)@.entries, old(self)@.free, Seq::empty(), seq![id]).entries,
                HeapId(EMPTY_TUPLE_SLOT),
            ),
        ensures
            final(self)@.wf(),
            ({
                let r = release(old(self)@.entries, old(self)@.free, Seq::empty(), seq![id]);
                &&& final(self)@ == (HeapModel {
                    entries: r.entries,
                    free: r.free,
                    tracker: final(self)@.tracker,
                    ..old(self)@
                })
                &&& told_of_frees(old(self)@.tracker, r.sizes, final(self)@.tracker)
            }),
    {
        let mut current_id: HeapId = id;
        let mut work_stack: Vec<HeapId> = Vec::new();
        let ghost goal = release(self@.entries, self@.free, Seq::empty(), seq![id]);
        let ghost mut sizes: Seq<usize> = Seq::empty();
        proof {
            assert(work_stack@.push(current_id) =~= seq![id]);
            lemma_release_shape(self@.entries, self@.free, Seq::empty(), seq![id]);
        }
        loop
            invariant_except_break
                goal.ok,
                release(self@.entries, self@.free, sizes, work_stack@.push(current_id)) == goal,
                told_of_frees(old(self)@.tracker, sizes, self@.tracker),
                self@.may_have_cycles == old(self)@.may_have_cycles,
                self@.allocations_since_gc == old(self)@.allocations_since_gc,
                self@.recursion_depth == old(self)@.recursion_depth,
            ensures
                self@.entries == goal.entries,
                self@.free == goal.free,
                told_of_frees(old(self)@.tracker, goal.sizes, self@.tracker),
                self@.may_have_cycles == old(self)@.may_have_cycles,
                self@.allocations_since_gc == old(self)@.allocations_since_gc,
                self@.recursion_depth == old(self)@.recursion_depth,
            decreases crate::heap_model::weight(self@.entries),
        {
            let ghost work = work_stack@.push(current_id);
            let ghost e = self@.entries;
            let ghost free = self@.free;
            proof {
                assert(work.drop_last() =~= work_stack@);
                assert(work.last() == current_id);
                assert(live(e, current_id));
                let v = e[current_id.0 as int]->0;
                crate::heap_model::lemma_weight_update(e, current_id.0 as int, Some(one_less(v)));
                crate::heap_model::lemma_weight_update(e, current_id.0 as int, None);
            }
            let slot: Option<HeapValue> = self.entries[current_id.index()].take();
            if let Some(value) = slot {
                let ghost v = value;
                if value.refcount > 1 {
                    let less: HeapValue = HeapValue {
                        refcount: value.refcount - 1,
                        data: value.data,
                        hash_state: value.hash_state,
                    };
                    self.entries.set(current_id.index(), Some(less));
                    proof {
                        assert(self@.entries =~= e.update(current_id.0 as int, Some(one_less(v))));
                    }
                } else {
                    // refcount == 1, free the value and add slot to free list for reuse
                    self.free_list.push(current_id);
                    if let Some(data) = value.data {
                        // Notify tracker of freed memory
                        let ghost before = self.tracker;
                        let size: usize = data.py_estimate_size();
                        self.tracker.on_free(size);
                        proof {
                            lemma_told_push(old(self)@.tracker, sizes, before, size, self.tracker);
                            sizes = sizes.push(size);
                        }
                        // Collect child IDs and push onto work stack for iterative processing
                        data.py_dec_ref_ids(&mut work_stack);
                    }
                    proof {
                        assert(self@.entries =~= e.update(current_id.0 as int, None));
                        assert(work_stack@ =~= work_after(work.drop_last(), v));
                    }
                }
            }
            let ghost rest = work_stack@;
            assert(release(self@.entries, self@.free, sizes, rest) == goal);
            match work_stack.pop() {
                Some(next_id) => {
                    proof {
                        assert(work_stack@.push(next_id) =~= rest);
                    }
                    current_id = next_id;
                },
                None => {
                    break ;
                },
            }
        }
    }

    /// Returns an immutable reference to the heap data stored at the given ID.
    #[must_use]
    pub fn get(&self, id: HeapId) -> (r: &HeapData)
        requires
            readable(self@.entries, id),
        ensures
            *r == data_at(self@.entries, id),
    {
        match &self.entries[id.index()] {
            Some(HeapValue { data: Some(data), .. }) => data,
            _ => vstd::pervasive::unreached(),
        }
    }

    /// Returns the reference count for the heap entry at the given ID.
    ///
    /// This is primarily used for testing reference counting behavior.
    #[must_use]
    pub fn get_refcount(&self, id: HeapId) -> (r: usize)
        requires
            live(self@.entries, id),
        ensures
            r == count_at(self@.entries, id),
    {
        match &self.entries[id.index()] {
            Some(value) => value.refcount,
            None => vstd::pervasive::unreached(),
        }
    }

    /// Returns the number of live (non-freed) values on the heap.
    ///
    /// This is primarily used for testing to verify that all heap entries
    /// are accounted for in reference count tests.
    ///
    /// Excludes the empty tuple singleton since it's an internal optimization
    /// detail that persists even when not explicitly used by user code.
    #[must_use]
    pub fn entry_count(&self) -> (r: usize)
        requires
            self@.wf(),
        ensures
            r == live_count(self@.entries.skip(1)),
    {
        let mut n: usize = 0;
        let mut i: usize = 1;
        let ghost tail = self@.entries.skip(1);
        while i < self.entries.len()
            invariant
                1 <= i <= self.entries@.len(),
                tail == self.entries@.skip(1),
                n == live_count(tail.take(i - 1)),
                n < i,
            decreases self.entries.len() - i,
        {
            proof {
                assert(tail.take(i as int).drop_last() =~= tail.take(i - 1));
            }
            if self.entries[i].is_some() {
                n = n + 1;
            }
            i = i + 1;
        }
        proof {
            assert(tail.take(tail.len() as int) =~= tail);
        }
        n
    }

    /// Returns whether garbage collection should run.
    ///
    /// True if reference cycles count exist in the heap
    /// and the number of allocations since the last GC exceeds the interval.
    pub fn should_gc(&self) -> (r: bool)
        ensures
            r == (self@.may_have_cycles && self@.allocations_since_gc >= GC_INTERVAL),
    {
        self.may_have_cycles && self.allocations_since_gc >= GC_INTERVAL
    }
}

/// About how many bytes an empty tuple takes.
pub open spec fn empty_tuple_size() -> nat {
    capped_sum(vstd::layout::size_of::<Tuple>(), values_size(0))
}

/// How many slots hold a value.
pub open spec fn live_count(e: Entries) -> nat
    decreases e.len(),
{
    if e.len() == 0 {
        0
    } else {
        live_count(e.drop_last()) + if e.last() is Some { 1nat } else { 0nat }
    }
}

/// Does a tracker allow one more level of recursion? No tracker allows more
/// levels than a `usize` can count.
pub open spec fn deeper<T: ResourceTracker>(tracker: T, depth: usize) -> Result<(), ResourceError> {
    match tracker.depth_outcome(depth) {
        Ok(()) => if depth == usize::MAX {
            Err(ResourceError::Recursion { limit: usize::MAX, depth })
        } else {
            Ok(())
        },
        Err(e) => Err(e),
    }
}

/// Checks whether a tracker allows one more level of recursion.
pub fn check_deeper<T: ResourceTracker>(tracker: &T, depth: usize) -> (r: Result<(), ResourceError>)
    ensures
        r == deeper(*tracker, depth),
{
    match tracker.check_recursion_depth(depth) {
        Ok(()) => {
            if depth == usize::MAX {
                Err(ResourceError::Recursion { limit: usize::MAX, depth })
            } else {
                Ok(())
            }
        },
        Err(e) => Err(e),
    }
}

} // verus!
