//! Access to the payloads of a heap, and garbage collection.

use crate::heap::{Heap, HeapModel, HeapValue, EMPTY_TUPLE_SLOT, is_empty_tuple};
use crate::heap_data::{HeapData, HeapDataMut, child_ids, collect_child_ids};
use crate::heap_model::{
    Entries, counted, data_at, edge, free_matches, freed_ids, freed_sizes, lemma_closed, lemma_reachable_edge,
    lemma_sweep, lemma_told_push, live, reachable, reached, readable, sound, swept, told_of_frees,
};
use crate::resource::ResourceTracker;
use crate::value::HeapId;
use vstd::prelude::*;

verus! {

impl<T: ResourceTracker> HeapModel<T> {
    /// The heap with another payload at `id`.
    pub open spec fn with_data(self, id: HeapId, data: HeapData) -> HeapModel<T> {
        let v = self.entries[id.0 as int]->0;
        self.with_entries(self.entries.update(id.0 as int, Some(HeapValue { data: Some(data), ..v })))
    }

    /// The heap while the payload at `id` is lent out.
    pub open spec fn without_data(self, id: HeapId) -> HeapModel<T> {
        let v = self.entries[id.0 as int]->0;
        self.with_entries(self.entries.update(id.0 as int, Some(HeapValue { data: None, ..v })))
    }
}

/// A change of payloads and hash states leaves a heap well formed, as long as slot
/// zero keeps the empty tuple.
pub proof fn lemma_wf_update<T: ResourceTracker>(m: HeapModel<T>, id: HeapId, v: HeapValue)
    requires
        m.wf(),
        live(m.entries, id),
        v.refcount >= 1,
        id.0 == EMPTY_TUPLE_SLOT ==> (v.data matches Some(data) ==> is_empty_tuple(data)),
    ensures
        m.with_entries(m.entries.update(id.0 as int, Some(v))).wf(),
{
    let e = m.entries;
    let after = e.update(id.0 as int, Some(v));
    assert forall|i: int| 0 <= i < after.len() && (#[trigger] after[i]) is None implies m.free.contains(
        HeapId(i as usize),
    ) by {
        assert(e[i] is None);
    }
    assert forall|k: int| 0 <= k < m.free.len() implies (#[trigger] m.free[k]).0 < after.len() && after[m.free[k].0 as int] is None by {
        assert(e[m.free[k].0 as int] is None);
    }
}

impl<T: ResourceTracker> Heap<T> {
    /// Returns a mutable reference to the heap data stored at the given ID.
    pub fn get_mut(&mut self, id: HeapId) -> (r: HeapDataMut<'_>)
        requires
            readable(old(self)@.entries, id),
        ensures
            r.data() == data_at(old(self)@.entries, id),
            match r {
                HeapDataMut::Str(x) => final(self)@ == old(self)@.with_data(id, HeapData::Str(*final(x))),
                HeapDataMut::Bytes(x) => final(self)@ == old(self)@.with_data(id, HeapData::Bytes(*final(x))),
                HeapDataMut::List(x) => final(self)@ == old(self)@.with_data(id, HeapData::List(*final(x))),
                HeapDataMut::Tuple(x) => final(self)@ == old(self)@.with_data(id, HeapData::Tuple(*final(x))),
                HeapDataMut::NamedTuple(x) => final(self)@ == old(self)@.with_data(id, HeapData::NamedTuple(*final(x))),
                HeapDataMut::NamedTupleFactory(x) => final(self)@ == old(self)@.with_data(id, HeapData::NamedTupleFactory(*final(x))),
                HeapDataMut::Dict(x) => final(self)@ == old(self)@.with_data(id, HeapData::Dict(*final(x))),
                HeapDataMut::PySet(x) => final(self)@ == old(self)@.with_data(id, HeapData::PySet(*final(x))),
                HeapDataMut::FrozenSet(x) => final(self)@ == old(self)@.with_data(id, HeapData::FrozenSet(*final(x))),
                HeapDataMut::Closure(x) => final(self)@ == old(self)@.with_data(id, HeapData::Closure(*final(x))),
                HeapDataMut::FunctionDefaults(x) => final(self)@ == old(self)@.with_data(id, HeapData::FunctionDefaults(*final(x))),
                HeapDataMut::Cell(x) => final(self)@ == old(self)@.with_data(id, HeapData::Cell(*final(x))),
                HeapDataMut::Range(x) => final(self)@ == old(self)@.with_data(id, HeapData::Range(*final(x))),
                HeapDataMut::Slice(x) => final(self)@ == old(self)@.with_data(id, HeapData::Slice(*final(x))),
                HeapDataMut::Exception(x) => final(self)@ == old(self)@.with_data(id, HeapData::Exception(*final(x))),
                HeapDataMut::Dataclass(x) => final(self)@ == old(self)@.with_data(id, HeapData::Dataclass(*final(x))),
                HeapDataMut::Iter(x) => final(self)@ == old(self)@.with_data(id, HeapData::Iter(*final(x))),
                HeapDataMut::LongInt(x) => final(self)@ == old(self)@.with_data(id, HeapData::LongInt(*final(x))),
                HeapDataMut::Class(x) => final(self)@ == old(self)@.with_data(id, HeapData::Class(*final(x))),
                HeapDataMut::Module(x) => final(self)@ == old(self)@.with_data(id, HeapData::Module(*final(x))),
                HeapDataMut::Coroutine(x) => final(self)@ == old(self)@.with_data(id, HeapData::Coroutine(*final(x))),
                HeapDataMut::GatherFuture(x) => final(self)@ == old(self)@.with_data(id, HeapData::GatherFuture(*final(x))),
                HeapDataMut::Path(x) => final(self)@ == old(self)@.with_data(id, HeapData::Path(*final(x))),
                HeapDataMut::ReMatch(x) => final(self)@ == old(self)@.with_data(id, HeapData::ReMatch(*final(x))),
                HeapDataMut::RePattern(x) => final(self)@ == old(self)@.with_data(id, HeapData::RePattern(Box::new(*final(x)))),
                HeapDataMut::ExtFunction(x) => final(self)@ == old(self)@.with_data(id, HeapData::ExtFunction(*final(x))),
            },
    {
        match &mut self.entries[id.index()] {
            Some(HeapValue { data: Some(data), .. }) => data.to_mut(),
            _ => vstd::pervasive::unreached(),
        }
    }

    /// Takes the payload out of an entry, so that it can be used together with the heap.
    pub fn take_data(&mut self, id: HeapId) -> (r: HeapData)
        requires
            old(self)@.wf(),
            readable(old(self)@.entries, id),
        ensures
            final(self)@.wf(),
            final(self)@ == old(self)@.without_data(id),
            r == data_at(old(self)@.entries, id),
    {
        proof {
            let v = self@.entries[id.0 as int]->0;
            lemma_wf_update(self@, id, HeapValue { data: None, ..v });
        }
        let taken: Option<HeapData> = match &mut self.entries[id.index()] {
            Some(value) => value.data.take(),
            None => None,
        };
        proof {
            assert(self@ =~= old(self)@.without_data(id));
        }
        match taken {
            Some(data) => data,
            None => vstd::pervasive::unreached(),
        }
    }

    /// Puts a payload back into an entry.
    pub fn restore_data(&mut self, id: HeapId, data: HeapData)
        requires
            old(self)@.wf(),
            live(old(self)@.entries, id),
            id.0 == EMPTY_TUPLE_SLOT ==> is_empty_tuple(data),
        ensures
            final(self)@.wf(),
            final(self)@ == old(self)@.with_data(id, data),
    {
        proof {
            let v = self@.entries[id.0 as int]->0;
            lemma_wf_update(self@, id, HeapValue { data: Some(data), ..v });
        }
        let ghost restored = data;
        if let Some(value) = &mut self.entries[id.index()] {
            value.data = Some(data);
        }
        proof {
            assert(self@ =~= old(self)@.with_data(id, restored));
        }
    }

    /// Runs mark-sweep garbage collection to free unreachable cycles.
    ///
    /// It marks all reachable objects starting from the given roots (typically from
    /// Namespaces) and from the empty tuple singleton, then sweeps (frees) any
    /// unreachable objects.
    ///
    /// This is necessary because reference counting alone cannot free cycles
    /// where objects reference each other but are unreachable from the program.
    ///
    /// # Caller Responsibility
    /// The caller should check `should_gc()` before calling this method.
    /// If no cycles are possible, the caller can skip GC entirely.
    ///
    /// # Arguments
    /// * `root` - HeapIds that are roots
    pub fn collect_garbage(&mut self, root: Vec<HeapId>)
        requires
            old(self)@.wf(),
        ensures
            final(self)@.wf(),
            old(self)@.collected(final(self)@, root@),
            sound(old(self)@.entries) ==> sound(final(self)@.entries),
    {
        let ghost e = self@.entries;
        let ghost roots = root@;
        let reachable_slots: Vec<bool> = self.mark(root);
        let ghost marked = marks(e, roots);
        proof {
            assert(reachable_slots@ =~= marked);
        }
        // Sweep phase: free unreachable values
        let mut i: usize = 0;
        let ghost mut sizes: Seq<usize> = Seq::empty();
        proof {
            assert(self@.free =~= old(self)@.free + freed_ids(e, marked, 0));
        }
        while i < self.entries.len()
            invariant
                i <= self.entries@.len(),
                self.entries@.len() == e.len(),
                reachable_slots@ == marked,
                marked.len() == e.len(),
                forall|j: int|
                    0 <= j < e.len() ==> #[trigger] self.entries@[j] == (if j < i && !marked[j] {
                        None
                    } else {
                        e[j]
                    }),
                self.free_list@ == old(self)@.free + freed_ids(e, marked, i as nat),
                sizes == freed_sizes(e, marked, i as nat),
                told_of_frees(old(self)@.tracker, sizes, self@.tracker),
                self@.recursion_depth == old(self)@.recursion_depth,
            decreases self.entries.len() - i,
        {
            if !reachable_slots[i] {
                // This entry is unreachable - free it
                let slot: Option<HeapValue> = self.entries[i].take();
                if let Some(value) = slot {
                    proof {
                        assert(e[i as int] == Some(value));
                    }
                    if let Some(data) = &value.data {
                        // Notify tracker of freed memory
                        let ghost before = self.tracker;
                        let size: usize = data.py_estimate_size();
                        self.tracker.on_free(size);
                        proof {
                            lemma_told_push(old(self)@.tracker, sizes, before, size, self.tracker);
                            sizes = sizes.push(size);
                        }
                    }
                    self.free_list.push(HeapId(i));
                }
            }
            proof {
                assert(self.free_list@ =~= old(self)@.free + freed_ids(e, marked, (i + 1) as nat));
            }
            i = i + 1;
        }
        // Reset cycle flag after GC - cycles have been collected
        self.may_have_cycles = false;
        self.allocations_since_gc = 0;
        proof {
            assert(self@.entries =~= swept(e, marked));
            lemma_marks(e, roots);
            lemma_swept_wf(e, old(self)@.free, marked);
            assert(reached(e, roots, HeapId(EMPTY_TUPLE_SLOT), 0));
            assert(marked[0] == reachable(e, roots, HeapId(0usize)));
            if sound(e) {
                lemma_sweep(e, roots, marked);
            }
        }
    }

    /// Marks the slots that can be reached from the roots.
    fn mark(&self, root: Vec<HeapId>) -> (r: Vec<bool>)
        requires
            self@.wf(),
        ensures
            r@ == marks(self@.entries, root@),
    {
        let ghost e = self@.entries;
        let ghost roots = root@;
        // Use Vec<bool> instead of HashSet for O(1) operations without hashing overhead
        let mut marked: Vec<bool> = Vec::with_capacity(self.entries.len());
        while marked.len() < self.entries.len()
            invariant
                marked@.len() <= self.entries@.len(),
                forall|i: int| 0 <= i < marked@.len() ==> !(#[trigger] marked@[i]),
            decreases self.entries.len() - marked.len(),
        {
            marked.push(false);
        }
        let mut work_list: Vec<HeapId> = root;
        work_list.push(HeapId(EMPTY_TUPLE_SLOT));
        proof {
            assert forall|k: int| 0 <= k < work_list@.len() implies reachable(e, roots, #[trigger] work_list@[k]) by {
                if k < roots.len() {
                    assert(roots.contains(roots[k]));
                }
                assert(reached(e, roots, work_list@[k], 0));
            }
            assert forall|r: HeapId| (r.0 == 0 || roots.contains(r)) && r.0 < e.len() implies #[trigger] marked@[r.0 as int]
                || work_list@.contains(r) by {
                if r.0 == 0 {
                    assert(work_list@[roots.len() as int] == r);
                } else {
                    let k = choose|k: int| 0 <= k < roots.len() && roots[k] == r;
                    assert(work_list@[k] == r);
                }
            }
        }
        while work_list.len() > 0
            invariant
                e == self@.entries,
                marked@.len() == e.len(),
                forall|i: int|
                    0 <= i < e.len() && #[trigger] marked@[i] ==> reachable(e, roots, HeapId(i as usize)),
                forall|k: int| 0 <= k < work_list@.len() ==> reachable(e, roots, #[trigger] work_list@[k]),
                forall|r: HeapId|
                    (r.0 == 0 || roots.contains(r)) && r.0 < e.len() ==> #[trigger] marked@[r.0 as int]
                        || work_list@.contains(r),
                forall|from: HeapId, to: HeapId|
                    from.0 < e.len() && to.0 < e.len() && marked@[from.0 as int] && #[trigger] edge(e, from, to)
                        ==> marked@[to.0 as int] || work_list@.contains(to),
            decreases unmarked(marked@), work_list@.len(),
        {
            let ghost before = work_list@;
            let id: HeapId = match work_list.pop() {
                Some(id) => id,
                None => vstd::pervasive::unreached(),
            };
            let idx: usize = id.index();
            let ghost marked_before = marked@;
            proof {
                assert(before[before.len() - 1] == id);
                assert forall|x: HeapId| before.contains(x) && x != id implies work_list@.contains(x) by {
                    let k = choose|k: int| 0 <= k < before.len() && before[k] == x;
                    assert(work_list@[k] == x);
                }
            }
            // Skip if out of bounds or already visited
            if idx < marked.len() && !marked[idx] {
                proof {
                    lemma_unmarked_update(marked@, idx as int);
                }
                marked.set(idx, true);
                let ghost rest = work_list@;
                // Add children to work list
                if let Some(HeapValue { data: Some(data), .. }) = &self.entries[idx] {
                    collect_child_ids(data, &mut work_list);
                    proof {
                        assert(readable(e, id) && data_at(e, id) == *data);
                        let ids = child_ids(*data);
                        assert forall|k: int| 0 <= k < work_list@.len() implies reachable(
                            e,
                            roots,
                            #[trigger] work_list@[k],
                        ) by {
                            if k >= rest.len() {
                                let to = ids[k - rest.len()];
                                assert(ids.contains(to));
                                assert(edge(e, id, to));
                                lemma_reachable_edge(e, roots, id, to);
                            } else {
                                assert(work_list@[k] == rest[k]);
                            }
                        }
                        assert forall|x: HeapId| rest.contains(x) || ids.contains(x) implies work_list@.contains(
                            x,
                        ) by {
                            if rest.contains(x) {
                                let k = choose|k: int| 0 <= k < rest.len() && rest[k] == x;
                                assert(work_list@[k] == x);
                            } else {
                                let k = choose|k: int| 0 <= k < ids.len() && ids[k] == x;
                                assert(work_list@[rest.len() + k] == x);
                            }
                        }
                    }
                }
                proof {
                    assert forall|from: HeapId, to: HeapId|
                        from.0 < e.len() && to.0 < e.len() && marked@[from.0 as int] && #[trigger] edge(
                            e,
                            from,
                            to,
                        ) implies marked@[to.0 as int] || work_list@.contains(to) by {
                        if from != id {
                            assert(marked_before[from.0 as int]);
                            if !marked@[to.0 as int] {
                                assert(before.contains(to));
                            }
                        }
                    }
                    assert forall|r: HeapId| (r.0 == 0 || roots.contains(r)) && r.0 < e.len() implies #[trigger] marked@[r.0 as int]
                        || work_list@.contains(r) by {
                        if !marked@[r.0 as int] {
                            assert(!marked_before[r.0 as int]);
                            assert(before.contains(r));
                        }
                    }
                }
            } else {
                proof {
                    assert forall|from: HeapId, to: HeapId|
                        from.0 < e.len() && to.0 < e.len() && marked@[from.0 as int] && #[trigger] edge(
                            e,
                            from,
                            to,
                        ) implies marked@[to.0 as int] || work_list@.contains(to) by {
                        if !marked@[to.0 as int] {
                            assert(before.contains(to));
                        }
                    }
                    assert forall|r: HeapId| (r.0 == 0 || roots.contains(r)) && r.0 < e.len() implies #[trigger] marked@[r.0 as int]
                        || work_list@.contains(r) by {
                        if !marked@[r.0 as int] {
                            assert(before.contains(r));
                        }
                    }
                }
            }
        }
        proof {
            assert forall|i: int| 0 <= i < e.len() implies #[trigger] marked@[i] == marks(e, roots)[i] by {
                let id = HeapId(i as usize);
                if reachable(e, roots, id) {
                    let steps = choose|steps: nat| reached(e, roots, id, steps);
                    assert forall|r: HeapId| (r.0 == 0 || roots.contains(r)) && r.0 < e.len() implies #[trigger] marked@[r.0 as int] by {
                        assert(!work_list@.contains(r));
                    }
                    lemma_closed(e, roots, marked@, id, steps);
                }
            }
            assert(marked@ =~= marks(e, roots));
        }
        marked
    }
}

/// Which slots can be reached from the roots.
pub open spec fn marks(e: Entries, roots: Seq<HeapId>) -> Seq<bool> {
    Seq::new(e.len(), |i: int| reachable(e, roots, HeapId(i as usize)))
}

proof fn lemma_marks(e: Entries, roots: Seq<HeapId>)
    ensures
        marks(e, roots).len() == e.len(),
        forall|i: int|
            0 <= i < e.len() ==> #[trigger] marks(e, roots)[i] == reachable(e, roots, HeapId(i as usize)),
{
}

impl<T: ResourceTracker> HeapModel<T> {
    /// Is `after` the heap once everything is freed that the roots do not reach? The tracker
    /// is told of what is freed.
    pub open spec fn collected(self, after: HeapModel<T>, roots: Seq<HeapId>) -> bool {
        let e = self.entries;
        let marked = marks(e, roots);
        &&& after.wf()
        &&& after == (HeapModel {
            entries: swept(e, marked),
            free: self.free + freed_ids(e, marked, e.len()),
            tracker: after.tracker,
            may_have_cycles: false,
            allocations_since_gc: 0,
            recursion_depth: self.recursion_depth,
        })
        &&& told_of_frees(self.tracker, freed_sizes(e, marked, e.len()), after.tracker)
    }
}

/// How many slots are not marked.
spec fn unmarked(marked: Seq<bool>) -> nat
    decreases marked.len(),
{
    if marked.len() == 0 {
        0
    } else {
        unmarked(marked.drop_last()) + if marked.last() { 0nat } else { 1nat }
    }
}

proof fn lemma_unmarked_update(marked: Seq<bool>, i: int)
    requires
        0 <= i < marked.len(),
        !marked[i],
    ensures
        unmarked(marked.update(i, true)) + 1 == unmarked(marked),
    decreases marked.len(),
{
    if i == marked.len() - 1 {
        assert(marked.update(i, true).drop_last() =~= marked.drop_last());
    } else {
        assert(marked.update(i, true).drop_last() =~= marked.drop_last().update(i, true));
        lemma_unmarked_update(marked.drop_last(), i);
    }
}

/// What a sweep of the first `n` slots adds to the free list.
proof fn lemma_freed_ids(e: Entries, marked: Seq<bool>, n: nat)
    requires
        n <= e.len() <= usize::MAX,
        marked.len() == e.len(),
    ensures
        forall|k: int|
            0 <= k < freed_ids(e, marked, n).len() ==> (#[trigger] freed_ids(e, marked, n)[k]).0 < n
                && !marked[freed_ids(e, marked, n)[k].0 as int] && e[freed_ids(e, marked, n)[k].0 as int] is Some,
        forall|i: int|
            0 <= i < n && !(#[trigger] marked[i]) && e[i] is Some ==> freed_ids(e, marked, n).contains(
                HeapId(i as usize),
            ),
        freed_ids(e, marked, n).no_duplicates(),
    decreases n,
{
    if n > 0 {
        let m = (n - 1) as nat;
        lemma_freed_ids(e, marked, m);
        let rest = freed_ids(e, marked, m);
        let all = freed_ids(e, marked, n);
        assert forall|i: int| 0 <= i < n && !(#[trigger] marked[i]) && e[i] is Some implies all.contains(
            HeapId(i as usize),
        ) by {
            if i < m {
                let k = choose|k: int| 0 <= k < rest.len() && rest[k] == HeapId(i as usize);
                assert(all[k] == HeapId(i as usize));
            } else {
                assert(all[rest.len() as int] == HeapId(i as usize));
            }
        }
        assert forall|k: int| 0 <= k < all.len() implies (#[trigger] all[k]).0 < n && !marked[all[k].0 as int]
            && e[all[k].0 as int] is Some by {
            if k < rest.len() {
                assert(rest[k].0 < m);
            }
        }
        assert forall|a: int, b: int| 0 <= a < all.len() && 0 <= b < all.len() && a != b implies all[a] != all[b] by {
            if a < rest.len() {
                assert(rest[a].0 < m);
            }
            if b < rest.len() {
                assert(rest[b].0 < m);
            }
        }
    }
}

proof fn lemma_swept_wf(e: Entries, free: Seq<HeapId>, marked: Seq<bool>)
    requires
        counted(e),
        free_matches(e, free),
        marked.len() == e.len(),
        e.len() <= usize::MAX,
    ensures
        counted(swept(e, marked)),
        free_matches(swept(e, marked), free + freed_ids(e, marked, e.len())),
{
    lemma_freed_ids(e, marked, e.len());
    let ids = freed_ids(e, marked, e.len());
    let all = free + ids;
    let s = swept(e, marked);
    assert forall|k: int| 0 <= k < all.len() implies (#[trigger] all[k]).0 < s.len() && s[all[k].0 as int] is None by {
        if k < free.len() {
            assert(e[free[k].0 as int] is None);
        } else {
            assert(all[k] == ids[k - free.len()]);
        }
    }
    assert forall|i: int| 0 <= i < s.len() && (#[trigger] s[i]) is None implies all.contains(HeapId(i as usize)) by {
        if e[i] is None {
            let k = choose|k: int| 0 <= k < free.len() && free[k] == HeapId(i as usize);
            assert(all[k] == HeapId(i as usize));
        } else {
            assert(!marked[i]);
            let k = choose|k: int| 0 <= k < ids.len() && ids[k] == HeapId(i as usize);
            assert(all[free.len() + k] == HeapId(i as usize));
        }
    }
    assert forall|a: int, b: int| 0 <= a < all.len() && 0 <= b < all.len() && a != b implies all[a] != all[b] by {
        if a < free.len() {
            assert(e[free[a].0 as int] is None);
        } else {
            assert(all[a] == ids[a - free.len()]);
        }
        if b < free.len() {
            assert(e[free[b].0 as int] is None);
        } else {
            assert(all[b] == ids[b - free.len()]);
        }
    }
    assert forall|i: int| 0 <= i < s.len() implies (#[trigger] s[i] matches Some(v) ==> v.refcount >= 1) by {
        assert(e[i] matches Some(v) ==> v.refcount >= 1);
    }
}

/// A collection keeps what can be reached, unchanged, and frees everything else.
pub proof fn collection_keeps_what_is_reachable(e: Entries, roots: Seq<HeapId>, id: HeapId)
    requires
        id.0 < e.len(),
    ensures
        reachable(e, roots, id) ==> swept(e, marks(e, roots))[id.0 as int] == e[id.0 as int],
        !reachable(e, roots, id) ==> !live(swept(e, marks(e, roots)), id),
{
    assert(HeapId(id.0) == id);
}

/// Every root is reachable, the empty tuple is, and so is what a reachable entry refers to.
pub proof fn reachability_starts_at_roots(e: Entries, roots: Seq<HeapId>, from: HeapId, to: HeapId)
    ensures
        roots.contains(from) ==> reachable(e, roots, from),
        reachable(e, roots, HeapId(EMPTY_TUPLE_SLOT)),
        reachable(e, roots, from) && edge(e, from, to) ==> reachable(e, roots, to),
{
    assert(reached(e, roots, HeapId(EMPTY_TUPLE_SLOT), 0));
    if roots.contains(from) {
        assert(reached(e, roots, from, 0));
    }
    if reachable(e, roots, from) && edge(e, from, to) {
        lemma_reachable_edge(e, roots, from, to);
    }
}

} // verus!
