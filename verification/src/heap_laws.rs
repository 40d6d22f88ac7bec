//! What one heap operation undoes of another.

use crate::heap::{HeapModel, fresh, one_more};
use crate::heap_data::{HeapData, child_ids};
use crate::heap_model::{Entries, Released, data_at, live, one_less, readable, release, sizes_after, work_after};
use crate::resource::ResourceTracker;
use crate::value::HeapId;
use vstd::prelude::*;

verus! {

/// Giving up a reference undoes counting it.
pub proof fn counting_is_undone(e: Entries, free: Seq<HeapId>, sizes: Seq<usize>, id: HeapId)
    requires
        live(e, id),
        1 <= e[id.0 as int]->0.refcount < usize::MAX,
    ensures
        release(one_more(e, id), free, sizes, seq![id]) == (Released { entries: e, free, sizes, ok: true }),
{
    let more = one_more(e, id);
    let work = seq![id];
    assert(work.drop_last() =~= Seq::<HeapId>::empty());
    assert(release(e, free, sizes, Seq::empty()) == (Released { entries: e, free, sizes, ok: true }));
    let v = more[id.0 as int]->0;
    assert(more.update(id.0 as int, Some(one_less(v))) =~= e);
}

/// Putting a payload back undoes lending it out.
pub proof fn lending_is_undone<T: ResourceTracker>(m: HeapModel<T>, id: HeapId)
    requires
        readable(m.entries, id),
    ensures
        m.without_data(id).with_data(id, data_at(m.entries, id)) == m,
{
    assert(m.without_data(id).with_data(id, data_at(m.entries, id)).entries =~= m.entries);
}

/// An allocation takes the slot that was freed last, so a heap that frees as much as it
/// allocates does not grow.
pub proof fn freed_slots_are_used_again<T: ResourceTracker>(m: HeapModel<T>, data: HeapData, tracker: T)
    requires
        m.wf(),
        m.free.len() > 0,
    ensures
        m.next_id() == m.free.last(),
        m.with_new(data, tracker).entries.len() == m.entries.len(),
        m.with_new(data, tracker).free == m.free.drop_last(),
{
}

/// Giving up an entry that holds no references undoes its allocation, but that its slot
/// stays, free for the next one.
pub proof fn allocation_is_undone<T: ResourceTracker>(m: HeapModel<T>, data: HeapData, tracker: T)
    requires
        m.wf(),
        m.entries.len() < usize::MAX,
        child_ids(data).len() == 0,
    ensures
        ({
            let with = m.with_new(data, tracker);
            let after = release(with.entries, with.free, Seq::empty(), seq![m.next_id()]);
            &&& after.ok
            &&& after.free == (if m.free.len() > 0 {
                m.free
            } else {
                m.free.push(m.next_id())
            })
            &&& after.entries == (if m.free.len() > 0 {
                m.entries
            } else {
                m.entries.push(None)
            })
        }),
{
    let with = m.with_new(data, tracker);
    let id = m.next_id();
    let i = id.0 as int;
    let work = seq![id];
    let none = Seq::<HeapId>::empty();
    if m.free.len() > 0 {
        assert(m.entries[m.free[m.free.len() - 1].0 as int] is None);
        assert(with.free.push(id) =~= m.free);
        assert(with.entries.update(i, None) =~= m.entries);
    } else {
        assert(with.entries.update(i, None) =~= m.entries.push(None));
    }
    assert(with.entries[i] == Some(fresh(data)));
    assert(live(with.entries, id));
    assert(work.drop_last() =~= none);
    assert(work_after(none, fresh(data)) =~= none);
    let sizes = sizes_after(Seq::empty(), fresh(data));
    assert(release(with.entries.update(i, None), with.free.push(id), sizes, none) == (Released {
        entries: with.entries.update(i, None),
        free: with.free.push(id),
        sizes,
        ok: true,
    }));
}

} // verus!
