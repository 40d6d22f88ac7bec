//! Coroutines and futures.

use crate::intern::FunctionId;
use crate::value::{HeapId, Value, lemma_refs_push, refs};
use vstd::prelude::*;

verus! {

/// The number of a pending call to the host.
#[derive(Debug, Clone, Copy, PartialEq, Eq, Structural, Hash)]
pub struct CallId(pub u32);

/// A call of an async function that has not been awaited yet.
#[derive(Debug)]
pub struct Coroutine {
    pub func_id: FunctionId,
    /// The function's variables, with its arguments bound.
    pub namespace: Vec<Value>,
    /// The cells of captured variables.
    pub frame_cells: Vec<HeapId>,
}

impl Coroutine {
    /// Makes a coroutine.
    pub fn new(func_id: FunctionId, namespace: Vec<Value>, frame_cells: Vec<HeapId>) -> (r: Coroutine)
        ensures
            r.func_id == func_id,
            r.namespace == namespace,
            r.frame_cells == frame_cells,
    {
        Coroutine { func_id, namespace, frame_cells }
    }
}

/// One thing that a `gather()` waits for.
#[derive(Debug, Clone, Copy, PartialEq, Eq, Structural)]
pub enum GatherItem {
    /// A coroutine on the heap.
    Coroutine(HeapId),
    /// A pending call to the host.
    ExternalFuture(CallId),
}

/// The result of `asyncio.gather()`.
#[derive(Debug)]
pub struct GatherFuture {
    pub items: Vec<GatherItem>,
    /// What each item gave, once it is done.
    pub results: Vec<Option<Value>>,
    pub pending_calls: Vec<CallId>,
}

/// The coroutines among some items, in order.
pub open spec fn coroutine_ids(items: Seq<GatherItem>) -> Seq<HeapId>
    decreases items.len(),
{
    if items.len() == 0 {
        Seq::empty()
    } else {
        match items.last() {
            GatherItem::Coroutine(id) => coroutine_ids(items.drop_last()).push(id),
            _ => coroutine_ids(items.drop_last()),
        }
    }
}

/// The values among some optional values, in order.
pub open spec fn present(vs: Seq<Option<Value>>) -> Seq<Value>
    decreases vs.len(),
{
    if vs.len() == 0 {
        Seq::empty()
    } else {
        match vs.last() {
            Some(v) => present(vs.drop_last()).push(v),
            None => present(vs.drop_last()),
        }
    }
}

pub proof fn lemma_present_push(vs: Seq<Option<Value>>, v: Option<Value>)
    ensures
        present(vs.push(v)) == match v {
            Some(x) => present(vs).push(x),
            None => present(vs),
        },
{
    assert(vs.push(v).drop_last() =~= vs);
}

impl GatherFuture {
    /// Returns how many items there are.
    pub fn item_count(&self) -> (r: usize)
        ensures
            r == self.items@.len(),
    {
        self.items.len()
    }

    /// Appends the ids of the coroutines to a work list.
    pub fn push_coroutines(&self, stack: &mut Vec<HeapId>)
        ensures
            final(stack)@ == old(stack)@ + coroutine_ids(self.items@),
    {
        let mut i: usize = 0;
        proof {
            assert(self.items@.take(0) =~= Seq::empty());
            assert(stack@ =~= old(stack)@ + coroutine_ids(self.items@.take(0)));
        }
        while i < self.items.len()
            invariant
                i <= self.items@.len(),
                stack@ == old(stack)@ + coroutine_ids(self.items@.take(i as int)),
            decreases self.items.len() - i,
        {
            proof {
                assert(self.items@.take(i + 1).drop_last() =~= self.items@.take(i as int));
            }
            if let GatherItem::Coroutine(id) = self.items[i] {
                stack.push(id);
            }
            proof {
                assert(stack@ =~= old(stack)@ + coroutine_ids(self.items@.take(i + 1)));
            }
            i = i + 1;
        }
        proof {
            assert(self.items@.take(self.items@.len() as int) =~= self.items@);
        }
    }

    /// Appends the heap references among the results to a work list.
    pub fn push_result_refs(&self, stack: &mut Vec<HeapId>)
        ensures
            final(stack)@ == old(stack)@ + refs(present(self.results@)),
    {
        let mut i: usize = 0;
        proof {
            assert(self.results@.take(0) =~= Seq::empty());
            assert(stack@ =~= old(stack)@ + refs(present(self.results@.take(0))));
        }
        while i < self.results.len()
            invariant
                i <= self.results@.len(),
                stack@ == old(stack)@ + refs(present(self.results@.take(i as int))),
            decreases self.results.len() - i,
        {
            let r: Option<Value> = self.results[i];
            proof {
                let head = self.results@.take(i as int);
                assert(self.results@.take(i + 1) =~= head.push(r));
                lemma_present_push(head, r);
                if let Some(v) = r {
                    lemma_refs_push(present(head), v);
                }
            }
            if let Some(Value::Ref(id)) = r {
                stack.push(id);
            }
            proof {
                assert(stack@ =~= old(stack)@ + refs(present(self.results@.take(i + 1))));
            }
            i = i + 1;
        }
        proof {
            assert(self.results@.take(self.results@.len() as int) =~= self.results@);
        }
    }
}

} // verus!
