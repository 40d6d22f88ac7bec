//! The virtual machine: its stack, namespaces and frames.

use crate::args::owns;
use crate::equality::{Scene, scene};
use crate::heap::{Heap, HeapModel, deeper};
use crate::intern::{FunctionId, Interns};
use crate::resource::{ResourceError, ResourceTracker};
use crate::value::{HeapId, Value, refs};
use vstd::prelude::*;

pub mod call;
pub mod call_args;
pub mod cells;
pub mod exec;
pub mod frames;
pub mod opcodes;

verus! {

/// A function call that is running.
#[derive(Debug)]
pub struct CallFrame {
    /// The function, or `None` for the module itself.
    pub function: Option<FunctionId>,
    /// The namespace that holds the function's variables.
    pub namespace_idx: usize,
    /// The cells of captured variables: those that the function made, then those
    /// that it got.
    pub cells: Vec<HeapId>,
    /// How high the stack was when the frame was pushed.
    pub stack_base: usize,
    /// Where the caller stood, or `None` for the module itself.
    pub call_position: Option<usize>,
    /// The position of the instruction that is running.
    pub position: usize,
    /// Does the run loop stop when this frame returns?
    pub should_return: bool,
}

/// The contents of a [`CallFrame`].
#[verifier::ext_equal]
pub struct FrameView {
    pub function: Option<FunctionId>,
    pub namespace_idx: usize,
    pub cells: Seq<HeapId>,
    pub stack_base: usize,
    pub call_position: Option<usize>,
    pub position: usize,
    pub should_return: bool,
}

impl View for CallFrame {
    type V = FrameView;

    open spec fn view(&self) -> FrameView {
        FrameView {
            function: self.function,
            namespace_idx: self.namespace_idx,
            cells: self.cells@,
            stack_base: self.stack_base,
            call_position: self.call_position,
            position: self.position,
            should_return: self.should_return,
        }
    }
}

impl CallFrame {
    /// Makes the frame of a function call.
    pub fn new_function(
        stack_base: usize,
        namespace_idx: usize,
        function: FunctionId,
        cells: Vec<HeapId>,
        call_position: Option<usize>,
    ) -> (r: CallFrame)
        ensures
            r@ == (FrameView {
                function: Some(function),
                namespace_idx,
                cells: cells@,
                stack_base,
                call_position,
                position: 0,
                should_return: false,
            }),
    {
        CallFrame {
            function: Some(function),
            namespace_idx,
            cells,
            stack_base,
            call_position,
            position: 0,
            should_return: false,
        }
    }
}

/// The contents of some frames.
pub open spec fn frame_views(frames: Seq<CallFrame>) -> Seq<FrameView> {
    frames.map_values(|f: CallFrame| f@)
}

/// The variables of all running functions, innermost last.
#[derive(Debug)]
pub struct Namespaces {
    pub spaces: Vec<Vec<Value>>,
}

impl View for Namespaces {
    type V = Seq<Seq<Value>>;

    open spec fn view(&self) -> Seq<Seq<Value>> {
        self.spaces@.map_values(|ns: Vec<Value>| ns@)
    }
}

impl Namespaces {
    /// Adds an empty namespace, one level of recursion deeper.
    ///
    /// Returns the tracker's error if the recursion would be too deep.
    pub fn new_namespace<T: ResourceTracker>(&mut self, namespace_size: usize, heap: &mut Heap<T>) -> (r: Result<
        usize,
        ResourceError,
    >)
        ensures
            match r {
                Ok(index) => {
                    &&& deeper(old(heap)@.tracker, old(heap)@.recursion_depth) is Ok
                    &&& index == old(self)@.len()
                    &&& final(self)@ == old(self)@.push(Seq::empty())
                    &&& final(heap)@ == (HeapModel {
                        recursion_depth: (old(heap)@.recursion_depth + 1) as usize,
                        ..old(heap)@
                    })
                },
                Err(e) => {
                    &&& deeper(old(heap)@.tracker, old(heap)@.recursion_depth) == Err::<(), ResourceError>(e)
                    &&& final(self)@ == old(self)@
                    &&& final(heap)@ == old(heap)@
                },
            },
    {
        match heap.incr_recursion_depth() {
            Ok(_) => {},
            Err(e) => {
                return Err(e);
            },
        }
        let index: usize = self.spaces.len();
        let ns: Vec<Value> = Vec::with_capacity(namespace_size);
        let ghost empty = ns;
        self.spaces.push(ns);
        proof {
            assert(empty@ =~= Seq::empty());
            assert(self@ =~= old(self)@.push(Seq::empty()));
        }
        Ok(index)
    }

    /// Sets the variables of the innermost namespace.
    pub fn set_last(&mut self, ns: Vec<Value>)
        requires
            old(self)@.len() > 0,
        ensures
            final(self)@ == old(self)@.update(old(self)@.len() - 1, ns@),
    {
        let last: usize = self.spaces.len() - 1;
        let ghost variables = ns@;
        self.spaces.set(last, ns);
        proof {
            assert(self@ =~= old(self)@.update(old(self)@.len() - 1, variables));
        }
    }

    /// Removes the innermost namespace, and gives up its variables and its level of
    /// recursion.
    pub fn drop_with_heap<T: ResourceTracker>(&mut self, heap: &mut Heap<T>)
        requires
            old(self)@.len() > 0,
            old(heap)@.wf(),
            old(heap)@.recursion_depth > 0,
            owns(old(heap)@.entries, old(self)@.last()),
        ensures
            final(self)@ == old(self)@.drop_last(),
            (HeapModel { recursion_depth: (old(heap)@.recursion_depth - 1) as usize, ..old(heap)@ }).gave_up(
                final(heap)@,
                refs(old(self)@.last()),
            ),
    {
        heap.decr_recursion_depth();
        match self.spaces.pop() {
            Some(ns) => {
                proof {
                    assert(ns@ == old(self)@.last());
                    assert(self@ =~= old(self)@.drop_last());
                }
                heap.discard_all(ns.as_slice());
            },
            None => vstd::pervasive::unreached(),
        }
    }
}

/// The virtual machine.
pub struct VM<T: ResourceTracker> {
    pub heap: Heap<T>,
    pub interns: Interns,
    pub namespaces: Namespaces,
    pub stack: Vec<Value>,
    pub frames: Vec<CallFrame>,
}

/// The state of a [`VM`].
#[verifier::ext_equal]
pub struct VmModel<T> {
    pub heap: HeapModel<T>,
    pub interns: Interns,
    pub namespaces: Seq<Seq<Value>>,
    pub stack: Seq<Value>,
    pub frames: Seq<FrameView>,
}

impl<T: ResourceTracker> View for VM<T> {
    type V = VmModel<T>;

    open spec fn view(&self) -> VmModel<T> {
        VmModel {
            heap: self.heap@,
            interns: self.interns,
            namespaces: self.namespaces@,
            stack: self.stack@,
            frames: frame_views(self.frames@),
        }
    }
}

impl<T: ResourceTracker> VmModel<T> {
    /// What comparisons and lookups see.
    pub open spec fn scene(self) -> Scene<T> {
        scene(self.heap, self.interns)
    }

    /// The machine with another heap.
    pub open spec fn with_heap(self, heap: HeapModel<T>) -> VmModel<T> {
        VmModel { heap, ..self }
    }

    /// The machine with another stack.
    pub open spec fn with_stack(self, stack: Seq<Value>) -> VmModel<T> {
        VmModel { stack, ..self }
    }

    /// Is the heap in order, and does it count what the stack holds?
    pub open spec fn wf(self) -> bool {
        &&& self.heap.wf()
        &&& owns(self.heap.entries, self.stack)
    }
}

impl<T: ResourceTracker> VM<T> {
    /// Pushes a value onto the stack.
    pub fn push(&mut self, v: Value)
        ensures
            final(self)@ == old(self)@.with_stack(old(self)@.stack.push(v)),
    {
        self.stack.push(v);
    }

    /// Pops a value from the stack.
    pub fn pop(&mut self) -> (r: Value)
        requires
            old(self)@.stack.len() > 0,
        ensures
            r == old(self)@.stack.last(),
            final(self)@ == old(self)@.with_stack(old(self)@.stack.drop_last()),
    {
        match self.stack.pop() {
            Some(v) => v,
            None => vstd::pervasive::unreached(),
        }
    }

    /// Pops the topmost `n` values from the stack; the topmost one comes last.
    pub fn pop_n(&mut self, n: usize) -> (r: Vec<Value>)
        requires
            n <= old(self)@.stack.len(),
        ensures
            r@ == old(self)@.stack.skip(old(self)@.stack.len() - n),
            final(self)@ == old(self)@.with_stack(old(self)@.stack.take(old(self)@.stack.len() - n)),
    {
        let at: usize = self.stack.len() - n;
        let r: Vec<Value> = self.stack.split_off(at);
        proof {
            assert(r@ =~= old(self)@.stack.skip(at as int));
            assert(self@.stack =~= old(self)@.stack.take(at as int));
        }
        r
    }

    /// Pushes a frame.
    pub fn push_frame(&mut self, frame: CallFrame)
        ensures
            final(self)@ == (VmModel { frames: old(self)@.frames.push(frame@), ..old(self)@ }),
    {
        let ghost pushed = frame@;
        self.frames.push(frame);
        proof {
            assert(self@.frames =~= old(self)@.frames.push(pushed));
        }
    }

    /// Returns the position of the instruction that is running.
    pub fn current_position(&self) -> (r: usize)
        requires
            self@.frames.len() > 0,
        ensures
            r == self@.frames.last().position,
    {
        self.frames[self.frames.len() - 1].position
    }

    /// Makes the run loop stop when the innermost frame returns.
    pub fn mark_exit(&mut self)
        requires
            old(self)@.frames.len() > 0,
        ensures
            final(self)@ == (VmModel {
                frames: old(self)@.frames.update(
                    old(self)@.frames.len() - 1,
                    (FrameView { should_return: true, ..old(self)@.frames.last() }),
                ),
                ..old(self)@
            }),
    {
        let ghost before = self.frames@;
        match self.frames.pop() {
            Some(frame) => {
                let marked: CallFrame = CallFrame {
                    function: frame.function,
                    namespace_idx: frame.namespace_idx,
                    cells: frame.cells,
                    stack_base: frame.stack_base,
                    call_position: frame.call_position,
                    position: frame.position,
                    should_return: true,
                };
                self.frames.push(marked);
            },
            None => vstd::pervasive::unreached(),
        }
        proof {
            assert(frame_views(before).last() == before.last()@);
            assert(self@.frames =~= old(self)@.frames.update(
                old(self)@.frames.len() - 1,
                FrameView { should_return: true, ..old(self)@.frames.last() },
            ));
        }
    }
}

} // verus!
