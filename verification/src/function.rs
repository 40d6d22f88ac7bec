//! Compiled functions and their parameters.

use crate::intern::StringId;
use vstd::prelude::*;

verus! {

/// Copies a vector of plain values.
pub fn copy_vec<T: Copy>(v: &[T]) -> (r: Vec<T>)
    ensures
        r@ == v@,
{
    let mut r: Vec<T> = Vec::with_capacity(v.len());
    let mut i: usize = 0;
    while i < v.len()
        invariant
            i <= v.len(),
            r@ == v@.take(i as int),
        decreases v.len() - i,
    {
        r.push(v[i]);
        i = i + 1;
        proof {
            assert(r@ =~= v@.take(i as int));
        }
    }
    proof {
        assert(v@.take(v@.len() as int) =~= v@);
    }
    r
}

/// The name of a function.
#[derive(Debug, Clone, Copy, PartialEq, Eq, Structural)]
pub struct Identifier {
    pub name_id: StringId,
}

/// The parameters of a function: each can be given by position or by name, and
/// the last of them may have defaults.
#[derive(Debug)]
pub struct Signature {
    pub params: Vec<StringId>,
}

impl Signature {
    /// Returns how many namespace slots the parameters take.
    pub fn total_slots(&self) -> (r: usize)
        ensures
            r == self.params@.len(),
    {
        self.params.len()
    }
}

/// A compiled function.
#[derive(Debug)]
pub struct Function {
    pub name: Identifier,
    pub signature: Signature,
    /// How many slots the function's namespace has.
    pub namespace_size: usize,
    /// How many of the function's own variables inner functions capture.
    pub cell_var_count: usize,
    /// For each captured variable, the parameter that it starts from, if any.
    pub cell_param_indices: Vec<Option<usize>>,
    /// Does a call create a coroutine?
    pub is_async: bool,
    /// The function's bytecode.
    pub code: Vec<u8>,
}

/// The contents of a [`Function`].
#[verifier::ext_equal]
pub struct FunctionView {
    pub name: Identifier,
    pub params: Seq<StringId>,
    pub namespace_size: usize,
    pub cell_var_count: usize,
    pub cell_param_indices: Seq<Option<usize>>,
    pub is_async: bool,
    pub code: Seq<u8>,
}

impl View for Function {
    type V = FunctionView;

    open spec fn view(&self) -> FunctionView {
        FunctionView {
            name: self.name,
            params: self.signature.params@,
            namespace_size: self.namespace_size,
            cell_var_count: self.cell_var_count,
            cell_param_indices: self.cell_param_indices@,
            is_async: self.is_async,
            code: self.code@,
        }
    }
}

impl FunctionView {
    /// Is the namespace layout consistent?
    ///
    /// Parameters come first, then the cells of captured variables, then other
    /// variables; a cell starts from a parameter or from nothing.
    pub open spec fn wf(self) -> bool {
        &&& self.cell_param_indices.len() == self.cell_var_count
        &&& self.params.len() + self.cell_var_count <= self.namespace_size
        &&& forall|i: int|
            0 <= i < self.cell_param_indices.len() ==> (#[trigger] self.cell_param_indices[i] matches Some(p)
                ==> p < self.params.len())
    }
}

impl Function {
    /// Returns a copy of the function.
    pub fn duplicate(&self) -> (r: Function)
        ensures
            r@ == self@,
    {
        Function {
            name: self.name,
            signature: Signature { params: copy_vec(&self.signature.params) },
            namespace_size: self.namespace_size,
            cell_var_count: self.cell_var_count,
            cell_param_indices: copy_vec(&self.cell_param_indices),
            is_async: self.is_async,
            code: copy_vec(&self.code),
        }
    }
}

/// The contents of some functions.
pub open spec fn function_views(fs: Seq<Function>) -> Seq<FunctionView> {
    fs.map_values(|f: Function| f@)
}

/// Returns copies of some functions.
pub fn duplicate_functions(fs: &Vec<Function>) -> (r: Vec<Function>)
    ensures
        function_views(r@) == function_views(fs@),
{
    let mut r: Vec<Function> = Vec::with_capacity(fs.len());
    let mut i: usize = 0;
    while i < fs.len()
        invariant
            i <= fs.len(),
            r@.len() == i,
            forall|j: int| 0 <= j < i ==> (#[trigger] r@[j])@ == fs@[j]@,
        decreases fs.len() - i,
    {
        r.push(fs[i].duplicate());
        i = i + 1;
    }
    proof {
        assert(function_views(r@) =~= function_views(fs@));
    }
    r
}

} // verus!
