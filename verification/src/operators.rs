//! Operators, subscripts and attributes of heap values.
//!
//! Long integers, modules and the methods of dataclasses are handled here. For the
//! other types this module decides which of them an operation belongs to.

use crate::args::{ArgValues, gives_back, lemma_given_back, lemma_owned_sound, owns, spares_others};
use crate::equality::scene;
use crate::exceptions::{ErrorView, RunError};
use crate::hash::{has_name, name_text};
use crate::heap::{Heap, HeapModel};
use crate::heap_arith::makes_int;
use crate::heap_data::{HeapData, HeapDataMut, HeapDataRef};
use crate::heap_model::{data_at, readable, sound};
use crate::intern::Interns;
use crate::modules::ModuleFunctions;
use crate::resource::{ResourceError, ResourceTracker};
use crate::types::Type;
use crate::types::long_int::{LongInt, floor_mod};
use crate::types::lookup::{keys_legible, value_of};
use crate::types::module::{Module, balances, call_found};
use crate::types::py_trait::{AttrCallResult, NativeCall};
use crate::value::{EitherStr, HeapId, Value, refs, same_name};
use vstd::prelude::*;

verus! {

/// What an operation comes to: a result, or work for the implementation of a type.
#[derive(Debug)]
pub enum Dispatch<A> {
    /// The operation is done.
    Done(A),
    /// The type carries the operation out.
    Delegate(Type),
}

/// The type of two payloads of one kind that the type itself adds or takes modulo.
pub open spec fn shared_type(a: HeapData, b: HeapData) -> Option<Type> {
    match (a, b) {
        (HeapData::Str(_), HeapData::Str(_)) => Some(Type::Str),
        (HeapData::Bytes(_), HeapData::Bytes(_)) => Some(Type::Bytes),
        (HeapData::List(_), HeapData::List(_)) => Some(Type::List),
        (HeapData::Tuple(_), HeapData::Tuple(_)) => Some(Type::Tuple),
        (HeapData::Dict(_), HeapData::Dict(_)) => Some(Type::Dict),
        _ => None,
    }
}

/// The type of two payloads of one kind that the type itself subtracts.
pub open spec fn subtracting_type(a: HeapData, b: HeapData) -> Option<Type> {
    match (a, b) {
        (HeapData::PySet(_), HeapData::PySet(_)) => Some(Type::PySet),
        (HeapData::FrozenSet(_), HeapData::FrozenSet(_)) => Some(Type::FrozenSet),
        _ => shared_type(a, b),
    }
}

/// Is the operation handed to the type, or declined where there is none?
pub open spec fn handed_on<A, E>(of: Option<Type>, declined: A, r: Result<Dispatch<A>, E>) -> bool {
    match of {
        Some(t) => r == Ok::<Dispatch<A>, E>(Dispatch::Delegate(t)),
        None => r == Ok::<Dispatch<A>, E>(Dispatch::Done(declined)),
    }
}

/// May the integer `n` be handed out as `r`, with the heap turned into `after`?
pub open spec fn gives_int<T: ResourceTracker>(
    before: HeapModel<T>,
    after: HeapModel<T>,
    n: int,
    r: Result<Dispatch<Option<Value>>, ResourceError>,
) -> bool {
    match r {
        Ok(Dispatch::Done(Some(v))) => makes_int(before, after, n, Ok(v)),
        Ok(_) => false,
        Err(e) => makes_int(before, after, n, Err(e)),
    }
}

/// May adding one payload to another turn the heap into `after` and give `r`?
pub open spec fn adds<T: ResourceTracker>(
    before: HeapModel<T>,
    after: HeapModel<T>,
    a: HeapData,
    b: HeapData,
    r: Result<Dispatch<Option<Value>>, ResourceError>,
) -> bool {
    match (a, b) {
        (HeapData::LongInt(x), HeapData::LongInt(y)) => gives_int(before, after, x@ + y@, r),
        _ => handed_on(shared_type(a, b), None, r) && after == before,
    }
}

/// May subtracting one payload from another turn the heap into `after` and give `r`?
pub open spec fn subtracts<T: ResourceTracker>(
    before: HeapModel<T>,
    after: HeapModel<T>,
    a: HeapData,
    b: HeapData,
    r: Result<Dispatch<Option<Value>>, ResourceError>,
) -> bool {
    match (a, b) {
        (HeapData::LongInt(x), HeapData::LongInt(y)) => gives_int(before, after, x@ - y@, r),
        _ => handed_on(subtracting_type(a, b), None, r) && after == before,
    }
}

/// May taking one payload modulo another turn the heap into `after` and give `r`?
pub open spec fn takes_modulo<T: ResourceTracker>(
    before: HeapModel<T>,
    after: HeapModel<T>,
    a: HeapData,
    b: HeapData,
    r: Result<Dispatch<Option<Value>>, RunError>,
) -> bool {
    match (a, b) {
        (HeapData::LongInt(x), HeapData::LongInt(y)) => if y@ == 0 {
            r == Err::<Dispatch<Option<Value>>, RunError>(RunError::ZeroDivision) && after == before
        } else {
            match r {
                Ok(d) => gives_int(before, after, floor_mod(x@, y@), Ok(d)),
                Err(RunError::Resource(e)) => gives_int(before, after, floor_mod(x@, y@), Err(e)),
                Err(_) => false,
            }
        },
        _ => handed_on(shared_type(a, b), None, r) && after == before,
    }
}

/// Hands out an integer.
fn give_int<T: ResourceTracker>(n: LongInt, heap: &mut Heap<T>) -> (r: Result<Dispatch<Option<Value>>, ResourceError>)
    requires
        old(heap)@.wf(),
        old(heap)@.entries.len() < usize::MAX,
    ensures
        final(heap)@.wf(),
        gives_int(old(heap)@, final(heap)@, n@, r),
{
    match n.into_value(heap) {
        Ok(v) => Ok(Dispatch::Done(Some(v))),
        Err(e) => Err(e),
    }
}

impl<'a> HeapDataRef<'a> {
    /// Returns the type of two payloads that the type itself adds.
    fn find_shared_type(self, other: HeapDataRef<'_>) -> (r: Option<Type>)
        ensures
            r == shared_type(self.data(), other.data()),
    {
        match (self, other) {
            (HeapDataRef::Str(_), HeapDataRef::Str(_)) => Some(Type::Str),
            (HeapDataRef::Bytes(_), HeapDataRef::Bytes(_)) => Some(Type::Bytes),
            (HeapDataRef::List(_), HeapDataRef::List(_)) => Some(Type::List),
            (HeapDataRef::Tuple(_), HeapDataRef::Tuple(_)) => Some(Type::Tuple),
            (HeapDataRef::Dict(_), HeapDataRef::Dict(_)) => Some(Type::Dict),
            _ => None,
        }
    }

    /// Returns the type of two payloads that the type itself subtracts.
    fn find_subtracting_type(self, other: HeapDataRef<'_>) -> (r: Option<Type>)
        ensures
            r == subtracting_type(self.data(), other.data()),
    {
        match (self, other) {
            (HeapDataRef::PySet(_), HeapDataRef::PySet(_)) => Some(Type::PySet),
            (HeapDataRef::FrozenSet(_), HeapDataRef::FrozenSet(_)) => Some(Type::FrozenSet),
            _ => self.find_shared_type(other),
        }
    }

    /// Adds two payloads.
    pub fn py_add<T: ResourceTracker>(self, other: HeapDataRef<'_>, heap: &mut Heap<T>) -> (r: Result<
        Dispatch<Option<Value>>,
        ResourceError,
    >)
        requires
            old(heap)@.wf(),
            old(heap)@.entries.len() < usize::MAX,
        ensures
            final(heap)@.wf(),
            adds(old(heap)@, final(heap)@, self.data(), other.data(), r),
    {
        if let (HeapDataRef::LongInt(a), HeapDataRef::LongInt(b)) = (self, other) {
            return give_int(a.plus(b), heap);
        }
        match self.find_shared_type(other) {
            Some(t) => Ok(Dispatch::Delegate(t)),
            // Cells and Dataclasses don't support arithmetic operations
            None => Ok(Dispatch::Done(None)),
        }
    }

    /// Subtracts one payload from another.
    pub fn py_sub<T: ResourceTracker>(self, other: HeapDataRef<'_>, heap: &mut Heap<T>) -> (r: Result<
        Dispatch<Option<Value>>,
        ResourceError,
    >)
        requires
            old(heap)@.wf(),
            old(heap)@.entries.len() < usize::MAX,
        ensures
            final(heap)@.wf(),
            subtracts(old(heap)@, final(heap)@, self.data(), other.data(), r),
    {
        if let (HeapDataRef::LongInt(a), HeapDataRef::LongInt(b)) = (self, other) {
            return give_int(a.minus(b), heap);
        }
        match self.find_subtracting_type(other) {
            Some(t) => Ok(Dispatch::Delegate(t)),
            // Cells don't support arithmetic operations
            None => Ok(Dispatch::Done(None)),
        }
    }

    /// Takes one payload modulo another; the result has the sign of the divisor.
    pub fn py_mod<T: ResourceTracker>(self, other: HeapDataRef<'_>, heap: &mut Heap<T>) -> (r: Result<
        Dispatch<Option<Value>>,
        RunError,
    >)
        requires
            old(heap)@.wf(),
            old(heap)@.entries.len() < usize::MAX,
        ensures
            final(heap)@.wf(),
            takes_modulo(old(heap)@, final(heap)@, self.data(), other.data(), r),
    {
        if let (HeapDataRef::LongInt(a), HeapDataRef::LongInt(b)) = (self, other) {
            if b.is_zero() {
                return Err(RunError::ZeroDivision);
            }
            return match give_int(a.modulo(b), heap) {
                Ok(d) => Ok(d),
                Err(e) => Err(RunError::Resource(e)),
            };
        }
        match self.find_shared_type(other) {
            Some(t) => Ok(Dispatch::Delegate(t)),
            // Cells don't support arithmetic operations
            None => Ok(Dispatch::Done(None)),
        }
    }

    /// Compares one payload modulo another with a number.
    pub fn py_mod_eq(self, other: HeapDataRef<'_>) -> (r: Dispatch<Option<bool>>)
        ensures
            match shared_type(self.data(), other.data()) {
                Some(t) => r == Dispatch::<Option<bool>>::Delegate(t),
                None => r == Dispatch::<Option<bool>>::Done(None),
            },
    {
        match self.find_shared_type(other) {
            Some(t) => Dispatch::Delegate(t),
            // Cells don't support arithmetic operations
            None => Dispatch::Done(None),
        }
    }
}

// ---------------------------------------------------------------------------
// Subscripts
// ---------------------------------------------------------------------------

/// Can the payload be subscripted?
pub open spec fn subscriptable(data: HeapData) -> bool {
    data is Str || data is Bytes || data is List || data is Tuple || data is NamedTuple || data is Dict || data is Range
}

/// Can items of the payload be set?
pub open spec fn item_assignable(data: HeapData) -> bool {
    data is Str || data is Bytes || data is List || data is Tuple || data is Dict
}

/// Has the payload attributes of its own?
pub open spec fn has_attributes(data: HeapData) -> bool {
    data is Dataclass || data is Class || data is NamedTuple || data is Slice || data is Exception || data is Path
        || data is RePattern || data is ReMatch
}

/// Has the payload methods?
pub open spec fn has_methods(data: HeapData) -> bool {
    data is Str || data is Bytes || data is List || data is Tuple || data is Dict || data is PySet || data is FrozenSet
        || data is Dataclass || data is Path || data is Class || data is RePattern || data is ReMatch
}

/// May reading an attribute turn the heap into `after` and give `r`?
pub open spec fn reads_attr<T: ResourceTracker>(
    interns: &Interns,
    before: HeapModel<T>,
    after: HeapModel<T>,
    data: HeapData,
    attr: EitherStr,
    r: Dispatch<Option<AttrCallResult>>,
) -> bool {
    match data {
        HeapData::Module(m) => r matches Dispatch::Done(found) && m.gets_attr(
            scene(before, *interns),
            before,
            after,
            attr,
            found,
        ),
        _ => after == before && if has_attributes(data) {
            r == Dispatch::<Option<AttrCallResult>>::Delegate(data.spec_type())
        } else {
            r == Dispatch::<Option<AttrCallResult>>::Done(None)
        },
    }
}

/// Can an attribute of a module be called with these arguments?
pub open spec fn calls_ready<T: ResourceTracker>(
    interns: &Interns,
    heap: HeapModel<T>,
    m: Module,
    attr: EitherStr,
    args: ArgValues,
) -> bool {
    let s = scene(heap, *interns);
    &&& interns.has_str(m.name)
    &&& keys_legible(s, m.attrs.entries@)
    &&& m.function_of(s, attr) matches Ok(mf) ==> mf.callable(s, heap, args)
}

/// Can an attribute of a payload be called with these arguments?
pub open spec fn payload_ready<T: ResourceTracker>(
    interns: &Interns,
    heap: HeapModel<T>,
    data: HeapData,
    attr: EitherStr,
    args: ArgValues,
) -> bool {
    match data {
        HeapData::Module(m) => calls_ready(interns, heap, m, attr, args),
        HeapData::Dataclass(dc) => keys_legible(scene(heap, *interns), dc.attrs.entries@),
        _ => true,
    }
}

/// May calling an attribute turn the heap into `after` and give `r`?
pub open spec fn calls_payload<T: ResourceTracker>(
    interns: &Interns,
    before: HeapModel<T>,
    after: HeapModel<T>,
    data: HeapData,
    self_id: HeapId,
    attr: EitherStr,
    args: ArgValues,
    r: Result<AttrCallResult, RunError>,
) -> bool {
    match data {
        HeapData::Module(m) => {
            &&& m.calls_attr(scene(before, *interns), before, after, attr, args, r)
            &&& balances(before, after, args.values(), r)
        },
        _ => answers_call(interns, before, after, data, self_id, attr, args, r),
    }
}

impl<'a> HeapDataRef<'a> {
    /// Returns the type that looks up `self[key]`.
    fn find_getitem(self, with_matches: bool) -> (r: Result<Type, RunError>)
        ensures
            if subscriptable(self.data()) || with_matches && self.data() is ReMatch {
                r == Ok::<Type, RunError>(self.data().spec_type())
            } else {
                r matches Err(e) && e@ == ErrorView::NotSubscriptable(self.data().spec_type())
            },
    {
        match self {
            HeapDataRef::Str(_) | HeapDataRef::Bytes(_) | HeapDataRef::List(_) | HeapDataRef::Tuple(_)
                | HeapDataRef::NamedTuple(_) | HeapDataRef::Dict(_) | HeapDataRef::Range(_) => Ok(self.py_type()),
            HeapDataRef::ReMatch(_) => {
                if with_matches {
                    Ok(self.py_type())
                } else {
                    Err(RunError::NotSubscriptable(self.py_type()))
                }
            },
            _ => Err(RunError::NotSubscriptable(self.py_type())),
        }
    }

    /// Returns the type that carries out `self[key] = value`.
    pub fn py_setitem(self) -> (r: Result<Type, RunError>)
        ensures
            if item_assignable(self.data()) {
                r == Ok::<Type, RunError>(self.data().spec_type())
            } else {
                r matches Err(e) && e@ == ErrorView::NoItemAssignment(self.data().spec_type())
            },
    {
        match self {
            HeapDataRef::Str(_) | HeapDataRef::Bytes(_) | HeapDataRef::List(_) | HeapDataRef::Tuple(_)
                | HeapDataRef::Dict(_) => Ok(self.py_type()),
            _ => Err(RunError::NoItemAssignment(self.py_type())),
        }
    }

    /// Reads an attribute.
    pub fn py_getattr<T: ResourceTracker>(self, attr: &EitherStr, heap: &mut Heap<T>, interns: &Interns) -> (r:
        Dispatch<Option<AttrCallResult>>)
        requires
            old(heap)@.wf(),
            old(heap)@.room(1),
            has_name(interns.tables(), *attr),
            self.data() matches HeapData::Module(m) ==> m.attr_ready(scene(old(heap)@, *interns), *attr),
        ensures
            final(heap)@.wf(),
            reads_attr(interns, old(heap)@, final(heap)@, self.data(), *attr, r),
    {
        match self {
            HeapDataRef::Module(m) => Dispatch::Done(m.py_getattr(attr, heap, interns)),
            HeapDataRef::Dataclass(_) | HeapDataRef::Class(_) | HeapDataRef::NamedTuple(_) | HeapDataRef::Slice(_)
                | HeapDataRef::Exception(_) | HeapDataRef::Path(_) | HeapDataRef::RePattern(_)
                | HeapDataRef::ReMatch(_) => Dispatch::Delegate(self.py_type()),
            // All other types don't support attribute access via py_getattr
            _ => Dispatch::Done(None),
        }
    }

    /// Returns whether the payload has methods.
    fn lists_methods(self) -> (r: bool)
        ensures
            r == has_methods(self.data()),
    {
        matches!(
            self,
            HeapDataRef::Str(_)
                | HeapDataRef::Bytes(_)
                | HeapDataRef::List(_)
                | HeapDataRef::Tuple(_)
                | HeapDataRef::Dict(_)
                | HeapDataRef::PySet(_)
                | HeapDataRef::FrozenSet(_)
                | HeapDataRef::Dataclass(_)
                | HeapDataRef::Path(_)
                | HeapDataRef::Class(_)
                | HeapDataRef::RePattern(_)
                | HeapDataRef::ReMatch(_)
        )
    }

    /// Calls an attribute of a payload that is not in its slot.
    pub fn py_call_attr<T: ResourceTracker>(
        self,
        self_id: HeapId,
        heap: &mut Heap<T>,
        attr: &EitherStr,
        args: ArgValues,
        interns: &Interns,
    ) -> (r: Result<AttrCallResult, RunError>)
        requires
            old(heap)@.wf(),
            old(heap)@.entries.len() < usize::MAX,
            has_name(interns.tables(), *attr),
            owns(old(heap)@.entries, args.values()),
            payload_ready(interns, old(heap)@, self.data(), *attr, args),
        ensures
            calls_payload(interns, old(heap)@, final(heap)@, self.data(), self_id, *attr, args, r),
            leaves_in_order(old(heap)@, final(heap)@, args, r),
    {
        match self {
            HeapDataRef::Module(m) => m.py_call_attr(heap, attr, args, interns),
            _ => {
                let route: Result<Route, RunError> = self.find_route(heap, attr, interns);
                follow(route, self_id, heap, attr, args, interns, Ghost(self.data()))
            },
        }
    }

    /// Returns who calls an attribute of a payload other than a module.
    fn find_route<T: ResourceTracker>(self, heap: &Heap<T>, attr: &EitherStr, interns: &Interns) -> (r: Result<
        Route,
        RunError,
    >)
        requires
            has_name(interns.tables(), *attr),
            self.data() matches HeapData::Dataclass(dc) ==> keys_legible(scene(heap@, *interns), dc.attrs.entries@),
        ensures
            routes(interns, heap@, self.data(), *attr, r),
    {
        if let HeapDataRef::Dataclass(dc) = self {
            if dc.attrs.get_by_str(attr.as_str(interns), heap, interns).is_none() {
                return Ok(Route::Host);
            }
        }
        if self.lists_methods() {
            Ok(Route::OfType)
        } else {
            Err(RunError::AttributeMissing { of: self.py_type(), attr: attr.as_str(interns).to_owned() })
        }
    }
}

/// Who calls an attribute.
enum Route {
    /// The host, with the instance as the first argument.
    Host,
    /// The type of the payload.
    OfType,
}

/// Is `r` who calls an attribute of a payload, or the error that there is none?
spec fn routes<T: ResourceTracker>(
    interns: &Interns,
    heap: HeapModel<T>,
    data: HeapData,
    attr: EitherStr,
    r: Result<Route, RunError>,
) -> bool {
    if is_host_method(interns, heap, data, attr) {
        r == Ok::<Route, RunError>(Route::Host)
    } else if has_methods(data) {
        r == Ok::<Route, RunError>(Route::OfType)
    } else {
        r matches Err(e) && e@ == no_attribute(interns, data, attr)
    }
}

/// Hands a call of an attribute on, or gives up its arguments.
///
/// A method of a dataclass lives with the host. It gets the instance as its first
/// argument.
fn follow<T: ResourceTracker>(
    route: Result<Route, RunError>,
    self_id: HeapId,
    heap: &mut Heap<T>,
    attr: &EitherStr,
    args: ArgValues,
    interns: &Interns,
    data: Ghost<HeapData>,
) -> (r: Result<AttrCallResult, RunError>)
    requires
        old(heap)@.wf(),
        owns(old(heap)@.entries, args.values()),
        routes(interns, old(heap)@, data@, *attr, route),
    ensures
        answers_call(interns, old(heap)@, final(heap)@, data@, self_id, *attr, args, r),
        leaves_in_order(old(heap)@, final(heap)@, args, r),
{
    let ghost all = args.values();
    proof {
        lemma_owned_sound(heap@, all);
    }
    match route {
        Ok(Route::Host) => Ok(AttrCallResult::MethodCall(attr.duplicate(), args.prepend(Value::Ref(self_id)))),
        Ok(Route::OfType) => Ok(
            AttrCallResult::Native(
                NativeCall::Method { receiver: Value::Ref(self_id), name: attr.duplicate(), args },
            ),
        ),
        Err(e) => {
            args.drop_with_heap(heap);
            proof {
                lemma_given_back(old(heap)@, heap@, all);
            }
            Err(e)
        },
    }
}

/// The error that a payload has no attribute of the name.
pub open spec fn no_attribute(interns: &Interns, data: HeapData, attr: EitherStr) -> ErrorView {
    ErrorView::AttributeMissing { of: data.spec_type(), attr: name_text(interns.tables(), attr) }
}

/// Is the heap in order after a call, with the arguments given up on an error?
pub open spec fn leaves_in_order<T: ResourceTracker>(
    before: HeapModel<T>,
    after: HeapModel<T>,
    args: ArgValues,
    r: Result<AttrCallResult, RunError>,
) -> bool {
    &&& after.wf()
    &&& sound(after.entries)
    &&& spares_others(before.entries, after.entries, args.values())
    &&& r is Err ==> gives_back(before.entries, after.entries, args.values())
}

/// How is a call of an attribute of a payload answered?
///
/// A dataclass that has no attribute of the name leaves the call to the host, with the
/// instance as the first argument. That argument is the reference that the caller had.
/// Otherwise the type is asked to call a method, with the arguments as they are. A type
/// without methods has no such attribute, and the arguments are given up.
pub open spec fn answers_call<T: ResourceTracker>(
    interns: &Interns,
    before: HeapModel<T>,
    after: HeapModel<T>,
    data: HeapData,
    self_id: HeapId,
    attr: EitherStr,
    args: ArgValues,
    r: Result<AttrCallResult, RunError>,
) -> bool {
    if is_host_method(interns, before, data, attr) {
        &&& r matches Ok(AttrCallResult::MethodCall(name, passed))
        &&& same_name(name, attr)
        &&& args.behind(Value::Ref(self_id), passed)
        &&& after == before
    } else if has_methods(data) {
        &&& r matches Ok(AttrCallResult::Native(NativeCall::Method { receiver, name, args: passed }))
        &&& receiver == Value::Ref(self_id)
        &&& same_name(name, attr)
        &&& passed == args
        &&& after == before
    } else {
        &&& r matches Err(e) && e@ == no_attribute(interns, data, attr)
        &&& before.gave_up(after, refs(args.values()))
    }
}

/// Is the payload a dataclass without an attribute of the name?
pub open spec fn is_host_method<T: ResourceTracker>(
    interns: &Interns,
    heap: HeapModel<T>,
    data: HeapData,
    attr: EitherStr,
) -> bool {
    data matches HeapData::Dataclass(dc) && value_of(
        scene(heap, *interns),
        dc.attrs.entries@,
        name_text(interns.tables(), attr),
    ) is None
}

impl<T: ResourceTracker> Heap<T> {
    /// Calls an attribute on the heap entry.
    ///
    /// Returns `AttrCallResult` which may be:
    /// - `Value(v)` - Method completed synchronously with value `v`
    /// - `OsCall(func, args)` - Method needs OS operation; VM should yield to host
    /// - `ExternalCall(id, args)` - Method needs external function call
    /// - `MethodCall(name, args)` - Dataclass method call; VM should yield to host
    /// - `Native(call)` - Another part of the interpreter has to do the work
    ///
    /// A method call, of either kind, takes over the reference to its receiver.
    pub fn call_attr(&mut self, id: HeapId, attr: &EitherStr, args: ArgValues, interns: &Interns) -> (r: Result<
        AttrCallResult,
        RunError,
    >)
        requires
            old(self)@.wf(),
            old(self)@.entries.len() < usize::MAX,
            readable(old(self)@.entries, id),
            has_name(interns.tables(), *attr),
            owns(old(self)@.entries, args.values()),
            payload_ready(interns, old(self)@, data_at(old(self)@.entries, id), *attr, args),
        ensures
            calls_payload(
                interns,
                old(self)@,
                final(self)@,
                data_at(old(self)@.entries, id),
                id,
                *attr,
                args,
                r,
            ),
            leaves_in_order(old(self)@, final(self)@, args, r),
    {
        let found: Result<ModuleFunctions, RunError> = match self.get(id) {
            HeapData::Module(m) => m.find_function(attr, self, interns),
            data => {
                let ghost payload = *data;
                let route: Result<Route, RunError> = data.as_ref().find_route(self, attr, interns);
                return follow(route, id, self, attr, args, interns, Ghost(payload));
            },
        };
        call_found(found, self, args, interns)
    }
}

impl HeapData {
    /// Adds two payloads.
    pub fn py_add<T: ResourceTracker>(&self, other: &HeapData, heap: &mut Heap<T>) -> (r: Result<
        Dispatch<Option<Value>>,
        ResourceError,
    >)
        requires
            old(heap)@.wf(),
            old(heap)@.entries.len() < usize::MAX,
        ensures
            final(heap)@.wf(),
            adds(old(heap)@, final(heap)@, *self, *other, r),
    {
        self.as_ref().py_add(other.as_ref(), heap)
    }

    /// Subtracts one payload from another.
    pub fn py_sub<T: ResourceTracker>(&self, other: &HeapData, heap: &mut Heap<T>) -> (r: Result<
        Dispatch<Option<Value>>,
        ResourceError,
    >)
        requires
            old(heap)@.wf(),
            old(heap)@.entries.len() < usize::MAX,
        ensures
            final(heap)@.wf(),
            subtracts(old(heap)@, final(heap)@, *self, *other, r),
    {
        self.as_ref().py_sub(other.as_ref(), heap)
    }

    /// Takes one payload modulo another; the result has the sign of the divisor.
    pub fn py_mod<T: ResourceTracker>(&self, other: &HeapData, heap: &mut Heap<T>) -> (r: Result<
        Dispatch<Option<Value>>,
        RunError,
    >)
        requires
            old(heap)@.wf(),
            old(heap)@.entries.len() < usize::MAX,
        ensures
            final(heap)@.wf(),
            takes_modulo(old(heap)@, final(heap)@, *self, *other, r),
    {
        self.as_ref().py_mod(other.as_ref(), heap)
    }

    /// Compares one payload modulo another with a number.
    pub fn py_mod_eq(&self, other: &HeapData) -> (r: Dispatch<Option<bool>>)
        ensures
            match shared_type(*self, *other) {
                Some(t) => r == Dispatch::<Option<bool>>::Delegate(t),
                None => r == Dispatch::<Option<bool>>::Done(None),
            },
    {
        self.as_ref().py_mod_eq(other.as_ref())
    }

    /// Adds to a payload in place.
    pub fn py_iadd(&self) -> (r: Dispatch<bool>)
        ensures
            match *self {
                HeapData::List(_) => r == Dispatch::<bool>::Delegate(Type::List),
                HeapData::Dict(_) => r == Dispatch::<bool>::Delegate(Type::Dict),
                _ => r == Dispatch::<bool>::Done(false),
            },
    {
        match self {
            HeapData::List(_) => Dispatch::Delegate(Type::List),
            HeapData::Dict(_) => Dispatch::Delegate(Type::Dict),
            _ => Dispatch::Done(false),
        }
    }

    /// Returns the type that looks up `self[key]`.
    pub fn py_getitem(&self) -> (r: Result<Type, RunError>)
        ensures
            if subscriptable(*self) {
                r == Ok::<Type, RunError>(self.spec_type())
            } else {
                r matches Err(e) && e@ == ErrorView::NotSubscriptable(self.spec_type())
            },
    {
        self.as_ref().find_getitem(false)
    }

    /// Returns the type that carries out `self[key] = value`.
    pub fn py_setitem(&self) -> (r: Result<Type, RunError>)
        ensures
            if item_assignable(*self) {
                r == Ok::<Type, RunError>(self.spec_type())
            } else {
                r matches Err(e) && e@ == ErrorView::NoItemAssignment(self.spec_type())
            },
    {
        self.as_ref().py_setitem()
    }

    /// Reads an attribute.
    pub fn py_getattr<T: ResourceTracker>(&self, attr: &EitherStr, heap: &mut Heap<T>, interns: &Interns) -> (r:
        Dispatch<Option<AttrCallResult>>)
        requires
            old(heap)@.wf(),
            old(heap)@.room(1),
            has_name(interns.tables(), *attr),
            *self matches HeapData::Module(m) ==> m.attr_ready(scene(old(heap)@, *interns), *attr),
        ensures
            final(heap)@.wf(),
            reads_attr(interns, old(heap)@, final(heap)@, *self, *attr, r),
    {
        self.as_ref().py_getattr(attr, heap, interns)
    }

    /// Calls an attribute of a payload that is not in its slot.
    pub fn py_call_attr<T: ResourceTracker>(
        &self,
        self_id: HeapId,
        heap: &mut Heap<T>,
        attr: &EitherStr,
        args: ArgValues,
        interns: &Interns,
    ) -> (r: Result<AttrCallResult, RunError>)
        requires
            old(heap)@.wf(),
            old(heap)@.entries.len() < usize::MAX,
            has_name(interns.tables(), *attr),
            owns(old(heap)@.entries, args.values()),
            payload_ready(interns, old(heap)@, *self, *attr, args),
        ensures
            calls_payload(interns, old(heap)@, final(heap)@, *self, self_id, *attr, args, r),
            leaves_in_order(old(heap)@, final(heap)@, args, r),
    {
        self.as_ref().py_call_attr(self_id, heap, attr, args, interns)
    }
}

impl<'a> HeapDataMut<'a> {
    /// Adds two payloads.
    pub fn py_add<T: ResourceTracker>(&self, other: &HeapDataMut<'_>, heap: &mut Heap<T>) -> (r: Result<
        Dispatch<Option<Value>>,
        ResourceError,
    >)
        requires
            old(heap)@.wf(),
            old(heap)@.entries.len() < usize::MAX,
        ensures
            final(heap)@.wf(),
            adds(old(heap)@, final(heap)@, self.data(), other.data(), r),
    {
        self.as_ref().py_add(other.as_ref(), heap)
    }

    /// Subtracts one payload from another.
    pub fn py_sub<T: ResourceTracker>(&self, other: &HeapDataMut<'_>, heap: &mut Heap<T>) -> (r: Result<
        Dispatch<Option<Value>>,
        ResourceError,
    >)
        requires
            old(heap)@.wf(),
            old(heap)@.entries.len() < usize::MAX,
        ensures
            final(heap)@.wf(),
            subtracts(old(heap)@, final(heap)@, self.data(), other.data(), r),
    {
        self.as_ref().py_sub(other.as_ref(), heap)
    }

    /// Takes one payload modulo another; the result has the sign of the divisor.
    pub fn py_mod<T: ResourceTracker>(&self, other: &HeapDataMut<'_>, heap: &mut Heap<T>) -> (r: Result<
        Dispatch<Option<Value>>,
        RunError,
    >)
        requires
            old(heap)@.wf(),
            old(heap)@.entries.len() < usize::MAX,
        ensures
            final(heap)@.wf(),
            takes_modulo(old(heap)@, final(heap)@, self.data(), other.data(), r),
    {
        self.as_ref().py_mod(other.as_ref(), heap)
    }

    /// Compares one payload modulo another with a number.
    pub fn py_mod_eq(&self, other: &HeapDataMut<'_>) -> (r: Dispatch<Option<bool>>)
        ensures
            match shared_type(self.data(), other.data()) {
                Some(t) => r == Dispatch::<Option<bool>>::Delegate(t),
                None => r == Dispatch::<Option<bool>>::Done(None),
            },
    {
        self.as_ref().py_mod_eq(other.as_ref())
    }

    /// Returns the type that looks up `self[key]`.
    pub fn py_getitem(&self) -> (r: Result<Type, RunError>)
        ensures
            if subscriptable(self.data()) || self.data() is ReMatch {
                r == Ok::<Type, RunError>(self.data().spec_type())
            } else {
                r matches Err(e) && e@ == ErrorView::NotSubscriptable(self.data().spec_type())
            },
    {
        self.as_ref().find_getitem(true)
    }

    /// Returns the type that carries out `self[key] = value`.
    pub fn py_setitem(&self) -> (r: Result<Type, RunError>)
        ensures
            if item_assignable(self.data()) {
                r == Ok::<Type, RunError>(self.data().spec_type())
            } else {
                r matches Err(e) && e@ == ErrorView::NoItemAssignment(self.data().spec_type())
            },
    {
        self.as_ref().py_setitem()
    }

    /// Reads an attribute.
    pub fn py_getattr<T: ResourceTracker>(&self, attr: &EitherStr, heap: &mut Heap<T>, interns: &Interns) -> (r:
        Dispatch<Option<AttrCallResult>>)
        requires
            old(heap)@.wf(),
            old(heap)@.room(1),
            has_name(interns.tables(), *attr),
            self.data() matches HeapData::Module(m) ==> m.attr_ready(scene(old(heap)@, *interns), *attr),
        ensures
            final(heap)@.wf(),
            reads_attr(interns, old(heap)@, final(heap)@, self.data(), *attr, r),
    {
        self.as_ref().py_getattr(attr, heap, interns)
    }

    /// Calls an attribute of a payload that is not in its slot.
    pub fn py_call_attr<T: ResourceTracker>(
        &self,
        self_id: HeapId,
        heap: &mut Heap<T>,
        attr: &EitherStr,
        args: ArgValues,
        interns: &Interns,
    ) -> (r: Result<AttrCallResult, RunError>)
        requires
            old(heap)@.wf(),
            old(heap)@.entries.len() < usize::MAX,
            has_name(interns.tables(), *attr),
            owns(old(heap)@.entries, args.values()),
            payload_ready(interns, old(heap)@, self.data(), *attr, args),
        ensures
            calls_payload(interns, old(heap)@, final(heap)@, self.data(), self_id, *attr, args, r),
    {
        self.as_ref().py_call_attr(self_id, heap, attr, args, interns)
    }
}

} // verus!
