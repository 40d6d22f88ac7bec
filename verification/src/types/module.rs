//! Python module type for representing imported modules.

use crate::args::{ArgValues, gives_back, lemma_owns_part, owns};
use crate::equality::{Scene, scene};
use crate::exceptions::{ErrorView, RunError, type_error_view};
use crate::heap::{Heap, HeapModel};
use crate::hash::{has_name, name_text};
use crate::heap_model::{live, outside, readable, sound};
use crate::heap_ops::bumped;
use crate::intern::{Interns, StringId, id_text};
use crate::modules::ModuleFunctions;
use crate::resource::ResourceTracker;
use crate::types::lookup::{keys_legible, lemma_text_at, lemma_text_missing, text_at, value_of};
use crate::types::mappings::{Dict, DictEntry, flat, lemma_flat_index};
use crate::types::py_trait::AttrCallResult;
use crate::value::{
    EitherStr, HeapId, Property, Value, any_ref, holds, lemma_holds_ge, lemma_holds_one, refs, tally,
};
use vstd::prelude::*;
use vstd::std_specs::convert::IntoSpec;

verus! {

/// A Python module with a name and attribute dictionary.
///
/// Modules in Monty are simplified compared to CPython - they just have a name
/// and a dictionary of attributes. This is sufficient for built-in modules like
/// `sys` and `typing` where we control the available attributes.
#[derive(Debug)]
pub struct Module {
    /// The module name (e.g., "sys", "typing").
    pub name: StringId,
    /// The module's attributes (e.g., `version`, `platform` for `sys`).
    pub attrs: Dict,
}

/// Attributes with one more, or with another value for one that is there already.
pub open spec fn with_attr<T: ResourceTracker>(
    s: Scene<T>,
    es: Seq<DictEntry>,
    name: StringId,
    value: Value,
) -> Seq<DictEntry> {
    match text_at(s, es, id_text(s.tables.strings, name), 0) {
        Some(i) => es.update(i as int, DictEntry { key: es[i as int].key, value }),
        None => es.push(DictEntry { key: Value::InternString(name), value }),
    }
}

impl Module {
    /// Creates a new module with an empty attributes dictionary.
    pub fn new<N: Into<StringId>>(name: N) -> (r: Module)
        ensures
            N::obeys_into_spec() ==> r.name == name.into_spec(),
            r.attrs.entries@.len() == 0,
    {
        Module { name: name.into(), attrs: Dict::new() }
    }

    /// Returns the module's name StringId.
    pub fn name(&self) -> (r: StringId)
        ensures
            r == self.name,
    {
        self.name
    }

    /// Returns a reference to the module's attribute dictionary.
    pub fn attrs(&self) -> (r: &Dict)
        ensures
            *r == self.attrs,
    {
        &self.attrs
    }

    /// Sets an attribute in the module's dictionary.
    ///
    /// A value that the attribute had before is given up.
    pub fn set_attr<N: Into<StringId>, T: ResourceTracker>(
        &mut self,
        name: N,
        value: Value,
        heap: &mut Heap<T>,
        interns: &Interns,
    )
        requires
            N::obeys_into_spec(),
            interns.has_str(name.into_spec()),
            old(heap)@.wf(),
            owns(old(heap)@.entries, old(self).attrs.flat()),
            keys_legible(scene(old(heap)@, *interns), old(self).attrs.entries@),
        ensures
            final(self).name == old(self).name,
            final(self).attrs.entries@ == with_attr(
                scene(old(heap)@, *interns),
                old(self).attrs.entries@,
                name.into_spec(),
                value,
            ),
            match value_of(
                scene(old(heap)@, *interns),
                old(self).attrs.entries@,
                id_text(interns.tables().strings, name.into_spec()),
            ) {
                Some(previous) => old(heap)@.gave_up(final(heap)@, refs(seq![previous])),
                None => final(heap)@ == old(heap)@,
            },
    {
        let id: StringId = name.into();
        let text: &str = interns.get_str(id);
        match self.attrs.position_by_str(text, heap, interns) {
            Some(i) => {
                let previous: DictEntry = self.attrs.entries[i];
                self.attrs.entries.set(i, DictEntry { key: previous.key, value });
                proof {
                    lemma_flat_index(old(self).attrs.entries@, i as int);
                    lemma_owns_one(heap@, old(self).attrs.flat(), 2 * i + 1);
                }
                heap.discard(previous.value);
            },
            None => {
                self.attrs.entries.push(DictEntry { key: Value::InternString(id), value });
            },
        }
    }

    /// Looks up an attribute by name in the module's attribute dictionary.
    ///
    /// Returns `Some(value)` if the attribute exists, `None` otherwise.
    /// The returned value is cloned with proper refcount handling.
    pub fn get_attr<T: ResourceTracker>(&self, attr_value: &Value, heap: &mut Heap<T>, interns: &Interns) -> (r: Option<
        Value,
    >)
        requires
            old(heap)@.wf(),
            scene(old(heap)@, *interns).has(*attr_value),
            *attr_value matches Value::Ref(id) ==> readable(old(heap)@.entries, id),
            keys_legible(scene(old(heap)@, *interns), self.attrs.entries@),
            self.attribute(scene(old(heap)@, *interns), *attr_value) matches Some(Value::Ref(id)) ==> live(
                old(heap)@.entries,
                id,
            ),
            old(heap)@.room(1),
        ensures
            r == self.attribute(scene(old(heap)@, *interns), *attr_value),
            match r {
                Some(v) => {
                    &&& final(heap)@.wf()
                    &&& bumped(old(heap)@.entries, final(heap)@.entries, refs(seq![v]))
                    &&& final(heap)@ == old(heap)@.with_entries(final(heap)@.entries)
                },
                None => final(heap)@ == old(heap)@,
            },
    {
        let found: Option<Value> = match attr_value.as_text(heap, interns) {
            Some(text) => self.attrs.get_by_str(text, heap, interns),
            None => None,
        };
        match found {
            Some(v) => {
                Some(heap.clone_value(v))
            },
            None => None,
        }
    }

    /// The value of the attribute that a value names. Only strings name attributes.
    pub open spec fn attribute<T: ResourceTracker>(self, s: Scene<T>, name: Value) -> Option<Value> {
        match s.text(name) {
            Some(t) => value_of(s, self.attrs.entries@, t),
            None => None,
        }
    }

    /// Returns whether this module has any heap references in its attributes.
    pub fn has_refs(&self) -> (r: bool)
        ensures
            r == any_ref(self.attrs.flat()),
    {
        self.attrs.has_refs()
    }

    /// Collects child HeapIds for reference counting.
    pub fn py_dec_ref_ids(&self, stack: &mut Vec<HeapId>)
        ensures
            final(stack)@ == old(stack)@ + refs(self.attrs.flat()),
    {
        self.attrs.push_refs(stack);
    }
}

impl Module {
    /// May reading an attribute turn the heap into `after` and give `r`?
    ///
    /// A property is not handed out: what it stands for is asked for instead.
    pub open spec fn gets_attr<T: ResourceTracker>(
        self,
        s: Scene<T>,
        before: HeapModel<T>,
        after: HeapModel<T>,
        attr: EitherStr,
        r: Option<AttrCallResult>,
    ) -> bool {
        match value_of(s, self.attrs.entries@, name_text(s.tables, attr)) {
            None => r is None && after == before,
            Some(Value::Property(Property::Os(f))) => {
                &&& r == Some(AttrCallResult::OsCall(f, ArgValues::Empty))
                &&& after == before
            },
            Some(v) => {
                &&& r == Some(AttrCallResult::Value(v))
                &&& bumped(before.entries, after.entries, refs(seq![v]))
                &&& after == before.with_entries(after.entries)
            },
        }
    }

    /// Can an attribute be read? The keys are looked at, and the value that is found is
    /// counted once more.
    pub open spec fn attr_ready<T: ResourceTracker>(self, s: Scene<T>, attr: EitherStr) -> bool {
        &&& keys_legible(s, self.attrs.entries@)
        &&& value_of(s, self.attrs.entries@, name_text(s.tables, attr)) matches Some(Value::Ref(id)) ==> live(s.entries, id)
    }

    /// Gets an attribute by string ID for the `py_getattr` trait method.
    ///
    /// Returns the attribute value if found, or `None` if the attribute doesn't exist.
    /// For `Property` values, invokes the property getter rather than returning
    /// the Property itself - this implements Python's descriptor protocol.
    pub fn py_getattr<T: ResourceTracker>(&self, attr: &EitherStr, heap: &mut Heap<T>, interns: &Interns) -> (r: Option<
        AttrCallResult,
    >)
        requires
            old(heap)@.wf(),
            old(heap)@.room(1),
            has_name(interns.tables(), *attr),
            self.attr_ready(scene(old(heap)@, *interns), *attr),
        ensures
            final(heap)@.wf(),
            self.gets_attr(scene(old(heap)@, *interns), old(heap)@, final(heap)@, *attr, r),
    {
        let found: Option<Value> = self.attrs.get_by_str(attr.as_str(interns), heap, interns);
        match found {
            None => None,
            // If the value is a Property, invoke its getter to compute the actual value
            Some(Value::Property(prop)) => Some(prop.get()),
            Some(v) => {
                Some(AttrCallResult::Value(heap.clone_value(v)))
            },
        }
    }

    /// The function that calling an attribute calls, or why there is none.
    pub open spec fn function_of<T: ResourceTracker>(self, s: Scene<T>, attr: EitherStr) -> Result<
        ModuleFunctions,
        ErrorView,
    > {
        let module = id_text(s.tables.strings, self.name);
        match attr {
            EitherStr::Interned(id) => match value_of(s, self.attrs.entries@, id_text(s.tables.strings, id)) {
                Some(Value::ModuleFunction(mf)) => Ok(mf),
                Some(_) => Err(type_error_view("module attribute is not callable"@)),
                None => Err(ErrorView::ModuleAttributeMissing { module, attr: id_text(s.tables.strings, id) }),
            },
            // Module attributes are always interned, so owned strings won't match
            EitherStr::Heap(t) => Err(ErrorView::ModuleAttributeMissing { module, attr: t@ }),
        }
    }

    /// Returns the function that calling an attribute calls.
    pub fn find_function<T: ResourceTracker>(&self, attr: &EitherStr, heap: &Heap<T>, interns: &Interns) -> (r: Result<
        ModuleFunctions,
        RunError,
    >)
        requires
            has_name(interns.tables(), *attr),
            interns.has_str(self.name),
            keys_legible(scene(heap@, *interns), self.attrs.entries@),
        ensures
            match r {
                Ok(mf) => self.function_of(scene(heap@, *interns), *attr) == Ok::<ModuleFunctions, ErrorView>(mf),
                Err(e) => self.function_of(scene(heap@, *interns), *attr) == Err::<ModuleFunctions, ErrorView>(e@),
            },
    {
        match attr {
            EitherStr::Interned(id) => match self.attrs.get_by_str(interns.get_str(*id), heap, interns) {
                Some(Value::ModuleFunction(mf)) => Ok(mf),
                // Found attribute but it's not callable
                Some(_) => Err(RunError::type_error("module attribute is not callable")),
                None => Err(
                    RunError::ModuleAttributeMissing {
                        module: interns.get_str(self.name).to_owned(),
                        attr: interns.get_str(*id).to_owned(),
                    },
                ),
            },
            EitherStr::Heap(s) => Err(
                RunError::ModuleAttributeMissing {
                    module: interns.get_str(self.name).to_owned(),
                    attr: s.as_str().to_owned(),
                },
            ),
        }
    }

    /// May calling an attribute turn the heap into `after` and give `r`?
    ///
    /// Where there is no such function, all arguments are given up.
    pub open spec fn calls_attr<T: ResourceTracker>(
        self,
        s: Scene<T>,
        before: HeapModel<T>,
        after: HeapModel<T>,
        attr: EitherStr,
        args: ArgValues,
        r: Result<AttrCallResult, RunError>,
    ) -> bool {
        match self.function_of(s, attr) {
            Ok(mf) => mf.calls(s, before, after, args, r),
            Err(e) => r matches Err(err) && err@ == e && before.gave_up(after, refs(args.values())),
        }
    }

    /// Calls an attribute as a function on this module.
    ///
    /// Modules don't have methods - they have callable attributes. This looks up
    /// the attribute and calls it if it's a `ModuleFunction`.
    ///
    /// Returns `AttrCallResult` because module functions may need OS operations
    /// (e.g., `os.getenv()`) that require host involvement.
    pub fn py_call_attr<T: ResourceTracker>(
        &self,
        heap: &mut Heap<T>,
        attr: &EitherStr,
        args: ArgValues,
        interns: &Interns,
    ) -> (r: Result<AttrCallResult, RunError>)
        requires
            old(heap)@.wf(),
            old(heap)@.entries.len() < usize::MAX,
            has_name(interns.tables(), *attr),
            interns.has_str(self.name),
            keys_legible(scene(old(heap)@, *interns), self.attrs.entries@),
            owns(old(heap)@.entries, args.values()),
            self.function_of(scene(old(heap)@, *interns), *attr) matches Ok(mf) ==> mf.callable(
                scene(old(heap)@, *interns),
                old(heap)@,
                args,
            ),
        ensures
            self.calls_attr(scene(old(heap)@, *interns), old(heap)@, final(heap)@, *attr, args, r),
            balances(old(heap)@, final(heap)@, args.values(), r),
    {
        let found: Result<ModuleFunctions, RunError> = self.find_function(attr, heap, interns);
        call_found(found, heap, args, interns)
    }
}

/// Is the heap in order after a call, and are exactly the references in `given` gone
/// for those that the result holds? An error holds none.
pub open spec fn balances<T: ResourceTracker>(
    before: HeapModel<T>,
    after: HeapModel<T>,
    given: Seq<Value>,
    r: Result<AttrCallResult, RunError>,
) -> bool {
    &&& after.wf()
    &&& sound(after.entries)
    &&& match r {
        Ok(result) => forall|x: HeapId| #[trigger]
            outside(after.entries, x) == outside(before.entries, x) - holds(given, x) + holds(result.values(), x),
        Err(_) => gives_back(before.entries, after.entries, given),
    }
}

/// Calls a function that was looked up, or gives up the arguments.
pub fn call_found<T: ResourceTracker>(
    found: Result<ModuleFunctions, RunError>,
    heap: &mut Heap<T>,
    args: ArgValues,
    interns: &Interns,
) -> (r: Result<AttrCallResult, RunError>)
    requires
        old(heap)@.wf(),
        old(heap)@.entries.len() < usize::MAX,
        owns(old(heap)@.entries, args.values()),
        found matches Ok(mf) ==> mf.callable(scene(old(heap)@, *interns), old(heap)@, args),
    ensures
        match found {
            Ok(mf) => mf.calls(scene(old(heap)@, *interns), old(heap)@, final(heap)@, args, r),
            Err(e) => r matches Err(err) && err@ == e@ && old(heap)@.gave_up(final(heap)@, refs(args.values())),
        },
        balances(old(heap)@, final(heap)@, args.values(), r),
{
    match found {
        Ok(mf) => mf.call(heap, args, interns),
        Err(e) => {
            let ghost all = args.values();
            args.drop_with_heap(heap);
            proof {
                assert forall|x: HeapId| #[trigger]
                    outside(heap@.entries, x) == outside(old(heap)@.entries, x) - holds(all, x) by {
                    assert(outside(heap@.entries, x) == outside(old(heap)@.entries, x) - tally(refs(all), x));
                }
            }
            Err(e)
        },
    }
}

/// Searching stops at the first key that fits.
proof fn lemma_first_fit<T: ResourceTracker>(s: Scene<T>, es: Seq<DictEntry>, t: Seq<char>, i: nat, k: nat)
    requires
        i <= k < es.len(),
        s.text(es[k as int].key) == Some(t),
        forall|j: int| i <= j < k ==> s.text(#[trigger] es[j].key) != Some(t),
    ensures
        text_at(s, es, t, i) == Some(k),
    decreases k - i,
{
    if i < k {
        assert(s.text(es[i as int].key) != Some(t));
        lemma_first_fit(s, es, t, i + 1, k);
    }
}

/// Everything before the first key that fits does not fit.
proof fn lemma_none_before<T: ResourceTracker>(s: Scene<T>, es: Seq<DictEntry>, t: Seq<char>, i: nat, j: int)
    requires
        text_at(s, es, t, i) matches Some(k) && i <= j < k,
    ensures
        s.text(es[j].key) != Some(t),
    decreases es.len() - i,
{
    if i < es.len() && s.text(es[i as int].key) != Some(t) && j > i {
        lemma_none_before(s, es, t, i + 1, j);
    }
}

/// An attribute has the value that it was set to, and all others have the values that
/// they had.
pub proof fn attributes_have_the_values_that_were_set<T: ResourceTracker>(
    s: Scene<T>,
    es: Seq<DictEntry>,
    name: StringId,
    value: Value,
    other: Seq<char>,
)
    requires
        other != id_text(s.tables.strings, name),
    ensures
        value_of(s, with_attr(s, es, name, value), id_text(s.tables.strings, name)) == Some(value),
        value_of(s, with_attr(s, es, name, value), other) == value_of(s, es, other),
{
    let t = id_text(s.tables.strings, name);
    let after = with_attr(s, es, name, value);
    lemma_text_at(s, es, t, 0);
    lemma_text_at(s, es, other, 0);
    let place = match text_at(s, es, t, 0) {
        Some(i) => i,
        None => es.len(),
    };
    assert forall|j: int| 0 <= j < place implies s.text(#[trigger] after[j].key) != Some(t) by {
        if text_at(s, es, t, 0) is Some {
            lemma_none_before(s, es, t, 0, j);
        } else {
            assert(s.text(es[j].key) != Some(t));
        }
    }
    assert(s.text(after[place as int].key) == Some(t));
    lemma_first_fit(s, after, t, 0, place);
    if let Some(k) = text_at(s, es, other, 0) {
        assert(k != place);
        assert forall|j: int| 0 <= j < k implies s.text(#[trigger] after[j].key) != Some(other) by {
            lemma_none_before(s, es, other, 0, j);
        }
        lemma_first_fit(s, after, other, 0, k);
    } else {
        assert forall|j: int| 0 <= j < after.len() implies s.text(#[trigger] after[j].key) != Some(other) by {
            if j < es.len() {
                assert(s.text(es[j].key) != Some(other));
            }
        }
        lemma_text_missing(s, after, other, 0);
    }
}

/// Of values that one holds, one holds each.
pub proof fn lemma_owns_one<T: ResourceTracker>(m: HeapModel<T>, vs: Seq<Value>, i: int)
    requires
        owns(m.entries, vs),
        0 <= i < vs.len(),
    ensures
        owns(m.entries, seq![vs[i]]),
{
    assert forall|x: HeapId| #[trigger] holds(seq![vs[i]], x) <= holds(vs, x) by {
        lemma_holds_one(vs[i], x);
        lemma_holds_ge(vs, i, x);
    }
    lemma_owns_part(m.entries, vs, seq![vs[i]]);
}

} // verus!
