//! What modules and other objects do with their attributes.

use crate::args::ArgValues;
use crate::call_laws::{answers_are_passed_on, arguments_list_what_was_passed, passed, passed_by_name};
use crate::equality::{Scene, scene};
use crate::exceptions::{ErrorView, RunError};
use crate::hash::name_text;
use crate::heap::{HeapModel, allocation_balances};
use crate::heap_data::HeapData;
use crate::heap_model::data_at;
use crate::intern::{Interns, StringId, id_text, static_id, static_ids_name_their_text};
use crate::iteration::payload_items;
use crate::modules::{BuiltinModule, ModuleFunctions, re};
use crate::modules::asyncio::AsyncioFunctions;
use crate::modules::attributes::{Attribute, attribute_entries, distinct_names, makes_module};
use crate::modules::os::OsFunctions;
use crate::modules::re::ReFunctions;
use crate::operators::{Dispatch, calls_payload, item_assignable, reads_attr, subscriptable};
use crate::os::OsFunction;
use crate::resource::ResourceTracker;
use crate::static_strings::{StaticStrings, static_names_are_distinct};
use crate::types::lookup::{text_at, value_of};
use crate::types::mappings::DictEntry;
use crate::types::module::Module;
use crate::types::py_trait::{AttrCallResult, NativeCall};
use crate::value::{EitherStr, HeapId, Property, Value};
use crate::vm::VmModel;
use crate::vm::call::{CallResult, is_from};
use vstd::prelude::*;

verus! {

/// Is the value that of the first entry with the key, a string?
pub open spec fn leads<T: ResourceTracker>(s: Scene<T>, es: Seq<DictEntry>, key: Seq<char>, v: Value) -> bool {
    exists|i: int|
        {
            &&& 0 <= i < es.len()
            &&& s.text((#[trigger] es[i]).key) == Some(key)
            &&& es[i].value == v
            &&& forall|j: int| 0 <= j < i ==> s.text((#[trigger] es[j]).key) != Some(key)
        }
}

/// Has no entry the key?
pub open spec fn absent<T: ResourceTracker>(s: Scene<T>, es: Seq<DictEntry>, key: Seq<char>) -> bool {
    forall|i: int| 0 <= i < es.len() ==> s.text((#[trigger] es[i]).key) != Some(key)
}

proof fn lemma_text_at<T: ResourceTracker>(s: Scene<T>, es: Seq<DictEntry>, key: Seq<char>, from: nat)
    ensures
        match text_at(s, es, key, from) {
            Some(i) => {
                &&& from <= i < es.len()
                &&& s.text(es[i as int].key) == Some(key)
                &&& forall|j: int| from <= j < i ==> s.text((#[trigger] es[j]).key) != Some(key)
            },
            None => forall|j: int| from <= j < es.len() ==> s.text((#[trigger] es[j]).key) != Some(key),
        },
    decreases es.len() - from,
{
    if from < es.len() {
        lemma_text_at(s, es, key, from + 1);
    }
}

/// Looking up a text gives the value of the first entry with that key, if there is one.
pub proof fn lookups_find_the_first_entry<T: ResourceTracker>(s: Scene<T>, es: Seq<DictEntry>, key: Seq<char>)
    ensures
        match value_of(s, es, key) {
            Some(v) => leads(s, es, key, v),
            None => absent(s, es, key),
        },
{
    lemma_text_at(s, es, key, 0);
    if let Some(i) = text_at(s, es, key, 0) {
        assert(s.text(es[i as int].key) == Some(key));
    }
}

/// A module's attribute is found by a value that is a string, under the text of it.
pub proof fn attributes_are_found_by_strings<T: ResourceTracker>(m: Module, s: Scene<T>, name: Value)
    ensures
        match m.attribute(s, name) {
            Some(v) => s.text(name) matches Some(t) && leads(s, m.attrs.entries@, t, v),
            None => s.text(name) matches Some(t) ==> absent(s, m.attrs.entries@, t),
        },
{
    if let Some(t) = s.text(name) {
        lookups_find_the_first_entry(s, m.attrs.entries@, t);
    }
}

/// Reading an attribute of a module gives the value that the module has under the name. For
/// a property the host is asked. A name that the module does not have gives nothing.
pub proof fn modules_read_their_attributes<T: ResourceTracker>(
    m: Module,
    s: Scene<T>,
    before: HeapModel<T>,
    after: HeapModel<T>,
    attr: EitherStr,
    r: Option<AttrCallResult>,
)
    requires
        m.gets_attr(s, before, after, attr, r),
    ensures
        match r {
            None => absent(s, m.attrs.entries@, name_text(s.tables, attr)) && after == before,
            Some(AttrCallResult::Value(v)) => leads(s, m.attrs.entries@, name_text(s.tables, attr), v) && !(v is Property),
            Some(AttrCallResult::OsCall(f, args)) => {
                &&& leads(s, m.attrs.entries@, name_text(s.tables, attr), Value::Property(Property::Os(f)))
                &&& args is Empty
                &&& after == before
            },
            Some(_) => false,
        },
{
    lookups_find_the_first_entry(s, m.attrs.entries@, name_text(s.tables, attr));
}

/// Calling an attribute of a module calls the function that the module has under the name.
/// Where it has something else there or nothing at all, the call fails.
pub proof fn modules_call_their_functions<T: ResourceTracker>(
    m: Module,
    s: Scene<T>,
    before: HeapModel<T>,
    after: HeapModel<T>,
    attr: EitherStr,
    args: ArgValues,
    r: Result<AttrCallResult, RunError>,
)
    requires
        m.calls_attr(s, before, after, attr, args, r),
    ensures
        r is Ok ==> attr is Interned && exists|mf: ModuleFunctions|
            leads(s, m.attrs.entries@, name_text(s.tables, attr), Value::ModuleFunction(mf)) && #[trigger] mf.calls(
                s,
                before,
                after,
                args,
                r,
            ),
        absent(s, m.attrs.entries@, name_text(s.tables, attr)) ==> (r matches Err(e) && (
        e@ matches ErrorView::ModuleAttributeMissing { attr: a, .. } && a == name_text(s.tables, attr))),
{
    let key = name_text(s.tables, attr);
    lookups_find_the_first_entry(s, m.attrs.entries@, key);
    if let Some(v) = value_of(s, m.attrs.entries@, key) {
        let i = choose|i: int|
            {
                &&& 0 <= i < m.attrs.entries@.len()
                &&& s.text((#[trigger] m.attrs.entries@[i]).key) == Some(key)
                &&& m.attrs.entries@[i].value == v
            };
        assert(!absent(s, m.attrs.entries@, key));
    }
    if let Ok(mf) = m.function_of(s, attr) {
        assert(mf.calls(s, before, after, args, r));
    }
}

/// The module that a function belongs to, where it is made here.
pub open spec fn home(mf: ModuleFunctions) -> Option<BuiltinModule> {
    match mf {
        ModuleFunctions::Asyncio(_) => None,
        ModuleFunctions::Collections(_) => Some(BuiltinModule::Collections),
        ModuleFunctions::Os(_) => Some(BuiltinModule::Os),
        ModuleFunctions::Re(_) => Some(BuiltinModule::Re),
    }
}

/// A module has each of its functions as an attribute of that name, and under no other
/// name.
pub proof fn functions_are_attributes_of_their_modules(mf: ModuleFunctions, list: Seq<Attribute>, i: int)
    requires
        home(mf) matches Some(module) && module.attributes() == Some(list),
        0 <= i < list.len(),
    ensures
        list[i].value == Value::ModuleFunction(mf) ==> list[i].name.name() == mf.name(),
        exists|k: int|
            0 <= k < list.len() && (#[trigger] list[k]).value == Value::ModuleFunction(mf) && list[k].name.name()
                == mf.name(),
{
    match mf {
        ModuleFunctions::Re(f) => {
            let k: int = match f {
                ReFunctions::Compile => 0,
                ReFunctions::Search => 1,
                ReFunctions::Match => 2,
                ReFunctions::Fullmatch => 3,
                ReFunctions::Findall => 4,
                ReFunctions::Sub => 5,
                ReFunctions::Split => 6,
                ReFunctions::Finditer => 7,
                ReFunctions::Escape => 8,
            };
            assert(list[k].value == Value::ModuleFunction(mf));
        },
        ModuleFunctions::Os(f) => {
            assert(list[0].value == Value::ModuleFunction(mf));
        },
        ModuleFunctions::Collections(f) => {
            assert(list[0].value == Value::ModuleFunction(mf));
        },
        _ => {},
    }
}

/// Is there an attribute of that name and value?
pub open spec fn offers(list: Seq<Attribute>, name: Seq<char>, v: Value) -> bool {
    exists|k: int| 0 <= k < list.len() && (#[trigger] list[k]).name.name() == name && list[k].value == v
}

/// The flags of the `re` module have their values, under their long names and their short
/// ones. Different flags share no bits.
pub proof fn regex_flags_have_their_values()
    ensures
        offers(re::attributes(), "NOFLAG"@, Value::Int(0)),
        offers(re::attributes(), "IGNORECASE"@, Value::Int(2)),
        offers(re::attributes(), "I"@, Value::Int(2)),
        offers(re::attributes(), "MULTILINE"@, Value::Int(8)),
        offers(re::attributes(), "M"@, Value::Int(8)),
        offers(re::attributes(), "DOTALL"@, Value::Int(16)),
        offers(re::attributes(), "S"@, Value::Int(16)),
        offers(re::attributes(), "ASCII"@, Value::Int(256)),
        offers(re::attributes(), "A"@, Value::Int(256)),
{
    let list = re::attributes();
    assert(offers(list, "NOFLAG"@, Value::Int(0))) by {
        assert(list[9] == (Attribute { name: StaticStrings::NoFlag, value: Value::Int(0) }));
        assert(StaticStrings::NoFlag.name() == "NOFLAG"@);
    }
    assert(offers(list, "IGNORECASE"@, Value::Int(2))) by {
        assert(list[10] == (Attribute { name: StaticStrings::Ignorecase, value: Value::Int(2) }));
        assert(StaticStrings::Ignorecase.name() == "IGNORECASE"@);
    }
    assert(offers(list, "I"@, Value::Int(2))) by {
        assert(list[11] == (Attribute { name: StaticStrings::I, value: Value::Int(2) }));
        assert(StaticStrings::I.name() == "I"@);
    }
    assert(offers(list, "MULTILINE"@, Value::Int(8))) by {
        assert(list[12] == (Attribute { name: StaticStrings::MultilineFlag, value: Value::Int(8) }));
        assert(StaticStrings::MultilineFlag.name() == "MULTILINE"@);
    }
    assert(offers(list, "M"@, Value::Int(8))) by {
        assert(list[13] == (Attribute { name: StaticStrings::M, value: Value::Int(8) }));
        assert(StaticStrings::M.name() == "M"@);
    }
    assert(offers(list, "DOTALL"@, Value::Int(16))) by {
        assert(list[14] == (Attribute { name: StaticStrings::DotallFlag, value: Value::Int(16) }));
        assert(StaticStrings::DotallFlag.name() == "DOTALL"@);
    }
    assert(offers(list, "S"@, Value::Int(16))) by {
        assert(list[15] == (Attribute { name: StaticStrings::S, value: Value::Int(16) }));
        assert(StaticStrings::S.name() == "S"@);
    }
    assert(offers(list, "ASCII"@, Value::Int(256))) by {
        assert(list[16] == (Attribute { name: StaticStrings::AsciiFlag, value: Value::Int(256) }));
        assert(StaticStrings::AsciiFlag.name() == "ASCII"@);
    }
    assert(offers(list, "A"@, Value::Int(256))) by {
        assert(list[17] == (Attribute { name: StaticStrings::A, value: Value::Int(256) }));
        assert(StaticStrings::A.name() == "A"@);
    }
}

/// Each attribute that a module is made of is found under its name.
pub proof fn modules_have_what_they_are_made_of<T: ResourceTracker>(s: Scene<T>, list: Seq<Attribute>, i: int)
    requires
        0 <= i < list.len(),
        forall|a: int, b: int| 0 <= a < b < list.len() ==> (#[trigger] list[a]).name != (#[trigger] list[b]).name,
    ensures
        value_of(s, attribute_entries(list), list[i].name.name()) == Some(list[i].value),
{
    let es = attribute_entries(list);
    let key = list[i].name.name();
    assert forall|j: int| 0 <= j < es.len() implies s.text((#[trigger] es[j]).key) == Some(list[j].name.name()) by {
        static_ids_name_their_text(s.tables.strings, list[j].name);
    }
    lookups_find_the_first_entry(s, es, key);
    assert(s.text(es[i].key) == Some(key));
    match value_of(s, es, key) {
        Some(v) => {
            let k = choose|k: int|
                {
                    &&& 0 <= k < es.len()
                    &&& s.text((#[trigger] es[k]).key) == Some(key)
                    &&& es[k].value == v
                };
            static_names_are_distinct(list[k].name, list[i].name);
        },
        None => {},
    }
}

/// `os.getenv` asks the host for the variable that its first argument names, with the second
/// one as what there is otherwise, or `None`. It takes nothing but a string and, perhaps, a
/// default.
pub proof fn getenv_asks_for_its_argument<T: ResourceTracker>(
    s: Scene<T>,
    before: HeapModel<T>,
    after: HeapModel<T>,
    f: OsFunctions,
    args: ArgValues,
    r: Result<AttrCallResult, RunError>,
)
    requires
        ModuleFunctions::Os(f).calls(s, before, after, args, r),
    ensures
        r is Ok <==> {
            &&& passed_by_name(args, 0) is None
            &&& passed(args, 2) is None
            &&& passed(args, 0) matches Some(key) && s.text(key) is Some
        },
        r matches Ok(a) ==> {
            &&& a matches AttrCallResult::OsCall(OsFunction::Getenv, asked)
            &&& passed(asked, 0) == passed(args, 0)
            &&& passed(asked, 1) == match passed(args, 1) {
                Some(v) => Some(v),
                None => Some(Value::PyNone),
            }
            &&& passed(asked, 2) is None
            &&& passed_by_name(asked, 0) is None
            &&& after == before
        },
{
    arguments_list_what_was_passed(args, 0);
    arguments_list_what_was_passed(args, 1);
    arguments_list_what_was_passed(args, 2);
}

/// A dataclass leaves calls of methods to the host, with the instance as the first argument
/// and all others behind it. An attribute of the instance is not taken for a method of the
/// host.
pub proof fn host_methods_get_their_instance<T: ResourceTracker>(
    interns: &Interns,
    before: HeapModel<T>,
    after: HeapModel<T>,
    data: HeapData,
    id: HeapId,
    attr: EitherStr,
    args: ArgValues,
    r: Result<AttrCallResult, RunError>,
    i: int,
)
    requires
        calls_payload(interns, before, after, data, id, attr, args, r),
        !(data is Module),
    ensures
        r matches Ok(AttrCallResult::MethodCall(name, asked)) ==> {
            &&& data matches HeapData::Dataclass(dc) && absent(
                scene(before, *interns),
                dc.attrs.entries@,
                name_text(interns.tables(), attr),
            )
            &&& name_text(interns.tables(), name) == name_text(interns.tables(), attr)
            &&& passed(asked, 0) == Some(Value::Ref(id))
            &&& i >= 0 ==> passed(asked, i + 1) == passed(args, i)
            &&& passed_by_name(asked, i) == passed_by_name(args, i)
        },
        r matches Ok(AttrCallResult::Native(call)) ==> {
            &&& call matches NativeCall::Method { receiver, name, args: asked }
            &&& receiver == Value::Ref(id)
            &&& name_text(interns.tables(), name) == name_text(interns.tables(), attr)
            &&& asked == args
        },
        data matches HeapData::Dataclass(dc) ==> (absent(
            scene(before, *interns),
            dc.attrs.entries@,
            name_text(interns.tables(), attr),
        ) ==> r matches Ok(AttrCallResult::MethodCall(..))),
        r matches Ok(a) ==> a is MethodCall || a is Native,
        r matches Err(e) ==> (e@ matches ErrorView::AttributeMissing { of, attr: a } && of == data.spec_type() && a
            == name_text(interns.tables(), attr)),
{
    let s = scene(before, *interns);
    let key = name_text(interns.tables(), attr);
    if let HeapData::Dataclass(dc) = data {
        lookups_find_the_first_entry(s, dc.attrs.entries@, key);
        if let Some(v) = value_of(s, dc.attrs.entries@, key) {
            let k = choose|k: int|
                0 <= k < dc.attrs.entries@.len() && s.text((#[trigger] dc.attrs.entries@[k]).key) == Some(key);
            assert(!absent(s, dc.attrs.entries@, key));
        }
    }
    arguments_list_what_was_passed(args, i);
    if let Ok(AttrCallResult::MethodCall(name, asked)) = r {
        arguments_list_what_was_passed(asked, 0);
        arguments_list_what_was_passed(asked, i);
        arguments_list_what_was_passed(asked, i + 1);
    }
}

/// A module goes by the name that it is imported by.
pub proof fn modules_go_by_their_names(module: BuiltinModule)
    ensures
        module.static_name().name() == match module {
            BuiltinModule::Sys => "sys"@,
            BuiltinModule::Collections => "collections"@,
            BuiltinModule::Typing => "typing"@,
            BuiltinModule::Asyncio => "asyncio"@,
            BuiltinModule::Pathlib => "pathlib"@,
            BuiltinModule::Os => "os"@,
            BuiltinModule::Re => "re"@,
        },
{
}

/// A module that is made has its name, and each of the attributes under its name.
pub proof fn new_modules_have_their_attributes<T: ResourceTracker>(
    s: Scene<T>,
    before: HeapModel<T>,
    after: HeapModel<T>,
    name: StaticStrings,
    list: Seq<Attribute>,
    id: HeapId,
    i: int,
)
    requires
        before.wf(),
        before.entries.len() < usize::MAX,
        makes_module(before, after, name, list, Ok(id)),
        distinct_names(list),
        0 <= i < list.len(),
    ensures
        data_at(after.entries, id) matches HeapData::Module(m) && {
            &&& id_text(s.tables.strings, m.name) == name.name()
            &&& m.attrs.entries@.len() == list.len()
            &&& leads(s, m.attrs.entries@, list[i].name.name(), list[i].value)
        },
{
    let m = choose|m: Module|
        {
            &&& m.name == static_id(name)
            &&& m.attrs.entries@ == attribute_entries(list)
            &&& #[trigger] before.allocates(after, HeapData::Module(m), Ok(id))
        };
    allocation_balances(before, HeapData::Module(m), after.tracker);
    static_ids_name_their_text(s.tables.strings, name);
    modules_have_what_they_are_made_of(s, list, i);
    lookups_find_the_first_entry(s, m.attrs.entries@, list[i].name.name());
}

/// Reading an attribute of an object is left to its type where that has attributes, and is a
/// matter of the module's own attributes for a module. Other objects have none.
pub proof fn attributes_are_left_to_types_that_have_them<T: ResourceTracker>(
    interns: &Interns,
    before: HeapModel<T>,
    after: HeapModel<T>,
    data: HeapData,
    attr: EitherStr,
    r: Dispatch<Option<AttrCallResult>>,
)
    requires
        reads_attr(interns, before, after, data, attr, r),
    ensures
        data is Module ==> r is Done,
        r matches Dispatch::Delegate(t) ==> t == data.spec_type() && after == before,
        data is Dataclass || data is Class || data is NamedTuple || data is Slice || data is Exception || data is Path
            || data is RePattern || data is ReMatch <==> r is Delegate,
        !(data is Module) && r is Done ==> r == Dispatch::<Option<AttrCallResult>>::Done(None) && after == before,
        data matches HeapData::Module(m) ==> match r {
            Dispatch::Done(Some(AttrCallResult::Value(v))) => leads(
                scene(before, *interns),
                m.attrs.entries@,
                name_text(interns.tables(), attr),
                v,
            ),
            Dispatch::Done(None) => absent(
                scene(before, *interns),
                m.attrs.entries@,
                name_text(interns.tables(), attr),
            ),
            _ => true,
        },
{
    if let (HeapData::Module(m), Dispatch::Done(found)) = (data, r) {
        modules_read_their_attributes(m, scene(before, *interns), before, after, attr, found);
    }
}

/// What has items in some order can be subscripted, and nothing else. Setting items is a
/// matter for the types that can be subscripted, but for ranges and named tuples.
pub proof fn what_has_ordered_items_has_subscripts(data: HeapData)
    ensures
        subscriptable(data) <==> payload_items(data) is Some && !(data is PySet || data is FrozenSet),
        item_assignable(data) <==> subscriptable(data) && !(data is Range || data is NamedTuple),
{
}

/// A call of an attribute reaches the object that it is called on, under the name that it is
/// called by and with all arguments: as a method of its type, or as one of the host with the
/// object as the first argument. Values that have no attributes refuse it.
pub proof fn attribute_calls_reach_their_object<T: ResourceTracker>(
    before: VmModel<T>,
    after: VmModel<T>,
    obj: Value,
    name: StringId,
    args: ArgValues,
    r: Result<CallResult, RunError>,
    i: int,
)
    requires
        before.calls_attr(after, obj, name, args, r),
        obj matches Value::Ref(id) ==> !(data_at(before.heap.entries, id) is Module),
        0 <= i,
    ensures
        r matches Ok(CallResult::Native(call)) ==> {
            &&& call matches NativeCall::Method { receiver, name: asked, args: given }
            &&& receiver == obj
            &&& name_text(before.scene().tables, asked) == id_text(before.scene().tables.strings, name)
            &&& given == args
        },
        r matches Ok(CallResult::MethodCall(asked, given)) ==> {
            &&& name_text(before.scene().tables, asked) == id_text(before.scene().tables.strings, name)
            &&& passed(given, 0) == Some(obj)
            &&& passed(given, i + 1) == passed(args, i)
            &&& passed_by_name(given, i) == passed_by_name(args, i)
        },
        r matches Ok(result) ==> result is Native || result is MethodCall,
        obj is InternString || obj is InternBytes ==> r is Ok,
        r matches Err(e) ==> (e@ matches ErrorView::AttributeMissing { of, attr } && of == before.scene().type_of(obj)
            && attr == id_text(before.scene().tables.strings, name)),
        after.stack == before.stack && after.frames == before.frames && after.namespaces == before.namespaces,
{
    if let Value::Ref(id) = obj {
        let data = data_at(before.heap.entries, id);
        let attr = EitherStr::Interned(name);
        let (called, outcome) = choose|called: HeapModel<T>, outcome: Result<AttrCallResult, RunError>|
            {
                &&& #[trigger] calls_payload(&before.interns, before.heap, called, data, id, attr, args, outcome)
                &&& is_from(outcome, r)
            };
        host_methods_get_their_instance(&before.interns, before.heap, called, data, id, attr, args, outcome, i);
        answers_are_passed_on(outcome, r);
    }
}

/// Functions of the `asyncio` module are left to the event loop, with their arguments as
/// they are.
pub proof fn asyncio_calls_are_passed_on<T: ResourceTracker>(
    s: Scene<T>,
    before: HeapModel<T>,
    after: HeapModel<T>,
    f: AsyncioFunctions,
    args: ArgValues,
    r: Result<AttrCallResult, RunError>,
)
    requires
        ModuleFunctions::Asyncio(f).calls(s, before, after, args, r),
    ensures
        r matches Ok(AttrCallResult::Native(NativeCall::Asyncio(g, given))) && g == f && given == args,
        after == before,
{
}

} // verus!
