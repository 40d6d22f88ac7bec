//! The arguments of `collections.namedtuple()`.

use crate::args::{
    ArgValues, arg_values, expect_text, gives_back, lemma_given_back, lemma_owned_sound, owns, push_entries, spares_others,
    value_to_str,
};
use crate::binding::{
    bind, bound, legible_keys, list_missing, missing_names, nothing_is_missing, proper_slots,
};
use crate::equality::{Scene, elements, scene};
use crate::exceptions::{ErrorView, RunError, opt_text};
use crate::function::copy_vec;
use crate::heap::{Heap, HeapModel, allocation_balances};
use crate::heap_arith::{allocate_holding, makes, makes_holding};
use crate::heap_data::{HeapData, child_ids};
use crate::heap_model::{data_at, kept, live, outside, sound, sound_heaps_have_no_dangling_references};
use crate::heap_ops::lemma_ref_in_refs;
use crate::intern::Interns;
use crate::iteration::{Item, ItemView, collect_items, collects, item_views, items_live};
use crate::resource::{ResourceError, ResourceTracker};
use crate::text::{texts, write_decimal};
use crate::types::field_names::{
    checked_names, name_problem, split_field_names, validate_field_names, validate_typename, words,
};
use crate::types::lookup::legible;
use crate::types::mappings::{DictEntry, lemma_flat_index, lemma_flat_len};
use crate::types::namedtuple_factory::NamedTupleFactory;
use crate::value::{EitherStr, HeapId, Value, holds, holds1, lemma_no_refs, refs, tally};
use crate::walk::Walk;
use vstd::prelude::*;

verus! {

/// What a call asks for: a type name, field names, a module name, and defaults.
#[verifier::ext_equal]
pub struct TypePlan {
    pub typename: Seq<char>,
    pub field_names: Seq<Seq<char>>,
    pub module_name: Option<Seq<char>>,
    pub defaults: Seq<ItemView>,
}

/// What a call asks for.
pub struct TypeParts {
    pub typename: String,
    pub field_names: Vec<String>,
    pub module_name: Option<String>,
    pub defaults: Vec<Item>,
}

impl View for TypeParts {
    type V = TypePlan;

    open spec fn view(&self) -> TypePlan {
        TypePlan {
            typename: self.typename@,
            field_names: texts(self.field_names@),
            module_name: opt_text(self.module_name),
            defaults: item_views(self.defaults@),
        }
    }
}

/// The parameters of `namedtuple()`.
pub open spec fn parameters() -> Seq<Seq<char>> {
    seq!["typename"@, "field_names"@, "rename"@, "module"@, "defaults"@]
}

fn list_parameters() -> (r: Vec<String>)
    ensures
        texts(r@) == parameters(),
{
    let r: Vec<String> = vec![
        "typename".to_owned(),
        "field_names".to_owned(),
        "rename".to_owned(),
        "module".to_owned(),
        "defaults".to_owned(),
    ];
    proof {
        assert(texts(r@) =~= parameters());
    }
    r
}

/// The field names that a value gives, before they are checked: the words of a
/// string, or the items of an iterable as `str()` shows them.
pub open spec fn raw_names<T: ResourceTracker>(s: Scene<T>, v: Value, depth: usize) -> Result<
    Seq<Seq<char>>,
    ErrorView,
> {
    match s.text(v) {
        Some(t) => Ok(words(t)),
        None => match s.items(v) {
            Some(items) => Ok(items.map_values(|item: ItemView| s.item_text(item, depth))),
            None => Err(ErrorView::NotIterable(s.type_of(v))),
        },
    }
}

/// The module name that an optional value gives.
pub open spec fn module_text<T: ResourceTracker>(s: Scene<T>, v: Option<Value>) -> Result<
    Option<Seq<char>>,
    ErrorView,
> {
    match v {
        None => Ok(None),
        Some(Value::PyNone) => Ok(None),
        Some(v) => match expect_text(s, v) {
            Ok(t) => Ok(Some(t)),
            Err(e) => Err(e),
        },
    }
}

/// The defaults that an optional value gives.
pub open spec fn default_items<T: ResourceTracker>(s: Scene<T>, v: Option<Value>) -> Result<Seq<ItemView>, ErrorView> {
    match v {
        None => Ok(Seq::empty()),
        Some(Value::PyNone) => Ok(Seq::empty()),
        Some(v) => match s.items(v) {
            Some(items) => Ok(items),
            None => Err(ErrorView::NotIterable(s.type_of(v))),
        },
    }
}

/// The argument that a parameter gets.
pub open spec fn argument(all: Seq<Value>, slot: Option<usize>) -> Option<Value> {
    match slot {
        Some(p) => Some(all[p as int]),
        None => None,
    }
}

/// What a call asks for once its arguments are bound.
pub open spec fn plan_bound<T: ResourceTracker>(
    s: Scene<T>,
    all: Seq<Value>,
    slots: Seq<Option<usize>>,
    depth: usize,
) -> Result<TypePlan, ErrorView> {
    let typename = s.str_value(argument(all, slots[0])->0, depth);
    match name_problem(typename) {
        Some(e) => Err(e),
        None => {
            let rename = match argument(all, slots[2]) {
                Some(v) => s.truth(v),
                None => false,
            };
            match raw_names(s, argument(all, slots[1])->0, depth) {
                Err(e) => Err(e),
                Ok(raw) => match checked_names(raw, rename) {
                    Err(e) => Err(e),
                    Ok(field_names) => match module_text(s, argument(all, slots[3])) {
                        Err(e) => Err(e),
                        Ok(module_name) => match default_items(s, argument(all, slots[4])) {
                            Err(e) => Err(e),
                            Ok(defaults) => if defaults.len() > field_names.len() {
                                Err(ErrorView::TooManyDefaults)
                            } else {
                                Ok(TypePlan { typename, field_names, module_name, defaults })
                            },
                        },
                    },
                },
            }
        },
    }
}

/// What a call asks for, or why it fails.
pub open spec fn plan_type<T: ResourceTracker>(
    s: Scene<T>,
    pos: Seq<Value>,
    kws: Seq<DictEntry>,
    depth: usize,
) -> Result<TypePlan, ErrorView> {
    let all = arg_values(pos, kws);
    if pos.len() > 2 {
        Err(
            ErrorView::TooManyPositional {
                name: "namedtuple"@,
                expected: 2,
                given: pos.len() as usize,
                kwargs: kws.len() as usize,
            },
        )
    } else {
        match bound(s, "namedtuple"@, parameters(), all, pos.len()) {
            Err(e) => Err(e),
            Ok(slots) => {
                let missing = missing_names(parameters(), slots, 2);
                if missing.len() > 0 {
                    Err(ErrorView::MissingPositional { name: "namedtuple"@, missing })
                } else {
                    plan_bound(s, all, slots, depth)
                }
            },
        }
    }
}

/// Does a result say what the plan says?
pub open spec fn settles(plan: Result<TypePlan, ErrorView>, r: Result<TypeParts, RunError>) -> bool {
    match r {
        Ok(p) => plan == Ok::<TypePlan, ErrorView>(p@),
        Err(e) => plan == Err::<TypePlan, ErrorView>(e@),
    }
}

/// Can the items of an iterable be shown?
pub open spec fn items_at_hand<T: ResourceTracker>(s: Scene<T>, items: Seq<ItemView>) -> bool {
    forall|i: int|
        0 <= i < items.len() ==> (#[trigger] items[i] matches ItemView::Stored(v) ==> s.at_hand(Walk::Show, v))
}

/// Can field names be taken from the value: a string, or an iterable whose items can be
/// shown?
pub open spec fn names_at_hand<T: ResourceTracker>(s: Scene<T>, v: Value) -> bool {
    &&& s.iterable_here(v)
    &&& s.text(v) is None ==> (s.items(v) matches Some(items) ==> items_at_hand(s, items))
}

/// Can everything be read that is looked at once the arguments are bound? The type name
/// is shown, the field names and the defaults are iterated over, and the others are
/// looked at themselves.
pub open spec fn bound_at_hand<T: ResourceTracker>(s: Scene<T>, all: Seq<Value>, slots: Seq<Option<usize>>) -> bool {
    &&& argument(all, slots[0]) matches Some(v) ==> s.at_hand(Walk::Show, v)
    &&& argument(all, slots[1]) matches Some(v) ==> names_at_hand(s, v)
    &&& argument(all, slots[2]) matches Some(v) ==> legible(s, seq![v])
    &&& argument(all, slots[3]) matches Some(v) ==> legible(s, seq![v])
    &&& argument(all, slots[4]) matches Some(v) ==> s.iterable_here(v)
}

/// Can everything be read that a call looks at: the keywords, and the arguments that
/// they and their positions bind?
pub open spec fn presentable<T: ResourceTracker>(s: Scene<T>, all: Seq<Value>, n: nat) -> bool {
    n <= 2 ==> {
        &&& legible_keys(s, all, n)
        &&& bound(s, "namedtuple"@, parameters(), all, n) matches Ok(slots) ==> bound_at_hand(s, all, slots)
    }
}

/// Writes the items of an iterable as `str()` shows them.
fn write_items<T: ResourceTracker>(items: &Vec<Item>, heap: &Heap<T>, interns: &Interns, depth: usize) -> (r: Vec<
    String,
>)
    requires
        forall|i: int|
            0 <= i < items@.len() ==> (#[trigger] items@[i] matches Item::Stored(v) ==> scene(heap@, *interns).at_hand(
                Walk::Show,
                v,
            )),
    ensures
        texts(r@) == item_views(items@).map_values(
            |item: ItemView| scene(heap@, *interns).item_text(item, depth),
        ),
{
    let ghost s = scene(heap@, *interns);
    let mut out: Vec<String> = Vec::with_capacity(items.len());
    let mut i: usize = 0;
    while i < items.len()
        invariant
            i <= items@.len(),
            s == scene(heap@, *interns),
            forall|k: int|
                0 <= k < items@.len() ==> (#[trigger] items@[k] matches Item::Stored(v) ==> s.at_hand(Walk::Show, v)),
            out@.len() == i,
            forall|k: int| 0 <= k < i ==> (#[trigger] out@[k])@ == s.item_text(items@[k]@, depth),
        decreases items.len() - i,
    {
        let item: Item = items[i];
        let text: String = match item {
            Item::Stored(v) => v.py_str(heap, interns, depth),
            Item::Char(c) => {
                let mut text: String = String::new();
                text.push(c);
                proof {
                    assert(text@ =~= seq![c]);
                }
                text
            },
            Item::Number(n) => write_decimal(n),
        };
        out.push(text);
        i = i + 1;
    }
    proof {
        let shown = item_views(items@).map_values(|item: ItemView| s.item_text(item, depth));
        assert forall|k: int| 0 <= k < items@.len() implies texts(out@)[k] == #[trigger] shown[k] by {
            assert(item_views(items@)[k] == items@[k]@);
            assert(out@[k]@ == s.item_text(items@[k]@, depth));
        }
        assert(texts(out@) =~= shown);
    }
    out
}

/// In a sound heap what an iterable stores is live.
proof fn lemma_items_live<T: ResourceTracker>(s: Scene<T>, v: Value)
    requires
        sound(s.entries),
        s.iterable_here(v),
        s.items(v) is Some,
    ensures
        items_live(s.entries, s.items(v)->0),
{
    assert(s.has(seq![v][0]));
    let source = match s.iterator(v) {
        Some(it) => it.value,
        None => v,
    };
    if let Some(it) = s.iterator(v) {
        assert(s.has(seq![it.value][0]));
    }
    let all = s.all_items(source)->0;
    assert forall|i: int| 0 <= i < all.len() implies (#[trigger] all[i] matches ItemView::Stored(Value::Ref(x)) ==> live(
        s.entries,
        x,
    )) by {
        if let ItemView::Stored(Value::Ref(x)) = all[i] {
            if let Value::Ref(id) = source {
                let data = data_at(s.entries, id);
                let (vs, k) = if let HeapData::Dict(d) = data {
                    lemma_flat_index(d.entries@, i);
                    (elements(data), 2 * i)
                } else {
                    (elements(data), i)
                };
                assert(vs[k] == Value::Ref(x));
                lemma_ref_in_refs(vs, k);
                assert(child_ids(data) == refs(vs));
                let j = choose|j: int| 0 <= j < refs(vs).len() && refs(vs)[j] == x;
                sound_heaps_have_no_dangling_references(s.entries, id, j);
            }
        }
    }
    assert forall|i: int| 0 <= i < s.items(v)->0.len() implies (#[trigger] s.items(v)->0[i] matches ItemView::Stored(
        Value::Ref(x),
    ) ==> live(s.entries, x)) by {
        if let Some(it) = s.iterator(v) {
            assert(s.items(v)->0[i] == all[i + it.index]);
        }
    }
}

/// Returns the field names that a value gives, before they are checked.
///
/// Accepts either a string or an iterable of values.
fn parse_field_names<T: ResourceTracker>(v: Value, heap: &Heap<T>, interns: &Interns, depth: usize) -> (r: Result<
    Vec<String>,
    RunError,
>)
    requires
        names_at_hand(scene(heap@, *interns), v),
    ensures
        match r {
            Ok(names) => raw_names(scene(heap@, *interns), v, depth) == Ok::<Seq<Seq<char>>, ErrorView>(texts(names@)),
            Err(e) => raw_names(scene(heap@, *interns), v, depth) == Err::<Seq<Seq<char>>, ErrorView>(e@),
        },
{
    let ghost s = scene(heap@, *interns);
    proof {
        assert(s.has(seq![v][0]));
    }
    if let Some(text) = v.as_text(heap, interns) {
        return Ok(split_field_names(text));
    }
    match v.list_items(heap, interns) {
        Some(items) => {
            proof {
                assert forall|i: int| 0 <= i < items@.len() implies (#[trigger] items@[i] matches Item::Stored(w)
                    ==> s.at_hand(Walk::Show, w)) by {
                    assert(item_views(items@)[i] == items@[i]@);
                }
            }
            Ok(write_items(&items, heap, interns, depth))
        },
        None => Err(RunError::NotIterable(v.py_type(heap, interns))),
    }
}

/// Returns the module name that an optional value gives.
fn parse_module_name<T: ResourceTracker>(v: Option<Value>, heap: &Heap<T>, interns: &Interns) -> (r: Result<
    Option<String>,
    RunError,
>)
    requires
        v matches Some(w) ==> legible(scene(heap@, *interns), seq![w]),
    ensures
        match r {
            Ok(name) => module_text(scene(heap@, *interns), v) == Ok::<Option<Seq<char>>, ErrorView>(
                opt_text(name),
            ),
            Err(e) => module_text(scene(heap@, *interns), v) == Err::<Option<Seq<char>>, ErrorView>(e@),
        },
{
    match v {
        None => Ok(None),
        Some(Value::PyNone) => Ok(None),
        Some(w) => {
            proof {
                assert(scene(heap@, *interns).has(seq![w][0]));
            }
            match value_to_str(w, heap, interns) {
                Ok(t) => Ok(Some(t)),
                Err(e) => Err(e),
            }
        },
    }
}

/// Returns the defaults that an optional value gives.
fn parse_defaults<T: ResourceTracker>(v: Option<Value>, heap: &Heap<T>, interns: &Interns) -> (r: Result<
    Vec<Item>,
    RunError,
>)
    requires
        v matches Some(w) ==> scene(heap@, *interns).iterable_here(w),
    ensures
        match r {
            Ok(items) => default_items(scene(heap@, *interns), v) == Ok::<Seq<ItemView>, ErrorView>(
                item_views(items@),
            ),
            Err(e) => default_items(scene(heap@, *interns), v) == Err::<Seq<ItemView>, ErrorView>(e@),
        },
{
    let none: Vec<Item> = Vec::new();
    proof {
        assert(item_views(none@) =~= Seq::empty());
    }
    match v {
        None => Ok(none),
        Some(Value::PyNone) => Ok(none),
        Some(w) => {
            proof {
                assert(scene(heap@, *interns).has(seq![w][0]));
            }
            match w.list_items(heap, interns) {
                Some(items) => Ok(items),
                None => Err(RunError::NotIterable(w.py_type(heap, interns))),
            }
        },
    }
}

/// Decides what a call asks for once its arguments are bound.
#[verifier::rlimit(30)]
fn decide_bound<T: ResourceTracker>(
    all: &Vec<Value>,
    slots: &Vec<Option<usize>>,
    heap: &Heap<T>,
    interns: &Interns,
    depth: usize,
) -> (r: Result<TypeParts, RunError>)
    requires
        bound_at_hand(scene(heap@, *interns), all@, slots@),
        slots@.len() == 5,
        proper_slots(slots@, all@.len()),
        slots@[0] is Some,
        slots@[1] is Some,
    ensures
        settles(plan_bound(scene(heap@, *interns), all@, slots@, depth), r),
        r is Ok && sound(heap@.entries) ==> items_live(heap@.entries, item_views(r->Ok_0.defaults@)),
{
    let ghost s = scene(heap@, *interns);
    let (typename_at, field_names_at): (usize, usize) = match (slots[0], slots[1]) {
        (Some(a), Some(b)) => (a, b),
        _ => vstd::pervasive::unreached(),
    };
    let rename_val: Option<Value> = pick(all, slots[2]);
    let module_val: Option<Value> = pick(all, slots[3]);
    let defaults_val: Option<Value> = pick(all, slots[4]);
    let typename: String = all[typename_at].py_str(heap, interns, depth);
    match validate_typename(typename.as_str()) {
        Ok(_) => {},
        Err(e) => {
            return Err(e);
        },
    }
    let rename: bool = match rename_val {
        Some(v) => {
            proof {
                assert(s.has(seq![v][0]));
            }
            v.py_bool(heap, interns)
        },
        None => false,
    };
    let raw: Vec<String> = match parse_field_names(all[field_names_at], heap, interns, depth) {
        Ok(raw) => raw,
        Err(e) => {
            return Err(e);
        },
    };
    let field_names: Vec<String> = match validate_field_names(&raw, rename) {
        Ok(field_names) => field_names,
        Err(e) => {
            return Err(e);
        },
    };
    let module_name: Option<String> = match parse_module_name(module_val, heap, interns) {
        Ok(module_name) => module_name,
        Err(e) => {
            return Err(e);
        },
    };
    let defaults: Vec<Item> = match parse_defaults(defaults_val, heap, interns) {
        Ok(defaults) => defaults,
        Err(e) => {
            return Err(e);
        },
    };
    proof {
        assert(item_views(defaults@).len() == defaults@.len());
        assert(texts(field_names@).len() == field_names@.len());
        if let Some(v) = defaults_val {
            if v != Value::PyNone && sound(s.entries) {
                lemma_items_live(s, v);
            }
        }
    }
    if defaults.len() > field_names.len() {
        return Err(RunError::TooManyDefaults);
    }
    Ok(TypeParts { typename, field_names, module_name, defaults })
}

/// Returns the argument that a parameter gets.
fn pick(all: &Vec<Value>, slot: Option<usize>) -> (r: Option<Value>)
    requires
        slot matches Some(p) ==> p < all@.len(),
    ensures
        r == argument(all@, slot),
{
    match slot {
        Some(p) => Some(all[p]),
        None => None,
    }
}

/// Parses and validates a `collections.namedtuple()` call.
fn parse_namedtuple_args<T: ResourceTracker>(
    all: &Vec<Value>,
    n: usize,
    kwargs_count: usize,
    heap: &Heap<T>,
    interns: &Interns,
    depth: usize,
) -> (r: Result<TypeParts, RunError>)
    requires
        presentable(scene(heap@, *interns), all@, n as nat),
        n + 2 * kwargs_count == all@.len(),
    ensures
        forall|pos: Seq<Value>, kws: Seq<DictEntry>|
            all@ == #[trigger] arg_values(pos, kws) && pos.len() == n && kws.len() == kwargs_count ==> settles(
                plan_type(scene(heap@, *interns), pos, kws, depth),
                r,
            ),
        r is Ok && sound(heap@.entries) ==> items_live(heap@.entries, item_views(r->Ok_0.defaults@)),
{
    let ghost s = scene(heap@, *interns);
    if n > 2 {
        return Err(
            RunError::TooManyPositional {
                name: "namedtuple".to_owned(),
                expected: 2,
                given: n,
                kwargs: kwargs_count,
            },
        );
    }
    let params: Vec<String> = list_parameters();
    proof {
        assert(texts(params@).len() == 5);
    }
    let slots: Vec<Option<usize>> = match bind("namedtuple", &params, all, n, heap, interns) {
        Ok(slots) => slots,
        Err(e) => {
            return Err(e);
        },
    };
    let missing: Vec<String> = list_missing(&params, &slots, 2);
    if missing.len() > 0 {
        proof {
            assert(texts(missing@).len() == missing@.len());
        }
        return Err(RunError::MissingPositional { name: "namedtuple".to_owned(), missing });
    }
    proof {
        assert(texts(missing@).len() == 0);
        nothing_is_missing(parameters(), slots@, 2);
    }
    decide_bound(all, &slots, heap, interns, depth)
}

/// Is the factory what a plan asks for?
pub open spec fn realizes(f: NamedTupleFactory, plan: TypePlan) -> bool {
    &&& f.wf()
    &&& f.typename matches EitherStr::Heap(t) && t@ == plan.typename
    &&& f.field_names@.len() == plan.field_names.len()
    &&& forall|i: int|
        0 <= i < f.field_names@.len() ==> ((#[trigger] f.field_names@[i]) matches EitherStr::Heap(t) && t@
            == plan.field_names[i])
    &&& match plan.module_name {
        Some(m) => f.module_name matches Some(EitherStr::Heap(t)) && t@ == m,
        None => f.module_name is None,
    }
}

/// May carrying out a plan turn the heap into `after` and give `r`?
///
/// The defaults are collected, the arguments are given up, and the factory is
/// allocated. Where the tracker refuses it, the defaults are given up too.
pub open spec fn makes_type<T: ResourceTracker>(
    before: HeapModel<T>,
    after: HeapModel<T>,
    all: Seq<Value>,
    plan: TypePlan,
    r: Result<Value, RunError>,
) -> bool {
    ||| exists|mid: HeapModel<T>, e: ResourceError|
        {
            &&& r == Err::<Value, RunError>(RunError::Resource(e))
            &&& #[trigger] collects(before, mid, plan.defaults, Err(e))
            &&& mid.gave_up(after, refs(all))
        }
    ||| exists|mid: HeapModel<T>, rest: HeapModel<T>, f: NamedTupleFactory|
        {
            &&& collects(before, mid, plan.defaults, Ok(f.defaults@))
            &&& #[trigger] mid.gave_up(rest, refs(all))
            &&& #[trigger] realizes(f, plan)
            &&& match r {
                Ok(v) => makes_holding(rest, after, HeapData::NamedTupleFactory(f), f.defaults@, Ok(v)),
                Err(RunError::Resource(e)) => makes_holding(
                    rest,
                    after,
                    HeapData::NamedTupleFactory(f),
                    f.defaults@,
                    Err(e),
                ),
                Err(_) => false,
            }
        }
}

/// May a call of `namedtuple()` turn the heap into `after` and give `r`?
pub open spec fn creates_type<T: ResourceTracker>(
    s: Scene<T>,
    before: HeapModel<T>,
    after: HeapModel<T>,
    args: ArgValues,
    r: Result<Value, RunError>,
) -> bool {
    match plan_type(s, args.positional(), args.keywords(), before.recursion_depth) {
        Err(e) => r matches Err(err) && err@ == e && before.gave_up(after, refs(args.values())),
        Ok(plan) => makes_type(before, after, args.values(), plan, r),
    }
}

/// Is there room for the defaults that a call asks for?
pub open spec fn room_for_defaults<T: ResourceTracker>(m: HeapModel<T>, plan: Result<TypePlan, ErrorView>) -> bool {
    plan matches Ok(plan) ==> m.room(plan.defaults.len()) && m.entries.len() + plan.defaults.len() < usize::MAX
}

/// Turns texts into names of their own.
fn own_names(names: Vec<String>) -> (r: Vec<EitherStr>)
    ensures
        r@.len() == names@.len(),
        forall|i: int| 0 <= i < r@.len() ==> ((#[trigger] r@[i]) matches EitherStr::Heap(t) && t@ == names@[i]@),
{
    let mut out: Vec<EitherStr> = Vec::with_capacity(names.len());
    let mut i: usize = 0;
    while i < names.len()
        invariant
            i <= names@.len(),
            out@.len() == i,
            forall|k: int| 0 <= k < i ==> ((#[trigger] out@[k]) matches EitherStr::Heap(t) && t@ == names@[k]@),
        decreases names.len() - i,
    {
        out.push(EitherStr::Heap(names[i].as_str().to_owned()));
        i = i + 1;
    }
    out
}

impl NamedTupleFactory {
    /// Builds and allocates a namedtuple factory from a `collections.namedtuple()` call.
    ///
    /// This implements the public API supported by Monty:
    /// `namedtuple(typename, field_names, *, rename=False, module=None, defaults=None)`.
    pub fn create_from_namedtuple_call<T: ResourceTracker>(
        heap: &mut Heap<T>,
        args: ArgValues,
        interns: &Interns,
    ) -> (r: Result<Value, RunError>)
        requires
            old(heap)@.wf(),
            old(heap)@.entries.len() < usize::MAX,
            owns(old(heap)@.entries, args.values()),
            presentable(scene(old(heap)@, *interns), args.values(), args.positional().len()),
            room_for_defaults(
                old(heap)@,
                plan_type(
                    scene(old(heap)@, *interns),
                    args.positional(),
                    args.keywords(),
                    old(heap)@.recursion_depth,
                ),
            ),
        ensures
            creates_type(scene(old(heap)@, *interns), old(heap)@, final(heap)@, args, r),
            final(heap)@.wf(),
            sound(final(heap)@.entries),
            spares_others(old(heap)@.entries, final(heap)@.entries, args.values()),
            r is Err ==> gives_back(old(heap)@.entries, final(heap)@.entries, args.values()),
            r matches Ok(v) ==> forall|x: HeapId|
                #[trigger] outside(final(heap)@.entries, x) == outside(old(heap)@.entries, x) - holds(
                    args.values(),
                    x,
                ) + holds1(v, x),
    {
        let ghost s = scene(heap@, *interns);
        let depth: usize = heap.get_recursion_depth();
        let (pos, kws): (Vec<Value>, Vec<DictEntry>) = args.into_parts();
        let n: usize = pos.len();
        let kwargs_count: usize = kws.len();
        let mut all: Vec<Value> = pos;
        push_entries(&mut all, &kws);
        proof {
            lemma_flat_len(kws@);
            assert(all@ == arg_values(pos@, kws@));
            lemma_owned_sound(heap@, all@);
        }
        let plan: Result<TypeParts, RunError> = parse_namedtuple_args(
            &all,
            n,
            kwargs_count,
            heap,
            interns,
            depth,
        );
        let ghost d = plan_type(s, pos@, kws@, depth);
        assert(settles(d, plan));
        let parts: TypeParts = match plan {
            Ok(parts) => parts,
            Err(e) => {
                heap.discard_all(all.as_slice());
                proof {
                    lemma_given_back(old(heap)@, heap@, all@);
                }
                return Err(e);
            },
        };
        proof {
            assert(item_views(parts.defaults@).len() == parts.defaults@.len());
        }
        let ghost asked = parts@;
        let collected: Result<Vec<Value>, ResourceError> = collect_items(&parts.defaults, heap);
        let ghost mid = heap@;
        proof {
            assert forall|x: HeapId| #[trigger] outside(mid.entries, x) >= tally(refs(all@), x) + kept(x) by {
                assert(outside(old(heap)@.entries, x) >= tally(refs(all@), x) + kept(x));
            }
        }
        heap.discard_all(all.as_slice());
        let ghost rest = heap@;
        let defaults: Vec<Value> = match collected {
            Ok(defaults) => defaults,
            Err(e) => {
                proof {
                    assert(collects(old(heap)@, mid, asked.defaults, Err(e)));
                    assert(makes_type(old(heap)@, heap@, all@, asked, Err(RunError::Resource(e))));
                    lemma_given_back(mid, heap@, all@);
                    assert forall|x: HeapId| #[trigger]
                        outside(heap@.entries, x) == outside(old(heap)@.entries, x) - holds(all@, x) by {
                        assert(outside(mid.entries, x) == outside(old(heap)@.entries, x));
                    }
                }
                return Err(RunError::Resource(e));
            },
        };
        let module_name: Option<EitherStr> = match parts.module_name {
            Some(m) => Some(EitherStr::Heap(m)),
            None => None,
        };
        let held: Vec<Value> = copy_vec(defaults.as_slice());
        let factory: NamedTupleFactory = NamedTupleFactory::new(
            EitherStr::Heap(parts.typename),
            own_names(parts.field_names),
            defaults,
            module_name,
        );
        let ghost f = factory;
        proof {
            assert forall|x: HeapId| #[trigger] outside(rest.entries, x) >= tally(refs(held@), x) + kept(x) by {
                assert(outside(mid.entries, x) == outside(old(heap)@.entries, x) + holds(held@, x));
                assert(outside(rest.entries, x) == outside(mid.entries, x) - tally(refs(all@), x));
                assert(outside(old(heap)@.entries, x) >= tally(refs(all@), x) + kept(x));
            }
        }
        let outcome: Result<Value, ResourceError> = allocate_holding(
            HeapData::NamedTupleFactory(factory),
            held.as_slice(),
            heap,
        );
        let r: Result<Value, RunError> = match outcome {
            Ok(v) => Ok(v),
            Err(e) => Err(RunError::Resource(e)),
        };
        proof {
            assert(realizes(f, asked)) by {
                assert forall|i: int| 0 <= i < f.field_names@.len() implies ((#[trigger] f.field_names@[i]) matches EitherStr::Heap(
                    t,
                ) && t@ == asked.field_names[i]) by {
                    assert(texts(parts.field_names@)[i] == parts.field_names@[i]@);
                }
            }
            assert(mid.gave_up(rest, refs(all@)));
            assert(collects(old(heap)@, mid, asked.defaults, Ok(f.defaults@)));
            assert(makes_type(old(heap)@, heap@, all@, asked, r));
            assert forall|x: HeapId| #[trigger] tally(child_ids(HeapData::NamedTupleFactory(f)), x) == holds(
                f.defaults@,
                x,
            ) by {
                if !f.contains_refs {
                    lemma_no_refs(f.defaults@);
                }
            }
            match outcome {
                Ok(v) => {
                    allocation_balances(rest, HeapData::NamedTupleFactory(f), heap@.tracker);
                    assert forall|x: HeapId| #[trigger]
                        outside(heap@.entries, x) == outside(old(heap)@.entries, x) - holds(all@, x) + holds1(v, x) by {
                        assert(tally(child_ids(HeapData::NamedTupleFactory(f)), x) == holds(f.defaults@, x));
                        assert(outside(mid.entries, x) == outside(old(heap)@.entries, x) + holds(f.defaults@, x));
                        assert(outside(rest.entries, x) == outside(mid.entries, x) - tally(refs(all@), x));
                    }
                    assert forall|x: HeapId| #[trigger] outside(heap@.entries, x) >= kept(x) by {
                        assert(outside(old(heap)@.entries, x) >= tally(refs(all@), x) + kept(x));
                    }
                },
                Err(e) => {
                    let refused = choose|refused: HeapModel<T>| #[trigger]
                        makes(rest, refused, HeapData::NamedTupleFactory(f), Err(e)) && refused.gave_up(
                            heap@,
                            refs(held@),
                        );
                    assert forall|x: HeapId| #[trigger]
                        outside(heap@.entries, x) == outside(old(heap)@.entries, x) - holds(all@, x) by {
                        assert(outside(heap@.entries, x) == outside(refused.entries, x) - tally(refs(held@), x));
                        assert(outside(mid.entries, x) == outside(old(heap)@.entries, x) + holds(f.defaults@, x));
                        assert(outside(rest.entries, x) == outside(mid.entries, x) - tally(refs(all@), x));
                    }
                },
            }
        }
        r
    }
}

} // verus!
