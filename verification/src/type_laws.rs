//! What `namedtuple()` makes of its arguments.

use crate::args::{ArgValues, arg_values};
use crate::binding::{bound, nothing_is_missing};
use crate::binding_laws::{arguments_are_bound_where_they_fit, fits, lemma_slots, named};
use crate::equality::Scene;
use crate::exceptions::ErrorView;
use crate::hash::name_text;
use crate::heap::HeapModel;
use crate::heap_arith::{lemma_made, makes};
use crate::heap_data::HeapData;
use crate::heap_model::data_at;
use crate::iteration::{ItemView, collects};
use crate::regex_laws::{chosen, lemma_chosen_once};
use crate::resource::ResourceTracker;
use crate::types::field_names::{checked_names, name_problem, words};
use crate::types::mappings::{DictEntry, lemma_flat_len};
use crate::types::namedtuple_args::{
    TypePlan, argument, creates_type, parameters, plan_type, raw_names, realizes, room_for_defaults,
};
use crate::types::namedtuple_factory::NamedTupleFactory;
use crate::value::{Value, refs};
use vstd::prelude::*;

verus! {

/// Are these the texts of the items, in order?
pub open spec fn shown<T: ResourceTracker>(
    s: Scene<T>,
    items: Seq<ItemView>,
    depth: usize,
    names: Seq<Seq<char>>,
) -> bool {
    names.len() == items.len() && forall|i: int|
        0 <= i < items.len() ==> #[trigger] names[i] == s.item_text(items[i], depth)
}

/// Are these the names that a value gives: the words of a text, or the texts of items?
pub open spec fn named_by<T: ResourceTracker>(s: Scene<T>, v: Value, depth: usize, names: Seq<Seq<char>>) -> bool {
    match s.text(v) {
        Some(t) => names == words(t),
        None => s.items(v) matches Some(items) && shown(s, items, depth, names),
    }
}

/// Does the plan say what the arguments ask for?
pub open spec fn described<T: ResourceTracker>(
    s: Scene<T>,
    depth: usize,
    typename: Option<Value>,
    field_names: Option<Value>,
    rename: Option<Value>,
    module: Option<Value>,
    defaults: Option<Value>,
    plan: TypePlan,
) -> bool {
    &&& typename matches Some(v) && plan.typename == s.str_value(v, depth)
    &&& name_problem(plan.typename) is None
    &&& field_names matches Some(v) && exists|names: Seq<Seq<char>>| #[trigger]
        named_by(s, v, depth, names) && checked_names(names, rename matches Some(w) && s.truth(w)) == Ok::<
            Seq<Seq<char>>,
            ErrorView,
        >(plan.field_names)
    &&& match module {
        None | Some(Value::PyNone) => plan.module_name is None,
        Some(v) => plan.module_name is Some && s.text(v) == plan.module_name,
    }
    &&& match defaults {
        None | Some(Value::PyNone) => plan.defaults.len() == 0,
        Some(v) => s.items(v) == Some(plan.defaults),
    }
    &&& plan.defaults.len() <= plan.field_names.len()
}

/// Are these the arguments of a call, by position or by name?
pub open spec fn asked<T: ResourceTracker>(
    s: Scene<T>,
    pos: Seq<Value>,
    kws: Seq<DictEntry>,
    typename: Option<Value>,
    field_names: Option<Value>,
    rename: Option<Value>,
    module: Option<Value>,
    defaults: Option<Value>,
) -> bool {
    &&& chosen(s, pos, kws, 0, "typename"@, typename)
    &&& chosen(s, pos, kws, 1, "field_names"@, field_names)
    &&& chosen(s, pos, kws, 2, "rename"@, rename)
    &&& chosen(s, pos, kws, 3, "module"@, module)
    &&& chosen(s, pos, kws, 4, "defaults"@, defaults)
}

proof fn lemma_parameters()
    ensures
        parameters().no_duplicates(),
        parameters().len() == 5,
{
    reveal_strlit("typename");
    reveal_strlit("field_names");
    reveal_strlit("rename");
    reveal_strlit("module");
    reveal_strlit("defaults");
    let p = parameters();
    assert(p[0][0] == 't' && p[1][0] == 'f' && p[2][0] == 'r' && p[3][0] == 'm' && p[4][0] == 'd');
}

proof fn lemma_argument<T: ResourceTracker>(
    s: Scene<T>,
    pos: Seq<Value>,
    kws: Seq<DictEntry>,
    slots: Seq<Option<usize>>,
    i: int,
)
    requires
        pos.len() <= 5,
        pos.len() + 2 * kws.len() <= usize::MAX,
        bound(s, "namedtuple"@, parameters(), arg_values(pos, kws), pos.len()) == Ok::<Seq<Option<usize>>, ErrorView>(
            slots,
        ),
        0 <= i < 5,
    ensures
        chosen(s, pos, kws, i, parameters()[i], argument(arg_values(pos, kws), slots[i])),
{
    lemma_parameters();
    let params = parameters();
    lemma_slots(s, "namedtuple"@, params, pos, kws, slots);
    lemma_flat_len(kws);
    let name = params[i];
    if i >= pos.len() {
        if slots[i] is Some {
            assert(named(s, kws, name));
            let k = choose|k: int| 0 <= k < kws.len() && s.text((#[trigger] kws[k]).key) == Some(name);
            assert forall|m: int| k < m < kws.len() implies s.text((#[trigger] kws[m]).key) != Some(name) by {
                if s.text(kws[m].key) == Some(name) {
                    assert(slots[i] == Some((pos.len() + 2 * k + 1) as usize));
                    assert(slots[i] == Some((pos.len() + 2 * m + 1) as usize));
                }
            }
            assert(kws[k].value == argument(arg_values(pos, kws), slots[i])->0);
        } else {
            assert(!named(s, kws, name));
            assert forall|m: int| 0 <= m < kws.len() implies s.text((#[trigger] kws[m]).key) != Some(name) by {
                if s.text(kws[m].key) == Some(name) {
                    assert(named(s, kws, name));
                }
            }
        }
    }
}

/// A call of `namedtuple()` plans a type with the name, the fields, the module and the
/// defaults that its arguments give. The first two arguments may come by position, the
/// others only by name.
pub proof fn types_are_planned_as_asked<T: ResourceTracker>(
    s: Scene<T>,
    pos: Seq<Value>,
    kws: Seq<DictEntry>,
    depth: usize,
    plan: TypePlan,
)
    requires
        pos.len() + 2 * kws.len() <= usize::MAX,
        plan_type(s, pos, kws, depth) == Ok::<TypePlan, ErrorView>(plan),
    ensures
        pos.len() <= 2,
        exists|t: Option<Value>, f: Option<Value>, r: Option<Value>, m: Option<Value>, d: Option<Value>| #[trigger]
            asked(s, pos, kws, t, f, r, m, d) && described(s, depth, t, f, r, m, d, plan),
{
    let all = arg_values(pos, kws);
    let slots = bound(s, "namedtuple"@, parameters(), all, pos.len())->Ok_0;
    lemma_argument(s, pos, kws, slots, 0);
    lemma_argument(s, pos, kws, slots, 1);
    lemma_argument(s, pos, kws, slots, 2);
    lemma_argument(s, pos, kws, slots, 3);
    lemma_argument(s, pos, kws, slots, 4);
    lemma_parameters();
    lemma_slots(s, "namedtuple"@, parameters(), pos, kws, slots);
    nothing_is_missing(parameters(), slots, 2);
    let t = argument(all, slots[0]);
    let f = argument(all, slots[1]);
    let r = argument(all, slots[2]);
    let m = argument(all, slots[3]);
    let d = argument(all, slots[4]);
    assert(slots[0] is Some && slots[1] is Some);
    let names = raw_names(s, f->0, depth)->Ok_0;
    assert(named_by(s, f->0, depth, names));
    assert(asked(s, pos, kws, t, f, r, m, d));
    assert(described(s, depth, t, f, r, m, d, plan));
}

/// A call of `namedtuple()` succeeds in planning wherever its arguments fit and describe a
/// type.
pub proof fn describable_types_are_planned<T: ResourceTracker>(
    s: Scene<T>,
    pos: Seq<Value>,
    kws: Seq<DictEntry>,
    depth: usize,
    t: Option<Value>,
    f: Option<Value>,
    r: Option<Value>,
    m: Option<Value>,
    d: Option<Value>,
    plan: TypePlan,
)
    requires
        pos.len() + 2 * kws.len() <= usize::MAX,
        pos.len() <= 2,
        fits(s, parameters(), 3, pos, kws),
        asked(s, pos, kws, t, f, r, m, d),
        described(s, depth, t, f, r, m, d, plan),
    ensures
        plan_type(s, pos, kws, depth) == Ok::<TypePlan, ErrorView>(plan),
{
    lemma_parameters();
    let all = arg_values(pos, kws);
    let fill = seq![Value::PyNone, Value::PyNone, Value::PyNone];
    arguments_are_bound_where_they_fit(s, "namedtuple"@, parameters(), fill, pos, kws);
    let slots = bound(s, "namedtuple"@, parameters(), all, pos.len())->Ok_0;
    lemma_argument(s, pos, kws, slots, 0);
    lemma_argument(s, pos, kws, slots, 1);
    lemma_argument(s, pos, kws, slots, 2);
    lemma_argument(s, pos, kws, slots, 3);
    lemma_argument(s, pos, kws, slots, 4);
    lemma_chosen_once(s, pos, kws, 0, "typename"@, t, argument(all, slots[0]));
    lemma_chosen_once(s, pos, kws, 1, "field_names"@, f, argument(all, slots[1]));
    lemma_chosen_once(s, pos, kws, 2, "rename"@, r, argument(all, slots[2]));
    lemma_chosen_once(s, pos, kws, 3, "module"@, m, argument(all, slots[3]));
    lemma_chosen_once(s, pos, kws, 4, "defaults"@, d, argument(all, slots[4]));
    let rename = r matches Some(w) && s.truth(w);
    let names = choose|names: Seq<Seq<char>>| #[trigger]
        named_by(s, f->0, depth, names) && checked_names(names, rename) == Ok::<Seq<Seq<char>>, ErrorView>(
            plan.field_names,
        );
    assert(raw_names(s, f->0, depth) is Ok);
    assert(raw_names(s, f->0, depth)->Ok_0 =~= names);
    assert(plan.defaults =~= match d {
        None | Some(Value::PyNone) => Seq::empty(),
        Some(v) => s.items(v)->0,
    });
}

/// The type that a call of `namedtuple()` makes has the name, the fields and the module that
/// its arguments give, and as many defaults.
pub proof fn types_are_made_as_asked<T: ResourceTracker>(
    s: Scene<T>,
    before: HeapModel<T>,
    after: HeapModel<T>,
    args: ArgValues,
    v: Value,
)
    requires
        args.positional().len() + 2 * args.keywords().len() <= usize::MAX,
        room_for_defaults(before, plan_type(s, args.positional(), args.keywords(), before.recursion_depth)),
        creates_type(s, before, after, args, Ok(v)),
    ensures
        v matches Value::Ref(id) && data_at(after.entries, id) matches HeapData::NamedTupleFactory(made) && exists|
            t: Option<Value>,
            f: Option<Value>,
            r: Option<Value>,
            m: Option<Value>,
            d: Option<Value>,
            plan: TypePlan,
        |
            {
                &&& #[trigger] asked(s, args.positional(), args.keywords(), t, f, r, m, d)
                &&& #[trigger] described(s, before.recursion_depth, t, f, r, m, d, plan)
                &&& name_text(s.tables, made.typename) == plan.typename
                &&& made.field_names@.len() == plan.field_names.len()
                &&& forall|i: int|
                    0 <= i < plan.field_names.len() ==> name_text(s.tables, #[trigger] made.field_names@[i])
                        == plan.field_names[i]
                &&& match made.module_name {
                    Some(name) => plan.module_name == Some(name_text(s.tables, name)),
                    None => plan.module_name is None,
                }
                &&& made.defaults@.len() == plan.defaults.len()
                &&& exists|mid: HeapModel<T>| #[trigger] collects(before, mid, plan.defaults, Ok(made.defaults@))
            },
{
    let pos = args.positional();
    let kws = args.keywords();
    let plan = plan_type(s, pos, kws, before.recursion_depth)->Ok_0;
    types_are_planned_as_asked(s, pos, kws, before.recursion_depth, plan);
    let (t, f, r, m, d) = choose|
        t: Option<Value>,
        f: Option<Value>,
        r: Option<Value>,
        m: Option<Value>,
        d: Option<Value>,
    | #[trigger] asked(s, pos, kws, t, f, r, m, d) && described(s, before.recursion_depth, t, f, r, m, d, plan);
    let (mid, rest, made) = choose|mid: HeapModel<T>, rest: HeapModel<T>, made: NamedTupleFactory|
        {
            &&& collects(before, mid, plan.defaults, Ok(made.defaults@))
            &&& #[trigger] mid.gave_up(rest, refs(args.values()))
            &&& #[trigger] realizes(made, plan)
            &&& makes(rest, after, HeapData::NamedTupleFactory(made), Ok(v))
        };
    lemma_made(rest, after, HeapData::NamedTupleFactory(made), v);
    assert(described(s, before.recursion_depth, t, f, r, m, d, plan));
    assert(collects(before, mid, plan.defaults, Ok(made.defaults@)));
}

} // verus!
