//! Which value each parameter of a call gets, and which calls are refused.

use crate::args::{ArgValues, arg_values};
use crate::binding::{
    bound, bound_call, bound_keywords, bound_positions, bound_values, missing_names, nothing_is_missing, param_index,
    required,
};
use crate::equality::Scene;
use crate::exceptions::{ErrorView, RunError};
use crate::hash::name_text;
use crate::heap::HeapModel;
use crate::heap_arith::lemma_made;
use crate::heap_data::HeapData;
use crate::heap_model::data_at;
use crate::intern::{StringId, id_text};
use crate::resource::ResourceTracker;
use crate::signature::{binds, id_texts};
use crate::types::mappings::{DictEntry, lemma_flat_index, lemma_flat_len};
use crate::types::namedtuple_factory::{NamedTupleFactory, names_text};
use crate::types::sequences::NamedTuple;
use crate::value::Value;
use vstd::prelude::*;

verus! {

/// Is one of the keywords the text `t`?
pub open spec fn named<T: ResourceTracker>(s: Scene<T>, kws: Seq<DictEntry>, t: Seq<char>) -> bool {
    exists|k: int| 0 <= k < kws.len() && s.text((#[trigger] kws[k]).key) == Some(t)
}

/// Has each parameter the value that belongs to it? The first ones have the positional
/// arguments in order. A keyword is the name of a parameter behind those, which has the
/// keyword's value. The others have defaults, and the last default is that of the last
/// parameter, and so on backwards.
pub open spec fn filled<T: ResourceTracker>(
    s: Scene<T>,
    params: Seq<Seq<char>>,
    defaults: Seq<Value>,
    pos: Seq<Value>,
    kws: Seq<DictEntry>,
    values: Seq<Value>,
) -> bool {
    &&& values.len() == params.len()
    &&& pos.len() <= params.len()
    &&& forall|i: int| 0 <= i < pos.len() ==> #[trigger] values[i] == pos[i]
    &&& forall|i: int, k: int|
        0 <= i < params.len() && 0 <= k < kws.len() && s.text((#[trigger] kws[k]).key) == Some(#[trigger] params[i])
            ==> pos.len() <= i && values[i] == kws[k].value
    &&& forall|k: int|
        0 <= k < kws.len() ==> exists|i: int|
            0 <= i < params.len() && s.text((#[trigger] kws[k]).key) == Some(#[trigger] params[i])
    &&& forall|i: int|
        pos.len() <= i < params.len() && !named(s, kws, #[trigger] params[i]) ==> if defaults.len() <= params.len() {
            i >= params.len() - defaults.len() && values[i] == defaults[i - (params.len() - defaults.len())]
        } else {
            values[i] == defaults[i]
        }
}

/// Do the arguments fit the parameters? No more positional ones than parameters; every
/// keyword the name of a parameter that gets no positional one, and no two the same; and
/// something for each parameter without a default.
pub open spec fn fits<T: ResourceTracker>(
    s: Scene<T>,
    params: Seq<Seq<char>>,
    defaults: nat,
    pos: Seq<Value>,
    kws: Seq<DictEntry>,
) -> bool {
    &&& pos.len() <= params.len()
    &&& forall|k: int|
        0 <= k < kws.len() ==> exists|i: int|
            pos.len() <= i < params.len() && s.text((#[trigger] kws[k]).key) == Some(#[trigger] params[i])
    &&& forall|a: int, b: int|
        0 <= a < b < kws.len() ==> s.text((#[trigger] kws[a]).key) != s.text((#[trigger] kws[b]).key)
    &&& forall|i: int|
        pos.len() <= i < params.len() - defaults ==> named(s, kws, #[trigger] params[i])
}

/// Does the error say what is wrong with the arguments?
pub open spec fn misfits<T: ResourceTracker>(
    s: Scene<T>,
    name: Seq<char>,
    params: Seq<Seq<char>>,
    defaults: nat,
    pos: Seq<Value>,
    kws: Seq<DictEntry>,
    e: ErrorView,
) -> bool {
    match e {
        ErrorView::NonStringKeyword => exists|k: int| 0 <= k < kws.len() && s.text((#[trigger] kws[k]).key) is None,
        ErrorView::UnexpectedKeyword { name: of, keyword } => of == name && named(s, kws, keyword) && !params.contains(
            keyword,
        ),
        ErrorView::DuplicateArgument { name: of, keyword } => of == name && exists|i: int, k: int|
            {
                &&& 0 <= i < params.len() && 0 <= k < kws.len()
                &&& #[trigger] params[i] == keyword && s.text((#[trigger] kws[k]).key) == Some(keyword)
                &&& i < pos.len() || named(s, kws.take(k), keyword)
            },
        ErrorView::MissingPositional { name: of, missing } => {
            &&& of == name
            &&& missing.len() > 0
            &&& forall|m: int|
                0 <= m < missing.len() ==> exists|i: int|
                    pos.len() <= i < params.len() - defaults && #[trigger] params[i] == #[trigger] missing[m]
            &&& forall|i: int|
                pos.len() <= i < params.len() - defaults ==> (named(s, kws, #[trigger] params[i]) <==> !missing.contains(
                    params[i],
                ))
            &&& in_order(params, missing)
        },
        _ => false,
    }
}

/// Are the names in the order of the parameters?
pub open spec fn in_order(params: Seq<Seq<char>>, names: Seq<Seq<char>>) -> bool {
    forall|a: int, b: int, i: int, j: int|
        0 <= a < b < names.len() && 0 <= i < params.len() && 0 <= j < params.len() && #[trigger] names[a]
            == #[trigger] params[i] && #[trigger] names[b] == #[trigger] params[j] ==> i < j
}

proof fn lemma_found(params: Seq<Seq<char>>, name: Seq<char>, from: nat)
    ensures
        match param_index(params, name, from) {
            Some(i) => from <= i < params.len() && params[i as int] == name,
            None => forall|i: int| from <= i < params.len() ==> #[trigger] params[i] != name,
        },
    decreases params.len() - from,
{
    if from < params.len() && params[from as int] != name {
        lemma_found(params, name, from + 1);
    }
}

/// What binding the keywords from number `j` on does to the parameters.
proof fn lemma_keywords<T: ResourceTracker>(
    s: Scene<T>,
    name: Seq<char>,
    params: Seq<Seq<char>>,
    pos: Seq<Value>,
    kws: Seq<DictEntry>,
    j: nat,
    slots: Seq<Option<usize>>,
)
    requires
        j <= kws.len(),
        slots.len() == params.len(),
        params.no_duplicates(),
        pos.len() + 2 * kws.len() <= usize::MAX,
    ensures
        match bound_keywords(s, name, params, arg_values(pos, kws), pos.len() + 2 * j, slots) {
            Ok(out) => {
                &&& out.len() == params.len()
                &&& forall|i: int| 0 <= i < params.len() && slots[i] is Some ==> #[trigger] out[i] == slots[i]
                &&& forall|i: int|
                    0 <= i < params.len() && slots[i] is None && #[trigger] out[i] is Some ==> exists|k: int|
                        j <= k < kws.len() && s.text((#[trigger] kws[k]).key) == Some(params[i]) && out[i] == Some(
                            (pos.len() + 2 * k + 1) as usize,
                        )
                &&& forall|k: int|
                    j <= k < kws.len() ==> exists|i: int|
                        {
                            &&& 0 <= i < params.len()
                            &&& s.text((#[trigger] kws[k]).key) == Some(#[trigger] params[i])
                            &&& slots[i] is None
                            &&& out[i] == Some((pos.len() + 2 * k + 1) as usize)
                        }
            },
            Err(e) => match e {
                ErrorView::NonStringKeyword => exists|k: int|
                    j <= k < kws.len() && s.text((#[trigger] kws[k]).key) is None,
                ErrorView::UnexpectedKeyword { name: of, keyword } => of == name && (exists|k: int|
                    j <= k < kws.len() && s.text((#[trigger] kws[k]).key) == Some(keyword)) && !params.contains(keyword),
                ErrorView::DuplicateArgument { name: of, keyword } => of == name && exists|i: int, k: int|
                    {
                        &&& 0 <= i < params.len() && j <= k < kws.len()
                        &&& #[trigger] params[i] == keyword && s.text((#[trigger] kws[k]).key) == Some(keyword)
                        &&& slots[i] is Some || exists|m: int|
                            j <= m < k && s.text((#[trigger] kws[m]).key) == Some(keyword)
                    },
                _ => false,
            },
        },
    decreases kws.len() - j,
{
    let all = arg_values(pos, kws);
    let next = pos.len() + 2 * j;
    lemma_flat_len(kws);
    if j < kws.len() {
        lemma_flat_index(kws, j as int);
        assert(all[next as int] == kws[j as int].key);
        if let Some(keyword) = s.text(kws[j as int].key) {
            lemma_found(params, keyword, 0);
            match param_index(params, keyword, 0) {
                None => {
                    assert(!params.contains(keyword));
                },
                Some(at) => {
                    if slots[at as int] is None {
                        let longer = slots.update(at as int, Some((next + 1) as usize));
                        lemma_keywords(s, name, params, pos, kws, j + 1, longer);
                        assert(pos.len() + 2 * (j + 1) == next + 2);
                        match bound_keywords(s, name, params, all, next + 2, longer) {
                            Ok(out) => {
                                assert(out[at as int] == longer[at as int]);
                                assert forall|i: int|
                                    0 <= i < params.len() && slots[i] is None && #[trigger] out[i] is Some implies exists|
                                    k: int,
                                |
                                    j <= k < kws.len() && s.text((#[trigger] kws[k]).key) == Some(params[i]) && out[i]
                                        == Some((pos.len() + 2 * k + 1) as usize) by {
                                    if i == at {
                                        assert(s.text(kws[j as int].key) == Some(params[i]));
                                    } else {
                                        assert(longer[i] is None);
                                        let k = choose|k: int|
                                            j + 1 <= k < kws.len() && s.text((#[trigger] kws[k]).key) == Some(params[i])
                                                && out[i] == Some((pos.len() + 2 * k + 1) as usize);
                                        assert(s.text(kws[k].key) == Some(params[i]));
                                    }
                                }
                                assert forall|k: int| j <= k < kws.len() implies exists|i: int|
                                    {
                                        &&& 0 <= i < params.len()
                                        &&& s.text((#[trigger] kws[k]).key) == Some(#[trigger] params[i])
                                        &&& slots[i] is None
                                        &&& out[i] == Some((pos.len() + 2 * k + 1) as usize)
                                    } by {
                                    if k == j {
                                        assert(s.text(kws[k].key) == Some(params[at as int]));
                                    } else {
                                        let i = choose|i: int|
                                            {
                                                &&& 0 <= i < params.len()
                                                &&& s.text((#[trigger] kws[k]).key) == Some(#[trigger] params[i])
                                                &&& longer[i] is None
                                                &&& out[i] == Some((pos.len() + 2 * k + 1) as usize)
                                            };
                                        assert(slots[i] is None);
                                        assert(s.text(kws[k].key) == Some(params[i]));
                                    }
                                }
                            },
                            Err(ErrorView::DuplicateArgument { name: of, keyword: twice }) => {
                                let (i, k) = choose|i: int, k: int|
                                    {
                                        &&& 0 <= i < params.len() && j + 1 <= k < kws.len()
                                        &&& #[trigger] params[i] == twice && s.text((#[trigger] kws[k]).key) == Some(twice)
                                        &&& longer[i] is Some || exists|m: int|
                                            j + 1 <= m < k && s.text((#[trigger] kws[m]).key) == Some(twice)
                                    };
                                if slots[i] is None {
                                    if longer[i] is Some {
                                        assert(s.text(kws[j as int].key) == Some(twice));
                                    } else {
                                        let m = choose|m: int|
                                            j + 1 <= m < k && s.text((#[trigger] kws[m]).key) == Some(twice);
                                        assert(s.text(kws[m].key) == Some(twice));
                                    }
                                }
                                assert(params[i] == twice && s.text(kws[k].key) == Some(twice));
                            },
                            _ => {},
                        }
                    } else {
                        assert(params[at as int] == keyword && s.text(kws[j as int].key) == Some(keyword));
                    }
                },
            }
        }
    }
}

/// Is `t` the name of one of the first `upto` parameters that get nothing?
spec fn lacks(params: Seq<Seq<char>>, slots: Seq<Option<usize>>, upto: nat, t: Seq<char>) -> bool {
    exists|i: int| 0 <= i < upto && slots[i] is None && #[trigger] params[i] == t
}

proof fn lemma_missing(params: Seq<Seq<char>>, slots: Seq<Option<usize>>, upto: nat)
    requires
        params.no_duplicates(),
        upto <= params.len(),
        slots.len() == params.len(),
    ensures
        forall|m: int|
            0 <= m < missing_names(params, slots, upto).len() ==> lacks(
                params,
                slots,
                upto,
                #[trigger] missing_names(params, slots, upto)[m],
            ),
        forall|i: int|
            0 <= i < upto && slots[i] is None ==> missing_names(params, slots, upto).contains(#[trigger] params[i]),
        in_order(params, missing_names(params, slots, upto)),
    decreases upto,
{
    if upto > 0 {
        let head = missing_names(params, slots, (upto - 1) as nat);
        let missing = missing_names(params, slots, upto);
        lemma_missing(params, slots, (upto - 1) as nat);
        assert forall|m: int| 0 <= m < missing.len() implies lacks(params, slots, upto, #[trigger] missing[m]) by {
            if m < head.len() {
                assert(lacks(params, slots, (upto - 1) as nat, head[m]));
                let i = choose|i: int| 0 <= i < upto - 1 && slots[i] is None && #[trigger] params[i] == head[m];
                assert(params[i] == missing[m]);
            } else {
                assert(params[upto - 1] == missing[m]);
            }
        }
        if slots[upto - 1] is None {
            assert(missing == head.push(params[upto - 1]));
            assert forall|i: int| 0 <= i < upto && slots[i] is None implies missing.contains(#[trigger] params[i]) by {
                if i < upto - 1 {
                    assert(head.contains(params[i]));
                    let m = choose|m: int| 0 <= m < head.len() && head[m] == params[i];
                    assert(missing[m] == params[i]);
                } else {
                    assert(missing[head.len() as int] == params[i]);
                }
            }
            assert forall|a: int, b: int, i: int, j: int|
                0 <= a < b < missing.len() && 0 <= i < params.len() && 0 <= j < params.len() && #[trigger] missing[a]
                    == #[trigger] params[i] && #[trigger] missing[b] == #[trigger] params[j] implies i < j by {
                assert(head[a] == missing[a]);
                if b < head.len() {
                    assert(head[b] == missing[b]);
                } else {
                    assert(j == upto - 1);
                    assert(lacks(params, slots, (upto - 1) as nat, head[a]));
                    let k = choose|k: int| 0 <= k < upto - 1 && slots[k] is None && #[trigger] params[k] == head[a];
                    assert(params[k] == params[i]);
                }
            }
        }
    }
}

/// Which parameters get an argument, and which one.
pub proof fn lemma_slots<T: ResourceTracker>(
    s: Scene<T>,
    name: Seq<char>,
    params: Seq<Seq<char>>,
    pos: Seq<Value>,
    kws: Seq<DictEntry>,
    slots: Seq<Option<usize>>,
)
    requires
        params.no_duplicates(),
        pos.len() <= params.len(),
        pos.len() + 2 * kws.len() <= usize::MAX,
        bound(s, name, params, arg_values(pos, kws), pos.len()) == Ok::<Seq<Option<usize>>, ErrorView>(slots),
    ensures
        slots.len() == params.len(),
        forall|i: int, k: int|
            0 <= i < params.len() && 0 <= k < kws.len() && s.text((#[trigger] kws[k]).key) == Some(#[trigger] params[i])
                ==> pos.len() <= i && slots[i] == Some((pos.len() + 2 * k + 1) as usize) && arg_values(pos, kws)[pos.len()
                + 2 * k + 1] == kws[k].value,
        forall|i: int| pos.len() <= i < params.len() ==> (named(s, kws, #[trigger] params[i]) <==> slots[i] is Some),
        forall|i: int| 0 <= i < pos.len() ==> #[trigger] slots[i] == Some(i as usize),
        forall|k: int|
            0 <= k < kws.len() ==> exists|i: int|
                pos.len() <= i < params.len() && s.text((#[trigger] kws[k]).key) == Some(#[trigger] params[i]),
{
    let all = arg_values(pos, kws);
    let start = bound_positions(params.len(), pos.len());
    lemma_keywords(s, name, params, pos, kws, 0, start);
    lemma_flat_len(kws);
    assert(pos.len() + 2 * 0 == pos.len());
    assert forall|i: int, k: int|
        0 <= i < params.len() && 0 <= k < kws.len() && s.text((#[trigger] kws[k]).key) == Some(
            #[trigger] params[i],
        ) implies pos.len() <= i && slots[i] == Some((pos.len() + 2 * k + 1) as usize) && all[pos.len() + 2 * k + 1]
        == kws[k].value by {
        let at = choose|at: int|
            {
                &&& 0 <= at < params.len()
                &&& s.text((#[trigger] kws[k]).key) == Some(#[trigger] params[at])
                &&& start[at] is None
                &&& slots[at] == Some((pos.len() + 2 * k + 1) as usize)
            };
        assert(params[at] == params[i]);
        lemma_flat_index(kws, k);
    }
    assert forall|i: int| pos.len() <= i < params.len() implies (named(s, kws, #[trigger] params[i])
        <==> slots[i] is Some) by {
        if named(s, kws, params[i]) {
            let k = choose|k: int| 0 <= k < kws.len() && s.text((#[trigger] kws[k]).key) == Some(params[i]);
            assert(s.text(kws[k].key) == Some(params[i]));
        }
        assert(start[i] is None);
        assert(slots[i] is Some ==> named(s, kws, params[i]));
    }
    assert forall|i: int| 0 <= i < pos.len() implies #[trigger] slots[i] == Some(i as usize) by {
        assert(start[i] is Some);
    }
    assert forall|k: int| 0 <= k < kws.len() implies exists|i: int|
        pos.len() <= i < params.len() && s.text((#[trigger] kws[k]).key) == Some(#[trigger] params[i]) by {
        let at = choose|at: int|
            {
                &&& 0 <= at < params.len()
                &&& s.text((#[trigger] kws[k]).key) == Some(#[trigger] params[at])
                &&& start[at] is None
                &&& slots[at] == Some((pos.len() + 2 * k + 1) as usize)
            };
        assert(s.text(kws[k].key) == Some(params[at]));
    }
}

proof fn lemma_fitting<T: ResourceTracker>(
    s: Scene<T>,
    name: Seq<char>,
    params: Seq<Seq<char>>,
    defaults: Seq<Value>,
    pos: Seq<Value>,
    kws: Seq<DictEntry>,
    slots: Seq<Option<usize>>,
)
    requires
        params.no_duplicates(),
        pos.len() <= params.len(),
        pos.len() + 2 * kws.len() <= usize::MAX,
        bound(s, name, params, arg_values(pos, kws), pos.len()) == Ok::<Seq<Option<usize>>, ErrorView>(slots),
        missing_names(params, slots, required(params.len(), defaults.len())).len() == 0,
    ensures
        fits(s, params, defaults.len(), pos, kws),
        filled(s, params, defaults, pos, kws, bound_values(arg_values(pos, kws), defaults, slots)),
{
    let all = arg_values(pos, kws);
    let first = required(params.len(), defaults.len());
    let values = bound_values(all, defaults, slots);
    lemma_slots(s, name, params, pos, kws, slots);
    nothing_is_missing(params, slots, first);
    assert forall|i: int| pos.len() <= i < params.len() - defaults.len() implies named(s, kws, #[trigger] params[i]) by {
        assert(slots[i] is Some);
    }
    assert forall|a: int, b: int| 0 <= a < b < kws.len() implies s.text((#[trigger] kws[a]).key) != s.text(
        (#[trigger] kws[b]).key,
    ) by {
        let i = choose|i: int|
            pos.len() <= i < params.len() && s.text((#[trigger] kws[a]).key) == Some(#[trigger] params[i]);
        if s.text(kws[a].key) == s.text(kws[b].key) {
            assert(s.text(kws[b].key) == Some(params[i]));
            assert((pos.len() + 2 * a + 1) as usize == (pos.len() + 2 * b + 1) as usize);
        }
    }
    assert forall|k: int| 0 <= k < kws.len() implies exists|i: int|
        0 <= i < params.len() && s.text((#[trigger] kws[k]).key) == Some(#[trigger] params[i]) by {
        let i = choose|i: int|
            pos.len() <= i < params.len() && s.text((#[trigger] kws[k]).key) == Some(#[trigger] params[i]);
        assert(s.text(kws[k].key) == Some(params[i]));
    }
    assert forall|i: int| pos.len() <= i < params.len() && !named(s, kws, #[trigger] params[i]) implies if defaults.len()
        <= params.len() {
        i >= params.len() - defaults.len() && values[i] == defaults[i - (params.len() - defaults.len())]
    } else {
        values[i] == defaults[i]
    } by {
        assert(slots[i] is None);
        assert(i >= first);
    }
}

proof fn lemma_lacking<T: ResourceTracker>(
    s: Scene<T>,
    name: Seq<char>,
    params: Seq<Seq<char>>,
    defaults: nat,
    pos: Seq<Value>,
    kws: Seq<DictEntry>,
    slots: Seq<Option<usize>>,
)
    requires
        params.no_duplicates(),
        pos.len() <= params.len(),
        pos.len() + 2 * kws.len() <= usize::MAX,
        bound(s, name, params, arg_values(pos, kws), pos.len()) == Ok::<Seq<Option<usize>>, ErrorView>(slots),
        missing_names(params, slots, required(params.len(), defaults)).len() > 0,
    ensures
        !fits(s, params, defaults, pos, kws),
        misfits(
            s,
            name,
            params,
            defaults,
            pos,
            kws,
            ErrorView::MissingPositional { name, missing: missing_names(params, slots, required(params.len(), defaults)) },
        ),
{
    let first = required(params.len(), defaults);
    let missing = missing_names(params, slots, first);
    lemma_slots(s, name, params, pos, kws, slots);
    lemma_missing(params, slots, first);
    assert forall|m: int| 0 <= m < missing.len() implies exists|i: int|
        pos.len() <= i < params.len() - defaults && #[trigger] params[i] == #[trigger] missing[m] by {
        assert(lacks(params, slots, first, missing[m]));
        let i = choose|i: int| 0 <= i < first && slots[i] is None && #[trigger] params[i] == missing[m];
        assert(params[i] == missing[m]);
    }
    assert forall|i: int| pos.len() <= i < params.len() - defaults implies (named(s, kws, #[trigger] params[i])
        <==> !missing.contains(params[i])) by {
        if missing.contains(params[i]) {
            let m = choose|m: int| 0 <= m < missing.len() && missing[m] == params[i];
            assert(lacks(params, slots, first, missing[m]));
            let at = choose|at: int| 0 <= at < first && slots[at] is None && #[trigger] params[at] == missing[m];
            assert(params[at] == params[i]);
        }
    }
    let i = choose|i: int|
        pos.len() <= i < params.len() - defaults && #[trigger] params[i] == #[trigger] missing[0];
    assert(missing.contains(params[i]));
    assert(!named(s, kws, params[i]));
}

proof fn lemma_refused<T: ResourceTracker>(
    s: Scene<T>,
    name: Seq<char>,
    params: Seq<Seq<char>>,
    defaults: nat,
    pos: Seq<Value>,
    kws: Seq<DictEntry>,
    e: ErrorView,
)
    requires
        params.no_duplicates(),
        pos.len() <= params.len(),
        pos.len() + 2 * kws.len() <= usize::MAX,
        bound(s, name, params, arg_values(pos, kws), pos.len()) == Err::<Seq<Option<usize>>, ErrorView>(e),
    ensures
        !fits(s, params, defaults, pos, kws),
        misfits(s, name, params, defaults, pos, kws, e),
{
    let start = bound_positions(params.len(), pos.len());
    lemma_keywords(s, name, params, pos, kws, 0, start);
    assert(pos.len() + 2 * 0 == pos.len());
    match e {
        ErrorView::NonStringKeyword => {
            let k = choose|k: int| 0 <= k < kws.len() && s.text((#[trigger] kws[k]).key) is None;
            assert(s.text(kws[k].key) is None);
        },
        ErrorView::UnexpectedKeyword { name: of, keyword } => {
            let k = choose|k: int| 0 <= k < kws.len() && s.text((#[trigger] kws[k]).key) == Some(keyword);
            assert(s.text(kws[k].key) == Some(keyword));
            assert(named(s, kws, keyword));
            assert forall|i: int| 0 <= i < params.len() implies #[trigger] params[i] != keyword by {
                assert(params.contains(params[i]));
            }
        },
        ErrorView::DuplicateArgument { name: of, keyword } => {
            let (i, k) = choose|i: int, k: int|
                {
                    &&& 0 <= i < params.len() && 0 <= k < kws.len()
                    &&& #[trigger] params[i] == keyword && s.text((#[trigger] kws[k]).key) == Some(keyword)
                    &&& start[i] is Some || exists|m: int|
                        0 <= m < k && s.text((#[trigger] kws[m]).key) == Some(keyword)
                };
            assert(params[i] == keyword && s.text(kws[k].key) == Some(keyword));
            if start[i] is None {
                let m = choose|m: int| 0 <= m < k && s.text((#[trigger] kws[m]).key) == Some(keyword);
                assert(s.text(kws.take(k)[m].key) == Some(keyword));
                assert(named(s, kws.take(k), keyword));
                assert(s.text(kws[m].key) == s.text(kws[k].key));
            } else {
                assert(i < pos.len());
                if fits(s, params, defaults, pos, kws) {
                    let at = choose|at: int|
                        pos.len() <= at < params.len() && s.text((#[trigger] kws[k]).key) == Some(
                            #[trigger] params[at],
                        );
                    assert(params[at] == params[i]);
                }
            }
        },
        _ => {},
    }
}

/// Where names differ, arguments are bound just where they fit; each parameter then gets
/// the value that belongs to it, and otherwise the error says what is wrong.
pub proof fn arguments_are_bound_where_they_fit<T: ResourceTracker>(
    s: Scene<T>,
    name: Seq<char>,
    params: Seq<Seq<char>>,
    defaults: Seq<Value>,
    pos: Seq<Value>,
    kws: Seq<DictEntry>,
)
    requires
        params.no_duplicates(),
        pos.len() <= params.len(),
        pos.len() + 2 * kws.len() <= usize::MAX,
    ensures
        match bound_call(s, name, params, defaults.len(), arg_values(pos, kws), pos.len()) {
            Ok(slots) => {
                &&& fits(s, params, defaults.len(), pos, kws)
                &&& filled(s, params, defaults, pos, kws, bound_values(arg_values(pos, kws), defaults, slots))
            },
            Err(e) => {
                &&& !fits(s, params, defaults.len(), pos, kws)
                &&& misfits(s, name, params, defaults.len(), pos, kws, e)
            },
        },
{
    match bound(s, name, params, arg_values(pos, kws), pos.len()) {
        Ok(slots) => {
            if missing_names(params, slots, required(params.len(), defaults.len())).len() > 0 {
                lemma_lacking(s, name, params, defaults.len(), pos, kws, slots);
            } else {
                lemma_fitting(s, name, params, defaults, pos, kws, slots);
            }
        },
        Err(e) => lemma_refused(s, name, params, defaults.len(), pos, kws, e),
    }
}

/// A call of a function binds its arguments just where they fit. Each parameter then gets
/// the value that belongs to it; otherwise the error says what is wrong.
pub proof fn functions_bind_their_arguments<T: ResourceTracker>(
    s: Scene<T>,
    before: HeapModel<T>,
    after: HeapModel<T>,
    name: StringId,
    params: Seq<StringId>,
    texts: Seq<Seq<char>>,
    defaults: Seq<Value>,
    args: ArgValues,
    r: Result<Seq<Value>, ErrorView>,
)
    requires
        texts.len() == params.len(),
        forall|i: int| 0 <= i < params.len() ==> #[trigger] texts[i] == id_text(s.tables.strings, params[i]),
        texts.no_duplicates(),
        args.positional().len() + 2 * args.keywords().len() <= usize::MAX,
        binds(s, before, after, name, params, defaults, args, r),
    ensures
        match r {
            Ok(values) => {
                &&& fits(s, texts, defaults.len(), args.positional(), args.keywords())
                &&& filled(s, texts, defaults, args.positional(), args.keywords(), values)
            },
            Err(ErrorView::TooManyPositional { name: of, expected, given, kwargs }) => {
                &&& of == id_text(s.tables.strings, name)
                &&& args.positional().len() > params.len()
                &&& expected == params.len() as usize
                &&& given == args.positional().len()
                &&& kwargs == args.keywords().len()
            },
            Err(e) => {
                &&& args.positional().len() <= params.len()
                &&& !fits(s, texts, defaults.len(), args.positional(), args.keywords())
                &&& misfits(
                    s,
                    id_text(s.tables.strings, name),
                    texts,
                    defaults.len(),
                    args.positional(),
                    args.keywords(),
                    e,
                )
            },
        },
{
    assert(id_texts(s.tables, params) =~= texts);
    assert(args.values() == arg_values(args.positional(), args.keywords()));
    if args.positional().len() <= params.len() {
        arguments_are_bound_where_they_fit(
            s,
            id_text(s.tables.strings, name),
            texts,
            defaults,
            args.positional(),
            args.keywords(),
        );
    }
}

/// A factory makes a named tuple just where the arguments fit its fields, unless the
/// tracker refuses. The named tuple has the factory's name and fields, and each field the
/// value that belongs to it.
pub proof fn factories_fill_their_fields<T: ResourceTracker>(
    f: NamedTupleFactory,
    s: Scene<T>,
    before: HeapModel<T>,
    after: HeapModel<T>,
    args: ArgValues,
    texts: Seq<Seq<char>>,
    r: Result<Value, RunError>,
)
    requires
        before.wf(),
        before.entries.len() < usize::MAX,
        texts.len() == f.field_names@.len(),
        forall|i: int| 0 <= i < texts.len() ==> #[trigger] texts[i] == name_text(s.tables, f.field_names@[i]),
        texts.no_duplicates(),
        args.positional().len() + 2 * args.keywords().len() < usize::MAX,
        f.constructs(s, before, after, args, r),
    ensures
        match r {
            Ok(v) => {
                &&& fits(s, texts, f.defaults@.len(), args.positional(), args.keywords())
                &&& v matches Value::Ref(id)
                &&& data_at(after.entries, id) matches HeapData::NamedTuple(nt)
                &&& name_text(s.tables, nt.name) == name_text(s.tables, f.typename)
                &&& nt.field_names@.len() == texts.len()
                &&& forall|i: int| 0 <= i < texts.len() ==> name_text(s.tables, #[trigger] nt.field_names@[i]) == texts[i]
                &&& filled(s, texts, f.defaults@, args.positional(), args.keywords(), nt.items@)
            },
            Err(RunError::Resource(_)) => fits(s, texts, f.defaults@.len(), args.positional(), args.keywords()),
            Err(e) => match e@ {
                // The class counts as an argument of its own.
                ErrorView::TooManyPositional { name: of, expected, given, kwargs } => {
                    &&& of == name_text(s.tables, f.typename) + ".__new__"@
                    &&& args.positional().len() > texts.len()
                    &&& expected == texts.len() + 1
                    &&& given == args.positional().len() + 1
                    &&& kwargs == args.keywords().len()
                },
                e => {
                    &&& args.positional().len() <= texts.len()
                    &&& !fits(s, texts, f.defaults@.len(), args.positional(), args.keywords())
                    &&& misfits(
                        s,
                        name_text(s.tables, f.typename) + ".__new__"@,
                        texts,
                        f.defaults@.len(),
                        args.positional(),
                        args.keywords(),
                        e,
                    )
                },
            },
        },
{
    let pos = args.positional();
    let kws = args.keywords();
    let all = args.values();
    assert(names_text(s.tables, f.field_names@) =~= texts);
    assert(all == arg_values(pos, kws));
    if pos.len() <= texts.len() {
        arguments_are_bound_where_they_fit(s, f.spec_constructor_name(s.tables), texts, f.defaults@, pos, kws);
        if let Ok(slots) = f.binding(s, pos, kws) {
            assert(f.fills(before, after, all, pos.len(), slots, r));
            lemma_filled_instance(f, before, after, all, pos.len(), slots, r);
            if let Ok(Value::Ref(id)) = r {
                let nt = data_at(after.entries, id)->NamedTuple_0;
                assert forall|i: int| 0 <= i < texts.len() implies name_text(s.tables, #[trigger] nt.field_names@[i])
                    == texts[i] by {
                    assert(crate::value::same_name(nt.field_names@[i], f.field_names@[i]));
                }
            }
        }
    }
}

proof fn lemma_filled_instance<T: ResourceTracker>(
    f: NamedTupleFactory,
    before: HeapModel<T>,
    after: HeapModel<T>,
    all: Seq<Value>,
    n: nat,
    slots: Seq<Option<usize>>,
    r: Result<Value, RunError>,
)
    requires
        before.entries.len() < usize::MAX,
        f.fills(before, after, all, n, slots, r),
    ensures
        match r {
            Ok(v) => {
                &&& v matches Value::Ref(id)
                &&& data_at(after.entries, id) matches HeapData::NamedTuple(nt)
                &&& f.instance(nt, bound_values(all, f.defaults@, slots))
            },
            Err(e) => e is Resource,
        },
{
    if let Ok(v) = r {
        let (mid, nt) = choose|mid: HeapModel<T>, nt: NamedTuple|
            {
                &&& #[trigger] crate::binding::settles_call(
                    before,
                    mid,
                    crate::binding::used_defaults(f.defaults@, slots),
                    crate::binding::keys_from(all, n),
                )
                &&& #[trigger] f.instance(nt, bound_values(all, f.defaults@, slots))
                &&& crate::heap_arith::makes_holding(mid, after, HeapData::NamedTuple(nt), nt.items@, Ok(v))
            };
        lemma_made(mid, after, HeapData::NamedTuple(nt), v);
    }
}

} // verus!
