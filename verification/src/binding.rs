//! Binding arguments to parameters.
//!
//! Arguments are numbered: first the positional ones, then each keyword followed
//! by its value. Binding says for each parameter which argument it gets.

use crate::args::{arg_values, owns};
use crate::equality::{Scene, scene};
use crate::exceptions::{ErrorView, RunError};
use crate::heap::{Heap, HeapModel};
use crate::intern::Interns;
use crate::resource::ResourceTracker;
use crate::text::{same_text, texts};
use crate::heap_model::{Entries, kept, live, outside, readable};
use crate::heap_ops::{all_live, bumped, lemma_bumped, lemma_ref_in_refs};
use crate::types::mappings::{DictEntry, lemma_flat_index, lemma_flat_len};
use crate::value::{
    HeapId, Value, holds, lemma_holds_concat, lemma_holds_one, lemma_holds_push, lemma_holds_sum, lemma_holds_update,
    lemma_refs_push, refs, tally,
};
use vstd::prelude::*;

verus! {

/// The first parameter from `i` on that has the given name.
pub open spec fn param_index(params: Seq<Seq<char>>, name: Seq<char>, i: nat) -> Option<nat>
    decreases params.len() - i,
{
    if i >= params.len() {
        None
    } else if params[i as int] == name {
        Some(i)
    } else {
        param_index(params, name, i + 1)
    }
}

/// Where names differ, every parameter is found under its name.
pub proof fn parameters_are_found_by_name(params: Seq<Seq<char>>, i: int)
    requires
        params.no_duplicates(),
        0 <= i < params.len(),
    ensures
        param_index(params, params[i], 0) == Some(i as nat),
{
    lemma_param_index(params, i, 0);
}

proof fn lemma_param_index(params: Seq<Seq<char>>, i: int, from: nat)
    requires
        params.no_duplicates(),
        from <= i < params.len(),
    ensures
        param_index(params, params[i], from) == Some(i as nat),
    decreases i - from,
{
    if from < i {
        assert(params[from as int] != params[i]);
        lemma_param_index(params, i, from + 1);
    }
}

/// Returns the parameter that has the given name.
pub fn find_param(params: &Vec<String>, name: &str) -> (r: Option<usize>)
    ensures
        match param_index(texts(params@), name@, 0) {
            Some(i) => r matches Some(k) && k == i && k < params@.len(),
            None => r is None,
        },
{
    let mut i: usize = 0;
    while i < params.len()
        invariant
            i <= params@.len(),
            param_index(texts(params@), name@, 0) == param_index(texts(params@), name@, i as nat),
        decreases params.len() - i,
    {
        proof {
            assert(texts(params@)[i as int] == params@[i as int]@);
        }
        if same_text(params[i].as_str(), name) {
            return Some(i);
        }
        i = i + 1;
    }
    None
}

/// Which argument each of `count` parameters gets when only the `n` positional
/// ones are bound.
pub open spec fn bound_positions(count: nat, n: nat) -> Seq<Option<usize>> {
    Seq::new(count, |i: int| if i < n { Some(i as usize) } else { None })
}

/// Binds the keyword arguments from number `next` on.
pub open spec fn bound_keywords<T: ResourceTracker>(
    s: Scene<T>,
    name: Seq<char>,
    params: Seq<Seq<char>>,
    all: Seq<Value>,
    next: nat,
    slots: Seq<Option<usize>>,
) -> Result<Seq<Option<usize>>, ErrorView>
    decreases all.len() - next,
{
    if next + 1 >= all.len() {
        Ok(slots)
    } else {
        match s.text(all[next as int]) {
            None => Err(ErrorView::NonStringKeyword),
            Some(keyword) => match param_index(params, keyword, 0) {
                None => Err(ErrorView::UnexpectedKeyword { name, keyword }),
                Some(i) => if slots[i as int] is Some {
                    Err(ErrorView::DuplicateArgument { name, keyword })
                } else {
                    bound_keywords(s, name, params, all, next + 2, slots.update(i as int, Some((next + 1) as usize)))
                },
            },
        }
    }
}

/// Binds `n` positional arguments and the keyword arguments that follow them.
pub open spec fn bound<T: ResourceTracker>(
    s: Scene<T>,
    name: Seq<char>,
    params: Seq<Seq<char>>,
    all: Seq<Value>,
    n: nat,
) -> Result<Seq<Option<usize>>, ErrorView> {
    bound_keywords(s, name, params, all, n, bound_positions(params.len(), n))
}

/// Does every parameter that gets an argument get one of its own?
pub open spec fn proper_slots(slots: Seq<Option<usize>>, below: nat) -> bool {
    &&& forall|i: int| 0 <= i < slots.len() ==> (#[trigger] slots[i] matches Some(p) ==> p < below)
    &&& forall|i: int, j: int|
        0 <= i < j < slots.len() && slots[i] is Some && slots[j] is Some ==> #[trigger] slots[i] != #[trigger] slots[j]
}

/// Can the keywords that follow `n` positional arguments be read?
pub open spec fn legible_keys<T: ResourceTracker>(s: Scene<T>, all: Seq<Value>, n: nat) -> bool {
    forall|k: int|
        n <= k < all.len() && (k - n) % 2 == 0 ==> s.has(#[trigger] all[k]) && (all[k] matches Value::Ref(id)
            ==> readable(s.entries, id))
}

/// The keywords from number `next` on.
pub open spec fn keys_from(all: Seq<Value>, next: nat) -> Seq<Value>
    decreases all.len() - next,
{
    if next + 1 >= all.len() { Seq::empty() } else { seq![all[next as int]] + keys_from(all, next + 2) }
}

/// The arguments that the parameters get; nothing for those that get none.
pub open spec fn slot_values(all: Seq<Value>, slots: Seq<Option<usize>>) -> Seq<Value> {
    slots.map_values(
        |slot: Option<usize>|
            match slot {
                Some(p) => all[p as int],
                None => Value::PyNone,
            },
    )
}

/// Every argument is bound to one parameter, but for the keywords themselves.
pub proof fn binding_uses_every_argument<T: ResourceTracker>(
    s: Scene<T>,
    name: Seq<char>,
    params: Seq<Seq<char>>,
    all: Seq<Value>,
    n: nat,
    x: HeapId,
)
    requires
        n <= all.len() <= usize::MAX,
        n <= params.len(),
        (all.len() - n) % 2 == 0,
        bound(s, name, params, all, n) is Ok,
    ensures
        holds(slot_values(all, bound(s, name, params, all, n)->Ok_0), x) + holds(keys_from(all, n), x) == holds(all, x),
{
    let start = bound_positions(params.len(), n);
    lemma_binding_balance(s, name, params, all, n, start, x);
    lemma_positions_hold(all, params.len(), n, x);
    assert(all =~= all.take(n as int) + all.skip(n as int));
    lemma_holds_concat(all.take(n as int), all.skip(n as int), x);
}

proof fn lemma_positions_hold(all: Seq<Value>, count: nat, n: nat, x: HeapId)
    requires
        n <= all.len() <= usize::MAX,
        n <= count,
    ensures
        holds(slot_values(all, bound_positions(count, n)), x) == holds(all.take(n as int), x),
    decreases count,
{
    let here = slot_values(all, bound_positions(count, n));
    if count == n {
        assert(here =~= all.take(n as int));
    } else {
        let less = slot_values(all, bound_positions((count - 1) as nat, n));
        lemma_positions_hold(all, (count - 1) as nat, n, x);
        assert(here =~= less.push(Value::PyNone));
        lemma_holds_push(less, Value::PyNone, x);
    }
}

proof fn lemma_binding_balance<T: ResourceTracker>(
    s: Scene<T>,
    name: Seq<char>,
    params: Seq<Seq<char>>,
    all: Seq<Value>,
    next: nat,
    slots: Seq<Option<usize>>,
    x: HeapId,
)
    requires
        next <= all.len() <= usize::MAX,
        (all.len() - next) % 2 == 0,
        slots.len() == params.len(),
        bound_keywords(s, name, params, all, next, slots) is Ok,
    ensures
        holds(slot_values(all, bound_keywords(s, name, params, all, next, slots)->Ok_0), x) + holds(
            keys_from(all, next),
            x,
        ) == holds(slot_values(all, slots), x) + holds(all.skip(next as int), x),
    decreases all.len() - next,
{
    let rest = all.skip(next as int);
    if next + 1 >= all.len() {
        assert(rest =~= Seq::empty());
    } else {
        let keyword = s.text(all[next as int])->0;
        let i = param_index(params, keyword, 0)->0 as int;
        lemma_param_bound(params, keyword, 0);
        let value = all[(next + 1) as int];
        let tail = all.skip((next + 2) as int);
        let longer = slots.update(i, Some((next + 1) as usize));
        lemma_binding_balance(s, name, params, all, next + 2, longer, x);
        assert(slot_values(all, longer) =~= slot_values(all, slots).update(i, value));
        lemma_holds_update(slot_values(all, slots), i, value, x);
        assert(rest =~= seq![all[next as int]] + (seq![value] + tail));
        lemma_holds_concat(seq![all[next as int]], seq![value] + tail, x);
        lemma_holds_concat(seq![value], tail, x);
        lemma_holds_concat(seq![all[next as int]], keys_from(all, next + 2), x);
        lemma_holds_one(value, x);
    }
}

proof fn lemma_param_bound(params: Seq<Seq<char>>, name: Seq<char>, i: nat)
    ensures
        param_index(params, name, i) matches Some(k) ==> k < params.len(),
    decreases params.len() - i,
{
    if i < params.len() && params[i as int] != name {
        lemma_param_bound(params, name, i + 1);
    }
}

/// Returns the keywords that follow `n` positional arguments.
pub fn list_keys(all: &Vec<Value>, n: usize) -> (r: Vec<Value>)
    requires
        n <= all@.len(),
    ensures
        r@ == keys_from(all@, n as nat),
{
    let mut out: Vec<Value> = Vec::new();
    let mut next: usize = n;
    proof {
        assert(out@ + keys_from(all@, n as nat) =~= keys_from(all@, n as nat));
    }
    while all.len() - next >= 2
        invariant
            n <= next <= all@.len(),
            out@ + keys_from(all@, next as nat) == keys_from(all@, n as nat),
        decreases all.len() - next,
    {
        let key: Value = all[next];
        proof {
            assert(out@ + (seq![key] + keys_from(all@, next as nat + 2)) =~= out@.push(key) + keys_from(
                all@,
                next as nat + 2,
            ));
        }
        out.push(key);
        next = next + 2;
    }
    proof {
        assert(out@ + keys_from(all@, next as nat) =~= out@);
    }
    out
}

/// The names of the first `upto` parameters that get no argument.
pub open spec fn missing_names(params: Seq<Seq<char>>, slots: Seq<Option<usize>>, upto: nat) -> Seq<Seq<char>>
    decreases upto,
{
    if upto == 0 {
        Seq::empty()
    } else {
        let head = missing_names(params, slots, (upto - 1) as nat);
        if slots[upto - 1] is None { head.push(params[upto - 1]) } else { head }
    }
}

/// Nothing is missing just where every required parameter gets an argument.
pub proof fn nothing_is_missing(params: Seq<Seq<char>>, slots: Seq<Option<usize>>, upto: nat)
    ensures
        missing_names(params, slots, upto).len() == 0 <==> forall|i: int| 0 <= i < upto ==> #[trigger] slots[i] is Some,
    decreases upto,
{
    if upto > 0 {
        nothing_is_missing(params, slots, (upto - 1) as nat);
        if slots[upto - 1] is None {
            assert(!(forall|i: int| 0 <= i < upto ==> #[trigger] slots[i] is Some));
        }
    }
}

/// Binds positional and keyword arguments to parameters.
pub fn bind<T: ResourceTracker>(
    name: &str,
    params: &Vec<String>,
    all: &Vec<Value>,
    n: usize,
    heap: &Heap<T>,
    interns: &Interns,
) -> (r: Result<Vec<Option<usize>>, RunError>)
    requires
        legible_keys(scene(heap@, *interns), all@, n as nat),
        n <= all@.len(),
        n <= params@.len(),
    ensures
        match r {
            Ok(slots) => {
                &&& bound(scene(heap@, *interns), name@, texts(params@), all@, n as nat) == Ok::<
                    Seq<Option<usize>>,
                    ErrorView,
                >(slots@)
                &&& slots@.len() == params@.len()
                &&& proper_slots(slots@, all@.len())
                &&& forall|i: int| 0 <= i < n ==> #[trigger] slots@[i] == Some(i as usize)
            },
            Err(e) => bound(scene(heap@, *interns), name@, texts(params@), all@, n as nat) == Err::<
                Seq<Option<usize>>,
                ErrorView,
            >(e@),
        },
{
    let ghost s = scene(heap@, *interns);
    let ghost names = texts(params@);
    let mut slots: Vec<Option<usize>> = Vec::with_capacity(params.len());
    let mut i: usize = 0;
    while i < params.len()
        invariant
            i <= params@.len(),
            slots@.len() == i,
            forall|k: int| 0 <= k < i ==> #[trigger] slots@[k] == bound_positions(params@.len(), n as nat)[k],
        decreases params.len() - i,
    {
        slots.push(if i < n { Some(i) } else { None });
        i = i + 1;
    }
    proof {
        assert(slots@ =~= bound_positions(params@.len(), n as nat));
    }
    let mut next: usize = n;
    while all.len() - next >= 2
        invariant
            n <= next <= all@.len(),
            (next - n) % 2 == 0,
            n <= params@.len(),
            s == scene(heap@, *interns),
            legible_keys(s, all@, n as nat),
            names == texts(params@),
            slots@.len() == params@.len(),
            bound(s, name@, names, all@, n as nat) == bound_keywords(s, name@, names, all@, next as nat, slots@),
            proper_slots(slots@, next as nat),
            forall|k: int| 0 <= k < n ==> #[trigger] slots@[k] == Some(k as usize),
        decreases all.len() - next,
    {
        proof {
            assert(s.has(all@[next as int]));
        }
        let keyword: &str = match all[next].as_text(heap, interns) {
            Some(keyword) => keyword,
            None => {
                return Err(RunError::NonStringKeyword);
            },
        };
        let index: usize = match find_param(params, keyword) {
            Some(index) => index,
            None => {
                return Err(RunError::UnexpectedKeyword { name: name.to_owned(), keyword: keyword.to_owned() });
            },
        };
        if slots[index].is_some() {
            return Err(RunError::DuplicateArgument { name: name.to_owned(), keyword: keyword.to_owned() });
        }
        slots.set(index, Some(next + 1));
        next = next + 2;
    }
    Ok(slots)
}

/// Returns the names of the first `upto` parameters that get no argument.
pub fn list_missing(params: &Vec<String>, slots: &Vec<Option<usize>>, upto: usize) -> (r: Vec<String>)
    requires
        upto <= params@.len(),
        params@.len() == slots@.len(),
    ensures
        texts(r@) == missing_names(texts(params@), slots@, upto as nat),
{
    let mut out: Vec<String> = Vec::new();
    let mut i: usize = 0;
    proof {
        assert(texts(out@) =~= Seq::empty());
    }
    while i < upto
        invariant
            i <= upto,
            upto <= params@.len(),
            params@.len() == slots@.len(),
            texts(out@) == missing_names(texts(params@), slots@, i as nat),
        decreases upto - i,
    {
        if slots[i].is_none() {
            let name: String = params[i].as_str().to_owned();
            let ghost before = out@;
            let ghost added = name;
            out.push(name);
            proof {
                assert(texts(out@) =~= texts(before).push(added@));
            }
        }
        i = i + 1;
    }
    out
}

// ---------------------------------------------------------------------------
// Defaults
// ---------------------------------------------------------------------------

/// How many of `count` parameters have no default.
pub open spec fn required(count: nat, defaults: nat) -> nat {
    if defaults >= count { 0 } else { (count - defaults) as nat }
}

/// The defaults that are used for parameters without an argument; nothing for the
/// others. Defaults belong to the last parameters.
pub open spec fn used_defaults(defaults: Seq<Value>, slots: Seq<Option<usize>>) -> Seq<Value> {
    let first = required(slots.len(), defaults.len());
    Seq::new(
        slots.len(),
        |i: int|
            if slots[i] is None && i >= first {
                defaults[i - first]
            } else {
                Value::PyNone
            },
    )
}

/// The values of the parameters: arguments, and defaults where there is none.
pub open spec fn bound_values(all: Seq<Value>, defaults: Seq<Value>, slots: Seq<Option<usize>>) -> Seq<Value> {
    Seq::new(
        slots.len(),
        |i: int|
            match slots[i] {
                Some(p) => all[p as int],
                None => used_defaults(defaults, slots)[i],
            },
    )
}

/// Which argument each parameter gets, or why the arguments do not fit.
pub open spec fn bound_call<T: ResourceTracker>(
    s: Scene<T>,
    name: Seq<char>,
    params: Seq<Seq<char>>,
    defaults: nat,
    all: Seq<Value>,
    n: nat,
) -> Result<Seq<Option<usize>>, ErrorView> {
    match bound(s, name, params, all, n) {
        Err(e) => Err(e),
        Ok(slots) => {
            let missing = missing_names(params, slots, required(params.len(), defaults));
            if missing.len() > 0 {
                Err(ErrorView::MissingPositional { name, missing })
            } else {
                Ok(slots)
            }
        },
    }
}

/// Do the keywords give the parameters from number `k` on their values? Keyword `j` is
/// for parameter `order[j]`; each of them has one.
pub open spec fn gives_by_name<T: ResourceTracker>(
    s: Scene<T>,
    params: Seq<Seq<char>>,
    values: Seq<Value>,
    k: nat,
    kws: Seq<DictEntry>,
    order: Seq<int>,
) -> bool {
    &&& order.len() == kws.len()
    &&& order.no_duplicates()
    &&& forall|j: int| 0 <= j < order.len() ==> k <= #[trigger] order[j] < params.len()
    &&& forall|i: int| k <= i < params.len() ==> #[trigger] order.contains(i)
    &&& forall|j: int|
        0 <= j < kws.len() ==> s.text((#[trigger] kws[j]).key) == Some(params[order[j]]) && kws[j].value
            == values[order[j]]
}

/// Arguments may be given by position or by name. Where the first `k` values come by
/// position and the others by name, in any order, every parameter gets its value.
pub proof fn values_by_position_or_name<T: ResourceTracker>(
    s: Scene<T>,
    name: Seq<char>,
    params: Seq<Seq<char>>,
    defaults: Seq<Value>,
    values: Seq<Value>,
    k: nat,
    kws: Seq<DictEntry>,
    order: Seq<int>,
)
    requires
        params.no_duplicates(),
        values.len() == params.len(),
        k <= params.len(),
        gives_by_name(s, params, values, k, kws, order),
        k + 2 * kws.len() <= usize::MAX,
    ensures
        bound_call(s, name, params, defaults.len(), arg_values(values.take(k as int), kws), k) matches Ok(slots)
            && bound_values(arg_values(values.take(k as int), kws), defaults, slots) == values,
{
    let all = arg_values(values.take(k as int), kws);
    let start = bound_positions(params.len(), k);
    lemma_flat_len(kws);
    lemma_by_name(s, name, params, values, k, kws, order, start, 0);
    let slots = bound(s, name, params, all, k)->Ok_0;
    nothing_is_missing(params, slots, required(params.len(), defaults.len()));
    assert(bound_values(all, defaults, slots) =~= values);
}

proof fn lemma_by_name<T: ResourceTracker>(
    s: Scene<T>,
    name: Seq<char>,
    params: Seq<Seq<char>>,
    values: Seq<Value>,
    k: nat,
    kws: Seq<DictEntry>,
    order: Seq<int>,
    slots: Seq<Option<usize>>,
    j: nat,
)
    requires
        params.no_duplicates(),
        values.len() == params.len(),
        k <= params.len(),
        gives_by_name(s, params, values, k, kws, order),
        k + 2 * kws.len() <= usize::MAX,
        slots.len() == params.len(),
        j <= kws.len(),
        forall|i: int| 0 <= i < slots.len() ==> (#[trigger] slots[i] matches Some(p) ==> p < k + 2 * kws.len()
            && arg_values(values.take(k as int), kws)[p as int] == values[i]),
        forall|i: int| 0 <= i < k ==> #[trigger] slots[i] is Some,
        forall|m: int| 0 <= m < j ==> slots[#[trigger] order[m]] is Some,
        forall|m: int| j <= m < order.len() ==> slots[#[trigger] order[m]] is None,
    ensures
        bound_keywords(s, name, params, arg_values(values.take(k as int), kws), k + 2 * j, slots) matches Ok(out) && {
            &&& out.len() == params.len()
            &&& forall|i: int| 0 <= i < out.len() ==> (#[trigger] out[i] matches Some(p) && arg_values(
                values.take(k as int),
                kws,
            )[p as int] == values[i])
        },
    decreases kws.len() - j,
{
    let all = arg_values(values.take(k as int), kws);
    let next = k + 2 * j;
    lemma_flat_len(kws);
    assert(all.len() == k + 2 * kws.len());
    if j < kws.len() {
        let i = order[j as int];
        lemma_flat_index(kws, j as int);
        assert(all[next as int] == kws[j as int].key);
        assert(all[(next + 1) as int] == kws[j as int].value);
        parameters_are_found_by_name(params, i);
        let longer = slots.update(i, Some((next + 1) as usize));
        assert forall|m: int| 0 <= m < j + 1 implies longer[#[trigger] order[m]] is Some by {}
        assert forall|m: int| j + 1 <= m < order.len() implies longer[#[trigger] order[m]] is None by {
            assert(order[m] != order[j as int]);
        }
        lemma_by_name(s, name, params, values, k, kws, order, longer, j + 1);
    } else {
        assert forall|i: int| 0 <= i < slots.len() implies (#[trigger] slots[i] matches Some(p) && all[p as int]
            == values[i]) by {
            if i >= k {
                assert(order.contains(i));
                let m = choose|m: int| 0 <= m < order.len() && order[m] == i;
                assert(slots[order[m]] is Some);
            }
        }
    }
}

/// Arguments and used defaults are the values of the parameters and the keywords.
pub proof fn binding_balances<T: ResourceTracker>(
    s: Scene<T>,
    name: Seq<char>,
    params: Seq<Seq<char>>,
    defaults: Seq<Value>,
    all: Seq<Value>,
    n: nat,
    x: HeapId,
)
    requires
        n <= all.len() <= usize::MAX,
        n <= params.len(),
        (all.len() - n) % 2 == 0,
        bound(s, name, params, all, n) is Ok,
    ensures
        ({
            let slots = bound(s, name, params, all, n)->Ok_0;
            holds(bound_values(all, defaults, slots), x) + holds(keys_from(all, n), x) == holds(all, x) + holds(
                used_defaults(defaults, slots),
                x,
            )
        }),
{
    let slots = bound(s, name, params, all, n)->Ok_0;
    binding_uses_every_argument(s, name, params, all, n, x);
    lemma_holds_sum(slot_values(all, slots), used_defaults(defaults, slots), bound_values(all, defaults, slots), x);
}

/// Arguments that are bound to parameters.
pub struct BoundCall {
    /// What each parameter gets.
    pub values: Vec<Value>,
    /// The defaults among them, to be counted; nothing for other parameters.
    pub used: Vec<Value>,
    /// The keywords, to be given up.
    pub keys: Vec<Value>,
}

/// Binds arguments to parameters of which the last ones have defaults.
pub fn bind_call<T: ResourceTracker>(
    name: &str,
    params: &Vec<String>,
    defaults: &[Value],
    all: &Vec<Value>,
    n: usize,
    heap: &Heap<T>,
    interns: &Interns,
) -> (r: Result<BoundCall, RunError>)
    requires
        legible_keys(scene(heap@, *interns), all@, n as nat),
        n <= all@.len(),
        n <= params@.len(),
        (all@.len() - n) % 2 == 0,
    ensures
        match r {
            Ok(b) => {
                let s = scene(heap@, *interns);
                &&& bound_call(s, name@, texts(params@), defaults@.len(), all@, n as nat) matches Ok(slots)
                &&& slots.len() == params@.len()
                &&& b.values@ == bound_values(all@, defaults@, slots)
                &&& b.used@ == used_defaults(defaults@, slots)
                &&& b.keys@ == keys_from(all@, n as nat)
                &&& forall|x: HeapId|
                    #[trigger] holds(b.values@, x) + holds(b.keys@, x) == holds(all@, x) + holds(b.used@, x)
                &&& forall|i: int| 0 <= i < b.used@.len() && (#[trigger] b.used@[i]) is Ref ==> defaults@.contains(b.used@[i])
            },
            Err(e) => bound_call(
                scene(heap@, *interns),
                name@,
                texts(params@),
                defaults@.len(),
                all@,
                n as nat,
            ) == Err::<Seq<Option<usize>>, ErrorView>(e@),
        },
{
    let ghost s = scene(heap@, *interns);
    let count: usize = params.len();
    proof {
        assert(texts(params@).len() == count);
        assert(all.len() == all@.len());
    }
    let slots: Vec<Option<usize>> = match bind(name, params, all, n, heap, interns) {
        Ok(slots) => slots,
        Err(e) => {
            return Err(e);
        },
    };
    let first: usize = if defaults.len() >= count { 0 } else { count - defaults.len() };
    let missing: Vec<String> = list_missing(params, &slots, first);
    if missing.len() > 0 {
        proof {
            assert(texts(missing@).len() == missing@.len());
        }
        return Err(RunError::MissingPositional { name: name.to_owned(), missing });
    }
    proof {
        assert(texts(missing@).len() == 0);
        nothing_is_missing(texts(params@), slots@, first as nat);
    }
    let mut used: Vec<Value> = Vec::with_capacity(count);
    let mut values: Vec<Value> = Vec::with_capacity(count);
    let mut i: usize = 0;
    while i < count
        invariant
            i <= count,
            slots@.len() == count,
            first == required(count as nat, defaults@.len()),
            proper_slots(slots@, all@.len()),
            forall|k: int| 0 <= k < first ==> #[trigger] slots@[k] is Some,
            used@ == used_defaults(defaults@, slots@).take(i as int),
            values@ == bound_values(all@, defaults@, slots@).take(i as int),
            forall|k: int| 0 <= k < i && (#[trigger] used@[k]) is Ref ==> defaults@.contains(used@[k]),
        decreases count - i,
    {
        match slots[i] {
            Some(p) => {
                used.push(Value::PyNone);
                values.push(all[p]);
            },
            None => {
                used.push(defaults[i - first]);
                values.push(defaults[i - first]);
            },
        }
        proof {
            assert(used@ =~= used_defaults(defaults@, slots@).take(i + 1));
            assert(values@ =~= bound_values(all@, defaults@, slots@).take(i + 1));
        }
        i = i + 1;
    }
    let keys: Vec<Value> = list_keys(all, n);
    proof {
        assert(used@ =~= used_defaults(defaults@, slots@));
        assert(values@ =~= bound_values(all@, defaults@, slots@));
        assert forall|x: HeapId| #[trigger]
            holds(values@, x) + holds(keys@, x) == holds(all@, x) + holds(used@, x) by {
            binding_balances(s, name@, texts(params@), defaults@, all@, n as nat, x);
        }
    }
    Ok(BoundCall { values, used, keys })
}

/// May counting the used defaults and giving up the keywords turn the heap into `after`?
pub open spec fn settles_call<T: ResourceTracker>(
    before: HeapModel<T>,
    after: HeapModel<T>,
    used: Seq<Value>,
    keys: Seq<Value>,
) -> bool {
    exists|counted: HeapModel<T>|
        {
            &&& bumped(before.entries, counted.entries, refs(used))
            &&& counted == before.with_entries(counted.entries)
            &&& #[trigger] counted.gave_up(after, refs(keys))
        }
}

/// Counts the used defaults and gives up the keywords.
pub(crate) fn settle_call<T: ResourceTracker>(
    b: &BoundCall,
    all: Ghost<Seq<Value>>,
    defaults: &[Value],
    heap: &mut Heap<T>,
)
    requires
        old(heap)@.wf(),
        old(heap)@.room(b.used@.len()),
        owns(old(heap)@.entries, all@),
        all_live(old(heap)@.entries, refs(defaults@)),
        forall|x: HeapId|
            #[trigger] holds(b.values@, x) + holds(b.keys@, x) == holds(all@, x) + holds(b.used@, x),
        forall|i: int| 0 <= i < b.used@.len() && (#[trigger] b.used@[i]) is Ref ==> defaults@.contains(b.used@[i]),
    ensures
        settles_call(old(heap)@, final(heap)@, b.used@, b.keys@),
        final(heap)@.wf(),
        final(heap)@.entries.len() == old(heap)@.entries.len(),
        owns(final(heap)@.entries, b.values@),
        forall|x: HeapId|
            #[trigger] outside(final(heap)@.entries, x) == outside(old(heap)@.entries, x) - holds(all@, x) + holds(
                b.values@,
                x,
            ),
{
    proof {
        lemma_used_live(heap@.entries, defaults@, b.used@);
    }
    let _ = heap.clone_values(b.used.as_slice());
    let ghost counted = heap@;
    proof {
        lemma_bumped(old(heap)@.entries, counted.entries, refs(b.used@));
        assert forall|x: HeapId| #[trigger] outside(counted.entries, x) >= tally(refs(b.keys@), x) + kept(x) by {
            assert(holds(b.values@, x) + holds(b.keys@, x) == holds(all@, x) + holds(b.used@, x));
            assert(outside(old(heap)@.entries, x) >= tally(refs(all@), x) + kept(x));
        }
    }
    heap.discard_all(b.keys.as_slice());
    proof {
        assert(counted.gave_up(heap@, refs(b.keys@)));
        assert forall|x: HeapId| #[trigger]
            outside(heap@.entries, x) == outside(old(heap)@.entries, x) - holds(all@, x) + holds(b.values@, x) by {
            assert(holds(b.values@, x) + holds(b.keys@, x) == holds(all@, x) + holds(b.used@, x));
            assert(outside(counted.entries, x) == outside(old(heap)@.entries, x) + tally(refs(b.used@), x));
            assert(outside(heap@.entries, x) == outside(counted.entries, x) - tally(refs(b.keys@), x));
        }
        assert forall|x: HeapId| #[trigger] outside(heap@.entries, x) >= tally(refs(b.values@), x) + kept(x) by {
            assert(outside(old(heap)@.entries, x) >= tally(refs(all@), x) + kept(x));
        }
    }
}

/// Values that are taken from others, or none, lead to live entries where those do.
pub proof fn lemma_used_live(e: Entries, from: Seq<Value>, used: Seq<Value>)
    requires
        all_live(e, refs(from)),
        forall|i: int| 0 <= i < used.len() && (#[trigger] used[i]) is Ref ==> from.contains(used[i]),
    ensures
        all_live(e, refs(used)),
    decreases used.len(),
{
    if used.len() > 0 {
        let head = used.drop_last();
        assert forall|i: int| 0 <= i < head.len() && (#[trigger] head[i]) is Ref implies from.contains(head[i]) by {
            assert(head[i] == used[i]);
        }
        lemma_used_live(e, from, head);
        lemma_refs_push(head, used.last());
        assert(head.push(used.last()) =~= used);
        assert(used.last() == used[used.len() - 1]);
        if used.last() is Ref {
            let k = choose|k: int| 0 <= k < from.len() && from[k] == used.last();
            lemma_ref_in_refs(from, k);
            let m = choose|m: int| 0 <= m < refs(from).len() && refs(from)[m] == used.last()->Ref_0;
            assert(live(e, refs(from)[m]));
        }
    }
}

} // verus!
