//! Planning of the command resources: which inputs changed, which `update` block handles
//! the change, and what the planned state is.

use vstd::prelude::*;

use super::state::{
    read_value_eq, read_value_view, StateCmd, reads_wf, string_map_view, updates_wf, value_map_view, value_map_wf, ResourceState,
    StateRead, StateUpdate, StringMap,
};
use crate::attribute_path::{AttributePath, StepView};
use crate::named_map::{str_value_clone, str_value_eq, str_value_view, NamedMap};
use crate::order::{compare_items, items_lt, items_view, lemma_items_lt_strict_total, Order};
use crate::value::Value;

verus! {

/// The names whose input differs between the prior state and the plan: with both maps known,
/// the names of one that are missing from the other or hold another value; with only one
/// map known, all its names; with none, no name
pub open spec fn modified_names(state: Value<StringMap>, plan: Value<StringMap>) -> Set<Seq<char>> {
    match (state, plan) {
        (Value::Value(s), Value::Value(p)) => Set::new(
            |k: Seq<char>| changed_in_state(s, p, k) || added_in_plan(s, p, k),
        ),
        (_, Value::Value(p)) => p.key_set(),
        (Value::Value(s), _) => s.key_set(),
        _ => Set::empty(),
    }
}

/// The characters of a list of names, as a set
pub open spec fn name_set(v: Seq<String>) -> Set<Seq<char>> {
    Set::new(|k: Seq<char>| exists|i: int| 0 <= i < v.len() && #[trigger] v[i]@ == k)
}

/// No name appears twice in the list
pub open spec fn names_unique(v: Seq<String>) -> bool {
    forall|i: int, j: int| 0 <= i < v.len() && 0 <= j < v.len() && i != j ==> v[i]@ != v[j]@
}

/// All the names of `m`, in the order of its entries
fn all_names<V>(m: &NamedMap<V>) -> (r: Vec<String>)
    requires
        m.wf(),
    ensures
        name_set(r@) == m.key_set(),
        names_unique(r@),
        r@.len() == m.size(),
        forall|i: int| 0 <= i < r@.len() ==> #[trigger] r@[i]@ == m.key_at(i),
{
    let mut out: Vec<String> = Vec::new();
    let n = m.entries.len();
    for i in 0..n
        invariant
            n == m.size(),
            m.wf(),
            out@.len() == i,
            forall|j: int| 0 <= j < i ==> #[trigger] out@[j]@ == m.key_at(j),
    {
        out.push(m.entries[i].0.clone());
    }
    assert(name_set(out@) =~= m.key_set()) by {
        assert forall|k: Seq<char>| name_set(out@).contains(k) implies m.key_set().contains(k) by {
            let j = choose|j: int| 0 <= j < out@.len() && #[trigger] out@[j]@ == k;
            assert(m.entries@[j].0@ == k);
        }
        assert forall|k: Seq<char>| m.key_set().contains(k) implies name_set(out@).contains(k) by {
            let j = choose|j: int| 0 <= j < m.size() && #[trigger] m.entries@[j].0@ == k;
            assert(out@[j]@ == k);
        }
    }
    out
}

/// `k` is a name of the prior state missing from the plan or holding another value there
pub open spec fn changed_in_state(s: StringMap, p: StringMap, k: Seq<char>) -> bool {
    s.has_key(k) && (!p.has_key(k) || str_value_view(s.get_spec(k)) != str_value_view(
        p.get_spec(k),
    ))
}

/// `k` is a name of the plan missing from the prior state
pub open spec fn added_in_plan(s: StringMap, p: StringMap, k: Seq<char>) -> bool {
    p.has_key(k) && !s.has_key(k)
}

/// The names modified between two inputs do not depend on which comes first, and nothing is
/// modified between an input and itself
pub proof fn law_modified_names(a: Value<StringMap>, b: Value<StringMap>)
    ensures
        modified_names(a, b) == modified_names(b, a),
        modified_names(a, a) == Set::<Seq<char>>::empty() || !(a is Value),
{
    assert(modified_names(a, b) =~= modified_names(b, a));
    if let Value::Value(x) = a {
        assert(modified_names(a, a) =~= Set::<Seq<char>>::empty());
    }
}

/// The names of the inputs that differ between the prior state and the plan
pub fn find_modified(state: &Value<StringMap>, plan: &Value<StringMap>) -> (r: Vec<String>)
    requires
        value_map_wf(*state),
        value_map_wf(*plan),
    ensures
        name_set(r@) == modified_names(*state, *plan),
        names_unique(r@),
{
    match (state, plan) {
        (Value::Value(s), Value::Value(p)) => {
            let mut out: Vec<String> = Vec::new();
            let ghost mut origin: Seq<int> = Seq::empty();
            let ns = s.entries.len();
            // names of the prior state that are missing from the plan or hold another value
            for i in 0..ns
                invariant
                    ns == s.size(),
                    s.wf(),
                    p.wf(),
                    origin.len() == out@.len(),
                    forall|j: int|
                        0 <= j < out@.len() ==> 0 <= #[trigger] origin[j] < i && out@[j]@
                            == s.key_at(origin[j]),
                    forall|j1: int, j2: int|
                        0 <= j1 < out@.len() && 0 <= j2 < out@.len() && j1 != j2 ==> origin[j1]
                            != origin[j2],
                    forall|j: int| 0 <= j < out@.len() ==> changed_in_state(*s, *p, #[trigger] out@[j]@),
                    forall|j: int|
                        0 <= j < i && changed_in_state(*s, *p, #[trigger] s.key_at(j)) ==> name_set(
                            out@,
                        ).contains(s.key_at(j)),
            {
                let (k, x) = &s.entries[i];
                let modified = match p.get(k.as_str()) {
                    Some(y) => !str_value_eq(x, y),
                    None => true,
                };
                proof {
                    s.lemma_index_of(i as int);
                }
                let ghost before = out@;
                if modified {
                    out.push(k.clone());
                    proof {
                        origin = origin.push(i as int);
                        assert(out@[out@.len() - 1]@ == s.key_at(i as int));
                    }
                }
                assert forall|j: int|
                    0 <= j < i + 1 && changed_in_state(*s, *p, #[trigger] s.key_at(j)) implies name_set(
                        out@,
                    ).contains(s.key_at(j)) by {
                    if j < i {
                        let w = s.key_at(j);
                        assert(name_set(before).contains(w));
                        let jj = choose|jj: int| 0 <= jj < before.len() && #[trigger] before[jj]@ == w;
                        assert(out@[jj]@ == w);
                    } else {
                        assert(out@[out@.len() - 1]@ == s.key_at(j));
                    }
                }
            }
            proof {
                assert forall|j1: int, j2: int|
                    0 <= j1 < out@.len() && 0 <= j2 < out@.len() && j1 != j2 implies out@[j1]@
                    != out@[j2]@ by {
                    assert(origin[j1] != origin[j2]);
                    assert(0 <= origin[j1] < ns);
                    assert(0 <= origin[j2] < ns);
                }
            }
            let ghost first = out@;
            let ghost mut origin2: Seq<int> = Seq::empty();
            let np = p.entries.len();
            // names of the plan that are missing from the prior state
            for i in 0..np
                invariant
                    np == p.size(),
                    s.wf(),
                    p.wf(),
                    names_unique(out@),
                    out@.len() >= first.len(),
                    forall|j: int| 0 <= j < first.len() ==> #[trigger] out@[j] == first[j],
                    forall|j: int| 0 <= j < first.len() ==> changed_in_state(*s, *p, #[trigger] first[j]@),
                    forall|j: int|
                        first.len() <= j < out@.len() ==> added_in_plan(*s, *p, #[trigger] out@[j]@),
                    origin2.len() == out@.len() - first.len(),
                    forall|j: int|
                        first.len() <= j < out@.len() ==> 0 <= #[trigger] origin2[j - first.len()] < i
                            && out@[j]@ == p.key_at(origin2[j - first.len()]),
                    forall|j: int|
                        0 <= j < i && added_in_plan(*s, *p, #[trigger] p.key_at(j)) ==> name_set(
                            out@,
                        ).contains(p.key_at(j)),
            {
                let k = &p.entries[i].0;
                proof {
                    p.lemma_index_of(i as int);
                }
                let ghost before = out@;
                if !s.contains_key(k.as_str()) {
                    proof {
                        assert forall|j: int| 0 <= j < before.len() implies before[j]@ != k@ by {
                            if j < first.len() {
                                assert(changed_in_state(*s, *p, first[j]@));
                            } else {
                                let jp = origin2[j - first.len()];
                                assert(p.key_at(jp) == before[j]@);
                                assert(p.key_at(i as int) == k@);
                            }
                        }
                    }
                    out.push(k.clone());
                    proof {
                        origin2 = origin2.push(i as int);
                    }
                    assert(out@[out@.len() - 1]@ == p.key_at(i as int));
                }
                assert forall|j: int|
                    0 <= j < i + 1 && added_in_plan(*s, *p, #[trigger] p.key_at(j)) implies name_set(
                        out@,
                    ).contains(p.key_at(j)) by {
                    if j < i {
                        let w = p.key_at(j);
                        assert(name_set(before).contains(w));
                        let jj = choose|jj: int| 0 <= jj < before.len() && #[trigger] before[jj]@ == w;
                        assert(out@[jj]@ == w);
                    } else {
                        assert(out@[out@.len() - 1]@ == p.key_at(j));
                    }
                }
            }
            assert(name_set(out@) =~= modified_names(*state, *plan)) by {
                assert forall|k: Seq<char>| name_set(out@).contains(k) implies modified_names(*state, *plan).contains(k) by {
                    let jj = choose|jj: int| 0 <= jj < out@.len() && #[trigger] out@[jj]@ == k;
                    if jj < first.len() {
                        assert(changed_in_state(*s, *p, first[jj]@));
                    } else {
                        assert(added_in_plan(*s, *p, out@[jj]@));
                    }
                }
                assert forall|k: Seq<char>| modified_names(*state, *plan).contains(k) implies name_set(out@).contains(k) by {
                    if changed_in_state(*s, *p, k) {
                        let j = s.index_of(k);
                        assert(s.entries@[j].0@ == k);
                        assert(s.key_at(j) == k);
                        assert(name_set(first).contains(k));
                        let jj = choose|jj: int| 0 <= jj < first.len() && #[trigger] first[jj]@ == k;
                        assert(out@[jj]@ == k);
                    } else {
                        assert(added_in_plan(*s, *p, k));
                        let j = p.index_of(k);
                        assert(p.entries@[j].0@ == k);
                        assert(p.key_at(j) == k);
                    }
                }
            }
            out
        },
        (_, Value::Value(p)) => all_names(p),
        (Value::Value(s), _) => all_names(s),
        _ => {
            let out: Vec<String> = Vec::new();
            assert(name_set(out@) =~= Set::<Seq<char>>::empty());
            out
        },
    }
}

/// The triggers of an update block (none when they are null or unknown)
pub open spec fn trigger_items(u: StateUpdate) -> Seq<Value<String>> {
    match u.triggers {
        Value::Value(s) => s.items@,
        _ => Seq::empty(),
    }
}

/// Every name of `m` is among the triggers `t`
pub open spec fn covers(t: Seq<Value<String>>, m: Set<Seq<char>>) -> bool {
    forall|k: Seq<char>|
        m.contains(k) ==> exists|i: int|
            0 <= i < t.len() && #[trigger] str_value_view(t[i]) == Value::Value(k)
}

/// The block with the triggers `a` is preferred to the block with the triggers `b` for a
/// change that both can handle: a block with triggers is preferred to a block without; of two
/// blocks with triggers, the one with fewer triggers, and with as many, the one whose triggers
/// come first in increasing order (see [`items_lt`])
pub open spec fn preferred(a: StateUpdate, b: StateUpdate) -> bool {
    let ta = trigger_items(a);
    let tb = trigger_items(b);
    if ta.len() == 0 {
        false
    } else if tb.len() == 0 {
        true
    } else {
        ta.len() < tb.len() || (ta.len() == tb.len() && items_lt(items_view(ta), items_view(tb)))
    }
}

/// The position of the `update` block that handles a change of the names `m`: of the blocks
/// that can handle it (see [`candidate`]), the preferred one (see [`preferred`]); between
/// blocks of which neither is preferred (they have the same triggers), the first
pub open spec fn chosen_update(u: Seq<Value<StateUpdate>>, m: Set<Seq<char>>) -> Option<int>
    decreases u.len(),
{
    if u.len() == 0 {
        None
    } else {
        let prev = chosen_update(u.drop_last(), m);
        let p = u.len() - 1;
        if !candidate(u, m, p) {
            prev
        } else {
            match prev {
                Some(q) => if preferred(u[p]->Value_0, u[q]->Value_0) {
                    Some(p)
                } else {
                    prev
                },
                None => Some(p),
            }
        }
    }
}

/// Number of blocks (not null nor unknown) before position `p`
pub open spec fn present_before(u: Seq<Value<StateUpdate>>, p: int) -> int
    decreases p,
{
    if p <= 0 {
        0
    } else {
        present_before(u, p - 1) + if u[p - 1] is Value {
            1int
        } else {
            0int
        }
    }
}

proof fn lemma_chosen_in_range(u: Seq<Value<StateUpdate>>, m: Set<Seq<char>>)
    ensures
        chosen_update(u, m) matches Some(q) ==> 0 <= q < u.len() && u[q] is Value,
    decreases u.len(),
{
    if u.len() > 0 {
        lemma_chosen_in_range(u.drop_last(), m);
    }
}

/// The block at `p` can handle a change of the names `m`: it is present, and it has no
/// triggers or its triggers cover all the names
pub open spec fn candidate(u: Seq<Value<StateUpdate>>, m: Set<Seq<char>>, p: int) -> bool {
    &&& 0 <= p < u.len()
    &&& match u[p] {
        Value::Value(x) => trigger_items(x).len() == 0 || covers(trigger_items(x), m),
        _ => false,
    }
}

/// A block is never preferred to itself, and preference is transitive
proof fn lemma_preferred_order(a: StateUpdate, b: StateUpdate, c: StateUpdate)
    ensures
        !preferred(a, a),
        preferred(a, b) && preferred(b, c) ==> preferred(a, c),
{
    lemma_items_lt_strict_total(items_view(trigger_items(a)), items_view(trigger_items(b)), items_view(trigger_items(c)));
}

/// Of two blocks with different triggers, one is preferred to the other
proof fn lemma_preferred_total(a: StateUpdate, b: StateUpdate)
    ensures
        items_view(trigger_items(a)) != items_view(trigger_items(b)) ==> preferred(a, b) || preferred(b, a),
{
    let va = items_view(trigger_items(a));
    let vb = items_view(trigger_items(b));
    lemma_items_lt_strict_total(va, vb, vb);
    if trigger_items(a).len() == 0 && trigger_items(b).len() == 0 {
        assert(va =~= vb);
    }
}

/// The block chosen for a change can handle it; a block is chosen iff one can handle the
/// change; no block that can handle the change is preferred to the chosen one
pub proof fn law_chosen_update(u: Seq<Value<StateUpdate>>, m: Set<Seq<char>>)
    ensures
        chosen_update(u, m) matches Some(q) ==> candidate(u, m, q),
        chosen_update(u, m) is None <==> forall|p: int| 0 <= p < u.len() ==> !candidate(u, m, p),
        chosen_update(u, m) matches Some(q) ==> forall|p: int|
            #![trigger candidate(u, m, p)]
            candidate(u, m, p) ==> !preferred(u[p]->Value_0, u[q]->Value_0),
    decreases u.len(),
{
    if u.len() > 0 {
        let v = u.drop_last();
        let l = u.len() - 1;
        law_chosen_update(v, m);
        lemma_chosen_in_range(v, m);
        assert forall|p: int| 0 <= p < l implies candidate(v, m, p) == candidate(u, m, p)
            && v[p] == u[p] by {
            assert(v[p] == u[p]);
        }
        if chosen_update(v, m) is None {
            assert forall|p: int| 0 <= p < u.len() && candidate(u, m, p) implies p == l by {
                if p < l {
                    assert(candidate(v, m, p));
                }
            }
        }
        match chosen_update(u, m) {
            Some(q) => {
                if q == l {
                    assert(candidate(u, m, q));
                    assert forall|p: int| #[trigger] candidate(u, m, p) implies !preferred(
                        u[p]->Value_0,
                        u[q]->Value_0,
                    ) by {
                        lemma_preferred_order(u[q]->Value_0, u[q]->Value_0, u[q]->Value_0);
                        if p < l {
                            assert(candidate(v, m, p));
                            if let Some(r) = chosen_update(v, m) {
                                lemma_preferred_order(u[p]->Value_0, u[q]->Value_0, u[r]->Value_0);
                                assert(v[r] == u[r]);
                            }
                        }
                    }
                } else {
                    assert(chosen_update(v, m) == Some(q));
                    assert(v[q] == u[q]);
                    assert forall|p: int| #[trigger] candidate(u, m, p) implies !preferred(
                        u[p]->Value_0,
                        u[q]->Value_0,
                    ) by {
                        if p < l {
                            assert(candidate(v, m, p));
                        }
                    }
                }
            },
            None => {
                assert forall|p: int| 0 <= p < u.len() implies !candidate(u, m, p) by {
                    if p < l {
                        assert(!candidate(v, m, p));
                    }
                }
            },
        }
    }
}

/// The block chosen for a change does not depend on the order of the blocks: two lists that
/// hold the same blocks choose the same block, provided that blocks with the same triggers
/// are the same block
pub proof fn law_chosen_update_order_free(
    u1: Seq<Value<StateUpdate>>,
    u2: Seq<Value<StateUpdate>>,
    m: Set<Seq<char>>,
)
    requires
        forall|x: StateUpdate| #[trigger] u1.contains(Value::Value(x)) <==> u2.contains(Value::Value(x)),
        forall|i: int, j: int|
            0 <= i < u1.len() && 0 <= j < u1.len() && #[trigger] u1[i] is Value && #[trigger] u1[j] is Value
                && items_view(trigger_items(u1[i]->Value_0)) == items_view(trigger_items(u1[j]->Value_0))
                ==> u1[i] == u1[j],
    ensures
        match (chosen_update(u1, m), chosen_update(u2, m)) {
            (Some(q1), Some(q2)) => u1[q1] == u2[q2],
            (None, None) => true,
            _ => false,
        },
{
    law_chosen_update(u1, m);
    law_chosen_update(u2, m);
    lemma_chosen_in_range(u1, m);
    lemma_chosen_in_range(u2, m);
    match chosen_update(u1, m) {
        Some(q1) => {
            let x1 = u1[q1]->Value_0;
            assert(u1[q1] == Value::Value(x1));
            assert(u1.contains(Value::Value(x1)));
            assert(u2.contains(Value::Value(x1)));
            let p2 = choose|p: int| 0 <= p < u2.len() && u2[p] == Value::Value(x1);
            assert(candidate(u2, m, p2));
            let q2 = chosen_update(u2, m)->Some_0;
            let x2 = u2[q2]->Value_0;
            assert(u2[q2] == Value::Value(x2));
            assert(u2.contains(Value::Value(x2)));
            assert(u1.contains(Value::Value(x2)));
            let p1 = choose|p: int| 0 <= p < u1.len() && u1[p] == Value::Value(x2);
            assert(candidate(u1, m, p1));
            assert(!preferred(x2, x1));
            assert(!preferred(x1, x2));
            lemma_preferred_total(x1, x2);
            assert(u1[q1] is Value && u1[p1] is Value);
            assert(u1[q1] == u1[p1]);
        },
        None => {
            if let Some(q2) = chosen_update(u2, m) {
                let x2 = u2[q2]->Value_0;
                assert(u2[q2] == Value::Value(x2));
                assert(u2.contains(Value::Value(x2)));
                assert(u1.contains(Value::Value(x2)));
                let p1 = choose|p: int| 0 <= p < u1.len() && u1[p] == Value::Value(x2);
                assert(candidate(u1, m, p1));
            }
        },
    }
}

proof fn lemma_present_before_mono(u: Seq<Value<StateUpdate>>, p: int)
    ensures
        0 <= present_before(u, p),
        p >= 0 ==> present_before(u, p) <= p,
    decreases p,
{
    if p > 0 {
        lemma_present_before_mono(u, p - 1);
    }
}

/// Whether the triggers of `u` cover all the names of `modified`
#[verifier::loop_isolation(false)]
fn covers_all(u: &StateUpdate, modified: &Vec<String>) -> (r: bool)
    ensures
        r == covers(trigger_items(*u), name_set(modified@)),
{
    match &u.triggers {
        Value::Value(t) => {
            let n = modified.len();
            for i in 0..n
                invariant
                    n == modified@.len(),
                    forall|j: int| 0 <= j < i ==> t.names().contains(#[trigger] modified@[j]@),
            {
                if !t.contains_name(modified[i].as_str()) {
                    proof {
                        let k = modified@[i as int]@;
                        assert(name_set(modified@).contains(k));
                        assert(trigger_items(*u) == t.items@);
                        if covers(trigger_items(*u), name_set(modified@)) {
                            assert(exists|ii: int|
                                0 <= ii < t.items@.len() && #[trigger] str_value_view(t.items@[ii])
                                    == Value::Value(k));
                            let ii = choose|ii: int|
                                0 <= ii < t.items@.len() && #[trigger] str_value_view(t.items@[ii])
                                    == Value::Value(k);
                            assert(t.view_set().contains(Value::Value(k)));
                        }
                    }
                    return false;
                }
            }
            assert forall|k: Seq<char>| name_set(modified@).contains(k) implies exists|ii: int|
                0 <= ii < t.items@.len() && #[trigger] str_value_view(t.items@[ii])
                    == Value::Value(k) by {
                let j = choose|j: int| 0 <= j < modified@.len() && #[trigger] modified@[j]@ == k;
                assert(t.names().contains(modified@[j]@));
                assert(t.view_set().contains(Value::Value(k)));
            }
            true
        },
        _ => {
            if modified.len() > 0 {
                assert(name_set(modified@).contains(modified@[0]@));
            } else {
                assert forall|k: Seq<char>| !name_set(modified@).contains(k) by {
                }
            }
            modified.len() == 0
        },
    }
}

/// Number of triggers of an update block
fn trigger_count(u: &StateUpdate) -> (r: usize)
    ensures
        r == trigger_items(*u).len(),
{
    match &u.triggers {
        Value::Value(t) => t.len(),
        _ => 0,
    }
}

/// Whether the block `a` is preferred to the block `b` (see [`preferred`])
fn is_preferred(a: &StateUpdate, b: &StateUpdate) -> (r: bool)
    ensures
        r == preferred(*a, *b),
{
    let ca = trigger_count(a);
    let cb = trigger_count(b);
    if ca == 0 {
        false
    } else if cb == 0 {
        true
    } else if ca != cb {
        ca < cb
    } else {
        match (&a.triggers, &b.triggers) {
            (Value::Value(ta), Value::Value(tb)) => match compare_items(&ta.items, &tb.items) {
                Order::Less => true,
                _ => false,
            },
            _ => false,
        }
    }
}

/// Find the `update` block that handles a change of the names `modified` (see
/// [`chosen_update`]), with its position in the list and its path `update[i]`, where `i`
/// counts only the blocks that are neither null nor unknown
pub fn find_update(updates: &Value<Vec<Value<StateUpdate>>>, modified: &Vec<String>) -> (r: Option<
    (usize, AttributePath),
>)
    ensures
        match *updates {
            Value::Value(v) => match chosen_update(v@, name_set(modified@)) {
                Some(q) => r matches Some((pos, path)) && pos == q && path@ == seq![
                    StepView::Attribute("update"@),
                    StepView::Index(present_before(v@, q) as i64),
                ],
                None => r is None,
            },
            _ => r is None,
        },
{
    let updates = match updates {
        Value::Value(v) => v,
        _ => {
            return None;
        },
    };
    let ghost m = name_set(modified@);
    let mut found: Option<(usize, usize)> = None;
    let mut present: usize = 0;
    let n = updates.len();
    for i in 0..n
        invariant
            n == updates@.len(),
            m == name_set(modified@),
            present == present_before(updates@, i as int),
            present <= i,
            match chosen_update(updates@.take(i as int), m) {
                Some(q) => found matches Some((pos, idx)) && pos == q && idx == present_before(
                    updates@,
                    q,
                ) && 0 <= q < i && updates@[q] is Value,
                None => found is None,
            },
    {
        let ghost prefix = updates@.take(i as int + 1);
        proof {
            assert(prefix.drop_last() =~= updates@.take(i as int));
            assert(prefix.last() == updates@[i as int]);
            assert(prefix.len() - 1 == i);
            lemma_present_before_mono(updates@, i as int);
            if let Some(q) = chosen_update(updates@.take(i as int), m) {
                assert(prefix[q] == updates@[q]);
            }
        }
        if let Value::Value(update) = &updates[i] {
            if trigger_count(update) == 0 || covers_all(update, modified) {
                match found {
                    Some((q, _)) => {
                        let better = match &updates[q] {
                            Value::Value(previous) => is_preferred(update, previous),
                            _ => true,
                        };
                        if better {
                            found = Some((i, present));
                        }
                    },
                    None => {
                        found = Some((i, present));
                    },
                }
            }
            present = present + 1;
        }
    }
    assert(updates@.take(n as int) =~= updates@);
    match found {
        Some((pos, idx)) => {
            proof {
                lemma_present_before_mono(updates@, pos as int);
            }
            Some((pos, AttributePath::new("update").index(idx as i64)))
        },
        None => None,
    }
}

/// The output `name` of a planned state, from the prior state: unknown when the prior state
/// has no such output; the prior output when there was no read block of that name or when
/// the read block did not change; unknown when the read block changed
pub open spec fn kept_output(
    prev_reads: Value<NamedMap<Value<StateRead>>>,
    prev_state: Value<StringMap>,
    name: Seq<char>,
    read: Value<StateRead>,
) -> Value<Seq<char>> {
    let has_state = prev_state matches Value::Value(ps) && ps.has_key(name);
    let has_read = prev_reads matches Value::Value(pr) && pr.has_key(name);
    if !has_state {
        Value::Unknown
    } else if !has_read {
        str_value_view(prev_state->Value_0.get_spec(name))
    } else if read_value_view(prev_reads->Value_0.get_spec(name)) == read_value_view(read) {
        str_value_view(prev_state->Value_0.get_spec(name))
    } else {
        Value::Unknown
    }
}

/// The outputs of the planned state, one per read block, from the prior state (see [`kept_output`])
pub open spec fn kept_outputs(
    out: StringMap,
    reads: NamedMap<Value<StateRead>>,
    prev_reads: Value<NamedMap<Value<StateRead>>>,
    prev_state: Value<StringMap>,
) -> bool {
    &&& out.size() == reads.size()
    &&& forall|i: int| 0 <= i < reads.size() ==> #[trigger] out.key_at(i) == reads.key_at(i)
    &&& forall|i: int|
        0 <= i < reads.size() ==> str_value_view(#[trigger] out.value_at(i)) == kept_output(
            prev_reads,
            prev_state,
            reads.key_at(i),
            reads.value_at(i),
        )
}

/// Compute the outputs of the planned state from the read blocks and the prior state
fn plan_outputs(
    reads: &NamedMap<Value<StateRead>>,
    prev_reads: &Value<NamedMap<Value<StateRead>>>,
    prev_state: &Value<StringMap>,
) -> (r: StringMap)
    requires
        reads_wf(Value::Value(*reads)),
        reads_wf(*prev_reads),
        value_map_wf(*prev_state),
    ensures
        r.wf(),
        kept_outputs(r, *reads, *prev_reads, *prev_state),
{
    let mut out: StringMap = NamedMap::new();
    let n = reads.entries.len();
    for i in 0..n
        invariant
            n == reads.size(),
            reads_wf(Value::Value(*reads)),
            reads_wf(*prev_reads),
            value_map_wf(*prev_state),
            out.wf(),
            out.size() == i,
            forall|j: int| 0 <= j < i ==> #[trigger] out.key_at(j) == reads.key_at(j),
            forall|j: int|
                0 <= j < i ==> str_value_view(#[trigger] out.value_at(j)) == kept_output(
                    *prev_reads,
                    *prev_state,
                    reads.key_at(j),
                    reads.value_at(j),
                ),
    {
        let (name, read) = &reads.entries[i];
        assert(name@ == reads.key_at(i as int));
        assert(reads.value_at(i as int) matches Value::Value(x) ==> x.wf());
        let previous_read = match prev_reads {
            Value::Value(pr) => pr.get(name.as_str()),
            _ => None,
        };
        let previous_value = match prev_state {
            Value::Value(ps) => ps.get(name.as_str()),
            _ => None,
        };
        let value = match (previous_read, previous_value) {
            (_, None) => Value::Unknown,
            (None, Some(val)) => str_value_clone(val),
            (Some(previous_read), Some(val)) => {
                proof {
                    let pr = prev_reads->Value_0;
                    let k = pr.index_of(name@);
                    assert(pr.entries@[k].0@ == name@);
                    assert(pr.value_at(k) matches Value::Value(x) ==> x.wf());
                }
                if read_value_eq(previous_read, read) {
                    str_value_clone(val)
                } else {
                    Value::Unknown
                }
            },
        };
        proof {
            if out.has_key(name@) {
                let j = choose|j: int| 0 <= j < out.size() && #[trigger] out.entries@[j].0@ == name@;
                assert(out.key_at(j) == reads.key_at(j));
                assert(reads.key_at(i as int) == name@);
            }
        }
        let ghost before = out;
        out.push_new(name.clone(), value);
        assert forall|j: int| 0 <= j < i + 1 implies #[trigger] out.key_at(j) == reads.key_at(j) by {
            if j < i {
                assert(out.entries@[j] == before.entries@[j]);
                assert(before.key_at(j) == reads.key_at(j));
            } else {
                assert(out.entries@[j].0@ == name@);
            }
        }
        assert forall|j: int|
            0 <= j < i + 1 implies str_value_view(#[trigger] out.value_at(j)) == kept_output(
                *prev_reads,
                *prev_state,
                reads.key_at(j),
                reads.value_at(j),
            ) by {
            if j < i {
                assert(out.entries@[j] == before.entries@[j]);
                assert(before.value_at(j) == out.value_at(j));
            }
        }
    }
    out
}

/// The outputs of `before` with those named by the items of `reloads` made unknown
pub open spec fn reloaded(before: StringMap, after: StringMap, reloads: Seq<Value<String>>) -> bool {
    &&& after.entries@.len() == before.entries@.len()
    &&& forall|i: int| 0 <= i < before.size() ==> #[trigger] after.key_at(i) == before.key_at(i)
    &&& forall|i: int|
        0 <= i < before.size() ==> #[trigger] after.value_at(i) == if exists|j: int|
            0 <= j < reloads.len() && #[trigger] crate::value::value_str_view(reloads[j])
                == before.key_at(i) {
            Value::<String>::Unknown
        } else {
            before.value_at(i)
        }
}

/// Make unknown the outputs named by the items of `reloads` (a null or unknown item names
/// the output `""`)
fn mark_reloads(outputs: &mut StringMap, reloads: &Vec<Value<String>>)
    requires
        old(outputs).wf(),
    ensures
        final(outputs).wf(),
        reloaded(*old(outputs), *final(outputs), reloads@),
{
    let ghost start = *outputs;
    let n = reloads.len();
    for j in 0..n
        invariant
            n == reloads@.len(),
            outputs.wf(),
            outputs.entries@.len() == start.entries@.len(),
            forall|i: int| 0 <= i < start.size() ==> #[trigger] outputs.key_at(i) == start.key_at(i),
            forall|i: int|
                0 <= i < start.size() ==> #[trigger] outputs.value_at(i) == if exists|jj: int|
                    0 <= jj < j && #[trigger] crate::value::value_str_view(reloads@[jj])
                        == start.key_at(i) {
                    Value::<String>::Unknown
                } else {
                    start.value_at(i)
                },
    {
        let name = reloads[j].as_str();
        let ghost before = *outputs;
        match outputs.find(name) {
            Some(pos) => {
                let key = outputs.entries[pos].0.clone();
                assert(key@ == before.key_at(pos as int));
                outputs.entries.set(pos, (key, Value::Unknown));
                assert(outputs.entries@ == before.entries@.update(pos as int, (key, Value::<String>::Unknown)));
                assert forall|i: int| 0 <= i < start.size() implies #[trigger] outputs.key_at(i) == start.key_at(i) by {
                    assert(before.key_at(i) == start.key_at(i));
                    if i != pos {
                        assert(outputs.entries@[i] == before.entries@[i]);
                    }
                }
                assert forall|a: int, b: int|
                    0 <= a < outputs.size() && 0 <= b < outputs.size() && a != b implies outputs.key_at(a)
                    != outputs.key_at(b) by {
                    assert(outputs.key_at(a) == before.key_at(a));
                    assert(outputs.key_at(b) == before.key_at(b));
                }
                assert forall|i: int| 0 <= i < start.size() implies #[trigger] outputs.value_at(i) == if exists|jj: int|
                    0 <= jj < j + 1 && #[trigger] crate::value::value_str_view(reloads@[jj])
                        == start.key_at(i) {
                    Value::<String>::Unknown
                } else {
                    start.value_at(i)
                } by {
                    if i == pos {
                        assert(crate::value::value_str_view(reloads@[j as int]) == start.key_at(i));
                    } else {
                        assert(outputs.value_at(i) == before.value_at(i));
                        if exists|jj: int|
                            0 <= jj < j + 1 && #[trigger] crate::value::value_str_view(reloads@[jj])
                                == start.key_at(i) {
                            let jj = choose|jj: int|
                                0 <= jj < j + 1 && #[trigger] crate::value::value_str_view(reloads@[jj])
                                    == start.key_at(i);
                            if jj == j {
                                assert(before.key_at(i) != before.key_at(pos as int));
                            }
                        }
                    }
                }
            },
            None => {
                assert forall|i: int| 0 <= i < start.size() implies #[trigger] outputs.value_at(i) == if exists|jj: int|
                    0 <= jj < j + 1 && #[trigger] crate::value::value_str_view(reloads@[jj])
                        == start.key_at(i) {
                    Value::<String>::Unknown
                } else {
                    start.value_at(i)
                } by {
                    if exists|jj: int|
                        0 <= jj < j + 1 && #[trigger] crate::value::value_str_view(reloads@[jj])
                            == start.key_at(i) {
                        let jj = choose|jj: int|
                            0 <= jj < j + 1 && #[trigger] crate::value::value_str_view(reloads@[jj])
                                == start.key_at(i);
                        if jj == j {
                            assert(outputs.key_at(i) == start.key_at(i));
                            assert(outputs.entries@[i].0@ == name@);
                            assert(outputs.has_key(name@));
                        }
                    }
                }
            },
        }
    }
}

/// The items of the `reloads` of the update block at position `q` (none when they are null
/// or unknown, or when there is no block there)
pub open spec fn reload_items_at(u: Seq<Value<StateUpdate>>, q: int) -> Seq<Value<String>> {
    match u[q] {
        Value::Value(x) => match x.reloads {
            Value::Value(s) => s.items@,
            _ => Seq::empty(),
        },
        _ => Seq::empty(),
    }
}

/// The `update` block that handles the change from the prior inputs to the proposed ones,
/// when some input changed
pub open spec fn update_for_change<C>(prior: ResourceState<C>, proposed: ResourceState<C>) -> Option<
    int,
> {
    let m = modified_names(prior.inputs, proposed.inputs);
    if m.is_empty() {
        None
    } else {
        match proposed.update {
            Value::Value(v) => chosen_update(v@, m),
            _ => None,
        }
    }
}

/// The paths `inputs["name"]` of the changed inputs, one per name
pub open spec fn replacement_paths(paths: Seq<AttributePath>, m: Set<Seq<char>>) -> bool {
    exists|names: Seq<Seq<char>>|
        {
            &&& names.to_set() == m
            &&& names.no_duplicates()
            &&& paths.len() == names.len()
            &&& forall|i: int|
                0 <= i < names.len() ==> (#[trigger] paths[i])@ == seq![
                    StepView::Attribute("inputs"@),
                    StepView::Key(names[i]),
                ]
        }
}

/// The output at position `i` of a planned state: unknown when an `update` block reloads it,
/// otherwise as kept from the prior state (see [`kept_output`])
pub open spec fn planned_output<C>(
    prior: ResourceState<C>,
    proposed: ResourceState<C>,
    reads: NamedMap<Value<StateRead>>,
    out: StringMap,
    i: int,
) -> bool {
    &&& out.key_at(i) == reads.key_at(i)
    &&& str_value_view(out.value_at(i)) == match update_for_change(prior, proposed) {
        Some(q) if exists|j: int|
            0 <= j < reload_items_at(proposed.update->Value_0@, q).len()
                && #[trigger] crate::value::value_str_view(
                reload_items_at(proposed.update->Value_0@, q)[j],
            ) == reads.key_at(i) => Value::Unknown,
        _ => kept_output(prior.read, prior.state, reads.key_at(i), reads.value_at(i)),
    }
}

impl<C> ResourceState<C> {
    /// Plan the update of a resource from its prior state to the proposed one.
    ///
    /// The planned state is the proposed state, normalized, with its outputs recomputed: each
    /// output keeps its prior value unless its read block changed or the `update` block that
    /// handles the change of inputs reloads it. When inputs changed and no `update` block
    /// handles the change, the paths of the changed inputs are returned: the resource must be
    /// replaced.
    pub fn plan_update(prior_state: &ResourceState<C>, proposed_state: ResourceState<C>) -> (r: (
        ResourceState<C>,
        Vec<AttributePath>,
    ))
        requires
            prior_state.wf(),
            proposed_state.wf(),
        ensures
            r.0.id == if proposed_state.id is Null {
                Value::<String>::Unknown
            } else {
                proposed_state.id
            },
            proposed_state.inputs is Null ==> (r.0.inputs matches Value::Value(m) && m.size() == 0),
            !(proposed_state.inputs is Null) ==> r.0.inputs == proposed_state.inputs,
            r.0.create == proposed_state.create,
            r.0.destroy == proposed_state.destroy,
            r.0.update == proposed_state.update,
            r.0.connect == proposed_state.connect,
            r.0.command_concurrency == proposed_state.command_concurrency,
            match proposed_state.read {
                Value::Value(reads) => {
                    &&& r.0.read == proposed_state.read
                    &&& r.0.state matches Value::Value(out)
                    &&& out.size() == reads.size()
                    &&& forall|i: int|
                        0 <= i < reads.size() ==> planned_output(
                            *prior_state,
                            proposed_state,
                            reads,
                            out,
                            i,
                        )
                },
                Value::Null => (r.0.read matches Value::Value(m) && m.size() == 0) && (
                r.0.state matches Value::Value(m) && m.size() == 0),
                Value::Unknown => r.0.read is Unknown && r.0.state is Unknown,
            },
            modified_names(prior_state.inputs, proposed_state.inputs).is_empty()
                || update_for_change(*prior_state, proposed_state) is Some ==> r.1@.len() == 0,
            !modified_names(prior_state.inputs, proposed_state.inputs).is_empty()
                && update_for_change(*prior_state, proposed_state) is None ==> replacement_paths(
                r.1@,
                modified_names(prior_state.inputs, proposed_state.inputs),
            ),
    {
        let ghost proposed = proposed_state;
        let modified = find_modified(&prior_state.inputs, &proposed_state.inputs);
        let choice = if modified.len() > 0 {
            find_update(&proposed_state.update, &modified)
        } else {
            None
        };
        proof {
            let m = modified_names(prior_state.inputs, proposed_state.inputs);
            if modified@.len() > 0 {
                assert(m.contains(modified@[0]@));
            } else {
                assert(m =~= Set::empty()) by {
                    assert forall|k: Seq<char>| !m.contains(k) by {
                        assert(!name_set(modified@).contains(k));
                    }
                }
            }
        }
        let mut state = proposed_state;
        state.normalize();
        let planned = match &state.read {
            Value::Value(reads) => Value::Value(plan_outputs(reads, &prior_state.read, &prior_state.state)),
            Value::Null => Value::Null,
            Value::Unknown => Value::Unknown,
        };
        match planned {
            Value::Value(mut outputs) => {
                let ghost kept = outputs;
                let ghost mut items: Seq<Value<String>> = Seq::empty();
                if let Some((idx, _)) = &choice {
                    proof {
                        lemma_chosen_in_range(proposed.update->Value_0@, name_set(modified@));
                    }
                    let update = match &state.update {
                        Value::Value(v) => &v[*idx],
                        _ => {
                            proof {
                                assert(false);
                            }
                            return (state, Vec::new());
                        },
                    };
                    proof {
                        items = reload_items_at(proposed.update->Value_0@, *idx as int);
                    }
                    match update {
                        Value::Value(u) => {
                            match &u.reloads {
                                Value::Value(reloads) => mark_reloads(&mut outputs, &reloads.items),
                                _ => {
                                    let empty: Vec<Value<String>> = Vec::new();
                                    mark_reloads(&mut outputs, &empty);
                                    assert(empty@ =~= items);
                                },
                            }
                        },
                        _ => {
                            proof {
                                assert(false);
                            }
                        },
                    }
                } else {
                    let empty: Vec<Value<String>> = Vec::new();
                    mark_reloads(&mut outputs, &empty);
                    assert(empty@ =~= items);
                }
                assert(reloaded(kept, outputs, items));
                let ghost reads = state.read->Value_0;
                assert forall|i: int| 0 <= i < reads.size() implies planned_output(
                    *prior_state,
                    proposed,
                    reads,
                    outputs,
                    i,
                ) by {
                    assert(kept.key_at(i) == reads.key_at(i));
                    assert(str_value_view(kept.value_at(i)) == kept_output(
                        prior_state.read,
                        prior_state.state,
                        reads.key_at(i),
                        reads.value_at(i),
                    ));
                    assert(outputs.key_at(i) == kept.key_at(i));
                    assert(outputs.value_at(i) == (if exists|j: int|
                        0 <= j < items.len() && #[trigger] crate::value::value_str_view(items[j])
                            == kept.key_at(i) {
                        Value::<String>::Unknown
                    } else {
                        kept.value_at(i)
                    }));
                    match update_for_change(*prior_state, proposed) {
                        Some(q) => {
                            assert(items == reload_items_at(proposed.update->Value_0@, q));
                        },
                        None => {
                            assert(items.len() == 0);
                        },
                    }
                }
                state.state = Value::Value(outputs);
            },
            Value::Null => {
                state.read = Value::Value(NamedMap::new());
                state.state = Value::Value(NamedMap::new());
            },
            Value::Unknown => {
                state.state = Value::Unknown;
            },
        }
        let mut replace: Vec<AttributePath> = Vec::new();
        if modified.len() > 0 && choice.is_none() {
            let n = modified.len();
            for i in 0..n
                invariant
                    n == modified@.len(),
                    replace@.len() == i,
                    forall|j: int|
                        0 <= j < i ==> (#[trigger] replace@[j])@ == seq![
                            StepView::Attribute("inputs"@),
                            StepView::Key(modified@[j]@),
                        ],
            {
                replace.push(AttributePath::new("inputs").key(modified[i].as_str()));
            }
            proof {
                let names = modified@.map_values(|k: String| k@);
                assert(names.to_set() =~= name_set(modified@)) by {
                    assert forall|k: Seq<char>| names.to_set().contains(k) implies name_set(modified@).contains(k) by {
                        let j = choose|j: int| 0 <= j < names.len() && names[j] == k;
                        assert(modified@[j]@ == k);
                    }
                    assert forall|k: Seq<char>| name_set(modified@).contains(k) implies names.to_set().contains(k) by {
                        let j = choose|j: int| 0 <= j < modified@.len() && #[trigger] modified@[j]@ == k;
                        assert(names[j] == k);
                    }
                }
                assert(replace@.len() == names.len());
                assert forall|i: int| 0 <= i < names.len() implies (#[trigger] replace@[i])@ == seq![
                    StepView::Attribute("inputs"@),
                    StepView::Key(names[i]),
                ] by {
                }
                assert(replacement_paths(replace@, name_set(modified@)));
            }
        }
        (state, replace)
    }
}

/// In the planned update of a resource, an output whose `read` block differs from the prior
/// `read` block of the same name is unknown, whatever its prior value: it must be read again.
/// An output that the prior state holds, whose `read` block did not change, keeps its prior
/// value when no `update` block is run for the change
pub proof fn law_changed_read_is_unknown<C>(
    prior: ResourceState<C>,
    proposed: ResourceState<C>,
    reads: NamedMap<Value<StateRead>>,
    out: StringMap,
    i: int,
)
    requires
        0 <= i < reads.size(),
        planned_output(prior, proposed, reads, out, i),
    ensures
        (prior.read matches Value::Value(pr) && (pr.has_key(reads.key_at(i)) && read_value_view(
            pr.get_spec(reads.key_at(i)),
        ) != read_value_view(reads.value_at(i)))) ==> str_value_view(out.value_at(i)) is Unknown,
        (update_for_change(prior, proposed) is None && (prior.state matches Value::Value(ps) && (
        ps.has_key(reads.key_at(i)) && (prior.read matches Value::Value(pr) && (pr.has_key(
            reads.key_at(i),
        ) && read_value_view(pr.get_spec(reads.key_at(i))) == read_value_view(
            reads.value_at(i),
        )))))) ==> str_value_view(out.value_at(i)) == str_value_view(
            prior.state->Value_0.get_spec(reads.key_at(i)),
        ),
{
}

} // verus!



