//! Whether the `update` blocks of a command resource leave a change ambiguous: two blocks
//! with the same triggers, or two blocks whose triggers overlap without one holding the
//! other, with no block for exactly their common triggers.

use vstd::prelude::*;

use super::state::StateUpdate;
use crate::attribute_path::{AttributePath, StepView};
use crate::diagnostics::{
    error_report, lemma_reported_chain, lemma_reported_error, lemma_reported_none, reported,
    Diagnostics, Report,
};
use crate::named_map::{str_value_clone, str_value_eq, str_value_view};
use crate::order::{
    compare_items, items_lt, items_view, lemma_items_lt_strict_total, lemma_lists_sorted_unique,
    lists_sorted, Item, Order,
};
use crate::value::Value;

verus! {

/// The triggers of an update block, as characters (none when they are null or unknown)
pub open spec fn triggers_of(u: StateUpdate) -> Seq<Item> {
    match u.triggers {
        Value::Value(s) => items_view(s.items@),
        _ => Seq::empty(),
    }
}

/// The triggers of the update blocks that are neither null nor unknown, in order
pub open spec fn present_triggers(u: Seq<Value<StateUpdate>>) -> Seq<Seq<Item>>
    decreases u.len(),
{
    if u.len() == 0 {
        Seq::empty()
    } else {
        let prev = present_triggers(u.drop_last());
        match u.last() {
            Value::Value(x) => prev.push(triggers_of(x)),
            _ => prev,
        }
    }
}

/// The sequences of string values of vectors
pub open spec fn lists_view(v: Seq<Vec<Value<String>>>) -> Seq<Seq<Item>> {
    v.map_values(|x: Vec<Value<String>>| items_view(x@))
}

/// Text of a string value: its string; nothing for null or unknown
pub open spec fn item_text(i: Item) -> Seq<char> {
    match i {
        Value::Value(s) => s,
        _ => Seq::empty(),
    }
}

/// The texts of the items, separated by commas
pub open spec fn join_items(s: Seq<Item>) -> Seq<char>
    decreases s.len(),
{
    if s.len() == 0 {
        Seq::empty()
    } else if s.len() == 1 {
        item_text(s[0])
    } else {
        join_items(s.drop_last()) + seq![','] + item_text(s.last())
    }
}

/// The lists, each joined by commas, separated by `], [`
pub open spec fn join_lists(s: Seq<Seq<Item>>) -> Seq<char>
    decreases s.len(),
{
    if s.len() == 0 {
        Seq::empty()
    } else if s.len() == 1 {
        join_items(s[0])
    } else {
        join_lists(s.drop_last()) + seq![']', ',', ' ', '['] + join_items(s.last())
    }
}

/// Every item of `a` is in `b`
pub open spec fn is_subset(a: Seq<Item>, b: Seq<Item>) -> bool {
    forall|x: Item| a.contains(x) ==> b.contains(x)
}

/// The items of `a` that are in `b`, in the order of `a`
pub open spec fn common(a: Seq<Item>, b: Seq<Item>) -> Seq<Item>
    decreases a.len(),
{
    if a.len() == 0 {
        Seq::empty()
    } else {
        let c = common(a.drop_last(), b);
        if b.contains(a.last()) {
            c.push(a.last())
        } else {
            c
        }
    }
}

/// Two sets of triggers conflict: neither holds the other, and they have triggers in common
pub open spec fn conflicting(a: Seq<Item>, b: Seq<Item>) -> bool {
    !is_subset(a, b) && !is_subset(b, a) && common(a, b).len() > 0
}

/// Among the pairs `i < j` of blocks, those that come before `(i0, j0)`
pub open spec fn pair_before(i: int, j: int, i0: int, j0: int) -> bool {
    i < i0 || (i == i0 && j < j0)
}

/// The common triggers of the conflicting pairs of blocks before `(i0, j0)`
pub open spec fn keys_before(t: Seq<Seq<Item>>, i0: int, j0: int) -> Set<Seq<Item>> {
    Set::new(
        |k: Seq<Item>|
            exists|i: int, j: int|
                0 <= i < j < t.len() && pair_before(i, j, i0, j0) && conflicting(t[i], t[j])
                    && #[trigger] common(t[i], t[j]) == k,
    )
}

/// The triggers of the blocks of the conflicting pairs before `(i0, j0)` whose common
/// triggers are `k`
pub open spec fn members_before(t: Seq<Seq<Item>>, k: Seq<Item>, i0: int, j0: int) -> Set<
    Seq<Item>,
> {
    Set::new(
        |m: Seq<Item>|
            exists|i: int, j: int|
                0 <= i < j < t.len() && pair_before(i, j, i0, j0) && conflicting(t[i], t[j])
                    && #[trigger] common(t[i], t[j]) == k && (m == t[i] || m == t[j]),
    )
}

/// The common triggers of all the conflicting pairs of blocks
pub open spec fn conflict_keys(t: Seq<Seq<Item>>) -> Set<Seq<Item>> {
    keys_before(t, t.len() as int, 0)
}

/// The triggers of the blocks of the conflicting pairs whose common triggers are `k`
pub open spec fn conflict_members(t: Seq<Seq<Item>>, k: Seq<Item>) -> Set<Seq<Item>> {
    members_before(t, k, t.len() as int, 0)
}

/// The elements of a finite set of lists in increasing order (see [`items_lt`])
pub open spec fn sorted_lists(s: Set<Seq<Item>>) -> Seq<Seq<Item>> {
    choose|l: Seq<Seq<Item>>| lists_sorted(l) && l.to_set() == s
}

/// An error for each block whose triggers are those of a block before it
pub open spec fn duplicate_reports(t: Seq<Seq<Item>>) -> Seq<Report>
    decreases t.len(),
{
    if t.len() == 0 {
        Seq::empty()
    } else {
        duplicate_reports(t.drop_last()) + if t.drop_last().contains(t.last()) {
            seq![
                error_report(
                    "Duplicate `update`"@,
                    "There is multiple `update` blocks that are triggered by ["@ + join_items(
                        t.last(),
                    ) + "]."@,
                    seq![
                        StepView::Attribute("update"@),
                        StepView::Index((t.len() - 1) as i64),
                        StepView::Attribute("triggers"@),
                    ],
                ),
            ]
        } else {
            Seq::empty()
        }
    }
}

/// The detail of the ambiguity of a change of the triggers `k`, which would trigger the
/// blocks whose triggers are `members`
pub open spec fn ambiguity_detail(k: Seq<Item>, members: Seq<Seq<Item>>) -> Seq<char> {
    "The update of ["@ + join_items(k)
        + "] is ambiguous and would trigger the following `update` blocks: ["@ + join_lists(
        members,
    ) + "].\nYou can disambiguate the update by adding a new `update` block with `triggers = ["@
        + join_items(k) + "]`"@
}

/// An error for each of the `keys` that no block has as its triggers
pub open spec fn keys_reports(t: Seq<Seq<Item>>, keys: Seq<Seq<Item>>) -> Seq<Report>
    decreases keys.len(),
{
    if keys.len() == 0 {
        Seq::empty()
    } else {
        keys_reports(t, keys.drop_last()) + if t.contains(keys.last()) {
            Seq::empty()
        } else {
            seq![
                error_report(
                    "`update` ambiguity"@,
                    ambiguity_detail(keys.last(), sorted_lists(conflict_members(t, keys.last()))),
                    Seq::empty(),
                ),
            ]
        }
    }
}

/// What the check of the `update` blocks reports: the duplicated triggers, block after
/// block, then the ambiguous changes in increasing order of their triggers
pub open spec fn ambiguity_reports(u: Seq<Value<StateUpdate>>) -> Seq<Report> {
    let t = present_triggers(u);
    duplicate_reports(t) + keys_reports(t, sorted_lists(conflict_keys(t)))
}

/// Copy of a sequence of string values
fn clone_items(v: &Vec<Value<String>>) -> (r: Vec<Value<String>>)
    ensures
        r@ == v@,
{
    let mut out: Vec<Value<String>> = Vec::new();
    let n = v.len();
    for i in 0..n
        invariant
            n == v@.len(),
            out@ == v@.take(i as int),
    {
        out.push(str_value_clone(&v[i]));
        assert(out@ =~= v@.take(i as int + 1));
    }
    assert(v@.take(n as int) =~= v@);
    out
}

/// The triggers of the update blocks that are neither null nor unknown
fn present_trigger_lists(updates: &[Value<StateUpdate>]) -> (r: Vec<Vec<Value<String>>>)
    ensures
        lists_view(r@) == present_triggers(updates@),
{
    let mut out: Vec<Vec<Value<String>>> = Vec::new();
    let n = updates.len();
    for i in 0..n
        invariant
            n == updates@.len(),
            lists_view(out@) == present_triggers(updates@.take(i as int)),
    {
        assert(updates@.take(i as int + 1).drop_last() =~= updates@.take(i as int));
        assert(updates@.take(i as int + 1).last() == updates@[i as int]);
        match &updates[i] {
            Value::Value(u) => {
                let items = match &u.triggers {
                    Value::Value(s) => clone_items(&s.items),
                    _ => Vec::new(),
                };
                assert(items_view(items@) =~= triggers_of(*u));
                let ghost before = out@;
                out.push(items);
                assert(lists_view(out@) =~= lists_view(before).push(items_view(items@)));
            },
            _ => {},
        }
    }
    assert(updates@.take(n as int) =~= updates@);
    out
}

/// The texts of the items, separated by commas
fn join_items_text(items: &Vec<Value<String>>) -> (r: String)
    ensures
        r@ == join_items(items_view(items@)),
{
    let ghost v = items_view(items@);
    let mut out = String::new();
    let n = items.len();
    proof {
        reveal_strlit(",");
        reveal_strlit("");
    }
    for i in 0..n
        invariant
            n == items@.len(),
            v == items_view(items@),
            out@ == join_items(v.take(i as int)),
    {
        assert(v.take(i as int + 1).drop_last() =~= v.take(i as int));
        let text = items[i].as_str();
        assert(v.take(i as int + 1).last() == v[i as int]);
        assert(item_text(v[i as int]) == text@);
        proof {
            reveal_strlit(",");
        }
        if i == 0 {
            assert(v.take(1) =~= seq![v[0]]);
            out = String::from_str(text);
        } else {
            out = out.concat(",").concat(text);
        }
    }
    assert(v.take(n as int) =~= v);
    out
}

/// The lists, each joined by commas, separated by `], [`
fn join_lists_text(lists: &Vec<Vec<Value<String>>>) -> (r: String)
    ensures
        r@ == join_lists(lists_view(lists@)),
{
    let ghost v = lists_view(lists@);
    let mut out = String::new();
    let n = lists.len();
    proof {
        reveal_strlit("], [");
        reveal_strlit("");
    }
    for i in 0..n
        invariant
            n == lists@.len(),
            v == lists_view(lists@),
            out@ == join_lists(v.take(i as int)),
    {
        assert(v.take(i as int + 1).drop_last() =~= v.take(i as int));
        let text = join_items_text(&lists[i]);
        assert(v.take(i as int + 1).last() == v[i as int]);
        proof {
            reveal_strlit("], [");
        }
        if i == 0 {
            assert(v.take(1) =~= seq![v[0]]);
            out = text;
        } else {
            out = out.concat("], [").concat(text.as_str());
        }
    }
    assert(v.take(n as int) =~= v);
    out
}

/// Whether `x` is among the first `n` lists
fn contains_list(lists: &Vec<Vec<Value<String>>>, x: &Vec<Value<String>>, n: usize) -> (r: bool)
    requires
        n <= lists@.len(),
    ensures
        r == lists_view(lists@).take(n as int).contains(items_view(x@)),
{
    let ghost v = lists_view(lists@);
    for i in 0..n
        invariant
            n <= lists@.len(),
            v == lists_view(lists@),
            forall|j: int| 0 <= j < i ==> v[j] != items_view(x@),
    {
        if let Order::Equal = compare_items(&lists[i], x) {
            assert(v.take(n as int)[i as int] == items_view(x@));
            return true;
        }
    }
    false
}

/// Whether a string value is among the items
fn contains_item(items: &Vec<Value<String>>, x: &Value<String>) -> (r: bool)
    ensures
        r == items_view(items@).contains(str_value_view(*x)),
{
    let ghost v = items_view(items@);
    let n = items.len();
    for i in 0..n
        invariant
            n == items@.len(),
            v == items_view(items@),
            forall|j: int| 0 <= j < i ==> v[j] != str_value_view(*x),
    {
        if str_value_eq(&items[i], x) {
            assert(v[i as int] == str_value_view(*x));
            return true;
        }
    }
    false
}

/// Whether every item of `a` is in `b`
fn subset_of(a: &Vec<Value<String>>, b: &Vec<Value<String>>) -> (r: bool)
    ensures
        r == is_subset(items_view(a@), items_view(b@)),
{
    let ghost va = items_view(a@);
    let n = a.len();
    for i in 0..n
        invariant
            n == a@.len(),
            va == items_view(a@),
            forall|j: int| 0 <= j < i ==> items_view(b@).contains(#[trigger] va[j]),
    {
        if !contains_item(b, &a[i]) {
            assert(va.contains(va[i as int]));
            return false;
        }
    }
    assert forall|x: Item| va.contains(x) implies items_view(b@).contains(x) by {
        let j = choose|j: int| 0 <= j < va.len() && va[j] == x;
    }
    true
}

/// The items of `a` that are in `b`, in the order of `a`
fn common_items(a: &Vec<Value<String>>, b: &Vec<Value<String>>) -> (r: Vec<Value<String>>)
    ensures
        items_view(r@) == common(items_view(a@), items_view(b@)),
{
    let ghost va = items_view(a@);
    let ghost vb = items_view(b@);
    let mut out: Vec<Value<String>> = Vec::new();
    let n = a.len();
    for i in 0..n
        invariant
            n == a@.len(),
            va == items_view(a@),
            vb == items_view(b@),
            items_view(out@) == common(va.take(i as int), vb),
    {
        assert(va.take(i as int + 1).drop_last() =~= va.take(i as int));
        assert(va.take(i as int + 1).last() == str_value_view(a@[i as int]));
        if contains_item(b, &a[i]) {
            let ghost before = out@;
            out.push(str_value_clone(&a[i]));
            assert(items_view(out@) =~= items_view(before).push(str_value_view(a@[i as int])));
        }
    }
    assert(va.take(n as int) =~= va);
    out
}

/// Add a list to a sorted vector of lists, unless it is there already
fn insert_sorted(lists: &mut Vec<Vec<Value<String>>>, x: Vec<Value<String>>)
    requires
        lists_sorted(lists_view(old(lists)@)),
    ensures
        lists_sorted(lists_view(final(lists)@)),
        lists_view(final(lists)@).to_set() == lists_view(old(lists)@).to_set().insert(
            items_view(x@),
        ),
{
    let ghost v = lists_view(lists@);
    let ghost xv = items_view(x@);
    let n = lists.len();
    let mut p: usize = 0;
    let mut greater = false;
    while !greater && p < n
        invariant
            n == lists@.len(),
            v == lists_view(lists@),
            xv == items_view(x@),
            lists_sorted(v),
            p <= n,
            forall|q: int| 0 <= q < p ==> items_lt(#[trigger] v[q], xv),
            greater ==> p < n && items_lt(xv, v[p as int]),
        decreases n - p + (if greater {
            0int
        } else {
            1int
        }),
    {
        match compare_items(&lists[p], &x) {
            Order::Less => {
                p = p + 1;
            },
            Order::Equal => {
                assert(v.to_set().insert(xv) =~= v.to_set()) by {
                    assert(v.to_set().contains(v[p as int]));
                }
                return;
            },
            Order::Greater => {
                greater = true;
            },
        }
    }
    lists.insert(p, x);
    let ghost w = lists_view(lists@);
    assert(w =~= v.insert(p as int, xv));
    assert forall|i: int, j: int| 0 <= i < j < w.len() implies items_lt(
        #[trigger] w[i],
        #[trigger] w[j],
    ) by {
        if j < p {
        } else if j == p {
        } else if i < p {
            lemma_items_lt_strict_total(w[i], xv, v[p as int]);
            lemma_items_lt_strict_total(w[i], v[p as int], w[j]);
            if j - 1 > p {
                assert(items_lt(v[p as int], v[j - 1]));
            }
        } else if i == p {
            if j - 1 > p {
                assert(items_lt(v[p as int], v[j - 1]));
                lemma_items_lt_strict_total(xv, v[p as int], v[j - 1]);
            }
        } else {
            assert(items_lt(v[i - 1], v[j - 1]));
        }
    }
    assert(w.to_set() =~= v.to_set().insert(xv)) by {
        assert forall|y: Seq<Item>| w.to_set().contains(y) implies v.to_set().insert(xv).contains(
            y,
        ) by {
            let k = choose|k: int| 0 <= k < w.len() && w[k] == y;
            if k < p {
                assert(v[k] == y);
            } else if k > p {
                assert(v[k - 1] == y);
            }
        }
        assert forall|y: Seq<Item>| v.to_set().insert(xv).contains(y) implies w.to_set().contains(
            y,
        ) by {
            if y == xv {
                assert(w[p as int] == y);
            } else {
                let k = choose|k: int| 0 <= k < v.len() && v[k] == y;
                if k < p {
                    assert(w[k] == y);
                } else {
                    assert(w[k + 1] == y);
                }
            }
        }
    }
}

/// The elements of a finite set, in increasing order, are the sorted list that holds them
proof fn lemma_sorted_lists(l: Seq<Seq<Item>>, s: Set<Seq<Item>>)
    requires
        lists_sorted(l),
        l.to_set() == s,
    ensures
        sorted_lists(s) == l,
{
    assert(lists_sorted(l) && l.to_set() == s);
    let c = sorted_lists(s);
    lemma_lists_sorted_unique(c, l);
}

/// Two bounds that take the same pairs give the same keys and members
proof fn lemma_pairs_same(t: Seq<Seq<Item>>, i0: int, j0: int, i1: int, j1: int)
    requires
        forall|a: int, b: int|
            0 <= a < b < t.len() ==> pair_before(a, b, i0, j0) == pair_before(a, b, i1, j1),
    ensures
        keys_before(t, i0, j0) == keys_before(t, i1, j1),
        forall|k: Seq<Item>| members_before(t, k, i0, j0) == members_before(t, k, i1, j1),
{
    assert(keys_before(t, i0, j0) =~= keys_before(t, i1, j1));
    assert forall|k: Seq<Item>| members_before(t, k, i0, j0) == members_before(t, k, i1, j1) by {
        assert(members_before(t, k, i0, j0) =~= members_before(t, k, i1, j1));
    }
}

/// Taking the pair `(i, j)` adds its common triggers to the keys, when it conflicts
proof fn lemma_keys_step(t: Seq<Seq<Item>>, i: int, j: int)
    requires
        0 <= i < j < t.len(),
    ensures
        keys_before(t, i, j + 1) == if conflicting(t[i], t[j]) {
            keys_before(t, i, j).insert(common(t[i], t[j]))
        } else {
            keys_before(t, i, j)
        },
{
    let lhs = keys_before(t, i, j + 1);
    let rhs = if conflicting(t[i], t[j]) {
        keys_before(t, i, j).insert(common(t[i], t[j]))
    } else {
        keys_before(t, i, j)
    };
    assert forall|k: Seq<Item>| lhs.contains(k) implies rhs.contains(k) by {
        let (a, b) = choose|a: int, b: int|
            0 <= a < b < t.len() && pair_before(a, b, i, j + 1) && conflicting(t[a], t[b])
                && #[trigger] common(t[a], t[b]) == k;
        if !pair_before(a, b, i, j) {
            assert(a == i && b == j);
        }
    }
    assert forall|k: Seq<Item>| rhs.contains(k) implies lhs.contains(k) by {
        if keys_before(t, i, j).contains(k) {
            let (a, b) = choose|a: int, b: int|
                0 <= a < b < t.len() && pair_before(a, b, i, j) && conflicting(t[a], t[b])
                    && #[trigger] common(t[a], t[b]) == k;
            assert(pair_before(a, b, i, j + 1));
        } else {
            assert(pair_before(i, j, i, j + 1));
            assert(common(t[i], t[j]) == k);
        }
    }
    assert(lhs =~= rhs);
}

/// Taking the pair `(i, j)` adds its two sets of triggers to the members of `k`, when it
/// conflicts with `k` as its common triggers
proof fn lemma_members_step(t: Seq<Seq<Item>>, k: Seq<Item>, i: int, j: int)
    requires
        0 <= i < j < t.len(),
    ensures
        members_before(t, k, i, j + 1) == if conflicting(t[i], t[j]) && common(t[i], t[j]) == k {
            members_before(t, k, i, j).insert(t[i]).insert(t[j])
        } else {
            members_before(t, k, i, j)
        },
{
    let lhs = members_before(t, k, i, j + 1);
    let rhs = if conflicting(t[i], t[j]) && common(t[i], t[j]) == k {
        members_before(t, k, i, j).insert(t[i]).insert(t[j])
    } else {
        members_before(t, k, i, j)
    };
    assert forall|m: Seq<Item>| lhs.contains(m) implies rhs.contains(m) by {
        let (a, b) = choose|a: int, b: int|
            0 <= a < b < t.len() && pair_before(a, b, i, j + 1) && conflicting(t[a], t[b])
                && #[trigger] common(t[a], t[b]) == k && (m == t[a] || m == t[b]);
        if !pair_before(a, b, i, j) {
            assert(a == i && b == j);
        }
    }
    assert forall|m: Seq<Item>| rhs.contains(m) implies lhs.contains(m) by {
        if members_before(t, k, i, j).contains(m) {
            let (a, b) = choose|a: int, b: int|
                0 <= a < b < t.len() && pair_before(a, b, i, j) && conflicting(t[a], t[b])
                    && #[trigger] common(t[a], t[b]) == k && (m == t[a] || m == t[b]);
            assert(pair_before(a, b, i, j + 1));
        } else {
            assert(pair_before(i, j, i, j + 1));
            assert(common(t[i], t[j]) == k);
        }
    }
    assert(lhs =~= rhs);
}

/// Whether the triggers of two blocks conflict, and their common triggers
fn conflict_of(a: &Vec<Value<String>>, b: &Vec<Value<String>>) -> (r: Option<Vec<Value<String>>>)
    ensures
        match r {
            Some(c) => conflicting(items_view(a@), items_view(b@)) && items_view(c@) == common(
                items_view(a@),
                items_view(b@),
            ),
            None => !conflicting(items_view(a@), items_view(b@)),
        },
{
    if !subset_of(a, b) && !subset_of(b, a) {
        let c = common_items(a, b);
        if c.len() > 0 {
            return Some(c);
        }
    }
    None
}

/// The common triggers of the conflicting pairs of blocks, in increasing order
fn conflict_key_list(ts: &Vec<Vec<Value<String>>>) -> (r: Vec<Vec<Value<String>>>)
    ensures
        lists_sorted(lists_view(r@)),
        lists_view(r@).to_set() == conflict_keys(lists_view(ts@)),
{
    let ghost t = lists_view(ts@);
    let mut keys: Vec<Vec<Value<String>>> = Vec::new();
    let n = ts.len();
    assert(lists_view(keys@).to_set() =~= keys_before(t, 0, 0));
    let mut i: usize = 0;
    while i < n
        invariant
            n == ts@.len(),
            t == lists_view(ts@),
            i <= n,
            lists_sorted(lists_view(keys@)),
            lists_view(keys@).to_set() == keys_before(t, i as int, 0),
        decreases n - i,
    {
        proof {
            lemma_pairs_same(t, i as int, 0, i as int, i as int + 1);
        }
        let mut j: usize = i + 1;
        while j < n
            invariant
                n == ts@.len(),
                t == lists_view(ts@),
                i < n,
                i + 1 <= j <= n,
                lists_sorted(lists_view(keys@)),
                lists_view(keys@).to_set() == keys_before(t, i as int, j as int),
            decreases n - j,
        {
            proof {
                lemma_keys_step(t, i as int, j as int);
            }
            assert(t[i as int] == items_view(ts@[i as int]@));
            assert(t[j as int] == items_view(ts@[j as int]@));
            if let Some(c) = conflict_of(&ts[i], &ts[j]) {
                insert_sorted(&mut keys, c);
            }
            j = j + 1;
        }
        proof {
            lemma_pairs_same(t, i as int, n as int, i as int + 1, 0);
        }
        i = i + 1;
    }
    keys
}

/// The triggers of the blocks of the conflicting pairs whose common triggers are `key`, in
/// increasing order
fn conflict_member_list(ts: &Vec<Vec<Value<String>>>, key: &Vec<Value<String>>) -> (r: Vec<
    Vec<Value<String>>,
>)
    ensures
        lists_sorted(lists_view(r@)),
        lists_view(r@).to_set() == conflict_members(lists_view(ts@), items_view(key@)),
{
    let ghost t = lists_view(ts@);
    let ghost k = items_view(key@);
    let mut members: Vec<Vec<Value<String>>> = Vec::new();
    let n = ts.len();
    assert(lists_view(members@).to_set() =~= members_before(t, k, 0, 0));
    let mut i: usize = 0;
    while i < n
        invariant
            n == ts@.len(),
            t == lists_view(ts@),
            k == items_view(key@),
            i <= n,
            lists_sorted(lists_view(members@)),
            lists_view(members@).to_set() == members_before(t, k, i as int, 0),
        decreases n - i,
    {
        proof {
            lemma_pairs_same(t, i as int, 0, i as int, i as int + 1);
        }
        let mut j: usize = i + 1;
        while j < n
            invariant
                n == ts@.len(),
                t == lists_view(ts@),
                k == items_view(key@),
                i < n,
                i + 1 <= j <= n,
                lists_sorted(lists_view(members@)),
                lists_view(members@).to_set() == members_before(t, k, i as int, j as int),
            decreases n - j,
        {
            proof {
                lemma_members_step(t, k, i as int, j as int);
            }
            assert(t[i as int] == items_view(ts@[i as int]@));
            assert(t[j as int] == items_view(ts@[j as int]@));
            if let Some(c) = conflict_of(&ts[i], &ts[j]) {
                if let Order::Equal = compare_items(&c, key) {
                    insert_sorted(&mut members, clone_items(&ts[i]));
                    insert_sorted(&mut members, clone_items(&ts[j]));
                }
            }
            j = j + 1;
        }
        proof {
            lemma_pairs_same(t, i as int, n as int, i as int + 1, 0);
        }
        i = i + 1;
    }
    members
}

/// Report the `update` blocks that leave a change ambiguous: an error at the triggers of
/// each block whose triggers are those of a block before it (the blocks counted without the
/// null and unknown ones), then, for the common triggers of two blocks whose triggers
/// overlap without one holding the other, in increasing order, an error when no block has
/// exactly those triggers (see [`ambiguity_reports`])
pub fn ensure_unambiguous_updates(diags: &mut Diagnostics, updates: &[Value<StateUpdate>])
    ensures
        reported(old(diags)@, final(diags)@, ambiguity_reports(updates@)),
{
    let ghost start = diags@;
    let ts = present_trigger_lists(updates);
    let ghost t = lists_view(ts@);
    let n = ts.len();
    proof {
        lemma_reported_none(start);
        assert(t.take(0) =~= Seq::<Seq<Item>>::empty());
    }
    for i in 0..n
        invariant
            n == ts@.len(),
            t == lists_view(ts@),
            reported(start, diags@, duplicate_reports(t.take(i as int))),
    {
        let ghost before = diags@;
        let ghost prefix = t.take(i as int + 1);
        assert(prefix.drop_last() =~= t.take(i as int));
        assert(prefix.last() == t[i as int]);
        assert(t[i as int] == items_view(ts@[i as int]@));
        if contains_list(&ts, &ts[i], i) {
            let detail = String::from_str(
                "There is multiple `update` blocks that are triggered by [",
            ).concat(join_items_text(&ts[i]).as_str()).concat("].");
            let path = AttributePath::new("update").index(i as i64).attribute("triggers");
            assert(path@ =~= seq![
                StepView::Attribute("update"@),
                StepView::Index((prefix.len() - 1) as i64),
                StepView::Attribute("triggers"@),
            ]);
            diags.error("Duplicate `update`", detail.as_str(), path);
            proof {
                lemma_reported_error(before, diags@, "Duplicate `update`"@, detail@, path@);
                lemma_reported_chain(
                    start,
                    before,
                    diags@,
                    duplicate_reports(t.take(i as int)),
                    seq![error_report("Duplicate `update`"@, detail@, path@)],
                );
            }
        } else {
            assert(duplicate_reports(prefix) =~= duplicate_reports(t.take(i as int)));
        }
    }
    assert(t.take(n as int) =~= t);
    let ghost mid = diags@;
    let keys = conflict_key_list(&ts);
    let ghost kv = lists_view(keys@);
    proof {
        lemma_sorted_lists(kv, conflict_keys(t));
        lemma_reported_none(mid);
        assert(kv.take(0) =~= Seq::<Seq<Item>>::empty());
    }
    let m = keys.len();
    for idx in 0..m
        invariant
            n == ts@.len(),
            m == keys@.len(),
            t == lists_view(ts@),
            kv == lists_view(keys@),
            reported(mid, diags@, keys_reports(t, kv.take(idx as int))),
    {
        let ghost before = diags@;
        let ghost prefix = kv.take(idx as int + 1);
        assert(prefix.drop_last() =~= kv.take(idx as int));
        assert(prefix.last() == kv[idx as int]);
        assert(t.take(n as int) =~= t);
        if !contains_list(&ts, &keys[idx], n) {
            let members = conflict_member_list(&ts, &keys[idx]);
            proof {
                lemma_sorted_lists(
                    lists_view(members@),
                    conflict_members(t, kv[idx as int]),
                );
            }
            let key_text = join_items_text(&keys[idx]);
            let detail = String::from_str("The update of [").concat(key_text.as_str()).concat(
                "] is ambiguous and would trigger the following `update` blocks: [",
            ).concat(join_lists_text(&members).as_str()).concat(
                "].\nYou can disambiguate the update by adding a new `update` block with `triggers = [",
            ).concat(key_text.as_str()).concat("]`");
            assert(detail@ == ambiguity_detail(
                kv[idx as int],
                sorted_lists(conflict_members(t, kv[idx as int])),
            ));
            diags.root_error("`update` ambiguity", detail.as_str());
            proof {
                lemma_reported_error(before, diags@, "`update` ambiguity"@, detail@, Seq::empty());
                lemma_reported_chain(
                    mid,
                    before,
                    diags@,
                    keys_reports(t, kv.take(idx as int)),
                    seq![error_report("`update` ambiguity"@, detail@, Seq::empty())],
                );
            }
        } else {
            assert(keys_reports(t, prefix) =~= keys_reports(t, kv.take(idx as int)));
        }
    }
    proof {
        assert(kv.take(m as int) =~= kv);
        lemma_reported_chain(
            start,
            mid,
            diags@,
            duplicate_reports(t),
            keys_reports(t, sorted_lists(conflict_keys(t))),
        );
    }
}

/// Update blocks whose triggers are all different and nested (of any two, one holds the
/// other) are not ambiguous: nothing is reported
pub proof fn law_nested_triggers_unambiguous(u: Seq<Value<StateUpdate>>)
    requires
        forall|i: int, j: int|
            0 <= i < j < present_triggers(u).len() ==> #[trigger] present_triggers(u)[i]
                != #[trigger] present_triggers(u)[j] && (is_subset(
                present_triggers(u)[i],
                present_triggers(u)[j],
            ) || is_subset(present_triggers(u)[j], present_triggers(u)[i])),
    ensures
        ambiguity_reports(u) == Seq::<Report>::empty(),
{
    let t = present_triggers(u);
    lemma_distinct_no_duplicates(t);
    assert(conflict_keys(t) =~= Set::<Seq<Item>>::empty()) by {
        assert forall|k: Seq<Item>| !conflict_keys(t).contains(k) by {
            if conflict_keys(t).contains(k) {
                let (i, j) = choose|i: int, j: int|
                    0 <= i < j < t.len() && pair_before(i, j, t.len() as int, 0) && conflicting(
                        t[i],
                        t[j],
                    ) && #[trigger] common(t[i], t[j]) == k;
                assert(t[i] != t[j]);
            }
        }
    }
    assert(Seq::<Seq<Item>>::empty().to_set() =~= Set::<Seq<Item>>::empty());
    lemma_sorted_lists(Seq::empty(), Set::empty());
    assert(duplicate_reports(t) + keys_reports(t, Seq::empty()) =~= Seq::<Report>::empty());
}

/// Triggers that are all different give no duplicate
proof fn lemma_distinct_no_duplicates(t: Seq<Seq<Item>>)
    requires
        forall|i: int, j: int| 0 <= i < j < t.len() ==> #[trigger] t[i] != #[trigger] t[j],
    ensures
        duplicate_reports(t) == Seq::<Report>::empty(),
    decreases t.len(),
{
    if t.len() > 0 {
        let v = t.drop_last();
        assert forall|i: int, j: int| 0 <= i < j < v.len() implies #[trigger] v[i] != #[trigger] v[j] by {
            assert(v[i] == t[i] && v[j] == t[j]);
        }
        lemma_distinct_no_duplicates(v);
        if v.contains(t.last()) {
            let k = choose|k: int| 0 <= k < v.len() && v[k] == t.last();
            assert(t[k] == t[t.len() - 1]);
        }
        assert(duplicate_reports(t) =~= Seq::<Report>::empty());
    }
}

/// Two update blocks whose triggers overlap without one holding the other, with no block
/// for exactly their common triggers, make the check report that the change of those
/// common triggers is ambiguous
pub proof fn law_overlapping_triggers_reported(u: Seq<Value<StateUpdate>>, i: int, j: int)
    requires
        0 <= i < j < present_triggers(u).len(),
        conflicting(present_triggers(u)[i], present_triggers(u)[j]),
        !present_triggers(u).contains(common(present_triggers(u)[i], present_triggers(u)[j])),
    ensures
        ambiguity_reports(u).contains(
            error_report(
                "`update` ambiguity"@,
                ambiguity_detail(
                    common(present_triggers(u)[i], present_triggers(u)[j]),
                    sorted_lists(
                        conflict_members(
                            present_triggers(u),
                            common(present_triggers(u)[i], present_triggers(u)[j]),
                        ),
                    ),
                ),
                Seq::empty(),
            ),
        ),
{
    let t = present_triggers(u);
    let n = t.len() as int;
    let k = common(t[i], t[j]);
    lemma_keys_listed(t, n - 1, n);
    lemma_pairs_same(t, n - 1, n, n, 0);
    let l = choose|l: Seq<Seq<Item>>| lists_sorted(l) && l.to_set() == keys_before(t, n - 1, n);
    lemma_sorted_lists(l, conflict_keys(t));
    assert(pair_before(i, j, n, 0));
    assert(conflict_keys(t).contains(k));
    assert(l.to_set().contains(k));
    let q = choose|q: int| 0 <= q < l.len() && l[q] == k;
    lemma_keys_reports_contains(t, l, q);
    let d = duplicate_reports(t);
    let kr = keys_reports(t, l);
    let r = error_report(
        "`update` ambiguity"@,
        ambiguity_detail(k, sorted_lists(conflict_members(t, k))),
        Seq::empty(),
    );
    let p = choose|p: int| 0 <= p < kr.len() && kr[p] == r;
    assert((d + kr)[d.len() + p] == r);
}

/// `x` put in its place in a list in increasing order
spec fn insert_list(l: Seq<Seq<Item>>, x: Seq<Item>) -> Seq<Seq<Item>>
    decreases l.len(),
{
    if l.len() == 0 {
        seq![x]
    } else if items_lt(x, l[0]) {
        seq![x] + l
    } else {
        seq![l[0]] + insert_list(l.drop_first(), x)
    }
}

/// A list in increasing order stays so with a new element put in its place
proof fn lemma_insert_list(l: Seq<Seq<Item>>, x: Seq<Item>)
    requires
        lists_sorted(l),
        !l.contains(x),
    ensures
        lists_sorted(insert_list(l, x)),
        insert_list(l, x).to_set() == l.to_set().insert(x),
    decreases l.len(),
{
    let r = insert_list(l, x);
    if l.len() == 0 {
        assert(r.to_set() =~= l.to_set().insert(x)) by {
            assert(r[0] == x);
        }
    } else if items_lt(x, l[0]) {
        assert forall|a: int, b: int| 0 <= a < b < r.len() implies items_lt(
            #[trigger] r[a],
            #[trigger] r[b],
        ) by {
            if a == 0 {
                if b > 1 {
                    assert(items_lt(l[0], l[b - 1]));
                    lemma_items_lt_strict_total(x, l[0], l[b - 1]);
                }
            } else {
                assert(items_lt(l[a - 1], l[b - 1]));
            }
        }
        assert(r.to_set() =~= l.to_set().insert(x)) by {
            assert forall|y: Seq<Item>| r.to_set().contains(y) implies l.to_set().insert(
                x,
            ).contains(y) by {
                let c = choose|c: int| 0 <= c < r.len() && r[c] == y;
                if c > 0 {
                    assert(l[c - 1] == y);
                }
            }
            assert forall|y: Seq<Item>| l.to_set().insert(x).contains(y) implies r.to_set().contains(
                y,
            ) by {
                if y == x {
                    assert(r[0] == y);
                } else {
                    let c = choose|c: int| 0 <= c < l.len() && l[c] == y;
                    assert(r[c + 1] == y);
                }
            }
        }
    } else {
        let d = l.drop_first();
        lemma_items_lt_strict_total(x, l[0], l[0]);
        assert(x != l[0]) by {
            assert(l.contains(l[0]));
        }
        assert(items_lt(l[0], x));
        assert forall|a: int, b: int| 0 <= a < b < d.len() implies items_lt(
            #[trigger] d[a],
            #[trigger] d[b],
        ) by {
            assert(items_lt(l[a + 1], l[b + 1]));
        }
        assert(!d.contains(x)) by {
            if d.contains(x) {
                let c = choose|c: int| 0 <= c < d.len() && d[c] == x;
                assert(l[c + 1] == x);
            }
        }
        lemma_insert_list(d, x);
        let rd = insert_list(d, x);
        assert(r == seq![l[0]] + rd);
        assert forall|a: int, b: int| 0 <= a < b < r.len() implies items_lt(
            #[trigger] r[a],
            #[trigger] r[b],
        ) by {
            if a == 0 {
                assert(r[b] == rd[b - 1]);
                assert(rd.to_set().contains(rd[b - 1]));
                if rd[b - 1] != x {
                    assert(d.to_set().contains(rd[b - 1]));
                    let c = choose|c: int| 0 <= c < d.len() && d[c] == rd[b - 1];
                    assert(items_lt(l[0], l[c + 1]));
                }
            } else {
                assert(items_lt(rd[a - 1], rd[b - 1]));
            }
        }
        assert(r.to_set() =~= l.to_set().insert(x)) by {
            assert forall|y: Seq<Item>| r.to_set().contains(y) implies l.to_set().insert(
                x,
            ).contains(y) by {
                let c = choose|c: int| 0 <= c < r.len() && r[c] == y;
                if c > 0 {
                    assert(rd[c - 1] == y);
                    assert(rd.to_set().contains(y));
                    if y != x {
                        assert(d.to_set().contains(y));
                        let e = choose|e: int| 0 <= e < d.len() && d[e] == y;
                        assert(l[e + 1] == y);
                    }
                }
            }
            assert forall|y: Seq<Item>| l.to_set().insert(x).contains(y) implies r.to_set().contains(
                y,
            ) by {
                if y == l[0] {
                    assert(r[0] == y);
                } else {
                    if y != x {
                        let c = choose|c: int| 0 <= c < l.len() && l[c] == y;
                        assert(d[c - 1] == y);
                        assert(d.to_set().contains(y));
                    }
                    assert(rd.to_set().contains(y));
                    let e = choose|e: int| 0 <= e < rd.len() && rd[e] == y;
                    assert(r[e + 1] == y);
                }
            }
        }
    }
}

/// The keys before `(i, j)` are the elements of some list in increasing order
proof fn lemma_keys_listed(t: Seq<Seq<Item>>, i: int, j: int)
    requires
        0 <= i < t.len(),
        i + 1 <= j <= t.len(),
    ensures
        exists|l: Seq<Seq<Item>>| lists_sorted(l) && l.to_set() == keys_before(t, i, j),
    decreases i, j,
{
    if j == i + 1 {
        lemma_pairs_same(t, i, i + 1, i, 0);
        if i == 0 {
            let l = Seq::<Seq<Item>>::empty();
            assert(keys_before(t, 0, 0) =~= Set::empty());
            assert(l.to_set() =~= Set::empty());
            assert(lists_sorted(l) && l.to_set() == keys_before(t, i, j));
        } else {
            lemma_pairs_same(t, i - 1, t.len() as int, i, 0);
            lemma_keys_listed(t, i - 1, t.len() as int);
        }
    } else {
        lemma_keys_listed(t, i, j - 1);
        lemma_keys_step(t, i, j - 1);
        let l = choose|l: Seq<Seq<Item>>|
            lists_sorted(l) && l.to_set() == keys_before(t, i, j - 1);
        let c = common(t[i], t[j - 1]);
        if conflicting(t[i], t[j - 1]) && !l.contains(c) {
            lemma_insert_list(l, c);
            assert(lists_sorted(insert_list(l, c)) && insert_list(l, c).to_set() == keys_before(
                t,
                i,
                j,
            ));
        } else {
            if conflicting(t[i], t[j - 1]) {
                assert(l.to_set().contains(c));
                assert(keys_before(t, i, j) =~= keys_before(t, i, j - 1));
            }
            assert(lists_sorted(l) && l.to_set() == keys_before(t, i, j));
        }
    }
}

/// The reports of the keys hold an ambiguity for each key that no block has as its triggers
proof fn lemma_keys_reports_contains(t: Seq<Seq<Item>>, keys: Seq<Seq<Item>>, q: int)
    requires
        0 <= q < keys.len(),
        !t.contains(keys[q]),
    ensures
        keys_reports(t, keys).contains(
            error_report(
                "`update` ambiguity"@,
                ambiguity_detail(keys[q], sorted_lists(conflict_members(t, keys[q]))),
                Seq::empty(),
            ),
        ),
    decreases keys.len(),
{
    let prefix = keys_reports(t, keys.drop_last());
    let r = error_report(
        "`update` ambiguity"@,
        ambiguity_detail(keys[q], sorted_lists(conflict_members(t, keys[q]))),
        Seq::empty(),
    );
    if q == keys.len() - 1 {
        assert(keys_reports(t, keys) == prefix + seq![r]);
        assert((prefix + seq![r])[prefix.len() as int] == r);
    } else {
        assert(keys.drop_last()[q] == keys[q]);
        lemma_keys_reports_contains(t, keys.drop_last(), q);
        let p = choose|p: int| 0 <= p < prefix.len() && prefix[p] == r;
        let rest = if t.contains(keys.last()) {
            Seq::<Report>::empty()
        } else {
            seq![
                error_report(
                    "`update` ambiguity"@,
                    ambiguity_detail(keys.last(), sorted_lists(conflict_members(t, keys.last()))),
                    Seq::empty(),
                ),
            ]
        };
        assert(keys_reports(t, keys) == prefix + rest);
        assert((prefix + rest)[p] == r);
    }
}

/// The error that reports the block at position `j` of the present blocks, whose triggers
/// `t[j]` are those of a block before it
pub open spec fn duplicate_report(t: Seq<Seq<Item>>, j: int) -> Report {
    error_report(
        "Duplicate `update`"@,
        "There is multiple `update` blocks that are triggered by ["@ + join_items(t[j]) + "]."@,
        seq![
            StepView::Attribute("update"@),
            StepView::Index(j as i64),
            StepView::Attribute("triggers"@),
        ],
    )
}

/// Every block with the triggers of any block before it, next to it or not, is reported
proof fn lemma_duplicate_found(t: Seq<Seq<Item>>, i: int, j: int)
    requires
        0 <= i < j < t.len(),
        t[i] == t[j],
    ensures
        duplicate_reports(t).contains(duplicate_report(t, j)),
    decreases t.len(),
{
    let p = t.drop_last();
    let d = duplicate_reports(p);
    if j == t.len() - 1 {
        assert(p[i] == t[i]);
        assert(p.contains(t.last()));
        assert(duplicate_reports(t) == d + seq![duplicate_report(t, j)]);
        assert((d + seq![duplicate_report(t, j)])[d.len() as int] == duplicate_report(t, j));
    } else {
        assert(p[i] == t[i] && p[j] == t[j]);
        lemma_duplicate_found(p, i, j);
        assert(duplicate_report(p, j) == duplicate_report(t, j));
        let k = choose|k: int| 0 <= k < d.len() && d[k] == duplicate_report(p, j);
        let rest = if p.contains(t.last()) {
            seq![duplicate_report(t, t.len() - 1)]
        } else {
            Seq::<Report>::empty()
        };
        assert(duplicate_reports(t) == d + rest);
        assert((d + rest)[k] == duplicate_report(t, j));
    }
}

/// Every report of a duplicate is that of a block with the triggers of a block before it
proof fn lemma_duplicate_justified(t: Seq<Seq<Item>>, k: int)
    requires
        0 <= k < duplicate_reports(t).len(),
    ensures
        exists|i: int, j: int|
            #![trigger t[i], duplicate_report(t, j)]
            0 <= i < j < t.len() && t[i] == t[j] && duplicate_reports(t)[k] == duplicate_report(t, j),
    decreases t.len(),
{
    let p = t.drop_last();
    let d = duplicate_reports(p);
    let rest = if p.contains(t.last()) {
        seq![duplicate_report(t, t.len() - 1)]
    } else {
        Seq::<Report>::empty()
    };
    assert(duplicate_reports(t) == d + rest);
    if k < d.len() {
        lemma_duplicate_justified(p, k);
        let (i, j) = choose|i: int, j: int|
            #![trigger p[i], duplicate_report(p, j)]
            0 <= i < j < p.len() && p[i] == p[j] && d[k] == duplicate_report(p, j);
        assert(t[i] == p[i] && t[j] == p[j]);
        assert(duplicate_report(p, j) == duplicate_report(t, j));
        assert(duplicate_reports(t)[k] == d[k]);
    } else {
        let i = choose|i: int| 0 <= i < p.len() && p[i] == t.last();
        assert(t[i] == p[i]);
        assert(duplicate_reports(t)[k] == duplicate_report(t, t.len() - 1));
    }
}

/// Every report of an ambiguity is about a change of triggers
proof fn lemma_keys_reports_summary(t: Seq<Seq<Item>>, keys: Seq<Seq<Item>>)
    ensures
        forall|k: int|
            0 <= k < keys_reports(t, keys).len() ==> (#[trigger] keys_reports(t, keys)[k]).summary
                == "`update` ambiguity"@,
    decreases keys.len(),
{
    if keys.len() > 0 {
        lemma_keys_reports_summary(t, keys.drop_last());
        let prefix = keys_reports(t, keys.drop_last());
        let rest = if t.contains(keys.last()) {
            Seq::<Report>::empty()
        } else {
            seq![
                error_report(
                    "`update` ambiguity"@,
                    ambiguity_detail(keys.last(), sorted_lists(conflict_members(t, keys.last()))),
                    Seq::empty(),
                ),
            ]
        };
        assert(keys_reports(t, keys) == prefix + rest);
        assert forall|k: int| 0 <= k < keys_reports(t, keys).len() implies (
        #[trigger] keys_reports(t, keys)[k]).summary == "`update` ambiguity"@ by {
            if k < prefix.len() {
                assert(keys_reports(t, keys)[k] == prefix[k]);
            } else {
                assert(keys_reports(t, keys)[k] == rest[k - prefix.len()]);
            }
        }
    }
}

/// Of the present `update` blocks, every one whose triggers are those of any block before it
/// (`i < j`, next to it or not) is reported as a duplicate at `update[j].triggers`
pub proof fn law_duplicates_reported(u: Seq<Value<StateUpdate>>, i: int, j: int)
    requires
        0 <= i < j < present_triggers(u).len(),
        present_triggers(u)[i] == present_triggers(u)[j],
    ensures
        ambiguity_reports(u).contains(duplicate_report(present_triggers(u), j)),
{
    let t = present_triggers(u);
    lemma_duplicate_found(t, i, j);
    let d = duplicate_reports(t);
    let kr = keys_reports(t, sorted_lists(conflict_keys(t)));
    let k = choose|k: int| 0 <= k < d.len() && d[k] == duplicate_report(t, j);
    assert((d + kr)[k] == duplicate_report(t, j));
}

/// A duplicate is reported only for a present `update` block whose triggers are those of a
/// block before it, and at that block
pub proof fn law_duplicates_justified(u: Seq<Value<StateUpdate>>, k: int)
    requires
        0 <= k < ambiguity_reports(u).len(),
        ambiguity_reports(u)[k].summary == "Duplicate `update`"@,
    ensures
        exists|i: int, j: int|
            #![trigger present_triggers(u)[i], duplicate_report(present_triggers(u), j)]
            0 <= i < j < present_triggers(u).len() && present_triggers(u)[i] == present_triggers(u)[j]
                && ambiguity_reports(u)[k] == duplicate_report(present_triggers(u), j),
{
    let t = present_triggers(u);
    let d = duplicate_reports(t);
    let kr = keys_reports(t, sorted_lists(conflict_keys(t)));
    assert(ambiguity_reports(u) == d + kr);
    if k < d.len() {
        lemma_duplicate_justified(t, k);
        assert(ambiguity_reports(u)[k] == d[k]);
    } else {
        lemma_keys_reports_summary(t, sorted_lists(conflict_keys(t)));
        assert(ambiguity_reports(u)[k] == kr[k - d.len()]);
        reveal_strlit("`update` ambiguity");
        reveal_strlit("Duplicate `update`");
        assert(kr[k - d.len()].summary[0] != ambiguity_reports(u)[k].summary[0]);
    }
}

} // verus!
