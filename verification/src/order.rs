//! The orders in which sets of string values keep their items: strings are ordered
//! lexicographically by their characters (which is the order of their UTF-8 bytes), string
//! values by the variant first (`Value < Null < Unknown`), and sorted sets of string values
//! lexicographically by their items.

use vstd::prelude::*;

use crate::named_map::str_value_view;
use crate::value::Value;

verus! {

/// An item of a set of string values, as characters
pub type Item = Value<Seq<char>>;

/// Result of a three-way comparison
#[derive(Debug, Clone, Copy)]
pub enum Order {
    Less,
    Equal,
    Greater,
}

/// Order of characters: by code point
pub open spec fn char_lt(a: char, b: char) -> bool {
    (a as int) < (b as int)
}

/// Lexicographic order of strings; a proper prefix comes first
pub open spec fn str_lt(a: Seq<char>, b: Seq<char>) -> bool
    decreases a.len(),
{
    if b.len() == 0 {
        false
    } else if a.len() == 0 {
        true
    } else if char_lt(a[0], b[0]) {
        true
    } else if a[0] == b[0] {
        str_lt(a.drop_first(), b.drop_first())
    } else {
        false
    }
}

/// Order of string values: the variants in the order `Value < Null < Unknown`, two values
/// by their strings
pub open spec fn item_lt(a: Item, b: Item) -> bool {
    match (a, b) {
        (Value::Value(x), Value::Value(y)) => str_lt(x, y),
        (Value::Value(_), _) => true,
        (Value::Null, Value::Unknown) => true,
        _ => false,
    }
}

/// Lexicographic order of sequences of string values; a proper prefix comes first
pub open spec fn items_lt(a: Seq<Item>, b: Seq<Item>) -> bool
    decreases a.len(),
{
    if b.len() == 0 {
        false
    } else if a.len() == 0 {
        true
    } else if item_lt(a[0], b[0]) {
        true
    } else if a[0] == b[0] {
        items_lt(a.drop_first(), b.drop_first())
    } else {
        false
    }
}

/// The items are in strictly increasing order
pub open spec fn items_sorted(s: Seq<Item>) -> bool {
    forall|i: int, j: int| 0 <= i < j < s.len() ==> item_lt(#[trigger] s[i], #[trigger] s[j])
}

/// The sequences are in strictly increasing order
pub open spec fn lists_sorted(s: Seq<Seq<Item>>) -> bool {
    forall|i: int, j: int| 0 <= i < j < s.len() ==> items_lt(#[trigger] s[i], #[trigger] s[j])
}

/// The items of a vector of string values, as characters
pub open spec fn items_view(v: Seq<Value<String>>) -> Seq<Item> {
    v.map_values(|x: Value<String>| str_value_view(x))
}

proof fn lemma_str_lt_irreflexive(a: Seq<char>)
    ensures
        !str_lt(a, a),
    decreases a.len(),
{
    if a.len() > 0 {
        lemma_str_lt_irreflexive(a.drop_first());
    }
}

proof fn lemma_str_lt_transitive(a: Seq<char>, b: Seq<char>, c: Seq<char>)
    requires
        str_lt(a, b),
        str_lt(b, c),
    ensures
        str_lt(a, c),
    decreases a.len(),
{
    if a.len() > 0 && a[0] == b[0] && b[0] == c[0] {
        lemma_str_lt_transitive(a.drop_first(), b.drop_first(), c.drop_first());
    }
}

proof fn lemma_str_lt_total(a: Seq<char>, b: Seq<char>)
    ensures
        a == b || str_lt(a, b) || str_lt(b, a),
    decreases a.len(),
{
    if a.len() > 0 && b.len() > 0 && a[0] == b[0] {
        lemma_str_lt_total(a.drop_first(), b.drop_first());
        if a.drop_first() == b.drop_first() {
            assert(a =~= seq![a[0]] + a.drop_first());
            assert(b =~= seq![b[0]] + b.drop_first());
        }
    } else if a.len() == 0 && b.len() == 0 {
        assert(a =~= b);
    } else if a.len() > 0 && b.len() > 0 {
        assert((a[0] as int) != (b[0] as int));
    }
}

/// The order of string values is a strict total order
pub proof fn lemma_item_lt_strict_total(a: Item, b: Item, c: Item)
    ensures
        !item_lt(a, a),
        item_lt(a, b) && item_lt(b, c) ==> item_lt(a, c),
        a == b || item_lt(a, b) || item_lt(b, a),
{
    if let Value::Value(x) = a {
        lemma_str_lt_irreflexive(x);
        if let Value::Value(y) = b {
            lemma_str_lt_total(x, y);
            if let Value::Value(z) = c {
                if str_lt(x, y) && str_lt(y, z) {
                    lemma_str_lt_transitive(x, y, z);
                }
            }
        }
    }
}

proof fn lemma_items_lt_irreflexive(a: Seq<Item>)
    ensures
        !items_lt(a, a),
    decreases a.len(),
{
    if a.len() > 0 {
        lemma_item_lt_strict_total(a[0], a[0], a[0]);
        lemma_items_lt_irreflexive(a.drop_first());
    }
}

proof fn lemma_items_lt_transitive(a: Seq<Item>, b: Seq<Item>, c: Seq<Item>)
    requires
        items_lt(a, b),
        items_lt(b, c),
    ensures
        items_lt(a, c),
    decreases a.len(),
{
    if a.len() > 0 && c.len() > 0 {
        lemma_item_lt_strict_total(a[0], b[0], c[0]);
        if a[0] == b[0] && b[0] == c[0] {
            lemma_items_lt_transitive(a.drop_first(), b.drop_first(), c.drop_first());
        }
    }
}

proof fn lemma_items_lt_total(a: Seq<Item>, b: Seq<Item>)
    ensures
        a == b || items_lt(a, b) || items_lt(b, a),
    decreases a.len(),
{
    if a.len() > 0 && b.len() > 0 {
        lemma_item_lt_strict_total(a[0], b[0], b[0]);
        if a[0] == b[0] {
            lemma_items_lt_total(a.drop_first(), b.drop_first());
            if a.drop_first() == b.drop_first() {
                assert(a =~= seq![a[0]] + a.drop_first());
                assert(b =~= seq![b[0]] + b.drop_first());
            }
        }
    } else if a.len() == 0 && b.len() == 0 {
        assert(a =~= b);
    }
}

/// The lexicographic order of sequences of string values is a strict total order
pub proof fn lemma_items_lt_strict_total(a: Seq<Item>, b: Seq<Item>, c: Seq<Item>)
    ensures
        !items_lt(a, a),
        items_lt(a, b) && items_lt(b, c) ==> items_lt(a, c),
        a == b || items_lt(a, b) || items_lt(b, a),
{
    lemma_items_lt_irreflexive(a);
    if items_lt(a, b) && items_lt(b, c) {
        lemma_items_lt_transitive(a, b, c);
    }
    lemma_items_lt_total(a, b);
}

/// Two sorted sequences of sequences with the same elements are equal
pub proof fn lemma_lists_sorted_unique(a: Seq<Seq<Item>>, b: Seq<Seq<Item>>)
    requires
        lists_sorted(a),
        lists_sorted(b),
        a.to_set() == b.to_set(),
    ensures
        a == b,
    decreases a.len(),
{
    if a.len() == 0 {
        if b.len() > 0 {
            assert(b.to_set().contains(b[0]));
        }
        assert(a =~= b);
    } else if b.len() == 0 {
        assert(a.to_set().contains(a[0]));
    } else {
        assert(a.to_set().contains(a[0]));
        assert(b.to_set().contains(b[0]));
        let i = choose|i: int| 0 <= i < a.len() && a[i] == b[0];
        let j = choose|j: int| 0 <= j < b.len() && b[j] == a[0];
        if a[0] != b[0] {
            assert(i > 0 && j > 0);
            assert(items_lt(a[0], a[i]));
            assert(items_lt(b[0], b[j]));
            lemma_items_lt_strict_total(a[0], b[0], a[0]);
        }
        let ra = a.drop_first();
        let rb = b.drop_first();
        assert forall|k: int, l: int| 0 <= k < l < ra.len() implies items_lt(
            #[trigger] ra[k],
            #[trigger] ra[l],
        ) by {
            assert(ra[k] == a[k + 1] && ra[l] == a[l + 1]);
        }
        assert forall|k: int, l: int| 0 <= k < l < rb.len() implies items_lt(
            #[trigger] rb[k],
            #[trigger] rb[l],
        ) by {
            assert(rb[k] == b[k + 1] && rb[l] == b[l + 1]);
        }
        assert forall|x: Seq<Item>| ra.to_set().contains(x) implies rb.to_set().contains(x) by {
            let k = choose|k: int| 0 <= k < ra.len() && ra[k] == x;
            assert(a[k + 1] == x);
            assert(a.to_set().contains(x));
            assert(b.to_set().contains(x));
            let l = choose|l: int| 0 <= l < b.len() && b[l] == x;
            if l == 0 {
                assert(items_lt(a[0], a[k + 1]));
                lemma_items_lt_strict_total(x, x, x);
            }
            assert(rb[l - 1] == x);
        }
        assert forall|x: Seq<Item>| rb.to_set().contains(x) implies ra.to_set().contains(x) by {
            let k = choose|k: int| 0 <= k < rb.len() && rb[k] == x;
            assert(b[k + 1] == x);
            assert(b.to_set().contains(x));
            assert(a.to_set().contains(x));
            let l = choose|l: int| 0 <= l < a.len() && a[l] == x;
            if l == 0 {
                assert(items_lt(b[0], b[k + 1]));
                lemma_items_lt_strict_total(x, x, x);
            }
            assert(ra[l - 1] == x);
        }
        assert(ra.to_set() =~= rb.to_set());
        lemma_lists_sorted_unique(ra, rb);
        assert(a =~= seq![a[0]] + ra);
        assert(b =~= seq![b[0]] + rb);
    }
}

/// Compare two strings in the order [`str_lt`]
pub fn compare_str(a: &str, b: &str) -> (r: Order)
    ensures
        r is Less <==> str_lt(a@, b@),
        r is Equal <==> a@ == b@,
        r is Greater <==> str_lt(b@, a@),
{
    proof {
        lemma_str_lt_irreflexive(a@);
        lemma_str_lt_total(a@, b@);
    }
    let n = a.unicode_len();
    let m = b.unicode_len();
    let mut i: usize = 0;
    assert(a@.skip(0) =~= a@);
    assert(b@.skip(0) =~= b@);
    while i < n && i < m
        invariant
            n == a@.len(),
            m == b@.len(),
            i <= n,
            i <= m,
            a@.take(i as int) == b@.take(i as int),
            str_lt(a@, b@) == str_lt(a@.skip(i as int), b@.skip(i as int)),
            str_lt(b@, a@) == str_lt(b@.skip(i as int), a@.skip(i as int)),
        decreases n - i,
    {
        let x = a.get_char(i);
        let y = b.get_char(i);
        assert(a@.skip(i as int)[0] == x);
        assert(b@.skip(i as int)[0] == y);
        if x < y {
            assert(a@ != b@) by {
                assert(a@[i as int] != b@[i as int]);
            }
            return Order::Less;
        }
        if y < x {
            assert(a@ != b@) by {
                assert(a@[i as int] != b@[i as int]);
            }
            return Order::Greater;
        }
        assert(x == y) by {
            assert((x as int) == (y as int));
        }
        assert(a@.skip(i as int).drop_first() =~= a@.skip(i as int + 1));
        assert(b@.skip(i as int).drop_first() =~= b@.skip(i as int + 1));
        assert(a@.take(i as int + 1) =~= a@.take(i as int).push(x));
        assert(b@.take(i as int + 1) =~= b@.take(i as int).push(y));
        i = i + 1;
    }
    if i == n && i == m {
        assert(a@ =~= a@.take(i as int));
        assert(b@ =~= b@.take(i as int));
        Order::Equal
    } else if i == n {
        assert(a@.skip(i as int).len() == 0);
        assert(a@ != b@);
        Order::Less
    } else {
        assert(b@.skip(i as int).len() == 0);
        assert(a@ != b@);
        Order::Greater
    }
}

/// Compare two string values in the order [`item_lt`]
pub fn compare_item(a: &Value<String>, b: &Value<String>) -> (r: Order)
    ensures
        r is Less <==> item_lt(str_value_view(*a), str_value_view(*b)),
        r is Equal <==> str_value_view(*a) == str_value_view(*b),
        r is Greater <==> item_lt(str_value_view(*b), str_value_view(*a)),
{
    proof {
        lemma_item_lt_strict_total(str_value_view(*a), str_value_view(*b), str_value_view(*b));
    }
    match (a, b) {
        (Value::Value(x), Value::Value(y)) => compare_str(x.as_str(), y.as_str()),
        (Value::Value(_), _) => Order::Less,
        (_, Value::Value(_)) => Order::Greater,
        (Value::Null, Value::Null) => Order::Equal,
        (Value::Null, Value::Unknown) => Order::Less,
        (Value::Unknown, Value::Null) => Order::Greater,
        (Value::Unknown, Value::Unknown) => Order::Equal,
    }
}

/// Compare two sequences of string values in the order [`items_lt`]
pub fn compare_items(a: &Vec<Value<String>>, b: &Vec<Value<String>>) -> (r: Order)
    ensures
        r is Less <==> items_lt(items_view(a@), items_view(b@)),
        r is Equal <==> items_view(a@) == items_view(b@),
        r is Greater <==> items_lt(items_view(b@), items_view(a@)),
{
    let ghost va = items_view(a@);
    let ghost vb = items_view(b@);
    proof {
        lemma_items_lt_strict_total(va, vb, vb);
    }
    let n = a.len();
    let m = b.len();
    let mut i: usize = 0;
    assert(va.skip(0) =~= va);
    assert(vb.skip(0) =~= vb);
    while i < n && i < m
        invariant
            n == a@.len(),
            m == b@.len(),
            va == items_view(a@),
            vb == items_view(b@),
            i <= n,
            i <= m,
            va.take(i as int) == vb.take(i as int),
            items_lt(va, vb) == items_lt(va.skip(i as int), vb.skip(i as int)),
            items_lt(vb, va) == items_lt(vb.skip(i as int), va.skip(i as int)),
        decreases n - i,
    {
        let c = compare_item(&a[i], &b[i]);
        assert(va.skip(i as int)[0] == str_value_view(a@[i as int]));
        assert(vb.skip(i as int)[0] == str_value_view(b@[i as int]));
        match c {
            Order::Less => {
                assert(va != vb) by {
                    assert(va[i as int] != vb[i as int]);
                }
                return Order::Less;
            },
            Order::Greater => {
                assert(va != vb) by {
                    assert(va[i as int] != vb[i as int]);
                }
                return Order::Greater;
            },
            Order::Equal => {},
        }
        assert(va.skip(i as int).drop_first() =~= va.skip(i as int + 1));
        assert(vb.skip(i as int).drop_first() =~= vb.skip(i as int + 1));
        assert(va.take(i as int + 1) =~= va.take(i as int).push(va[i as int]));
        assert(vb.take(i as int + 1) =~= vb.take(i as int).push(vb[i as int]));
        i = i + 1;
    }
    if i == n && i == m {
        assert(va =~= va.take(i as int));
        assert(vb =~= vb.take(i as int));
        Order::Equal
    } else if i == n {
        assert(va.skip(i as int).len() == 0);
        assert(va != vb) by {
            assert(va.len() != vb.len());
        }
        Order::Less
    } else {
        assert(vb.skip(i as int).len() == 0);
        assert(va != vb) by {
            assert(va.len() != vb.len());
        }
        Order::Greater
    }
}

} // verus!
