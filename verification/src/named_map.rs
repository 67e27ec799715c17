//! [`NamedMap`]: a map from names to items that keeps the order of its entries,
//! and [`NameSet`]: a set of string values.

use vstd::prelude::*;

use crate::order::{item_lt, items_sorted, items_view, str_lt};
use crate::value::Value;

verus! {

/// The characters of a string value (`Null` and `Unknown` are kept as they are)
pub open spec fn str_value_view(v: Value<String>) -> Value<Seq<char>> {
    match v {
        Value::Value(s) => Value::Value(s@),
        Value::Null => Value::Null,
        Value::Unknown => Value::Unknown,
    }
}

/// Compare two string values: same variant, and same characters for two values
pub fn str_value_eq(a: &Value<String>, b: &Value<String>) -> (r: bool)
    ensures
        r == (str_value_view(*a) == str_value_view(*b)),
{
    match (a, b) {
        (Value::Value(x), Value::Value(y)) => x.eq(y),
        (Value::Null, Value::Null) => true,
        (Value::Unknown, Value::Unknown) => true,
        _ => false,
    }
}

/// Copy of a string value
pub fn str_value_clone(a: &Value<String>) -> (r: Value<String>)
    ensures
        r == *a,
{
    match a {
        Value::Value(x) => Value::Value(x.clone()),
        Value::Null => Value::Null,
        Value::Unknown => Value::Unknown,
    }
}

/// No name appears twice among the entries
pub open spec fn entries_unique<V>(e: Seq<(String, V)>) -> bool {
    forall|i: int, j: int| 0 <= i < e.len() && 0 <= j < e.len() && i != j ==> e[i].0@ != e[j].0@
}

/// `k` names one of the entries
pub open spec fn entries_have_key<V>(e: Seq<(String, V)>, k: Seq<char>) -> bool {
    exists|i: int| 0 <= i < e.len() && #[trigger] e[i].0@ == k
}

/// Position of an entry named `k`
pub open spec fn entries_index_of<V>(e: Seq<(String, V)>, k: Seq<char>) -> int {
    choose|i: int| 0 <= i < e.len() && #[trigger] e[i].0@ == k
}

/// The names of the entries are in increasing order (see [`str_lt`])
pub open spec fn entries_sorted<V>(e: Seq<(String, V)>) -> bool {
    forall|i: int, j: int| 0 <= i < j < e.len() ==> str_lt(#[trigger] e[i].0@, #[trigger] e[j].0@)
}

/// Map from names to items; each name appears once, the entries in increasing order of
/// their names
#[derive(Debug)]
pub struct NamedMap<V> {
    pub entries: Vec<(String, V)>,
}

impl<V> NamedMap<V> {
    /// Number of entries
    pub open spec fn size(&self) -> int {
        self.entries@.len() as int
    }

    /// Name of the `i`-th entry
    pub open spec fn key_at(&self, i: int) -> Seq<char> {
        self.entries@[i].0@
    }

    /// Item of the `i`-th entry
    pub open spec fn value_at(&self, i: int) -> V {
        self.entries@[i].1
    }

    /// No name appears twice, and the names are in increasing order
    pub open spec fn wf(&self) -> bool {
        entries_unique(self.entries@) && entries_sorted(self.entries@)
    }

    /// `k` names an entry
    pub open spec fn has_key(&self, k: Seq<char>) -> bool {
        entries_have_key(self.entries@, k)
    }

    /// Position of the entry named `k`
    pub open spec fn index_of(&self, k: Seq<char>) -> int {
        entries_index_of(self.entries@, k)
    }

    /// Item of the entry named `k` (meaningful when `has_key(k)`)
    pub open spec fn get_spec(&self, k: Seq<char>) -> V {
        self.entries@[self.index_of(k)].1
    }

    /// The set of the names
    pub open spec fn key_set(&self) -> Set<Seq<char>> {
        Set::new(|k: Seq<char>| self.has_key(k))
    }

    /// In a well-formed map, the entry at `i` is the one named by its name
    pub proof fn lemma_index_of(&self, i: int)
        requires
            self.wf(),
            0 <= i < self.size(),
        ensures
            self.has_key(self.key_at(i)),
            self.index_of(self.key_at(i)) == i,
            self.get_spec(self.key_at(i)) == self.value_at(i),
    {
        let k = self.key_at(i);
        assert(self.entries@[i].0@ == k);
        let j = self.index_of(k);
        assert(0 <= j < self.size() && self.entries@[j].0@ == k);
    }

    /// An empty map
    pub fn new() -> (r: Self)
        ensures
            r.size() == 0,
            r.wf(),
    {
        NamedMap { entries: Vec::new() }
    }

    /// Number of entries
    pub fn len(&self) -> (r: usize)
        ensures
            r == self.size(),
    {
        self.entries.len()
    }

    /// Position of the entry named `key`, if any
    pub fn find(&self, key: &str) -> (r: Option<usize>)
        requires
            self.wf(),
        ensures
            match r {
                Some(i) => i < self.size() && self.key_at(i as int) == key@ && self.has_key(key@)
                    && self.index_of(key@) == i,
                None => !self.has_key(key@),
            },
    {
        let n = self.entries.len();
        let wanted = key.to_owned();
        for i in 0..n
            invariant
                n == self.size(),
                self.wf(),
                wanted@ == key@,
                forall|j: int| 0 <= j < i ==> self.key_at(j) != key@,
        {
            if self.entries[i].0 == wanted {
                proof {
                    self.lemma_index_of(i as int);
                }
                return Some(i);
            }
        }
        assert(!self.has_key(key@)) by {
            if self.has_key(key@) {
                let j = choose|j: int| 0 <= j < self.size() && #[trigger] self.entries@[j].0@ == key@;
                assert(self.key_at(j) == key@);
            }
        }
        None
    }

    /// Whether an entry is named `key`
    pub fn contains_key(&self, key: &str) -> (r: bool)
        requires
            self.wf(),
        ensures
            r == self.has_key(key@),
    {
        self.find(key).is_some()
    }

    /// Item of the entry named `key`, if any
    pub fn get(&self, key: &str) -> (r: Option<&V>)
        requires
            self.wf(),
        ensures
            match r {
                Some(v) => self.has_key(key@) && *v == self.get_spec(key@),
                None => !self.has_key(key@),
            },
    {
        match self.find(key) {
            Some(i) => Some(&self.entries[i].1),
            None => None,
        }
    }

    /// Append an entry whose name comes after all the names of the map
    pub fn push_new(&mut self, key: String, value: V)
        requires
            old(self).wf(),
            !old(self).has_key(key@),
            forall|j: int| 0 <= j < old(self).size() ==> str_lt(#[trigger] old(self).key_at(j), key@),
        ensures
            final(self).wf(),
            final(self).entries@ == old(self).entries@.push((key, value)),
    {
        let ghost k = key@;
        self.entries.push((key, value));
        assert forall|i: int, j: int|
            0 <= i < self.size() && 0 <= j < self.size() && i != j implies self.key_at(i)
            != self.key_at(j) by {
            if i == old(self).size() {
                assert(old(self).key_at(j) == self.key_at(j));
            } else if j == old(self).size() {
                assert(old(self).key_at(i) == self.key_at(i));
            } else {
                assert(old(self).key_at(i) == self.key_at(i));
                assert(old(self).key_at(j) == self.key_at(j));
            }
        }
        assert forall|i: int, j: int| 0 <= i < j < self.size() implies str_lt(
            #[trigger] self.entries@[i].0@,
            #[trigger] self.entries@[j].0@,
        ) by {
            assert(old(self).key_at(i) == self.key_at(i));
            if j < old(self).size() {
                assert(old(self).key_at(j) == self.key_at(j));
            }
        }
    }
}

/// Set of string values, each appearing once (as characters)
#[derive(Debug)]
pub struct NameSet {
    pub items: Vec<Value<String>>,
}

impl NameSet {
    /// The set of the items, as characters
    pub open spec fn view_set(&self) -> Set<Value<Seq<char>>> {
        Set::new(|v: Value<Seq<char>>| exists|i: int| 0 <= i < self.items@.len() && #[trigger] str_value_view(self.items@[i]) == v)
    }

    /// The names among the items (the items that are values)
    pub open spec fn names(&self) -> Set<Seq<char>> {
        Set::new(|k: Seq<char>| self.view_set().contains(Value::Value(k)))
    }

    /// The items in increasing order (see [`item_lt`]), none appearing twice
    pub open spec fn wf(&self) -> bool {
        &&& forall|i: int, j: int|
            0 <= i < self.items@.len() && 0 <= j < self.items@.len() && i != j
                ==> str_value_view(self.items@[i]) != str_value_view(self.items@[j])
        &&& items_sorted(items_view(self.items@))
    }

    /// Whether `item` is in the set
    pub fn contains(&self, item: &Value<String>) -> (r: bool)
        ensures
            r == self.view_set().contains(str_value_view(*item)),
    {
        let n = self.items.len();
        for i in 0..n
            invariant
                n == self.items@.len(),
                forall|j: int|
                    0 <= j < i ==> str_value_view(self.items@[j]) != str_value_view(*item),
        {
            if str_value_eq(&self.items[i], item) {
                assert(str_value_view(self.items@[i as int]) == str_value_view(*item));
                return true;
            }
        }
        false
    }

    /// Number of items
    pub fn len(&self) -> (r: usize)
        ensures
            r == self.items@.len(),
    {
        self.items.len()
    }

    /// Whether the set holds the name `name`
    pub fn contains_name(&self, name: &str) -> (r: bool)
        ensures
            r == self.names().contains(name@),
    {
        let v = Value::Value(name.to_owned());
        self.contains(&v)
    }
}

} // verus!
