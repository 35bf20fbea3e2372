//! A small string-keyed map that keeps its entries in insertion order.

use vstd::prelude::*;
use vstd::std_specs::cmp::{PartialEqSpec, PartialEqSpecImpl};

verus! {

/// Entry `i` of `es` is the first one whose key is `key`.
pub open spec fn is_first_key<V>(es: Seq<(String, V)>, key: Seq<char>, i: int) -> bool {
    &&& 0 <= i < es.len()
    &&& es[i].0@ == key
    &&& forall|j: int| 0 <= j < i ==> es[j].0@ != key
}

/// Some entry of `es` has the key `key`.
pub open spec fn has_key<V>(es: Seq<(String, V)>, key: Seq<char>) -> bool {
    exists|i: int| is_first_key(es, key, i)
}

/// Index of the first entry with key `key` (meaningful when `has_key`).
pub open spec fn key_index<V>(es: Seq<(String, V)>, key: Seq<char>) -> int {
    choose|i: int| is_first_key(es, key, i)
}

/// The value stored under `key`: that of the first entry with that key.
pub open spec fn lookup<V>(es: Seq<(String, V)>, key: Seq<char>) -> Option<V> {
    if has_key(es, key) {
        Some(es[key_index(es, key)].1)
    } else {
        None
    }
}

/// The entries after storing `value` under `key`: the entry with that key is
/// overwritten in place, or a new entry is appended.
pub open spec fn insert_entry<V>(es: Seq<(String, V)>, key: String, value: V) -> Seq<(String, V)> {
    if has_key(es, key@) {
        es.update(key_index(es, key@), (key, value))
    } else {
        es.push((key, value))
    }
}

/// No key occurs twice.
pub open spec fn keys_distinct<V>(es: Seq<(String, V)>) -> bool {
    forall|i: int, j: int| 0 <= i < j < es.len() ==> es[i].0@ != es[j].0@
}

/// When an index is the first one for a key, it is the one `key_index` names.
pub proof fn lemma_key_index<V>(es: Seq<(String, V)>, key: Seq<char>, i: int)
    requires
        is_first_key(es, key, i),
    ensures
        has_key(es, key),
        key_index(es, key) == i,
        lookup(es, key) == Some(es[i].1),
{
    let k = key_index(es, key);
    assert(is_first_key(es, key, k));
    if k < i {
        assert(es[k].0@ != key);
    }
    if i < k {
        assert(es[i].0@ != key);
    }
}

/// When no entry has the key, the lookup finds nothing.
pub proof fn lemma_no_key<V>(es: Seq<(String, V)>, key: Seq<char>)
    requires
        forall|j: int| 0 <= j < es.len() ==> es[j].0@ != key,
    ensures
        !has_key(es, key),
        lookup(es, key) == None::<V>,
{
}

/// A map from strings to values that remembers insertion order. Two maps
/// are equal (`==`) when they hold equal entries, whatever their order.
#[derive(Debug, Clone)]
pub struct StrMap<V> {
    entries: Vec<(String, V)>,
}

/// `b` holds what `a` holds: as many entries, and for each entry of `a` an
/// equal value stored under its key in `b`. For maps whose keys are distinct
/// (every map built by `new` and `insert`) this is equality of the maps as
/// sets of entries.
pub open spec fn same_entries<V: PartialEqSpec>(a: Seq<(String, V)>, b: Seq<(String, V)>) -> bool {
    &&& a.len() == b.len()
    &&& forall|i: int|
        0 <= i < a.len() ==> match #[trigger] lookup(b, a[i].0@) {
            Some(w) => a[i].1.eq_spec(&w),
            None => false,
        }
}

impl<V: PartialEq + PartialEqSpec> PartialEq for StrMap<V> {
    fn eq(&self, other: &Self) -> (r: bool) {
        if self.entries.len() != other.entries.len() {
            return false;
        }
        let mut i: usize = 0;
        while i < self.entries.len()
            invariant
                0 <= i <= self.entries.len(),
                self.entries.len() == other.entries.len(),
                V::obeys_eq_spec() ==> forall|j: int|
                    0 <= j < i ==> match #[trigger] lookup(other@, self@[j].0@) {
                        Some(w) => self@[j].1.eq_spec(&w),
                        None => false,
                    },
            decreases self.entries.len() - i,
        {
            match other.get(self.entries[i].0.as_str()) {
                Some(w) => {
                    if !(self.entries[i].1 == *w) {
                        return false;
                    }
                },
                None => {
                    return false;
                },
            }
            i += 1;
        }
        true
    }
}

impl<V: PartialEq + PartialEqSpec> PartialEqSpecImpl for StrMap<V> {
    open spec fn obeys_eq_spec() -> bool {
        V::obeys_eq_spec()
    }

    open spec fn eq_spec(&self, other: &Self) -> bool {
        same_entries(self@, other@)
    }
}

impl<V> View for StrMap<V> {
    type V = Seq<(String, V)>;

    closed spec fn view(&self) -> Seq<(String, V)> {
        self.entries@
    }
}

impl<V> StrMap<V> {
    /// An empty map.
    pub fn new() -> (m: Self)
        ensures
            m@ == Seq::<(String, V)>::empty(),
    {
        StrMap { entries: Vec::new() }
    }

    /// A map holding exactly these entries, in this order.
    pub fn from_entries(entries: Vec<(String, V)>) -> (m: Self)
        ensures
            m@ == entries@,
    {
        StrMap { entries }
    }

    /// The index of the first entry with key `key`, if any.
    pub fn find(&self, key: &str) -> (r: Option<usize>)
        ensures
            match r {
                Some(i) => is_first_key(self@, key@, i as int),
                None => !has_key(self@, key@) && forall|j: int|
                    0 <= j < self@.len() ==> self@[j].0@ != key@,
            },
    {
        let k = key.to_owned();
        let mut i: usize = 0;
        while i < self.entries.len()
            invariant
                0 <= i <= self.entries.len(),
                k@ == key@,
                forall|j: int| 0 <= j < i ==> self.entries@[j].0@ != key@,
            decreases self.entries.len() - i,
        {
            if self.entries[i].0 == k {
                return Some(i);
            }
            i += 1;
        }
        proof {
            lemma_no_key(self@, key@);
        }
        None
    }

    /// The value stored under `key`.
    pub fn get(&self, key: &str) -> (r: Option<&V>)
        ensures
            match r {
                Some(v) => lookup(self@, key@) == Some(*v),
                None => lookup(self@, key@) is None,
            },
    {
        match self.find(key) {
            Some(i) => {
                proof {
                    lemma_key_index(self@, key@, i as int);
                }
                Some(&self.entries[i].1)
            },
            None => None,
        }
    }

    /// Whether some entry has the key `key`.
    pub fn contains_key(&self, key: &str) -> (r: bool)
        ensures
            r == has_key(self@, key@),
            r == (lookup(self@, key@) is Some),
    {
        match self.find(key) {
            Some(i) => {
                proof {
                    lemma_key_index(self@, key@, i as int);
                }
                true
            },
            None => false,
        }
    }

    /// Stores `value` under `key`, returning the value it replaces.
    pub fn insert(&mut self, key: String, value: V) -> (old_value: Option<V>)
        ensures
            final(self)@ == insert_entry(old(self)@, key, value),
            old_value == lookup(old(self)@, key@),
    {
        match self.find(key.as_str()) {
            Some(i) => {
                proof {
                    lemma_key_index(old(self)@, key@, i as int);
                }
                let (_, previous) = self.entries.remove(i);
                self.entries.insert(i, (key, value));
                assert(self.entries@ =~= insert_entry(old(self)@, key, value));
                Some(previous)
            },
            None => {
                self.entries.push((key, value));
                None
            },
        }
    }

    /// Number of entries.
    pub fn len(&self) -> (n: usize)
        ensures
            n == self@.len(),
    {
        self.entries.len()
    }

    /// Whether the map has no entry.
    pub fn is_empty(&self) -> (b: bool)
        ensures
            b == (self@.len() == 0),
    {
        self.entries.len() == 0
    }

    /// The entries, in insertion order.
    pub fn entries(&self) -> (es: &Vec<(String, V)>)
        ensures
            es@ == self@,
    {
        &self.entries
    }
}

/// A map is larger, for termination measures, than its entries.
pub proof fn lemma_view_decreases<V>(m: StrMap<V>)
    ensures
        decreases_to!(m => m@),
{
    assert(decreases_to!(m => m.entries));
    assert(decreases_to!(m.entries => m.entries@));
}

/// A non-empty sequence is larger, for termination measures, than itself
/// without its last element.
pub proof fn lemma_drop_last_decreases<T>(s: Seq<T>)
    requires
        s.len() > 0,
    ensures
        decreases_to!(s => s.drop_last()),
{
    assert(decreases_to!(s => s.subrange(0, s.len() - 1)));
}

/// Storing under a key never makes a key occur twice.
pub proof fn law_insert_keeps_keys_distinct<V>(es: Seq<(String, V)>, key: String, value: V)
    requires
        keys_distinct(es),
    ensures
        keys_distinct(insert_entry(es, key, value)),
{
    let n = insert_entry(es, key, value);
    if has_key(es, key@) {
        let k = key_index(es, key@);
        assert(is_first_key(es, key@, k));
        assert forall|i: int, j: int| 0 <= i < j < n.len() implies n[i].0@ != n[j].0@ by {
            if i == k {
                assert(es[j].0@ != es[k].0@);
            } else if j == k {
                assert(es[i].0@ != es[k].0@);
            }
        }
    } else {
        assert forall|i: int, j: int| 0 <= i < j < n.len() implies n[i].0@ != n[j].0@ by {
            if j == es.len() {
                if n[i].0@ == key@ {
                    let w = choose_first(es, key@, i);
                    assert(is_first_key(es, key@, w));
                }
            }
        }
    }
}

/// Looking up the key just stored gives the stored value; other keys keep theirs.
pub proof fn law_lookup_after_insert<V>(es: Seq<(String, V)>, key: String, value: V, other: Seq<char>)
    ensures
        lookup(insert_entry(es, key, value), key@) == Some(value),
        other != key@ ==> lookup(insert_entry(es, key, value), other) == lookup(es, other),
{
    let n = insert_entry(es, key, value);
    if has_key(es, key@) {
        let k = key_index(es, key@);
        assert(is_first_key(es, key@, k));
        assert(is_first_key(n, key@, k));
        lemma_key_index(n, key@, k);
    } else {
        assert forall|j: int| 0 <= j < es.len() implies es[j].0@ != key@ by {
            if es[j].0@ == key@ {
                let w = choose_first(es, key@, j);
                assert(is_first_key(es, key@, w));
            }
        }
        assert(is_first_key(n, key@, es.len() as int));
        lemma_key_index(n, key@, es.len() as int);
    }
    if other != key@ {
        if has_key(es, other) {
            let k = key_index(es, other);
            assert(is_first_key(es, other, k));
            assert(is_first_key(n, other, k));
            lemma_key_index(n, other, k);
        } else {
            assert forall|j: int| 0 <= j < n.len() implies n[j].0@ != other by {
                if j < es.len() && es[j].0@ == other {
                    let w = choose_first(es, other, j);
                    assert(is_first_key(es, other, w));
                }
            }
            lemma_no_key(n, other);
        }
    }
}

/// From any entry with the key, the first such entry exists.
pub proof fn choose_first<V>(es: Seq<(String, V)>, key: Seq<char>, j: int) -> (w: int)
    requires
        0 <= j < es.len(),
        es[j].0@ == key,
    ensures
        is_first_key(es, key, w),
    decreases j,
{
    if exists|i: int| 0 <= i < j && es[i].0@ == key {
        let i = choose|i: int| 0 <= i < j && es[i].0@ == key;
        choose_first(es, key, i)
    } else {
        j
    }
}

} // verus!
