//! A finite map from strings to values, kept as a vector of entries sorted
//! strictly by key. It stands where the program keeps string-keyed hash and
//! B-tree maps: iteration visits keys in ascending order, so every walk over
//! it is deterministic.

use crate::text::{
    chars_equal, chars_of, lemma_lex_lt_asymmetric, lemma_lex_lt_irreflexive, lemma_lex_lt_total,
    lemma_lex_lt_transitive, lex_less, lex_lt, string_of,
};
use vstd::prelude::*;

verus! {

/// Keys in strictly ascending lexicographic order (hence pairwise distinct).
pub open spec fn strictly_sorted(ks: Seq<Seq<char>>) -> bool {
    forall|i: int, j: int| 0 <= i < j < ks.len() ==> lex_lt(#[trigger] ks[i], #[trigger] ks[j])
}

/// The map that an association list denotes (later entries win, which only
/// matters when keys repeat).
pub open spec fn map_of<V>(ks: Seq<Seq<char>>, vs: Seq<V>) -> Map<Seq<char>, V>
    decreases ks.len(),
{
    if ks.len() == 0 || vs.len() == 0 {
        Map::empty()
    } else {
        map_of(ks.drop_last(), vs.drop_last()).insert(ks.last(), vs.last())
    }
}

pub proof fn lemma_sorted_distinct(ks: Seq<Seq<char>>, i: int, j: int)
    requires
        strictly_sorted(ks),
        0 <= i < ks.len(),
        0 <= j < ks.len(),
        i != j,
    ensures
        ks[i] != ks[j],
{
    if i < j {
        assert(lex_lt(ks[i], ks[j]));
        lemma_lex_lt_irreflexive(ks[i]);
    } else {
        assert(lex_lt(ks[j], ks[i]));
        lemma_lex_lt_irreflexive(ks[j]);
    }
}

pub proof fn lemma_map_of_dom<V>(ks: Seq<Seq<char>>, vs: Seq<V>, k: Seq<char>)
    requires
        ks.len() == vs.len(),
    ensures
        map_of(ks, vs).contains_key(k) <==> ks.contains(k),
    decreases ks.len(),
{
    if ks.len() > 0 {
        lemma_map_of_dom(ks.drop_last(), vs.drop_last(), k);
        if ks.drop_last().contains(k) {
            let i = choose|i: int| 0 <= i < ks.drop_last().len() && ks.drop_last()[i] == k;
            assert(ks[i] == k);
        }
        if ks.contains(k) && k != ks.last() {
            let i = choose|i: int| 0 <= i < ks.len() && ks[i] == k;
            assert(ks.drop_last()[i] == k);
        }
        if k == ks.last() {
            assert(ks[ks.len() - 1] == k);
        }
    }
}

pub proof fn lemma_map_of_value<V>(ks: Seq<Seq<char>>, vs: Seq<V>, i: int)
    requires
        ks.len() == vs.len(),
        strictly_sorted(ks),
        0 <= i < ks.len(),
    ensures
        map_of(ks, vs).contains_key(ks[i]),
        map_of(ks, vs)[ks[i]] == vs[i],
    decreases ks.len(),
{
    let n = ks.len();
    if i < n - 1 {
        assert(strictly_sorted(ks.drop_last()));
        lemma_map_of_value(ks.drop_last(), vs.drop_last(), i);
        lemma_sorted_distinct(ks, i, n - 1);
    }
}

/// Two maps denoted by sorted association lists agree when the lists agree
/// up to the stated relation; used to derive insert/remove facts.
proof fn lemma_map_of_ext<V>(
    ks: Seq<Seq<char>>,
    vs: Seq<V>,
    m: Map<Seq<char>, V>,
)
    requires
        ks.len() == vs.len(),
        strictly_sorted(ks),
        forall|k: Seq<char>| m.contains_key(k) <==> ks.contains(k),
        forall|i: int| 0 <= i < ks.len() ==> m[#[trigger] ks[i]] == vs[i],
    ensures
        map_of(ks, vs) == m,
{
    assert forall|k: Seq<char>| #[trigger] map_of(ks, vs).contains_key(k) <==> m.contains_key(
        k,
    ) by {
        lemma_map_of_dom(ks, vs, k);
    }
    assert forall|k: Seq<char>| #[trigger] map_of(ks, vs).contains_key(k) implies map_of(
        ks,
        vs,
    )[k] == m[k] by {
        lemma_map_of_dom(ks, vs, k);
        let i = choose|i: int| 0 <= i < ks.len() && ks[i] == k;
        lemma_map_of_value(ks, vs, i);
    }
    assert(map_of(ks, vs) =~= m);
}

pub proof fn lemma_insert_at<V>(ks: Seq<Seq<char>>, vs: Seq<V>, j: int, k: Seq<char>, v: V)
    requires
        ks.len() == vs.len(),
        strictly_sorted(ks),
        0 <= j <= ks.len(),
        forall|i: int| 0 <= i < j ==> lex_lt(#[trigger] ks[i], k),
        forall|i: int| j <= i < ks.len() ==> lex_lt(k, #[trigger] ks[i]),
    ensures
        strictly_sorted(ks.insert(j, k)),
        map_of(ks.insert(j, k), vs.insert(j, v)) == map_of(ks, vs).insert(k, v),
{
    let nks = ks.insert(j, k);
    let nvs = vs.insert(j, v);
    let m = map_of(ks, vs);
    assert forall|a: int, b: int| 0 <= a < b < nks.len() implies lex_lt(
        #[trigger] nks[a],
        #[trigger] nks[b],
    ) by {
        if a < j && b > j {
            lemma_lex_lt_transitive(ks[a], k, ks[b - 1]);
        } else if a < j && b == j {
        } else if a == j {
        } else if a > j {
            assert(lex_lt(ks[a - 1], ks[b - 1]));
        } else {
            assert(lex_lt(ks[a], ks[b]));
        }
    }
    assert forall|i: int| 0 <= i < nks.len() implies m.insert(k, v)[#[trigger] nks[i]]
        == nvs[i] by {
        if i < j {
            lemma_map_of_value(ks, vs, i);
            lemma_lex_lt_irreflexive(k);
        } else if i > j {
            lemma_map_of_value(ks, vs, i - 1);
            lemma_lex_lt_irreflexive(k);
        }
    }
    assert forall|x: Seq<char>| m.insert(k, v).contains_key(x) <==> nks.contains(x) by {
        lemma_map_of_dom(ks, vs, x);
        if x == k {
            assert(nks[j] == k);
        }
        if ks.contains(x) {
            let i = choose|i: int| 0 <= i < ks.len() && ks[i] == x;
            if i < j {
                assert(nks[i] == x);
            } else {
                assert(nks[i + 1] == x);
            }
        }
        if nks.contains(x) {
            let i = choose|i: int| 0 <= i < nks.len() && nks[i] == x;
            if i < j {
                assert(ks[i] == x);
            } else if i > j {
                assert(ks[i - 1] == x);
            }
        }
    }
    lemma_map_of_ext(nks, nvs, m.insert(k, v));
}

pub proof fn lemma_update_at<V>(ks: Seq<Seq<char>>, vs: Seq<V>, j: int, v: V)
    requires
        ks.len() == vs.len(),
        strictly_sorted(ks),
        0 <= j < ks.len(),
    ensures
        map_of(ks, vs.update(j, v)) == map_of(ks, vs).insert(ks[j], v),
{
    let nvs = vs.update(j, v);
    let m = map_of(ks, vs);
    assert forall|a: int| 0 <= a < ks.len() implies m.insert(ks[j], v)[#[trigger] ks[a]]
        == nvs[a] by {
        lemma_map_of_value(ks, vs, a);
        if a != j {
            lemma_sorted_distinct(ks, a, j);
        }
    }
    assert forall|x: Seq<char>| m.insert(ks[j], v).contains_key(x) <==> ks.contains(x) by {
        lemma_map_of_dom(ks, vs, x);
    }
    lemma_map_of_ext(ks, nvs, m.insert(ks[j], v));
}

pub proof fn lemma_remove_at<V>(ks: Seq<Seq<char>>, vs: Seq<V>, j: int)
    requires
        ks.len() == vs.len(),
        strictly_sorted(ks),
        0 <= j < ks.len(),
    ensures
        strictly_sorted(ks.remove(j)),
        map_of(ks.remove(j), vs.remove(j)) == map_of(ks, vs).remove(ks[j]),
        map_of(ks, vs).contains_key(ks[j]),
        map_of(ks, vs)[ks[j]] == vs[j],
{
    let nks = ks.remove(j);
    let nvs = vs.remove(j);
    let m = map_of(ks, vs);
    let key = ks[j];
    lemma_map_of_value(ks, vs, j);
    assert forall|a: int, b: int| 0 <= a < b < nks.len() implies lex_lt(
        #[trigger] nks[a],
        #[trigger] nks[b],
    ) by {
        if a < j && b >= j {
            assert(lex_lt(ks[a], ks[b + 1]));
        } else if a >= j {
            assert(lex_lt(ks[a + 1], ks[b + 1]));
        } else {
            assert(lex_lt(ks[a], ks[b]));
        }
    }
    assert forall|i: int| 0 <= i < nks.len() implies m.remove(key)[#[trigger] nks[i]]
        == nvs[i] by {
        if i < j {
            lemma_map_of_value(ks, vs, i);
            lemma_sorted_distinct(ks, i, j);
        } else {
            lemma_map_of_value(ks, vs, i + 1);
            lemma_sorted_distinct(ks, i + 1, j);
        }
    }
    assert forall|x: Seq<char>| m.remove(key).contains_key(x) <==> nks.contains(x) by {
        lemma_map_of_dom(ks, vs, x);
        if ks.contains(x) && x != key {
            let i = choose|i: int| 0 <= i < ks.len() && ks[i] == x;
            if i < j {
                assert(nks[i] == x);
            } else {
                assert(nks[i - 1] == x);
            }
        }
        if nks.contains(x) {
            let i = choose|i: int| 0 <= i < nks.len() && nks[i] == x;
            if i < j {
                assert(ks[i] == x);
                lemma_sorted_distinct(ks, i, j);
            } else {
                assert(ks[i + 1] == x);
                lemma_sorted_distinct(ks, i + 1, j);
            }
        }
    }
    lemma_map_of_ext(nks, nvs, m.remove(key));
}

/// The keys of a vector of entries.
pub open spec fn keys_of<V>(es: Seq<(String, V)>) -> Seq<Seq<char>> {
    es.map_values(|e: (String, V)| e.0@)
}

/// The values of a vector of entries.
pub open spec fn values_of<V>(es: Seq<(String, V)>) -> Seq<V> {
    es.map_values(|e: (String, V)| e.1)
}

/// A string-keyed map whose entries are held in ascending key order.
pub struct OrderedMap<V> {
    entries: Vec<(String, V)>,
}

impl<V> View for OrderedMap<V> {
    type V = Map<Seq<char>, V>;

    open spec fn view(&self) -> Map<Seq<char>, V> {
        map_of(self.keys(), self.values())
    }
}

impl<V> OrderedMap<V> {
    /// The keys, in ascending order.
    pub closed spec fn keys(&self) -> Seq<Seq<char>> {
        keys_of(self.entries@)
    }

    /// The values, in the order of their keys.
    pub closed spec fn values(&self) -> Seq<V> {
        values_of(self.entries@)
    }

    #[verifier::type_invariant]
    closed spec fn inv(&self) -> bool {
        strictly_sorted(self.keys())
    }

    /// An empty map.
    pub fn new() -> (r: Self)
        ensures
            r.keys() == Seq::<Seq<char>>::empty(),
            r.values() == Seq::<V>::empty(),
            r@ == Map::<Seq<char>, V>::empty(),
    {
        let r = OrderedMap { entries: Vec::new() };
        assert(r.keys() =~= Seq::<Seq<char>>::empty());
        assert(r.values() =~= Seq::<V>::empty());
        r
    }

    /// The number of entries; also exposes that the keys are strictly
    /// ascending and correspond one to one with the values.
    pub fn len(&self) -> (r: usize)
        ensures
            r == self.keys().len(),
            self.keys().len() == self.values().len(),
            strictly_sorted(self.keys()),
            self@.dom() == self.keys().to_set(),
            self@.len() == r,
            forall|i: int|
                0 <= i < self.keys().len() ==> #[trigger] self@[self.keys()[i]]
                    == self.values()[i],
    {
        proof {
            use_type_invariant(self);
            self.lemma_view_facts();
        }
        self.entries.len()
    }

    proof fn lemma_view_facts(&self)
        requires
            strictly_sorted(self.keys()),
        ensures
            self.keys().len() == self.values().len(),
            self@.dom() == self.keys().to_set(),
            self@.len() == self.keys().len(),
            forall|i: int|
                0 <= i < self.keys().len() ==> #[trigger] self@[self.keys()[i]]
                    == self.values()[i],
    {
        let ks = self.keys();
        let vs = self.values();
        assert forall|k: Seq<char>| #[trigger] self@.dom().contains(k) <==> ks.to_set().contains(
            k,
        ) by {
            lemma_map_of_dom(ks, vs, k);
        }
        assert(self@.dom() =~= ks.to_set());
        assert forall|i: int| 0 <= i < ks.len() implies #[trigger] self@[ks[i]] == vs[i] by {
            lemma_map_of_value(ks, vs, i);
        }
        assert forall|i: int, j: int| 0 <= i < ks.len() && 0 <= j < ks.len() && i != j implies ks[i]
            != ks[j] by {
            lemma_sorted_distinct(ks, i, j);
        }
        ks.unique_seq_to_set();
    }

    /// Whether the map is empty.
    pub fn is_empty(&self) -> (r: bool)
        ensures
            r == (self@.len() == 0),
            r == (self.keys().len() == 0),
    {
        self.len() == 0
    }

    /// The key at position `i` in ascending order.
    pub fn key_at(&self, i: usize) -> (r: &String)
        requires
            i < self.keys().len(),
        ensures
            r@ == self.keys()[i as int],
    {
        &self.entries[i].0
    }

    /// The value at position `i` in key order.
    pub fn value_at(&self, i: usize) -> (r: &V)
        requires
            i < self.keys().len(),
        ensures
            *r == self.values()[i as int],
            self@.contains_key(self.keys()[i as int]),
            self@[self.keys()[i as int]] == *r,
    {
        proof {
            use_type_invariant(self);
            self.lemma_view_facts();
        }
        &self.entries[i].1
    }

    /// Position at which `key` is or would be: every earlier key orders
    /// before it, and `found` tells whether the key there equals it.
    fn locate(&self, key: &[char]) -> (r: (usize, bool))
        ensures
            r.0 <= self.keys().len(),
            forall|i: int| 0 <= i < r.0 ==> lex_lt(#[trigger] self.keys()[i], key@),
            r.1 == (r.0 < self.keys().len() && self.keys()[r.0 as int] == key@),
            r.1 == self.keys().contains(key@),
            !r.1 ==> (forall|i: int|
                r.0 <= i < self.keys().len() ==> lex_lt(key@, #[trigger] self.keys()[i])),
    {
        proof {
            use_type_invariant(self);
        }
        let ghost ks = self.keys();
        let n = self.entries.len();
        let mut j: usize = 0;
        while j < n
            invariant
                n == ks.len(),
                ks == self.keys(),
                strictly_sorted(ks),
                j <= n,
                forall|i: int| 0 <= i < j ==> lex_lt(#[trigger] ks[i], key@),
            ensures
                j <= n,
                forall|i: int| 0 <= i < j ==> lex_lt(#[trigger] ks[i], key@),
                j < n ==> !lex_lt(ks[j as int], key@),
            decreases n - j,
        {
            let kc = chars_of(self.entries[j].0.as_str());
            assert(kc@ == ks[j as int]);
            if !lex_less(kc.as_slice(), key) {
                break;
            }
            j = j + 1;
        }
        let found = if j < n {
            let kc = chars_of(self.entries[j].0.as_str());
            chars_equal(kc.as_slice(), key)
        } else {
            false
        };
        proof {
            if ks.contains(key@) {
                let i = choose|i: int| 0 <= i < ks.len() && ks[i] == key@;
                if i < j {
                    lemma_lex_lt_irreflexive(key@);
                }
                if i > j {
                    lemma_lex_lt_total(ks[j as int], key@);
                    lemma_lex_lt_asymmetric(ks[j as int], ks[i]);
                }
            }
            if found {
                assert(ks[j as int] == key@);
            }
            if !found {
                assert forall|i: int| j <= i < ks.len() implies lex_lt(key@, #[trigger] ks[i]) by {
                    lemma_lex_lt_total(ks[j as int], key@);
                    if i > j {
                        assert(lex_lt(ks[j as int], ks[i]));
                        lemma_lex_lt_transitive(key@, ks[j as int], ks[i]);
                    }
                }
            }
        }
        (j, found)
    }

    /// The value stored under `key`, if any.
    pub fn get(&self, key: &str) -> (r: Option<&V>)
        ensures
            r is Some == self@.contains_key(key@),
            r matches Some(v) ==> *v == self@[key@],
    {
        proof {
            use_type_invariant(self);
            self.lemma_view_facts();
        }
        let kc = chars_of(key);
        let (j, found) = self.locate(kc.as_slice());
        proof {
            lemma_map_of_dom(self.keys(), self.values(), key@);
        }
        if found {
            Some(&self.entries[j].1)
        } else {
            None
        }
    }

    /// Whether `key` is present.
    pub fn contains_key(&self, key: &str) -> (r: bool)
        ensures
            r == self@.contains_key(key@),
    {
        self.get(key).is_some()
    }

    /// Stores `value` under `key`, replacing any earlier value.
    pub fn insert(&mut self, key: &str, value: V)
        ensures
            final(self)@ == old(self)@.insert(key@, value),
    {
        proof {
            use_type_invariant(&*self);
            self.lemma_view_facts();
        }
        let kc = chars_of(key);
        let (j, found) = self.locate(kc.as_slice());
        let ghost ks = self.keys();
        let ghost vs = self.values();
        let owned = string_of(kc.as_slice());
        let mut es: Vec<(String, V)> = Vec::new();
        std::mem::swap(&mut es, &mut self.entries);
        assert(keys_of(es@) == ks && values_of(es@) == vs);
        if found {
            es.set(j, (owned, value));
            proof {
                assert(keys_of(es@) =~= ks);
                assert(values_of(es@) =~= vs.update(j as int, value));
                lemma_update_at(ks, vs, j as int, value);
            }
            self.entries = es;
        } else {
            es.insert(j, (owned, value));
            proof {
                assert(keys_of(es@) =~= ks.insert(j as int, key@));
                assert(values_of(es@) =~= vs.insert(j as int, value));
                lemma_insert_at(ks, vs, j as int, key@, value);
            }
            self.entries = es;
        }
    }

    /// Removes `key`, handing back the value it held.
    pub fn remove(&mut self, key: &str) -> (r: Option<V>)
        ensures
            final(self)@ == old(self)@.remove(key@),
            r is Some == old(self)@.contains_key(key@),
            r matches Some(v) ==> v == old(self)@[key@],
    {
        proof {
            use_type_invariant(&*self);
            self.lemma_view_facts();
        }
        let kc = chars_of(key);
        let (j, found) = self.locate(kc.as_slice());
        let ghost ks = self.keys();
        let ghost vs = self.values();
        let ghost m = self@;
        proof {
            lemma_map_of_dom(ks, vs, key@);
        }
        if !found {
            assert(m.remove(key@) =~= m);
            return None;
        }
        let mut es: Vec<(String, V)> = Vec::new();
        std::mem::swap(&mut es, &mut self.entries);
        assert(keys_of(es@) == ks && values_of(es@) == vs);
        let (_k, v) = es.remove(j);
        proof {
            assert(keys_of(es@) =~= ks.remove(j as int));
            assert(values_of(es@) =~= vs.remove(j as int));
            lemma_remove_at(ks, vs, j as int);
        }
        self.entries = es;
        Some(v)
    }

    /// Replaces the value at position `i`, keeping its key.
    pub fn set_value_at(&mut self, i: usize, value: V)
        requires
            i < old(self).keys().len(),
        ensures
            final(self).keys() == old(self).keys(),
            final(self).values() == old(self).values().update(i as int, value),
            final(self)@ == old(self)@.insert(old(self).keys()[i as int], value),
    {
        proof {
            use_type_invariant(&*self);
            self.lemma_view_facts();
        }
        let ghost ks = self.keys();
        let ghost vs = self.values();
        let k = self.entries[i].0.clone();
        let mut es: Vec<(String, V)> = Vec::new();
        std::mem::swap(&mut es, &mut self.entries);
        assert(keys_of(es@) == ks && values_of(es@) == vs);
        es.set(i, (k, value));
        proof {
            assert(keys_of(es@) =~= ks);
            assert(values_of(es@) =~= vs.update(i as int, value));
            lemma_update_at(ks, vs, i as int, value);
        }
        self.entries = es;
    }

    /// Removes every entry.
    pub fn clear(&mut self)
        ensures
            final(self)@ == Map::<Seq<char>, V>::empty(),
            final(self).keys().len() == 0,
    {
        let es: Vec<(String, V)> = Vec::new();
        assert(keys_of(es@) =~= Seq::<Seq<char>>::empty());
        assert(values_of(es@) =~= Seq::<V>::empty());
        self.entries = es;
    }
}

} // verus!
