//! A map from strings to values that keeps its keys in the order in which
//! they were first inserted.

use crate::text::{equal, views};
use vstd::prelude::*;

verus! {

/// The map that keys and their values, in the same order, stand for. Where
/// a key occurs more than once its last value counts.
spec fn assoc<V>(keys: Seq<Seq<char>>, values: Seq<V>) -> Map<Seq<char>, V>
    decreases keys.len(),
{
    if keys.len() == 0 || values.len() != keys.len() {
        Map::empty()
    } else {
        assoc(keys.drop_last(), values.drop_last()).insert(keys.last(), values.last())
    }
}

/// No key occurs twice.
pub open spec fn distinct(keys: Seq<Seq<char>>) -> bool {
    forall|i: int, j: int| 0 <= i < j < keys.len() ==> keys[i] != keys[j]
}

/// A key is in the map exactly if it is among the keys.
proof fn lemma_assoc_dom<V>(keys: Seq<Seq<char>>, values: Seq<V>, key: Seq<char>)
    requires
        keys.len() == values.len(),
    ensures
        assoc(keys, values).dom().contains(key) <==> keys.contains(key),
    decreases keys.len(),
{
    if keys.len() > 0 {
        let front = keys.drop_last();
        lemma_assoc_dom(front, values.drop_last(), key);
        if keys.contains(key) {
            let i = choose|i: int| 0 <= i < keys.len() && keys[i] == key;
            if i < keys.len() - 1 {
                assert(front[i] == key);
            }
        }
    }
}

/// With distinct keys, each key maps to the value at its place.
proof fn lemma_assoc_entry<V>(keys: Seq<Seq<char>>, values: Seq<V>, i: int)
    requires
        keys.len() == values.len(),
        distinct(keys),
        0 <= i < keys.len(),
    ensures
        assoc(keys, values).dom().contains(keys[i]),
        assoc(keys, values)[keys[i]] == values[i],
    decreases keys.len(),
{
    if i < keys.len() - 1 {
        lemma_assoc_entry(keys.drop_last(), values.drop_last(), i);
    }
}

/// With distinct keys, the map has as many keys as there are.
proof fn lemma_assoc_len<V>(keys: Seq<Seq<char>>, values: Seq<V>)
    requires
        keys.len() == values.len(),
        distinct(keys),
    ensures
        assoc(keys, values).dom().finite(),
        assoc(keys, values).dom().len() == keys.len(),
    decreases keys.len(),
{
    if keys.len() > 0 {
        let front = keys.drop_last();
        lemma_assoc_len(front, values.drop_last());
        lemma_assoc_dom(front, values.drop_last(), keys.last());
        if front.contains(keys.last()) {
            let i = choose|i: int| 0 <= i < front.len() && front[i] == keys.last();
        }
    }
}

/// Replacing the value at a place inserts at the key of that place.
proof fn lemma_assoc_update<V>(keys: Seq<Seq<char>>, values: Seq<V>, i: int, value: V)
    requires
        keys.len() == values.len(),
        distinct(keys),
        0 <= i < keys.len(),
    ensures
        assoc(keys, values.update(i, value)) == assoc(keys, values).insert(keys[i], value),
    decreases keys.len(),
{
    let after = values.update(i, value);
    if i == keys.len() - 1 {
        assert(after.drop_last() == values.drop_last());
    } else {
        lemma_assoc_update(keys.drop_last(), values.drop_last(), i, value);
        assert(after.drop_last() == values.drop_last().update(i, value));
    }
}

/// Taking a place out removes its key.
proof fn lemma_assoc_remove<V>(keys: Seq<Seq<char>>, values: Seq<V>, i: int)
    requires
        keys.len() == values.len(),
        distinct(keys),
        0 <= i < keys.len(),
    ensures
        distinct(keys.remove(i)),
        assoc(keys.remove(i), values.remove(i)) == assoc(keys, values).remove(keys[i]),
    decreases keys.len(),
{
    let front = keys.drop_last();
    if i == keys.len() - 1 {
        lemma_assoc_dom(front, values.drop_last(), keys[i]);
        if front.contains(keys[i]) {
            let j = choose|j: int| 0 <= j < front.len() && front[j] == keys[i];
        }
    } else {
        lemma_assoc_remove(front, values.drop_last(), i);
        assert(keys.remove(i).drop_last() == front.remove(i));
        assert(values.remove(i).drop_last() == values.drop_last().remove(i));
    }
}

/// The place of `key` among `keys`.
fn position(keys: &Vec<String>, key: &str) -> (at: Option<usize>)
    ensures
        match at {
            Some(i) => i < keys@.len() && keys@[i as int]@ == key@ && views(keys@).contains(key@),
            None => !views(keys@).contains(key@),
        },
{
    let mut i: usize = 0;
    while i < keys.len()
        invariant
            i <= keys@.len(),
            forall|j: int| 0 <= j < i ==> views(keys@)[j] != key@,
        decreases keys@.len() - i,
    {
        if equal(keys[i].as_str(), key) {
            assert(views(keys@)[i as int] == key@);
            return Some(i);
        }
        i += 1;
    }
    None
}

/// A map keyed by strings. Its keys are distinct, and `keys` lists them in
/// the order of their first insertion.
#[derive(Debug)]
pub struct StringMap<V> {
    keys: Vec<String>,
    values: Vec<V>,
}

impl<V> View for StringMap<V> {
    type V = Map<Seq<char>, V>;

    closed spec fn view(&self) -> Map<Seq<char>, V> {
        assoc(views(self.keys@), self.values@)
    }
}

impl<V> StringMap<V> {
    /// What holds of every map: each key has one value, and no key occurs
    /// twice.
    #[verifier::type_invariant]
    pub closed spec fn wf(self) -> bool {
        self.keys@.len() == self.values@.len() && distinct(views(self.keys@))
    }

    /// The keys, in the order of their first insertion.
    pub closed spec fn keys(&self) -> Seq<Seq<char>> {
        views(self.keys@)
    }

    /// The keys listed by `keys` are those of the map, each once.
    pub proof fn lemma_keys(self)
        requires
            self.wf(),
        ensures
            self@.dom().finite(),
            self@.dom().len() == self.keys().len(),
            forall|key: Seq<char>| self@.dom().contains(key) <==> self.keys().contains(key),
            distinct(self.keys()),
    {
        lemma_assoc_len(self.keys(), self.values@);
        assert forall|key: Seq<char>| self@.dom().contains(key) <==> self.keys().contains(
            key,
        ) by {
            lemma_assoc_dom(self.keys(), self.values@, key);
        }
    }

    /// The empty map.
    pub fn new() -> (out: Self)
        ensures
            out@ == Map::<Seq<char>, V>::empty(),
            out.keys() == Seq::<Seq<char>>::empty(),
    {
        let out = StringMap { keys: Vec::new(), values: Vec::new() };
        out
    }

    /// The number of keys.
    pub fn len(&self) -> (n: usize)
        ensures
            self.wf(),
            n == self.keys().len(),
            self@.dom().finite(),
            n == self@.dom().len(),
    {
        proof {
            use_type_invariant(self);
            self.lemma_keys();
        }
        self.keys.len()
    }

    /// Whether `key` is in the map.
    pub fn contains_key(&self, key: &str) -> (found: bool)
        ensures
            found == self@.dom().contains(key@),
    {
        proof {
            use_type_invariant(self);
            lemma_assoc_dom(self.keys(), self.values@, key@);
        }
        position(&self.keys, key).is_some()
    }

    /// The value at `key`.
    pub fn get(&self, key: &str) -> (value: Option<&V>)
        ensures
            value is Some == self@.dom().contains(key@),
            value matches Some(v) ==> *v == self@[key@],
    {
        proof {
            use_type_invariant(self);
            lemma_assoc_dom(self.keys(), self.values@, key@);
        }
        match position(&self.keys, key) {
            Some(i) => {
                proof {
                    lemma_assoc_entry(self.keys(), self.values@, i as int);
                }
                Some(&self.values[i])
            },
            None => None,
        }
    }

    /// The value at `key`, to be changed in place.
    pub fn get_mut(&mut self, key: &str) -> (value: Option<&mut V>)
        ensures
            value is Some == old(self)@.dom().contains(key@),
            match value {
                Some(v) => *v == old(self)@[key@] && final(self)@ == old(self)@.insert(
                    key@,
                    *final(v),
                ),
                None => final(self)@ == old(self)@,
            },
            final(self).keys() == old(self).keys(),
    {
        proof {
            use_type_invariant(&*self);
            lemma_assoc_dom(self.keys(), self.values@, key@);
        }
        match position(&self.keys, key) {
            Some(i) => {
                proof {
                    lemma_assoc_entry(self.keys(), self.values@, i as int);
                    assert forall|v: V| #[trigger]
                        assoc(self.keys(), self.values@.update(i as int, v)) == assoc(
                            self.keys(),
                            self.values@,
                        ).insert(key@, v) by {
                        lemma_assoc_update(self.keys(), self.values@, i as int, v);
                    }
                }
                Some(&mut self.values[i])
            },
            None => None,
        }
    }

    /// The `i`-th key in the order of first insertion.
    pub fn key_at(&self, i: usize) -> (key: &String)
        requires
            i < self.keys().len(),
        ensures
            key@ == self.keys()[i as int],
    {
        &self.keys[i]
    }

    /// The value of the `i`-th key.
    pub fn value_at(&self, i: usize) -> (value: &V)
        requires
            i < self.keys().len(),
        ensures
            self@.dom().contains(self.keys()[i as int]),
            *value == self@[self.keys()[i as int]],
    {
        proof {
            use_type_invariant(self);
            lemma_assoc_entry(self.keys(), self.values@, i as int);
        }
        &self.values[i]
    }

    /// Puts `value` at `key` and returns what was there before.
    pub fn insert(&mut self, key: String, value: V) -> (before: Option<V>)
        ensures
            final(self)@ == old(self)@.insert(key@, value),
            before == if old(self)@.dom().contains(key@) {
                Some(old(self)@[key@])
            } else {
                None::<V>
            },
            final(self).keys() == if old(self)@.dom().contains(key@) {
                old(self).keys()
            } else {
                old(self).keys().push(key@)
            },
    {
        proof {
            use_type_invariant(&*self);
            lemma_assoc_dom(self.keys(), self.values@, key@);
        }
        match position(&self.keys, key.as_str()) {
            Some(i) => {
                proof {
                    lemma_assoc_entry(self.keys(), self.values@, i as int);
                    lemma_assoc_update(self.keys(), self.values@, i as int, value);
                }
                let mut value = value;
                std::mem::swap(&mut self.values[i], &mut value);
                Some(value)
            },
            None => {
                let mut taken = StringMap { keys: Vec::new(), values: Vec::new() };
                std::mem::swap(self, &mut taken);
                let StringMap { mut keys, mut values } = taken;
                let ghost before = views(keys@);
                keys.push(key);
                values.push(value);
                proof {
                    assert(views(keys@) =~= before.push(key@));
                    assert(views(keys@).drop_last() == before);
                    assert(values@.drop_last() == old(self).values@);
                }
                *self = StringMap { keys, values };
                None
            },
        }
    }

    /// Puts `value` at `key` unless the map has the key already, and
    /// returns the place of `key` among the keys.
    pub fn find_or_insert(&mut self, key: String, value: V) -> (at: usize)
        ensures
            final(self)@ == if old(self)@.dom().contains(key@) {
                old(self)@
            } else {
                old(self)@.insert(key@, value)
            },
            final(self).keys() == if old(self)@.dom().contains(key@) {
                old(self).keys()
            } else {
                old(self).keys().push(key@)
            },
            at < final(self).keys().len(),
            final(self).keys()[at as int] == key@,
    {
        proof {
            use_type_invariant(&*self);
            lemma_assoc_dom(self.keys(), self.values@, key@);
        }
        match position(&self.keys, key.as_str()) {
            Some(i) => i,
            None => {
                let at = self.keys.len();
                self.insert(key, value);
                at
            },
        }
    }

    /// Takes `key` out of the map and returns its value.
    pub fn remove(&mut self, key: &str) -> (value: Option<V>)
        ensures
            final(self)@ == old(self)@.remove(key@),
            value == if old(self)@.dom().contains(key@) {
                Some(old(self)@[key@])
            } else {
                None::<V>
            },
    {
        proof {
            use_type_invariant(&*self);
            lemma_assoc_dom(self.keys(), self.values@, key@);
        }
        match position(&self.keys, key) {
            Some(i) => {
                let mut taken = StringMap { keys: Vec::new(), values: Vec::new() };
                std::mem::swap(self, &mut taken);
                let StringMap { mut keys, mut values } = taken;
                proof {
                    lemma_assoc_entry(views(keys@), values@, i as int);
                    lemma_assoc_remove(views(keys@), values@, i as int);
                    assert(views(keys@.remove(i as int)) =~= views(keys@).remove(i as int));
                }
                keys.remove(i);
                let value = values.remove(i);
                *self = StringMap { keys, values };
                Some(value)
            },
            None => {
                None
            },
        }
    }
}

} // verus!
