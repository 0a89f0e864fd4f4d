//! A small map from text keys to values, kept in the order of insertion.

use vstd::prelude::*;

verus! {

/// The index of the first of `keys` that reads `key`, if there is one.
pub open spec fn key_place(keys: Seq<String>, key: Seq<char>) -> Option<int>
    decreases keys.len(),
{
    if keys.len() == 0 {
        None
    } else {
        match key_place(keys.drop_last(), key) {
            Some(k) => Some(k),
            None => if keys.last()@ == key {
                Some(keys.len() - 1)
            } else {
                None
            },
        }
    }
}

/// What `key_place` finds is the first key that reads `key`.
pub proof fn lemma_key_place(keys: Seq<String>, key: Seq<char>)
    ensures
        match key_place(keys, key) {
            Some(k) => 0 <= k < keys.len() && keys[k]@ == key && forall|j: int|
                0 <= j < k ==> (#[trigger] keys[j])@ != key,
            None => forall|j: int| 0 <= j < keys.len() ==> (#[trigger] keys[j])@ != key,
        },
    decreases keys.len(),
{
    if keys.len() > 0 {
        let head = keys.drop_last();
        lemma_key_place(head, key);
        assert(forall|j: int| 0 <= j < head.len() ==> head[j] == keys[j]);
    }
}

/// Whether no two of `keys` read the same.
pub open spec fn keys_distinct(keys: Seq<String>) -> bool {
    forall|j: int, k: int|
        0 <= j < k < keys.len() ==> (#[trigger] keys[j])@ != (#[trigger] keys[k])@
}

/// A map from text keys to values of the type `V`.
#[derive(Debug, Clone, PartialEq, Eq)]
pub struct TextMap<V> {
    keys: Vec<String>,
    values: Vec<V>,
}

impl<V> View for TextMap<V> {
    type V = Map<Seq<char>, V>;

    closed spec fn view(&self) -> Map<Seq<char>, V> {
        Map::new(
            |key: Seq<char>| key_place(self.keys@, key) is Some,
            |key: Seq<char>| self.values@[key_place(self.keys@, key)->0],
        )
    }
}

impl<V> TextMap<V> {
    /// Whether the map is in order: every key has its value, and no key
    /// occurs twice.
    pub closed spec fn wf(&self) -> bool {
        self.keys@.len() == self.values@.len() && keys_distinct(self.keys@)
    }

    /// The keys of the map, in the order in which they came in.
    pub closed spec fn key_order(&self) -> Seq<Seq<char>> {
        Seq::new(self.keys@.len(), |i: int| self.keys@[i]@)
    }

    /// The keys in `key_order` are the keys of the map, each once.
    pub proof fn lemma_key_order(&self)
        requires
            self.wf(),
        ensures
            self.key_order().len() == self.spec_len(),
            forall|k: int|
                0 <= k < self.key_order().len() ==> self@.contains_key(
                    #[trigger] self.key_order()[k],
                ),
            forall|key: Seq<char>|
                self@.contains_key(key) ==> exists|k: int|
                    0 <= k < self.key_order().len() && self.key_order()[k] == key,
            forall|j: int, k: int|
                0 <= j < k < self.key_order().len() ==> self.key_order()[j]
                    != self.key_order()[k],
    {
        assert forall|k: int| 0 <= k < self.key_order().len() implies self@.contains_key(
            #[trigger] self.key_order()[k],
        ) by {
            lemma_key_place(self.keys@, self.keys@[k]@);
        }
        assert forall|key: Seq<char>| self@.contains_key(key) implies exists|k: int|
            0 <= k < self.key_order().len() && self.key_order()[k] == key by {
            lemma_key_place(self.keys@, key);
            let k = key_place(self.keys@, key)->0;
            assert(self.key_order()[k] == key);
        }
    }

    /// The map without entries.
    pub fn new() -> (m: TextMap<V>)
        ensures
            m.wf(),
            m@ == Map::<Seq<char>, V>::empty(),
            m.key_order() == Seq::<Seq<char>>::empty(),
    {
        let m = TextMap { keys: Vec::new(), values: Vec::new() };
        assert(m@ =~= Map::<Seq<char>, V>::empty());
        assert(m.key_order() =~= Seq::<Seq<char>>::empty());
        m
    }

    /// The index of the key that reads `key`.
    fn find_key(&self, key: &str) -> (r: Option<usize>)
        requires
            self.wf(),
        ensures
            match r {
                Some(k) => key_place(self.keys@, key@) == Some(k as int) && k < self.keys@.len(),
                None => key_place(self.keys@, key@) == None::<int>,
            },
    {
        let wanted: String = key.to_owned();
        let mut i: usize = 0;
        while i < self.keys.len()
            invariant
                i <= self.keys.len(),
                wanted@ == key@,
                forall|j: int| 0 <= j < i ==> (#[trigger] self.keys@[j])@ != key@,
            decreases self.keys.len() - i,
        {
            proof {
                lemma_key_place(self.keys@, key@);
            }
            if self.keys[i] == wanted {
                return Some(i);
            }
            i += 1;
        }
        proof {
            lemma_key_place(self.keys@, key@);
        }
        None
    }

    /// Whether the map has an entry for `key`.
    pub fn contains_key(&self, key: &str) -> (r: bool)
        requires
            self.wf(),
        ensures
            r == self@.contains_key(key@),
    {
        self.find_key(key).is_some()
    }

    /// The value of `key`.
    pub fn get(&self, key: &str) -> (r: Option<&V>)
        requires
            self.wf(),
        ensures
            match r {
                Some(v) => self@.contains_key(key@) && self@[key@] == *v,
                None => !self@.contains_key(key@),
            },
    {
        match self.find_key(key) {
            Some(k) => Some(&self.values[k]),
            None => None,
        }
    }

    /// The number of entries.
    pub fn len(&self) -> (n: usize)
        requires
            self.wf(),
        ensures
            n == self.spec_len(),
    {
        self.keys.len()
    }

    /// The number of entries.
    pub closed spec fn spec_len(&self) -> nat {
        self.keys@.len()
    }

    /// The keys, in the order in which they came in.
    pub fn keys(&self) -> (r: Vec<String>)
        requires
            self.wf(),
        ensures
            r@.len() == self.key_order().len(),
            forall|k: int| 0 <= k < r@.len() ==> (#[trigger] r@[k])@ == self.key_order()[k],
    {
        let mut r: Vec<String> = Vec::new();
        let mut i: usize = 0;
        while i < self.keys.len()
            invariant
                i <= self.keys.len(),
                r@.len() == i,
                forall|k: int| 0 <= k < i ==> (#[trigger] r@[k])@ == self.keys@[k]@,
            decreases self.keys.len() - i,
        {
            r.push(self.keys[i].clone());
            i += 1;
        }
        r
    }

    /// A map with the same entries.
    pub fn duplicate(&self) -> (m: TextMap<V>) where V: Copy
        requires
            self.wf(),
        ensures
            m.wf(),
            m@ == self@,
            m.key_order() == self.key_order(),
    {
        let mut keys: Vec<String> = Vec::new();
        let mut values: Vec<V> = Vec::new();
        let mut i: usize = 0;
        while i < self.keys.len()
            invariant
                self.wf(),
                i <= self.keys.len(),
                keys@.len() == i,
                values@.len() == i,
                forall|k: int| 0 <= k < i ==> (#[trigger] keys@[k]) == self.keys@[k],
                forall|k: int| 0 <= k < i ==> (#[trigger] values@[k]) == self.values@[k],
            decreases self.keys.len() - i,
        {
            keys.push(self.keys[i].clone());
            values.push(self.values[i]);
            i += 1;
        }
        assert(keys@ == self.keys@);
        assert(values@ == self.values@);
        TextMap { keys, values }
    }

    /// Sets the value of `key` to `value`, whether or not the map had one.
    pub fn insert(&mut self, key: String, value: V)
        requires
            old(self).wf(),
        ensures
            final(self).wf(),
            final(self)@ == old(self)@.insert(key@, value),
            final(self).key_order() == if old(self)@.contains_key(key@) {
                old(self).key_order()
            } else {
                old(self).key_order().push(key@)
            },
    {
        let ghost keys_before = self.keys@;
        let ghost values_before = self.values@;
        let ghost before = self@;
        let ghost order_before = self.key_order();
        match self.find_key(key.as_str()) {
            Some(k) => {
                self.values.set(k, value);
                proof {
                    assert forall|other: Seq<char>| #[trigger]
                        self@.contains_key(other) == before.insert(key@, value).contains_key(
                            other,
                        ) by {}
                    assert forall|other: Seq<char>| self@.contains_key(other) implies #[trigger]
                        self@[other] == before.insert(key@, value)[other] by {
                        lemma_key_place(keys_before, other);
                        lemma_key_place(keys_before, key@);
                    }
                    assert(self@ =~= before.insert(key@, value));
                }
            },
            None => {
                proof {
                    lemma_key_place(keys_before, key@);
                }
                self.keys.push(key);
                self.values.push(value);
                proof {
                    assert(self.keys@.drop_last() == keys_before);
                    assert(self.key_order() =~= order_before.push(key@));
                    assert forall|other: Seq<char>| #[trigger]
                        self@.contains_key(other) == before.insert(key@, value).contains_key(
                            other,
                        ) by {}
                    assert forall|other: Seq<char>| self@.contains_key(other) implies #[trigger]
                        self@[other] == before.insert(key@, value)[other] by {
                        lemma_key_place(keys_before, other);
                    }
                    assert(self@ =~= before.insert(key@, value));
                }
            },
        }
    }
}

} // verus!
