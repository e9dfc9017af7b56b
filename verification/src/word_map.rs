//! A map keyed by words, in which a later insertion under a key replaces the earlier value.

use vstd::prelude::*;

use crate::word::{canonical_word, Word};

verus! {

/// The map that results from inserting `entries` into `m` one after the other, so that a later
/// entry under a key replaces an earlier one.
pub open spec fn insert_all<V>(m: Map<Word, V>, entries: Seq<(Word, V)>) -> Map<Word, V>
    decreases entries.len(),
{
    if entries.len() == 0 {
        m
    } else {
        insert_all(m, entries.drop_last()).insert(entries.last().0, entries.last().1)
    }
}

/// Inserting two runs of entries one after the other inserts their concatenation.
pub proof fn lemma_insert_all_concat<V>(m: Map<Word, V>, a: Seq<(Word, V)>, b: Seq<(Word, V)>)
    ensures
        insert_all(insert_all(m, a), b) == insert_all(m, a + b),
    decreases b.len(),
{
    if b.len() == 0 {
        assert(a + b =~= a);
    } else {
        lemma_insert_all_concat(m, a, b.drop_last());
        assert((a + b).drop_last() =~= a + b.drop_last());
        assert((a + b).last() == b.last());
    }
}

/// The position of `k` among `keys`, where the keys hold no duplicates.
pub open spec fn key_index(keys: Seq<Word>, k: Word) -> int {
    choose|i: int| 0 <= i < keys.len() && keys[i] == k
}

/// A finite map from words to values, held as two parallel vectors of keys and values in which
/// no key occurs twice. Keys are compared as the field compares words, by their canonical
/// elements: a key is kept, and looked up, in canonical form.
pub struct WordMap<V> {
    keys: Vec<Word>,
    vals: Vec<V>,
}

impl<V> WordMap<V> {
    /// The keys and values stand side by side and no key occurs twice.
    #[verifier::type_invariant]
    pub closed spec fn wf(&self) -> bool {
        &&& self.keys@.len() == self.vals@.len()
        &&& self.keys@.no_duplicates()
    }
}

impl<V: View> WordMap<V> {
    /// The keys, in the order in which they were first inserted.
    pub closed spec fn key_seq(&self) -> Seq<Word> {
        self.keys@
    }

    /// The mathematical map that this map stands for.
    pub closed spec fn as_map(&self) -> Map<Word, V::V> {
        Map::new(
            |k: Word| self.keys@.contains(k),
            |k: Word| self.vals@[key_index(self.keys@, k)]@,
        )
    }

    proof fn lemma_key_index(&self, i: int)
        requires
            self.wf(),
            0 <= i < self.keys@.len(),
        ensures
            key_index(self.keys@, self.keys@[i]) == i,
    {
        let k = self.keys@[i];
        assert(self.keys@.contains(k));
        let j = key_index(self.keys@, k);
        assert(0 <= j < self.keys@.len() && self.keys@[j] == k);
    }

    /// An empty map.
    pub fn new() -> (m: Self)
        ensures
            m.as_map() == Map::<Word, V::V>::empty(),
            m.key_seq() == Seq::<Word>::empty(),
    {
        let m = WordMap { keys: Vec::new(), vals: Vec::new() };
        assert(m.as_map() =~= Map::<Word, V::V>::empty());
        m
    }

    /// The number of keys.
    pub fn len(&self) -> (n: usize)
        ensures
            n == self.key_seq().len(),
    {
        proof { use_type_invariant(self); }
        self.keys.len()
    }

    /// The position of `key` among the keys, if it is there.
    fn find(&self, key: &Word) -> (r: Option<usize>)
        ensures
            match r {
                Some(i) => i < self.keys@.len() && self.keys@[i as int] == *key,
                None => !self.keys@.contains(*key),
            },
    {
        let n = self.keys.len();
        let mut i: usize = 0;
        while i < n
            invariant
                n == self.keys@.len(),
                i <= n,
                forall|j: int| 0 <= j < i ==> self.keys@[j] != *key,
            decreases n - i,
        {
            if self.keys[i] == *key {
                return Some(i);
            }
            i = i + 1;
        }
        None
    }

    /// Inserts `value` under `key`, replacing the value that was there. Keys are compared as
    /// the field compares words, by their canonical elements, and kept in canonical form.
    pub fn insert(&mut self, key: Word, value: V)
        ensures
            final(self).as_map() == old(self).as_map().insert(canonical_word(key), value@),
            old(self).key_seq().contains(canonical_word(key)) ==> final(self).key_seq() == old(self).key_seq(),
            !old(self).key_seq().contains(canonical_word(key)) ==> final(self).key_seq() == old(self).key_seq().push(canonical_word(key)),
    {
        proof { use_type_invariant(&*self); }
        let key = key.to_canonical();
        let found = self.find(&key);
        let mut taken = WordMap { keys: Vec::new(), vals: Vec::new() };
        std::mem::swap(self, &mut taken);
        proof { use_type_invariant(&taken); }
        let ghost before = taken;
        let WordMap { mut keys, mut vals } = taken;
        match found {
            Some(i) => {
                proof { before.lemma_key_index(i as int); }
                vals.set(i, value);
                let m = WordMap { keys, vals };
                assert forall|k: Word| #[trigger] m.keys@.contains(k) && k != key implies key_index(m.keys@, k) != i by {
                    let j = key_index(m.keys@, k);
                    assert(before.keys@.contains(k));
                }
                assert(m.as_map() =~= before.as_map().insert(key, value@));
                *self = m;
            },
            None => {
                let ghost old_keys = keys@;
                keys.push(key);
                vals.push(value);
                assert(keys@.no_duplicates()) by {
                    assert forall|a: int, b: int| 0 <= a < keys@.len() && 0 <= b < keys@.len() && a != b implies keys@[a] != keys@[b] by {
                        if a == old_keys.len() as int {
                            assert(old_keys[b] == keys@[b]);
                            assert(old_keys.contains(keys@[b]));
                        } else if b == old_keys.len() as int {
                            assert(old_keys[a] == keys@[a]);
                            assert(old_keys.contains(keys@[a]));
                        }
                    }
                }
                let m = WordMap { keys, vals };
                proof { m.lemma_key_index(old_keys.len() as int); }
                assert forall|k: Word| #[trigger] old_keys.contains(k) implies key_index(m.keys@, k) == key_index(old_keys, k) by {
                    let j = key_index(old_keys, k);
                    assert(m.keys@[j] == k);
                    m.lemma_key_index(j);
                }
                assert forall|k: Word| #[trigger] m.keys@.contains(k) <==> (old_keys.contains(k) || k == key) by {
                    if m.keys@.contains(k) && k != key {
                        let j = choose|j: int| 0 <= j < m.keys@.len() && m.keys@[j] == k;
                        assert(old_keys[j] == k);
                    }
                    if old_keys.contains(k) {
                        let j = choose|j: int| 0 <= j < old_keys.len() && old_keys[j] == k;
                        assert(m.keys@[j] == k);
                    }
                    if k == key {
                        assert(m.keys@[old_keys.len() as int] == k);
                    }
                }
                assert(m.as_map() =~= before.as_map().insert(key, value@));
                assert(m.key_seq() =~= before.key_seq().push(key));
                *self = m;
            },
        }
    }

    /// The value under `key`, if the key is there, compared by its canonical elements.
    pub fn get(&self, key: &Word) -> (r: Option<&V>)
        ensures
            match r {
                Some(v) => self.as_map().contains_key(canonical_word(*key))
                    && self.as_map()[canonical_word(*key)] == v@,
                None => !self.as_map().contains_key(canonical_word(*key)),
            },
    {
        proof { use_type_invariant(self); }
        let key = key.to_canonical();
        match self.find(&key) {
            Some(i) => {
                proof { self.lemma_key_index(i as int); }
                Some(&self.vals[i])
            },
            None => None,
        }
    }
}

} // verus!
