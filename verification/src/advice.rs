//! The advice inputs of a program: a stack of field elements, a map from words to lists of
//! field elements, and a store of Merkle nodes.

use vstd::prelude::*;

use miden_core::advice::AdviceMap as CoreAdviceMap;
use miden_core::{Felt as CoreFelt, Word as CoreWord};

use crate::merkle::{MerkleStore, StoreNode};
use crate::word::{canonical_felts, canonical_word, Felt, Word};
use crate::word_map::{insert_all, lemma_insert_all_concat};

verus! {

/// A copy of a list of field elements.
pub fn copy_felts(v: &Vec<Felt>) -> (r: Vec<Felt>)
    ensures
        r@ == v@,
{
    let n = v.len();
    let mut r: Vec<Felt> = Vec::new();
    let mut i: usize = 0;
    while i < n
        invariant
            n == v@.len(),
            i <= n,
            r@ == v@.take(i as int),
        decreases n - i,
    {
        r.push(v[i]);
        assert(r@ =~= v@.take(i + 1));
        i = i + 1;
    }
    assert(v@.take(n as int) =~= v@);
    r
}

/// Appends the elements of `w` to `v`.
pub fn append_felts(v: &mut Vec<Felt>, w: &Vec<Felt>)
    ensures
        final(v)@ == old(v)@ + w@,
{
    let n = w.len();
    let mut i: usize = 0;
    while i < n
        invariant
            n == w@.len(),
            i <= n,
            v@ == old(v)@ + w@.take(i as int),
        decreases n - i,
    {
        v.push(w[i]);
        assert(v@ =~= old(v)@ + w@.take(i + 1));
        i = i + 1;
    }
    assert(w@.take(n as int) =~= w@);
}

/// A copy of map entries.
pub fn copy_entries(entries: &Vec<(Word, Vec<Felt>)>) -> (r: Vec<(Word, Vec<Felt>)>)
    ensures
        entries_view(r@) == entries_view(entries@),
{
    let n = entries.len();
    let mut r: Vec<(Word, Vec<Felt>)> = Vec::new();
    let mut i: usize = 0;
    while i < n
        invariant
            n == entries@.len(),
            i <= n,
            entries_view(r@) == entries_view(entries@.take(i as int)),
        decreases n - i,
    {
        let (k, v) = &entries[i];
        let ghost prev = r@;
        r.push((*k, copy_felts(v)));
        assert(entries_view(r@) =~= entries_view(prev).push((*k, v@)));
        assert(entries_view(entries@.take(i + 1)) =~= entries_view(entries@.take(i as int)).push((*k, v@)));
        i = i + 1;
    }
    assert(entries@.take(n as int) =~= entries@);
    r
}

/// Map entries given as key and value vectors, seen as keys and element sequences.
pub open spec fn entries_view(entries: Seq<(Word, Vec<Felt>)>) -> Seq<(Word, Seq<Felt>)> {
    entries.map_values(|e: (Word, Vec<Felt>)| (e.0, e.1@))
}

#[verifier::external_type_specification]
#[verifier::external_body]
pub struct ExAdviceMap(CoreAdviceMap);

/// What an advice map of `miden_core` holds: each key, mapped to its values, the elements of
/// both taken as canonical representatives.
pub uninterp spec fn advice_map_contents(m: CoreAdviceMap) -> Map<Word, Seq<Felt>>;

/// Makes an empty map with `AdviceMap::default`, whose contents are empty.
#[verifier::external_body]
fn core_map_new() -> (r: CoreAdviceMap)
    ensures
        advice_map_contents(r).is_empty(),
{
    CoreAdviceMap::default()
}

/// Inserts `values` under `key` with `AdviceMap::insert`, each value made a field element with
/// `Felt::new`. The map compares keys by their canonical elements, so the entry under the
/// canonical key holds the canonical values afterwards, and no other entry changes.
#[verifier::external_body]
fn core_map_insert(m: &mut CoreAdviceMap, key: Word, values: Vec<Felt>)
    ensures
        advice_map_contents(*final(m)) == advice_map_contents(*old(m)).insert(canonical_word(key), canonical_felts(values@)),
{
    let k = CoreWord::new(key.to_array().map(CoreFelt::new));
    m.insert(k, values.into_iter().map(CoreFelt::new).collect::<Vec<CoreFelt>>());
}

/// Inserts every entry of `other` with `Extend::extend` of `AdviceMap`, which inserts into its
/// inner `BTreeMap`, so that the entries of `other` replace those under the same keys.
#[verifier::external_body]
fn core_map_extend(m: &mut CoreAdviceMap, other: CoreAdviceMap)
    ensures
        advice_map_contents(*final(m)) == advice_map_contents(*old(m)).union_prefer_right(advice_map_contents(other)),
{
    m.extend(other);
}

/// The values under `key`, by `AdviceMap::get` on the key's field elements, each as its
/// canonical representative.
#[verifier::external_body]
fn core_map_get(m: &CoreAdviceMap, key: &Word) -> (r: Option<Vec<Felt>>)
    ensures
        match r {
            Some(v) => advice_map_contents(*m).contains_key(canonical_word(*key))
                && advice_map_contents(*m)[canonical_word(*key)] == v@,
            None => !advice_map_contents(*m).contains_key(canonical_word(*key)),
        },
{
    let k = CoreWord::new(key.to_array().map(CoreFelt::new));
    m.get(&k).map(|v| v.iter().map(|f| f.as_canonical_u64()).collect())
}

/// A copy of the map by `Clone::clone`, which the map derives, with the same contents.
#[verifier::external_body]
fn core_map_clone(m: &CoreAdviceMap) -> (r: CoreAdviceMap)
    ensures
        advice_map_contents(r) == advice_map_contents(*m),
{
    m.clone()
}

/// A map entry with its key and values made canonical, as the advice map keeps it.
pub open spec fn canonical_entry(e: (Word, Seq<Felt>)) -> (Word, Seq<Felt>) {
    (canonical_word(e.0), canonical_felts(e.1))
}

/// The map that results from inserting `entries` into the advice map `m` one after the other,
/// each made canonical, so that a later entry under a key replaces an earlier one.
pub open spec fn insert_entries(m: Map<Word, Seq<Felt>>, entries: Seq<(Word, Seq<Felt>)>) -> Map<Word, Seq<Felt>> {
    insert_all(m, entries.map_values(|e: (Word, Seq<Felt>)| canonical_entry(e)))
}

/// Inserting a run of entries and then one more entry inserts the run extended by that entry.
pub proof fn lemma_insert_entries_push(m: Map<Word, Seq<Felt>>, es: Seq<(Word, Seq<Felt>)>, e: (Word, Seq<Felt>))
    ensures
        insert_entries(m, es).insert(canonical_entry(e).0, canonical_entry(e).1) == insert_entries(m, es.push(e)),
{
    let f = |x: (Word, Seq<Felt>)| canonical_entry(x);
    assert(es.push(e).map_values(f).drop_last() =~= es.map_values(f));
}

/// Inserting two runs of entries one after the other inserts their concatenation.
pub proof fn lemma_insert_entries_concat(m: Map<Word, Seq<Felt>>, a: Seq<(Word, Seq<Felt>)>, b: Seq<(Word, Seq<Felt>)>)
    ensures
        insert_entries(insert_entries(m, a), b) == insert_entries(m, a + b),
{
    let f = |x: (Word, Seq<Felt>)| canonical_entry(x);
    lemma_insert_all_concat(m, a.map_values(f), b.map_values(f));
    assert((a + b).map_values(f) =~= a.map_values(f) + b.map_values(f));
}

/// A map from words to lists of field elements, kept in an advice map of `miden_core`. A value
/// inserted under a key replaces the value that was there. Keys and values are kept as the field
/// elements that they denote, so the map holds their canonical representatives.
pub struct AdviceMap {
    inner: CoreAdviceMap,
}

impl View for AdviceMap {
    type V = Map<Word, Seq<Felt>>;

    closed spec fn view(&self) -> Map<Word, Seq<Felt>> {
        advice_map_contents(self.inner)
    }
}

impl AdviceMap {
    /// An empty map.
    pub fn new() -> (m: AdviceMap)
        ensures
            m@ == Map::<Word, Seq<Felt>>::empty(),
    {
        AdviceMap { inner: core_map_new() }
    }

    /// The map that holds the entries of an advice map of `miden_core`.
    pub fn from_core(inner: CoreAdviceMap) -> (m: AdviceMap)
        ensures
            m@ == advice_map_contents(inner),
    {
        AdviceMap { inner }
    }

    /// The advice map of `miden_core` that holds the entries of this map.
    pub fn into_core(self) -> (r: CoreAdviceMap)
        ensures
            advice_map_contents(r) == self@,
    {
        self.inner
    }

    /// Inserts `values` under `key`, replacing the list that was there.
    pub fn insert(&mut self, key: Word, values: Vec<Felt>)
        ensures
            final(self)@ == old(self)@.insert(canonical_word(key), canonical_felts(values@)),
    {
        core_map_insert(&mut self.inner, key, values);
    }

    /// Inserts the given entries in order; a later entry replaces an earlier one under the same
    /// key.
    pub fn extend(&mut self, entries: Vec<(Word, Vec<Felt>)>)
        ensures
            final(self)@ == insert_entries(old(self)@, entries_view(entries@)),
    {
        let ghost all = entries@;
        let n = entries.len();
        let mut rest = entries;
        let mut i: usize = 0;
        while i < n
            invariant
                n == all.len(),
                i <= n,
                rest@ == all.skip(i as int),
                self@ == insert_entries(old(self)@, entries_view(all.take(i as int))),
            decreases n - i,
        {
            let (k, v) = rest.remove(0);
            assert(rest@ =~= all.skip(i + 1));
            proof {
                lemma_insert_entries_push(old(self)@, entries_view(all.take(i as int)), (k, v@));
                assert(entries_view(all.take(i as int)).push((k, v@)) =~= entries_view(all.take(i + 1)));
            }
            self.insert(k, v);
            i = i + 1;
        }
        assert(all.take(n as int) =~= all);
    }

    /// Inserts every entry of `other`, replacing the values here under the same keys.
    pub fn absorb(&mut self, other: AdviceMap)
        ensures
            final(self)@ == old(self)@.union_prefer_right(other@),
    {
        core_map_extend(&mut self.inner, other.inner);
    }

    /// The list under `key`, if the key is there, in canonical form.
    pub fn get(&self, key: &Word) -> (r: Option<Vec<Felt>>)
        ensures
            match r {
                Some(v) => self@.contains_key(canonical_word(*key)) && self@[canonical_word(*key)] == v@,
                None => !self@.contains_key(canonical_word(*key)),
            },
    {
        core_map_get(&self.inner, key)
    }

    /// A copy of the map.
    pub fn copy(&self) -> (r: AdviceMap)
        ensures
            r@ == self@,
    {
        AdviceMap { inner: core_map_clone(&self.inner) }
    }
}

/// What the advice inputs hold: the stack, the map and the Merkle store.
pub struct AdviceInputsView {
    pub stack: Seq<Felt>,
    pub map: Map<Word, Seq<Felt>>,
    pub store: Map<Word, StoreNode>,
}

/// The advice inputs of a program: the elements on the advice stack, the key-mapped lists of
/// elements, and the Merkle store.
pub struct AdviceInputs {
    pub stack: Vec<Felt>,
    pub map: AdviceMap,
    pub store: MerkleStore,
}

impl View for AdviceInputs {
    type V = AdviceInputsView;

    open spec fn view(&self) -> AdviceInputsView {
        AdviceInputsView { stack: self.stack@, map: self.map@, store: self.store@ }
    }
}

impl AdviceInputs {
    /// Advice inputs with an empty stack and map, and a new Merkle store.
    pub fn new() -> (r: AdviceInputs)
        ensures
            r@.stack == Seq::<Felt>::empty(),
            r@.map == Map::<Word, Seq<Felt>>::empty(),
    {
        AdviceInputs { stack: Vec::new(), map: AdviceMap::new(), store: MerkleStore::new() }
    }

    /// Extends these advice inputs with `other`: its stack elements go after these, and its map
    /// entries and store nodes replace those here under the same keys.
    pub fn extend(&mut self, other: AdviceInputs)
        ensures
            final(self)@.stack == old(self)@.stack + other@.stack,
            final(self)@.map == old(self)@.map.union_prefer_right(other@.map),
            final(self)@.store == old(self)@.store.union_prefer_right(other@.store),
    {
        let AdviceInputs { stack, map, store } = other;
        let mut stack = stack;
        self.stack.append(&mut stack);
        self.map.absorb(map);
        self.store.absorb(store);
    }

    /// A copy of these advice inputs.
    pub fn copy(&self) -> (r: AdviceInputs)
        ensures
            r@ == self@,
    {
        AdviceInputs { stack: copy_felts(&self.stack), map: self.map.copy(), store: self.store.copy() }
    }
}

} // verus!
