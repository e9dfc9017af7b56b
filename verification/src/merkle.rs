//! Merkle store nodes and sparse Merkle tree leaves.

use vstd::prelude::*;

use miden_core::crypto::merkle::{InnerNodeInfo, LeafIndex, MerklePath, MerkleStore as CoreMerkleStore};
use miden_crypto::merkle::smt::SmtLeaf as CoreLeaf;
use miden_crypto::{Felt as CoreFelt, Word as CoreWord};

use crate::mmr::poseidon2_hash_elements;
use crate::word::{canonical_word, Felt, Word};
use crate::word_map::insert_all;

verus! {

/// An inner node of a Merkle tree: its value and the values of its two children.
#[derive(Clone, Copy, Debug, PartialEq, Eq, Structural)]
pub struct InnerNode {
    pub value: Word,
    pub left: Word,
    pub right: Word,
}

impl InnerNode {
    /// Builds an inner node from the elements of its value and of its children.
    pub fn from_arrays(value: [Felt; 4], left: [Felt; 4], right: [Felt; 4]) -> (n: InnerNode)
        ensures
            n.value == Word(value[0], value[1], value[2], value[3]),
            n.left == Word(left[0], left[1], left[2], left[3]),
            n.right == Word(right[0], right[1], right[2], right[3]),
    {
        InnerNode { value: Word::from_array(value), left: Word::from_array(left), right: Word::from_array(right) }
    }
}

/// The two children that the Merkle store keeps under a node's value.
#[derive(Clone, Copy, Debug, PartialEq, Eq, Structural)]
pub struct StoreNode {
    pub left: Word,
    pub right: Word,
}

impl View for StoreNode {
    type V = StoreNode;

    open spec fn view(&self) -> StoreNode {
        *self
    }
}

/// The store entry that an inner node gives: its value, mapped to its children, each word
/// taken as the canonical representatives of its elements.
pub open spec fn node_entry(node: InnerNode) -> (Word, StoreNode) {
    (canonical_word(node.value), StoreNode { left: canonical_word(node.left), right: canonical_word(node.right) })
}

/// The store entries that a sequence of inner nodes gives, in order.
pub open spec fn node_entries(nodes: Seq<InnerNode>) -> Seq<(Word, StoreNode)> {
    nodes.map_values(|n: InnerNode| node_entry(n))
}

/// Entries of a concatenation of node runs are the concatenation of their entries.
pub proof fn lemma_node_entries_concat(a: Seq<InnerNode>, b: Seq<InnerNode>)
    ensures
        node_entries(a + b) == node_entries(a) + node_entries(b),
{
    assert(node_entries(a + b) =~= node_entries(a) + node_entries(b));
}

#[verifier::external_type_specification]
#[verifier::external_body]
pub struct ExMerkleStore(CoreMerkleStore);

/// The nodes that a Merkle store of `miden_crypto` holds: each node's value, mapped to its two
/// children, as canonical words.
pub uninterp spec fn merkle_store_nodes(s: CoreMerkleStore) -> Map<Word, StoreNode>;

/// Makes a store with `MerkleStore::new`, which `miden-crypto` fills with the roots of the empty
/// subtrees of every depth. Those nodes are not stated here.
#[verifier::external_body]
fn core_store_new() -> (s: CoreMerkleStore) {
    CoreMerkleStore::new()
}

/// Adds the given nodes in order with `Extend::extend` of `MerkleStore`, which inserts each
/// node's value, mapped to its children, into its inner map, so that a later node replaces an
/// earlier one under the same value. Each word is made of field elements with `Felt::new`.
#[verifier::external_body]
fn core_store_extend(s: &mut CoreMerkleStore, nodes: &Vec<InnerNode>)
    ensures
        merkle_store_nodes(*final(s)) == insert_all(merkle_store_nodes(*old(s)), node_entries(nodes@)),
{
    let w = |x: &Word| CoreWord::new(x.to_array().map(CoreFelt::new));
    s.extend(nodes.iter().map(|n| InnerNodeInfo { value: w(&n.value), left: w(&n.left), right: w(&n.right) }));
}

/// Adds every node of `other`, listed by `MerkleStore::inner_nodes`, with `Extend::extend`, so
/// that the nodes of `other` replace those here under the same values.
#[verifier::external_body]
fn core_store_absorb(s: &mut CoreMerkleStore, other: CoreMerkleStore)
    ensures
        merkle_store_nodes(*final(s)) == merkle_store_nodes(*old(s)).union_prefer_right(merkle_store_nodes(other)),
{
    s.extend(other.inner_nodes());
}

/// Lists the nodes of the store with `MerkleStore::inner_nodes`, each once, in an order that
/// `miden-crypto` leaves open; inserted one after the other they give the store's nodes.
#[verifier::external_body]
fn core_store_inner_nodes(s: &CoreMerkleStore) -> (r: Vec<InnerNode>)
    ensures
        insert_all(Map::empty(), node_entries(r@)) == merkle_store_nodes(*s),
{
    s.inner_nodes().map(|n| InnerNode::from_arrays(n.value.into(), n.left.into(), n.right.into())).collect()
}

/// A copy of the store by `Clone::clone`, which the store derives, with the same nodes.
#[verifier::external_body]
fn core_store_clone(s: &CoreMerkleStore) -> (r: CoreMerkleStore)
    ensures
        merkle_store_nodes(r) == merkle_store_nodes(*s),
{
    s.clone()
}

/// A store of Merkle nodes, kept in a Merkle store of `miden_crypto`: each node's value maps to
/// its two children. A node added under a value that is already there replaces the children
/// kept for it.
pub struct MerkleStore {
    inner: CoreMerkleStore,
}

impl View for MerkleStore {
    type V = Map<Word, StoreNode>;

    closed spec fn view(&self) -> Map<Word, StoreNode> {
        merkle_store_nodes(self.inner)
    }
}

impl MerkleStore {
    /// A new store, which holds the roots of the empty subtrees that `MerkleStore::new` puts in.
    pub fn new() -> (s: MerkleStore) {
        MerkleStore { inner: core_store_new() }
    }

    /// The store that holds the nodes of a Merkle store of `miden_crypto`.
    pub fn from_core(inner: CoreMerkleStore) -> (s: MerkleStore)
        ensures
            s@ == merkle_store_nodes(inner),
    {
        MerkleStore { inner }
    }

    /// The Merkle store of `miden_crypto` that holds the nodes of this store.
    pub fn into_core(self) -> (r: CoreMerkleStore)
        ensures
            merkle_store_nodes(r) == self@,
    {
        self.inner
    }

    /// Adds the given nodes in order.
    pub fn extend(&mut self, nodes: &Vec<InnerNode>)
        ensures
            final(self)@ == insert_all(old(self)@, node_entries(nodes@)),
    {
        core_store_extend(&mut self.inner, nodes);
    }

    /// Adds every node of `other`, replacing the children kept here under the same values.
    pub fn absorb(&mut self, other: MerkleStore)
        ensures
            final(self)@ == old(self)@.union_prefer_right(other@),
    {
        core_store_absorb(&mut self.inner, other.inner);
    }

    /// The nodes of the store, each as its value and its two children.
    pub fn inner_nodes(&self) -> (r: Vec<InnerNode>)
        ensures
            insert_all(Map::empty(), node_entries(r@)) == self@,
    {
        core_store_inner_nodes(&self.inner)
    }

    /// A copy of the store.
    pub fn copy(&self) -> (r: MerkleStore)
        ensures
            r@ == self@,
    {
        MerkleStore { inner: core_store_clone(&self.inner) }
    }
}

/// A leaf of a sparse Merkle tree of depth 64: empty at its index, or holding key-value pairs.
#[derive(Debug)]
pub enum SmtLeaf {
    /// An empty leaf at the given leaf index.
    Empty(u64),
    /// A leaf holding one key-value pair.
    Single(Word, Word),
    /// A leaf holding several key-value pairs.
    Multiple(Vec<(Word, Word)>),
}

/// The key-value pairs of a leaf, in order.
pub open spec fn leaf_entries(leaf: SmtLeaf) -> Seq<(Word, Word)> {
    match leaf {
        SmtLeaf::Empty(_) => Seq::empty(),
        SmtLeaf::Single(k, v) => seq![(k, v)],
        SmtLeaf::Multiple(entries) => entries@,
    }
}

/// The elements of a sequence of key-value pairs: each key's four elements, then its value's.
pub open spec fn entries_elements(entries: Seq<(Word, Word)>) -> Seq<Felt>
    decreases entries.len(),
{
    if entries.len() == 0 {
        Seq::empty()
    } else {
        entries_elements(entries.drop_last()) + entries.last().0.elements() + entries.last().1.elements()
    }
}

/// The elements of a leaf: the elements of its key-value pairs, in order.
pub open spec fn leaf_elements(leaf: SmtLeaf) -> Seq<Felt> {
    entries_elements(leaf_entries(leaf))
}

/// The elements of a sequence of key-value pairs, each key's elements followed by its value's.
pub fn entries_to_elements(entries: &Vec<(Word, Word)>) -> (r: Vec<Felt>)
    ensures
        r@ == entries_elements(entries@),
{
    let n = entries.len();
    let mut r: Vec<Felt> = Vec::new();
    let mut i: usize = 0;
    while i < n
        invariant
            n == entries@.len(),
            i <= n,
            r@ == entries_elements(entries@.take(i as int)),
        decreases n - i,
    {
        let (k, v) = entries[i];
        k.append_to(&mut r);
        v.append_to(&mut r);
        assert(entries@.take(i + 1).drop_last() =~= entries@.take(i as int));
        i = i + 1;
    }
    assert(entries@.take(n as int) =~= entries@);
    r
}

impl SmtLeaf {
    /// The elements of the leaf: its keys and values, each key followed by its value.
    pub fn to_elements(&self) -> (r: Vec<Felt>)
        ensures
            r@ == leaf_elements(*self),
    {
        match self {
            SmtLeaf::Empty(_) => Vec::new(),
            SmtLeaf::Single(k, v) => {
                let mut r: Vec<Felt> = Vec::new();
                k.append_to(&mut r);
                v.append_to(&mut r);
                let ghost e = seq![(*k, *v)];
                assert(e.drop_last() =~= Seq::<(Word, Word)>::empty());
                assert(entries_elements(e.drop_last()) == Seq::<Felt>::empty());
                assert(r@ =~= entries_elements(e.drop_last()) + e.last().0.elements() + e.last().1.elements());
                r
            },
            SmtLeaf::Multiple(entries) => entries_to_elements(entries),
        }
    }
}

/// Whether `index` is a position at the bottom level of a tree whose paths have the length of
/// `path`, which is at most 64: below `2^len`.
pub open spec fn path_fits(path: Seq<Word>, index: u64) -> bool {
    &&& path.len() <= 64
    &&& (path.len() == 64 || index >> (path.len() as u64) == 0)
}

/// Whether `index` fits the path, as `path_fits` states.
pub fn path_fits_index(path: &Vec<Word>, index: u64) -> (b: bool)
    ensures
        b == path_fits(path@, index),
{
    let n = path.len();
    if n > 64 {
        false
    } else if n == 64 {
        true
    } else {
        index >> (n as u64) == 0
    }
}

/// The inner nodes that `miden_crypto::merkle::MerklePath::authenticated_nodes` yields for the
/// path `path` from the node `node` at position `index` of the tree's bottom level.
pub uninterp spec fn merkle_path_nodes(path: Seq<Word>, index: u64, node: Word) -> Seq<InnerNode>;

/// Collects `MerklePath::authenticated_nodes` on `MerklePath::new` of the path, for `node` at
/// position `index`: the inner nodes from that node up to the root, each with its two
/// children. They are what `merkle_path_nodes` names. `path_fits` is what `NodeIndex::new`
/// checks, so the call does not fail.
#[verifier::external_body]
pub(crate) fn authenticated_nodes(path: &Vec<Word>, index: u64, node: Word) -> (r: Vec<InnerNode>)
    requires
        path_fits(path@, index),
    ensures
        r@ == merkle_path_nodes(path@, index, node),
{
    let w = |x: &Word| CoreWord::new(x.to_array().map(CoreFelt::new));
    let path = MerklePath::new(path.iter().map(w).collect());
    let nodes = path.authenticated_nodes(index, w(&node)).unwrap();
    nodes.map(|n| InnerNode::from_arrays(n.value.into(), n.left.into(), n.right.into())).collect()
}

/// The hash that `miden_crypto::merkle::smt::SmtLeaf::hash` gives a leaf.
pub uninterp spec fn smt_leaf_hash(leaf: SmtLeaf) -> Word;

/// Hashes a leaf with `miden_crypto::merkle::smt::SmtLeaf::hash`, on the leaf of the same
/// variant and contents. The result is what `smt_leaf_hash` names; for an empty leaf `miden-crypto`
/// returns the zero word, and for a leaf of several pairs it hashes their elements, each key's
/// before its value's, with `Poseidon2::hash_elements`.
#[verifier::external_body]
pub(crate) fn hash_leaf(leaf: &SmtLeaf) -> (h: Word)
    ensures
        h == smt_leaf_hash(*leaf),
        leaf is Empty ==> h == Word(0, 0, 0, 0),
        leaf is Multiple ==> h == poseidon2_hash_elements(leaf_elements(*leaf)),
{
    let w = |x: &Word| CoreWord::new(x.to_array().map(CoreFelt::new));
    let core_leaf = match leaf {
        SmtLeaf::Empty(i) => CoreLeaf::Empty(LeafIndex::new_max_depth(*i)),
        SmtLeaf::Single(k, v) => CoreLeaf::Single((w(k), w(v))),
        SmtLeaf::Multiple(e) => CoreLeaf::Multiple(e.iter().map(|(k, v)| (w(k), w(v))).collect()),
    };
    Word::from_array(core_leaf.hash().into())
}

} // verus!
