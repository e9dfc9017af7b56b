//! The store of MAST forests that a transaction's execution draws procedures from.

use vstd::prelude::*;

use std::sync::Arc;

use miden_core::mast::{MastForest, MastNodeExt};

use crate::inputs::AccountCode;
use crate::word::{canonical_word, Word};
use crate::word_map::WordMap;

verus! {

#[verifier::external_type_specification]
#[verifier::external_body]
pub struct ExMastForest(MastForest);

/// Makes another pointer to the same forest with `Arc::clone`, which points to the same
/// allocation and so to the same forest.
#[verifier::external_body]
fn share_forest(forest: &Arc<MastForest>) -> (r: Arc<MastForest>)
    ensures
        r == *forest,
{
    Arc::clone(forest)
}

/// The nodes that a forest holds, in the order of `MastForest::nodes`, each as its digest and
/// whether it is external.
pub uninterp spec fn mast_forest_nodes(forest: MastForest) -> Seq<(Word, bool)>;

/// Lists the nodes of a forest, in the order of `MastForest::nodes`, each as its digest from
/// `MastNodeExt::digest` and whether it is external from `MastNode::is_external`: the list is
/// `mast_forest_nodes` of the forest, which the forest's stored nodes alone decide.
#[verifier::external_body]
fn forest_nodes(forest: &MastForest) -> (r: Vec<(Word, bool)>)
    ensures
        r@ == mast_forest_nodes(*forest),
{
    forest.nodes().iter().map(|node| (Word::from_array(node.digest().into()), node.is_external())).collect()
}

/// The procedure map that results from registering, under its digest in canonical form, each
/// node of `nodes` that is not external as a node of `forest`, in order.
pub open spec fn register_nodes(
    m: Map<Word, Arc<MastForest>>,
    forest: Arc<MastForest>,
    nodes: Seq<(Word, bool)>,
) -> Map<Word, Arc<MastForest>>
    decreases nodes.len(),
{
    if nodes.len() == 0 {
        m
    } else {
        let prev = register_nodes(m, forest, nodes.drop_last());
        if nodes.last().1 {
            prev
        } else {
            prev.insert(canonical_word(nodes.last().0), forest)
        }
    }
}

/// Registering nodes of a forest keeps every other root where it was, and maps the roots it
/// adds to that forest.
pub proof fn lemma_register_nodes(m: Map<Word, Arc<MastForest>>, forest: Arc<MastForest>, nodes: Seq<(Word, bool)>)
    ensures
        forall|k: Word| #[trigger] register_nodes(m, forest, nodes).contains_key(k) ==>
            (m.contains_key(k) && register_nodes(m, forest, nodes)[k] == m[k]) || register_nodes(m, forest, nodes)[k] == forest,
        forall|k: Word| m.contains_key(k) ==> #[trigger] register_nodes(m, forest, nodes).contains_key(k),
    decreases nodes.len(),
{
    if nodes.len() > 0 {
        let prev = register_nodes(m, forest, nodes.drop_last());
        let cur = register_nodes(m, forest, nodes);
        lemma_register_nodes(m, forest, nodes.drop_last());
        assert forall|k: Word| #[trigger] cur.contains_key(k) implies
            (m.contains_key(k) && cur[k] == m[k]) || cur[k] == forest by {
            if prev.contains_key(k) && !(k == canonical_word(nodes.last().0) && !nodes.last().1) {
                assert(cur[k] == prev[k]);
            }
        }
        assert forall|k: Word| m.contains_key(k) implies #[trigger] cur.contains_key(k) by {
            assert(prev.contains_key(k));
        }
    }
}

/// Once the nodes of a forest are registered, the digest of each of its local nodes resolves
/// to that forest, and a root that no local node of the forest carries resolves as before.
pub proof fn lemma_registered_roots_resolve(
    m: Map<Word, Arc<MastForest>>,
    forest: Arc<MastForest>,
    nodes: Seq<(Word, bool)>,
)
    ensures
        forall|i: int| 0 <= i < nodes.len() && !(#[trigger] nodes[i]).1 ==>
            register_nodes(m, forest, nodes).contains_key(canonical_word(nodes[i].0))
            && register_nodes(m, forest, nodes)[canonical_word(nodes[i].0)] == forest,
        forall|k: Word| (forall|i: int| 0 <= i < nodes.len() ==> (#[trigger] nodes[i]).1 || canonical_word(nodes[i].0) != k) ==>
            (#[trigger] register_nodes(m, forest, nodes).contains_key(k) == m.contains_key(k)
            && (m.contains_key(k) ==> register_nodes(m, forest, nodes)[k] == m[k])),
    decreases nodes.len(),
{
    if nodes.len() > 0 {
        let prev_nodes = nodes.drop_last();
        lemma_registered_roots_resolve(m, forest, prev_nodes);
        lemma_register_nodes(m, forest, prev_nodes);
        let prev = register_nodes(m, forest, prev_nodes);
        let cur = register_nodes(m, forest, nodes);
        assert forall|i: int| 0 <= i < nodes.len() && !(#[trigger] nodes[i]).1 implies
            cur.contains_key(canonical_word(nodes[i].0)) && cur[canonical_word(nodes[i].0)] == forest by {
            if i < nodes.len() - 1 {
                assert(prev_nodes[i] == nodes[i]);
            }
        }
        assert forall|k: Word| (forall|i: int| 0 <= i < nodes.len() ==> (#[trigger] nodes[i]).1 || canonical_word(nodes[i].0) != k) implies
            (#[trigger] cur.contains_key(k) == m.contains_key(k) && (m.contains_key(k) ==> cur[k] == m[k])) by {
            assert forall|i: int| 0 <= i < prev_nodes.len() implies (#[trigger] prev_nodes[i]).1 || canonical_word(prev_nodes[i].0) != k by {
                assert(prev_nodes[i] == nodes[i]);
            }
            assert(nodes[nodes.len() - 1] == nodes.last());
        }
    }
}

/// The procedure map that results from registering the nodes of each forest in turn, the
/// nodes of `forests[i]` being `node_lists[i]`.
pub open spec fn register_forests(
    m: Map<Word, Arc<MastForest>>,
    forests: Seq<Arc<MastForest>>,
    node_lists: Seq<Seq<(Word, bool)>>,
) -> Map<Word, Arc<MastForest>>
    decreases forests.len(),
{
    if forests.len() == 0 {
        m
    } else {
        register_nodes(
            register_forests(m, forests.drop_last(), node_lists.drop_last()),
            forests.last(),
            node_lists[forests.len() - 1],
        )
    }
}

/// Registering one more forest after a run of forests registers the run extended by it.
pub proof fn lemma_register_forests_push(
    m: Map<Word, Arc<MastForest>>,
    forests: Seq<Arc<MastForest>>,
    node_lists: Seq<Seq<(Word, bool)>>,
    forest: Arc<MastForest>,
    nodes: Seq<(Word, bool)>,
)
    requires
        node_lists.len() == forests.len(),
    ensures
        register_nodes(register_forests(m, forests, node_lists), forest, nodes)
            == register_forests(m, forests.push(forest), node_lists.push(nodes)),
{
    assert(forests.push(forest).drop_last() =~= forests);
    assert(node_lists.push(nodes).drop_last() =~= node_lists);
}

/// Whether `nodes` holds a node that is not external whose digest is `k` in canonical form.
pub open spec fn has_local(nodes: Seq<(Word, bool)>, k: Word) -> bool {
    exists|j: int| 0 <= j < nodes.len() && !nodes[j].1 && canonical_word(nodes[j].0) == k
}

/// Once forests are registered one after the other in a store that held none, a root resolves
/// to the last forest that has a local node under it, and a root under which no forest has a
/// local node does not resolve.
pub proof fn lemma_forests_resolve(forests: Seq<Arc<MastForest>>, node_lists: Seq<Seq<(Word, bool)>>)
    requires
        node_lists.len() == forests.len(),
    ensures
        forall|k: Word| (forall|i: int| 0 <= i < forests.len() ==> !#[trigger] has_local(node_lists[i], k))
            ==> !register_forests(Map::empty(), forests, node_lists).contains_key(k),
        forall|k: Word, i: int|
            0 <= i < forests.len() && #[trigger] has_local(node_lists[i], k)
            && (forall|i2: int| i < i2 < forests.len() ==> !has_local(node_lists[i2], k))
            ==> register_forests(Map::empty(), forests, node_lists).contains_key(k)
                && register_forests(Map::empty(), forests, node_lists)[k] == forests[i],
    decreases forests.len(),
{
    if forests.len() > 0 {
        let n = forests.len() - 1;
        let pf = forests.drop_last();
        let pl = node_lists.drop_last();
        lemma_forests_resolve(pf, pl);
        let prev = register_forests(Map::empty(), pf, pl);
        let last = node_lists[n];
        let cur = register_forests(Map::empty(), forests, node_lists);
        assert(cur == register_nodes(prev, forests.last(), last));
        lemma_registered_roots_resolve(prev, forests.last(), last);
        assert forall|k: Word| (forall|i: int| 0 <= i < forests.len() ==> !#[trigger] has_local(node_lists[i], k))
            implies !cur.contains_key(k) by {
            assert(!has_local(node_lists[n], k));
            assert forall|j: int| 0 <= j < last.len() implies (#[trigger] last[j]).1 || canonical_word(last[j].0) != k by {
                if !last[j].1 && canonical_word(last[j].0) == k {
                    assert(has_local(last, k));
                }
            }
            assert forall|i: int| 0 <= i < pf.len() implies !#[trigger] has_local(pl[i], k) by {
                assert(pl[i] == node_lists[i]);
                assert(!has_local(node_lists[i], k));
            }
        }
        assert forall|k: Word, i: int|
            0 <= i < forests.len() && #[trigger] has_local(node_lists[i], k)
            && (forall|i2: int| i < i2 < forests.len() ==> !has_local(node_lists[i2], k))
            implies cur.contains_key(k) && cur[k] == forests[i] by {
            if i == n {
                let j = choose|j: int| 0 <= j < last.len() && !last[j].1 && canonical_word(last[j].0) == k;
                assert(!(#[trigger] last[j]).1);
            } else {
                assert(!has_local(node_lists[n], k));
                assert forall|j: int| 0 <= j < last.len() implies (#[trigger] last[j]).1 || canonical_word(last[j].0) != k by {
                    if !last[j].1 && canonical_word(last[j].0) == k {
                        assert(has_local(last, k));
                    }
                }
                assert(pl[i] == node_lists[i]);
                assert(pf[i] == forests[i]);
                assert forall|i2: int| i < i2 < pf.len() implies !has_local(pl[i2], k) by {
                    assert(pl[i2] == node_lists[i2]);
                }
                assert(has_local(pl[i], k));
            }
        }
    }
}

/// The nodes of each forest, in the order of the forests.
pub open spec fn forests_nodes(forests: Seq<Arc<MastForest>>) -> Seq<Seq<(Word, bool)>> {
    forests.map_values(|f: Arc<MastForest>| mast_forest_nodes(*f))
}

/// A store loaded with libraries, in order, from nothing: a root resolves to the last library
/// that has a local node whose digest is that root in canonical form, and a root that no library
/// has as a local digest does not resolve.
pub proof fn lemma_libraries_resolve(libraries: Seq<Arc<MastForest>>)
    ensures
        forests_nodes(libraries).len() == libraries.len(),
        forall|i: int| 0 <= i < libraries.len() ==> #[trigger] forests_nodes(libraries)[i] == mast_forest_nodes(*libraries[i]),
        forall|k: Word| (forall|i: int| 0 <= i < libraries.len() ==> !has_local(mast_forest_nodes(*#[trigger] libraries[i]), k))
            ==> !register_forests(Map::empty(), libraries, forests_nodes(libraries)).contains_key(k),
        forall|k: Word, i: int|
            0 <= i < libraries.len() && #[trigger] has_local(mast_forest_nodes(*libraries[i]), k)
            && (forall|i2: int| i < i2 < libraries.len() ==> !has_local(mast_forest_nodes(*libraries[i2]), k))
            ==> register_forests(Map::empty(), libraries, forests_nodes(libraries)).contains_key(k)
                && register_forests(Map::empty(), libraries, forests_nodes(libraries))[k] == libraries[i],
{
    let lists = forests_nodes(libraries);
    lemma_forests_resolve(libraries, lists);
    let m = register_forests(Map::empty(), libraries, lists);
    assert forall|k: Word| (forall|i: int| 0 <= i < libraries.len() ==> !has_local(mast_forest_nodes(*#[trigger] libraries[i]), k))
        implies !m.contains_key(k) by {
        assert forall|i: int| 0 <= i < libraries.len() implies !#[trigger] has_local(lists[i], k) by {
            assert(lists[i] == mast_forest_nodes(*libraries[i]));
        }
    }
    assert forall|k: Word, i: int|
        0 <= i < libraries.len() && #[trigger] has_local(mast_forest_nodes(*libraries[i]), k)
        && (forall|i2: int| i < i2 < libraries.len() ==> !has_local(mast_forest_nodes(*libraries[i2]), k))
        implies m.contains_key(k) && m[k] == libraries[i] by {
        assert(lists[i] == mast_forest_nodes(*libraries[i]));
        assert(has_local(lists[i], k));
        assert forall|i2: int| i < i2 < libraries.len() implies !has_local(lists[i2], k) by {
            assert(lists[i2] == mast_forest_nodes(*libraries[i2]));
        }
    }
}

/// The forest that each root stands for, the roots giving positions among the forests.
spec fn procedure_map(forests: Seq<Arc<MastForest>>, roots: Map<Word, usize>) -> Map<Word, Arc<MastForest>> {
    Map::new(|k: Word| roots.contains_key(k), |k: Word| forests[roots[k] as int])
}

/// A store for the code available during transaction execution: it maps the MAST roots of
/// procedures to the forests that contain them. The VM asks the store for a forest when it
/// meets a procedure whose code it does not have.
pub struct TransactionMastStore {
    forests: Vec<Arc<MastForest>>,
    roots: WordMap<usize>,
}

impl TransactionMastStore {
    /// Every registered root names one of the stored forests.
    #[verifier::type_invariant]
    closed spec fn wf(&self) -> bool {
        forall|k: Word| #[trigger] self.roots.as_map().contains_key(k) ==> self.roots.as_map()[k] < self.forests@.len()
    }
}

impl View for TransactionMastStore {
    type V = Map<Word, Arc<MastForest>>;

    /// The forest registered under each procedure root.
    closed spec fn view(&self) -> Map<Word, Arc<MastForest>> {
        procedure_map(self.forests@, self.roots.as_map())
    }
}

impl TransactionMastStore {
    /// A store that holds no forest.
    pub fn empty() -> (s: TransactionMastStore)
        ensures
            s@ == Map::<Word, Arc<MastForest>>::empty(),
    {
        let s = TransactionMastStore { forests: Vec::new(), roots: WordMap::new() };
        assert(s@ =~= Map::<Word, Arc<MastForest>>::empty());
        s
    }

    /// A store loaded with the given libraries, in order: the transaction kernel, the kernel
    /// library, and the core, protocol and standards libraries.
    pub fn new(libraries: Vec<Arc<MastForest>>) -> (s: TransactionMastStore)
        ensures
            s@ == register_forests(Map::empty(), libraries@, forests_nodes(libraries@)),
            forall|k: Word| #[trigger] s@.contains_key(k) ==> libraries@.contains(s@[k]),
    {
        let mut store = TransactionMastStore::empty();
        let n = libraries.len();
        let mut i: usize = 0;
        while i < n
            invariant
                n == libraries@.len(),
                i <= n,
                forall|k: Word| #[trigger] store@.contains_key(k) ==> libraries@.take(i as int).contains(store@[k]),
                store@ == register_forests(Map::empty(), libraries@.take(i as int), forests_nodes(libraries@.take(i as int))),
            decreases n - i,
        {
            let ghost before = store@;
            let forest = share_forest(&libraries[i]);
            store.insert(forest);
            proof {
                let prefix = libraries@.take(i + 1);
                let nodes = forests_nodes(prefix)[i as int];
                lemma_register_nodes(before, forest, nodes);
                assert(prefix.drop_last() =~= libraries@.take(i as int));
                assert(forests_nodes(prefix).drop_last() =~= forests_nodes(libraries@.take(i as int)));
                assert forall|k: Word| #[trigger] store@.contains_key(k) implies prefix.contains(store@[k]) by {
                    assert(register_nodes(before, forest, nodes).contains_key(k));
                    if before.contains_key(k) && store@[k] == before[k] {
                        let j = choose|j: int| 0 <= j < i && libraries@.take(i as int)[j] == before[k];
                        assert(prefix[j] == before[k]);
                    } else {
                        assert(store@[k] == forest);
                        assert(prefix[i as int] == libraries@[i as int]);
                    }
                }
            }
            i = i + 1;
        }
        assert(libraries@.take(n as int) =~= libraries@);
        store
    }

    /// Registers the nodes of `mast_forest` that are not external, under their digests, as
    /// nodes of that forest, so that any local digest resolves to it. `nodes` lists the
    /// forest's nodes, each with its digest and whether it is external.
    fn insert_nodes(&mut self, mast_forest: Arc<MastForest>, nodes: &Vec<(Word, bool)>)
        ensures
            final(self)@ == register_nodes(old(self)@, mast_forest, nodes@),
    {
        let mut taken = TransactionMastStore::empty();
        std::mem::swap(self, &mut taken);
        proof { use_type_invariant(&taken); }
        let ghost before = taken@;
        let TransactionMastStore { mut forests, mut roots } = taken;
        let idx = forests.len();
        forests.push(mast_forest);
        assert(procedure_map(forests@, roots.as_map()) =~= before);
        let n = nodes.len();
        let mut i: usize = 0;
        while i < n
            invariant
                n == nodes@.len(),
                i <= n,
                idx < forests@.len(),
                forests@[idx as int] == mast_forest,
                forall|k: Word| #[trigger] roots.as_map().contains_key(k) ==> roots.as_map()[k] < forests@.len(),
                procedure_map(forests@, roots.as_map()) == register_nodes(before, mast_forest, nodes@.take(i as int)),
            decreases n - i,
        {
            let (digest, is_external) = nodes[i];
            if !is_external {
                let ghost prev = procedure_map(forests@, roots.as_map());
                roots.insert(digest, idx);
                assert(procedure_map(forests@, roots.as_map()) =~= prev.insert(canonical_word(digest), mast_forest));
            }
            assert(nodes@.take(i + 1).drop_last() =~= nodes@.take(i as int));
            i = i + 1;
        }
        assert(nodes@.take(n as int) =~= nodes@);
        *self = TransactionMastStore { forests, roots };
    }

    /// Registers all local nodes of the provided forest with this store: every node that is not
    /// external becomes reachable under its digest.
    pub fn insert(&mut self, mast_forest: Arc<MastForest>)
        ensures
            final(self)@ == register_nodes(old(self)@, mast_forest, mast_forest_nodes(*mast_forest)),
    {
        let nodes = forest_nodes(&mast_forest);
        self.insert_nodes(mast_forest, &nodes);
    }

    /// Loads the provided account code into this store.
    pub fn load_account_code(&mut self, code: &AccountCode)
        ensures
            final(self)@ == register_nodes(old(self)@, code.mast, mast_forest_nodes(*code.mast)),
    {
        self.insert(share_forest(&code.mast));
    }

    /// The forest that holds the procedure with the given root, if there is one; roots are
    /// compared by their canonical elements.
    pub fn get(&self, procedure_root: &Word) -> (r: Option<Arc<MastForest>>)
        ensures
            match r {
                Some(f) => self@.contains_key(canonical_word(*procedure_root))
                    && f == self@[canonical_word(*procedure_root)],
                None => !self@.contains_key(canonical_word(*procedure_root)),
            },
    {
        proof { use_type_invariant(self); }
        match self.roots.get(procedure_root) {
            Some(idx) => Some(share_forest(&self.forests[*idx])),
            None => None,
        }
    }
}

} // verus!
