use std::sync::Arc;

use miden_core::mast::{DynNodeBuilder, ExternalNodeBuilder, MastForest, MastForestContributor, MastNodeExt};
use miden_crypto::{Felt as CoreFelt, Word as CoreWord};

use miden_tx_advice::inputs::AccountCode;
use miden_tx_advice::mast_store::TransactionMastStore;
use miden_tx_advice::word::Word;

fn lib(x: CoreWord) -> Word {
    Word::from_array(x.into())
}

/// A forest with one external node under `external` and one local dyn node; returns the forest
/// and the local node's digest.
fn forest(external: u64, dyncall: bool) -> (Arc<MastForest>, Word) {
    let mut f = MastForest::new();
    let digest = CoreWord::new([CoreFelt::new(external); 4]);
    ExternalNodeBuilder::new(digest).add_to_forest(&mut f).unwrap();
    let builder = if dyncall { DynNodeBuilder::new_dyncall() } else { DynNodeBuilder::new_dyn() };
    let id = builder.add_to_forest(&mut f).unwrap();
    let local = lib(f[id].digest());
    (Arc::new(f), local)
}

#[test]
fn local_nodes_resolve_to_their_forest_and_external_ones_do_not() {
    let (f, local) = forest(5, false);
    let mut store = TransactionMastStore::empty();
    store.insert(f.clone());
    let got = store.get(&local).unwrap();
    assert!(Arc::ptr_eq(&got, &f));
    assert!(store.get(&Word(5, 5, 5, 5)).is_none());
    assert!(store.get(&Word(1, 2, 3, 4)).is_none());
}

#[test]
fn a_later_forest_replaces_an_earlier_one_under_the_same_root() {
    let (f1, local1) = forest(5, false);
    let (f2, local2) = forest(6, false);
    assert_eq!(local1, local2);
    let mut store = TransactionMastStore::new(vec![f1.clone()]);
    assert!(Arc::ptr_eq(&store.get(&local1).unwrap(), &f1));
    store.insert(f2.clone());
    assert!(Arc::ptr_eq(&store.get(&local1).unwrap(), &f2));
}

#[test]
fn new_loads_every_library() {
    let (f1, local1) = forest(5, false);
    let (f2, local2) = forest(6, true);
    assert_ne!(local1, local2);
    let store = TransactionMastStore::new(vec![f1.clone(), f2.clone()]);
    assert!(Arc::ptr_eq(&store.get(&local1).unwrap(), &f1));
    assert!(Arc::ptr_eq(&store.get(&local2).unwrap(), &f2));
}

#[test]
fn account_code_is_loaded() {
    let (f, local) = forest(7, true);
    let code = AccountCode { commitment: Word(0, 0, 0, 0), elements: vec![], mast: f.clone() };
    let mut store = TransactionMastStore::empty();
    store.load_account_code(&code);
    assert!(Arc::ptr_eq(&store.get(&local).unwrap(), &f));
}
