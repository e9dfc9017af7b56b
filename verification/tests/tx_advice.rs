use std::sync::Arc;

use miden_core::mast::MastForest;
use miden_crypto::merkle::mmr::{Mmr, PartialMmr};
use miden_crypto::merkle::smt::SmtLeaf as CoreLeaf;
use miden_crypto::merkle::MerklePath;
use miden_crypto::{Felt as CoreFelt, Word as CoreWord};

use miden_tx_advice::advice::AdviceInputs;
use miden_tx_advice::inputs::{
    AccountCode, AccountId, AccountInputs, AccountWitness, AssetWitness, BlockHeader, InputNote,
    InputNotes, Note, NoteAssets, NoteInclusionProof, NoteInputs, NoteRecipient, PartialAccount,
    PartialBlockchain, PartialStorage, PartialVault, StorageHeader, StorageMap, TransactionArgs,
    TransactionInputs, TransactionKernel, TransactionScript,
};
use miden_tx_advice::merkle::{InnerNode, MerkleStore, SmtLeaf};
use miden_tx_advice::mmr::MmrParts;
use miden_tx_advice::tx_advice::{tx_inputs_are_consistent, TransactionAdviceInputs};
use miden_tx_advice::word::{Word, FELT_MODULUS};
use miden_tx_advice::word_map::WordMap;

fn w(n: u64) -> Word {
    Word(n, n + 1, n + 2, n + 3)
}

fn to_core(x: Word) -> CoreWord {
    CoreWord::new(x.to_array().map(CoreFelt::new))
}

fn lib(x: CoreWord) -> Word {
    Word::from_array(x.into())
}

fn header(block_num: u32, commitment: Word) -> BlockHeader {
    BlockHeader {
        block_num,
        version: 1,
        timestamp: 1000 + block_num,
        prev_block_commitment: w(100),
        chain_commitment: w(104),
        account_root: w(108),
        nullifier_root: w(112),
        note_root: w(116 + block_num as u64 * 1000),
        tx_commitment: w(120),
        tx_kernel_commitment: w(124),
        validator_key_commitment: w(128),
        native_asset_id: AccountId { prefix: 7, suffix: 8 },
        verification_base_fee: 9,
        sub_commitment: w(132 + block_num as u64 * 1000),
        commitment,
    }
}

fn account(id: AccountId, base: u64, is_new: bool, seed: Option<Word>) -> PartialAccount {
    PartialAccount {
        id,
        nonce: if is_new { 0 } else { 5 },
        code: AccountCode { commitment: w(base), elements: vec![1, 2, 3], mast: Arc::new(MastForest::new()) },
        storage: PartialStorage {
            commitment: w(base + 4),
            header: StorageHeader { commitment: w(base + 8), elements: vec![4, 5] },
            inner_nodes: vec![InnerNode { value: w(base + 12), left: w(base + 16), right: w(base + 20) }],
            leaves: vec![SmtLeaf::Single(w(base + 24), w(base + 28))],
            maps: vec![StorageMap { root: w(base + 32), entries: vec![(w(base + 36), w(base + 40))] }],
        },
        vault: PartialVault {
            root: w(base + 44),
            inner_nodes: vec![InnerNode { value: w(base + 48), left: w(base + 52), right: w(base + 56) }],
            leaves: vec![SmtLeaf::Empty(3)],
        },
        seed,
        is_new,
        id_and_nonce: w(base + 60),
    }
}

struct Chain {
    parts: MmrParts,
    partial: PartialMmr,
    block: BlockHeader,
}

/// A chain of three blocks that keeps the path of block 1.
fn chain() -> Chain {
    let mut mmr = Mmr::new();
    let leaves = [w(200), w(204), w(208)];
    for leaf in leaves {
        mmr.add(to_core(leaf));
    }
    let mut partial = PartialMmr::from_peaks(mmr.peaks());
    let proof = mmr.open(1).unwrap();
    partial.track(1, to_core(leaves[1]), proof.merkle_path()).unwrap();
    let parts = MmrParts {
        forest: partial.num_leaves(),
        peaks: partial.peaks().peaks().iter().map(|x| lib(*x)).collect(),
        nodes: partial.nodes().map(|(i, x)| (i.inner(), lib(*x))).collect(),
        kept_leaves: partial.leaves().map(|(p, _)| p).collect(),
    };
    Chain { parts, partial, block: header(1, leaves[1]) }
}

fn core_inner_nodes(partial: &PartialMmr, leaves: &[(usize, Word)]) -> Vec<InnerNode> {
    partial
        .inner_nodes(leaves.iter().map(|(p, x)| (*p, to_core(*x))))
        .map(|n| InnerNode { value: lib(n.value), left: lib(n.left), right: lib(n.right) })
        .collect()
}

fn note(base: u64, num_assets: u64) -> Note {
    Note {
        id: w(base),
        commitment: w(base + 28),
        metadata: w(base + 4),
        assets: NoteAssets {
            commitment: w(base + 8),
            num_assets,
            padded: (0..8 * num_assets).map(|i| base + 100 + i).collect(),
        },
        recipient: NoteRecipient {
            serial_num: w(base + 12),
            script_root: w(base + 16),
            script_advice_map: vec![(w(base + 24), vec![base + 60, base + 61])],
            inputs: NoteInputs { commitment: w(base + 20), values: vec![base + 50, base + 51], num_values: 2 },
        },
    }
}

struct Setup {
    tx: TransactionInputs,
    kernel: TransactionKernel,
    partial: PartialMmr,
}

fn setup() -> Setup {
    let Chain { parts, partial, block } = chain();
    let ref_header = header(3, w(300));
    let id = AccountId { prefix: 11, suffix: 12 };
    let mut initial = AdviceInputs::new();
    initial.stack = vec![42];
    initial.map.insert(w(900), vec![1]);
    let mut extra = AdviceInputs::new();
    extra.stack = vec![77, 78];
    extra.map.insert(w(900), vec![2]);
    let mut note_args = WordMap::new();
    // the argument is registered under a word with the same canonical elements as the note's id
    note_args.insert(Word(1000 + FELT_MODULUS, 1001, 1002, 1003), w(1500));
    let authenticated = InputNote::Authenticated {
        note: note(1000, 1),
        proof: NoteInclusionProof {
            block_num: 1,
            node_index_in_block: 6,
            path: vec![w(1600), w(1604), w(1608)],
        },
    };
    let unauthenticated = InputNote::Unauthenticated { note: note(2000, 2) };
    let tx = TransactionInputs {
        account: account(id, 400, true, Some(w(600))),
        block_header: ref_header,
        blockchain: PartialBlockchain { mmr: parts, blocks: vec![block] },
        input_notes: InputNotes { commitment: w(700), notes: vec![authenticated, unauthenticated] },
        tx_args: TransactionArgs {
            tx_script: Some(TransactionScript { root: w(800), advice_map: vec![(w(804), vec![3, 4])] }),
            tx_script_args: w(808),
            auth_args: w(812),
            note_args,
            advice_inputs: extra,
        },
        advice_inputs: initial,
        asset_witnesses: vec![AssetWitness {
            leaf: SmtLeaf::Single(w(816), w(820)),
            leaf_index: 3,
            path: vec![w(824), w(828)],
        }],
    };
    let kernel = TransactionKernel { version: 2, commitment: w(840), elements: vec![8, 8, 8] };
    Setup { tx, kernel, partial }
}

fn core_path_nodes(path: &[Word], index: u64, node: Word) -> Vec<InnerNode> {
    MerklePath::new(path.iter().map(|x| to_core(*x)).collect())
        .authenticated_nodes(index, to_core(node))
        .unwrap()
        .map(|n| InnerNode { value: lib(n.value), left: lib(n.left), right: lib(n.right) })
        .collect()
}

fn has_node(store: &MerkleStore, value: Word, left: Word, right: Word) -> bool {
    store.inner_nodes().contains(&InnerNode { value, left, right })
}

fn elements(x: Word) -> Vec<u64> {
    x.to_array().to_vec()
}

#[test]
fn inputs_of_the_example_are_consistent() {
    let s = setup();
    assert!(tx_inputs_are_consistent(&s.tx));
}

#[test]
fn a_note_from_an_unknown_block_makes_the_inputs_inconsistent() {
    let mut s = setup();
    s.tx.input_notes.notes.push(InputNote::Authenticated {
        note: note(3000, 0),
        proof: NoteInclusionProof { block_num: 2, node_index_in_block: 0, path: vec![] },
    });
    assert!(!tx_inputs_are_consistent(&s.tx));
}

#[test]
fn positions_beyond_their_paths_make_the_inputs_inconsistent() {
    let mut s = setup();
    if let InputNote::Authenticated { proof, .. } = &mut s.tx.input_notes.notes[0] {
        proof.node_index_in_block = 8;
    }
    assert!(!tx_inputs_are_consistent(&s.tx));
    let mut s = setup();
    s.tx.asset_witnesses[0].leaf_index = 4;
    assert!(!tx_inputs_are_consistent(&s.tx));
}

#[test]
fn duplicate_or_outside_blocks_make_the_inputs_inconsistent() {
    let mut s = setup();
    let extra = s.tx.blockchain.blocks[0];
    s.tx.blockchain.blocks.push(extra);
    assert!(!tx_inputs_are_consistent(&s.tx));
    let mut s = setup();
    s.tx.blockchain.blocks[0].block_num = 3;
    assert!(!tx_inputs_are_consistent(&s.tx));
}

#[test]
fn stack_holds_the_kernel_layout_between_the_given_stacks() {
    let s = setup();
    let inputs = TransactionAdviceInputs::new(&s.tx, &s.kernel).into_advice_inputs();
    let stack = inputs.stack;
    assert_eq!(stack.len(), 1 + 74 + 2);
    assert_eq!(stack[0], 42);
    let body = &stack[1..75];
    assert_eq!(&body[0..4], elements(w(100)).as_slice());
    assert_eq!(&body[24..28], elements(w(128)).as_slice());
    assert_eq!(&body[28..32], &[3, 1, 1003, 0]);
    assert_eq!(&body[32..36], &[8, 7, 9, 0]);
    assert_eq!(&body[36..40], &[0, 0, 0, 0]);
    assert_eq!(&body[40..44], elements(w(3116)).as_slice());
    // the kernel version follows the note root
    assert_eq!(body[44], 2);
    assert_eq!(&body[45..49], &[0, 0, 12, 11]);
    assert_eq!(&body[49..53], elements(w(444)).as_slice());
    assert_eq!(&body[53..57], elements(w(404)).as_slice());
    assert_eq!(&body[57..61], elements(w(400)).as_slice());
    assert_eq!(body[61], 2);
    assert_eq!(&body[62..66], elements(w(800)).as_slice());
    assert_eq!(&body[66..70], elements(w(808)).as_slice());
    assert_eq!(&body[70..74], elements(w(812)).as_slice());
    assert_eq!(&stack[75..], &[77, 78]);
}

#[test]
fn map_holds_kernel_chain_account_and_user_entries() {
    let s = setup();
    let inputs = TransactionAdviceInputs::new(&s.tx, &s.kernel).into_advice_inputs();
    let map = &inputs.map;
    // the user's advice replaces the entry of the initial advice
    assert_eq!(map.get(&w(900)), Some(vec![2]));
    assert_eq!(map.get(&w(840)), Some(vec![8, 8, 8]));
    // the peaks' hash maps to the number of leaves and the padded peaks
    let peaks = s.partial.peaks();
    let mut expected = vec![3, 0, 0, 0];
    expected.extend(peaks.flatten_and_pad_peaks().iter().map(|f| f.as_canonical_u64()));
    assert_eq!(expected.len(), 68);
    assert_eq!(map.get(&lib(peaks.hash_peaks())), Some(expected));
    // the key is the sequential hash of the padded peaks
    let padded = peaks.flatten_and_pad_peaks();
    assert_eq!(peaks.hash_peaks(), miden_crypto::hash::poseidon2::Poseidon2::hash_elements(&padded));
    // script, account code and storage
    assert_eq!(map.get(&w(804)), Some(vec![3, 4]));
    assert_eq!(map.get(&w(400)), Some(vec![1, 2, 3]));
    assert_eq!(map.get(&w(408)), Some(vec![4, 5]));
    // the seed under the account identifier's key
    assert_eq!(map.get(&Word(0, 0, 12, 11)), Some(elements(w(600))));
    // the storage map of the new account
    let mut entries = elements(w(436));
    entries.extend(elements(w(440)));
    assert_eq!(map.get(&w(432)), Some(entries));
}

#[test]
fn leaves_are_keyed_by_their_hash() {
    let s = setup();
    let inputs = TransactionAdviceInputs::new(&s.tx, &s.kernel).into_advice_inputs();
    let map = &inputs.map;
    let storage_leaf = CoreLeaf::new_single(to_core(w(424)), to_core(w(428))).hash();
    assert_ne!(lib(storage_leaf), w(424));
    let mut kv = elements(w(424));
    kv.extend(elements(w(428)));
    assert_eq!(map.get(&lib(storage_leaf)), Some(kv));
    // an empty vault leaf hashes to the zero word and has no elements
    assert_eq!(map.get(&Word(0, 0, 0, 0)), Some(Vec::new()));
    let asset_leaf = CoreLeaf::new_single(to_core(w(816)), to_core(w(820))).hash();
    let mut kv = elements(w(816));
    kv.extend(elements(w(820)));
    assert_eq!(map.get(&lib(asset_leaf)), Some(kv));
}

#[test]
fn notes_data_holds_each_note_in_turn() {
    let s = setup();
    let inputs = TransactionAdviceInputs::new(&s.tx, &s.kernel).into_advice_inputs();
    let map = &inputs.map;
    assert_eq!(map.get(&w(1020)), Some(vec![1050, 1051]));
    assert_eq!(map.get(&w(1008)), Some((1100..1108).collect::<Vec<u64>>()));
    // each note's script advice map entries
    assert_eq!(map.get(&w(1024)), Some(vec![1060, 1061]));
    assert_eq!(map.get(&w(2024)), Some(vec![2060, 2061]));
    let data = map.get(&w(700)).unwrap();
    // an authenticated note takes 37 elements beyond its assets, another 27
    assert_eq!(data.len(), (37 + 8) + (27 + 16));
    let first = &data[..45];
    assert_eq!(&first[0..4], elements(w(1012)).as_slice());
    assert_eq!(&first[4..8], elements(w(1016)).as_slice());
    assert_eq!(&first[8..12], elements(w(1020)).as_slice());
    assert_eq!(&first[12..16], elements(w(1008)).as_slice());
    assert_eq!(&first[16..20], elements(w(1500)).as_slice());
    assert_eq!(&first[20..24], elements(w(1004)).as_slice());
    assert_eq!(&first[24..26], &[2, 1]);
    assert_eq!(first[34], 1);
    assert_eq!(first[35], 1);
    assert_eq!(&first[36..40], elements(w(1132)).as_slice());
    assert_eq!(&first[40..44], elements(w(1116)).as_slice());
    assert_eq!(first[44], 6);
    let second = &data[45..];
    // the second note has no argument, so its argument is the empty word
    assert_eq!(&second[16..20], &[0, 0, 0, 0]);
    assert_eq!(&second[24..26], &[2, 2]);
    assert_eq!(second[42], 0);
}

#[test]
fn store_holds_chain_note_account_and_asset_paths() {
    let s = setup();
    let inputs = TransactionAdviceInputs::new(&s.tx, &s.kernel).into_advice_inputs();
    let store = &inputs.store;
    let mut with_ref = s.partial.clone();
    with_ref.add(to_core(w(300)), false);
    let after = core_inner_nodes(&with_ref, &[(1, w(204))]);
    assert!(!after.is_empty());
    let kept = core_inner_nodes(&s.partial, &[(1, w(204))]);
    assert!(!kept.is_empty());
    for n in after.iter().chain(kept.iter()) {
        assert!(has_node(store, n.value, n.left, n.right));
    }
    // the note's path from its commitment, at position 6 of a tree of depth 3
    let note_path = core_path_nodes(&[w(1600), w(1604), w(1608)], 6, w(1028));
    assert_eq!(note_path.len(), 3);
    assert_eq!(note_path[0], InnerNode { value: note_path[0].value, left: w(1028), right: w(1600) });
    for n in &note_path {
        assert!(has_node(store, n.value, n.left, n.right));
    }
    assert!(has_node(&store, w(412), w(416), w(420)));
    assert!(has_node(&store, w(448), w(452), w(456)));
    // the asset witness's path from its leaf's hash, at position 3
    let leaf_hash = lib(CoreLeaf::new_single(to_core(w(816)), to_core(w(820))).hash());
    let asset_path = core_path_nodes(&[w(824), w(828)], 3, leaf_hash);
    assert_eq!(asset_path[0].right, leaf_hash);
    for n in &asset_path {
        assert!(has_node(store, n.value, n.left, n.right));
    }
}

#[test]
fn no_input_notes_add_no_notes_entry() {
    let mut s = setup();
    s.tx.input_notes.notes.clear();
    let inputs = TransactionAdviceInputs::new(&s.tx, &s.kernel).into_advice_inputs();
    assert_eq!(inputs.map.get(&w(700)), None);
    assert_eq!(inputs.stack[1 + 61], 0);
}

#[test]
fn an_existing_account_adds_no_storage_map_or_seed() {
    let mut s = setup();
    s.tx.account = account(AccountId { prefix: 11, suffix: 12 }, 400, false, None);
    let inputs = TransactionAdviceInputs::new(&s.tx, &s.kernel).into_advice_inputs();
    assert_eq!(inputs.map.get(&w(432)), None);
    assert_eq!(inputs.map.get(&Word(0, 0, 12, 11)), None);
}

#[test]
fn foreign_accounts_add_their_data_witness_and_header() {
    let mut inputs = TransactionAdviceInputs::from_advice_inputs(AdviceInputs::new());
    let foreign = AccountInputs {
        account: account(AccountId { prefix: 21, suffix: 22 }, 5000, false, None),
        witness: AccountWitness {
            leaf: SmtLeaf::Multiple(vec![(Word(5100, 1, 1, 9), w(5104)), (Word(5108, 1, 1, 9), w(5112))]),
            leaf_index: 1,
            path: vec![w(5116), w(5120)],
        },
    };
    inputs.add_foreign_accounts(&vec![foreign]);
    let inner = inputs.as_advice_inputs();
    assert!(inner.stack.is_empty());
    let mut header = elements(w(5060));
    for x in [w(5044), w(5004), w(5000)] {
        header.extend(elements(x));
    }
    assert_eq!(inner.map.get(&Word(0, 0, 22, 21)), Some(header));
    assert_eq!(inner.map.get(&w(5000)), Some(vec![1, 2, 3]));
    let k1 = Word(5100, 1, 1, 9);
    let k2 = Word(5108, 1, 1, 9);
    let leaf = CoreLeaf::new_multiple(vec![(to_core(k1), to_core(w(5104))), (to_core(k2), to_core(w(5112)))])
        .unwrap()
        .hash();
    let mut kv = Vec::new();
    for x in [k1, w(5104), k2, w(5112)] {
        kv.extend(elements(x));
    }
    let felts: Vec<CoreFelt> = kv.iter().map(|x| CoreFelt::new(*x)).collect();
    assert_eq!(leaf, miden_crypto::hash::poseidon2::Poseidon2::hash_elements(&felts));
    assert_eq!(inner.map.get(&lib(leaf)), Some(kv));
    for n in core_path_nodes(&[w(5116), w(5120)], 1, lib(leaf)) {
        assert!(has_node(&inner.store, n.value, n.left, n.right));
    }
    assert!(has_node(&inner.store, w(5012), w(5016), w(5020)));
}

#[test]
fn extend_appends_the_stack_and_replaces_entries() {
    let mut base = AdviceInputs::new();
    base.stack = vec![1];
    base.map.insert(w(1), vec![1]);
    let mut inputs: TransactionAdviceInputs = base.into();
    let mut more = AdviceInputs::new();
    more.stack = vec![2];
    more.map.insert(w(1), vec![3]);
    inputs.extend(more);
    let out: AdviceInputs = inputs.into();
    assert_eq!(out.stack, vec![1, 2]);
    assert_eq!(out.map.get(&w(1)), Some(vec![3]));
}
