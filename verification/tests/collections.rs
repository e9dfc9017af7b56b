use miden_tx_advice::advice::{AdviceInputs, AdviceMap};
use miden_tx_advice::merkle::{InnerNode, MerkleStore, SmtLeaf};
use miden_tx_advice::mmr::{add_may_write, flatten_and_pad_peaks, ones_in, MmrParts};
use miden_tx_advice::word::{felt_from_u64, Word, FELT_MODULUS};
use miden_tx_advice::word_map::WordMap;

fn w(n: u64) -> Word {
    Word(n, n + 1, n + 2, n + 3)
}

#[test]
fn felt_from_u64_reduces_modulo_the_field_order() {
    assert_eq!(felt_from_u64(0), 0);
    assert_eq!(felt_from_u64(7), 7);
    assert_eq!(felt_from_u64(FELT_MODULUS - 1), FELT_MODULUS - 1);
    assert_eq!(felt_from_u64(FELT_MODULUS), 0);
    assert_eq!(felt_from_u64(u64::MAX), u64::MAX - FELT_MODULUS);
}

#[test]
fn word_elements_and_arrays_agree() {
    let x = w(10);
    assert_eq!(x.to_array(), [10, 11, 12, 13]);
    assert_eq!(Word(FELT_MODULUS, FELT_MODULUS + 3, 5, u64::MAX).to_canonical(), Word(0, 3, 5, u64::MAX - FELT_MODULUS));
    assert_eq!(Word::from_array([10, 11, 12, 13]), x);
    assert_eq!(Word::empty(), Word(0, 0, 0, 0));
    let mut v = vec![1];
    x.append_to(&mut v);
    assert_eq!(v, vec![1, 10, 11, 12, 13]);
}

#[test]
fn word_map_replaces_the_value_under_a_key() {
    let mut m: WordMap<u64> = WordMap::new();
    m.insert(w(1), 5);
    m.insert(w(2), 6);
    m.insert(w(1), 7);
    assert_eq!(m.len(), 2);
    assert_eq!(m.get(&w(1)), Some(&7));
    assert_eq!(m.get(&w(2)), Some(&6));
    assert_eq!(m.get(&w(3)), None);
    // a word with the same canonical elements is the same key
    assert_eq!(m.get(&Word(1 + FELT_MODULUS, 2, 3, 4)), Some(&7));
    m.insert(Word(FELT_MODULUS + 2, 3, 4, 5), 8);
    assert_eq!(m.len(), 2);
    assert_eq!(m.get(&w(2)), Some(&8));
}

#[test]
fn advice_map_extend_lets_later_entries_win() {
    let mut m = AdviceMap::new();
    m.insert(w(1), vec![1]);
    m.extend(vec![(w(1), vec![2, 3]), (w(4), vec![4]), (w(4), vec![5])]);
    assert_eq!(m.get(&w(1)), Some(vec![2, 3]));
    assert_eq!(m.get(&w(4)), Some(vec![5]));
    assert_eq!(m.get(&w(9)), None);
    let copy = m.copy();
    assert_eq!(copy.get(&w(1)), Some(vec![2, 3]));
    assert_eq!(copy.get(&w(4)), Some(vec![5]));
    assert_eq!(copy.into_core().len(), 2);
}

#[test]
fn advice_map_keeps_canonical_keys_and_values() {
    let mut m = AdviceMap::new();
    m.insert(Word(FELT_MODULUS + 1, 2, 3, 4), vec![FELT_MODULUS, FELT_MODULUS + 5]);
    // the key denotes the same field elements as Word(1, 2, 3, 4)
    assert_eq!(m.get(&Word(1, 2, 3, 4)), Some(vec![0, 5]));
    m.insert(Word(1, 2, 3, 4), vec![7]);
    assert_eq!(m.get(&Word(FELT_MODULUS + 1, 2, 3, 4)), Some(vec![7]));
    assert_eq!(m.into_core().len(), 1);
}

#[test]
fn merkle_store_keeps_children_under_values() {
    let mut s = MerkleStore::new();
    let a = InnerNode { value: w(1), left: w(2), right: w(3) };
    let b = InnerNode { value: w(1), left: w(4), right: w(5) };
    let c = InnerNode { value: w(6), left: w(7), right: w(8) };
    s.extend(&vec![a, c, b]);
    let nodes = s.inner_nodes();
    assert!(nodes.contains(&b));
    assert!(nodes.contains(&c));
    assert!(!nodes.contains(&a));
    assert!(!nodes.iter().any(|n| n.value == w(2)));
    let copy = s.copy();
    assert_eq!(copy.inner_nodes().len(), nodes.len());
}

#[test]
fn advice_inputs_extend_appends_and_replaces() {
    let mut a = AdviceInputs::new();
    a.stack = vec![1, 2];
    a.map.insert(w(1), vec![1]);
    a.store.extend(&vec![InnerNode { value: w(1), left: w(2), right: w(3) }]);
    let mut b = AdviceInputs::new();
    b.stack = vec![3];
    b.map.insert(w(1), vec![9]);
    b.map.insert(w(2), vec![8]);
    b.store.extend(&vec![InnerNode { value: w(1), left: w(5), right: w(6) }]);
    a.extend(b);
    assert_eq!(a.stack, vec![1, 2, 3]);
    assert_eq!(a.map.get(&w(1)), Some(vec![9]));
    assert_eq!(a.map.get(&w(2)), Some(vec![8]));
    let nodes = a.store.inner_nodes();
    assert!(nodes.contains(&InnerNode { value: w(1), left: w(5), right: w(6) }));
    assert!(!nodes.contains(&InnerNode { value: w(1), left: w(2), right: w(3) }));
}

#[test]
fn leaf_elements_list_keys_then_values() {
    assert_eq!(SmtLeaf::Empty(3).to_elements(), Vec::<u64>::new());
    assert_eq!(SmtLeaf::Single(w(1), w(10)).to_elements(), vec![1, 2, 3, 4, 10, 11, 12, 13]);
    assert_eq!(
        SmtLeaf::Multiple(vec![(w(1), w(10)), (w(20), w(30))]).to_elements(),
        vec![1, 2, 3, 4, 10, 11, 12, 13, 20, 21, 22, 23, 30, 31, 32, 33]
    );
}

#[test]
fn peaks_are_padded_to_sixteen_words_and_an_even_count() {
    let padded = flatten_and_pad_peaks(&vec![w(1), w(5)]);
    assert_eq!(padded.len(), 64);
    assert_eq!(&padded[..8], &[1, 2, 3, 4, 5, 6, 7, 8]);
    assert!(padded[8..].iter().all(|e| *e == 0));
    let seventeen: Vec<Word> = (0..17).map(|i| w(i * 4 + 1)).collect();
    let padded = flatten_and_pad_peaks(&seventeen);
    assert_eq!(padded.len(), 72);
    assert_eq!(padded[67], 68);
    assert_eq!(&padded[68..], &[0, 0, 0, 0]);
    let eighteen: Vec<Word> = (0..18).map(|i| w(i * 4 + 1)).collect();
    assert_eq!(flatten_and_pad_peaks(&eighteen).len(), 72);
}

#[test]
fn ones_in_counts_one_bits() {
    assert_eq!(ones_in(0), 0);
    assert_eq!(ones_in(1), 1);
    assert_eq!(ones_in(0b1011), 3);
    assert_eq!(ones_in(255), 8);
}

#[test]
fn mmr_parts_validity() {
    let good = MmrParts { forest: 3, peaks: vec![w(1), w(2)], nodes: vec![(1, w(3)), (5, w(4))], kept_leaves: vec![2] };
    assert!(good.is_valid());
    // appending a leaf to three leaves writes the old left peak at 2 and the new node at 6
    let at_left_peak = MmrParts { forest: 3, peaks: vec![w(1), w(2)], nodes: vec![(2, w(3))], kept_leaves: vec![2] };
    assert!(!at_left_peak.is_valid());
    let at_new_node = MmrParts { forest: 3, peaks: vec![w(1), w(2)], nodes: vec![(6, w(3))], kept_leaves: vec![] };
    assert!(!at_new_node.is_valid());
    let wrong_peaks = MmrParts { forest: 3, peaks: vec![w(1)], nodes: vec![], kept_leaves: vec![] };
    assert!(!wrong_peaks.is_valid());
    let zero_index = MmrParts { forest: 1, peaks: vec![w(1)], nodes: vec![(0, w(3))], kept_leaves: vec![] };
    assert!(!zero_index.is_valid());
    let far_index = MmrParts { forest: 1, peaks: vec![w(1)], nodes: vec![(3, w(3))], kept_leaves: vec![] };
    assert!(!far_index.is_valid());
    let far_leaf = MmrParts { forest: 1, peaks: vec![w(1)], nodes: vec![], kept_leaves: vec![1] };
    assert!(!far_leaf.is_valid());
}


#[test]
fn appending_a_leaf_writes_above_the_merged_peaks() {
    // three leaves: the merges at levels 1 write at 6 and at the old peak 2
    assert!(add_may_write(3, 6));
    assert!(add_may_write(3, 2));
    assert!(!add_may_write(3, 4));
    assert!(!add_may_write(3, 5));
    // seven leaves: levels 1 and 2 write at 14, 10, 12 and 4
    for idx in [14, 10, 12, 4] {
        assert!(add_may_write(7, idx));
    }
    assert!(!add_may_write(7, 8));
    // an even count of leaves merges nothing
    for idx in 0..20 {
        assert!(!add_may_write(4, idx));
    }
}
